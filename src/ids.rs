//! Random identifiers for plans and shards.

use vstd::prelude::*;

verus! {

/// Characters of the URL-safe alphabet that identifiers are drawn from.
pub open spec fn is_id_char(c: char) -> bool {
    ('a' <= c && c <= 'z') || ('A' <= c && c <= 'Z') || ('0' <= c && c <= '9') || c == '_' || c == '-'
}

/// Relies on nanoid's `format` with its default random source and the URL-safe
/// alphabet `alphabet::SAFE`: `size` characters, each drawn from that alphabet
/// (all ASCII). A size of 0 would never return, hence the lower bound.
#[verifier::external_body]
pub(crate) fn random_id(size: usize) -> (r: String)
    requires
        1 <= size <= 64,
    ensures
        r@.len() == size,
        forall|i: int| 0 <= i < r@.len() ==> is_id_char(#[trigger] r@[i]),
{
    nanoid::format(nanoid::rngs::default, &nanoid::alphabet::SAFE, size)
}

} // verus!
