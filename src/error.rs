//! Errors of the library's operations.

use vstd::prelude::*;

verus! {

#[derive(Clone, Debug)]
pub enum ShardError {
    /// Two vectors of different dimension met in one operation.
    DimensionMismatch { left: usize, right: usize },
    /// An input was refused before any work started.
    ValidationError { reason: String },
    /// A shard migration could not be planned or carried out.
    MigrationFailed { context: String, cause: String },
    /// The circuit breaker refused the operation without attempting it.
    CircuitBreakerOpen,
    /// A protected call ran past its budget.
    Timeout { duration_ms: u64, operation: String },
    /// The durable ledger reported a failure.
    LedgerError { message: String },
}

/// `r` is a failed migration whose context and cause read `context` and `cause`.
pub open spec fn migration_failed_with<T>(r: Result<T, ShardError>, context: Seq<char>, cause: Seq<char>) -> bool {
    match r {
        Err(ShardError::MigrationFailed { context: t, cause: c }) => t@ == context && c@ == cause,
        _ => false,
    }
}

} // verus!
