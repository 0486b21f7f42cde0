//! A Hilbert curve over a square grid of side `2^order`, used to linearise
//! two-dimensional points and to split a population into contiguous ranges.

use vstd::prelude::*;

verus! {

/// Number of cells along one axis of a grid with `order` bits per axis.
pub open spec fn grid_side(order: nat) -> nat
    decreases order,
{
    if order == 0 {
        1
    } else {
        2 * grid_side((order - 1) as nat)
    }
}

/// Quadrant code of the classical Hilbert construction for the bits `rx`, `ry`.
pub open spec fn quadrant_code(rx: bool, ry: bool) -> nat {
    if rx {
        if ry { 2 } else { 3 }
    } else {
        if ry { 1 } else { 0 }
    }
}

/// Index contributed by the levels `s, s/2, ..., 1` of a point `(x, y)` on a grid
/// of side `n`: each level adds `s * s * quadrant`, then reflects and transposes
/// the coordinates into the frame of the chosen sub-square.
pub open spec fn hilbert_tail(n: u32, x: u32, y: u32, s: u32) -> nat
    decreases s,
{
    if s == 0 {
        0
    } else {
        let rx = (x & s) > 0;
        let ry = (y & s) > 0;
        let nx: u32 = if !ry {
            if rx { (n - 1 - y) as u32 } else { y }
        } else {
            x
        };
        let ny: u32 = if !ry {
            if rx { (n - 1 - x) as u32 } else { x }
        } else {
            y
        };
        (s as nat) * (s as nat) * quadrant_code(rx, ry) + hilbert_tail(n, nx, ny, s / 2)
    }
}

/// Position of a point on the Hilbert curve of the given order. Coordinates are
/// taken modulo the grid side; a point that is not two-dimensional maps to 0.
pub open spec fn hilbert_index(order: u32, point: Seq<u32>) -> nat {
    if point.len() != 2 {
        0
    } else {
        let n = grid_side(order as nat);
        hilbert_tail(
            n as u32,
            (point[0] as nat % n) as u32,
            (point[1] as nat % n) as u32,
            (n / 2) as u32,
        )
    }
}

/// Bit-concatenated index: coordinate `i` shifted left by `i * order` bits and
/// or-ed into a 64-bit word.
pub open spec fn packed_index(point: Seq<u32>, order: u32) -> u64
    decreases point.len(),
{
    if point.len() == 0 {
        0
    } else {
        let last = (point.len() - 1) as int;
        packed_index(point.drop_last(), order) | ((point[last] as u64) << ((last * order) as u32))
    }
}

proof fn lemma_grid_side_monotone(a: nat, b: nat)
    requires
        a <= b,
    ensures
        1 <= grid_side(a) <= grid_side(b),
    decreases b,
{
    if b > a {
        lemma_grid_side_monotone(a, (b - 1) as nat);
    } else if a > 0 {
        lemma_grid_side_monotone((a - 1) as nat, (a - 1) as nat);
    }
}

proof fn lemma_grid_side_bounds(order: nat)
    requires
        order <= 31,
    ensures
        1 <= grid_side(order) <= 0x8000_0000,
        order > 0 ==> grid_side(order) == 2 * grid_side((order - 1) as nat),
{
    lemma_grid_side_monotone(order, 31);
    reveal_with_fuel(grid_side, 32);
    assert(grid_side(31) == 0x8000_0000);
}

proof fn lemma_level_budget(d0: nat, s: u32, q: nat, nn: nat)
    requires
        d0 + 4 * (s as nat) * (s as nat) <= nn,
        q <= 3,
        s > 0,
    ensures
        d0 + (s as nat) * (s as nat) * q + 4 * ((s / 2) as nat) * ((s / 2) as nat) <= nn,
        s == 1 ==> d0 + (s as nat) * (s as nat) * q < nn,
        (s as nat) * (s as nat) * q <= 3 * ((s as nat) * (s as nat)),
{
    let h = (s / 2) as nat;
    let t = s as nat;
    assert(4 * h * h <= t * t) by (nonlinear_arith)
        requires
            h == t / 2,
    ;
    assert(t * t * q <= 3 * (t * t)) by (nonlinear_arith)
        requires
            q <= 3,
    ;
    assert(d0 + t * t * q + 4 * h * h <= nn) by (nonlinear_arith)
        requires
            4 * h * h <= t * t,
            t * t * q <= 3 * (t * t),
            d0 + 4 * t * t <= nn,
    ;
    if s == 1 {
        assert(t * t == 1);
    }
}

/// `i` comes before `j` when its key is smaller, or equal with a smaller position:
/// the order that a stable sort by key leaves.
pub open spec fn precedes(keys: Seq<u64>, i: int, j: int) -> bool {
    keys[i] < keys[j] || (keys[i] == keys[j] && i < j)
}

/// `ord` lists every position of `keys` once, in the order of a stable sort by key.
pub open spec fn is_stable_order(keys: Seq<u64>, ord: Seq<usize>) -> bool {
    &&& ord.len() == keys.len()
    &&& forall|a: int| 0 <= a < ord.len() ==> ord[a] < keys.len()
    &&& forall|a: int, b: int|
        0 <= a < b < ord.len() ==> #[trigger] precedes(keys, ord[a] as int, ord[b] as int)
}

/// Positions of `keys`, stably sorted by key (insertion sort).
fn stable_order(keys: &Vec<u64>) -> (ord: Vec<usize>)
    ensures
        is_stable_order(keys@, ord@),
{
    let mut ord: Vec<usize> = Vec::new();
    let mut i: usize = 0;
    while i < keys.len()
        invariant
            i <= keys@.len(),
            ord@.len() == i,
            forall|a: int| 0 <= a < ord@.len() ==> ord@[a] < i,
            forall|a: int, b: int|
                0 <= a < b < ord@.len() ==> #[trigger] precedes(keys@, ord@[a] as int, ord@[b] as int),
        decreases keys@.len() - i,
    {
        let key = keys[i];
        let mut p: usize = 0;
        while p < ord.len() && keys[ord[p]] <= key
            invariant
                p <= ord@.len(),
                ord@.len() == i,
                i < keys@.len(),
                key == keys@[i as int],
                forall|a: int| 0 <= a < ord@.len() ==> ord@[a] < i,
                forall|a: int| 0 <= a < p ==> keys@[#[trigger] ord@[a] as int] <= key,
            decreases ord@.len() - p,
        {
            p += 1;
        }
        proof {
            assert forall|a: int| p <= a < ord@.len() implies key < keys@[#[trigger] ord@[a] as int] by {
                if a > p {
                    assert(precedes(keys@, ord@[p as int] as int, ord@[a] as int));
                }
            }
        }
        let ghost old_ord = ord@;
        ord.insert(p, i);
        proof {
            assert forall|a: int, b: int|
                0 <= a < b < ord@.len() implies #[trigger] precedes(keys@, ord@[a] as int, ord@[b] as int) by {
                if b < p {
                    assert(precedes(keys@, old_ord[a] as int, old_ord[b] as int));
                } else if b == p {
                    assert(ord@[a] == old_ord[a]);
                } else if a < p {
                    assert(precedes(keys@, old_ord[a] as int, old_ord[b - 1] as int));
                } else if a == p {
                    assert(ord@[b] == old_ord[b - 1]);
                } else {
                    assert(precedes(keys@, old_ord[a - 1] as int, old_ord[b - 1] as int));
                }
            }
        }
        i += 1;
    }
    ord
}

/// Hilbert index of each item's point, in the order of `data`.
pub open spec fn curve_keys<T>(data: Seq<(T, [u32; 2])>, order: u32) -> Seq<u64> {
    data.map_values(|e: (T, [u32; 2])| hilbert_index(order, e.1@) as u64)
}

/// Distance along the Hilbert curve between each item's point and `query`.
pub open spec fn curve_distances<T>(data: Seq<(T, [u32; 2])>, order: u32, query: Seq<u32>) -> Seq<u64> {
    data.map_values(
        |e: (T, [u32; 2])|
            {
                let a = hilbert_index(order, e.1@);
                let b = hilbert_index(order, query);
                (if a >= b { a - b } else { b - a }) as u64
            },
    )
}

/// Size of each group when `n` items are split into `parts` groups of equal size,
/// the last one possibly smaller.
pub open spec fn group_size(n: nat, parts: nat) -> nat {
    if parts == 0 { 0 } else { ((n + parts - 1) as nat / parts) as nat }
}

/// `groups` cuts the items listed by `ord` into consecutive runs of `size`; the
/// last run may be shorter, and each element is a clone of the listed item.
pub open spec fn chunked<T: Clone>(
    groups: Seq<Vec<T>>,
    data: Seq<(T, [u32; 2])>,
    ord: Seq<usize>,
    size: nat,
) -> bool {
    &&& forall|c: int|
        0 <= c < groups.len() ==> #[trigger] groups[c]@.len() == if (c + 1) * size <= ord.len() {
            size as int
        } else {
            ord.len() - c * size
        }
    &&& forall|c: int, k: int|
        0 <= c < groups.len() && 0 <= k < groups[c]@.len() ==> cloned(
            data[ord[c * size + k] as int].0,
            #[trigger] groups[c]@[k],
        )
    &&& groups.len() * size >= ord.len()
    &&& groups.len() > 0 ==> (groups.len() - 1) * size < ord.len()
}

#[derive(Debug)]
pub struct HilbertCurve {
    dimensions: u32,
    order: u32,
}

impl HilbertCurve {
    /// Number of groups that `partition` aims for.
    pub closed spec fn spec_dimensions(&self) -> u32 {
        self.dimensions
    }

    /// Bits of resolution per axis.
    pub closed spec fn spec_order(&self) -> u32 {
        self.order
    }

    /// A curve splits into at least one group and its side `2^order` fits in `u32`.
    pub open spec fn wf(&self) -> bool {
        self.spec_dimensions() >= 1 && self.spec_order() <= 31
    }

    pub fn new(dimensions: u32, order: u32) -> (r: Self)
        requires
            dimensions >= 1,
            order <= 31,
        ensures
            r.wf(),
            r.spec_dimensions() == dimensions,
            r.spec_order() == order,
    {
        Self { dimensions, order }
    }

    /// Bit-concatenation index of a point: coordinate `i` lands at bit `i * order`.
    pub fn compute_index(&self, point: &[u32]) -> (r: u64)
        requires
            point@.len() == 0 || (point@.len() - 1) * self.spec_order() < 64,
        ensures
            r == packed_index(point@, self.spec_order()),
    {
        let mut index: u64 = 0;
        let mut i: usize = 0;
        while i < point.len()
            invariant
                i <= point@.len(),
                point@.len() == 0 || (point@.len() - 1) * self.order < 64,
                index == packed_index(point@.take(i as int), self.order),
            decreases point@.len() - i,
        {
            assert((i as int) * (self.order as int) <= (point@.len() - 1) * (self.order as int))
                by (nonlinear_arith)
                requires
                    i < point@.len(),
            ;
            let shift64: u64 = (i as u64) * (self.order as u64);
            let shift: u32 = shift64 as u32;
            assert(point@.take(i as int + 1).drop_last() =~= point@.take(i as int));
            assert(point@.take(i as int + 1)[i as int] == point@[i as int]);
            index = index | ((point[i] as u64) << shift);
            i += 1;
        }
        assert(point@.take(i as int) =~= point@);
        index
    }

    /// Classical Hilbert-curve index of a two-dimensional point; coordinates are
    /// reduced modulo the grid side `2^order`, and any other length gives 0.
    pub fn compute_index_advanced(&self, point: &[u32]) -> (r: u64)
        requires
            self.wf(),
        ensures
            r as nat == hilbert_index(self.spec_order(), point@),
            r < grid_side(self.spec_order() as nat) * grid_side(self.spec_order() as nat),
    {
        proof {
            lemma_grid_side_bounds(self.order as nat);
        }
        let mut n: u32 = 1;
        let mut lvl: u32 = 0;
        while lvl < self.order
            invariant
                lvl <= self.order <= 31,
                n as nat == grid_side(lvl as nat),
            decreases self.order - lvl,
        {
            proof {
                lemma_grid_side_bounds((lvl + 1) as nat);
            }
            n = n * 2;
            lvl += 1;
        }
        if point.len() != 2 {
            assert(1 <= (n as nat) * (n as nat)) by (nonlinear_arith)
                requires
                    1 <= n,
            ;
            return 0;
        }
        let ghost order = self.order as nat;
        let mut x: u32 = point[0] % n;
        let mut y: u32 = point[1] % n;
        let mut d: u64 = 0;
        let mut s: u32 = n / 2;
        let ghost mut k: nat = order;
        proof {
            if order > 0 {
                lemma_grid_side_bounds(order);
            }
            assert(n as nat * n as nat <= 0x4000_0000_0000_0000) by (nonlinear_arith)
                requires
                    n <= 0x8000_0000,
            ;
            assert(4 * (s as nat) * (s as nat) <= (n as nat) * (n as nat)) by (nonlinear_arith)
                requires
                    s == n / 2,
            ;
            if s == 0 {
                assert(n == 1);
                assert((n as nat) * (n as nat) == 1) by (nonlinear_arith)
                    requires
                        n == 1,
                ;
            }
        }
        while s > 0
            invariant
                n as nat == grid_side(order),
                1 <= n <= 0x8000_0000,
                (n as nat) * (n as nat) <= 0x4000_0000_0000_0000,
                x < n,
                y < n,
                k <= order <= 31,
                k > 0 ==> s as nat == grid_side((k - 1) as nat),
                k == 0 ==> s == 0,
                d + 4 * (s as nat) * (s as nat) <= (n as nat) * (n as nat),
                s == 0 ==> d < (n as nat) * (n as nat),
                d + hilbert_tail(n, x, y, s) == hilbert_index(self.order, point@),
            decreases s,
        {
            proof {
                lemma_grid_side_bounds((k - 1) as nat);
                if k >= 2 {
                    lemma_grid_side_bounds((k - 2) as nat);
                }
            }
            let rx = (x & s) > 0;
            let ry = (y & s) > 0;
            let q: u64 = if rx {
                if ry { 2 } else { 3 }
            } else {
                if ry { 1 } else { 0 }
            };
            assert(q as nat == quadrant_code(rx, ry));
            let ghost s0 = s as nat;
            let ghost d0 = d as nat;
            assert(s0 * s0 <= 0x4000_0000_0000_0000) by (nonlinear_arith)
                requires
                    s0 <= 0x8000_0000,
            ;
            let ss: u64 = (s as u64) * (s as u64);
            assert(ss as nat == s0 * s0);
            let add: u64 = ss * q;
            assert(add as nat == s0 * s0 * (q as nat)) by (nonlinear_arith)
                requires
                    add as nat == (ss as nat) * (q as nat),
                    ss as nat == s0 * s0,
            ;
            proof {
                lemma_level_budget(d0, s, q as nat, (n as nat) * (n as nat));
            }
            d = d + add;
            assert(d as nat == d0 + s0 * s0 * (q as nat));
            if !ry {
                if rx {
                    x = n - 1 - x;
                    y = n - 1 - y;
                }
                let t = x;
                x = y;
                y = t;
            }
            s = s / 2;
            proof {
                k = (k - 1) as nat;
            }
        }
        d
    }

    /// Sorts the items by the Hilbert index of their points (stably) and cuts the sorted sequence into
    /// `dimensions` consecutive groups of equal size, the last one possibly smaller.
    /// No items give no groups.
    pub fn partition<T: Clone>(&self, data: &[(T, [u32; 2])]) -> (r: Vec<Vec<T>>)
        requires
            self.wf(),
        ensures
            data@.len() == 0 ==> r@.len() == 0,
            data@.len() > 0 ==> exists|ord: Seq<usize>|
                is_stable_order(curve_keys(data@, self.spec_order()), ord) && chunked(
                    r@,
                    data@,
                    ord,
                    group_size(data@.len(), self.spec_dimensions() as nat),
                ),
    {
        let n = data.len();
        let mut keys: Vec<u64> = Vec::new();
        let mut j: usize = 0;
        while j < n
            invariant
                self.wf(),
                n == data@.len(),
                j <= n,
                keys@.len() == j,
                forall|a: int| 0 <= a < j ==> keys@[a] == curve_keys(data@, self.order)[a],
            decreases n - j,
        {
            let key = self.compute_index_advanced(data[j].1.as_slice());
            keys.push(key);
            j += 1;
        }
        assert(keys@ =~= curve_keys(data@, self.order));
        let ord = stable_order(&keys);
        let mut groups: Vec<Vec<T>> = Vec::new();
        if n == 0 {
            return groups;
        }
        let dims = self.dimensions as usize;
        let q = n / dims;
        if n % dims != 0 {
            assert(q < n) by (nonlinear_arith)
                requires
                    dims >= 1,
                    q == n / dims,
                    n % dims != 0,
            ;
        }
        let size: usize = if n % dims == 0 { q } else { q + 1 };
        assert(size as nat == group_size(n as nat, dims as nat)) by (nonlinear_arith)
            requires
                dims >= 1,
                q == n / dims,
                size == q + if n % dims == 0 { 0int } else { 1int },
        ;
        assert(size >= 1 && size <= n) by (nonlinear_arith)
            requires
                dims >= 1,
                n >= 1,
                q == n / dims,
                size == q + if n % dims == 0 { 0int } else { 1int },
        ;
        let mut start: usize = 0;
        assert(groups@.len() == 0);
        assert(0 * (size as int) == 0);
        while start < n
            invariant
                n == data@.len(),
                ord@.len() == n,
                forall|a: int| 0 <= a < n ==> ord@[a] < n,
                1 <= size <= n,
                start <= n,
                start < n ==> start == groups@.len() * size,
                groups@.len() * size >= start,
                groups@.len() > 0 ==> (groups@.len() - 1) * size < start,
                forall|c: int|
                    0 <= c < groups@.len() ==> #[trigger] groups@[c]@.len() == if (c + 1) * size
                        <= n {
                        size as int
                    } else {
                        n - c * size
                    },
                forall|c: int, k: int|
                    0 <= c < groups@.len() && 0 <= k < groups@[c]@.len() ==> cloned(
                        data@[ord@[c * size + k] as int].0,
                        #[trigger] groups@[c]@[k],
                    ),
            decreases n - start,
        {
            let end: usize = if n - start < size { n } else { start + size };
            let mut g: Vec<T> = Vec::new();
            let mut j: usize = start;
            while j < end
                invariant
                    n == data@.len(),
                    ord@.len() == n,
                    forall|a: int| 0 <= a < n ==> ord@[a] < n,
                    start <= j <= end <= n,
                    g@.len() == j - start,
                    forall|k: int|
                        0 <= k < g@.len() ==> cloned(data@[ord@[start + k] as int].0, #[trigger] g@[k]),
                decreases end - j,
            {
                let item = data[ord[j]].0.clone();
                g.push(item);
                j += 1;
            }
            let ghost c = groups@.len() as int;
            assert((c + 1) * size == c * size + size) by (nonlinear_arith);
            let ghost old_groups = groups@;
            groups.push(g);
            proof {
                assert forall|c2: int, k: int|
                    0 <= c2 < groups@.len() && 0 <= k < groups@[c2]@.len() implies cloned(
                        data@[ord@[c2 * size + k] as int].0,
                        #[trigger] groups@[c2]@[k],
                    ) by {
                    if c2 < c {
                        assert(groups@[c2] == old_groups[c2]);
                    }
                }
            }
            start = end;
        }
        groups
    }

    /// The `k` items whose points lie closest to `query_point` along the curve,
    /// nearest first; ties keep the order of `data`. An approximation of the
    /// spatial nearest neighbours.
    pub fn find_nearest_neighbors<'a, T: Clone>(
        &self,
        query_point: [u32; 2],
        data: &'a [(T, [u32; 2])],
        k: usize,
    ) -> (r: Vec<&'a T>)
        requires
            self.wf(),
        ensures
            r@.len() == if k < data@.len() { k as int } else { data@.len() as int },
            exists|ord: Seq<usize>|
                is_stable_order(curve_distances(data@, self.spec_order(), query_point@), ord)
                    && forall|j: int| 0 <= j < r@.len() ==> *r@[j] == data@[ord[j] as int].0,
    {
        let query_index = self.compute_index_advanced(query_point.as_slice());
        let n = data.len();
        let mut dist: Vec<u64> = Vec::new();
        let mut j: usize = 0;
        while j < n
            invariant
                self.wf(),
                n == data@.len(),
                j <= n,
                query_index as nat == hilbert_index(self.order, query_point@),
                dist@.len() == j,
                forall|a: int|
                    0 <= a < j ==> dist@[a] == curve_distances(data@, self.order, query_point@)[a],
            decreases n - j,
        {
            let idx = self.compute_index_advanced(data[j].1.as_slice());
            let d = if idx > query_index { idx - query_index } else { query_index - idx };
            dist.push(d);
            j += 1;
        }
        assert(dist@ =~= curve_distances(data@, self.order, query_point@));
        let ord = stable_order(&dist);
        let take = if k < n { k } else { n };
        let mut r: Vec<&'a T> = Vec::new();
        let mut j: usize = 0;
        while j < take
            invariant
                take <= n == data@.len(),
                ord@.len() == n,
                forall|a: int| 0 <= a < n ==> ord@[a] < n,
                j <= take,
                r@.len() == j,
                forall|a: int| 0 <= a < j ==> *r@[a] == data@[ord@[a] as int].0,
            decreases take - j,
        {
            r.push(&data[ord[j]].0);
            j += 1;
        }
        r
    }
}

} // verus!
