//! What holds of every run of the simulation.
use vstd::prelude::*;
use crate::dynamic::{D_MAX, Snapshot, is_grid, julia_seed, mandelbrot_seed};
use crate::plane::Plane;
use crate::simulation::{advance, next_d_row, next_pixel, next_z_row, run};

verus! {

/// Steps keep the shape of the arrays and count the generations.
pub proof fn lemma_run_shape<Z, F: Fn(Z, Z) -> Z, E: Fn(Z) -> bool>(
    points: Seq<Seq<Z>>,
    f: F,
    e: E,
    s: Snapshot<Z>,
    k: nat,
    width: nat,
    height: nat,
)
    requires
        is_grid(s.z, width, height),
        is_grid(s.d, width, height),
    ensures
        is_grid(run(points, f, e, s, k).z, width, height),
        is_grid(run(points, f, e, s, k).d, width, height),
        run(points, f, e, s, k).i == s.i + k,
    decreases k,
{
    if k > 0 {
        lemma_run_shape(points, f, e, s, (k - 1) as nat, width, height);
        let p = run(points, f, e, s, (k - 1) as nat);
        let q = advance(points, f, e, p);
        assert forall|y: int| 0 <= y < height implies (#[trigger] q.z[y]).len() == width by {}
        assert forall|y: int| 0 <= y < height implies (#[trigger] q.d[y]).len() == width by {}
    }
}

/// Once a pixel has escaped, its escape generation and its orbit value stay
/// as they are through every later step.
pub proof fn lemma_escape_frozen<Z, F: Fn(Z, Z) -> Z, E: Fn(Z) -> bool>(
    points: Seq<Seq<Z>>,
    f: F,
    e: E,
    s: Snapshot<Z>,
    k: nat,
    width: nat,
    height: nat,
    x: int,
    y: int,
)
    requires
        is_grid(s.z, width, height),
        is_grid(s.d, width, height),
        0 <= x < width,
        0 <= y < height,
        s.d[y][x] < D_MAX,
    ensures
        run(points, f, e, s, k).d[y][x] == s.d[y][x],
        run(points, f, e, s, k).z[y][x] == s.z[y][x],
    decreases k,
{
    if k > 0 {
        lemma_escape_frozen(points, f, e, s, (k - 1) as nat, width, height, x, y);
        lemma_run_shape(points, f, e, s, (k - 1) as nat, width, height);
        let p = run(points, f, e, s, (k - 1) as nat);
        assert(next_pixel(points, f, e, p, x, y) == (p.z[y][x], p.d[y][x]));
    }
}

/// Replaying `j + k` steps is replaying `j` steps and then `k` more: a
/// replay gives the same arrays however it is split.
pub proof fn lemma_run_split<Z, F: Fn(Z, Z) -> Z, E: Fn(Z) -> bool>(
    points: Seq<Seq<Z>>,
    f: F,
    e: E,
    s: Snapshot<Z>,
    j: nat,
    k: nat,
)
    ensures
        run(points, f, e, s, j + k) == run(points, f, e, run(points, f, e, s, j), k),
    decreases k,
{
    if k > 0 {
        lemma_run_split(points, f, e, s, j, (k - 1) as nat);
        assert((j + k - 1) as nat == j + (k - 1) as nat);
    }
}

/// The orbit rows that a worker computes for the rows `lo..hi`.
pub open spec fn chunk_z<Z, F: Fn(Z, Z) -> Z, E: Fn(Z) -> bool>(
    points: Seq<Seq<Z>>,
    f: F,
    e: E,
    s: Snapshot<Z>,
    lo: int,
    hi: int,
) -> Seq<Seq<Z>> {
    Seq::new((hi - lo) as nat, |k: int| next_z_row(points, f, e, s, lo + k))
}

/// The escape rows that a worker computes for the rows `lo..hi`.
pub open spec fn chunk_d<Z, F: Fn(Z, Z) -> Z, E: Fn(Z) -> bool>(
    points: Seq<Seq<Z>>,
    f: F,
    e: E,
    s: Snapshot<Z>,
    lo: int,
    hi: int,
) -> Seq<Seq<i32>> {
    Seq::new((hi - lo) as nat, |k: int| next_d_row(points, f, e, s, lo + k))
}

/// The rows split among workers at the bounds `b` (worker `j` takes the
/// rows `b[j]..b[j + 1]`), each computing its chunk from `s` alone, and the
/// chunks joined in order.
pub open spec fn joined<Z, F: Fn(Z, Z) -> Z, E: Fn(Z) -> bool>(
    points: Seq<Seq<Z>>,
    f: F,
    e: E,
    s: Snapshot<Z>,
    b: Seq<int>,
) -> (Seq<Seq<Z>>, Seq<Seq<i32>>)
    decreases b.len(),
{
    if b.len() <= 1 {
        (Seq::empty(), Seq::empty())
    } else {
        let prev = joined(points, f, e, s, b.drop_last());
        let lo = b[b.len() - 2];
        let hi = b[b.len() - 1];
        (prev.0 + chunk_z(points, f, e, s, lo, hi), prev.1 + chunk_d(points, f, e, s, lo, hi))
    }
}

/// Bounds that start at row 0 and never decrease.
pub open spec fn is_partition(b: Seq<int>) -> bool {
    &&& b.len() >= 1
    &&& b[0] == 0
    &&& forall|j: int| 0 <= j < b.len() - 1 ==> b[j] <= #[trigger] b[j + 1]
}

proof fn lemma_joined_prefix<Z, F: Fn(Z, Z) -> Z, E: Fn(Z) -> bool>(
    points: Seq<Seq<Z>>,
    f: F,
    e: E,
    s: Snapshot<Z>,
    b: Seq<int>,
)
    requires
        is_partition(b),
    ensures
        joined(points, f, e, s, b).0 == chunk_z(points, f, e, s, 0, b.last()),
        joined(points, f, e, s, b).1 == chunk_d(points, f, e, s, 0, b.last()),
    decreases b.len(),
{
    if b.len() > 1 {
        let c = b.drop_last();
        assert(is_partition(c)) by {
            assert forall|j: int| 0 <= j < c.len() - 1 implies c[j] <= #[trigger] c[j + 1] by {
                assert(b[j] <= b[j + 1]);
            }
        }
        lemma_joined_prefix(points, f, e, s, c);
        let lo = b[b.len() - 2];
        let hi = b[b.len() - 1];
        assert(lo <= hi) by {
            assert(b[b.len() - 2] <= b[(b.len() - 2) + 1]);
        }
        assert(lo >= 0) by {
            lemma_partition_nonnegative(b, b.len() - 2);
        }
        assert(joined(points, f, e, s, b).0 =~= chunk_z(points, f, e, s, 0, hi));
        assert(joined(points, f, e, s, b).1 =~= chunk_d(points, f, e, s, 0, hi));
    }
}

proof fn lemma_partition_nonnegative(b: Seq<int>, j: int)
    requires
        is_partition(b),
        0 <= j < b.len(),
    ensures
        b[j] >= 0,
    decreases j,
{
    if j > 0 {
        lemma_partition_nonnegative(b, j - 1);
        assert(b[j - 1] <= b[(j - 1) + 1]);
    }
}

/// However the rows are split among workers, the joined chunks are the next
/// generation: parallel evaluation gives the sequential result.
pub proof fn lemma_partition_equivalence<Z, F: Fn(Z, Z) -> Z, E: Fn(Z) -> bool>(
    points: Seq<Seq<Z>>,
    f: F,
    e: E,
    s: Snapshot<Z>,
    b: Seq<int>,
)
    requires
        is_partition(b),
        b.last() == s.z.len(),
    ensures
        joined(points, f, e, s, b).0 == advance(points, f, e, s).z,
        joined(points, f, e, s, b).1 == advance(points, f, e, s).d,
{
    lemma_joined_prefix(points, f, e, s, b);
    assert(chunk_z(points, f, e, s, 0, b.last()) =~= advance(points, f, e, s).z);
    assert(chunk_d(points, f, e, s, 0, b.last()) =~= advance(points, f, e, s).d);
}


/// Two states seeded alike over planes with the same points, iterating the
/// same map with the same escape test, have identical arrays after any
/// number of steps.
pub proof fn lemma_deterministic<Z, F: Fn(Z, Z) -> Z, E: Fn(Z) -> bool>(
    p: Plane<Z>,
    q: Plane<Z>,
    f: F,
    e: E,
    zero: Z,
    k: nat,
)
    requires
        p.wf(),
        q.wf(),
        p.grid() == q.grid(),
    ensures
        run(p.grid(), f, e, mandelbrot_seed(p, zero), k) == run(q.grid(), f, e, mandelbrot_seed(q, zero), k),
        run(p.grid(), f, e, julia_seed(p), k) == run(q.grid(), f, e, julia_seed(q), k),
{
    assert(p.grid().len() == p.points@.len());
    assert(q.grid().len() == q.points@.len());
    assert(p.height == q.height);
    assert(p.grid()[0] == p.points@[0]@);
    assert(q.grid()[0] == q.points@[0]@);
    assert(p.width == q.width);
}

/// A fresh state over a plane, replayed `k` steps, is at generation `k`,
/// has arrays of the plane's resolution, and holds no escape generation
/// above `k`.
pub proof fn lemma_replay<Z, F: Fn(Z, Z) -> Z, E: Fn(Z) -> bool>(
    plane: Plane<Z>,
    f: F,
    e: E,
    s: Snapshot<Z>,
    k: nat,
)
    requires
        plane.wf(),
        is_grid(s.z, plane.width as nat, plane.height as nat),
        s.d == crate::dynamic::filled(D_MAX, plane.width as nat, plane.height as nat),
        s.i == 0,
        k < D_MAX,
    ensures
        run(plane.grid(), f, e, s, k).i == k,
        is_grid(run(plane.grid(), f, e, s, k).z, plane.width as nat, plane.height as nat),
        is_grid(run(plane.grid(), f, e, s, k).d, plane.width as nat, plane.height as nat),
        forall|y: int, x: int| 0 <= y < plane.height && 0 <= x < plane.width ==> {
            let d = #[trigger] run(plane.grid(), f, e, s, k).d[y][x];
            d == D_MAX || 1 <= d <= k
        },
    decreases k,
{
    let w = plane.width as nat;
    let h = plane.height as nat;
    lemma_run_shape(plane.grid(), f, e, s, k, w, h);
    if k > 0 {
        lemma_replay(plane, f, e, s, (k - 1) as nat);
        lemma_run_shape(plane.grid(), f, e, s, (k - 1) as nat, w, h);
        let p = run(plane.grid(), f, e, s, (k - 1) as nat);
        assert forall|y: int, x: int| 0 <= y < h && 0 <= x < w implies {
            let d = #[trigger] run(plane.grid(), f, e, s, k).d[y][x];
            d == D_MAX || 1 <= d <= k
        } by {
            let pd = p.d[y][x];
            assert(pd == D_MAX || 1 <= pd <= k - 1);
            assert(p.i == k - 1);
            assert(run(plane.grid(), f, e, s, k).d[y][x] == next_pixel(plane.grid(), f, e, p, x, y).1);
        }
    } else {
        assert forall|y: int, x: int| 0 <= y < h && 0 <= x < w implies
            #[trigger] s.d[y][x] == D_MAX by {}
    }
}

} // verus!
