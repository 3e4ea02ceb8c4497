//! One generation of the simulation, and repeated generations.
use vstd::prelude::*;
use crate::dynamic::{D_MAX, HolomorphicDynamic, Snapshot, is_grid, rows_of};
use crate::function::{escapes, image, lemma_escapes, lemma_image};
use crate::parallel::par_unzip;

verus! {

/// The orbit value and escape generation of pixel `(x, y)` after one step
/// from `s`, with `points` the pixels' points of the plane.
///
/// An escaped pixel keeps both. Otherwise its new value is the map at its
/// value and point; if that value escapes, the new generation `s.i + 1` is
/// recorded as its escape generation.
pub open spec fn next_pixel<Z, F: Fn(Z, Z) -> Z, E: Fn(Z) -> bool>(
    points: Seq<Seq<Z>>,
    f: F,
    e: E,
    s: Snapshot<Z>,
    x: int,
    y: int,
) -> (Z, i32) {
    if s.d[y][x] != D_MAX {
        (s.z[y][x], s.d[y][x])
    } else {
        let v = image(f, s.z[y][x], points[y][x]);
        if escapes(e, v) {
            (v, (s.i + 1) as i32)
        } else {
            (v, D_MAX)
        }
    }
}

/// Row `y` of the orbit values after one step from `s`.
pub open spec fn next_z_row<Z, F: Fn(Z, Z) -> Z, E: Fn(Z) -> bool>(
    points: Seq<Seq<Z>>,
    f: F,
    e: E,
    s: Snapshot<Z>,
    y: int,
) -> Seq<Z> {
    Seq::new(s.z[y].len(), |x: int| next_pixel(points, f, e, s, x, y).0)
}

/// Row `y` of the escape generations after one step from `s`.
pub open spec fn next_d_row<Z, F: Fn(Z, Z) -> Z, E: Fn(Z) -> bool>(
    points: Seq<Seq<Z>>,
    f: F,
    e: E,
    s: Snapshot<Z>,
    y: int,
) -> Seq<i32> {
    Seq::new(s.z[y].len(), |x: int| next_pixel(points, f, e, s, x, y).1)
}

/// In the rows `zr` and `dr` that follow row `y` of `s`, each pixel that had
/// not escaped holds a value that `f` returns on the pixel's previous value
/// and point, and has escaped exactly when `e` answers so of that value.
pub open spec fn row_witnessed<Z, F: Fn(Z, Z) -> Z, E: Fn(Z) -> bool>(
    points: Seq<Seq<Z>>,
    f: F,
    e: E,
    s: Snapshot<Z>,
    y: int,
    zr: Seq<Z>,
    dr: Seq<i32>,
) -> bool {
    forall|x: int| 0 <= x < zr.len() && s.d[y][x] == D_MAX ==> {
        &&& call_ensures(f, (s.z[y][x], points[y][x]), #[trigger] zr[x])
        &&& call_ensures(e, (zr[x],), dr[x] != D_MAX)
    }
}

/// The state after one step from `s`: every pixel advanced from `s` alone.
pub open spec fn advance<Z, F: Fn(Z, Z) -> Z, E: Fn(Z) -> bool>(
    points: Seq<Seq<Z>>,
    f: F,
    e: E,
    s: Snapshot<Z>,
) -> Snapshot<Z> {
    Snapshot {
        z: Seq::new(s.z.len(), |y: int| next_z_row(points, f, e, s, y)),
        d: Seq::new(s.z.len(), |y: int| next_d_row(points, f, e, s, y)),
        i: s.i + 1,
    }
}

/// The state after `k` steps from `s`.
pub open spec fn run<Z, F: Fn(Z, Z) -> Z, E: Fn(Z) -> bool>(
    points: Seq<Seq<Z>>,
    f: F,
    e: E,
    s: Snapshot<Z>,
    k: nat,
) -> Snapshot<Z>
    decreases k,
{
    if k == 0 {
        s
    } else {
        advance(points, f, e, run(points, f, e, s, (k - 1) as nat))
    }
}

impl<Z: Copy, F: Fn(Z, Z) -> Z, E: Fn(Z) -> bool> HolomorphicDynamic<Z, F, E> {
    /// The state after one step from this one.
    pub open spec fn next(&self) -> Snapshot<Z> {
        advance(self.plane.grid(), self.f, self.escaped, self.snapshot())
    }

    /// Row `y` of the next generation: orbit values and escape generations.
    fn next_row(&self, y: usize) -> (r: (Vec<Z>, Vec<i32>))
        requires
            self.wf(),
            y < self.plane.height,
            self.i < D_MAX - 1,
        ensures
            r.0@ == next_z_row(self.plane.grid(), self.f, self.escaped, self.snapshot(), y as int),
            r.1@ == next_d_row(self.plane.grid(), self.f, self.escaped, self.snapshot(), y as int),
            row_witnessed(self.plane.grid(), self.f, self.escaped, self.snapshot(), y as int, r.0@, r.1@),
    {
        let ghost s = self.snapshot();
        let ghost points = self.plane.grid();
        let width = self.plane.width;
        let zs = &self.z[y];
        let ds = &self.d[y];
        let mut rz: Vec<Z> = Vec::with_capacity(width);
        let mut rd: Vec<i32> = Vec::with_capacity(width);
        let mut x: usize = 0;
        while x < width
            invariant
                self.wf(),
                s == self.snapshot(),
                points == self.plane.grid(),
                width == self.plane.width,
                y < self.plane.height,
                self.i < D_MAX - 1,
                zs@ == s.z[y as int],
                ds@ == s.d[y as int],
                x <= width,
                rz.len() == x,
                rd.len() == x,
                forall|k: int| 0 <= k < x ==> #[trigger] rz@[k] == next_pixel(points, self.f, self.escaped, s, k, y as int).0,
                forall|k: int| 0 <= k < x ==> #[trigger] rd@[k] == next_pixel(points, self.f, self.escaped, s, k, y as int).1,
                forall|k: int| 0 <= k < x && s.d[y as int][k] == D_MAX ==> {
                    &&& call_ensures(self.f, (s.z[y as int][k], points[y as int][k]), #[trigger] rz@[k])
                    &&& call_ensures(self.escaped, (rz@[k],), rd@[k] != D_MAX)
                },
            decreases width - x,
        {
            let dv = ds[x];
            if dv != D_MAX {
                rz.push(zs[x]);
                rd.push(dv);
            } else {
                let c = self.plane.xy_to_c(x, y);
                let v = (self.f)(zs[x], c);
                proof {
                    lemma_image(self.f, zs@[x as int], c, v);
                }
                let out = (self.escaped)(v);
                proof {
                    lemma_escapes(self.escaped, v, out);
                }
                rz.push(v);
                if out {
                    rd.push(self.i + 1);
                } else {
                    rd.push(D_MAX);
                }
            }
            x = x + 1;
        }
        assert(rz@ =~= next_z_row(points, self.f, self.escaped, s, y as int));
        assert(rd@ =~= next_d_row(points, self.f, self.escaped, s, y as int));
        assert(row_witnessed(points, self.f, self.escaped, s, y as int, rz@, rd@));
        (rz, rd)
    }

    /// Advances every pixel by one generation, the rows in parallel.
    ///
    /// Each pixel is computed from the previous arrays only: an escaped
    /// pixel keeps its value and escape generation; any other takes the
    /// map's value at its value and point, and records the new generation
    /// as its escape generation if that value escapes.
    pub fn step(&mut self)
        where
            Z: Send + Sync,
            F: Sync,
            E: Sync,
        requires
            old(self).wf(),
            old(self).i < D_MAX - 1,
        ensures
            final(self).wf(),
            final(self).plane == old(self).plane,
            final(self).f == old(self).f,
            final(self).escaped == old(self).escaped,
            final(self).snapshot() == old(self).next(),
            forall|y: int, x: int|
                0 <= y < old(self).plane.height && 0 <= x < old(self).plane.width
                    && old(self).snapshot().d[y][x] == D_MAX ==> {
                    &&& call_ensures(
                        old(self).f,
                        (old(self).snapshot().z[y][x], old(self).plane.grid()[y][x]),
                        #[trigger] final(self).snapshot().z[y][x],
                    )
                    &&& call_ensures(
                        old(self).escaped,
                        (final(self).snapshot().z[y][x],),
                        final(self).snapshot().d[y][x] != D_MAX,
                    )
                    &&& final(self).snapshot().d[y][x] != D_MAX ==> final(self).snapshot().d[y][x] == old(self).i + 1
                },
            forall|y: int, x: int|
                0 <= y < old(self).plane.height && 0 <= x < old(self).plane.width
                    && old(self).snapshot().d[y][x] != D_MAX ==> {
                    &&& #[trigger] final(self).snapshot().d[y][x] == old(self).snapshot().d[y][x]
                    &&& final(self).snapshot().z[y][x] == old(self).snapshot().z[y][x]
                },
    {
        let ghost s = self.snapshot();
        let ghost points = self.plane.grid();
        let height = self.plane.height;
        let this = &*self;
        let row = |y: usize| -> (r: (Vec<Z>, Vec<i32>))
            requires
                y < height,
            ensures
                r.0@ == next_z_row(this.plane.grid(), this.f, this.escaped, this.snapshot(), y as int),
                r.1@ == next_d_row(this.plane.grid(), this.f, this.escaped, this.snapshot(), y as int),
                row_witnessed(this.plane.grid(), this.f, this.escaped, this.snapshot(), y as int, r.0@, r.1@),
        {
            this.next_row(y)
        };
        let (z, d) = par_unzip(height, row);
        let ghost n = advance(points, self.f, self.escaped, s);
        assert(rows_of(z@) =~= n.z) by {
            assert forall|y: int| 0 <= y < height implies #[trigger] rows_of(z@)[y] == n.z[y] by {
                assert(call_ensures(row, (y as usize,), (z[y], d[y])));
            }
        }
        assert(rows_of(d@) =~= n.d) by {
            assert forall|y: int| 0 <= y < height implies #[trigger] rows_of(d@)[y] == n.d[y] by {
                assert(call_ensures(row, (y as usize,), (z[y], d[y])));
            }
        }
        assert forall|y: int| 0 <= y < height implies #[trigger] row_witnessed(points, self.f, self.escaped, s, y, z@[y]@, d@[y]@) by {
            assert(call_ensures(row, (y as usize,), (z[y], d[y])));
        }
        assert forall|y: int, x: int| 0 <= y < height && 0 <= x < self.plane.width && s.d[y][x] == D_MAX implies {
            &&& call_ensures(self.f, (s.z[y][x], points[y][x]), #[trigger] rows_of(z@)[y][x])
            &&& call_ensures(self.escaped, (rows_of(z@)[y][x],), rows_of(d@)[y][x] != D_MAX)
        } by {
            assert(row_witnessed(points, self.f, self.escaped, s, y, z@[y]@, d@[y]@));
            assert(rows_of(z@)[y] == z@[y]@);
            assert(rows_of(d@)[y] == d@[y]@);
            assert(n.d[y][x] == next_pixel(points, self.f, self.escaped, s, x, y).1);
        }
        assert forall|y: int, x: int| 0 <= y < height && 0 <= x < self.plane.width && s.d[y][x] != D_MAX implies {
            &&& #[trigger] n.d[y][x] == s.d[y][x]
            &&& n.z[y][x] == s.z[y][x]
        } by {
            assert(n.d[y][x] == next_pixel(points, self.f, self.escaped, s, x, y).1);
            assert(n.z[y][x] == next_pixel(points, self.f, self.escaped, s, x, y).0);
        }
        self.z = z;
        self.d = d;
        self.i = self.i + 1;
        assert(self.snapshot() == n);
        assert(is_grid(n.z, self.plane.width as nat, height as nat));
        assert(is_grid(n.d, self.plane.width as nat, height as nat));
    }

    /// Advances the state by `n` generations, one `step` after another.
    pub fn steps(&mut self, n: u32)
        where
            Z: Send + Sync,
            F: Sync,
            E: Sync,
        requires
            old(self).wf(),
            old(self).i + n < D_MAX,
        ensures
            final(self).wf(),
            final(self).plane == old(self).plane,
            final(self).f == old(self).f,
            final(self).escaped == old(self).escaped,
            final(self).snapshot() == run(old(self).plane.grid(), old(self).f, old(self).escaped, old(self).snapshot(), n as nat),
    {
        let ghost start = self.snapshot();
        let ghost plane = self.plane;
        let ghost f = self.f;
        let ghost e = self.escaped;
        let ghost i0 = self.i as int;
        let mut k: u32 = 0;
        while k < n
            invariant
                self.wf(),
                self.plane == plane,
                self.f == f,
                self.escaped == e,
                k <= n,
                i0 + n < D_MAX,
                self.i == i0 + k,
                self.snapshot() == run(plane.grid(), f, e, start, k as nat),
            decreases n - k,
        {
            self.step();
            k = k + 1;
        }
    }
}

} // verus!
