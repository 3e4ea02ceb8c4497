//! The state of a dynamical system over a plane, and its two seedings.
use vstd::prelude::*;
use crate::function::{HolomorphicFn, is_map, is_test};
use crate::plane::Plane;

verus! {

/// The escape value of a pixel whose orbit has not escaped.
pub const D_MAX: i32 = 2147483647;

/// The per-pixel arrays and the generation of a state, as mathematical
/// values: `z[y][x]` the current orbit value, `d[y][x]` the escape
/// generation (or `D_MAX`), `i` the number of steps taken.
pub struct Snapshot<Z> {
    pub z: Seq<Seq<Z>>,
    pub d: Seq<Seq<i32>>,
    pub i: int,
}

/// `height` rows of `width` copies of `v`.
pub open spec fn filled<T>(v: T, width: nat, height: nat) -> Seq<Seq<T>> {
    Seq::new(height, |y: int| Seq::new(width, |x: int| v))
}

/// The rows of a grid of vectors, as sequences.
pub open spec fn rows_of<T>(g: Seq<Vec<T>>) -> Seq<Seq<T>> {
    g.map_values(|r: Vec<T>| r@)
}

/// A grid of `height` rows of `width` entries each.
pub open spec fn is_grid<T>(g: Seq<Seq<T>>, width: nat, height: nat) -> bool {
    &&& g.len() == height
    &&& forall|y: int| 0 <= y < height ==> (#[trigger] g[y]).len() == width
}

/// The state right after seeding with orbit values `z`: nothing has
/// escaped and no step has been taken.
pub open spec fn seeded<Z>(z: Seq<Seq<Z>>, width: nat, height: nat) -> Snapshot<Z> {
    Snapshot { z, d: filled(D_MAX, width, height), i: 0 }
}

/// Julia seeding: every pixel starts at its own point of the plane.
pub open spec fn julia_seed<Z>(plane: Plane<Z>) -> Snapshot<Z> {
    seeded(plane.grid(), plane.width as nat, plane.height as nat)
}

/// Mandelbrot seeding: every pixel starts at `zero`.
pub open spec fn mandelbrot_seed<Z>(plane: Plane<Z>, zero: Z) -> Snapshot<Z> {
    seeded(filled(zero, plane.width as nat, plane.height as nat), plane.width as nat, plane.height as nat)
}

/// The iterated map `f` over every pixel of `plane`: the current orbit
/// value `z[y][x]` of each pixel, its escape generation `d[y][x]` (`D_MAX`
/// while it has not escaped), and the generation `i`. `escaped` is the
/// escape test of an orbit value.
pub struct HolomorphicDynamic<Z, F, E> {
    pub plane: Plane<Z>,
    pub f: F,
    pub escaped: E,
    pub z: Vec<Vec<Z>>,
    pub d: Vec<Vec<i32>>,
    pub i: i32,
}

/// `height` rows of `width` copies of `v`.
fn filled_vec<T: Copy>(v: T, width: usize, height: usize) -> (r: Vec<Vec<T>>)
    ensures
        rows_of(r@) == filled(v, width as nat, height as nat),
{
    let mut r: Vec<Vec<T>> = Vec::with_capacity(height);
    let mut y: usize = 0;
    while y < height
        invariant
            y <= height,
            r.len() == y,
            forall|i: int| 0 <= i < y ==> (#[trigger] r@[i])@ == Seq::new(width as nat, |x: int| v),
        decreases height - y,
    {
        let mut row: Vec<T> = Vec::with_capacity(width);
        let mut x: usize = 0;
        while x < width
            invariant
                x <= width,
                row@ == Seq::new(x as nat, |k: int| v),
            decreases width - x,
        {
            row.push(v);
            x = x + 1;
            assert(row@ =~= Seq::new(x as nat, |k: int| v));
        }
        r.push(row);
        y = y + 1;
    }
    assert(rows_of(r@) =~= filled(v, width as nat, height as nat));
    r
}

impl<Z, F: Fn(Z, Z) -> Z, E: Fn(Z) -> bool> HolomorphicDynamic<Z, F, E> {
    /// The per-pixel arrays and the generation.
    pub open spec fn snapshot(&self) -> Snapshot<Z> {
        Snapshot { z: rows_of(self.z@), d: rows_of(self.d@), i: self.i as int }
    }

    /// The arrays match the plane's resolution, the map and the escape test
    /// are pure, the generation leaves room below `D_MAX`, and every escape
    /// generation lies between 1 and the current generation.
    pub open spec fn wf(&self) -> bool {
        let s = self.snapshot();
        let w = self.plane.width as nat;
        let h = self.plane.height as nat;
        &&& self.plane.wf()
        &&& is_map(self.f)
        &&& is_test(self.escaped)
        &&& is_grid(s.z, w, h)
        &&& is_grid(s.d, w, h)
        &&& 0 <= s.i < D_MAX
        &&& forall|y: int, x: int| 0 <= y < h && 0 <= x < w ==>
            #[trigger] s.d[y][x] == D_MAX || 1 <= s.d[y][x] <= s.i
    }

    /// The current orbit value of pixel `(x, y)`.
    pub fn orbit_at(&self, x: usize, y: usize) -> (r: Z)
        where
            Z: Copy,
        requires
            self.wf(),
            x < self.plane.width,
            y < self.plane.height,
        ensures
            r == self.snapshot().z[y as int][x as int],
    {
        assert(self.snapshot().z.len() == self.z@.len());
        assert(self.snapshot().z[y as int] == self.z@[y as int]@);
        self.z[y][x]
    }

    /// The escape generation of pixel `(x, y)`, `D_MAX` while it has not
    /// escaped.
    pub fn escape_at(&self, x: usize, y: usize) -> (r: i32)
        requires
            self.wf(),
            x < self.plane.width,
            y < self.plane.height,
        ensures
            r == self.snapshot().d[y as int][x as int],
    {
        assert(self.snapshot().d.len() == self.d@.len());
        assert(self.snapshot().d[y as int] == self.d@[y as int]@);
        self.d[y][x]
    }

    /// The number of steps taken.
    pub fn generation(&self) -> (r: i32)
        ensures
            r == self.i,
    {
        self.i
    }

    /// The plane the state is iterated over.
    pub fn viewport(&self) -> (r: &Plane<Z>)
        ensures
            r == self.plane,
    {
        &self.plane
    }

    /// A state over `plane` with initial orbit values `z0`.
    fn new(plane: Plane<Z>, f: F, escaped: E, z0: Vec<Vec<Z>>) -> (r: Self)
        requires
            plane.wf(),
            is_map(f),
            is_test(escaped),
            is_grid(rows_of(z0@), plane.width as nat, plane.height as nat),
        ensures
            r.wf(),
            r.plane == plane,
            r.f == f,
            r.escaped == escaped,
            r.snapshot() == seeded(rows_of(z0@), plane.width as nat, plane.height as nat),
    {
        let d = filled_vec(D_MAX, plane.width, plane.height);
        let r = HolomorphicDynamic { plane, f, escaped, z: z0, d, i: 0 };
        assert(r.snapshot() =~= seeded(rows_of(z0@), plane.width as nat, plane.height as nat));
        r
    }
}

/// Seeding of a Julia set: each pixel's orbit starts at the pixel's point.
pub struct Juliaset;

impl Juliaset {
    /// The state over `plane` whose pixel `(x, y)` starts at the pixel's
    /// point of the plane, with nothing escaped and generation 0.
    pub fn new<Z: Copy, F: HolomorphicFn<Z>, E: Fn(Z) -> bool>(plane: Plane<Z>, f: F, escaped: E) -> (r: HolomorphicDynamic<Z, F, E>)
        requires
            plane.wf(),
            is_map(f),
            is_test(escaped),
        ensures
            r.wf(),
            r.plane == plane,
            r.f == f,
            r.escaped == escaped,
            r.snapshot() == julia_seed(plane),
    {
        let z0 = plane.c();
        HolomorphicDynamic::new(plane, f, escaped, z0)
    }
}

/// Seeding of the Mandelbrot set: every pixel's orbit starts at zero.
pub struct Mandelbrot;

impl Mandelbrot {
    /// The state over `plane` whose every pixel starts at `zero`, with
    /// nothing escaped and generation 0.
    pub fn new<Z: Copy, F: HolomorphicFn<Z>, E: Fn(Z) -> bool>(plane: Plane<Z>, f: F, escaped: E, zero: Z) -> (r: HolomorphicDynamic<Z, F, E>)
        requires
            plane.wf(),
            is_map(f),
            is_test(escaped),
        ensures
            r.wf(),
            r.plane == plane,
            r.f == f,
            r.escaped == escaped,
            r.snapshot() == mandelbrot_seed(plane, zero),
    {
        let z0 = filled_vec(zero, plane.width, plane.height);
        HolomorphicDynamic::new(plane, f, escaped, z0)
    }
}

} // verus!
