//! The viewport: a rectangle of the complex plane rasterized into pixels.
use vstd::prelude::*;
use crate::parallel::par_collect;

verus! {

/// Why a viewport was refused.
#[derive(Debug, Clone, Copy, PartialEq, Eq, Structural)]
pub enum ViewportError {
    /// A resolution of zero pixels, or bounds that do not enclose a rectangle.
    InvalidViewport,
}

/// A rasterized clipping of the complex plane: its resolution, and for each
/// pixel `(x, y)` the point of the plane it shows, at `points[y][x]`.
///
/// The points are computed once, when the plane is made; the mapping is the
/// same for every later reader, so it is never recomputed.
pub struct Plane<Z> {
    pub width: usize,
    pub height: usize,
    pub points: Vec<Vec<Z>>,
}

/// The points of row `y`: `point(x, y)` for each `x < width`.
fn point_row<Z, P: Fn(usize, usize) -> Z>(point: &P, y: usize, width: usize) -> (r: Vec<Z>)
    requires
        forall|x: usize| x < width ==> #[trigger] call_requires(*point, (x, y)),
    ensures
        r.len() == width,
        forall|x: usize| x < width ==> call_ensures(*point, (x, y), #[trigger] r[x as int]),
{
    let mut r: Vec<Z> = Vec::with_capacity(width);
    let mut x: usize = 0;
    while x < width
        invariant
            x <= width,
            r.len() == x,
            forall|x: usize| x < width ==> #[trigger] call_requires(*point, (x, y)),
            forall|i: usize| i < x ==> call_ensures(*point, (i, y), #[trigger] r[i as int]),
        decreases width - x,
    {
        let c = point(x, y);
        r.push(c);
        x = x + 1;
    }
    r
}

impl<Z> Plane<Z> {
    /// A resolution of at least one pixel each way, and one point per pixel.
    pub open spec fn wf(&self) -> bool {
        &&& self.width > 0
        &&& self.height > 0
        &&& self.points.len() == self.height
        &&& forall|y: int| 0 <= y < self.height ==> (#[trigger] self.points@[y]).len() == self.width
    }

    /// The point of the plane at pixel `(x, y)`.
    pub open spec fn point(&self, x: int, y: int) -> Z {
        self.points@[y]@[x]
    }

    /// The points, row by row.
    pub open spec fn grid(&self) -> Seq<Seq<Z>> {
        self.points@.map_values(|r: Vec<Z>| r@)
    }

    /// The plane of `width` by `height` pixels whose pixel `(x, y)` shows
    /// `point(x, y)`; the rows are computed in parallel.
    ///
    /// Fails with `InvalidViewport` when either dimension is zero.
    pub fn new<P: Fn(usize, usize) -> Z + Sync + Send>(width: usize, height: usize, point: P) -> (r: Result<Plane<Z>, ViewportError>)
        where
            Z: Send,
        requires
            forall|x: usize, y: usize| x < width && y < height ==> #[trigger] call_requires(point, (x, y)),
        ensures
            r is Ok <==> width > 0 && height > 0,
            r is Err ==> r == Err::<Plane<Z>, ViewportError>(ViewportError::InvalidViewport),
            r matches Ok(p) ==> {
                &&& p.wf()
                &&& p.width == width
                &&& p.height == height
                &&& forall|x: usize, y: usize| x < width && y < height ==> call_ensures(point, (x, y), #[trigger] p.point(x as int, y as int))
            },
    {
        if width == 0 || height == 0 {
            return Err(ViewportError::InvalidViewport);
        }
        let pt = &point;
        let row = |y: usize| -> (r: Vec<Z>)
            requires
                y < height,
            ensures
                r.len() == width,
                forall|x: usize| x < width ==> call_ensures(*pt, (x, y), #[trigger] r[x as int]),
        {
            point_row(pt, y, width)
        };
        let points = par_collect(height, row);
        let p = Plane { width, height, points };
        assert forall|x: usize, y: usize| x < width && y < height implies call_ensures(point, (x, y), #[trigger] p.point(x as int, y as int)) by {
            assert(call_ensures(row, (y,), points[y as int]));
        }
        Ok(p)
    }

    /// The point of the plane at pixel `(x, y)`.
    pub fn xy_to_c(&self, x: usize, y: usize) -> (r: Z)
        where
            Z: Copy,
        requires
            self.wf(),
            x < self.width,
            y < self.height,
        ensures
            r == self.point(x as int, y as int),
    {
        self.points[y][x]
    }

    /// The point for each pixel, row by row.
    pub fn c(&self) -> (r: Vec<Vec<Z>>)
        where
            Z: Copy,
        requires
            self.wf(),
        ensures
            r@.map_values(|v: Vec<Z>| v@) == self.grid(),
    {
        let mut r: Vec<Vec<Z>> = Vec::with_capacity(self.height);
        let mut y: usize = 0;
        while y < self.height
            invariant
                self.wf(),
                y <= self.height,
                r.len() == y,
                forall|i: int| 0 <= i < y ==> (#[trigger] r@[i])@ == self.points@[i]@,
            decreases self.height - y,
        {
            let mut row: Vec<Z> = Vec::with_capacity(self.width);
            let mut x: usize = 0;
            while x < self.width
                invariant
                    self.wf(),
                    y < self.height,
                    x <= self.width,
                    row@ == self.points@[y as int]@.subrange(0, x as int),
                decreases self.width - x,
            {
                row.push(self.points[y][x]);
                x = x + 1;
            }
            assert(row@ == self.points@[y as int]@);
            r.push(row);
            y = y + 1;
        }
        assert(r@.map_values(|v: Vec<Z>| v@) =~= self.grid());
        r
    }
}

} // verus!
