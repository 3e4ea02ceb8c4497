use fractals::config::FunctionalSDLConfig;
use fractals::pattern::pattern_rgb;
use fractals::dynamic::{HolomorphicDynamic, Juliaset, Mandelbrot, D_MAX};
use fractals::plane::{Plane, ViewportError};
use num::complex::Complex32;

const BOUND: f32 = 1.0e10;

fn quadratic(z: Complex32, c: Complex32) -> Complex32 {
    z * z + c
}

fn escaped(z: Complex32) -> bool {
    !(z.norm() <= BOUND)
}

/// The point of pixel `(x, y)` in the rectangle `re_min..re_max` by `im_min..im_max`.
fn viewport(
    re_min: f32,
    re_max: f32,
    im_min: f32,
    im_max: f32,
    width: usize,
    height: usize,
) -> Plane<Complex32> {
    Plane::new(width, height, move |x: usize, y: usize| {
        let re = re_min + (re_max - re_min) * x as f32 / width as f32;
        let im = im_min + (im_max - im_min) * y as f32 / height as f32;
        Complex32::new(re, im)
    })
    .unwrap()
}

fn mandelbrot(
    width: usize,
    height: usize,
) -> HolomorphicDynamic<Complex32, fn(Complex32, Complex32) -> Complex32, fn(Complex32) -> bool> {
    let plane = viewport(-2.0, 0.55, -1.2, 1.2, width, height);
    Mandelbrot::new(
        plane,
        quadratic as fn(Complex32, Complex32) -> Complex32,
        escaped as fn(Complex32) -> bool,
        Complex32::new(0.0, 0.0),
    )
}

#[test]
fn zero_resolution_is_refused() {
    let p = Plane::new(0, 3, |x: usize, y: usize| (x + y) as i64);
    assert!(matches!(p, Err(ViewportError::InvalidViewport)));
    let p = Plane::new(3, 0, |x: usize, y: usize| (x + y) as i64);
    assert!(matches!(p, Err(ViewportError::InvalidViewport)));
}

#[test]
fn plane_holds_each_pixels_point() {
    let p = Plane::new(3, 2, |x: usize, y: usize| (10 * y + x) as i64).unwrap();
    assert_eq!(p.width, 3);
    assert_eq!(p.height, 2);
    assert_eq!(p.xy_to_c(0, 0), 0);
    assert_eq!(p.xy_to_c(2, 1), 12);
    assert_eq!(p.c(), vec![vec![0, 1, 2], vec![10, 11, 12]]);
}

#[test]
fn julia_orbit_starts_at_the_pixels_point() {
    let plane = viewport(-2.0, 2.0, -2.0, 2.0, 40, 30);
    let k = Complex32::new(0.0, 1.0);
    let s = Juliaset::new(plane, move |z: Complex32, _c: Complex32| z * z + k, escaped);
    assert_eq!(s.i, 0);
    for y in 0..30 {
        for x in 0..40 {
            let p = s.plane.xy_to_c(x, y);
            assert_eq!(s.z[y][x].re.to_bits(), p.re.to_bits());
            assert_eq!(s.z[y][x].im.to_bits(), p.im.to_bits());
            assert_eq!(s.d[y][x], D_MAX);
        }
    }
    assert_eq!(s.z[0][0], Complex32::new(-2.0, -2.0));
}

#[test]
fn mandelbrot_orbit_starts_at_zero() {
    let s = mandelbrot(16, 12);
    assert_eq!(s.i, 0);
    assert_eq!(s.z.len(), 12);
    for row in &s.z {
        assert_eq!(row.len(), 16);
        assert!(row.iter().all(|z| *z == Complex32::new(0.0, 0.0)));
    }
    assert!(s.d.iter().all(|row| row.len() == 16 && row.iter().all(|d| *d == D_MAX)));
}

#[test]
fn first_step_of_mandelbrot_gives_the_points() {
    let mut s = mandelbrot(16, 12);
    s.step();
    assert_eq!(s.i, 1);
    for y in 0..12 {
        for x in 0..16 {
            assert_eq!(s.z[y][x], s.plane.xy_to_c(x, y));
        }
    }
}

#[test]
fn interior_stays_and_far_exterior_escapes() {
    let mut s = mandelbrot(800, 600);
    s.step();
    // the pixel nearest 0 + 0i, inside the main cardioid
    assert_eq!(s.d[300][627], D_MAX);
    // the pixel nearest -2 + 1.2i has not passed the bound yet
    assert_eq!(s.d[599][0], D_MAX);
    s.steps(6);
    assert_eq!(s.i, 7);
    assert_eq!(s.d[300][627], D_MAX);
    assert_eq!(s.d[599][0], 7);
}

#[test]
fn escaped_pixels_stay_frozen() {
    let mut s = mandelbrot(64, 48);
    s.steps(8);
    let z = s.z.clone();
    let d = s.d.clone();
    let mut frozen = 0;
    s.steps(5);
    for y in 0..48 {
        for x in 0..64 {
            if d[y][x] < D_MAX {
                frozen += 1;
                assert_eq!(s.d[y][x], d[y][x]);
                assert_eq!(s.z[y][x].re.to_bits(), z[y][x].re.to_bits());
                assert_eq!(s.z[y][x].im.to_bits(), z[y][x].im.to_bits());
            }
        }
    }
    assert!(frozen > 0);
}

#[test]
fn states_built_alike_stay_identical() {
    let mut a = mandelbrot(64, 48);
    let mut b = mandelbrot(64, 48);
    a.steps(12);
    for _ in 0..12 {
        b.step();
    }
    assert_eq!(a.i, b.i);
    assert_eq!(a.d, b.d);
    for y in 0..48 {
        for x in 0..64 {
            assert_eq!(a.z[y][x].re.to_bits(), b.z[y][x].re.to_bits());
            assert_eq!(a.z[y][x].im.to_bits(), b.z[y][x].im.to_bits());
        }
    }
}

#[test]
fn parallel_step_matches_pixel_by_pixel() {
    let mut s = mandelbrot(80, 60);
    s.steps(3);
    let (z0, d0, i0) = (s.z.clone(), s.d.clone(), s.i);
    s.step();
    for y in 0..60 {
        for x in 0..80 {
            if d0[y][x] != D_MAX {
                assert_eq!(s.z[y][x], z0[y][x]);
                assert_eq!(s.d[y][x], d0[y][x]);
            } else {
                let v = quadratic(z0[y][x], s.plane.xy_to_c(x, y));
                assert_eq!(s.z[y][x].re.to_bits(), v.re.to_bits());
                assert_eq!(s.z[y][x].im.to_bits(), v.im.to_bits());
                assert_eq!(s.d[y][x], if escaped(v) { i0 + 1 } else { D_MAX });
            }
        }
    }
}

#[test]
fn replay_at_new_resolution() {
    let mut old = mandelbrot(32, 24);
    old.steps(9);
    let mut fresh = mandelbrot(50, 40);
    fresh.steps(old.i as u32);
    assert_eq!(fresh.i, 9);
    assert_eq!(fresh.z.len(), 40);
    assert!(fresh.z.iter().all(|r| r.len() == 50));
    let mut again = mandelbrot(50, 40);
    for _ in 0..9 {
        again.step();
    }
    assert_eq!(fresh.d, again.d);
    assert_eq!(fresh.z, again.z);
    assert!(fresh.d.iter().flatten().all(|d| *d == D_MAX || (1..=9).contains(d)));
}

#[test]
fn not_a_number_counts_as_escape() {
    let plane = viewport(-1.0, 1.0, -1.0, 1.0, 4, 4);
    let mut s = Mandelbrot::new(
        plane,
        |_z: Complex32, _c: Complex32| Complex32::new(f32::NAN, 0.0),
        escaped,
        Complex32::new(0.0, 0.0),
    );
    s.step();
    assert!(s.d.iter().flatten().all(|d| *d == 1));
    assert!(s.z.iter().flatten().all(|z| z.re.is_nan()));
    s.step();
    assert!(s.d.iter().flatten().all(|d| *d == 1));
}

#[test]
fn integer_orbits_escape_at_exact_generations() {
    // pixel (x, y) has parameter x; the orbit of 0 under z*z + c escapes once it passes 100
    let plane = Plane::new(4, 2, |x: usize, _y: usize| x as i64).unwrap();
    let mut s = Mandelbrot::new(plane, |z: i64, c: i64| z * z + c, |z: i64| z.abs() > 100, 0);
    s.steps(5);
    // c = 0: 0, 0, ...; c = 1: 1, 2, 5, 26, 677; c = 2: 2, 6, 38, 1446; c = 3: 3, 12, 147
    assert_eq!(s.d[0], vec![D_MAX, 5, 4, 3]);
    assert_eq!(s.d[1], vec![D_MAX, 5, 4, 3]);
    assert_eq!(s.z[0], vec![0, 677, 1446, 147]);
    assert_eq!(s.i, 5);
}

#[test]
fn julia_with_integers_starts_from_points() {
    let plane = Plane::new(3, 1, |x: usize, _y: usize| x as i64 * 5).unwrap();
    let mut s = Juliaset::new(plane, |z: i64, _c: i64| z * z + 1, |z: i64| z > 30);
    assert_eq!(s.z[0], vec![0, 5, 10]);
    s.step();
    assert_eq!(s.z[0], vec![1, 26, 101]);
    assert_eq!(s.d[0], vec![D_MAX, D_MAX, 1]);
    s.step();
    assert_eq!(s.z[0], vec![2, 677, 101]);
    assert_eq!(s.d[0], vec![D_MAX, 2, 1]);
}

#[test]
fn default_window_config() {
    let c = FunctionalSDLConfig::default();
    assert_eq!(c.width, 800);
    assert_eq!(c.height, 600);
    assert_eq!(c.title, "");
}

#[test]
fn pattern_colors() {
    // x = 70 % 8 = 6, y = 70 / 8 = 8
    assert_eq!(pattern_rgb(70, 8), [46, 44, 5]);
    assert_eq!(pattern_rgb(0, 5), [0, 0, 0]);
}

#[test]
fn read_accessors() {
    let plane = Plane::new(3, 2, |x: usize, y: usize| (x + 10 * y) as i64).unwrap();
    let mut s = Mandelbrot::new(plane, |z: i64, c: i64| z + c, |z: i64| z >= 11, 0);
    assert_eq!(s.generation(), 0);
    s.step();
    assert_eq!(s.generation(), 1);
    assert_eq!(s.orbit_at(2, 1), 12);
    assert_eq!(s.escape_at(2, 1), 1);
    assert_eq!(s.escape_at(0, 0), D_MAX);
    assert_eq!(s.viewport().xy_to_c(1, 1), 11);
    s.step();
    // frozen at 12, escaped in generation 1; (2, 0) reaches 4, (0, 1) reaches 20
    assert_eq!(s.orbit_at(2, 1), 12);
    assert_eq!(s.escape_at(2, 1), 1);
    assert_eq!(s.orbit_at(2, 0), 4);
    assert_eq!(s.escape_at(2, 0), D_MAX);
    assert_eq!(s.orbit_at(0, 1), 20);
    assert_eq!(s.escape_at(0, 1), 2);
}

#[test]
fn escape_generation_near_the_sentinel() {
    let plane = Plane::new(2, 1, |x: usize, _y: usize| x as i64).unwrap();
    let mut s = Mandelbrot::new(plane, |z: i64, c: i64| z + c, |z: i64| z > 0, 0);
    s.i = D_MAX - 2;
    s.step();
    assert_eq!(s.generation(), D_MAX - 1);
    assert_eq!(s.d[0], vec![D_MAX, D_MAX - 1]);
}
