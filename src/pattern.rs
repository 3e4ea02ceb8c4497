//! The test pattern that the texture renderer paints.
use vstd::prelude::*;

verus! {

/// Red, green and blue of pixel `i` of the test pattern, for a texture whose
/// rows are `height` pixels long (`x = i % height`, `y = i / height`).
pub open spec fn pattern_spec(i: int, height: int) -> (int, int, int) {
    let x = i % height;
    let y = i / height;
    (
        (4 * (i % 64) + 2 * y + x) % 256,
        (4 * ((y + x / 2) % 64)) % 256,
        (3 * (256 - i % 64) + y + (x * 5) / 2) % 256,
    )
}

/// The color of pixel `i` of the test pattern.
pub fn pattern_rgb(i: usize, height: usize) -> (r: [u8; 3])
    requires
        height > 0,
        i < 0x1_0000_0000,
    ensures
        r[0] as int == pattern_spec(i as int, height as int).0,
        r[1] as int == pattern_spec(i as int, height as int).1,
        r[2] as int == pattern_spec(i as int, height as int).2,
{
    let n = i as u64;
    let h = height as u64;
    let y = n / h;
    let x = n % h;
    assert(y <= n && x <= n) by (nonlinear_arith)
        requires
            h > 0,
            y == n / h,
            x == n % h,
    ;
    let r = ((4 * (n % 64) + 2 * y + x) % 256) as u8;
    let g = ((4 * ((y + x / 2) % 64)) % 256) as u8;
    let b = ((3 * (256 - n % 64) + y + (x * 5) / 2) % 256) as u8;
    [r, g, b]
}

} // verus!
