//! Image textures: where the sample for a pixel lies in the pixel data.

use vstd::prelude::*;

verus! {

/// The coordinate `c` brought into an extent of `n` pixels: `c` itself if it
/// is below `n`, else the last pixel.
pub open spec fn clamped(c: usize, n: usize) -> int {
    if c < n {
        c as int
    } else {
        n - 1
    }
}

/// The position of the red sample of pixel `(i, j)` in an image of `width`
/// by `height` pixels, stored row by row with three samples per pixel.
pub open spec fn sample_offset(i: usize, j: usize, width: usize, height: usize) -> int {
    3 * clamped(i, width) + 3 * width * clamped(j, height)
}

/// Returns the index of the red sample of pixel `(i, j)`, after bringing a
/// column or row beyond the image back to its last column or row. The green
/// and blue samples follow at the next two indices, and all three lie within
/// the pixel data.
pub fn texel_index(i: usize, j: usize, width: usize, height: usize) -> (index: usize)
    requires
        width >= 1,
        height >= 1,
        3 * width * height <= usize::MAX,
    ensures
        index == sample_offset(i, j, width, height),
        index + 2 < 3 * width * height,
{
    let i = if i >= width {
        width - 1
    } else {
        i
    };
    let j = if j >= height {
        height - 1
    } else {
        j
    };
    assert(3 * i + 3 * width * j + 2 < 3 * width * height) by (nonlinear_arith)
        requires
            i < width,
            j < height,
    ;
    assert(3 * width * j <= 3 * width * height) by (nonlinear_arith)
        requires
            j < height,
    ;
    assert(width * j <= width * height) by (nonlinear_arith)
        requires
            j < height,
    ;
    assert(3 * width <= 3 * width * height) by (nonlinear_arith)
        requires
            height >= 1,
    ;
    3 * i + 3 * width * j
}

} // verus!
