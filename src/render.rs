//! Filling a band of the image, pixel by pixel, and the shade rule that turns
//! an escape time into a gray level.
use vstd::prelude::*;

verus! {

/// Iterations after which a point is taken to stay bounded.
pub const ITERATION_LIMIT: usize = 255;

/// Gray level of a pixel: 255 for a point that escaped before the first
/// step, one level darker for each further step, 0 for a point that never
/// escaped.
pub open spec fn shade(escape: Option<usize>) -> u8 {
    match escape {
        Some(i) => (255 - i) as u8,
        None => 0,
    }
}

/// The byte of pixel `(col, row)` in a row-major buffer `width` pixels wide.
pub open spec fn pixel(buffer: Seq<u8>, width: usize, col: usize, row: usize) -> u8 {
    buffer[row * width + col]
}

/// Gray level for an escape time, as `shade` gives it.
pub fn intensity(escape: Option<usize>) -> (r: u8)
    requires
        escape matches Some(i) ==> i <= ITERATION_LIMIT,
    ensures
        r == shade(escape),
{
    match escape {
        Some(i) => 255 - i as u8,
        None => 0,
    }
}

proof fn lemma_index_in_band(width: usize, height: usize, col: usize, row: usize)
    requires
        col < width,
        row < height,
    ensures
        row * width + col < width * height,
        row * width + col >= 0,
{
    assert(row * width + col < width * height) by (nonlinear_arith)
        requires
            col < width,
            row < height,
    ;
    assert(row * width >= 0) by (nonlinear_arith);
}

/// Fills a band of `width` by `height` pixels, stored row-major in `pixels`,
/// with the value `shade_at(col, row)` at each pixel.
pub fn render_band<F: Fn(usize, usize) -> u8>(
    pixels: &mut [u8],
    width: usize,
    height: usize,
    shade_at: F,
)
    requires
        old(pixels)@.len() == width * height,
        forall|col: usize, row: usize|
            col < width && row < height ==> #[trigger] shade_at.requires((col, row)),
    ensures
        final(pixels)@.len() == width * height,
        forall|col: usize, row: usize|
            col < width && row < height ==> shade_at.ensures(
                (col, row),
                #[trigger] pixel(final(pixels)@, width, col, row),
            ),
{
    let total = pixels.len();
    for row in 0..height
        invariant
            total == width * height,
            pixels@.len() == width * height,
            forall|col: usize, row: usize|
                col < width && row < height ==> #[trigger] shade_at.requires((col, row)),
            forall|c: usize, r: usize|
                c < width && r < row ==> shade_at.ensures(
                    (c, r),
                    #[trigger] pixel(pixels@, width, c, r),
                ),
    {
        for col in 0..width
            invariant
                row < height,
                total == width * height,
                pixels@.len() == width * height,
                forall|col: usize, row: usize|
                    col < width && row < height ==> #[trigger] shade_at.requires((col, row)),
                forall|c: usize, r: usize|
                    c < width && (r < row || (r == row && c < col)) ==> shade_at.ensures(
                        (c, r),
                        #[trigger] pixel(pixels@, width, c, r),
                    ),
        {
            proof {
                lemma_index_in_band(width, height, col, row);
            }
            let value = shade_at(col, row);
            let index = row * width + col;
            let ghost before = pixels@;
            pixels[index] = value;
            assert forall|c: usize, r: usize|
                c < width && (r < row || (r == row && c <= col)) implies shade_at.ensures(
                (c, r),
                #[trigger] pixel(pixels@, width, c, r),
            ) by {
                lemma_index_in_band(width, height, c, r);
                if r < row {
                    assert(r * width + c < row * width) by (nonlinear_arith)
                        requires
                            r < row,
                            c < width,
                    ;
                    assert(pixel(pixels@, width, c, r) == pixel(before, width, c, r));
                } else if c < col {
                    assert(pixel(pixels@, width, c, r) == pixel(before, width, c, r));
                }
            }
        }
    }
}

} // verus!
