//! Region extraction: cropping a sub-rectangle out of a captured image.

use vstd::prelude::*;

use crate::CaptureError;
use crate::ImageData;
use crate::lemma_pixel_idx_bound;
use crate::lemma_pixel_idx_injective;
use crate::pixel_idx;

verus! {

/// Crops the `width` by `height` rectangle whose top-left corner is
/// `(x, y)` out of `src`. The rectangle must lie inside the source image;
/// otherwise nothing is cropped and the region is rejected.
pub fn extract_region(src: &ImageData, x: u32, y: u32, width: u32, height: u32) -> (r: Result<
    ImageData,
    CaptureError,
>)
    requires
        src.wf(),
    ensures
        match r {
            Ok(out) => {
                &&& x + width <= src.width
                &&& y + height <= src.height
                &&& out.wf()
                &&& out.width == width
                &&& out.height == height
                &&& forall|px: int, py: int, k: int|
                    0 <= px < width && 0 <= py < height && 0 <= k < 4 ==> out.byte_at(px, py, k)
                        == src.byte_at(x + px, y + py, k)
            },
            Err(e) => {
                &&& e == CaptureError::InvalidRegion
                &&& (x + width > src.width || y + height > src.height)
            },
        },
{
    if (x as u64) + (width as u64) > (src.width as u64) || (y as u64) + (height as u64) > (
    src.height as u64) {
        return Err(CaptureError::InvalidRegion);
    }
    let src_len = src.image.len();
    let sw = src.width as usize;
    let mut out: Vec<u8> = Vec::new();
    let mut py: usize = 0;
    while py < height as usize
        invariant
            src.wf(),
            x + width <= src.width,
            y + height <= src.height,
            src_len == src.image@.len(),
            sw == src.width,
            py <= height,
            out@.len() == py * width * 4,
            forall|qx: int, qy: int, qk: int|
                0 <= qx < width && 0 <= qy < height && 0 <= qk < 4 && #[trigger] pixel_idx(
                    width as int,
                    qx,
                    qy,
                    qk,
                ) < out@.len() ==> out@[pixel_idx(width as int, qx, qy, qk)] == src.byte_at(
                    x + qx,
                    y + qy,
                    qk,
                ),
        decreases height - py,
    {
        let mut px: usize = 0;
        while px < width as usize
            invariant
                src.wf(),
                x + width <= src.width,
                y + height <= src.height,
                src_len == src.image@.len(),
                sw == src.width,
                py < height,
                px <= width,
                out@.len() == (py * width + px) * 4,
                forall|qx: int, qy: int, qk: int|
                    0 <= qx < width && 0 <= qy < height && 0 <= qk < 4 && #[trigger] pixel_idx(
                        width as int,
                        qx,
                        qy,
                        qk,
                    ) < out@.len() ==> out@[pixel_idx(width as int, qx, qy, qk)] == src.byte_at(
                        x + qx,
                        y + qy,
                        qk,
                    ),
            decreases width - px,
        {
            let sx = (x as usize) + px;
            let sy = (y as usize) + py;
            proof {
                lemma_pixel_idx_bound(src.width as int, src.height as int, sx as int, sy as int, 0);
                lemma_pixel_idx_bound(src.width as int, src.height as int, sx as int, sy as int, 3);
                lemma_pixel_idx_bound(width as int, height as int, px as int, py as int, 0);
                lemma_pixel_idx_bound(width as int, height as int, px as int, py as int, 3);
            }
            let src_base = (sy * sw + sx) * 4;
            let mut k: usize = 0;
            while k < 4
                invariant
                    src.wf(),
                    x + width <= src.width,
                    y + height <= src.height,
                    src_len == src.image@.len(),
                    sw == src.width,
                    py < height,
                    px < width,
                    k <= 4,
                    sx == x + px,
                    sy == y + py,
                    src_base == pixel_idx(src.width as int, sx as int, sy as int, 0),
                    src_base + 3 < src_len,
                    out@.len() == pixel_idx(width as int, px as int, py as int, k as int),
                    forall|qx: int, qy: int, qk: int|
                        0 <= qx < width && 0 <= qy < height && 0 <= qk < 4 && #[trigger] pixel_idx(
                            width as int,
                            qx,
                            qy,
                            qk,
                        ) < out@.len() ==> out@[pixel_idx(width as int, qx, qy, qk)]
                            == src.byte_at(x + qx, y + qy, qk),
                decreases 4 - k,
            {
                let b = src.image[src_base + k];
                out.push(b);
                proof {
                    assert forall|qx: int, qy: int, qk: int|
                        0 <= qx < width && 0 <= qy < height && 0 <= qk < 4 && #[trigger] pixel_idx(
                            width as int,
                            qx,
                            qy,
                            qk,
                        ) < out@.len() implies out@[pixel_idx(width as int, qx, qy, qk)]
                        == src.byte_at(x + qx, y + qy, qk) by {
                        if pixel_idx(width as int, qx, qy, qk) == out@.len() - 1 {
                            lemma_pixel_idx_injective(
                                width as int,
                                qx,
                                qy,
                                qk,
                                px as int,
                                py as int,
                                k as int,
                            );
                        }
                    }
                }
                k += 1;
            }
            px += 1;
            proof {
                assert((py * width + (px - 1)) * 4 + 4 == (py * width + px) * 4) by (nonlinear_arith);
            }
        }
        py += 1;
        proof {
            assert((((py - 1) * width) + width) * 4 == py * width * 4) by (nonlinear_arith);
        }
    }
    proof {
        assert(height * width * 4 == width * height * 4) by (nonlinear_arith);
        assert forall|px: int, py: int, k: int|
            0 <= px < width && 0 <= py < height && 0 <= k < 4 implies pixel_idx(
            width as int,
            px,
            py,
            k,
        ) < out@.len() && out@[pixel_idx(width as int, px, py, k)] == src.byte_at(
            x + px,
            y + py,
            k,
        ) by {
            lemma_pixel_idx_bound(width as int, height as int, px, py, k);
        }
    }
    Ok(ImageData { image: out, width, height })
}

} // verus!
