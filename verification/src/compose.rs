//! Virtual canvas composition: merging independently captured per-monitor
//! images into one buffer addressed in shared virtual-screen coordinates.

use vstd::prelude::*;

use crate::ImageData;
use crate::lemma_pixel_idx_bound;
use crate::lemma_pixel_idx_injective;
use crate::pixel_idx;

verus! {

/// One monitor's capture, placed at the monitor's origin `(x, y)` in
/// virtual-screen coordinates. Origins are non-negative: the canvas has its
/// own origin fixed at (0, 0).
pub struct MonitorCapture {
    pub x: u32,
    pub y: u32,
    pub image: ImageData,
}

/// The placement's rectangle contains the canvas point `(x, y)`.
pub open spec fn covers(it: MonitorCapture, x: int, y: int) -> bool {
    it.x <= x < it.x + it.image.width && it.y <= y < it.y + it.image.height
}

/// The canvas byte at `(x, y, k)` after compositing `items` in order onto a
/// zeroed canvas: the LAST placement covering the point wins; a point no
/// placement covers stays zero.
pub open spec fn composite_byte(items: Seq<MonitorCapture>, x: int, y: int, k: int) -> u8
    decreases items.len(),
{
    if items.len() == 0 {
        0u8
    } else if covers(items.last(), x, y) {
        items.last().image.byte_at(x - items.last().x, y - items.last().y, k)
    } else {
        composite_byte(items.drop_last(), x, y, k)
    }
}

/// The furthest right edge over all placements: the canvas width.
pub open spec fn max_right(items: Seq<MonitorCapture>) -> int
    decreases items.len(),
{
    if items.len() == 0 {
        0
    } else if items.last().x + items.last().image.width > max_right(items.drop_last()) {
        items.last().x + items.last().image.width
    } else {
        max_right(items.drop_last())
    }
}

/// The furthest bottom edge over all placements: the canvas height.
pub open spec fn max_bottom(items: Seq<MonitorCapture>) -> int
    decreases items.len(),
{
    if items.len() == 0 {
        0
    } else if items.last().y + items.last().image.height > max_bottom(items.drop_last()) {
        items.last().y + items.last().image.height
    } else {
        max_bottom(items.drop_last())
    }
}

/// Every placement's right and bottom edges lie inside the canvas extent.
pub proof fn lemma_extent_bounds(items: Seq<MonitorCapture>, i: int)
    requires
        0 <= i < items.len(),
    ensures
        items[i].x + items[i].image.width <= max_right(items),
        items[i].y + items[i].image.height <= max_bottom(items),
    decreases items.len(),
{
    if i < items.len() - 1 {
        assert(items.drop_last()[i] == items[i]);
        lemma_extent_bounds(items.drop_last(), i);
    }
}

/// No point lies inside both placements' rectangles.
pub open spec fn covers_disjoint(a: MonitorCapture, b: MonitorCapture) -> bool {
    forall|x: int, y: int| !(#[trigger] covers(a, x, y) && covers(b, x, y))
}

/// No two placements of the layout overlap.
pub open spec fn layout_non_overlapping(items: Seq<MonitorCapture>) -> bool {
    forall|a: int, b: int|
        0 <= a < b < items.len() ==> covers_disjoint(#[trigger] items[a], #[trigger] items[b])
}

/// The canvas byte at `(x, y, k)` while placement `i` is being copied:
/// `rows` full rows of it are done, plus `cols` pixels of the next row.
/// Bytes the copy has reached show placement `i`; the rest still show the
/// composite of the placements before it.
spec fn partial_byte(
    items: Seq<MonitorCapture>,
    i: int,
    rows: int,
    cols: int,
    x: int,
    y: int,
    k: int,
) -> u8 {
    if covers(items[i], x, y) && (y - items[i].y < rows || (y - items[i].y == rows && x - items[i].x
        < cols)) {
        items[i].image.byte_at(x - items[i].x, y - items[i].y, k)
    } else {
        composite_byte(items.take(i), x, y, k)
    }
}

/// Merges the captures into one canvas sized to the furthest right and
/// furthest bottom placement edges. The canvas starts zeroed and the
/// placements are copied in order, each at its own offset, so where two
/// rectangles overlap the later-listed capture overwrites the earlier one.
#[verifier::loop_isolation(false)]
pub fn composite_canvas(items: &Vec<MonitorCapture>) -> (r: ImageData)
    requires
        items@.len() > 0,
        forall|i: int| 0 <= i < items@.len() ==> (#[trigger] items@[i]).image.wf(),
        forall|i: int|
            0 <= i < items@.len() ==> (#[trigger] items@[i]).x + items@[i].image.width <= u32::MAX
                && items@[i].y + items@[i].image.height <= u32::MAX,
        max_right(items@) * max_bottom(items@) * 4 <= usize::MAX,
    ensures
        r.wf(),
        r.width == max_right(items@),
        r.height == max_bottom(items@),
        forall|x: int, y: int, k: int|
            0 <= x < r.width && 0 <= y < r.height && 0 <= k < 4 ==> r.byte_at(x, y, k)
                == composite_byte(items@, x, y, k),
{
    let mut tw: u32 = 0;
    let mut th: u32 = 0;
    let mut i: usize = 0;
    proof {
        assert(items@.take(0) =~= Seq::<MonitorCapture>::empty());
    }
    while i < items.len()
        invariant
            i <= items@.len(),
            tw == max_right(items@.take(i as int)),
            th == max_bottom(items@.take(i as int)),
        decreases items@.len() - i,
    {
        proof {
            assert(items@.take(i + 1).drop_last() =~= items@.take(i as int));
            assert(items@.take(i + 1).last() == items@[i as int]);
        }
        let right = items[i].x + items[i].image.width;
        let bottom = items[i].y + items[i].image.height;
        if right > tw {
            tw = right;
        }
        if bottom > th {
            th = bottom;
        }
        i += 1;
    }
    proof {
        assert(items@.take(items@.len() as int) =~= items@);
        assert(0 <= tw * th) by (nonlinear_arith);
        assert(tw * th <= tw * th * 4) by (nonlinear_arith);
    }
    let tws = tw as usize;
    let n = tws * (th as usize) * 4;
    let mut canvas: Vec<u8> = Vec::new();
    let mut c: usize = 0;
    while c < n
        invariant
            c <= n,
            canvas@.len() == c,
            forall|q: int| 0 <= q < c ==> canvas@[q] == 0u8,
        decreases n - c,
    {
        canvas.push(0u8);
        c += 1;
    }
    proof {
        assert(items@.take(0) =~= Seq::<MonitorCapture>::empty());
        assert forall|x: int, y: int, k: int|
            0 <= x < tw && 0 <= y < th && 0 <= k < 4 implies canvas@[pixel_idx(tw as int, x, y, k)]
            == composite_byte(items@.take(0), x, y, k) by {
            lemma_pixel_idx_bound(tw as int, th as int, x, y, k);
        }
    }
    let mut i: usize = 0;
    while i < items.len()
        invariant
            i <= items@.len(),
            canvas@.len() == tw * th * 4,
            forall|x: int, y: int, k: int|
                0 <= x < tw && 0 <= y < th && 0 <= k < 4 ==> canvas@[#[trigger] pixel_idx(
                    tw as int,
                    x,
                    y,
                    k,
                )] == composite_byte(items@.take(i as int), x, y, k),
        decreases items@.len() - i,
    {
        let mx = items[i].x;
        let my = items[i].y;
        let w = items[i].image.width;
        let h = items[i].image.height;
        let src_len = items[i].image.image.len();
        proof {
            lemma_extent_bounds(items@, i as int);
        }
        let mut py: u32 = 0;
        while py < h
            invariant
                py <= h,
                canvas@.len() == tw * th * 4,
                forall|x: int, y: int, k: int|
                    0 <= x < tw && 0 <= y < th && 0 <= k < 4 ==> canvas@[#[trigger] pixel_idx(
                        tw as int,
                        x,
                        y,
                        k,
                    )] == partial_byte(items@, i as int, py as int, 0, x, y, k),
            decreases h - py,
        {
            let mut px: u32 = 0;
            while px < w
                invariant
                    px <= w,
                    py < h,
                    canvas@.len() == tw * th * 4,
                    forall|x: int, y: int, k: int|
                        0 <= x < tw && 0 <= y < th && 0 <= k < 4 ==> canvas@[#[trigger] pixel_idx(
                            tw as int,
                            x,
                            y,
                            k,
                        )] == partial_byte(items@, i as int, py as int, px as int, x, y, k),
                decreases w - px,
            {
                let dx = mx + px;
                let dy = my + py;
                proof {
                    lemma_pixel_idx_bound(w as int, h as int, px as int, py as int, 0);
                    lemma_pixel_idx_bound(w as int, h as int, px as int, py as int, 3);
                    lemma_pixel_idx_bound(tw as int, th as int, dx as int, dy as int, 0);
                    lemma_pixel_idx_bound(tw as int, th as int, dx as int, dy as int, 3);
                }
                let src_base = ((py as usize) * (w as usize) + (px as usize)) * 4;
                let dst_base = ((dy as usize) * tws + (dx as usize)) * 4;
                let ghost before = canvas@;
                canvas[dst_base] = items[i].image.image[src_base];
                canvas[dst_base + 1] = items[i].image.image[src_base + 1];
                canvas[dst_base + 2] = items[i].image.image[src_base + 2];
                canvas[dst_base + 3] = items[i].image.image[src_base + 3];
                proof {
                    assert forall|x: int, y: int, k: int|
                        0 <= x < tw && 0 <= y < th && 0 <= k < 4 implies canvas@[#[trigger] pixel_idx(
                        tw as int,
                        x,
                        y,
                        k,
                    )] == partial_byte(items@, i as int, py as int, px + 1, x, y, k) by {
                        let idx = pixel_idx(tw as int, x, y, k);
                        lemma_pixel_idx_bound(tw as int, th as int, x, y, k);
                        if idx == dst_base + 0 {
                            lemma_pixel_idx_injective(tw as int, x, y, k, dx as int, dy as int, 0);
                        } else if idx == dst_base + 1 {
                            lemma_pixel_idx_injective(tw as int, x, y, k, dx as int, dy as int, 1);
                        } else if idx == dst_base + 2 {
                            lemma_pixel_idx_injective(tw as int, x, y, k, dx as int, dy as int, 2);
                        } else if idx == dst_base + 3 {
                            lemma_pixel_idx_injective(tw as int, x, y, k, dx as int, dy as int, 3);
                        } else {
                            assert(canvas@[idx] == before[idx]);
                        }
                    }
                }
                px += 1;
            }
            py += 1;
        }
        proof {
            assert(items@.take(i + 1).drop_last() =~= items@.take(i as int));
            assert(items@.take(i + 1).last() == items@[i as int]);
            assert forall|x: int, y: int, k: int| 0 <= x < tw && 0 <= y < th && 0 <= k < 4 implies
                partial_byte(items@, i as int, h as int, 0, x, y, k) == composite_byte(
                items@.take(i + 1),
                x,
                y,
                k,
            ) by {}
        }
        i += 1;
    }
    proof {
        assert(items@.take(items@.len() as int) =~= items@);
    }
    ImageData { image: canvas, width: tw, height: th }
}

/// Law: the composite holds, at any point that placement `j` covers and no
/// later placement covers, exactly placement `j`'s pixel byte — where
/// placements overlap, the later-listed one wins.
pub proof fn lemma_composite_last_wins(
    items: Seq<MonitorCapture>,
    j: int,
    x: int,
    y: int,
    k: int,
)
    requires
        0 <= j < items.len(),
        covers(items[j], x, y),
        forall|l: int| j < l < items.len() ==> !covers(#[trigger] items[l], x, y),
    ensures
        composite_byte(items, x, y, k) == items[j].image.byte_at(x - items[j].x, y - items[j].y, k),
    decreases items.len(),
{
    if j == items.len() - 1 {
    } else {
        assert(!covers(items.last(), x, y));
        assert(items.drop_last()[j] == items[j]);
        assert(forall|l: int|
            j < l < items.drop_last().len() ==> items.drop_last()[l] == #[trigger] items[l]);
        lemma_composite_last_wins(items.drop_last(), j, x, y, k);
    }
}

/// Law: a canvas point that no placement covers keeps the zeroed background.
pub proof fn lemma_composite_uncovered(items: Seq<MonitorCapture>, x: int, y: int, k: int)
    requires
        forall|l: int| 0 <= l < items.len() ==> !covers(#[trigger] items[l], x, y),
    ensures
        composite_byte(items, x, y, k) == 0u8,
    decreases items.len(),
{
    if items.len() > 0 {
        assert(forall|l: int|
            0 <= l < items.drop_last().len() ==> items.drop_last()[l] == #[trigger] items[l]);
        lemma_composite_uncovered(items.drop_last(), x, y, k);
    }
}

/// Law: in a layout where no two placements overlap, the composite holds
/// each placement's pixels unchanged at its offset.
pub proof fn lemma_composite_non_overlapping(
    items: Seq<MonitorCapture>,
    i: int,
    px: int,
    py: int,
    k: int,
)
    requires
        layout_non_overlapping(items),
        0 <= i < items.len(),
        0 <= px < items[i].image.width,
        0 <= py < items[i].image.height,
    ensures
        composite_byte(items, items[i].x + px, items[i].y + py, k) == items[i].image.byte_at(
            px,
            py,
            k,
        ),
{
    let x = items[i].x + px;
    let y = items[i].y + py;
    assert(covers(items[i], x, y));
    assert forall|l: int| i < l < items.len() implies !covers(#[trigger] items[l], x, y) by {
        assert(covers_disjoint(items[i], items[l]));
    }
    lemma_composite_last_wins(items, i, x, y, k);
}

} // verus!
