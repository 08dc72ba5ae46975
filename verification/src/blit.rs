//! The clipped blit: copy a rectangular sub-region of one flat grid into a
//! rectangular region of another, clipping independently on both sides.
//!
//! The destination sub-rectangle may be anchored anywhere, including
//! partially or fully off-canvas or with a negative origin; the visible part
//! of the copy then starts partway into the source. A copy whose clipped
//! extent is empty on either axis is a no-op.

use vstd::prelude::*;
use vstd::pervasive::VecAdditionalExecFns;

use crate::grid::{grid_cell, lemma_grid_index, lemma_grid_index_injective};

verus! {

/// An anchored rectangle used to describe one side of a blit.
#[derive(Debug, Clone, Copy)]
pub struct BlitRect {
    pub x: i32,
    pub y: i32,
    pub w: i32,
    pub h: i32,
}

impl BlitRect {
    pub fn new(x: i32, y: i32, width: usize, height: usize) -> (r: Self)
        requires
            width <= i32::MAX,
            height <= i32::MAX,
        ensures
            r.x == x,
            r.y == y,
            r.w == width,
            r.h == height,
    {
        BlitRect { x, y, w: width as i32, h: height as i32 }
    }
}

/// The four rectangles of one blit.
pub struct BlitOps {
    /// Full size of the source canvas (its anchor is always (0, 0)).
    pub src: BlitRect,
    /// Full size of the destination canvas (its anchor is always (0, 0)).
    pub dst: BlitRect,
    /// Rectangle to read from within the source canvas.
    pub src_blit: BlitRect,
    /// Rectangle to write to within the destination canvas; its anchor may
    /// lie anywhere.
    pub dst_blit: BlitRect,
}

/// What `blit` asks of its arguments: the flat arrays match their canvases,
/// the source sub-rectangle starts inside the source canvas, and all extents
/// are non-negative.
pub open spec fn blit_wf<T>(src: Seq<T>, dst: Seq<T>, ops: BlitOps) -> bool {
    &&& 0 <= ops.src.w && 0 <= ops.src.h && src.len() == ops.src.w * ops.src.h
    &&& 0 <= ops.dst.w && 0 <= ops.dst.h && dst.len() == ops.dst.w * ops.dst.h
    &&& 0 <= ops.src_blit.x && 0 <= ops.src_blit.y && 0 <= ops.src_blit.w && 0 <= ops.src_blit.h
    &&& 0 <= ops.dst_blit.w && 0 <= ops.dst_blit.h
}

/// Whether destination cell `(cx, cy)` receives a source cell: it lies in
/// the destination sub-rectangle, within reach of the source sub-rectangle's
/// extent, and its source cell lies on the source canvas.
pub open spec fn blit_copies(ops: BlitOps, cx: int, cy: int) -> bool {
    &&& ops.dst_blit.x <= cx < ops.dst_blit.x + ops.dst_blit.w
    &&& ops.dst_blit.y <= cy < ops.dst_blit.y + ops.dst_blit.h
    &&& cx - ops.dst_blit.x < ops.src_blit.w
    &&& cy - ops.dst_blit.y < ops.src_blit.h
    &&& blit_src_x(ops, cx) < ops.src.w
    &&& blit_src_y(ops, cy) < ops.src.h
}

/// The source column copied to destination column `cx`.
pub open spec fn blit_src_x(ops: BlitOps, cx: int) -> int {
    ops.src_blit.x + (cx - ops.dst_blit.x)
}

/// The source row copied to destination row `cy`.
pub open spec fn blit_src_y(ops: BlitOps, cy: int) -> int {
    ops.src_blit.y + (cy - ops.dst_blit.y)
}

/// Relates one destination plane before and after a blit: every cell that
/// the blit reaches holds its source cell's value, every other cell is
/// untouched.
pub open spec fn plane_blitted<T>(src: Seq<T>, pre: Seq<T>, post: Seq<T>, ops: BlitOps) -> bool {
    &&& post.len() == pre.len()
    &&& forall|cx: int, cy: int|
        0 <= cx < ops.dst.w && 0 <= cy < ops.dst.h ==> #[trigger] grid_cell(
            post,
            ops.dst.w as int,
            cx,
            cy,
        ) == (if blit_copies(ops, cx, cy) {
            grid_cell(src, ops.src.w as int, blit_src_x(ops, cx), blit_src_y(ops, cy))
        } else {
            grid_cell(pre, ops.dst.w as int, cx, cy)
        })
}

/// Copy the overlapping part of the blit from `src` to `dst`, row by row.
#[verifier::loop_isolation(false)]
#[verifier::rlimit(60)]
pub fn blit<T: Copy>(src: &Vec<T>, dst: &mut Vec<T>, ops: &BlitOps)
    requires
        blit_wf(src@, old(dst)@, *ops),
    ensures
        plane_blitted(src@, old(dst)@, final(dst)@, *ops),
{
    let mut sx = ops.src_blit.x as i64;
    let mut sw = ops.src_blit.w as i64;
    let mut dx = ops.dst_blit.x as i64;
    let mut dw = ops.dst_blit.w as i64;
    // If the destination starts left of the canvas, the visible part of the
    // copy starts partway into the source.
    if dx < 0 {
        sw = sw + dx;
        dw = dw + dx;
        sx = sx - dx;
        dx = 0;
    }
    // Clip the source read to the source canvas's right edge.
    if sx + sw > ops.src.w as i64 {
        sw = ops.src.w as i64 - sx;
    }
    // Clip the destination write to the destination canvas's right edge.
    if dx + dw > ops.dst.w as i64 {
        dw = ops.dst.w as i64 - dx;
    }
    let width = if sw < dw {
        sw
    } else {
        dw
    };

    // The same, for the Y axis.
    let mut sy = ops.src_blit.y as i64;
    let mut sh = ops.src_blit.h as i64;
    let mut dy = ops.dst_blit.y as i64;
    let mut dh = ops.dst_blit.h as i64;
    if dy < 0 {
        sh = sh + dy;
        dh = dh + dy;
        sy = sy - dy;
        dy = 0;
    }
    if sy + sh > ops.src.h as i64 {
        sh = ops.src.h as i64 - sy;
    }
    if dy + dh > ops.dst.h as i64 {
        dh = ops.dst.h as i64 - dy;
    }
    let height = if sh < dh {
        sh
    } else {
        dh
    };

    proof {
        // The clipped copy region picks out exactly the cells that
        // `blit_copies` describes.
        assert forall|cx: int, cy: int| 0 <= cx < ops.dst.w && 0 <= cy < ops.dst.h
            implies (blit_copies(*ops, cx, cy) <==> (dx <= cx < dx + width && dy <= cy < dy
            + height)) by {}
    }

    if width > 0 && height > 0 {
        let src_len = src.len();
        let dst_len = dst.len();
        let w = width as usize;
        let h = height as usize;
        let sxu = sx as usize;
        let syu = sy as usize;
        let dxu = dx as usize;
        let dyu = dy as usize;
        let src_w = ops.src.w as usize;
        let dst_w = ops.dst.w as usize;
        let mut r: usize = 0;
        while r < h
            invariant
                r <= h,
                dst@.len() == old(dst)@.len(),
                forall|cx: int, cy: int|
                    0 <= cx < ops.dst.w && 0 <= cy < ops.dst.h ==> #[trigger] grid_cell(
                        dst@,
                        ops.dst.w as int,
                        cx,
                        cy,
                    ) == (if blit_copies(*ops, cx, cy) && cy < dyu + r {
                        grid_cell(src@, ops.src.w as int, blit_src_x(*ops, cx), blit_src_y(*ops, cy))
                    } else {
                        grid_cell(old(dst)@, ops.dst.w as int, cx, cy)
                    }),
            decreases h - r,
        {
            let mut c: usize = 0;
            while c < w
                invariant
                    c <= w,
                    r < h,
                    dst@.len() == old(dst)@.len(),
                    forall|cx: int, cy: int|
                        0 <= cx < ops.dst.w && 0 <= cy < ops.dst.h ==> #[trigger] grid_cell(
                            dst@,
                            ops.dst.w as int,
                            cx,
                            cy,
                        ) == (if blit_copies(*ops, cx, cy) && (cy < dyu + r || (cy == dyu + r && cx
                            < dxu + c)) {
                            grid_cell(
                                src@,
                                ops.src.w as int,
                                blit_src_x(*ops, cx),
                                blit_src_y(*ops, cy),
                            )
                        } else {
                            grid_cell(old(dst)@, ops.dst.w as int, cx, cy)
                        }),
                decreases w - c,
            {
                proof {
                    lemma_grid_index(
                        ops.src.w as int,
                        ops.src.h as int,
                        sxu + c as int,
                        syu + r as int,
                    );
                    lemma_grid_index(
                        ops.dst.w as int,
                        ops.dst.h as int,
                        dxu + c as int,
                        dyu + r as int,
                    );
                }
                let si = (syu + r) * src_w + (sxu + c);
                let di = (dyu + r) * dst_w + (dxu + c);
                let v = src[si];
                let ghost pre = dst@;
                dst.set(di, v);
                proof {
                    let dwi = ops.dst.w as int;
                    assert forall|cx: int, cy: int| 0 <= cx < ops.dst.w && 0 <= cy < ops.dst.h
                        implies #[trigger] grid_cell(dst@, dwi, cx, cy) == (if blit_copies(
                        *ops,
                        cx,
                        cy,
                    ) && (cy < dyu + r || (cy == dyu + r && cx < dxu + c + 1)) {
                        grid_cell(src@, ops.src.w as int, blit_src_x(*ops, cx), blit_src_y(*ops, cy))
                    } else {
                        grid_cell(old(dst)@, dwi, cx, cy)
                    }) by {
                        lemma_grid_index(dwi, ops.dst.h as int, cx, cy);
                        let fi = cy * dwi + cx;
                        assert(grid_cell(pre, dwi, cx, cy) == pre[fi]);
                        assert(dst@ == pre.update(di as int, v));
                        if fi == di {
                            lemma_grid_index_injective(dwi, cx, cy, dxu + c as int, dyu + r as int);
                            assert(cx == dxu + c && cy == dyu + r);
                            assert(blit_copies(*ops, cx, cy));
                            assert(blit_src_x(*ops, cx) == sxu + c as int);
                            assert(blit_src_y(*ops, cy) == syu + r as int);
                            assert(grid_cell(
                                src@,
                                ops.src.w as int,
                                blit_src_x(*ops, cx),
                                blit_src_y(*ops, cy),
                            ) == src@[si as int]);
                        } else {
                            assert(grid_cell(dst@, dwi, cx, cy) == pre[fi]);
                        }
                    }
                }
                c = c + 1;
            }
            r = r + 1;
        }
    }
}

} // verus!
