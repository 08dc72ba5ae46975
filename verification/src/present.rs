//! Grid buffers and drawing primitives.
//!
//! An [`Image`] is a rectangular grid of character cells held as three
//! parallel arrays: ink (foreground) colours, paper (background) colours and
//! character codes, in row-major order. All drawing operations clip silently
//! against the grid bounds: an out-of-range target is dropped, never an
//! error.

use vstd::prelude::*;
use vstd::string::{StrSliceExecFns, StringSliceAdditionalSpecFns};

use crate::blit::{blit, blit_copies, blit_src_x, blit_src_y, plane_blitted, BlitOps, BlitRect};
use crate::grid::{
    grid_cell, in_rect, lemma_grid_index, lemma_grid_index_decompose, lemma_grid_index_injective,
};

verus! {

/// An X, Y coordinate. May be negative: it is the anchor of a draw
/// operation before clipping.
#[derive(Debug, Clone, Copy)]
pub struct Point {
    pub x: i32,
    pub y: i32,
}

impl Point {
    pub fn new(x: i32, y: i32) -> (p: Self)
        ensures
            p.x == x,
            p.y == y,
    {
        Point { x, y }
    }
}

/// A single character cell: an ASCII code with an associated ink and paper
/// colour.
#[derive(Debug, Clone, Copy)]
pub struct Char {
    pub ch: u8,
    pub ink: u32,
    pub paper: u32,
}

impl Char {
    pub fn new(ch: u8, ink: u32, paper: u32) -> (c: Self)
        ensures
            c.ch == ch,
            c.ink == ink,
            c.paper == paper,
    {
        Char { ch, ink, paper }
    }
}

/// The (ink, paper, code) triple that a cell holds after `ch` is written to
/// it. Only the low 8 bits of the stored code are significant; a written
/// cell stores the character byte zero-extended.
pub open spec fn cell_of(ch: Char) -> (u32, u32, u32) {
    (ch.ink, ch.paper, ch.ch as u32)
}

/// Where an interval `[anchor, anchor + extent)` starts once clipped to
/// `[0, canvas)`: a negative anchor is moved up to 0.
pub open spec fn clip_start(anchor: int) -> int {
    if anchor < 0 {
        0
    } else {
        anchor
    }
}

/// The length of the interval `[anchor, anchor + extent)` clipped to
/// `[0, canvas)`. A degenerate result is reported as 0.
pub open spec fn clip_len(anchor: int, extent: int, canvas: int) -> int {
    let far = if anchor + extent < canvas {
        anchor + extent
    } else {
        canvas
    };
    let len = far - clip_start(anchor);
    if len < 0 {
        0
    } else {
        len
    }
}

/// The clipped interval holds exactly the points of the requested interval
/// that lie on the canvas.
pub proof fn lemma_clip_interval(anchor: int, extent: int, canvas: int, c: int)
    ensures
        (clip_start(anchor) <= c < clip_start(anchor) + clip_len(anchor, extent, canvas)) <==> (
        anchor <= c < anchor + extent && 0 <= c < canvas),
{
}

/// One axis of the clip rule: shrink a negative anchor's extent and move the
/// anchor to 0, then clamp the far edge to the canvas.
fn clip_axis(anchor: i32, extent: usize, canvas: usize) -> (r: (usize, usize))
    ensures
        r.0 == clip_start(anchor as int),
        r.1 == clip_len(anchor as int, extent as int, canvas as int),
{
    if anchor < 0 {
        let cut = (-(anchor as i64)) as usize;
        let e = if extent <= cut {
            0
        } else {
            extent - cut
        };
        let len = if e < canvas {
            e
        } else {
            canvas
        };
        (0, len)
    } else {
        let a = anchor as usize;
        if a >= canvas {
            (a, 0)
        } else {
            let rem = canvas - a;
            let len = if extent < rem {
                extent
            } else {
                rem
            };
            (a, len)
        }
    }
}

/// A rectangular grid of character cells: three parallel arrays of packed
/// ink colours, packed paper colours and character codes, each of length
/// `width * height`, in row-major order.
pub struct Image {
    pub width: usize,
    pub height: usize,
    pub fore_image: Vec<u32>,
    pub back_image: Vec<u32>,
    pub text_image: Vec<u32>,
}

impl Image {
    /// The structural invariant: the three planes always have the same
    /// length, `width * height`. The dimensions stay within `i32` range so
    /// that every cell is addressable by a `Point`.
    pub open spec fn wf(&self) -> bool {
        &&& self.width <= i32::MAX
        &&& self.height <= i32::MAX
        &&& self.width * self.height <= usize::MAX
        &&& self.fore_image@.len() == self.width * self.height
        &&& self.back_image@.len() == self.width * self.height
        &&& self.text_image@.len() == self.width * self.height
    }

    /// The (ink, paper, code) triple stored at cell `(cx, cy)`.
    pub open spec fn cell(self, cx: int, cy: int) -> (u32, u32, u32) {
        (
            grid_cell(self.fore_image@, self.width as int, cx, cy),
            grid_cell(self.back_image@, self.width as int, cx, cy),
            grid_cell(self.text_image@, self.width as int, cx, cy),
        )
    }

    /// Allocate a `width` by `height` grid with all three planes
    /// zero-filled.
    pub fn new(width: usize, height: usize) -> (img: Self)
        requires
            width <= i32::MAX,
            height <= i32::MAX,
            width * height <= usize::MAX,
        ensures
            img.wf(),
            img.width == width,
            img.height == height,
            forall|i: int| 0 <= i < width * height ==> img.fore_image@[i] == 0,
            forall|i: int| 0 <= i < width * height ==> img.back_image@[i] == 0,
            forall|i: int| 0 <= i < width * height ==> img.text_image@[i] == 0,
    {
        let size = width * height;
        Image {
            width,
            height,
            fore_image: vec![0u32; size],
            back_image: vec![0u32; size],
            text_image: vec![0u32; size],
        }
    }

    /// The flat index of `(x, y)`, or `None` when the coordinate is outside
    /// the grid.
    pub fn coords_to_index(&self, x: usize, y: usize) -> (r: Option<usize>)
        requires
            self.wf(),
        ensures
            match r {
                Some(i) => x < self.width && y < self.height && i == y * self.width + x,
                None => x >= self.width || y >= self.height,
            },
    {
        if x < self.width && y < self.height {
            proof {
                lemma_grid_index(self.width as int, self.height as int, x as int, y as int);
            }
            Some(y * self.width + x)
        } else {
            None
        }
    }

    /// Clip the rectangle anchored at `p` with the given extents against
    /// this grid's bounds, returning the clipped anchor and extents.
    pub fn clip(&self, p: Point, width: usize, height: usize) -> (r: (usize, usize, usize, usize))
        requires
            self.wf(),
        ensures
            r.0 == clip_start(p.x as int),
            r.1 == clip_start(p.y as int),
            r.2 == clip_len(p.x as int, width as int, self.width as int),
            r.3 == clip_len(p.y as int, height as int, self.height as int),
    {
        let (x, w) = clip_axis(p.x, width, self.width);
        let (y, h) = clip_axis(p.y, height, self.height);
        (x, y, w, h)
    }

    /// Write `ch` into the in-bounds cell `(x, y)` of all three planes,
    /// leaving every other cell as it was.
    fn set_cell(&mut self, x: usize, y: usize, ch: Char)
        requires
            old(self).wf(),
            x < old(self).width,
            y < old(self).height,
        ensures
            final(self).wf(),
            final(self).width == old(self).width,
            final(self).height == old(self).height,
            forall|cx: int, cy: int|
                0 <= cx < old(self).width && 0 <= cy < old(self).height
                    ==> #[trigger] final(self).cell(cx, cy) == (if cx == x && cy == y {
                    cell_of(ch)
                } else {
                    old(self).cell(cx, cy)
                }),
    {
        proof {
            lemma_grid_index(self.width as int, self.height as int, x as int, y as int);
        }
        let i = y * self.width + x;
        self.fore_image.set(i, ch.ink);
        self.back_image.set(i, ch.paper);
        self.text_image.set(i, ch.ch as u32);
        proof {
            let w = self.width as int;
            assert forall|cx: int, cy: int|
                0 <= cx < old(self).width && 0 <= cy < old(self).height
                    implies #[trigger] self.cell(cx, cy) == (if cx == x && cy == y {
                cell_of(ch)
            } else {
                old(self).cell(cx, cy)
            }) by {
                lemma_grid_index(w, self.height as int, cx, cy);
                if cy * w + cx == y as int * w + x as int {
                    lemma_grid_index_injective(w, cx, cy, x as int, y as int);
                }
            }
        }
    }

    /// Write a single cell if its coordinate is non-negative and in bounds;
    /// silently do nothing otherwise.
    pub fn draw_char(&mut self, p: Point, ch: Char)
        requires
            old(self).wf(),
        ensures
            rect_filled(*old(self), *final(self), p.x as int, p.y as int, 1, 1, ch),
            !(0 <= p.x < old(self).width && 0 <= p.y < old(self).height) ==> *final(self) == *old(
                self,
            ),
    {
        if p.x >= 0 && p.y >= 0 {
            let x = p.x as usize;
            let y = p.y as usize;
            if x < self.width && y < self.height {
                self.set_cell(x, y, ch);
            }
        }
    }

    /// Fill an axis-aligned rectangle, clipped to the grid bounds, with the
    /// same cell in all three planes.
    #[verifier::loop_isolation(false)]
    pub fn draw_rect_filled(&mut self, p: Point, width: usize, height: usize, ch: Char)
        requires
            old(self).wf(),
        ensures
            rect_filled(
                *old(self),
                *final(self),
                p.x as int,
                p.y as int,
                width as int,
                height as int,
                ch,
            ),
    {
        let (x0, y0, w0, h0) = self.clip(p, width, height);
        let mut row: usize = 0;
        while row < h0
            invariant
                row <= h0,
                self.wf(),
                self.width == old(self).width,
                self.height == old(self).height,
                h0 > 0 ==> y0 + h0 <= self.height,
                w0 > 0 ==> x0 + w0 <= self.width,
                forall|cx: int, cy: int|
                    0 <= cx < self.width && 0 <= cy < self.height ==> #[trigger] self.cell(cx, cy)
                        == (if x0 <= cx < x0 + w0 && y0 <= cy < y0 + row {
                        cell_of(ch)
                    } else {
                        old(self).cell(cx, cy)
                    }),
            decreases h0 - row,
        {
            let mut col: usize = 0;
            while col < w0
                invariant
                    col <= w0,
                    row < h0,
                    self.wf(),
                    self.width == old(self).width,
                    self.height == old(self).height,
                    y0 + h0 <= self.height,
                    w0 > 0 ==> x0 + w0 <= self.width,
                    forall|cx: int, cy: int|
                        0 <= cx < self.width && 0 <= cy < self.height ==> #[trigger] self.cell(
                            cx,
                            cy,
                        ) == (if x0 <= cx < x0 + w0 && (y0 <= cy < y0 + row || (cy == y0 + row && cx
                            < x0 + col)) {
                            cell_of(ch)
                        } else {
                            old(self).cell(cx, cy)
                        }),
                decreases w0 - col,
            {
                self.set_cell(x0 + col, y0 + row, ch);
                col = col + 1;
            }
            row = row + 1;
        }
        proof {
            assert forall|cx: int, cy: int| 0 <= cx < self.width && 0 <= cy < self.height
                implies #[trigger] self.cell(cx, cy) == (if in_rect(
                p.x as int,
                p.y as int,
                width as int,
                height as int,
                cx,
                cy,
            ) {
                cell_of(ch)
            } else {
                old(self).cell(cx, cy)
            }) by {
                lemma_clip_interval(p.x as int, width as int, self.width as int, cx);
                lemma_clip_interval(p.y as int, height as int, self.height as int, cy);
            }
        }
    }

    /// Fill the entire grid with the space character in the given ink and
    /// paper colours.
    pub fn clear(&mut self, ink: u32, paper: u32)
        requires
            old(self).wf(),
        ensures
            final(self).wf(),
            final(self).width == old(self).width,
            final(self).height == old(self).height,
            forall|cx: int, cy: int|
                0 <= cx < old(self).width && 0 <= cy < old(self).height
                    ==> #[trigger] final(self).cell(cx, cy) == (ink, paper, 32u32),
    {
        let w = self.width;
        let h = self.height;
        self.draw_rect_filled(Point::new(0, 0), w, h, Char::new(32u8, ink, paper));
    }

    /// Write `text` as a single horizontal run of bytes starting at `p`,
    /// clipped to the grid bounds. A run that is fully off the grid is a
    /// no-op; partial overlap truncates the run to its visible part.
    #[verifier::loop_isolation(false)]
    pub fn draw_string(&mut self, p: Point, text: &str, ink: u32, paper: u32)
        requires
            old(self).wf(),
        ensures
            string_drawn(
                *old(self),
                *final(self),
                p.x as int,
                p.y as int,
                text.spec_bytes(),
                ink,
                paper,
            ),
    {
        let bytes = text.as_bytes_vec();
        let n = bytes.len();
        let (x0, y0, w0, h0) = self.clip(p, n, 1);
        let skip: usize = if p.x < 0 {
            (-(p.x as i64)) as usize
        } else {
            0
        };
        if h0 > 0 {
            let mut col: usize = 0;
            while col < w0
                invariant
                    col <= w0,
                    h0 > 0,
                    self.wf(),
                    self.width == old(self).width,
                    self.height == old(self).height,
                    w0 > 0 ==> x0 + w0 <= self.width,
                    y0 < self.height,
                    w0 > 0 ==> skip + w0 <= n,
                    forall|cx: int, cy: int|
                        0 <= cx < self.width && 0 <= cy < self.height ==> #[trigger] self.cell(
                            cx,
                            cy,
                        ) == (if cy == y0 && x0 <= cx < x0 + col {
                            (ink, paper, bytes@[skip + (cx - x0)] as u32)
                        } else {
                            old(self).cell(cx, cy)
                        }),
                decreases w0 - col,
            {
                self.set_cell(x0 + col, y0, Char { ch: bytes[skip + col], ink, paper });
                col = col + 1;
            }
        }
        proof {
            assert forall|cx: int, cy: int| 0 <= cx < self.width && 0 <= cy < self.height
                implies #[trigger] self.cell(cx, cy) == (if cy == p.y as int && p.x as int <= cx
                < p.x as int + text.spec_bytes().len() {
                (ink, paper, text.spec_bytes()[cx - p.x as int] as u32)
            } else {
                old(self).cell(cx, cy)
            }) by {
                lemma_clip_interval(p.x as int, n as int, self.width as int, cx);
                lemma_clip_interval(p.y as int, 1, self.height as int, cy);
            }
        }
    }

    /// Draw the one-cell-thick border of a rectangle. A rectangle too small
    /// to have an interior (width or height under 3) degrades to a filled
    /// rectangle.
    pub fn draw_rect(&mut self, p: Point, width: usize, height: usize, ch: Char)
        requires
            old(self).wf(),
        ensures
            rect_drawn(
                *old(self),
                *final(self),
                p.x as int,
                p.y as int,
                width as int,
                height as int,
                ch,
            ),
    {
        if width < 3 || height < 3 {
            self.draw_rect_filled(p, width, height, ch);
        } else {
            let ghost s0 = *self;
            // Top edge.
            self.draw_rect_filled(p, width, 1, ch);
            let ghost s1 = *self;
            // Bottom edge; a row index past i32 range is also past the
            // grid's height, so the edge is invisible and can be skipped.
            let by: i128 = p.y as i128 + height as i128 - 1;
            if by <= i32::MAX as i128 {
                self.draw_rect_filled(Point::new(p.x, by as i32), width, 1, ch);
            }
            let ghost s2 = *self;
            // Left and right edges, between the top and bottom rows.
            let ly: i128 = p.y as i128 + 1;
            if ly <= i32::MAX as i128 {
                let ly32 = ly as i32;
                self.draw_rect_filled(Point::new(p.x, ly32), 1, height - 2, ch);
                let rx: i128 = p.x as i128 + width as i128 - 1;
                if rx <= i32::MAX as i128 {
                    self.draw_rect_filled(Point::new(rx as i32, ly32), 1, height - 2, ch);
                }
            }
            proof {
                let px = p.x as int;
                let py = p.y as int;
                let w = width as int;
                let h = height as int;
                assert forall|cx: int, cy: int| 0 <= cx < self.width && 0 <= cy < self.height
                    implies #[trigger] self.cell(cx, cy) == (if in_border(px, py, w, h, cx, cy) {
                    cell_of(ch)
                } else {
                    old(self).cell(cx, cy)
                }) by {
                    assert(in_border(px, py, w, h, cx, cy) <==> (in_rect(px, py, w, 1, cx, cy)
                        || in_rect(px, py + h - 1, w, 1, cx, cy) || in_rect(
                        px,
                        py + 1,
                        1,
                        h - 2,
                        cx,
                        cy,
                    ) || in_rect(px + w - 1, py + 1, 1, h - 2, cx, cy)));
                }
            }
        }
    }
}

/// Presentation state handed to an application's draw step: the live
/// frame's dimensions and its three planes, in the same layout as an
/// [`Image`].
pub struct PresentInput {
    /// The current width, in cells, of the live frame.
    pub width: usize,
    /// The current height, in cells, of the live frame.
    pub height: usize,
    /// The packed ink (foreground) colour of each cell.
    pub fore_image: Vec<u32>,
    /// The packed paper (background) colour of each cell.
    pub back_image: Vec<u32>,
    /// The character code of each cell; only the low 8 bits are rendered.
    pub text_image: Vec<u32>,
}

/// The four rectangles of a blit of the whole of `image` into a frame of
/// `dst_w` by `dst_h` cells, anchored at `p` with extent `rect_w` by
/// `rect_h`.
pub open spec fn image_blit_ops(
    image: Image,
    dst_w: usize,
    dst_h: usize,
    p: Point,
    rect_w: usize,
    rect_h: usize,
) -> BlitOps {
    BlitOps {
        src: BlitRect { x: 0, y: 0, w: image.width as i32, h: image.height as i32 },
        dst: BlitRect { x: 0, y: 0, w: dst_w as i32, h: dst_h as i32 },
        src_blit: BlitRect { x: 0, y: 0, w: image.width as i32, h: image.height as i32 },
        dst_blit: BlitRect { x: p.x, y: p.y, w: rect_w as i32, h: rect_h as i32 },
    }
}

impl PresentInput {
    /// The structural invariant: the three planes always have the same
    /// length, `width * height`, and the dimensions stay within `i32`
    /// range.
    pub open spec fn wf(&self) -> bool {
        &&& self.width <= i32::MAX
        &&& self.height <= i32::MAX
        &&& self.width * self.height <= usize::MAX
        &&& self.fore_image@.len() == self.width * self.height
        &&& self.back_image@.len() == self.width * self.height
        &&& self.text_image@.len() == self.width * self.height
    }

    /// Copy the whole of `image` into the frame, into the rectangle
    /// anchored at `p` with extent `dst_width` by `dst_height`, clipped on
    /// both sides.
    pub fn blit(&mut self, p: Point, dst_width: usize, dst_height: usize, image: &Image)
        requires
            old(self).wf(),
            image.wf(),
            dst_width <= i32::MAX,
            dst_height <= i32::MAX,
        ensures
            final(self).wf(),
            final(self).width == old(self).width,
            final(self).height == old(self).height,
            plane_blitted(
                image.fore_image@,
                old(self).fore_image@,
                final(self).fore_image@,
                image_blit_ops(*image, old(self).width, old(self).height, p, dst_width, dst_height),
            ),
            plane_blitted(
                image.back_image@,
                old(self).back_image@,
                final(self).back_image@,
                image_blit_ops(*image, old(self).width, old(self).height, p, dst_width, dst_height),
            ),
            plane_blitted(
                image.text_image@,
                old(self).text_image@,
                final(self).text_image@,
                image_blit_ops(*image, old(self).width, old(self).height, p, dst_width, dst_height),
            ),
    {
        let blitops = BlitOps {
            src: BlitRect::new(0, 0, image.width, image.height),
            dst: BlitRect::new(0, 0, self.width, self.height),
            src_blit: BlitRect::new(0, 0, image.width, image.height),
            dst_blit: BlitRect::new(p.x, p.y, dst_width, dst_height),
        };
        proof {
            assert(blitops == image_blit_ops(
                *image,
                old(self).width,
                old(self).height,
                p,
                dst_width,
                dst_height,
            ));
        }
        blit(&image.fore_image, &mut self.fore_image, &blitops);
        blit(&image.back_image, &mut self.back_image, &blitops);
        blit(&image.text_image, &mut self.text_image, &blitops);
    }

    /// The common case: blit `image` at the frame's origin, with the
    /// frame's own dimensions as the destination rectangle. When the image
    /// and the frame have equal dimensions this reproduces the image in the
    /// frame exactly, plane for plane.
    pub fn blit_screen(&mut self, image: &Image)
        requires
            old(self).wf(),
            image.wf(),
        ensures
            final(self).wf(),
            final(self).width == old(self).width,
            final(self).height == old(self).height,
            plane_blitted(
                image.fore_image@,
                old(self).fore_image@,
                final(self).fore_image@,
                image_blit_ops(
                    *image,
                    old(self).width,
                    old(self).height,
                    Point { x: 0, y: 0 },
                    old(self).width,
                    old(self).height,
                ),
            ),
            plane_blitted(
                image.back_image@,
                old(self).back_image@,
                final(self).back_image@,
                image_blit_ops(
                    *image,
                    old(self).width,
                    old(self).height,
                    Point { x: 0, y: 0 },
                    old(self).width,
                    old(self).height,
                ),
            ),
            plane_blitted(
                image.text_image@,
                old(self).text_image@,
                final(self).text_image@,
                image_blit_ops(
                    *image,
                    old(self).width,
                    old(self).height,
                    Point { x: 0, y: 0 },
                    old(self).width,
                    old(self).height,
                ),
            ),
            old(self).width == image.width && old(self).height == image.height ==> {
                &&& final(self).fore_image@ == image.fore_image@
                &&& final(self).back_image@ == image.back_image@
                &&& final(self).text_image@ == image.text_image@
            },
    {
        let w = self.width;
        let h = self.height;
        self.blit(Point::new(0, 0), w, h, image);
        proof {
            if old(self).width == image.width && old(self).height == image.height {
                let ops = image_blit_ops(
                    *image,
                    old(self).width,
                    old(self).height,
                    Point { x: 0, y: 0 },
                    old(self).width,
                    old(self).height,
                );
                lemma_full_copy(image.fore_image@, old(self).fore_image@, self.fore_image@, ops);
                lemma_full_copy(image.back_image@, old(self).back_image@, self.back_image@, ops);
                lemma_full_copy(image.text_image@, old(self).text_image@, self.text_image@, ops);
            }
        }
    }
}

/// A blit of a whole source onto a whole destination of the same size, at
/// the origin, copies the source plane exactly.
proof fn lemma_full_copy<T>(src: Seq<T>, pre: Seq<T>, post: Seq<T>, ops: BlitOps)
    requires
        plane_blitted(src, pre, post, ops),
        ops.dst_blit.x == 0,
        ops.dst_blit.y == 0,
        ops.src_blit.x == 0,
        ops.src_blit.y == 0,
        ops.src_blit.w == ops.src.w,
        ops.src_blit.h == ops.src.h,
        ops.dst_blit.w == ops.dst.w,
        ops.dst_blit.h == ops.dst.h,
        ops.src.w == ops.dst.w,
        ops.src.h == ops.dst.h,
        0 <= ops.dst.w,
        0 <= ops.dst.h,
        pre.len() == ops.dst.w * ops.dst.h,
        src.len() == ops.src.w * ops.src.h,
    ensures
        post == src,
{
    let w = ops.dst.w as int;
    let h = ops.dst.h as int;
    if w == 0 || h == 0 {
        assert(w * h == 0) by (nonlinear_arith)
            requires w == 0 || h == 0;
        assert(post =~= src);
    } else {
        assert forall|i: int| 0 <= i < w * h implies post[i] == src[i] by {
            lemma_grid_index_decompose(w, h, i);
            let cx = i % w;
            let cy = i / w;
            assert(grid_cell(post, w, cx, cy) == post[i]);
            assert(blit_copies(ops, cx, cy));
            assert(blit_src_x(ops, cx) == cx);
            assert(blit_src_y(ops, cy) == cy);
            assert(grid_cell(src, w, cx, cy) == src[i]);
        }
        assert(post =~= src);
    }
}

/// Relates a grid before and after a string of bytes is drawn as a
/// horizontal run anchored at `(px, py)`: the visible cells of the run hold
/// the run's bytes with the given colours, every other cell is untouched.
pub open spec fn string_drawn(
    pre: Image,
    post: Image,
    px: int,
    py: int,
    bytes: Seq<u8>,
    ink: u32,
    paper: u32,
) -> bool {
    &&& post.width == pre.width
    &&& post.height == pre.height
    &&& post.wf()
    &&& forall|cx: int, cy: int|
        0 <= cx < pre.width && 0 <= cy < pre.height ==> #[trigger] post.cell(cx, cy) == (if cy == py
            && px <= cx < px + bytes.len() {
            (ink, paper, bytes[cx - px] as u32)
        } else {
            pre.cell(cx, cy)
        })
}

/// Whether `(cx, cy)` lies on the one-cell-thick border of the rectangle
/// anchored at `(px, py)` with extent `w` by `h`. A rectangle with no
/// interior is all border.
pub open spec fn in_border(px: int, py: int, w: int, h: int, cx: int, cy: int) -> bool {
    if w < 3 || h < 3 {
        in_rect(px, py, w, h, cx, cy)
    } else {
        in_rect(px, py, w, h, cx, cy) && !in_rect(px + 1, py + 1, w - 2, h - 2, cx, cy)
    }
}

/// Relates a grid before and after the border of the rectangle anchored at
/// `(px, py)` with extent `w` by `h` is drawn with `ch`.
pub open spec fn rect_drawn(
    pre: Image,
    post: Image,
    px: int,
    py: int,
    w: int,
    h: int,
    ch: Char,
) -> bool {
    &&& post.width == pre.width
    &&& post.height == pre.height
    &&& post.wf()
    &&& forall|cx: int, cy: int|
        0 <= cx < pre.width && 0 <= cy < pre.height ==> #[trigger] post.cell(cx, cy) == (if in_border(
            px,
            py,
            w,
            h,
            cx,
            cy,
        ) {
            cell_of(ch)
        } else {
            pre.cell(cx, cy)
        })
}

/// Relates a grid before and after the rectangle anchored at `(px, py)` with
/// extent `w` by `h` is filled with `ch`: every cell inside the rectangle
/// holds `ch`, every other cell is untouched, and the dimensions are
/// unchanged.
pub open spec fn rect_filled(
    pre: Image,
    post: Image,
    px: int,
    py: int,
    w: int,
    h: int,
    ch: Char,
) -> bool {
    &&& post.width == pre.width
    &&& post.height == pre.height
    &&& post.wf()
    &&& forall|cx: int, cy: int|
        0 <= cx < pre.width && 0 <= cy < pre.height ==> #[trigger] post.cell(cx, cy) == (if in_rect(
            px,
            py,
            w,
            h,
            cx,
            cy,
        ) {
            cell_of(ch)
        } else {
            pre.cell(cx, cy)
        })
}

} // verus!

