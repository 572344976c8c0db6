//! An off-screen frame of `Rgb565` pixels, stored row by row.
//!
//! The frame owns its pixels for as long as it lives. Rectangles are filled
//! by `embedded-graphics`, drawing into an `embedded-graphics-framebuf`
//! frame buffer laid over the pixel array; everything around that one call
//! is verified here.

use embedded_graphics::pixelcolor::{IntoStorage, Rgb565};
use embedded_graphics::primitives::{Primitive, PrimitiveStyle};
use embedded_graphics::Drawable;
use embedded_graphics_framebuf::FrameBuf;
use vstd::arithmetic::div_mod::{lemma_fundamental_div_mod, lemma_fundamental_div_mod_converse};
use vstd::prelude::*;

use crate::geometry::Rectangle;

verus! {

/// `embedded_graphics::pixelcolor::Rgb565`, a 16-bit colour. The library
/// stores and copies colours and never reads their channels.
#[verifier::external_type_specification]
#[verifier::external_body]
pub struct ExRgb565(Rgb565);

/// The 16 bits that a colour is stored in: what
/// `IntoStorage::into_storage` returns for it.
pub uninterp spec fn color_bits(color: Rgb565) -> u16;

/// Calls `IntoStorage::into_storage`, which for `Rgb565` hands out the one
/// `u16` field of the colour unchanged.
#[verifier::external_body]
fn stored_bits(color: Rgb565) -> (bits: u16)
    ensures
        bits == color_bits(color),
{
    color.into_storage()
}

/// Calls `Rgb565::default()`, the colour that a cleared frame shows. The
/// impl is derived, so the one `u16` field of the colour is 0: black.
#[verifier::external_body]
fn default_color() -> (color: Rgb565)
    ensures
        color_bits(color) == 0,
{
    Rgb565::default()
}

/// Lays a `FrameBuf` of `width` x `height` pixels over `data` and draws the
/// rectangle at `(x, y)` of size `w` x `h`, styled with
/// `PrimitiveStyle::with_fill(color)`, into it.
///
/// `FrameBuf::new` panics unless `data` holds `width * height` pixels, and
/// the rectangle's centre is computed in `i32`, hence the `requires`. A fill
/// style without stroke leaves the rectangle as it is, `fill_solid` hands its
/// points one by one to `FrameBuf::draw_iter`, and that stores the colour at
/// index `width * y + x` of every point inside the frame. No other pixel is
/// written.
#[verifier::external_body]
fn fill_solid<const N: usize>(
    data: &mut [Rgb565; N],
    width: usize,
    height: usize,
    x: i32,
    y: i32,
    w: u32,
    h: u32,
    color: Rgb565,
)
    requires
        width * height == N,
        width <= i32::MAX,
        height <= i32::MAX,
        0 <= x,
        0 <= y,
        x + w <= width,
        y + h <= height,
    ensures
        forall|i: int|
            0 <= i < N ==> #[trigger] final(data)@[i] == if x <= i % (width as int) < x + w && y <= i
                / (width as int) < y + h {
                color
            } else {
                old(data)@[i]
            },
    no_unwind
{
    let mut target = FrameBuf::new(data, width, height);
    let area = embedded_graphics::primitives::Rectangle::new(
        embedded_graphics::geometry::Point::new(x, y),
        embedded_graphics::geometry::Size::new(w, h),
    );
    let _ = area.into_styled(PrimitiveStyle::with_fill(color)).draw(&mut target);
}

/// Lays a `FrameBuf` of `width` x `height` pixels over `data` and draws the
/// rectangle at `(x, y)` of size `w` x `h`, styled with
/// `PrimitiveStyle::with_stroke(color, 1)`, into it.
///
/// A stroke one pixel wide, centred on the rectangle's edge, lies wholly
/// inside the rectangle. It is drawn as four filled rectangles: the top
/// row, the bottom row, and what is left of the first and of the last
/// column between them. So every point of the rectangle in its first or
/// last row or column gets the colour, where it lies inside the frame, and
/// no other pixel is written. Sizes are turned into `i32` and the corners
/// are computed in `i32`, hence the limits on `w`, `h`, `x + w` and `y + h`.
#[verifier::external_body]
fn stroke_outline<const N: usize>(
    data: &mut [Rgb565; N],
    width: usize,
    height: usize,
    x: i32,
    y: i32,
    w: u32,
    h: u32,
    color: Rgb565,
)
    requires
        width * height == N,
        width <= i32::MAX,
        height <= i32::MAX,
        w <= i32::MAX,
        h <= i32::MAX,
        x + w <= i32::MAX,
        y + h <= i32::MAX,
    ensures
        forall|i: int|
            0 <= i < N ==> #[trigger] final(data)@[i] == if on_outline(
                x as int,
                y as int,
                w as int,
                h as int,
                i % (width as int),
                i / (width as int),
            ) {
                color
            } else {
                old(data)@[i]
            },
    no_unwind
{
    let mut target = FrameBuf::new(data, width, height);
    let area = embedded_graphics::primitives::Rectangle::new(
        embedded_graphics::geometry::Point::new(x, y),
        embedded_graphics::geometry::Size::new(w, h),
    );
    let _ = area.into_styled(PrimitiveStyle::with_stroke(color, 1)).draw(&mut target);
}

/// Whether `(px, py)` lies in the first or last row or column of the
/// rectangle at `(x, y)` of size `w` x `h`.
pub open spec fn on_outline(x: int, y: int, w: int, h: int, px: int, py: int) -> bool {
    &&& x <= px < x + w
    &&& y <= py < y + h
    &&& (px == x || px == x + w - 1 || py == y || py == y + h - 1)
}

/// Row `y`, column `x` of a frame `w` wide and `h` high is a pixel of it, and
/// dividing its index by `w` gives back the row and the column.
pub proof fn lemma_row_major(w: int, h: int, x: int, y: int)
    requires
        0 <= x < w,
        0 <= y < h,
    ensures
        0 <= y * w + x < w * h,
        (y * w + x) % w == x,
        (y * w + x) / w == y,
{
    assert(0 <= y * w && y * w + w <= w * h) by (nonlinear_arith)
        requires
            0 <= y < h,
            0 < w,
    ;
    lemma_fundamental_div_mod_converse(y * w + x, w, y, x);
}

/// Index `i` of a frame `w` wide and `h` high lies in row `i / w`, column
/// `i % w`, and both are inside the frame.
pub proof fn lemma_row_major_converse(w: int, h: int, i: int)
    requires
        0 <= i < w * h,
        0 <= w,
        0 <= h,
    ensures
        0 <= i % w < w,
        0 <= i / w < h,
        (i / w) * w + i % w == i,
{
    assert(w > 0) by (nonlinear_arith)
        requires
            0 <= i < w * h,
            0 <= w,
    ;
    lemma_fundamental_div_mod(i, w);
    let q = i / w;
    assert(w * q == q * w) by (nonlinear_arith);
    assert(0 <= q < h) by (nonlinear_arith)
        requires
            0 <= i < w * h,
            0 < w,
            i == q * w + i % w,
            0 <= i % w < w,
    ;
}

/// A frame of `N` pixels, `width` to a row and `height` rows, together with
/// the background colour that clearing restores.
pub struct Frame<const N: usize> {
    data: [Rgb565; N],
    width: u32,
    height: u32,
    background: Rgb565,
}

impl<const N: usize> Frame<N> {
    /// The rows and columns account for every pixel, both fit in `i32`, and
    /// the background is the default colour, stored as 0.
    #[verifier::type_invariant]
    pub closed spec fn wf(self) -> bool {
        &&& self.width as int * self.height as int == N as int
        &&& self.width <= i32::MAX
        &&& self.height <= i32::MAX
        &&& color_bits(self.background) == 0
    }

    pub closed spec fn spec_width(&self) -> u32 {
        self.width
    }

    pub closed spec fn spec_height(&self) -> u32 {
        self.height
    }

    pub closed spec fn spec_background(&self) -> Rgb565 {
        self.background
    }

    /// The pixels, row by row.
    pub closed spec fn view(self) -> Seq<Rgb565> {
        self.data@
    }

    /// Whether `(x, y)` names a pixel of the frame.
    pub open spec fn in_bounds(self, x: int, y: int) -> bool {
        0 <= x < self.width() && 0 <= y < self.height()
    }

    /// The colour at column `x` of row `y`.
    pub closed spec fn pixel(self, x: int, y: int) -> Rgb565 {
        self.data@[y * self.width + x]
    }

    /// Whether the two frames have the same shape and background.
    pub open spec fn same_shape(self, other: Frame<N>) -> bool {
        &&& self.width() == other.width()
        &&& self.height() == other.height()
        &&& self.background() == other.background()
    }

    /// `self` is `before` with `color` painted over the pixels of `shape`,
    /// and nothing else changed.
    pub open spec fn is_painted(
        self,
        before: Frame<N>,
        shape: spec_fn(int, int) -> bool,
        color: Rgb565,
    ) -> bool {
        &&& self.same_shape(before)
        &&& forall|x: int, y: int|
            before.in_bounds(x, y) ==> #[trigger] self.pixel(x, y) == if shape(x, y) {
                color
            } else {
                before.pixel(x, y)
            }
    }

    /// A well-formed frame holds `width * height` pixels, `pixel(x, y)` is
    /// the one at index `y * width + x`, and its background is stored as 0.
    pub proof fn lemma_layout(self)
        requires
            self.wf(),
        ensures
            self@.len() == N,
            self.width() * self.height() == N,
            self.width() <= i32::MAX,
            self.height() <= i32::MAX,
            color_bits(self.background()) == 0,
            forall|x: int, y: int|
                self.in_bounds(x, y) ==> #[trigger] self.pixel(x, y) == self@[y * self.width() + x],
    {
    }

    /// Two well-formed frames of one shape that agree on every pixel hold
    /// the same sequence of pixels.
    pub proof fn lemma_same_pixels(self, other: Frame<N>)
        requires
            self.wf(),
            other.wf(),
            self.width() == other.width(),
            self.height() == other.height(),
            forall|x: int, y: int| self.in_bounds(x, y) ==> self.pixel(x, y) == other.pixel(x, y),
        ensures
            self@ == other@,
    {
        assert forall|i: int| 0 <= i < N implies self@[i] == other@[i] by {
            let w = self.width as int;
            lemma_row_major_converse(w, self.height as int, i);
            assert(self.in_bounds(i % w, i / w));
            assert(self.pixel(i % w, i / w) == other.pixel(i % w, i / w));
        }
        assert(self@ =~= other@);
    }

    /// Takes over `data` as a frame of `width` columns and `height` rows.
    /// The pixels stay as they are. `None` unless `data` holds exactly
    /// `width * height` pixels and both extents fit in `i32`.
    pub fn new(data: [Rgb565; N], width: u32, height: u32) -> (r: Option<Frame<N>>)
        ensures
            r is Some <==> width * height == N && width <= i32::MAX && height <= i32::MAX,
            r matches Some(f) ==> f.wf() && f.width() == width && f.height() == height && f@
                == data@ && color_bits(f.background()) == 0,
    {
        if width > i32::MAX as u32 || height > i32::MAX as u32 {
            return None;
        }
        assert(width * height <= 0x4000_0000_0000_0000) by (nonlinear_arith)
            requires
                width <= 0x7fff_ffff,
                height <= 0x7fff_ffff,
        ;
        if width as u64 * height as u64 != N as u64 {
            return None;
        }
        Some(Frame { data, width, height, background: default_color() })
    }

    #[verifier::when_used_as_spec(spec_width)]
    pub fn width(&self) -> (w: u32)
        ensures
            w == self.spec_width(),
    {
        self.width
    }

    #[verifier::when_used_as_spec(spec_height)]
    pub fn height(&self) -> (h: u32)
        ensures
            h == self.spec_height(),
    {
        self.height
    }

    /// The colour that `clear` fills the frame with: `Rgb565`'s default.
    #[verifier::when_used_as_spec(spec_background)]
    pub fn background(&self) -> (c: Rgb565)
        ensures
            c == self.spec_background(),
    {
        self.background
    }

    /// The pixels, row by row, as they go to a display in one transfer.
    pub fn pixels(&self) -> (p: &[Rgb565; N])
        ensures
            p@ == self@,
    {
        &self.data
    }

    /// The colour at column `x` of row `y`, or `None` outside the frame.
    pub fn get(&self, x: i32, y: i32) -> (c: Option<Rgb565>)
        ensures
            c == if self.in_bounds(x as int, y as int) {
                Some(self.pixel(x as int, y as int))
            } else {
                None
            },
    {
        proof {
            use_type_invariant(self);
        }
        if x < 0 || y < 0 || x as u32 >= self.width || y as u32 >= self.height {
            return None;
        }
        proof {
            lemma_row_major(self.width as int, self.height as int, x as int, y as int);
        }
        let index = y as usize * self.width as usize + x as usize;
        Some(self.data[index])
    }

    /// The 16 bits stored for the pixel at column `x` of row `y`, or `None`
    /// outside the frame.
    pub fn raw(&self, x: i32, y: i32) -> (bits: Option<u16>)
        ensures
            bits == if self.in_bounds(x as int, y as int) {
                Some(color_bits(self.pixel(x as int, y as int)))
            } else {
                None
            },
    {
        match self.get(x, y) {
            Some(color) => Some(stored_bits(color)),
            None => None,
        }
    }

    /// Sets every pixel to the background colour.
    pub fn clear(&mut self)
        ensures
            final(self).same_shape(*old(self)),
            forall|x: int, y: int|
                old(self).in_bounds(x, y) ==> #[trigger] final(self).pixel(x, y) == old(
                    self,
                ).background(),
    {
        proof {
            use_type_invariant(&*self);
        }
        let background = self.background;
        let mut i: usize = 0;
        while i < N
            invariant
                i <= N,
                self.width == old(self).width,
                self.height == old(self).height,
                self.background == background,
                background == old(self).background,
                self.wf(),
                forall|j: int| 0 <= j < i ==> self.data@[j] == background,
            decreases N - i,
        {
            self.data[i] = background;
            i += 1;
        }
        proof {
            assert forall|x: int, y: int| old(self).in_bounds(x, y) implies #[trigger] self.pixel(
                x,
                y,
            ) == old(self).background() by {
                lemma_row_major(self.width as int, self.height as int, x, y);
            }
        }
    }

    /// Paints `color` over the outline of `rect`, one pixel wide, as far as
    /// it lies inside the frame. The rectangle's size and its far corner
    /// must be within the range of `i32`. A rectangle that misses the frame
    /// changes nothing.
    pub fn stroke_rect(&mut self, rect: Rectangle, color: Rgb565)
        requires
            rect.size.width <= i32::MAX,
            rect.size.height <= i32::MAX,
            rect.top_left.x + rect.size.width <= i32::MAX,
            rect.top_left.y + rect.size.height <= i32::MAX,
        ensures
            final(self).is_painted(
                *old(self),
                |x: int, y: int|
                    on_outline(
                        rect.top_left.x as int,
                        rect.top_left.y as int,
                        rect.size.width as int,
                        rect.size.height as int,
                        x,
                        y,
                    ),
                color,
            ),
    {
        proof {
            use_type_invariant(&*self);
        }
        // What lies more than one pixel outside the frame is cut off first:
        // the outline inside the frame stays the same, and the work is
        // bounded by the size of the frame.
        let left: i64 = rect.top_left.x as i64;
        let top: i64 = rect.top_left.y as i64;
        let right: i64 = left + rect.size.width as i64;
        let bottom: i64 = top + rect.size.height as i64;
        let x0: i64 = if left < -1 { -1 } else { left };
        let y0: i64 = if top < -1 { -1 } else { top };
        let x1: i64 = if right > self.width as i64 + 1 { self.width as i64 + 1 } else { right };
        let y1: i64 = if bottom > self.height as i64 + 1 { self.height as i64 + 1 } else { bottom };
        if x0 < x1 && y0 < y1 {
            if x1 - x0 <= i32::MAX as i64 && y1 - y0 <= i32::MAX as i64 {
                stroke_outline(
                    &mut self.data,
                    self.width as usize,
                    self.height as usize,
                    x0 as i32,
                    y0 as i32,
                    (x1 - x0) as u32,
                    (y1 - y0) as u32,
                    color,
                );
            } else {
                stroke_outline(
                    &mut self.data,
                    self.width as usize,
                    self.height as usize,
                    rect.top_left.x,
                    rect.top_left.y,
                    rect.size.width,
                    rect.size.height,
                    color,
                );
            }
        }
        proof {
            assert forall|x: int, y: int| old(self).in_bounds(x, y) implies #[trigger] self.pixel(
                x,
                y,
            ) == if on_outline(
                rect.top_left.x as int,
                rect.top_left.y as int,
                rect.size.width as int,
                rect.size.height as int,
                x,
                y,
            ) {
                color
            } else {
                old(self).pixel(x, y)
            } by {
                lemma_row_major(self.width as int, self.height as int, x, y);
            }
        }
    }

    /// Paints `color` over the pixels of `rect` that lie inside the frame.
    /// A rectangle without pixels, or one that misses the frame, changes
    /// nothing.
    pub fn fill_rect(&mut self, rect: Rectangle, color: Rgb565)
        ensures
            final(self).is_painted(*old(self), |x: int, y: int| rect.contains(x, y), color),
    {
        proof {
            use_type_invariant(&*self);
        }
        let left: i64 = rect.top_left.x as i64;
        let top: i64 = rect.top_left.y as i64;
        let right: i64 = left + rect.size.width as i64;
        let bottom: i64 = top + rect.size.height as i64;
        let x0: i64 = if left < 0 { 0 } else { left };
        let y0: i64 = if top < 0 { 0 } else { top };
        let x1: i64 = if right > self.width as i64 { self.width as i64 } else { right };
        let y1: i64 = if bottom > self.height as i64 { self.height as i64 } else { bottom };
        if x0 < x1 && y0 < y1 {
            fill_solid(
                &mut self.data,
                self.width as usize,
                self.height as usize,
                x0 as i32,
                y0 as i32,
                (x1 - x0) as u32,
                (y1 - y0) as u32,
                color,
            );
        }
        proof {
            assert forall|x: int, y: int| old(self).in_bounds(x, y) implies #[trigger] self.pixel(
                x,
                y,
            ) == if rect.contains(x, y) {
                color
            } else {
                old(self).pixel(x, y)
            } by {
                lemma_row_major(self.width as int, self.height as int, x, y);
            }
        }
    }
}

} // verus!
