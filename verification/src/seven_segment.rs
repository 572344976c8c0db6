//! A seven-segment clock face, `HH:MM:SS`, drawn into a [`Frame`].
//!
//! Every segment is a bar with pointed ends: a hexagon that is widest along
//! its middle line and loses one pixel at each end for every line further
//! out. Horizontal and vertical segments of a digit are laid out on
//! rectangles that share their corners; each is shortened along its long
//! side before it is drawn, so that the points meet without overlapping.

use embedded_graphics::pixelcolor::Rgb565;
use vstd::prelude::*;

use crate::frame::Frame;
use crate::geometry::{clamp_i32, offset_coord, Point, Rectangle, Size};
use crate::segments::Segments;

verus! {

/// How many pixels line `line` of a bar that is `lines` thick loses at each
/// end: half its doubled distance from the middle line, rounded down.
pub open spec fn taper(line: int, lines: int) -> int {
    let d = 2 * line - (lines - 1);
    (if d < 0 {
        -d
    } else {
        d
    }) / 2
}

/// Whether `(x, y)` belongs to the horizontal bar laid out on `rect`: row by
/// row, the rectangle's width less the taper of the row at both ends.
pub open spec fn in_horizontal_segment(rect: Rectangle, x: int, y: int) -> bool {
    let row = y - rect.top_left.y;
    let off = taper(row, rect.size.height as int);
    &&& 0 <= row < rect.size.height
    &&& rect.top_left.x + off <= x < rect.top_left.x + rect.size.width - off
}

/// Whether `(x, y)` belongs to the vertical bar laid out on `rect`: column
/// by column, the rectangle's height less the taper of the column at both
/// ends.
pub open spec fn in_vertical_segment(rect: Rectangle, x: int, y: int) -> bool {
    let column = x - rect.top_left.x;
    let off = taper(column, rect.size.width as int);
    &&& 0 <= column < rect.size.width
    &&& rect.top_left.y + off <= y < rect.top_left.y + rect.size.height - off
}

/// Whether `(x, y)` belongs to the segment laid out on `rect`: a horizontal
/// bar where the rectangle is wider than high, a vertical bar otherwise.
pub open spec fn in_segment(rect: Rectangle, x: int, y: int) -> bool {
    if rect.size.width > rect.size.height {
        in_horizontal_segment(rect, x, y)
    } else {
        in_vertical_segment(rect, x, y)
    }
}

/// The rectangle of a segment made shorter along its long side by half its
/// short side plus one pixel at both ends. A rectangle without pixels stays
/// as it is; one that is too short for the cut is left with no length.
pub open spec fn reduced(rect: Rectangle) -> Rectangle {
    if rect.is_zero_sized() {
        rect
    } else if rect.size.width > rect.size.height {
        let cut = rect.size.height / 2 + 1;
        Rectangle {
            top_left: Point { x: clamp_i32(rect.top_left.x + cut) as i32, y: rect.top_left.y },
            size: Size {
                width: if rect.size.width >= 2 * cut {
                    (rect.size.width - 2 * cut) as u32
                } else {
                    0
                },
                height: rect.size.height,
            },
        }
    } else {
        let cut = rect.size.width / 2 + 1;
        Rectangle {
            top_left: Point { x: rect.top_left.x, y: clamp_i32(rect.top_left.y + cut) as i32 },
            size: Size {
                width: rect.size.width,
                height: if rect.size.height >= 2 * cut {
                    (rect.size.height - 2 * cut) as u32
                } else {
                    0
                },
            },
        }
    }
}

/// A rectangle without pixels holds no pixel of a segment.
pub proof fn lemma_empty_segment(rect: Rectangle, x: int, y: int)
    requires
        rect.is_zero_sized(),
    ensures
        !in_segment(rect, x, y),
        !in_horizontal_segment(rect, x, y),
        !in_vertical_segment(rect, x, y),
{
}

/// Shortening a segment's rectangle never makes it wider or higher.
pub proof fn lemma_reduced_not_larger(rect: Rectangle)
    ensures
        reduced(rect).size.width <= rect.size.width,
        reduced(rect).size.height <= rect.size.height,
{
}

/// A horizontal and a vertical segment of one thickness whose rectangles
/// share their top left corner have, once both are shortened, no pixel in
/// common.
///
/// This holds where the horizontal segment is longer than twice its
/// thickness, where the vertical segment, after the cut, is either gone or
/// still at least as high as wide, and where the corner is far enough from
/// the end of the coordinate range for the cut to fit. A vertical segment
/// that the cut leaves wider than high is drawn as a horizontal bar, and
/// that bar can reach into the horizontal segment.
pub proof fn lemma_corner_segments_disjoint(
    corner: Point,
    thickness: u32,
    length: u32,
    height: u32,
    x: int,
    y: int,
)
    requires
        thickness < length / 2,
        thickness <= height,
        height <= 2 * (thickness / 2 + 1) || height >= 2 * (thickness / 2 + 1) + thickness,
        corner.x + thickness / 2 + 1 <= i32::MAX,
        corner.y + thickness / 2 + 1 <= i32::MAX,
    ensures
        !(in_segment(
            reduced(Rectangle { top_left: corner, size: Size { width: length, height: thickness } }),
            x,
            y,
        ) && in_segment(
            reduced(Rectangle { top_left: corner, size: Size { width: thickness, height } }),
            x,
            y,
        )),
{
}

/// The layout of the clock face: the size of one digit, the gap between
/// neighbouring glyphs and the thickness of a segment.
#[derive(Debug, Clone, Copy)]
pub struct SevenSegmentConfig {
    /// Digit size
    pub digit_size: Size,
    /// Spacing between digits
    pub digit_spacing: u32,
    /// Segment width (thickness)
    pub segment_width: u32,
}

impl Default for SevenSegmentConfig {
    fn default() -> (c: Self)
        ensures
            c.digit_size == (Size { width: 24, height: 48 }),
            c.digit_spacing == 8,
            c.segment_width == 4,
    {
        Self { digit_size: Size::new(24, 48), digit_spacing: 8, segment_width: 4 }
    }
}

impl SevenSegmentConfig {
    /// Create new configuration
    pub fn new(digit_size: Size, digit_spacing: u32, segment_width: u32) -> (c: Self)
        ensures
            c.digit_size == digit_size,
            c.digit_spacing == digit_spacing,
            c.segment_width == segment_width,
    {
        Self { digit_size, digit_spacing, segment_width }
    }

    /// The segments are thinner than half the digit's width and half its
    /// height. Other layouts are drawn too, with segments that shrink to
    /// nothing.
    pub open spec fn well_proportioned(self) -> bool {
        &&& self.segment_width < self.digit_size.width / 2
        &&& self.segment_width < self.digit_size.height / 2
    }

    /// The digit is high enough for its vertical segments, each half the
    /// digit high, to stay at least as high as wide when they are
    /// shortened.
    pub open spec fn upright(self) -> bool {
        self.digit_size.height / 2 >= 2 * (self.segment_width / 2 + 1) + self.segment_width
    }

    /// The rectangle on which `segment` of a digit at `position` is laid
    /// out, before it is shortened. A and D span the digit's width at its
    /// top and bottom, G lies across its middle; F and B stand on the left
    /// and right of the upper half, E and C of the lower half.
    pub open spec fn segment_rect(self, position: Point, segment: u8) -> Rectangle {
        let thickness = self.segment_width;
        let width = self.digit_size.width;
        let half = (self.digit_size.height / 2) as u32;
        let right = width.saturating_sub(thickness);
        let horizontal = Size { width, height: thickness };
        let vertical = Size { width: thickness, height: half };
        if segment == Segments::A {
            Rectangle { top_left: position, size: horizontal }
        } else if segment == Segments::F {
            Rectangle { top_left: position, size: vertical }
        } else if segment == Segments::B {
            Rectangle { top_left: position.offset(right, 0), size: vertical }
        } else if segment == Segments::G {
            Rectangle {
                top_left: position.offset(0, half.saturating_sub((thickness / 2) as u32)),
                size: horizontal,
            }
        } else if segment == Segments::E {
            Rectangle { top_left: position.offset(0, half), size: vertical }
        } else if segment == Segments::C {
            Rectangle { top_left: position.offset(right, half), size: vertical }
        } else {
            Rectangle {
                top_left: position.offset(0, self.digit_size.height.saturating_sub(thickness)),
                size: horizontal,
            }
        }
    }

    /// The colour of `(x, y)` once `segment` of a digit at `position` has
    /// been drawn over a pixel that showed `under`: `color` inside a lit
    /// segment, the inactive colour, if there is one, inside an unlit
    /// segment, and `under` everywhere else.
    #[verifier::opaque]
    pub open spec fn segment_layer(
        self,
        segments: Segments,
        segment: u8,
        position: Point,
        color: Rgb565,
        inactive_color: Option<Rgb565>,
        x: int,
        y: int,
        under: Rgb565,
    ) -> Rgb565 {
        if in_segment(reduced(self.segment_rect(position, segment)), x, y) {
            if segments.contains(segment) {
                color
            } else {
                match inactive_color {
                    Some(inactive) => inactive,
                    None => under,
                }
            }
        } else {
            under
        }
    }

    /// The colour of `(x, y)` once the seven segments of a glyph at
    /// `position` have been drawn, in the order A, F, B, G, E, C, D, over a
    /// pixel that showed `under`.
    pub open spec fn segments_layer(
        self,
        segments: Segments,
        position: Point,
        color: Rgb565,
        inactive_color: Option<Rgb565>,
        x: int,
        y: int,
        under: Rgb565,
    ) -> Rgb565 {
        let a = self.segment_layer(segments, Segments::A, position, color, inactive_color, x, y, under);
        let f = self.segment_layer(segments, Segments::F, position, color, inactive_color, x, y, a);
        let b = self.segment_layer(segments, Segments::B, position, color, inactive_color, x, y, f);
        let g = self.segment_layer(segments, Segments::G, position, color, inactive_color, x, y, b);
        let e = self.segment_layer(segments, Segments::E, position, color, inactive_color, x, y, g);
        let c = self.segment_layer(segments, Segments::C, position, color, inactive_color, x, y, e);
        self.segment_layer(segments, Segments::D, position, color, inactive_color, x, y, c)
    }

    /// The colour of `(x, y)` once `digit` has been drawn at `position`. A
    /// value above 9 has no lit segment.
    #[verifier::opaque]
    pub open spec fn digit_layer(
        self,
        digit: u8,
        position: Point,
        color: Rgb565,
        inactive_color: Option<Rgb565>,
        x: int,
        y: int,
        under: Rgb565,
    ) -> Rgb565 {
        self.segments_layer(
            Segments(Segments::digit_bits(digit)),
            position,
            color,
            inactive_color,
            x,
            y,
            under,
        )
    }

    /// The upper (`lower == false`) or lower dot of a colon at `position`:
    /// a square as wide as a segment is thick, centred on one third or two
    /// thirds of the digit's height.
    pub open spec fn colon_dot(self, position: Point, lower: bool) -> Rectangle {
        let third = (self.digit_size.height / 3) as u32;
        let middle = if lower {
            (third * 2) as u32
        } else {
            third
        };
        Rectangle {
            top_left: position.offset(0, middle.saturating_sub((self.segment_width / 2) as u32)),
            size: Size { width: self.segment_width, height: self.segment_width },
        }
    }

    /// The colour of `(x, y)` once a colon has been drawn at `position`.
    #[verifier::opaque]
    pub open spec fn colon_layer(
        self,
        position: Point,
        color: Rgb565,
        x: int,
        y: int,
        under: Rgb565,
    ) -> Rgb565 {
        let upper = self.colon_dot(position, false);
        let lower = self.colon_dot(position, true);
        if upper.contains(x, y) || lower.contains(x, y) {
            color
        } else {
            under
        }
    }

    /// The width of six digits, two colons and the seven gaps between them,
    /// held to the range of `u32`.
    pub open spec fn time_width(self) -> int {
        let total = 6 * self.digit_size.width + 2 * self.segment_width + 7 * self.digit_spacing;
        if total > u32::MAX {
            u32::MAX as int
        } else {
            total
        }
    }

    /// Where the first digit stands in a frame of `columns` x `rows`
    /// pixels: the strip is centred both ways, and where a margin is odd it
    /// stands one pixel nearer to the left or to the top. A strip that does
    /// not fit starts at 0.
    pub open spec fn time_origin(self, columns: u32, rows: u32) -> Point {
        Point {
            x: (if columns >= self.time_width() {
                (columns - self.time_width()) / 2
            } else {
                0
            }) as i32,
            y: (if rows >= self.digit_size.height {
                (rows - self.digit_size.height) / 2
            } else {
                0
            }) as i32,
        }
    }

    /// The position of the glyph that follows a digit at `position`.
    pub open spec fn after_digit(self, position: Point) -> Point {
        Point {
            x: clamp_i32(position.x + self.digit_size.width + self.digit_spacing) as i32,
            y: position.y,
        }
    }

    /// The position of the glyph that follows a colon at `position`.
    pub open spec fn after_colon(self, position: Point) -> Point {
        Point {
            x: clamp_i32(position.x + self.segment_width + self.digit_spacing) as i32,
            y: position.y,
        }
    }

    /// The colour of `(x, y)` in a frame of `columns` x `rows` pixels that
    /// was cleared to `background` and then shows the time: the two digits
    /// of the hours, a colon, the two digits of the minutes, a colon and
    /// the two digits of the seconds, drawn from left to right.
    pub open spec fn time_layer(
        self,
        columns: u32,
        rows: u32,
        hours: u8,
        minutes: u8,
        seconds: u8,
        color: Rgb565,
        inactive_color: Option<Rgb565>,
        x: int,
        y: int,
        background: Rgb565,
    ) -> Rgb565 {
        let at_h1 = self.time_origin(columns, rows);
        let at_h2 = self.after_digit(at_h1);
        let at_c1 = self.after_digit(at_h2);
        let at_m1 = self.after_colon(at_c1);
        let at_m2 = self.after_digit(at_m1);
        let at_c2 = self.after_digit(at_m2);
        let at_s1 = self.after_colon(at_c2);
        let at_s2 = self.after_digit(at_s1);
        let h1 = self.digit_layer(hours / 10, at_h1, color, inactive_color, x, y, background);
        let h2 = self.digit_layer(hours % 10, at_h2, color, inactive_color, x, y, h1);
        let c1 = self.colon_layer(at_c1, color, x, y, h2);
        let m1 = self.digit_layer(minutes / 10, at_m1, color, inactive_color, x, y, c1);
        let m2 = self.digit_layer(minutes % 10, at_m2, color, inactive_color, x, y, m1);
        let c2 = self.colon_layer(at_c2, color, x, y, m2);
        let s1 = self.digit_layer(seconds / 10, at_s1, color, inactive_color, x, y, c2);
        self.digit_layer(seconds % 10, at_s2, color, inactive_color, x, y, s1)
    }
}

/// Whether `segment` is one of the seven segments.
pub open spec fn is_segment(segment: u8) -> bool {
    ||| segment == Segments::A
    ||| segment == Segments::B
    ||| segment == Segments::C
    ||| segment == Segments::D
    ||| segment == Segments::E
    ||| segment == Segments::F
    ||| segment == Segments::G
}

/// Whether `segment` is one of the three horizontal segments.
pub open spec fn is_horizontal(segment: u8) -> bool {
    segment == Segments::A || segment == Segments::G || segment == Segments::D
}

/// Whether `segment` is one of the four vertical segments.
pub open spec fn is_vertical(segment: u8) -> bool {
    ||| segment == Segments::F
    ||| segment == Segments::B
    ||| segment == Segments::E
    ||| segment == Segments::C
}

/// Two horizontal segments of a digit lie in different rows.
proof fn lemma_horizontal_segments_apart(
    config: SevenSegmentConfig,
    position: Point,
    first: u8,
    second: u8,
    x: int,
    y: int,
)
    requires
        config.well_proportioned(),
        config.upright(),
        position.x + config.digit_size.width <= i32::MAX,
        position.y + config.digit_size.height <= i32::MAX,
        is_horizontal(first),
        is_horizontal(second),
        first != second,
    ensures
        !(in_segment(reduced(config.segment_rect(position, first)), x, y) && in_segment(
            reduced(config.segment_rect(position, second)),
            x,
            y,
        )),
{
}

/// A horizontal and a vertical segment of a digit share no pixel: they
/// lie apart, or their pointed ends pass each other at a corner.
proof fn lemma_horizontal_and_vertical_apart(
    config: SevenSegmentConfig,
    position: Point,
    first: u8,
    second: u8,
    x: int,
    y: int,
)
    requires
        config.well_proportioned(),
        config.upright(),
        position.x + config.digit_size.width <= i32::MAX,
        position.y + config.digit_size.height <= i32::MAX,
        is_horizontal(first),
        is_vertical(second),
        first != second,
    ensures
        !(in_segment(reduced(config.segment_rect(position, first)), x, y) && in_segment(
            reduced(config.segment_rect(position, second)),
            x,
            y,
        )),
{
}

/// Two vertical segments of a digit lie in different columns or in
/// different halves.
proof fn lemma_vertical_segments_apart(
    config: SevenSegmentConfig,
    position: Point,
    first: u8,
    second: u8,
    x: int,
    y: int,
)
    requires
        config.well_proportioned(),
        config.upright(),
        position.x + config.digit_size.width <= i32::MAX,
        position.y + config.digit_size.height <= i32::MAX,
        is_vertical(first),
        is_vertical(second),
        first != second,
    ensures
        !(in_segment(reduced(config.segment_rect(position, first)), x, y) && in_segment(
            reduced(config.segment_rect(position, second)),
            x,
            y,
        )),
{
}

/// No two segments of a digit share a pixel, where the segments are thinner
/// than half the digit's width and height, the digit is upright, and its
/// cell lies within the coordinate range.
pub proof fn lemma_segments_of_digit_disjoint(
    config: SevenSegmentConfig,
    position: Point,
    first: u8,
    second: u8,
    x: int,
    y: int,
)
    requires
        config.well_proportioned(),
        config.upright(),
        position.x + config.digit_size.width <= i32::MAX,
        position.y + config.digit_size.height <= i32::MAX,
        is_segment(first),
        is_segment(second),
        first != second,
    ensures
        !(in_segment(reduced(config.segment_rect(position, first)), x, y) && in_segment(
            reduced(config.segment_rect(position, second)),
            x,
            y,
        )),
{
    if is_horizontal(first) && is_horizontal(second) {
        lemma_horizontal_segments_apart(config, position, first, second, x, y);
    } else if is_horizontal(first) {
        lemma_horizontal_and_vertical_apart(config, position, first, second, x, y);
    } else if is_horizontal(second) {
        lemma_horizontal_and_vertical_apart(config, position, second, first, x, y);
    } else {
        lemma_vertical_segments_apart(config, position, first, second, x, y);
    }
}

/// Inside a segment of a digit the pixel shows that segment alone: the
/// colour if the segment is lit, the inactive colour, if there is one, if it
/// is not, and else what was there before. This holds where no two segments
/// share a pixel.
pub proof fn lemma_pixel_inside_segment(
    config: SevenSegmentConfig,
    segments: Segments,
    position: Point,
    segment: u8,
    color: Rgb565,
    inactive_color: Option<Rgb565>,
    x: int,
    y: int,
    under: Rgb565,
)
    requires
        config.well_proportioned(),
        config.upright(),
        position.x + config.digit_size.width <= i32::MAX,
        position.y + config.digit_size.height <= i32::MAX,
        is_segment(segment),
        in_segment(reduced(config.segment_rect(position, segment)), x, y),
    ensures
        config.segments_layer(segments, position, color, inactive_color, x, y, under) == (
        if segments.contains(segment) {
            color
        } else {
            match inactive_color {
                Some(inactive) => inactive,
                None => under,
            }
        }),
{
    reveal(SevenSegmentConfig::segment_layer);
    if segment != Segments::A {
        lemma_segments_of_digit_disjoint(config, position, segment, Segments::A, x, y);
    }
    if segment != Segments::B {
        lemma_segments_of_digit_disjoint(config, position, segment, Segments::B, x, y);
    }
    if segment != Segments::C {
        lemma_segments_of_digit_disjoint(config, position, segment, Segments::C, x, y);
    }
    if segment != Segments::D {
        lemma_segments_of_digit_disjoint(config, position, segment, Segments::D, x, y);
    }
    if segment != Segments::E {
        lemma_segments_of_digit_disjoint(config, position, segment, Segments::E, x, y);
    }
    if segment != Segments::F {
        lemma_segments_of_digit_disjoint(config, position, segment, Segments::F, x, y);
    }
    if segment != Segments::G {
        lemma_segments_of_digit_disjoint(config, position, segment, Segments::G, x, y);
    }
}

/// A pixel that lies in none of the seven segments of a digit stays as it
/// was.
pub proof fn lemma_pixel_outside_segments(
    config: SevenSegmentConfig,
    segments: Segments,
    position: Point,
    color: Rgb565,
    inactive_color: Option<Rgb565>,
    x: int,
    y: int,
    under: Rgb565,
)
    requires
        forall|segment: u8|
            is_segment(segment) ==> !in_segment(
                reduced(#[trigger] config.segment_rect(position, segment)),
                x,
                y,
            ),
    ensures
        config.segments_layer(segments, position, color, inactive_color, x, y, under) == under,
{
    reveal(SevenSegmentConfig::segment_layer);
}

/// Where a frame of `columns` x `rows` pixels goes on a display whose
/// bounding box is `display`: the frame's middle on the middle of the box,
/// which for a box with pixels is its top left corner plus half of its size
/// less one. Coordinates are held to the range of `i32`.
pub open spec fn transfer_area(display: Rectangle, columns: u32, rows: u32) -> Rectangle {
    let center_x = display.top_left.x + display.size.width.saturating_sub(1) / 2;
    let center_y = display.top_left.y + display.size.height.saturating_sub(1) / 2;
    Rectangle {
        top_left: Point {
            x: clamp_i32(clamp_i32(center_x) - columns / 2) as i32,
            y: clamp_i32(clamp_i32(center_y) - rows / 2) as i32,
        },
        size: Size { width: columns, height: rows },
    }
}

/// Draws digits, colons and whole clock faces in one layout.
pub struct SevenSegmentDisplay {
    config: SevenSegmentConfig,
}

impl SevenSegmentDisplay {
    pub closed spec fn spec_config(&self) -> SevenSegmentConfig {
        self.config
    }

    /// Create new 7 segment display
    pub fn new(config: SevenSegmentConfig) -> (d: Self)
        ensures
            d.config() == config,
    {
        Self { config }
    }

    /// The layout that the display draws in.
    #[verifier::when_used_as_spec(spec_config)]
    pub fn config(&self) -> (c: SevenSegmentConfig)
        ensures
            c == self.spec_config(),
    {
        self.config
    }

    /// Paints the horizontal bar laid out on `rect`, one row at a time.
    fn draw_horizontal_segment<const N: usize>(
        &self,
        frame: &mut Frame<N>,
        rect: Rectangle,
        color: Rgb565,
    )
        ensures
            final(frame).is_painted(
                *old(frame),
                |x: int, y: int| in_horizontal_segment(rect, x, y),
                color,
            ),
    {
        if rect.is_zero_sized() {
            return ;
        }
        let left: i64 = rect.top_left.x as i64;
        let top: i64 = rect.top_left.y as i64;
        let width: i64 = rect.size.width as i64;
        let height: i64 = rect.size.height as i64;
        let rows: i64 = frame.height() as i64;
        proof {
            use_type_invariant(&*frame);
            frame.lemma_layout();
        }
        let first: i64 = if top < 0 { 0 } else { top };
        let last: i64 = if top + height > rows { rows } else { top + height };
        let mut y: i64 = first;
        while y < last
            invariant
                left == rect.top_left.x,
                top == rect.top_left.y,
                width == rect.size.width,
                height == rect.size.height,
                rows == frame.height(),
                frame.width() <= i32::MAX,
                frame.height() <= i32::MAX,
                0 <= first,
                top <= first,
                first <= y,
                last <= top + height,
                last <= rows,
                frame.same_shape(*old(frame)),
                forall|px: int, py: int|
                    old(frame).in_bounds(px, py) ==> #[trigger] frame.pixel(px, py) == if py < y
                        && in_horizontal_segment(rect, px, py) {
                        color
                    } else {
                        old(frame).pixel(px, py)
                    },
            decreases last - y,
        {
            let d: i64 = 2 * (y - top) - (height - 1);
            let off: i64 = (if d < 0 { -d } else { d }) / 2;
            let start: i64 = left + off;
            if 2 * off < width && start <= i32::MAX as i64 {
                let span = Rectangle::new(
                    Point::new(start as i32, y as i32),
                    Size::new((width - 2 * off) as u32, 1),
                );
                frame.fill_rect(span, color);
            }
            y += 1;
        }
    }

    /// Paints the vertical bar laid out on `rect`, one column at a time.
    fn draw_vertical_segment<const N: usize>(
        &self,
        frame: &mut Frame<N>,
        rect: Rectangle,
        color: Rgb565,
    )
        ensures
            final(frame).is_painted(
                *old(frame),
                |x: int, y: int| in_vertical_segment(rect, x, y),
                color,
            ),
    {
        if rect.is_zero_sized() {
            return ;
        }
        let left: i64 = rect.top_left.x as i64;
        let top: i64 = rect.top_left.y as i64;
        let width: i64 = rect.size.width as i64;
        let height: i64 = rect.size.height as i64;
        let columns: i64 = frame.width() as i64;
        proof {
            use_type_invariant(&*frame);
            frame.lemma_layout();
        }
        let first: i64 = if left < 0 { 0 } else { left };
        let last: i64 = if left + width > columns { columns } else { left + width };
        let mut x: i64 = first;
        while x < last
            invariant
                left == rect.top_left.x,
                top == rect.top_left.y,
                width == rect.size.width,
                height == rect.size.height,
                columns == frame.width(),
                frame.width() <= i32::MAX,
                frame.height() <= i32::MAX,
                0 <= first,
                left <= first,
                first <= x,
                last <= left + width,
                last <= columns,
                frame.same_shape(*old(frame)),
                forall|px: int, py: int|
                    old(frame).in_bounds(px, py) ==> #[trigger] frame.pixel(px, py) == if px < x
                        && in_vertical_segment(rect, px, py) {
                        color
                    } else {
                        old(frame).pixel(px, py)
                    },
            decreases last - x,
        {
            let d: i64 = 2 * (x - left) - (width - 1);
            let off: i64 = (if d < 0 { -d } else { d }) / 2;
            let start: i64 = top + off;
            if 2 * off < height && start <= i32::MAX as i64 {
                let span = Rectangle::new(
                    Point::new(x as i32, start as i32),
                    Size::new(1, (height - 2 * off) as u32),
                );
                frame.fill_rect(span, color);
            }
            x += 1;
        }
    }

    /// Paints the segment laid out on `rect`: a horizontal bar where the
    /// rectangle is wider than high, a vertical bar otherwise. A rectangle
    /// without pixels leaves the frame as it is.
    pub fn draw_segment<const N: usize>(&self, frame: &mut Frame<N>, rect: Rectangle, color: Rgb565)
        ensures
            final(frame).is_painted(*old(frame), |x: int, y: int| in_segment(rect, x, y), color),
            rect.is_zero_sized() ==> final(frame)@ == old(frame)@,
    {
        proof {
            use_type_invariant(&*frame);
        }
        if rect.size.width > rect.size.height {
            self.draw_horizontal_segment(frame, rect, color);
        } else {
            self.draw_vertical_segment(frame, rect, color);
        }
        proof {
            if rect.is_zero_sized() {
                use_type_invariant(&*frame);
                frame.lemma_same_pixels(*old(frame));
            }
        }
    }

    /// The rectangle of a segment made shorter along its long side, so that
    /// a horizontal and a vertical segment that share a corner do not paint
    /// the same pixel.
    pub fn reduced_rect(&self, rect: Rectangle) -> (r: Rectangle)
        ensures
            r == reduced(rect),
            r.size.width <= rect.size.width,
            r.size.height <= rect.size.height,
    {
        let mut rect = rect;
        if rect.is_zero_sized() {
            return rect;
        }
        if rect.size.width > rect.size.height {
            let cut: u32 = rect.size.height / 2 + 1;
            rect.top_left.x = offset_coord(rect.top_left.x, cut);
            rect.size.width = if rect.size.width as u64 >= 2 * (cut as u64) {
                rect.size.width - 2 * cut
            } else {
                0
            };
        } else {
            let cut: u32 = rect.size.width / 2 + 1;
            rect.top_left.y = offset_coord(rect.top_left.y, cut);
            rect.size.height = if rect.size.height as u64 >= 2 * (cut as u64) {
                rect.size.height - 2 * cut
            } else {
                0
            };
        }
        rect
    }

    /// The rectangle on which `segment` of a digit at `position` is laid out.
    fn segment_rect(&self, position: Point, segment: u8) -> (r: Rectangle)
        ensures
            r == self.config().segment_rect(position, segment),
    {
        let thickness = self.config.segment_width;
        let width = self.config.digit_size.width;
        let half: u32 = self.config.digit_size.height / 2;
        let right = width.saturating_sub(thickness);
        let horizontal = Size::new(width, thickness);
        let vertical = Size::new(thickness, half);
        if segment == Segments::A {
            Rectangle::new(position, horizontal)
        } else if segment == Segments::F {
            Rectangle::new(position, vertical)
        } else if segment == Segments::B {
            Rectangle::new(position.offset(right, 0), vertical)
        } else if segment == Segments::G {
            Rectangle::new(position.offset(0, half.saturating_sub(thickness / 2)), horizontal)
        } else if segment == Segments::E {
            Rectangle::new(position.offset(0, half), vertical)
        } else if segment == Segments::C {
            Rectangle::new(position.offset(right, half), vertical)
        } else {
            Rectangle::new(
                position.offset(0, self.config.digit_size.height.saturating_sub(thickness)),
                horizontal,
            )
        }
    }

    /// Draws one segment of a glyph: in `color` if `segments` holds it, in
    /// the inactive colour if there is one, and not at all otherwise.
    fn draw_lit_or_dimmed<const N: usize>(
        &self,
        frame: &mut Frame<N>,
        segments: &Segments,
        segment: u8,
        position: Point,
        color: Rgb565,
        inactive_color: Option<Rgb565>,
    )
        ensures
            final(frame).same_shape(*old(frame)),
            forall|x: int, y: int|
                old(frame).in_bounds(x, y) ==> #[trigger] final(frame).pixel(x, y)
                    == self.config().segment_layer(
                    *segments,
                    segment,
                    position,
                    color,
                    inactive_color,
                    x,
                    y,
                    old(frame).pixel(x, y),
                ),
    {
        reveal(SevenSegmentConfig::segment_layer);
        let rect = self.segment_rect(position, segment);
        if segments.contains(segment) {
            self.draw_segment(frame, self.reduced_rect(rect), color);
        } else if let Some(inactive) = inactive_color {
            self.draw_segment(frame, self.reduced_rect(rect), inactive);
        }
    }

    /// Draw single digit to frame buffer. A value above 9 lights no
    /// segment.
    pub fn draw_digit_to_fbuf<const N: usize>(
        &self,
        frame: &mut Frame<N>,
        digit: u8,
        position: Point,
        color: Rgb565,
        inactive_color: Option<Rgb565>,
    )
        ensures
            final(frame).same_shape(*old(frame)),
            forall|x: int, y: int|
                old(frame).in_bounds(x, y) ==> #[trigger] final(frame).pixel(x, y)
                    == self.config().digit_layer(
                    digit,
                    position,
                    color,
                    inactive_color,
                    x,
                    y,
                    old(frame).pixel(x, y),
                ),
    {
        reveal(SevenSegmentConfig::digit_layer);
        let segments = Segments::from_digit(digit).unwrap_or(Segments::empty());
        self.draw_segments_to_fbuf(frame, &segments, position, color, inactive_color);
    }

    /// Draw segments to frame buffer
    ///
    /// Key: horizontal and vertical segments share the same starting coordinates
    /// Overlap is avoided by reducing size during drawing
    ///
    /// inactive_color: color for inactive segments (dim effect), None to hide completely
    pub fn draw_segments_to_fbuf<const N: usize>(
        &self,
        frame: &mut Frame<N>,
        segments: &Segments,
        position: Point,
        color: Rgb565,
        inactive_color: Option<Rgb565>,
    )
        ensures
            final(frame).same_shape(*old(frame)),
            forall|x: int, y: int|
                old(frame).in_bounds(x, y) ==> #[trigger] final(frame).pixel(x, y)
                    == self.config().segments_layer(
                    *segments,
                    position,
                    color,
                    inactive_color,
                    x,
                    y,
                    old(frame).pixel(x, y),
                ),
    {
        self.draw_lit_or_dimmed(frame, segments, Segments::A, position, color, inactive_color);
        self.draw_lit_or_dimmed(frame, segments, Segments::F, position, color, inactive_color);
        self.draw_lit_or_dimmed(frame, segments, Segments::B, position, color, inactive_color);
        self.draw_lit_or_dimmed(frame, segments, Segments::G, position, color, inactive_color);
        self.draw_lit_or_dimmed(frame, segments, Segments::E, position, color, inactive_color);
        self.draw_lit_or_dimmed(frame, segments, Segments::C, position, color, inactive_color);
        self.draw_lit_or_dimmed(frame, segments, Segments::D, position, color, inactive_color);
    }

    /// Draw colon to frame buffer
    pub fn draw_colon_to_fbuf<const N: usize>(
        &self,
        frame: &mut Frame<N>,
        position: Point,
        color: Rgb565,
    )
        ensures
            final(frame).same_shape(*old(frame)),
            forall|x: int, y: int|
                old(frame).in_bounds(x, y) ==> #[trigger] final(frame).pixel(x, y)
                    == self.config().colon_layer(position, color, x, y, old(frame).pixel(x, y)),
    {
        reveal(SevenSegmentConfig::colon_layer);
        let thickness = self.config.segment_width;
        let third: u32 = self.config.digit_size.height / 3;

        // Top dot
        let upper = Rectangle::new(
            position.offset(0, third.saturating_sub(thickness / 2)),
            Size::new(thickness, thickness),
        );
        frame.fill_rect(upper, color);

        // Bottom dot
        let lower = Rectangle::new(
            position.offset(0, (third * 2).saturating_sub(thickness / 2)),
            Size::new(thickness, thickness),
        );
        frame.fill_rect(lower, color);
    }

    /// Calculate total width of time display
    pub fn time_display_width(config: &SevenSegmentConfig) -> (total: u32)
        ensures
            total == config.time_width(),
    {
        // 6 digits + 2 colons + spacing
        let total: u64 = config.digit_size.width as u64 * 6 + config.segment_width as u64 * 2
            + config.digit_spacing as u64 * 7;
        if total > u32::MAX as u64 {
            u32::MAX
        } else {
            total as u32
        }
    }

    /// The position of the glyph that follows a digit at `position`.
    fn after_digit(&self, position: Point) -> (p: Point)
        ensures
            p == self.config().after_digit(position),
    {
        Point::new(
            offset_coord(
                offset_coord(position.x, self.config.digit_size.width),
                self.config.digit_spacing,
            ),
            position.y,
        )
    }

    /// The position of the glyph that follows a colon at `position`.
    fn after_colon(&self, position: Point) -> (p: Point)
        ensures
            p == self.config().after_colon(position),
    {
        Point::new(
            offset_coord(
                offset_coord(position.x, self.config.segment_width),
                self.config.digit_spacing,
            ),
            position.y,
        )
    }

    /// Whether `frame` shows the time and nothing else: every pixel has the
    /// colour that clearing the frame and drawing the eight glyphs gives it.
    pub open spec fn shows_time<const N: usize>(
        &self,
        frame: Frame<N>,
        hours: u8,
        minutes: u8,
        seconds: u8,
        color: Rgb565,
        inactive_color: Option<Rgb565>,
    ) -> bool {
        forall|x: int, y: int|
            frame.in_bounds(x, y) ==> #[trigger] frame.pixel(x, y) == self.config().time_layer(
                frame.width(),
                frame.height(),
                hours,
                minutes,
                seconds,
                color,
                inactive_color,
                x,
                y,
                frame.background(),
            )
    }

    /// Two frames of one shape that show the same time in the same colours
    /// hold the same pixels, whatever each of them held before it was
    /// drawn: nothing of an earlier picture is left, and drawing the same
    /// time again changes nothing.
    pub proof fn lemma_time_fixes_every_pixel<const N: usize>(
        &self,
        first: Frame<N>,
        second: Frame<N>,
        hours: u8,
        minutes: u8,
        seconds: u8,
        color: Rgb565,
        inactive_color: Option<Rgb565>,
    )
        requires
            first.wf(),
            second.wf(),
            first.same_shape(second),
            self.shows_time(first, hours, minutes, seconds, color, inactive_color),
            self.shows_time(second, hours, minutes, seconds, color, inactive_color),
        ensures
            first@ == second@,
    {
        first.lemma_same_pixels(second);
    }

    /// Draw time to frame buffer (format: HH:MM:SS) and say where on the
    /// display the frame belongs.
    ///
    /// The frame is cleared first, so nothing of what it showed before is
    /// left. The strip of glyphs is centred in the frame. The result is the
    /// area of the display, whose bounding box is `display`, that the
    /// frame's pixels are to be written to in one transfer: the frame
    /// centred on the display.
    ///
    /// inactive_color: color for inactive segments (dim effect), None to hide completely
    pub fn draw_time<const N: usize>(
        &self,
        display: Rectangle,
        frame: &mut Frame<N>,
        hours: u8,
        minutes: u8,
        seconds: u8,
        color: Rgb565,
        inactive_color: Option<Rgb565>,
    ) -> (area: Rectangle)
        ensures
            final(frame).same_shape(*old(frame)),
            self.shows_time(*final(frame), hours, minutes, seconds, color, inactive_color),
            area == transfer_area(display, old(frame).width(), old(frame).height()),
    {
        // Clear frame buffer
        frame.clear();

        // Calculate starting position (centered)
        let columns = frame.width();
        let rows = frame.height();
        let total_width = Self::time_display_width(&self.config);
        proof {
            use_type_invariant(&*frame);
            frame.lemma_layout();
        }
        let start_x = (columns.saturating_sub(total_width) / 2) as i32;
        let start_y = (rows.saturating_sub(self.config.digit_size.height) / 2) as i32;

        let mut position = Point::new(start_x, start_y);

        // Draw hours tens
        self.draw_digit_to_fbuf(frame, hours / 10, position, color, inactive_color);
        position = self.after_digit(position);

        // Draw hours units
        self.draw_digit_to_fbuf(frame, hours % 10, position, color, inactive_color);
        position = self.after_digit(position);

        // Draw first colon
        self.draw_colon_to_fbuf(frame, position, color);
        position = self.after_colon(position);

        // Draw minutes tens
        self.draw_digit_to_fbuf(frame, minutes / 10, position, color, inactive_color);
        position = self.after_digit(position);

        // Draw minutes units
        self.draw_digit_to_fbuf(frame, minutes % 10, position, color, inactive_color);
        position = self.after_digit(position);

        // Draw second colon
        self.draw_colon_to_fbuf(frame, position, color);
        position = self.after_colon(position);

        // Draw seconds tens
        self.draw_digit_to_fbuf(frame, seconds / 10, position, color, inactive_color);
        position = self.after_digit(position);

        // Draw seconds units
        self.draw_digit_to_fbuf(frame, seconds % 10, position, color, inactive_color);

        // Calculate display position (centered)
        frame_placement(display, columns, rows)
    }
}

/// Where a frame of `columns` x `rows` pixels goes on a display whose
/// bounding box is `display`, so that it sits in the middle.
pub fn frame_placement(display: Rectangle, columns: u32, rows: u32) -> (area: Rectangle)
    ensures
        area == transfer_area(display, columns, rows),
{
    let center_x = offset_coord(display.top_left.x, display.size.width.saturating_sub(1) / 2);
    let center_y = offset_coord(display.top_left.y, display.size.height.saturating_sub(1) / 2);
    let x: i64 = center_x as i64 - (columns / 2) as i64;
    let y: i64 = center_y as i64 - (rows / 2) as i64;
    Rectangle::new(
        Point::new(
            if x < i32::MIN as i64 {
                i32::MIN
            } else {
                x as i32
            },
            if y < i32::MIN as i64 {
                i32::MIN
            } else {
                y as i32
            },
        ),
        Size::new(columns, rows),
    )
}

} // verus!
