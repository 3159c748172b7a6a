//! Placing shaped text in its box, and the colour of a text pixel.
use vstd::prelude::*;
use crate::layout::Align;
use crate::paint::{Color, GradientDirection, Paint};

verus! {

/// The leftmost and rightmost pixel columns that glyphs of a text touch.
#[derive(Clone, Copy, Debug, PartialEq, Eq, Structural)]
pub struct TextPixelBounds {
    pub min_x: i32,
    pub max_x: i32,
}

/// `value` clamped to `i32`.
pub open spec fn spec_clamp_i32(value: int) -> int {
    if value < i32::MIN { i32::MIN as int } else if value > i32::MAX { i32::MAX as int } else { value }
}

/// `value` (which fits in `i64`) clamped to `i32`.
fn clamp_to_i32(value: i64) -> (r: i32)
    ensures
        r == spec_clamp_i32(value as int),
{
    if value < -2147483648i64 {
        -2147483648i32
    } else if value > 2147483647i64 {
        2147483647i32
    } else {
        value as i32
    }
}

impl TextPixelBounds {
    /// The bounds of a single column.
    pub fn new(x: i32) -> (r: Self)
        ensures
            r == (TextPixelBounds { min_x: x, max_x: x }),
    {
        TextPixelBounds { min_x: x, max_x: x }
    }

    /// Grows the bounds to take in column `x`.
    pub fn extend_to(&mut self, x: i32)
        ensures
            final(self).min_x == (if x < old(self).min_x { x } else { old(self).min_x }),
            final(self).max_x == (if x > old(self).max_x { x } else { old(self).max_x }),
    {
        if x < self.min_x {
            self.min_x = x;
        }
        if x > self.max_x {
            self.max_x = x;
        }
    }

    pub open spec fn spec_width(self) -> int {
        spec_clamp_i32(spec_clamp_i32(self.max_x - self.min_x) + 1)
    }

    /// The number of columns from the first to the last, saturating.
    pub fn width(self) -> (r: i32)
        ensures
            r == self.spec_width(),
    {
        let span = clamp_to_i32(self.max_x as i64 - self.min_x as i64);
        clamp_to_i32(span as i64 + 1)
    }
}

/// `available` as an `i32`, capped at `i32::MAX`.
pub open spec fn spec_available_i32(available: u32) -> int {
    if available > i32::MAX { i32::MAX as int } else { available as int }
}

fn available_i32(available: u32) -> (r: i32)
    ensures
        r == spec_available_i32(available),
{
    if available > 2147483647u32 {
        2147483647i32
    } else {
        available as i32
    }
}

/// Rust's `/` on integers: rounds toward zero.
pub open spec fn spec_div_toward_zero(a: int, b: int) -> int {
    if a >= 0 { a / b } else { -((-a) / b) }
}

/// The columns left over when the inked columns sit in a box `available`
/// pixels wide (saturating in `i32`).
pub open spec fn spec_free_columns(available: u32, bounds: TextPixelBounds) -> int {
    spec_clamp_i32(spec_available_i32(available) - bounds.spec_width())
}

/// The horizontal shift that aligns the inked columns of a text in a box
/// `available` pixels wide; none when nothing was inked.
pub open spec fn spec_text_horizontal_align_offset(align: Align, available: u32, bounds: Option<TextPixelBounds>) -> int {
    match bounds {
        None => 0,
        Some(b) => match align {
            Align::Start | Align::Stretch => 0,
            Align::Center => spec_div_toward_zero(spec_free_columns(available, b), 2) - b.min_x,
            Align::End => spec_free_columns(available, b) - b.min_x,
        },
    }
}

/// The shift that aligns the text; it must fit in `i32`.
pub fn text_horizontal_align_offset(align: Align, available: u32, bounds: Option<TextPixelBounds>) -> (r: i32)
    requires
        i32::MIN <= spec_text_horizontal_align_offset(align, available, bounds) <= i32::MAX,
    ensures
        r == spec_text_horizontal_align_offset(align, available, bounds),
{
    let b = match bounds {
        Some(b) => b,
        None => return 0,
    };
    let free = clamp_to_i32(available_i32(available) as i64 - b.width() as i64);
    match align {
        Align::Start | Align::Stretch => 0,
        Align::Center => free / 2 - b.min_x,
        Align::End => free - b.min_x,
    }
}

/// The vertical shift that aligns `line_height` pixels of lines in a box
/// `available` pixels high.
pub fn text_line_offset(align: Align, available: u32, line_height: i32) -> (r: i32)
    ensures
        r == match align {
            Align::Start | Align::Stretch => 0,
            Align::Center => spec_div_toward_zero(spec_clamp_i32(spec_available_i32(available) - line_height), 2),
            Align::End => spec_clamp_i32(spec_available_i32(available) - line_height),
        },
{
    let free = clamp_to_i32(available_i32(available) as i64 - line_height as i64);
    match align {
        Align::Start | Align::Stretch => 0,
        Align::Center => free / 2,
        Align::End => free,
    }
}

/// The run whose style a glyph tagged `metadata` has: tag 0 is the text's
/// own style, tag `i + 1` is run `i` when there is one.
pub fn run_index_for_metadata(metadata: usize, run_count: usize) -> (r: Option<usize>)
    ensures
        r == (if 1 <= metadata && metadata - 1 < run_count { Some((metadata - 1) as usize) } else { None::<usize> }),
{
    if metadata >= 1 && metadata - 1 < run_count {
        Some(metadata - 1)
    } else {
        None
    }
}

/// The colour of a text pixel that the rasterizer gave as `rgba`: a glyph
/// in the text's own colour takes the text's paint at that pixel, with the
/// glyph's coverage as alpha; a glyph with a colour of its own (an emoji)
/// keeps it.
pub open spec fn spec_text_pixel_color(
    rgba: [u8; 4],
    paint: &Paint,
    gradient: GradientDirection,
    x: u32,
    y: u32,
    width: u32,
    height: u32,
) -> Color {
    let first = paint.spec_first();
    if rgba[0] != first.red || rgba[1] != first.green || rgba[2] != first.blue {
        Color { red: rgba[0], green: rgba[1], blue: rgba[2], alpha: rgba[3] }
    } else {
        let sampled = paint.spec_at(x, y, width, height, gradient);
        Color {
            red: sampled.red,
            green: sampled.green,
            blue: sampled.blue,
            alpha: (rgba[3] as int * sampled.alpha as int / 255) as u8,
        }
    }
}

pub fn text_pixel_color(
    rgba: [u8; 4],
    paint: &Paint,
    gradient: GradientDirection,
    x: u32,
    y: u32,
    width: u32,
    height: u32,
) -> (r: Color)
    requires
        paint.spec_has_color(),
    ensures
        r == spec_text_pixel_color(rgba, paint, gradient, x, y, width, height),
{
    let first = paint.first();
    if rgba[0] != first.red || rgba[1] != first.green || rgba[2] != first.blue {
        return Color::rgba(rgba[0], rgba[1], rgba[2], rgba[3]);
    }
    let sampled = paint.at(x, y, width, height, gradient);
    proof {
        assert(rgba[3] as int * sampled.alpha as int / 255 <= 255) by (nonlinear_arith)
            requires
                rgba[3] <= 255,
                sampled.alpha <= 255,
        ;
    }
    let alpha = (rgba[3] as u32 * sampled.alpha as u32) / 255;
    Color::rgba(sampled.red, sampled.green, sampled.blue, alpha as u8)
}

} // verus!
