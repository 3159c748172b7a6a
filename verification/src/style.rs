//! Borders: per-edge widths and the paint a border is drawn with.
use vstd::prelude::*;
use crate::num::sat_mul;
use crate::paint::{Color, GradientDirection, Paint};

verus! {

/// The width of each edge of a border.
#[derive(Clone, Copy, Debug, PartialEq, Eq, Structural)]
pub struct BorderWidth {
    pub top: u32,
    pub right: u32,
    pub bottom: u32,
    pub left: u32,
}

impl Default for BorderWidth {
    fn default() -> (r: Self)
        ensures
            r == BorderWidth::spec_all(0),
    {
        BorderWidth::all(0)
    }
}

impl BorderWidth {
    pub open spec fn spec_all(width: u32) -> Self {
        BorderWidth { top: width, right: width, bottom: width, left: width }
    }

    pub open spec fn spec_is_zero(self) -> bool {
        self.top == 0 && self.right == 0 && self.bottom == 0 && self.left == 0
    }

    pub open spec fn spec_scaled(self, scale: u32) -> Self {
        BorderWidth {
            top: sat_mul(self.top as int, scale as int) as u32,
            right: sat_mul(self.right as int, scale as int) as u32,
            bottom: sat_mul(self.bottom as int, scale as int) as u32,
            left: sat_mul(self.left as int, scale as int) as u32,
        }
    }

    /// No width on any edge.
    pub fn zero() -> (r: Self)
        ensures
            r == BorderWidth::spec_all(0),
    {
        BorderWidth::all(0)
    }

    /// The same as `zero`.
    pub fn new() -> (r: Self)
        ensures
            r == BorderWidth::spec_all(0),
    {
        BorderWidth::zero()
    }

    pub fn all(width: u32) -> (r: Self)
        ensures
            r == BorderWidth::spec_all(width),
    {
        BorderWidth { top: width, right: width, bottom: width, left: width }
    }

    pub fn top(self, width: u32) -> (r: Self)
        ensures
            r == (BorderWidth { top: width, ..self }),
    {
        BorderWidth { top: width, ..self }
    }

    pub fn right(self, width: u32) -> (r: Self)
        ensures
            r == (BorderWidth { right: width, ..self }),
    {
        BorderWidth { right: width, ..self }
    }

    pub fn bottom(self, width: u32) -> (r: Self)
        ensures
            r == (BorderWidth { bottom: width, ..self }),
    {
        BorderWidth { bottom: width, ..self }
    }

    pub fn left(self, width: u32) -> (r: Self)
        ensures
            r == (BorderWidth { left: width, ..self }),
    {
        BorderWidth { left: width, ..self }
    }

    pub fn is_zero(self) -> (r: bool)
        ensures
            r == self.spec_is_zero(),
    {
        self.top == 0 && self.right == 0 && self.bottom == 0 && self.left == 0
    }

    /// Each edge multiplied by `scale`, saturating at `u32::MAX`.
    pub fn scaled(self, scale: u32) -> (r: Self)
        ensures
            r == self.spec_scaled(scale),
    {
        BorderWidth {
            top: crate::num::sat_mul_u32(self.top, scale),
            right: crate::num::sat_mul_u32(self.right, scale),
            bottom: crate::num::sat_mul_u32(self.bottom, scale),
            left: crate::num::sat_mul_u32(self.left, scale),
        }
    }
}

/// A border: a uniform width, optional per-edge widths, and its paint.
#[derive(Clone, Debug, PartialEq, Eq)]
pub struct Border {
    pub width: u32,
    pub widths: BorderWidth,
    pub color: Paint,
    pub gradient: GradientDirection,
}

impl Default for Border {
    fn default() -> (r: Self)
        ensures
            r.width == 1,
            r.widths == BorderWidth::spec_all(0),
            r.color == Paint::Solid(Color { red: 255, green: 255, blue: 255, alpha: 255 }),
            r.gradient == GradientDirection::Horizontal,
    {
        Border {
            width: 1,
            widths: BorderWidth::zero(),
            color: Paint::solid(Color::white()),
            gradient: GradientDirection::default(),
        }
    }
}

impl Border {
    /// A white border one pixel wide.
    pub fn new() -> (r: Self)
        ensures
            r.width == 1,
            r.widths == BorderWidth::spec_all(0),
            r.color == Paint::Solid(Color { red: 255, green: 255, blue: 255, alpha: 255 }),
            r.gradient == GradientDirection::Horizontal,
    {
        Border::default()
    }

    pub fn width(self, width: u32) -> (r: Self)
        ensures
            r == (Border { width, ..self }),
    {
        Border { width, ..self }
    }

    pub fn widths(self, widths: BorderWidth) -> (r: Self)
        ensures
            r == (Border { widths, ..self }),
    {
        Border { widths, ..self }
    }

    pub fn color(self, color: Paint) -> (r: Self)
        ensures
            r == (Border { color, ..self }),
    {
        Border { color, ..self }
    }

    pub fn gradient(self, gradient: GradientDirection) -> (r: Self)
        ensures
            r == (Border { gradient, ..self }),
    {
        Border { gradient, ..self }
    }

}

/// The width of each edge of a border: its per-edge widths where any is
/// set, else its uniform width on all four.
pub fn border_widths(border: &Border) -> (r: BorderWidth)
    ensures
        r == (if border.widths.spec_is_zero() { BorderWidth::spec_all(border.width) } else { border.widths }),
{
    if border.widths.is_zero() {
        BorderWidth::all(border.width)
    } else {
        border.widths
    }
}

} // verus!
