//! Layout vocabulary: directions, alignment, lengths, spacing and sizes.
use vstd::prelude::*;

verus! {

#[derive(Clone, Copy, Debug, PartialEq, Eq, Structural)]
pub enum Direction {
    Row,
    Column,
}

impl Default for Direction {
    fn default() -> (r: Self)
        ensures
            r == Direction::Row,
    {
        Direction::Row
    }
}

#[derive(Clone, Copy, Debug, PartialEq, Eq, Structural)]
pub enum Align {
    Start,
    Center,
    End,
    Stretch,
}

impl Default for Align {
    fn default() -> (r: Self)
        ensures
            r == Align::Start,
    {
        Align::Start
    }
}

#[derive(Clone, Copy, Debug, PartialEq, Eq, Structural)]
pub enum Overflow {
    Clip,
    Visible,
}

impl Default for Overflow {
    fn default() -> (r: Self)
        ensures
            r == Overflow::Clip,
    {
        Overflow::Clip
    }
}

#[derive(Clone, Copy, Debug, PartialEq, Eq, Structural)]
pub enum Position {
    Flow,
    Absolute,
}

impl Default for Position {
    fn default() -> (r: Self)
        ensures
            r == Position::Flow,
    {
        Position::Flow
    }
}

/// Space around the four edges of a box.
#[derive(Clone, Copy, Debug, PartialEq, Eq, Structural)]
pub struct Spacing {
    pub top: u32,
    pub right: u32,
    pub bottom: u32,
    pub left: u32,
}


impl Spacing {
    pub open spec fn spec_zero() -> Self {
        Spacing { top: 0, right: 0, bottom: 0, left: 0 }
    }

    /// No spacing on any side.
    pub fn zero() -> (r: Self)
        ensures
            r == Self::spec_zero(),
    {
        Spacing { top: 0, right: 0, bottom: 0, left: 0 }
    }

    pub fn all(value: u32) -> (r: Self)
        ensures
            r == (Spacing { top: value, right: value, bottom: value, left: value }),
    {
        Spacing { top: value, right: value, bottom: value, left: value }
    }

    pub fn axis(horizontal: u32, vertical: u32) -> (r: Self)
        ensures
            r == (Spacing { top: vertical, right: horizontal, bottom: vertical, left: horizontal }),
    {
        Spacing { top: vertical, right: horizontal, bottom: vertical, left: horizontal }
    }
}

impl Default for Spacing {
    fn default() -> (r: Self)
        ensures
            r == Self::spec_zero(),
    {
        Self::zero()
    }
}

/// Optional offsets of an absolutely positioned box from the edges of its parent.
#[derive(Clone, Copy, Debug, PartialEq, Eq, Structural)]
pub struct Inset {
    pub top: Option<u32>,
    pub right: Option<u32>,
    pub bottom: Option<u32>,
    pub left: Option<u32>,
}


impl Inset {
    pub open spec fn spec_zero() -> Self {
        Inset { top: None, right: None, bottom: None, left: None }
    }

    /// No offset from any edge.
    pub fn zero() -> (r: Self)
        ensures
            r == Self::spec_zero(),
    {
        Inset { top: None, right: None, bottom: None, left: None }
    }

    pub fn all(value: u32) -> (r: Self)
        ensures
            r == (Inset {
                top: Some(value),
                right: Some(value),
                bottom: Some(value),
                left: Some(value),
            }),
    {
        Inset { top: Some(value), right: Some(value), bottom: Some(value), left: Some(value) }
    }

    pub fn axis(horizontal: u32, vertical: u32) -> (r: Self)
        ensures
            r == (Inset {
                top: Some(vertical),
                right: Some(horizontal),
                bottom: Some(vertical),
                left: Some(horizontal),
            }),
    {
        Inset {
            top: Some(vertical),
            right: Some(horizontal),
            bottom: Some(vertical),
            left: Some(horizontal),
        }
    }
}

impl Default for Inset {
    fn default() -> (r: Self)
        ensures
            r == Self::spec_zero(),
    {
        Self::zero()
    }
}

/// A width and a height.
#[derive(Clone, Copy, Debug, PartialEq, Eq, Structural)]
pub struct Size {
    pub width: u32,
    pub height: u32,
}

impl Size {
    pub fn new(width: u32, height: u32) -> (r: Self)
        ensures
            r == (Size { width, height }),
    {
        Size { width, height }
    }

    pub open spec fn spec_axis(self, direction: Direction) -> u32 {
        match direction {
            Direction::Row => self.width,
            Direction::Column => self.height,
        }
    }

    pub open spec fn spec_cross(self, direction: Direction) -> u32 {
        match direction {
            Direction::Row => self.height,
            Direction::Column => self.width,
        }
    }

    /// The extent of this size along `direction`.
    pub fn axis(self, direction: Direction) -> (r: u32)
        ensures
            r == self.spec_axis(direction),
    {
        match direction {
            Direction::Row => self.width,
            Direction::Column => self.height,
        }
    }

    /// The extent of this size across `direction`.
    pub fn cross(self, direction: Direction) -> (r: u32)
        ensures
            r == self.spec_cross(direction),
    {
        match direction {
            Direction::Row => self.height,
            Direction::Column => self.width,
        }
    }
}

impl Default for Size {
    fn default() -> (r: Self)
        ensures
            r == (Size { width: 0, height: 0 }),
    {
        Size { width: 0, height: 0 }
    }
}

/// The size that a subtree asks for.
#[derive(Clone, Copy, Debug, PartialEq, Eq, Structural)]
pub struct MeasuredSize {
    pub width: u32,
    pub height: u32,
}

impl MeasuredSize {
    pub fn from_size(size: Size) -> (r: Self)
        ensures
            r.width == size.width,
            r.height == size.height,
    {
        MeasuredSize { width: size.width, height: size.height }
    }
}

impl Default for MeasuredSize {
    fn default() -> (r: Self)
        ensures
            r == (MeasuredSize { width: 0, height: 0 }),
    {
        MeasuredSize { width: 0, height: 0 }
    }
}

} // verus!

verus! {

use crate::geometry::Bounds;
use crate::num::{max_int, min_int, sat_add, sat_mul, sat_sub, max_u32, min_u32, sat_add_u32, sat_sub_u32, sat_mul_u32};

/// How long a box is along one axis.
#[derive(Clone, Copy, Debug, PartialEq, Eq, Structural)]
pub enum Length {
    /// As long as its content.
    Fit,
    /// All the space there is (shared by weight among siblings that fill).
    Fill,
    /// A fixed number of pixels.
    Px(u32),
    /// A share of the available space, in hundredths of a percent
    /// (`10000` is the whole space).
    Percent(u32),
}

impl Default for Length {
    fn default() -> (r: Self)
        ensures
            r == Length::Fit,
    {
        Length::Fit
    }
}

impl Length {
    pub fn px(value: u32) -> (r: Self)
        ensures
            r == Length::Px(value),
    {
        Length::Px(value)
    }

    /// A share of the available space in hundredths of a percent.
    pub fn percent(hundredths: u32) -> (r: Self)
        ensures
            r == Length::Percent(hundredths),
    {
        Length::Percent(hundredths)
    }
}

/// `size` held between `min` and `max` (a `max` below `min` counts as `min`).
pub open spec fn spec_constrain_dimension(size: int, min: int, max: Option<u32>) -> int {
    let max = max_int(
        match max {
            Some(m) => m as int,
            None => u32::MAX as int,
        },
        min,
    );
    min_int(max_int(size, min), max)
}

pub fn constrain_dimension(size: u32, min: u32, max: Option<u32>) -> (r: u32)
    ensures
        r == spec_constrain_dimension(size as int, min as int, max),
{
    let max = max_u32(
        match max {
            Some(m) => m,
            None => u32::MAX,
        },
        min,
    );
    min_u32(max_u32(size, min), max)
}

/// A constrained dimension is at least `min`, and at most `max` when `max`
/// is not below `min`.
pub proof fn lemma_constrain_dimension_bounds(size: int, min: int, max: Option<u32>)
    ensures
        spec_constrain_dimension(size, min, max) >= min,
        (max matches Some(m) && m >= min) ==> spec_constrain_dimension(size, min, max) <= max.unwrap(),
        max is None ==> spec_constrain_dimension(size, min, max) <= max_int(u32::MAX as int, min),
        (min <= size && (max matches Some(m) ==> size <= m) && size <= u32::MAX) ==> spec_constrain_dimension(size, min, max) == size,
{
}

/// `hundredths` of a percent of `available`, rounded to nearest; shares
/// above the whole count as the whole.
pub open spec fn spec_percent_of(available: int, hundredths: int) -> int {
    (available * min_int(hundredths, 10000) + 5000) / 10000
}

/// The length in pixels of `length` given the `available` space and the
/// size its content asks for (`fit`), held between `min` and `max`.
pub open spec fn spec_resolve_length(length: Length, available: int, fit: int, min: int, max: Option<u32>) -> int {
    let resolved = match length {
        Length::Fit => fit,
        Length::Fill => available,
        Length::Px(value) => min_int(value as int, available),
        Length::Percent(hundredths) => min_int(spec_percent_of(available, hundredths as int), available),
    };
    spec_constrain_dimension(resolved, min, max)
}

pub fn resolve_length(length: Length, available: u32, fit: u32, min: u32, max: Option<u32>) -> (r: u32)
    ensures
        r == spec_resolve_length(length, available as int, fit as int, min as int, max),
{
    let resolved = match length {
        Length::Fit => fit,
        Length::Fill => available,
        Length::Px(value) => min_u32(value, available),
        Length::Percent(hundredths) => {
            let share = min_u32(hundredths, 10000);
            proof {
                assert(available as int * share as int <= available as int * 10000) by (nonlinear_arith)
                    requires
                        share <= 10000,
                ;
                assert((available as int * share as int + 5000) / 10000 <= available as int + 1) by (nonlinear_arith)
                    requires
                        share <= 10000,
                ;
            }
            let scaled = ((available as u64 * share as u64 + 5000) / 10000) as u64;
            if scaled < available as u64 {
                scaled as u32
            } else {
                available
            }
        },
    };
    constrain_dimension(resolved, min, max)
}

/// The offset that places `size` inside `available` by `align`.
pub open spec fn spec_align_offset(align: Align, available: int, size: int) -> int {
    match align {
        Align::Start | Align::Stretch => 0,
        Align::Center => sat_sub(available, size) / 2,
        Align::End => sat_sub(available, size),
    }
}

pub fn align_offset(align: Align, available: u32, size: u32) -> (r: u32)
    ensures
        r == spec_align_offset(align, available as int, size as int),
{
    match align {
        Align::Start | Align::Stretch => 0,
        Align::Center => available.saturating_sub(size) / 2,
        Align::End => available.saturating_sub(size),
    }
}

/// The layout properties of one box of the tree.
#[derive(Clone, Copy, Debug, PartialEq, Eq, Structural)]
pub struct LayoutNode {
    pub width: Length,
    pub height: Length,
    pub min_width: u32,
    pub min_height: u32,
    pub max_width: Option<u32>,
    pub max_height: Option<u32>,
    /// The weight with which the box shares the free space when it fills.
    pub fill: u32,
    pub direction: Direction,
    /// Placement of children across the flow direction.
    pub align: Align,
    /// Placement of children along the flow direction.
    pub justify: Align,
    pub position: Position,
    pub inset: Inset,
    pub padding: Spacing,
    pub gap: u32,
}

impl LayoutNode {
    pub open spec fn spec_default() -> Self {
        LayoutNode {
            width: Length::Fit,
            height: Length::Fit,
            min_width: 0,
            min_height: 0,
            max_width: None,
            max_height: None,
            fill: 1,
            direction: Direction::Row,
            align: Align::Start,
            justify: Align::Start,
            position: Position::Flow,
            inset: Inset::spec_zero(),
            padding: Spacing::spec_zero(),
            gap: 0,
        }
    }

    /// A box that fits its content, in the flow, with a fill weight of one.
    pub fn new() -> (r: Self)
        ensures
            r == Self::spec_default(),
    {
        LayoutNode {
            width: Length::Fit,
            height: Length::Fit,
            min_width: 0,
            min_height: 0,
            max_width: None,
            max_height: None,
            fill: 1,
            direction: Direction::Row,
            align: Align::Start,
            justify: Align::Start,
            position: Position::Flow,
            inset: Inset::zero(),
            padding: Spacing::zero(),
            gap: 0,
        }
    }

    pub open spec fn spec_axis_length(self, direction: Direction) -> Length {
        match direction {
            Direction::Row => self.width,
            Direction::Column => self.height,
        }
    }

    pub open spec fn spec_cross_length(self, direction: Direction) -> Length {
        match direction {
            Direction::Row => self.height,
            Direction::Column => self.width,
        }
    }

    pub open spec fn spec_axis_limits(self, direction: Direction) -> (u32, Option<u32>) {
        match direction {
            Direction::Row => (self.min_width, self.max_width),
            Direction::Column => (self.min_height, self.max_height),
        }
    }

    pub open spec fn spec_cross_limits(self, direction: Direction) -> (u32, Option<u32>) {
        match direction {
            Direction::Row => (self.min_height, self.max_height),
            Direction::Column => (self.min_width, self.max_width),
        }
    }

    pub open spec fn spec_resolve_axis(self, direction: Direction, available: int, fit: int) -> int {
        let (min, max) = self.spec_axis_limits(direction);
        spec_resolve_length(self.spec_axis_length(direction), available, fit, min as int, max)
    }

    pub open spec fn spec_resolve_cross(self, direction: Direction, available: int, fit: int) -> int {
        let (min, max) = self.spec_cross_limits(direction);
        spec_resolve_length(self.spec_cross_length(direction), available, fit, min as int, max)
    }

    pub open spec fn spec_constrain_axis(self, size: int, direction: Direction) -> int {
        let (min, max) = self.spec_axis_limits(direction);
        spec_constrain_dimension(size, min as int, max)
    }

    pub open spec fn spec_constrain_cross(self, size: int, direction: Direction) -> int {
        let (min, max) = self.spec_cross_limits(direction);
        spec_constrain_dimension(size, min as int, max)
    }

    pub open spec fn spec_is_flow(self) -> bool {
        self.position == Position::Flow
    }

    pub fn axis_length(&self, direction: Direction) -> (r: Length)
        ensures
            r == self.spec_axis_length(direction),
    {
        match direction {
            Direction::Row => self.width,
            Direction::Column => self.height,
        }
    }

    pub fn cross_length(&self, direction: Direction) -> (r: Length)
        ensures
            r == self.spec_cross_length(direction),
    {
        match direction {
            Direction::Row => self.height,
            Direction::Column => self.width,
        }
    }

    pub fn resolve_axis_length(&self, direction: Direction, available: u32, fit: u32) -> (r: u32)
        ensures
            r == self.spec_resolve_axis(direction, available as int, fit as int),
    {
        let (min, max) = match direction {
            Direction::Row => (self.min_width, self.max_width),
            Direction::Column => (self.min_height, self.max_height),
        };
        resolve_length(self.axis_length(direction), available, fit, min, max)
    }

    pub fn resolve_cross_length(&self, direction: Direction, available: u32, fit: u32) -> (r: u32)
        ensures
            r == self.spec_resolve_cross(direction, available as int, fit as int),
    {
        let (min, max) = match direction {
            Direction::Row => (self.min_height, self.max_height),
            Direction::Column => (self.min_width, self.max_width),
        };
        resolve_length(self.cross_length(direction), available, fit, min, max)
    }

    pub fn constrain_axis(&self, size: u32, direction: Direction) -> (r: u32)
        ensures
            r == self.spec_constrain_axis(size as int, direction),
    {
        let (min, max) = match direction {
            Direction::Row => (self.min_width, self.max_width),
            Direction::Column => (self.min_height, self.max_height),
        };
        constrain_dimension(size, min, max)
    }

    pub fn constrain_cross(&self, size: u32, direction: Direction) -> (r: u32)
        ensures
            r == self.spec_constrain_cross(size as int, direction),
    {
        let (min, max) = match direction {
            Direction::Row => (self.min_height, self.max_height),
            Direction::Column => (self.min_width, self.max_width),
        };
        constrain_dimension(size, min, max)
    }

    /// Whether the box must be measured: a side that fits its content.
    pub fn needs_measure(&self) -> (r: bool)
        ensures
            r == (self.width == Length::Fit || self.height == Length::Fit),
    {
        match (self.width, self.height) {
            (Length::Fit, _) | (_, Length::Fit) => true,
            _ => false,
        }
    }

    pub open spec fn spec_own_rect(self, bounds: Bounds, measured: Size) -> Bounds {
        Bounds {
            x: bounds.x,
            y: bounds.y,
            width: spec_resolve_length(self.width, bounds.width as int, measured.width as int, self.min_width as int, self.max_width) as u32,
            height: spec_resolve_length(self.height, bounds.height as int, measured.height as int, self.min_height as int, self.max_height) as u32,
        }
    }

    /// The rectangle the box takes at the corner of `bounds`, given the size
    /// its content asks for.
    pub fn own_rect(&self, bounds: Bounds, measured: Size) -> (r: Bounds)
        ensures
            r == self.spec_own_rect(bounds, measured),
    {
        Bounds {
            x: bounds.x,
            y: bounds.y,
            width: resolve_length(self.width, bounds.width, measured.width, self.min_width, self.max_width),
            height: resolve_length(self.height, bounds.height, measured.height, self.min_height, self.max_height),
        }
    }
}

} // verus!
