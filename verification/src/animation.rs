//! The integer side of animations: durations, completion, slide offsets and
//! the endpoints of a bounds transition.
use vstd::prelude::*;
use crate::geometry::Bounds;

verus! {

/// How progress through an animation is shaped.
#[derive(Clone, Copy, Debug, PartialEq, Eq, Structural)]
pub enum Easing {
    Default,
    Linear,
    EaseIn,
    EaseOut,
    EaseInOut,
}

impl Default for Easing {
    fn default() -> (r: Self)
        ensures
            r == Easing::Default,
    {
        Easing::Default
    }
}

/// A duration in milliseconds and an easing.
#[derive(Clone, Copy, Debug, PartialEq, Eq, Structural)]
pub struct Animation {
    pub duration_ms: u32,
    pub easing: Easing,
}

impl Animation {
    pub fn new(duration_ms: u32, easing: Easing) -> (r: Self)
        ensures
            r == (Animation { duration_ms, easing }),
    {
        Animation { duration_ms, easing }
    }

    /// An animation is complete once the elapsed time reaches its duration.
    pub fn is_complete(self, elapsed_ms: u32) -> (r: bool)
        ensures
            r <==> elapsed_ms >= self.duration_ms,
    {
        elapsed_ms >= self.duration_ms
    }
}

impl Default for Animation {
    fn default() -> (r: Self)
        ensures
            r == (Animation { duration_ms: 160, easing: Easing::Default }),
    {
        Animation::new(160, Easing::Default)
    }
}

/// A translation in surface pixels.
#[derive(Clone, Copy, Debug, PartialEq, Eq, Structural)]
pub struct Offset {
    pub x: i32,
    pub y: i32,
}

impl Offset {
    pub fn zero() -> (r: Self)
        ensures
            r == (Offset { x: 0, y: 0 }),
    {
        Offset { x: 0, y: 0 }
    }

    pub fn new(x: i32, y: i32) -> (r: Self)
        ensures
            r == (Offset { x, y }),
    {
        Offset { x, y }
    }
}

impl Default for Offset {
    fn default() -> (r: Self)
        ensures
            r == (Offset { x: 0, y: 0 }),
    {
        Offset::zero()
    }
}

/// The edge of a box that a slide starts from or ends at.
#[derive(Clone, Copy, Debug, PartialEq, Eq, Structural)]
pub enum Edge {
    Top,
    Bottom,
    Left,
    Right,
}

/// The distance of a slide: the one given, else the box's extent across the
/// edge, capped at `i32::MAX`.
pub open spec fn spec_slide_distance(edge: Edge, bounds: Bounds, distance: Option<u32>) -> int {
    let d: int = match distance {
        Some(d) => d as int,
        None => match edge {
            Edge::Top | Edge::Bottom => bounds.height as int,
            Edge::Left | Edge::Right => bounds.width as int,
        },
    };
    if d > i32::MAX as int { i32::MAX as int } else { d }
}

impl Edge {
    pub open spec fn spec_offset(self, bounds: Bounds, distance: Option<u32>) -> Offset {
        let d = spec_slide_distance(self, bounds, distance);
        match self {
            Edge::Top => Offset { x: 0, y: (-d) as i32 },
            Edge::Bottom => Offset { x: 0, y: d as i32 },
            Edge::Left => Offset { x: (-d) as i32, y: 0 },
            Edge::Right => Offset { x: d as i32, y: 0 },
        }
    }

    /// The offset at which a box sits when it is slid fully past this edge.
    pub fn offset(self, bounds: Bounds, distance: Option<u32>) -> (r: Offset)
        ensures
            r == self.spec_offset(bounds, distance),
    {
        let raw: u32 = match distance {
            Some(d) => d,
            None => match self {
                Edge::Top | Edge::Bottom => bounds.height,
                Edge::Left | Edge::Right => bounds.width,
            },
        };
        let capped: i32 = if raw > 2147483647u32 { 2147483647i32 } else { raw as i32 };
        match self {
            Edge::Top => Offset::new(0, -capped),
            Edge::Bottom => Offset::new(0, capped),
            Edge::Left => Offset::new(-capped, 0),
            Edge::Right => Offset::new(capped, 0),
        }
    }
}

/// An animation of a box from one bounds to another.
#[derive(Clone, Copy, Debug, PartialEq, Eq, Structural)]
pub struct BoundsTransition {
    pub animation: Animation,
    pub from: Bounds,
    pub to: Bounds,
}

impl BoundsTransition {
    pub fn new(animation: Animation, from: Bounds, to: Bounds) -> (r: Self)
        ensures
            r == (BoundsTransition { animation, from, to }),
    {
        BoundsTransition { animation, from, to }
    }
}

/// Sliding past opposite edges gives opposite offsets.
pub proof fn lemma_opposite_edges_give_opposite_offsets(bounds: Bounds, distance: Option<u32>)
    ensures
        Edge::Top.spec_offset(bounds, distance).y == -(Edge::Bottom.spec_offset(bounds, distance).y as int),
        Edge::Left.spec_offset(bounds, distance).x == -(Edge::Right.spec_offset(bounds, distance).x as int),
        Edge::Top.spec_offset(bounds, distance).x == 0,
        Edge::Left.spec_offset(bounds, distance).y == 0,
{
}

} // verus!
