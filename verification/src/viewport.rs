//! Painting through a viewport: the world region a canvas shows when it is
//! offset, and where a world pixel lands on the canvas.
use vstd::prelude::*;
use crate::canvas::Canvas;
use crate::geometry::Bounds;
use crate::num::{max_int, min_int};

verus! {

/// Where the canvas's top left corner sits in world coordinates.
#[derive(Clone, Copy, Debug, PartialEq, Eq, Structural)]
pub struct PaintOffset {
    pub x: i32,
    pub y: i32,
}

impl Default for PaintOffset {
    fn default() -> (r: Self)
        ensures
            r == (PaintOffset { x: 0, y: 0 }),
    {
        PaintOffset { x: 0, y: 0 }
    }
}

/// `value * scale`, clamped to `i32`.
pub open spec fn spec_scale_i32(value: i32, scale: u32) -> i32 {
    let v = value as int * scale as int;
    (if v < i32::MIN { i32::MIN as int } else if v > i32::MAX { i32::MAX as int } else { v }) as i32
}

pub fn scale_i32(value: i32, scale: u32) -> (r: i32)
    ensures
        r == spec_scale_i32(value, scale),
{
    proof {
        assert(-2147483648 * 4294967295 <= value as int * scale as int <= 2147483647 * 4294967295)
            by (nonlinear_arith)
            requires
                -2147483648 <= value <= 2147483647,
                0 <= scale <= 4294967295,
        ;
    }
    let scaled: i64 = (value as i64) * (scale as i64);
    if scaled < -2147483648i64 {
        -2147483648i32
    } else if scaled > 2147483647i64 {
        2147483647i32
    } else {
        scaled as i32
    }
}

/// The world region a `width` by `height` canvas offset by `offset` shows,
/// cut to `u32`; `None` when nothing of it is in `u32` space.
pub open spec fn spec_visible_world_bounds(width: u32, height: u32, offset: PaintOffset) -> Option<Bounds> {
    let left = max_int(offset.x as int, 0);
    let top = max_int(offset.y as int, 0);
    let right = offset.x as int + width as int;
    let bottom = offset.y as int + height as int;
    if right <= left || bottom <= top {
        None
    } else {
        Some(
            Bounds {
                x: min_int(left, u32::MAX as int) as u32,
                y: min_int(top, u32::MAX as int) as u32,
                width: max_int(min_int(right, u32::MAX as int) - left, 0) as u32,
                height: max_int(min_int(bottom, u32::MAX as int) - top, 0) as u32,
            },
        )
    }
}

pub fn visible_world_bounds(canvas: &Canvas, offset: PaintOffset) -> (r: Option<Bounds>)
    ensures
        r == spec_visible_world_bounds(canvas.spec_width(), canvas.spec_height(), offset),
{
    let left: i64 = if offset.x < 0 { 0 } else { offset.x as i64 };
    let top: i64 = if offset.y < 0 { 0 } else { offset.y as i64 };
    let right: i64 = offset.x as i64 + canvas.width() as i64;
    let bottom: i64 = offset.y as i64 + canvas.height() as i64;
    if right <= left || bottom <= top {
        return None;
    }
    let max: i64 = 4294967295;
    let right_cut: i64 = if right > max { max } else { right };
    let bottom_cut: i64 = if bottom > max { max } else { bottom };
    let width: i64 = if right_cut - left > 0 { right_cut - left } else { 0 };
    let height: i64 = if bottom_cut - top > 0 { bottom_cut - top } else { 0 };
    Some(
        Bounds {
            x: if left > max { 4294967295u32 } else { left as u32 },
            y: if top > max { 4294967295u32 } else { top as u32 },
            width: width as u32,
            height: height as u32,
        },
    )
}

/// The part of `bounds` that the canvas shows.
pub fn visible_draw_bounds(canvas: &Canvas, bounds: Bounds, offset: PaintOffset) -> (r: Option<Bounds>)
    ensures
        r == match spec_visible_world_bounds(canvas.spec_width(), canvas.spec_height(), offset) {
            Some(v) => bounds.spec_intersect(v),
            None => None,
        },
{
    match visible_world_bounds(canvas, offset) {
        Some(visible) => bounds.intersect(visible),
        None => None,
    }
}

/// Where world coordinate `world` lands on a canvas axis of `max` pixels
/// offset by `offset`, if it lands on it.
pub open spec fn spec_target_coord(world: u32, offset: i32, max: u32) -> Option<u32> {
    let target = world as int - offset as int;
    if 0 <= target < max {
        Some(target as u32)
    } else {
        None
    }
}

pub fn target_coord(world: u32, offset: i32, max: u32) -> (r: Option<u32>)
    ensures
        r == spec_target_coord(world, offset, max),
{
    let target: i64 = world as i64 - offset as i64;
    if target >= 0 && target < max as i64 {
        Some(target as u32)
    } else {
        None
    }
}

/// A world pixel lands on the canvas exactly when it lies in the visible
/// world region (the last coordinate of `u32`, which no region reaches, aside).
pub proof fn lemma_visible_exactly_where_drawn(width: u32, height: u32, offset: PaintOffset, x: u32, y: u32)
    requires
        x < u32::MAX,
        y < u32::MAX,
    ensures
        (spec_target_coord(x, offset.x, width) is Some && spec_target_coord(y, offset.y, height) is Some) <==> (
        spec_visible_world_bounds(width, height, offset) matches Some(v) && v.spec_contains_point(
            x as int,
            y as int,
        )),
{
}

} // verus!
