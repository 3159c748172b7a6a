//! Flow layout: measuring a box from its children, and placing children
//! along a row or column, with fill weights, gaps, alignment and
//! absolutely positioned children.
use vstd::prelude::*;
use crate::geometry::Bounds;
use crate::layout::{
    lemma_constrain_dimension_bounds, spec_percent_of, spec_align_offset, spec_constrain_dimension, align_offset, constrain_dimension, resolve_length,
    spec_resolve_length, Align, Direction, Length, LayoutNode, Position, Size,
};
use crate::num::{max_int, min_int, sat_add, sat_mul, sat_sub, max_u32, min_u32, sat_add_u32, sat_sub_u32, sat_mul_u32};

verus! {

/// Where one child was placed: its index among the children, its
/// rectangle, and the size it was measured at.
#[derive(Clone, Copy, Debug, PartialEq, Eq, Structural)]
pub struct Placement {
    pub index: usize,
    pub rect: Bounds,
    pub measured: Size,
}

/// How many of the first `n` children are in the flow.
pub open spec fn spec_flow_count(children: Seq<LayoutNode>, n: int) -> int
    decreases n,
{
    if n <= 0 {
        0
    } else {
        spec_flow_count(children, n - 1) + if children[n - 1].spec_is_flow() {
            1int
        } else {
            0int
        }
    }
}

/// The space taken by the gaps between the flow children.
pub open spec fn spec_gap_total(parent: LayoutNode, children: Seq<LayoutNode>) -> int {
    sat_mul(parent.gap as int, sat_sub(spec_flow_count(children, children.len() as int), 1))
}

pub open spec fn spec_axis_total(parent: LayoutNode, content: Bounds) -> int {
    match parent.direction {
        Direction::Row => content.width as int,
        Direction::Column => content.height as int,
    }
}

pub open spec fn spec_cross_available(parent: LayoutNode, content: Bounds) -> int {
    match parent.direction {
        Direction::Row => content.height as int,
        Direction::Column => content.width as int,
    }
}

/// The space along the axis that the children themselves may take.
pub open spec fn spec_axis_available(parent: LayoutNode, children: Seq<LayoutNode>, content: Bounds) -> int {
    sat_sub(spec_axis_total(parent, content), spec_gap_total(parent, children))
}

/// The fill weight of a child: its weight, at least one.
pub open spec fn spec_weight(child: LayoutNode) -> int {
    max_int(child.fill as int, 1)
}

pub open spec fn spec_fills(parent: LayoutNode, child: LayoutNode) -> bool {
    child.spec_is_flow() && child.spec_axis_length(parent.direction) == Length::Fill
}

/// Over the first `n` children: the space the fixed flow children take
/// (summed, saturating) and the total weight of the filling ones.
pub open spec fn spec_fixed_and_weight(
    parent: LayoutNode,
    children: Seq<LayoutNode>,
    measured: Seq<Size>,
    axis_available: int,
    n: int,
) -> (int, int)
    decreases n,
{
    if n <= 0 {
        (0, 0)
    } else {
        let (fixed, weight) = spec_fixed_and_weight(parent, children, measured, axis_available, n - 1);
        let child = children[n - 1];
        if !child.spec_is_flow() {
            (fixed, weight)
        } else if spec_fills(parent, child) {
            (fixed, sat_add(weight, spec_weight(child)))
        } else {
            (
                sat_add(
                    fixed,
                    child.spec_resolve_axis(parent.direction, axis_available, measured[n - 1].spec_axis(parent.direction) as int),
                ),
                weight,
            )
        }
    }
}

/// The share of the free space that a filling child of `weight` gets when
/// `distributed` of `remaining` has been handed out and `remaining_weight`
/// is the weight still to serve: the rest if it is the last, else its
/// proportion of the rest, rounded down.
pub open spec fn spec_fill_share(remaining: int, distributed: int, weight: int, remaining_weight: int) -> int {
    if remaining_weight <= weight {
        sat_sub(remaining, distributed)
    } else {
        sat_sub(remaining, distributed) * weight / remaining_weight
    }
}

/// The free space handed out, and the weight still to serve, before child `n`.
pub open spec fn spec_fill_state(
    parent: LayoutNode,
    children: Seq<LayoutNode>,
    remaining: int,
    total_weight: int,
    n: int,
) -> (int, int)
    decreases n,
{
    if n <= 0 {
        (0, total_weight)
    } else {
        let (distributed, remaining_weight) = spec_fill_state(parent, children, remaining, total_weight, n - 1);
        let child = children[n - 1];
        if spec_fills(parent, child) {
            let share = spec_fill_share(remaining, distributed, spec_weight(child), remaining_weight);
            (sat_add(distributed, share), sat_sub(remaining_weight, spec_weight(child)))
        } else {
            (distributed, remaining_weight)
        }
    }
}

/// The inputs that the passes over the flow children share.
pub open spec fn spec_free_space(parent: LayoutNode, children: Seq<LayoutNode>, measured: Seq<Size>, content: Bounds) -> (int, int) {
    let axis_available = spec_axis_available(parent, children, content);
    let (fixed, weight) = spec_fixed_and_weight(parent, children, measured, axis_available, children.len() as int);
    (sat_sub(axis_available, fixed), weight)
}

/// The extent along the axis of flow child `i`.
pub open spec fn spec_child_axis(
    parent: LayoutNode,
    children: Seq<LayoutNode>,
    measured: Seq<Size>,
    content: Bounds,
    i: int,
) -> int {
    let child = children[i];
    let (remaining, total_weight) = spec_free_space(parent, children, measured, content);
    if spec_fills(parent, child) {
        let (distributed, remaining_weight) = spec_fill_state(parent, children, remaining, total_weight, i);
        child.spec_constrain_axis(
            spec_fill_share(remaining, distributed, spec_weight(child), remaining_weight),
            parent.direction,
        )
    } else {
        child.spec_resolve_axis(
            parent.direction,
            spec_axis_available(parent, children, content),
            measured[i].spec_axis(parent.direction) as int,
        )
    }
}

/// The space taken along the axis by the gaps and the first `n` children.
pub open spec fn spec_used_axis(
    parent: LayoutNode,
    children: Seq<LayoutNode>,
    measured: Seq<Size>,
    content: Bounds,
    n: int,
) -> int
    decreases n,
{
    if n <= 0 {
        spec_gap_total(parent, children)
    } else {
        let used = spec_used_axis(parent, children, measured, content, n - 1);
        if children[n - 1].spec_is_flow() {
            sat_add(used, spec_child_axis(parent, children, measured, content, n - 1))
        } else {
            used
        }
    }
}

/// Where along the axis child `n` starts: after the justification offset and
/// every earlier flow child that got space, each followed by a gap.
pub open spec fn spec_cursor(
    parent: LayoutNode,
    children: Seq<LayoutNode>,
    measured: Seq<Size>,
    content: Bounds,
    n: int,
) -> int
    decreases n,
{
    if n <= 0 {
        let start = match parent.direction {
            Direction::Row => content.x as int,
            Direction::Column => content.y as int,
        };
        sat_add(
            start,
            spec_align_offset(
                parent.justify,
                spec_axis_total(parent, content),
                spec_used_axis(parent, children, measured, content, children.len() as int),
            ),
        )
    } else {
        let cursor = spec_cursor(parent, children, measured, content, n - 1);
        let axis = spec_child_axis(parent, children, measured, content, n - 1);
        if children[n - 1].spec_is_flow() && axis != 0 {
            sat_add(sat_add(cursor, axis), parent.gap as int)
        } else {
            cursor
        }
    }
}

/// The extent across the axis of flow child `i`.
pub open spec fn spec_child_cross(parent: LayoutNode, child: LayoutNode, cross_available: int, measured: Size) -> int {
    match child.spec_cross_length(parent.direction) {
        Length::Fill => cross_available,
        Length::Fit => if parent.align == Align::Stretch {
            cross_available
        } else {
            child.spec_resolve_cross(parent.direction, cross_available, measured.spec_cross(parent.direction) as int)
        },
        _ => child.spec_resolve_cross(parent.direction, cross_available, measured.spec_cross(parent.direction) as int),
    }
}

/// The rectangle of flow child `i`.
pub open spec fn spec_flow_rect(
    parent: LayoutNode,
    children: Seq<LayoutNode>,
    measured: Seq<Size>,
    content: Bounds,
    i: int,
) -> Bounds {
    let axis = spec_child_axis(parent, children, measured, content, i);
    let cross_available = spec_cross_available(parent, content);
    let cross = spec_child_cross(parent, children[i], cross_available, measured[i]);
    let cross_offset = spec_align_offset(parent.align, cross_available, cross);
    let cursor = spec_cursor(parent, children, measured, content, i);
    match parent.direction {
        Direction::Row => Bounds {
            x: cursor as u32,
            y: sat_add(content.y as int, cross_offset) as u32,
            width: axis as u32,
            height: cross as u32,
        },
        Direction::Column => Bounds {
            x: sat_add(content.x as int, cross_offset) as u32,
            y: cursor as u32,
            width: cross as u32,
            height: axis as u32,
        },
    }
}

/// The placements of the flow children among the first `n`, in order;
/// children that get no space along the axis are left out.
pub open spec fn spec_flow_placements(
    parent: LayoutNode,
    children: Seq<LayoutNode>,
    measured: Seq<Size>,
    content: Bounds,
    n: int,
) -> Seq<Placement>
    decreases n,
{
    if n <= 0 {
        Seq::empty()
    } else {
        let before = spec_flow_placements(parent, children, measured, content, n - 1);
        if children[n - 1].spec_is_flow() && spec_child_axis(parent, children, measured, content, n - 1) != 0 {
            before.push(
                Placement {
                    index: (n - 1) as usize,
                    rect: spec_flow_rect(parent, children, measured, content, n - 1),
                    measured: measured[n - 1],
                },
            )
        } else {
            before
        }
    }
}

/// The space an absolutely positioned child may take inside `content`.
pub open spec fn spec_absolute_available(child: LayoutNode, content: Bounds) -> (int, int) {
    let left = match child.inset.left { Some(v) => v as int, None => 0 };
    let right = match child.inset.right { Some(v) => v as int, None => 0 };
    let top = match child.inset.top { Some(v) => v as int, None => 0 };
    let bottom = match child.inset.bottom { Some(v) => v as int, None => 0 };
    (sat_sub(sat_sub(content.width as int, left), right), sat_sub(sat_sub(content.height as int, top), bottom))
}

/// The rectangle of an absolutely positioned child measured at `measured`:
/// stretched between two set insets when it fills, otherwise resolved as
/// usual, and pinned to the inset that is set (left/top first).
pub open spec fn spec_absolute_rect(child: LayoutNode, content: Bounds, measured: Size) -> Bounds {
    let (available_width, available_height) = spec_absolute_available(child, content);
    let width = if child.inset.left is Some && child.inset.right is Some && child.width == Length::Fill {
        spec_constrain_dimension(available_width, child.min_width as int, child.max_width)
    } else {
        spec_resolve_length(child.width, available_width, measured.width as int, child.min_width as int, child.max_width)
    };
    let height = if child.inset.top is Some && child.inset.bottom is Some && child.height == Length::Fill {
        spec_constrain_dimension(available_height, child.min_height as int, child.max_height)
    } else {
        spec_resolve_length(child.height, available_height, measured.height as int, child.min_height as int, child.max_height)
    };
    let x = match (child.inset.left, child.inset.right) {
        (Some(left), _) => sat_add(content.x as int, left as int),
        (None, Some(right)) => sat_sub(sat_sub(content.spec_right(), right as int), width),
        (None, None) => content.x as int,
    };
    let y = match (child.inset.top, child.inset.bottom) {
        (Some(top), _) => sat_add(content.y as int, top as int),
        (None, Some(bottom)) => sat_sub(sat_sub(content.spec_bottom(), bottom as int), height),
        (None, None) => content.y as int,
    };
    Bounds { x: x as u32, y: y as u32, width: width as u32, height: height as u32 }
}

/// The placements of the absolutely positioned children among the first `n`,
/// in order; children with an empty rectangle are left out.
pub open spec fn spec_absolute_placements(children: Seq<LayoutNode>, measured: Seq<Size>, content: Bounds, n: int) -> Seq<Placement>
    decreases n,
{
    if n <= 0 {
        Seq::empty()
    } else {
        let before = spec_absolute_placements(children, measured, content, n - 1);
        let child = children[n - 1];
        let rect = spec_absolute_rect(child, content, measured[n - 1]);
        if child.position == Position::Absolute && rect.width != 0 && rect.height != 0 {
            before.push(Placement { index: (n - 1) as usize, rect, measured: measured[n - 1] })
        } else {
            before
        }
    }
}

/// The whole layout of the children of `parent` inside `content`: first the
/// flow children, then the absolutely positioned ones.
pub open spec fn spec_layout_children(
    parent: LayoutNode,
    children: Seq<LayoutNode>,
    flow_measured: Seq<Size>,
    absolute_measured: Seq<Size>,
    content: Bounds,
) -> Seq<Placement> {
    spec_flow_placements(parent, children, flow_measured, content, children.len() as int) + spec_absolute_placements(
        children,
        absolute_measured,
        content,
        children.len() as int,
    )
}

proof fn lemma_flow_count_bounds(children: Seq<LayoutNode>, n: int)
    requires
        0 <= n <= children.len(),
    ensures
        0 <= spec_flow_count(children, n) <= n,
    decreases n,
{
    if n > 0 {
        lemma_flow_count_bounds(children, n - 1);
    }
}

fn flow_count(children: &Vec<LayoutNode>) -> (r: u32)
    requires
        children.len() <= u32::MAX,
    ensures
        r == spec_flow_count(children@, children@.len() as int),
{
    let mut count: u32 = 0;
    let mut i: usize = 0;
    while i < children.len()
        invariant
            0 <= i <= children.len(),
            children.len() <= u32::MAX,
            count == spec_flow_count(children@, i as int),
        decreases children.len() - i,
    {
        proof {
            lemma_flow_count_bounds(children@, i as int);
        }
        if children[i].position == Position::Flow {
            count = count + 1;
        }
        i = i + 1;
    }
    count
}

fn gap_total(parent: &LayoutNode, children: &Vec<LayoutNode>) -> (r: u32)
    requires
        children.len() <= u32::MAX,
    ensures
        r == spec_gap_total(*parent, children@),
{
    let count = flow_count(children);
    sat_mul_u32(parent.gap, sat_sub_u32(count, 1))
}

fn fill_share(remaining: u32, distributed: u32, weight: u32, remaining_weight: u32) -> (r: u32)
    requires
        weight >= 1,
    ensures
        r == spec_fill_share(remaining as int, distributed as int, weight as int, remaining_weight as int),
        r <= sat_sub(remaining as int, distributed as int),
{
    let rest = remaining.saturating_sub(distributed);
    if remaining_weight <= weight {
        rest
    } else {
        proof {
            assert(rest as int * weight as int / remaining_weight as int <= rest) by (nonlinear_arith)
                requires
                    weight < remaining_weight,
                    weight >= 1,
                    rest >= 0,
            ;
            assert(rest as int * weight as int <= 0xffff_ffff * 0xffff_ffff) by (nonlinear_arith)
                requires
                    rest <= 0xffff_ffff,
                    weight <= 0xffff_ffff,
            ;
        }
        (rest as u64 * weight as u64 / remaining_weight as u64) as u32
    }
}

/// Places the children of `parent` inside `content`. `flow_measured[i]`
/// is child `i` measured in the whole of `content`; `absolute_measured[i]`
/// is child `i` measured in its `absolute_available` space. Flow children
/// come first, in order, then absolutely positioned ones.
pub fn layout_children(
    parent: &LayoutNode,
    children: &Vec<LayoutNode>,
    flow_measured: &Vec<Size>,
    absolute_measured: &Vec<Size>,
    content: Bounds,
) -> (r: Vec<Placement>)
    requires
        children.len() <= u32::MAX,
        flow_measured.len() == children.len(),
        absolute_measured.len() == children.len(),
    ensures
        r@ == spec_layout_children(*parent, children@, flow_measured@, absolute_measured@, content),
{
    let ghost pc = *parent;
    let ghost cs = children@;
    let ghost ms = flow_measured@;
    let direction = parent.direction;
    let gaps = gap_total(parent, children);
    let axis_total = match direction {
        Direction::Row => content.width,
        Direction::Column => content.height,
    };
    let axis_available = axis_total.saturating_sub(gaps);
    let cross_available = match direction {
        Direction::Row => content.height,
        Direction::Column => content.width,
    };
    let n = children.len();

    let mut fixed_axis: u32 = 0;
    let mut fill_weight: u32 = 0;
    let mut i: usize = 0;
    while i < n
        invariant
            0 <= i <= n,
            n == children.len(),
            n == flow_measured.len(),
            cs == children@,
            ms == flow_measured@,
            pc == *parent,
            direction == parent.direction,
            axis_available == spec_axis_available(pc, cs, content),
            (fixed_axis as int, fill_weight as int) == spec_fixed_and_weight(pc, cs, ms, axis_available as int, i as int),
        decreases n - i,
    {
        let child = &children[i];
        if child.position == Position::Flow {
            match child.axis_length(direction) {
                Length::Fill => {
                    let weight = max_u32(child.fill, 1);
                    fill_weight = sat_add_u32(fill_weight, weight);
                },
                _ => {
                    let axis = child.resolve_axis_length(direction, axis_available, flow_measured[i].axis(direction));
                    fixed_axis = sat_add_u32(fixed_axis, axis);
                },
            }
        }
        i = i + 1;
    }

    let remaining = axis_available.saturating_sub(fixed_axis);
    let ghost total_weight = fill_weight as int;
    assert((remaining as int, total_weight) == spec_free_space(pc, cs, ms, content));

    let mut axes: Vec<u32> = Vec::new();
    let mut distributed: u32 = 0;
    let mut remaining_weight: u32 = fill_weight;
    let mut used_axis: u32 = gaps;
    i = 0;
    while i < n
        invariant
            0 <= i <= n,
            n == children.len(),
            n == flow_measured.len(),
            cs == children@,
            ms == flow_measured@,
            pc == *parent,
            direction == parent.direction,
            axis_available == spec_axis_available(pc, cs, content),
            (remaining as int, total_weight) == spec_free_space(pc, cs, ms, content),
            (distributed as int, remaining_weight as int) == spec_fill_state(pc, cs, remaining as int, total_weight, i as int),
            used_axis == spec_used_axis(pc, cs, ms, content, i as int),
            axes@.len() == i,
            forall|j: int| 0 <= j < i ==> axes@[j] == spec_child_axis(pc, cs, ms, content, j),
        decreases n - i,
    {
        let child = &children[i];
        let fills = child.position == Position::Flow && child.axis_length(direction) == Length::Fill;
        let axis = if fills {
            let weight = max_u32(child.fill, 1);
            let share = fill_share(remaining, distributed, weight, remaining_weight);
            remaining_weight = remaining_weight.saturating_sub(weight);
            distributed = sat_add_u32(distributed, share);
            child.constrain_axis(share, direction)
        } else {
            child.resolve_axis_length(direction, axis_available, flow_measured[i].axis(direction))
        };
        if child.position == Position::Flow {
            used_axis = sat_add_u32(used_axis, axis);
        }
        axes.push(axis);
        i = i + 1;
    }

    let start_offset = align_offset(parent.justify, axis_total, used_axis);
    let start = match direction {
        Direction::Row => content.x,
        Direction::Column => content.y,
    };
    let mut cursor = sat_add_u32(start, start_offset);
    let mut placements: Vec<Placement> = Vec::new();
    i = 0;
    while i < n
        invariant
            0 <= i <= n,
            n == children.len(),
            n == flow_measured.len(),
            n == axes@.len(),
            cs == children@,
            ms == flow_measured@,
            pc == *parent,
            direction == parent.direction,
            cross_available == spec_cross_available(pc, content),
            forall|j: int| 0 <= j < n ==> axes@[j] == spec_child_axis(pc, cs, ms, content, j),
            cursor == spec_cursor(pc, cs, ms, content, i as int),
            placements@ == spec_flow_placements(pc, cs, ms, content, i as int),
        decreases n - i,
    {
        let child = &children[i];
        let axis = axes[i];
        let ghost c0 = cursor;
        assert(c0 == spec_cursor(pc, cs, ms, content, i as int));
        if child.position == Position::Flow && axis != 0 {
            let measured = flow_measured[i];
            let cross = match child.cross_length(direction) {
                Length::Fill => cross_available,
                Length::Fit => if parent.align == Align::Stretch {
                    cross_available
                } else {
                    child.resolve_cross_length(direction, cross_available, measured.cross(direction))
                },
                _ => child.resolve_cross_length(direction, cross_available, measured.cross(direction)),
            };
            assert(cross == spec_child_cross(pc, cs[i as int], cross_available as int, ms[i as int]));
            let cross_offset = align_offset(parent.align, cross_available, cross);
            assert(axis == spec_child_axis(pc, cs, ms, content, i as int));
            let rect = match direction {
                Direction::Row => Bounds {
                    x: cursor,
                    y: sat_add_u32(content.y, cross_offset),
                    width: axis,
                    height: cross,
                },
                Direction::Column => Bounds {
                    x: sat_add_u32(content.x, cross_offset),
                    y: cursor,
                    width: cross,
                    height: axis,
                },
            };
            assert(rect == spec_flow_rect(pc, cs, ms, content, i as int));
            placements.push(Placement { index: i, rect, measured });
            cursor = sat_add_u32(sat_add_u32(cursor, axis), parent.gap);
        }
        assert(spec_cursor(pc, cs, ms, content, i + 1) == cursor);
        i = i + 1;
    }
    let absolute = layout_absolute_children(children, absolute_measured, content);
    let ghost flow = placements@;
    placements.append(&mut absolute.clone());
    assert(placements@ =~= flow + absolute@);
    placements
}

/// The space an absolutely positioned child may take: `content` less the
/// insets that are set.
pub fn absolute_available(child: &LayoutNode, content: Bounds) -> (r: (u32, u32))
    ensures
        (r.0 as int, r.1 as int) == spec_absolute_available(*child, content),
{
    let left = match child.inset.left { Some(v) => v, None => 0 };
    let right = match child.inset.right { Some(v) => v, None => 0 };
    let top = match child.inset.top { Some(v) => v, None => 0 };
    let bottom = match child.inset.bottom { Some(v) => v, None => 0 };
    (
        content.width.saturating_sub(left).saturating_sub(right),
        content.height.saturating_sub(top).saturating_sub(bottom),
    )
}

/// The rectangle of an absolutely positioned child measured at `measured`.
pub fn absolute_child_rect(child: &LayoutNode, content: Bounds, measured: Size) -> (r: Bounds)
    ensures
        r == spec_absolute_rect(*child, content, measured),
{
    let (available_width, available_height) = absolute_available(child, content);
    let width = if child.inset.left.is_some() && child.inset.right.is_some() && child.width == Length::Fill {
        constrain_dimension(available_width, child.min_width, child.max_width)
    } else {
        resolve_length(child.width, available_width, measured.width, child.min_width, child.max_width)
    };
    let height = if child.inset.top.is_some() && child.inset.bottom.is_some() && child.height == Length::Fill {
        constrain_dimension(available_height, child.min_height, child.max_height)
    } else {
        resolve_length(child.height, available_height, measured.height, child.min_height, child.max_height)
    };
    let x = match (child.inset.left, child.inset.right) {
        (Some(left), _) => content.x.saturating_add(left),
        (None, Some(right)) => content.right().saturating_sub(right).saturating_sub(width),
        (None, None) => content.x,
    };
    let y = match (child.inset.top, child.inset.bottom) {
        (Some(top), _) => content.y.saturating_add(top),
        (None, Some(bottom)) => content.bottom().saturating_sub(bottom).saturating_sub(height),
        (None, None) => content.y,
    };
    Bounds { x, y, width, height }
}

/// Places the absolutely positioned children; `measured[i]` is child `i`
/// measured in its `absolute_available` space.
pub fn layout_absolute_children(children: &Vec<LayoutNode>, measured: &Vec<Size>, content: Bounds) -> (r: Vec<Placement>)
    requires
        measured.len() == children.len(),
    ensures
        r@ == spec_absolute_placements(children@, measured@, content, children@.len() as int),
{
    let mut placements: Vec<Placement> = Vec::new();
    let mut i: usize = 0;
    while i < children.len()
        invariant
            0 <= i <= children.len(),
            measured.len() == children.len(),
            placements@ == spec_absolute_placements(children@, measured@, content, i as int),
        decreases children.len() - i,
    {
        let child = &children[i];
        if child.position == Position::Absolute {
            let rect = absolute_child_rect(child, content, measured[i]);
            if rect.width != 0 && rect.height != 0 {
                placements.push(Placement { index: i, rect, measured: measured[i] });
            }
        }
        i = i + 1;
    }
    placements
}

/// The extents along and across the axis that a flow child asks for when
/// its parent is measured.
pub open spec fn spec_measured_extents(
    parent: LayoutNode,
    child: LayoutNode,
    measured: Size,
    axis_available: int,
    cross_available: int,
) -> (int, int) {
    let direction = parent.direction;
    let axis = if child.spec_axis_length(direction) == Length::Fill {
        child.spec_constrain_axis(measured.spec_axis(direction) as int, direction)
    } else {
        child.spec_resolve_axis(direction, axis_available, measured.spec_axis(direction) as int)
    };
    let cross = if child.spec_cross_length(direction) == Length::Fill {
        child.spec_constrain_cross(measured.spec_cross(direction) as int, direction)
    } else {
        child.spec_resolve_cross(direction, cross_available, measured.spec_cross(direction) as int)
    };
    (axis, cross)
}

/// Over the first `n` children: the sum (saturating) of the flow children's
/// extents along the axis and the largest extent across it.
pub open spec fn spec_measured_used(
    parent: LayoutNode,
    children: Seq<LayoutNode>,
    measured: Seq<Size>,
    axis_available: int,
    cross_available: int,
    n: int,
) -> (int, int)
    decreases n,
{
    if n <= 0 {
        (0, 0)
    } else {
        let (axis_used, cross_used) = spec_measured_used(parent, children, measured, axis_available, cross_available, n - 1);
        if children[n - 1].spec_is_flow() {
            let (axis, cross) = spec_measured_extents(parent, children[n - 1], measured[n - 1], axis_available, cross_available);
            (sat_add(axis_used, axis), max_int(cross_used, cross))
        } else {
            (axis_used, cross_used)
        }
    }
}

/// The size the flow children of `parent` ask for inside an
/// `available_width` by `available_height` space, gaps included; each child
/// measured at `measured[i]`. Nothing when no child is in the flow.
pub open spec fn spec_measure_children(
    parent: LayoutNode,
    children: Seq<LayoutNode>,
    measured: Seq<Size>,
    available_width: int,
    available_height: int,
) -> Size {
    let count = spec_flow_count(children, children.len() as int);
    if count == 0 {
        Size { width: 0, height: 0 }
    } else {
        let (axis_available, cross_available) = match parent.direction {
            Direction::Row => (available_width, available_height),
            Direction::Column => (available_height, available_width),
        };
        let gaps = sat_mul(parent.gap as int, sat_sub(count, 1));
        let (axis_used, cross_used) = spec_measured_used(
            parent,
            children,
            measured,
            sat_sub(axis_available, gaps),
            cross_available,
            children.len() as int,
        );
        let axis = min_int(sat_add(axis_used, gaps), axis_available);
        let cross = min_int(cross_used, cross_available);
        match parent.direction {
            Direction::Row => Size { width: axis as u32, height: cross as u32 },
            Direction::Column => Size { width: cross as u32, height: axis as u32 },
        }
    }
}

/// Measures the flow children of `parent`: `measured[i]` is child `i`
/// measured in the whole `available_width` by `available_height` space.
pub fn measure_children(
    parent: &LayoutNode,
    children: &Vec<LayoutNode>,
    measured: &Vec<Size>,
    available_width: u32,
    available_height: u32,
) -> (r: Size)
    requires
        children.len() <= u32::MAX,
        measured.len() == children.len(),
    ensures
        r == spec_measure_children(*parent, children@, measured@, available_width as int, available_height as int),
{
    let count = flow_count(children);
    if count == 0 {
        return Size::new(0, 0);
    }
    let direction = parent.direction;
    let (axis_available, cross_available) = match direction {
        Direction::Row => (available_width, available_height),
        Direction::Column => (available_height, available_width),
    };
    let gaps = sat_mul_u32(parent.gap, count - 1);
    let without_gaps = axis_available.saturating_sub(gaps);
    let mut axis_used: u32 = 0;
    let mut cross_used: u32 = 0;
    let mut i: usize = 0;
    while i < children.len()
        invariant
            0 <= i <= children.len(),
            measured.len() == children.len(),
            direction == parent.direction,
            (axis_used as int, cross_used as int) == spec_measured_used(
                *parent,
                children@,
                measured@,
                without_gaps as int,
                cross_available as int,
                i as int,
            ),
        decreases children.len() - i,
    {
        let child = &children[i];
        if child.position == Position::Flow {
            let m = measured[i];
            let axis = match child.axis_length(direction) {
                Length::Fill => child.constrain_axis(m.axis(direction), direction),
                _ => child.resolve_axis_length(direction, without_gaps, m.axis(direction)),
            };
            let cross = match child.cross_length(direction) {
                Length::Fill => child.constrain_cross(m.cross(direction), direction),
                _ => child.resolve_cross_length(direction, cross_available, m.cross(direction)),
            };
            axis_used = sat_add_u32(axis_used, axis);
            cross_used = max_u32(cross_used, cross);
        }
        i = i + 1;
    }
    let axis = min_u32(sat_add_u32(axis_used, gaps), axis_available);
    let cross = min_u32(cross_used, cross_available);
    match direction {
        Direction::Row => Size::new(axis, cross),
        Direction::Column => Size::new(cross, axis),
    }
}

/// The space inside the padding of `node` when it is given an
/// `available_width` by `available_height` space.
pub open spec fn spec_content_available(node: LayoutNode, available_width: int, available_height: int) -> (int, int) {
    let inner = (Bounds { x: 0, y: 0, width: available_width as u32, height: available_height as u32 }).spec_inset(node.padding);
    (inner.width as int, inner.height as int)
}

pub fn content_available(node: &LayoutNode, available_width: u32, available_height: u32) -> (r: (u32, u32))
    ensures
        (r.0 as int, r.1 as int) == spec_content_available(*node, available_width as int, available_height as int),
{
    let inner = Bounds::new(0, 0, available_width, available_height).inset(node.padding);
    (inner.width, inner.height)
}

/// The size a box asks for: the larger of its content and its children,
/// plus its padding, no more than the available space, held between its
/// minimum and maximum.
pub open spec fn spec_measure_element(
    node: LayoutNode,
    content: Size,
    children: Size,
    available_width: int,
    available_height: int,
) -> Size {
    let width = max_int(content.width as int, children.width as int);
    let height = max_int(content.height as int, children.height as int);
    Size {
        width: spec_constrain_dimension(
            min_int(sat_add(sat_add(width, node.padding.left as int), node.padding.right as int), available_width),
            node.min_width as int,
            node.max_width,
        ) as u32,
        height: spec_constrain_dimension(
            min_int(sat_add(sat_add(height, node.padding.top as int), node.padding.bottom as int), available_height),
            node.min_height as int,
            node.max_height,
        ) as u32,
    }
}

/// Combines the measured `content` and `children` of `node` (both measured
/// in its `content_available` space) into the size the box asks for.
pub fn measure_element(node: &LayoutNode, content: Size, children: Size, available_width: u32, available_height: u32) -> (r: Size)
    ensures
        r == spec_measure_element(*node, content, children, available_width as int, available_height as int),
{
    let width = max_u32(content.width, children.width);
    let height = max_u32(content.height, children.height);
    Size::new(
        constrain_dimension(
            min_u32(sat_add_u32(sat_add_u32(width, node.padding.left), node.padding.right), available_width),
            node.min_width,
            node.max_width,
        ),
        constrain_dimension(
            min_u32(sat_add_u32(sat_add_u32(height, node.padding.top), node.padding.bottom), available_height),
            node.min_height,
            node.max_height,
        ),
    )
}

/// The total weight, not saturated, of the filling flow children among the first `n`.
pub open spec fn spec_weight_sum(parent: LayoutNode, children: Seq<LayoutNode>, n: int) -> int
    decreases n,
{
    if n <= 0 {
        0
    } else {
        spec_weight_sum(parent, children, n - 1) + if spec_fills(parent, children[n - 1]) {
            spec_weight(children[n - 1])
        } else {
            0
        }
    }
}

proof fn lemma_weight_sum_monotone(parent: LayoutNode, children: Seq<LayoutNode>, m: int, n: int)
    requires
        0 <= m <= n <= children.len(),
    ensures
        spec_weight_sum(parent, children, m) <= spec_weight_sum(parent, children, n),
    decreases n - m,
{
    if m < n {
        lemma_weight_sum_monotone(parent, children, m, n - 1);
    }
}

proof fn lemma_fill_state_tracks_weight(
    parent: LayoutNode,
    children: Seq<LayoutNode>,
    remaining: int,
    total: int,
    n: int,
)
    requires
        0 <= n <= children.len(),
        0 <= remaining <= u32::MAX,
        total == spec_weight_sum(parent, children, children.len() as int),
        total <= u32::MAX,
    ensures
        ({
            let (distributed, remaining_weight) = spec_fill_state(parent, children, remaining, total, n);
            &&& remaining_weight == total - spec_weight_sum(parent, children, n)
            &&& 0 <= distributed <= remaining
            &&& (spec_weight_sum(parent, children, n) == total && total > 0) ==> distributed == remaining
        }),
    decreases n,
{
    lemma_weight_sum_monotone(parent, children, n, children.len() as int);
    if n > 0 {
        lemma_fill_state_tracks_weight(parent, children, remaining, total, n - 1);
        lemma_weight_sum_monotone(parent, children, n - 1, children.len() as int);
        let (d, rw) = spec_fill_state(parent, children, remaining, total, n - 1);
        let child = children[n - 1];
        if spec_fills(parent, child) {
            let w = spec_weight(child);
            let rest = sat_sub(remaining, d);
            if rw > w {
                assert(rest * w / rw <= rest) by (nonlinear_arith)
                    requires
                        w < rw,
                        w >= 1,
                        rest >= 0,
                ;
                assert(rest * w / rw >= 0) by (nonlinear_arith)
                    requires
                        w >= 1,
                        rw > 0,
                        rest >= 0,
                ;
            }
        }
    }
}

/// Filling children share the free space in full: when some flow child
/// fills and the fill weights sum to at most `u32::MAX`, the shares handed
/// out add up to exactly the space the fixed children left.
pub proof fn lemma_fill_shares_use_all_free_space(
    parent: LayoutNode,
    children: Seq<LayoutNode>,
    measured: Seq<Size>,
    content: Bounds,
)
    requires
        spec_weight_sum(parent, children, children.len() as int) <= u32::MAX,
        spec_weight_sum(parent, children, children.len() as int) > 0,
    ensures
        ({
            let (remaining, total_weight) = spec_free_space(parent, children, measured, content);
            spec_fill_state(parent, children, remaining, total_weight, children.len() as int).0 == remaining
        }),
{
    let axis_available = spec_axis_available(parent, children, content);
    lemma_fixed_and_weight_is_sum(parent, children, measured, axis_available, children.len() as int);
    let (remaining, total_weight) = spec_free_space(parent, children, measured, content);
    lemma_fill_state_tracks_weight(parent, children, remaining, total_weight, children.len() as int);
}

proof fn lemma_fixed_and_weight_is_sum(
    parent: LayoutNode,
    children: Seq<LayoutNode>,
    measured: Seq<Size>,
    axis_available: int,
    n: int,
)
    requires
        0 <= n <= children.len(),
        spec_weight_sum(parent, children, children.len() as int) <= u32::MAX,
    ensures
        spec_fixed_and_weight(parent, children, measured, axis_available, n).1 == spec_weight_sum(parent, children, n),
        0 <= spec_fixed_and_weight(parent, children, measured, axis_available, n).0 <= u32::MAX,
    decreases n,
{
    lemma_weight_sum_monotone(parent, children, n, children.len() as int);
    if n > 0 {
        lemma_fixed_and_weight_is_sum(parent, children, measured, axis_available, n - 1);
    }
}

proof fn lemma_cursor_monotone(
    parent: LayoutNode,
    children: Seq<LayoutNode>,
    measured: Seq<Size>,
    content: Bounds,
    m: int,
    n: int,
)
    requires
        0 <= m <= n <= children.len(),
    ensures
        spec_cursor(parent, children, measured, content, m) <= spec_cursor(parent, children, measured, content, n),
    decreases n - m,
{
    if m < n {
        lemma_cursor_monotone(parent, children, measured, content, m, n - 1);
        lemma_child_axis_nonnegative(parent, children, measured, content, n - 1);
        lemma_cursor_in_range(parent, children, measured, content, n - 1);
        let c = spec_cursor(parent, children, measured, content, n - 1);
        let axis = spec_child_axis(parent, children, measured, content, n - 1);
        assert(sat_add(c, axis) >= c);
        assert(sat_add(sat_add(c, axis), parent.gap as int) >= sat_add(c, axis));
    }
}

proof fn lemma_cursor_in_range(parent: LayoutNode, children: Seq<LayoutNode>, measured: Seq<Size>, content: Bounds, n: int)
    requires
        0 <= n <= children.len(),
    ensures
        0 <= spec_cursor(parent, children, measured, content, n) <= u32::MAX,
    decreases n,
{
    if n > 0 {
        lemma_cursor_in_range(parent, children, measured, content, n - 1);
        lemma_child_axis_nonnegative(parent, children, measured, content, n - 1);
    } else {
        let start = match parent.direction {
            Direction::Row => content.x as int,
            Direction::Column => content.y as int,
        };
        let offset = spec_align_offset(
            parent.justify,
            spec_axis_total(parent, content),
            spec_used_axis(parent, children, measured, content, children.len() as int),
        );
        assert(offset >= 0);
    }
}

proof fn lemma_child_axis_nonnegative(parent: LayoutNode, children: Seq<LayoutNode>, measured: Seq<Size>, content: Bounds, i: int)
    requires
        0 <= i < children.len(),
    ensures
        spec_child_axis(parent, children, measured, content, i) >= 0,
{
    let child = children[i];
    let (min, max) = child.spec_axis_limits(parent.direction);
    let (remaining, total_weight) = spec_free_space(parent, children, measured, content);
    let (distributed, remaining_weight) = spec_fill_state(parent, children, remaining, total_weight, i);
    lemma_constrain_dimension_bounds(
        spec_fill_share(remaining, distributed, spec_weight(child), remaining_weight),
        min as int,
        max,
    );
    let available = spec_axis_available(parent, children, content);
    let fit = measured[i].spec_axis(parent.direction) as int;
    let resolved = match child.spec_axis_length(parent.direction) {
        Length::Fit => fit,
        Length::Fill => available,
        Length::Px(value) => min_int(value as int, available),
        Length::Percent(hundredths) => min_int(spec_percent_of(available, hundredths as int), available),
    };
    lemma_constrain_dimension_bounds(resolved, min as int, max);
}

/// Flow children follow one another along the axis: a later placed child
/// starts no earlier than an earlier placed child ends (coordinates
/// saturate at `u32::MAX`).
pub proof fn lemma_flow_children_do_not_overlap(
    parent: LayoutNode,
    children: Seq<LayoutNode>,
    measured: Seq<Size>,
    content: Bounds,
    i: int,
    j: int,
)
    requires
        0 <= i < j <= children.len(),
        children[i].spec_is_flow(),
        spec_child_axis(parent, children, measured, content, i) != 0,
    ensures
        spec_cursor(parent, children, measured, content, j) >= sat_add(
            spec_cursor(parent, children, measured, content, i),
            spec_child_axis(parent, children, measured, content, i),
        ),
{
    lemma_cursor_monotone(parent, children, measured, content, i + 1, j);
}


/// Where the content starts along the flow axis.
pub open spec fn spec_axis_start(parent: LayoutNode, content: Bounds) -> int {
    match parent.direction {
        Direction::Row => content.x as int,
        Direction::Column => content.y as int,
    }
}

/// The extents along the axis of the flow children among the first `n`,
/// added up without saturating.
pub open spec fn spec_axis_sum(parent: LayoutNode, children: Seq<LayoutNode>, measured: Seq<Size>, content: Bounds, n: int) -> int
    decreases n,
{
    if n <= 0 {
        0
    } else {
        spec_axis_sum(parent, children, measured, content, n - 1) + if children[n - 1].spec_is_flow() {
            spec_child_axis(parent, children, measured, content, n - 1)
        } else {
            0
        }
    }
}

/// How many flow children among the first `n` get space along the axis.
pub open spec fn spec_placed_count(parent: LayoutNode, children: Seq<LayoutNode>, measured: Seq<Size>, content: Bounds, n: int) -> int
    decreases n,
{
    if n <= 0 {
        0
    } else {
        spec_placed_count(parent, children, measured, content, n - 1) + if children[n - 1].spec_is_flow()
            && spec_child_axis(parent, children, measured, content, n - 1) != 0 {
            1int
        } else {
            0int
        }
    }
}

proof fn lemma_axis_sum_grows(parent: LayoutNode, children: Seq<LayoutNode>, measured: Seq<Size>, content: Bounds, m: int, n: int)
    requires
        0 <= m <= n <= children.len(),
    ensures
        0 <= spec_axis_sum(parent, children, measured, content, m) <= spec_axis_sum(parent, children, measured, content, n),
        spec_placed_count(parent, children, measured, content, n) <= spec_flow_count(children, n),
        spec_placed_count(parent, children, measured, content, m) >= 0,
    decreases n,
{
    if n > 0 {
        lemma_child_axis_nonnegative(parent, children, measured, content, n - 1);
        if m < n {
            lemma_axis_sum_grows(parent, children, measured, content, m, n - 1);
        } else {
            lemma_axis_sum_grows(parent, children, measured, content, n - 1, n - 1);
        }
    }
}

proof fn lemma_used_axis_is_sum(parent: LayoutNode, children: Seq<LayoutNode>, measured: Seq<Size>, content: Bounds, n: int)
    requires
        0 <= n <= children.len(),
    ensures
        spec_used_axis(parent, children, measured, content, n) == min_int(
            spec_gap_total(parent, children) + spec_axis_sum(parent, children, measured, content, n),
            u32::MAX as int,
        ),
    decreases n,
{
    lemma_flow_count_bounds(children, children.len() as int);
    assert(spec_gap_total(parent, children) >= 0) by (nonlinear_arith)
        requires
            spec_gap_total(parent, children) == sat_mul(parent.gap as int, sat_sub(spec_flow_count(children, children.len() as int), 1)),
            parent.gap >= 0,
            sat_sub(spec_flow_count(children, children.len() as int), 1) >= 0,
    ;
    if n > 0 {
        lemma_used_axis_is_sum(parent, children, measured, content, n - 1);
        lemma_child_axis_nonnegative(parent, children, measured, content, n - 1);
    }
}

proof fn lemma_cursor_is_sum(parent: LayoutNode, children: Seq<LayoutNode>, measured: Seq<Size>, content: Bounds, offset: int, n: int)
    requires
        0 <= n <= children.len(),
        offset == spec_align_offset(
            parent.justify,
            spec_axis_total(parent, content),
            spec_used_axis(parent, children, measured, content, children.len() as int),
        ),
        spec_axis_start(parent, content) + offset + spec_axis_sum(parent, children, measured, content, n)
            + parent.gap * spec_placed_count(parent, children, measured, content, n) <= u32::MAX,
    ensures
        spec_cursor(parent, children, measured, content, n) == spec_axis_start(parent, content) + offset
            + spec_axis_sum(parent, children, measured, content, n) + parent.gap * spec_placed_count(
            parent,
            children,
            measured,
            content,
            n,
        ),
    decreases n,
{
    lemma_axis_sum_grows(parent, children, measured, content, 0, n);
    if n > 0 {
        lemma_child_axis_nonnegative(parent, children, measured, content, n - 1);
        let before = spec_placed_count(parent, children, measured, content, n - 1);
        let after = spec_placed_count(parent, children, measured, content, n);
        lemma_axis_sum_grows(parent, children, measured, content, n - 1, n);
        lemma_axis_sum_grows(parent, children, measured, content, 0, n - 1);
        assert(parent.gap * before <= parent.gap * after) by (nonlinear_arith)
            requires
                before <= after,
                parent.gap >= 0,
        ;
        assert(parent.gap * after == parent.gap * before + if after == before { 0int } else { parent.gap as int }) by (nonlinear_arith)
            requires
                after == before || after == before + 1,
        ;
        lemma_cursor_is_sum(parent, children, measured, content, offset, n - 1);
    } else {
        assert(offset >= 0);
    }
}

/// When the flow children and the gaps between them fit along the axis of
/// the content (their extents added up without saturating), every flow
/// child that gets space lies within the content along the axis.
pub proof fn lemma_flow_children_fit_in_content(
    parent: LayoutNode,
    children: Seq<LayoutNode>,
    measured: Seq<Size>,
    content: Bounds,
    i: int,
)
    requires
        0 <= i < children.len(),
        children[i].spec_is_flow(),
        spec_child_axis(parent, children, measured, content, i) != 0,
        spec_axis_start(parent, content) + spec_axis_total(parent, content) <= u32::MAX,
        spec_gap_total(parent, children) + spec_axis_sum(parent, children, measured, content, children.len() as int)
            <= spec_axis_total(parent, content),
    ensures
        spec_axis_start(parent, content) <= spec_cursor(parent, children, measured, content, i),
        spec_cursor(parent, children, measured, content, i) + spec_child_axis(parent, children, measured, content, i)
            <= spec_axis_start(parent, content) + spec_axis_total(parent, content),
{
    let len = children.len() as int;
    let total = spec_axis_total(parent, content);
    let start = spec_axis_start(parent, content);
    let gap_total = spec_gap_total(parent, children);
    let axis = spec_child_axis(parent, children, measured, content, i);
    let sum_all = spec_axis_sum(parent, children, measured, content, len);
    let sum_i = spec_axis_sum(parent, children, measured, content, i);
    let placed_i = spec_placed_count(parent, children, measured, content, i);
    lemma_used_axis_is_sum(parent, children, measured, content, len);
    lemma_child_axis_nonnegative(parent, children, measured, content, i);
    lemma_axis_sum_grows(parent, children, measured, content, i + 1, len);
    lemma_axis_sum_grows(parent, children, measured, content, 0, i);
    lemma_axis_sum_grows(parent, children, measured, content, i, i);
    lemma_flow_count_bounds(children, len);
    lemma_flow_count_grows(children, i + 1, len);
    let used = spec_used_axis(parent, children, measured, content, len);
    assert(used == gap_total + sum_all);
    let offset = spec_align_offset(parent.justify, total, used);
    assert(0 <= offset && offset + used <= total);
    let flows = spec_flow_count(children, len);
    assert(flows >= 1);
    assert(gap_total == parent.gap * (flows - 1)) by (nonlinear_arith)
        requires
            gap_total == sat_mul(parent.gap as int, sat_sub(flows, 1)),
            flows >= 1,
            gap_total < u32::MAX,
    ;
    assert(placed_i <= flows - 1);
    assert(parent.gap * placed_i <= parent.gap * (flows - 1)) by (nonlinear_arith)
        requires
            0 <= placed_i <= flows - 1,
            parent.gap >= 0,
    ;
    assert(parent.gap * placed_i >= 0) by (nonlinear_arith)
        requires
            0 <= placed_i,
            parent.gap >= 0,
    ;
    lemma_cursor_is_sum(parent, children, measured, content, offset, i);
}

proof fn lemma_flow_count_grows(children: Seq<LayoutNode>, m: int, n: int)
    requires
        0 <= m <= n <= children.len(),
    ensures
        spec_flow_count(children, m) <= spec_flow_count(children, n),
    decreases n,
{
    if m < n {
        lemma_flow_count_grows(children, m, n - 1);
    }
}


/// `node` with its horizontal and vertical lengths and limits exchanged.
pub open spec fn spec_transposed_node(node: LayoutNode) -> LayoutNode {
    LayoutNode {
        width: node.height,
        height: node.width,
        min_width: node.min_height,
        min_height: node.min_width,
        max_width: node.max_height,
        max_height: node.max_width,
        ..node
    }
}

/// `size` with its width and height exchanged.
pub open spec fn spec_transposed_size(size: Size) -> Size {
    Size { width: size.height, height: size.width }
}

proof fn lemma_flow_count_transposed(children: Seq<LayoutNode>, n: int)
    requires
        0 <= n <= children.len(),
    ensures
        spec_flow_count(children.map_values(|c: LayoutNode| spec_transposed_node(c)), n) == spec_flow_count(children, n),
    decreases n,
{
    if n > 0 {
        lemma_flow_count_transposed(children, n - 1);
    }
}

proof fn lemma_measured_used_transposed(
    parent: LayoutNode,
    children: Seq<LayoutNode>,
    measured: Seq<Size>,
    axis_available: int,
    cross_available: int,
    n: int,
)
    requires
        parent.direction == Direction::Column,
        0 <= n <= children.len(),
        children.len() == measured.len(),
    ensures
        spec_measured_used(
            LayoutNode { direction: Direction::Row, ..parent },
            children.map_values(|c: LayoutNode| spec_transposed_node(c)),
            measured.map_values(|m: Size| spec_transposed_size(m)),
            axis_available,
            cross_available,
            n,
        ) == spec_measured_used(parent, children, measured, axis_available, cross_available, n),
    decreases n,
{
    if n > 0 {
        lemma_measured_used_transposed(parent, children, measured, axis_available, cross_available, n - 1);
    }
}

/// Measuring the children of a column is measuring the children of a row
/// turned on its side: exchanging every child's and every measured size's
/// width and height, and the available width and height, gives the
/// column's size with width and height exchanged.
pub proof fn lemma_measure_column_is_transposed_row(
    parent: LayoutNode,
    children: Seq<LayoutNode>,
    measured: Seq<Size>,
    available_width: u32,
    available_height: u32,
)
    requires
        parent.direction == Direction::Column,
        children.len() == measured.len(),
    ensures
        spec_measure_children(parent, children, measured, available_width as int, available_height as int)
            == spec_transposed_size(
            spec_measure_children(
                LayoutNode { direction: Direction::Row, ..parent },
                children.map_values(|c: LayoutNode| spec_transposed_node(c)),
                measured.map_values(|m: Size| spec_transposed_size(m)),
                available_height as int,
                available_width as int,
            ),
        ),
{
    let n = children.len() as int;
    lemma_flow_count_transposed(children, n);
    let count = spec_flow_count(children, n);
    let gaps = sat_mul(parent.gap as int, sat_sub(count, 1));
    lemma_measured_used_transposed(parent, children, measured, sat_sub(available_height as int, gaps), available_width as int, n);
}

proof fn lemma_measured_used_bounds(
    parent: LayoutNode,
    children: Seq<LayoutNode>,
    measured: Seq<Size>,
    axis_available: int,
    cross_available: int,
    n: int,
)
    requires
        0 <= n <= children.len(),
        children.len() == measured.len(),
    ensures
        0 <= spec_measured_used(parent, children, measured, axis_available, cross_available, n).0 <= u32::MAX,
        0 <= spec_measured_used(parent, children, measured, axis_available, cross_available, n).1,
    decreases n,
{
    if n > 0 {
        lemma_measured_used_bounds(parent, children, measured, axis_available, cross_available, n - 1);
        let child = children[n - 1];
        let direction = parent.direction;
        let (min, max) = child.spec_axis_limits(direction);
        let m = measured[n - 1].spec_axis(direction) as int;
        lemma_constrain_dimension_bounds(m, min as int, max);
        let resolved = match child.spec_axis_length(direction) {
            Length::Fit => m,
            Length::Fill => axis_available,
            Length::Px(value) => min_int(value as int, axis_available),
            Length::Percent(hundredths) => min_int(spec_percent_of(axis_available, hundredths as int), axis_available),
        };
        lemma_constrain_dimension_bounds(resolved, min as int, max);
    }
}

/// The measured size of the flow children never exceeds the space given:
/// its width is at most the available width and its height at most the
/// available height, whichever way the children flow.
pub proof fn lemma_measure_children_fits_available(
    parent: LayoutNode,
    children: Seq<LayoutNode>,
    measured: Seq<Size>,
    available_width: u32,
    available_height: u32,
)
    requires
        children.len() == measured.len(),
    ensures
        spec_measure_children(parent, children, measured, available_width as int, available_height as int).width
            <= available_width,
        spec_measure_children(parent, children, measured, available_width as int, available_height as int).height
            <= available_height,
{
    let n = children.len() as int;
    let count = spec_flow_count(children, n);
    let (axis_available, cross_available) = match parent.direction {
        Direction::Row => (available_width as int, available_height as int),
        Direction::Column => (available_height as int, available_width as int),
    };
    let gaps = sat_mul(parent.gap as int, sat_sub(count, 1));
    lemma_flow_count_bounds(children, n);
    assert(gaps >= 0) by (nonlinear_arith)
        requires
            gaps == sat_mul(parent.gap as int, sat_sub(count, 1)),
            parent.gap >= 0,
            sat_sub(count, 1) >= 0,
    ;
    lemma_measured_used_bounds(parent, children, measured, sat_sub(axis_available, gaps), cross_available, n);
}


/// The height that a child of a row asks for when `available_height` is
/// given: its measured height held between its limits when it fills,
/// otherwise its height length resolved in the available height.
pub open spec fn spec_row_child_height(child: LayoutNode, measured: Size, available_height: int) -> int {
    if child.height == Length::Fill {
        spec_constrain_dimension(measured.height as int, child.min_height as int, child.max_height)
    } else {
        spec_resolve_length(child.height, available_height, measured.height as int, child.min_height as int, child.max_height)
    }
}

proof fn lemma_row_cross_used(
    parent: LayoutNode,
    children: Seq<LayoutNode>,
    measured: Seq<Size>,
    axis_available: int,
    available_height: int,
    n: int,
)
    requires
        parent.direction == Direction::Row,
        0 <= n <= children.len(),
        children.len() == measured.len(),
    ensures
        ({
            let used = spec_measured_used(parent, children, measured, axis_available, available_height, n).1;
            &&& forall|i: int|
                0 <= i < n && children[i].spec_is_flow() ==> used >= #[trigger] spec_row_child_height(
                    children[i],
                    measured[i],
                    available_height,
                )
            &&& (exists|i: int| 0 <= i < n && children[i].spec_is_flow()) ==> exists|i: int|
                0 <= i < n && children[i].spec_is_flow() && used == #[trigger] spec_row_child_height(
                    children[i],
                    measured[i],
                    available_height,
                )
            &&& !(exists|i: int| 0 <= i < n && children[i].spec_is_flow()) ==> used == 0
        }),
    decreases n,
{
    if n > 0 {
        lemma_row_cross_used(parent, children, measured, axis_available, available_height, n - 1);
        let used = spec_measured_used(parent, children, measured, axis_available, available_height, n).1;
        let before = spec_measured_used(parent, children, measured, axis_available, available_height, n - 1).1;
        if children[n - 1].spec_is_flow() {
            let h = spec_row_child_height(children[n - 1], measured[n - 1], available_height);
            assert(used == max_int(before, h));
            if exists|i: int| 0 <= i < n - 1 && children[i].spec_is_flow() {
                let k = choose|i: int| 0 <= i < n - 1 && children[i].spec_is_flow() && before == #[trigger] spec_row_child_height(
                    children[i],
                    measured[i],
                    available_height,
                );
                if used == before {
                    assert(0 <= k < n && children[k].spec_is_flow() && used == spec_row_child_height(children[k], measured[k], available_height));
                } else {
                    assert(used == spec_row_child_height(children[n - 1], measured[n - 1], available_height));
                }
            } else {
                let (min, max) = children[n - 1].spec_cross_limits(Direction::Row);
                lemma_constrain_dimension_bounds(measured[n - 1].height as int, min as int, max);
                let resolved = match children[n - 1].height {
                    Length::Fit => measured[n - 1].height as int,
                    Length::Fill => available_height,
                    Length::Px(value) => min_int(value as int, available_height),
                    Length::Percent(hundredths) => min_int(spec_percent_of(available_height, hundredths as int), available_height),
                };
                lemma_constrain_dimension_bounds(resolved, min as int, max);
                assert(h >= 0);
                assert(used == spec_row_child_height(children[n - 1], measured[n - 1], available_height));
            }
        } else {
            assert(used == before);
            assert forall|i: int| 0 <= i < n && children[i].spec_is_flow() implies used >= #[trigger] spec_row_child_height(
                children[i],
                measured[i],
                available_height,
            ) by {
                assert(i < n - 1);
            }
            if exists|i: int| 0 <= i < n && children[i].spec_is_flow() {
                let j = choose|i: int| 0 <= i < n && children[i].spec_is_flow();
                assert(0 <= j < n - 1 && children[j].spec_is_flow());
            }
        }
    }
}

/// A row is as tall as its tallest flow child, within the available
/// height: no flow child asks for more height than the row has (up to the
/// available height), and some flow child asks for exactly that much. A
/// row without flow children measures nothing.
pub proof fn lemma_row_is_as_tall_as_its_tallest_child(
    parent: LayoutNode,
    children: Seq<LayoutNode>,
    measured: Seq<Size>,
    available_width: u32,
    available_height: u32,
)
    requires
        parent.direction == Direction::Row,
        children.len() == measured.len(),
    ensures
        ({
            let size = spec_measure_children(parent, children, measured, available_width as int, available_height as int);
            let n = children.len() as int;
            &&& forall|i: int|
                0 <= i < n && children[i].spec_is_flow() ==> size.height >= min_int(
                    #[trigger] spec_row_child_height(children[i], measured[i], available_height as int),
                    available_height as int,
                )
            &&& (exists|i: int| 0 <= i < n && children[i].spec_is_flow()) ==> exists|i: int|
                0 <= i < n && children[i].spec_is_flow() && size.height == min_int(
                    #[trigger] spec_row_child_height(children[i], measured[i], available_height as int),
                    available_height as int,
                )
            &&& !(exists|i: int| 0 <= i < n && children[i].spec_is_flow()) ==> size == Size { width: 0, height: 0 }
        }),
{
    let n = children.len() as int;
    let count = spec_flow_count(children, n);
    let gaps = sat_mul(parent.gap as int, sat_sub(count, 1));
    let axis_available = sat_sub(available_width as int, gaps);
    lemma_flow_count_bounds(children, n);
    lemma_flow_count_positive(children, n);
    lemma_row_cross_used(parent, children, measured, axis_available, available_height as int, n);
    lemma_measured_used_bounds(parent, children, measured, axis_available, available_height as int, n);
}

proof fn lemma_flow_count_positive(children: Seq<LayoutNode>, n: int)
    requires
        0 <= n <= children.len(),
    ensures
        (spec_flow_count(children, n) == 0) == !(exists|i: int| 0 <= i < n && children[i].spec_is_flow()),
    decreases n,
{
    if n > 0 {
        lemma_flow_count_positive(children, n - 1);
        lemma_flow_count_bounds(children, n - 1);
        if exists|i: int| 0 <= i < n && children[i].spec_is_flow() {
            let j = choose|i: int| 0 <= i < n && children[i].spec_is_flow();
            if j < n - 1 {
                assert(exists|i: int| 0 <= i < n - 1 && children[i].spec_is_flow());
            }
        } else {
            assert(!children[n - 1].spec_is_flow());
            assert(!(exists|i: int| 0 <= i < n - 1 && children[i].spec_is_flow())) by {
                if exists|i: int| 0 <= i < n - 1 && children[i].spec_is_flow() {
                    let j = choose|i: int| 0 <= i < n - 1 && children[i].spec_is_flow();
                    assert(0 <= j < n && children[j].spec_is_flow());
                }
            }
        }
    }
}


proof fn lemma_flow_placements_are_flow_rects(
    parent: LayoutNode,
    children: Seq<LayoutNode>,
    measured: Seq<Size>,
    content: Bounds,
    n: int,
)
    requires
        0 <= n <= children.len(),
        children.len() <= u32::MAX,
    ensures
        forall|k: int|
            0 <= k < spec_flow_placements(parent, children, measured, content, n).len() ==> {
                let p = #[trigger] spec_flow_placements(parent, children, measured, content, n)[k];
                &&& 0 <= p.index < n
                &&& children[p.index as int].spec_is_flow()
                &&& p.rect == spec_flow_rect(parent, children, measured, content, p.index as int)
            },
    decreases n,
{
    if n > 0 {
        lemma_flow_placements_are_flow_rects(parent, children, measured, content, n - 1);
        let before = spec_flow_placements(parent, children, measured, content, n - 1);
        let after = spec_flow_placements(parent, children, measured, content, n);
        assert forall|k: int| 0 <= k < after.len() implies {
            let p = #[trigger] after[k];
            &&& 0 <= p.index < n
            &&& children[p.index as int].spec_is_flow()
            &&& p.rect == spec_flow_rect(parent, children, measured, content, p.index as int)
        } by {
            if k < before.len() {
                assert(after[k] == before[k]);
            } else {
                assert(after[k].index == (n - 1) as usize);
            }
        }
    }
}

proof fn lemma_absolute_placements_are_absolute(children: Seq<LayoutNode>, measured: Seq<Size>, content: Bounds, n: int)
    requires
        0 <= n <= children.len(),
        children.len() <= u32::MAX,
    ensures
        forall|k: int|
            0 <= k < spec_absolute_placements(children, measured, content, n).len() ==> {
                let p = #[trigger] spec_absolute_placements(children, measured, content, n)[k];
                0 <= p.index < n && children[p.index as int].position == Position::Absolute
            },
    decreases n,
{
    if n > 0 {
        lemma_absolute_placements_are_absolute(children, measured, content, n - 1);
        let before = spec_absolute_placements(children, measured, content, n - 1);
        let after = spec_absolute_placements(children, measured, content, n);
        assert forall|k: int| 0 <= k < after.len() implies {
            let p = #[trigger] after[k];
            0 <= p.index < n && children[p.index as int].position == Position::Absolute
        } by {
            if k < before.len() {
                assert(after[k] == before[k]);
            } else {
                assert(after[k].index == (n - 1) as usize);
            }
        }
    }
}

proof fn lemma_child_cross_in_range(parent: LayoutNode, child: LayoutNode, cross_available: int, measured: Size)
    requires
        0 <= cross_available <= u32::MAX,
    ensures
        0 <= spec_child_cross(parent, child, cross_available, measured) <= u32::MAX,
{
    let (min, max) = child.spec_cross_limits(parent.direction);
    let fit = measured.spec_cross(parent.direction) as int;
    let resolved = match child.spec_cross_length(parent.direction) {
        Length::Fit => fit,
        Length::Fill => cross_available,
        Length::Px(value) => min_int(value as int, cross_available),
        Length::Percent(hundredths) => min_int(spec_percent_of(cross_available, hundredths as int), cross_available),
    };
    lemma_constrain_dimension_bounds(resolved, min as int, max);
}

/// The parent's `align` places each flow child across the flow: in a row
/// a child's top is the content's top plus a gap above it, in a column its
/// left is the content's left plus a gap beside it. The gap is none for
/// `Start` and `Stretch`, half the space the child leaves (rounded down)
/// for `Center`, and all of it for `End`; a child as large as the content
/// or larger gets none. Coordinates saturate at `u32::MAX`. A child that
/// fills across, or fits its content under `Stretch`, spans the content.
pub proof fn lemma_flow_children_aligned_across(
    parent: LayoutNode,
    children: Seq<LayoutNode>,
    flow_measured: Seq<Size>,
    absolute_measured: Seq<Size>,
    content: Bounds,
    k: int,
)
    requires
        children.len() <= u32::MAX,
        children.len() == flow_measured.len(),
        children.len() == absolute_measured.len(),
        0 <= k < spec_layout_children(parent, children, flow_measured, absolute_measured, content).len(),
    ensures
        ({
            let p = spec_layout_children(parent, children, flow_measured, absolute_measured, content)[k];
            let (start, room, extent, placed) = match parent.direction {
                Direction::Row => (content.y as int, content.height as int, p.rect.height as int, p.rect.y as int),
                Direction::Column => (content.x as int, content.width as int, p.rect.width as int, p.rect.x as int),
            };
            let gap = if extent >= room {
                0
            } else {
                match parent.align {
                    Align::Center => (room - extent) / 2,
                    Align::End => room - extent,
                    _ => 0,
                }
            };
            let across = children[p.index as int].spec_cross_length(parent.direction);
            &&& 0 <= p.index < children.len()
            &&& children[p.index as int].spec_is_flow() ==> placed == min_int(start + gap, u32::MAX as int)
            &&& (children[p.index as int].spec_is_flow() && (across == Length::Fill || (across == Length::Fit
                && parent.align == Align::Stretch))) ==> extent == room
        }),
{
    let n = children.len() as int;
    let flows = spec_flow_placements(parent, children, flow_measured, content, n);
    let absolutes = spec_absolute_placements(children, absolute_measured, content, n);
    lemma_flow_placements_are_flow_rects(parent, children, flow_measured, content, n);
    lemma_absolute_placements_are_absolute(children, absolute_measured, content, n);
    let all = spec_layout_children(parent, children, flow_measured, absolute_measured, content);
    if k < flows.len() {
        assert(all[k] == flows[k]);
        let p = flows[k];
        let i = p.index as int;
        let cross_available = spec_cross_available(parent, content);
        lemma_child_cross_in_range(parent, children[i], cross_available, flow_measured[i]);
    } else {
        assert(all[k] == absolutes[k - flows.len()]);
    }
}


/// The width that a child of a row asks for when `available_width` is left
/// for the children: its measured width held between its limits when it
/// fills, otherwise its width length resolved in the available width.
pub open spec fn spec_row_child_width(child: LayoutNode, measured: Size, available_width: int) -> int {
    if child.width == Length::Fill {
        spec_constrain_dimension(measured.width as int, child.min_width as int, child.max_width)
    } else {
        spec_resolve_length(child.width, available_width, measured.width as int, child.min_width as int, child.max_width)
    }
}

/// The widths that the flow children among the first `n` ask for, added up.
pub open spec fn spec_row_width_sum(children: Seq<LayoutNode>, measured: Seq<Size>, available_width: int, n: int) -> int
    decreases n,
{
    if n <= 0 {
        0
    } else {
        spec_row_width_sum(children, measured, available_width, n - 1) + if children[n - 1].spec_is_flow() {
            spec_row_child_width(children[n - 1], measured[n - 1], available_width)
        } else {
            0
        }
    }
}

proof fn lemma_row_axis_used(
    parent: LayoutNode,
    children: Seq<LayoutNode>,
    measured: Seq<Size>,
    axis_available: int,
    cross_available: int,
    n: int,
)
    requires
        parent.direction == Direction::Row,
        0 <= n <= children.len(),
        children.len() == measured.len(),
    ensures
        spec_row_width_sum(children, measured, axis_available, n) >= 0,
        spec_measured_used(parent, children, measured, axis_available, cross_available, n).0 == min_int(
            spec_row_width_sum(children, measured, axis_available, n),
            u32::MAX as int,
        ),
    decreases n,
{
    if n > 0 {
        lemma_row_axis_used(parent, children, measured, axis_available, cross_available, n - 1);
        let child = children[n - 1];
        let m = measured[n - 1].width as int;
        lemma_constrain_dimension_bounds(m, child.min_width as int, child.max_width);
        let resolved = match child.width {
            Length::Fit => m,
            Length::Fill => axis_available,
            Length::Px(value) => min_int(value as int, axis_available),
            Length::Percent(hundredths) => min_int(spec_percent_of(axis_available, hundredths as int), axis_available),
        };
        lemma_constrain_dimension_bounds(resolved, child.min_width as int, child.max_width);
    }
}

/// A row is as wide as its flow children and the gaps between them, within
/// the available width: the widths the flow children ask for (in the width
/// left once the gaps are taken out), plus one gap fewer than there are
/// flow children, held to the available width.
pub proof fn lemma_row_is_as_wide_as_its_children_and_gaps(
    parent: LayoutNode,
    children: Seq<LayoutNode>,
    measured: Seq<Size>,
    available_width: u32,
    available_height: u32,
)
    requires
        parent.direction == Direction::Row,
        children.len() == measured.len(),
    ensures
        ({
            let size = spec_measure_children(parent, children, measured, available_width as int, available_height as int);
            let count = spec_flow_count(children, children.len() as int);
            let gaps = min_int(parent.gap * (count - 1), u32::MAX as int);
            let left = max_int(available_width - gaps, 0);
            count >= 1 ==> size.width == min_int(
                gaps + spec_row_width_sum(children, measured, left, children.len() as int),
                available_width as int,
            )
        }),
{
    let n = children.len() as int;
    let count = spec_flow_count(children, n);
    lemma_flow_count_bounds(children, n);
    if count >= 1 {
        let gaps = sat_mul(parent.gap as int, sat_sub(count, 1));
        assert(gaps == min_int(parent.gap * (count - 1), u32::MAX as int));
        assert(parent.gap * (count - 1) >= 0) by (nonlinear_arith)
            requires
                count >= 1,
                parent.gap >= 0,
        ;
        lemma_row_axis_used(parent, children, measured, sat_sub(available_width as int, gaps), available_height as int, n);
    }
}

} // verus!
