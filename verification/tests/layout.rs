use simple_render::flow::{
    absolute_child_rect, content_available, layout_children, measure_children, measure_element,
    Placement,
};
use simple_render::layout::{
    align_offset, constrain_dimension, resolve_length, LayoutNode, Size,
};
use simple_render::{Align, Bounds, Direction, Inset, Length, MeasuredSize, Position, Spacing};

fn px(width: u32) -> LayoutNode {
    let mut node = LayoutNode::new();
    node.width = Length::Px(width);
    node
}

#[test]
fn constrain_dimension_holds_between_min_and_max() {
    assert_eq!(constrain_dimension(5, 10, Some(20)), 10);
    assert_eq!(constrain_dimension(25, 10, Some(20)), 20);
    assert_eq!(constrain_dimension(15, 10, None), 15);
    assert_eq!(constrain_dimension(15, 10, Some(3)), 10);
}

#[test]
fn resolve_length_by_kind() {
    assert_eq!(resolve_length(Length::Fit, 100, 40, 0, None), 40);
    assert_eq!(resolve_length(Length::Fill, 100, 40, 0, None), 100);
    assert_eq!(resolve_length(Length::Px(150), 100, 40, 0, None), 100);
    assert_eq!(resolve_length(Length::percent(5000), 101, 0, 0, None), 51);
    assert_eq!(resolve_length(Length::percent(20000), 80, 0, 0, None), 80);
    assert_eq!(resolve_length(Length::px(30), 100, 0, 50, None), 50);
}

#[test]
fn align_offset_by_alignment() {
    assert_eq!(align_offset(Align::Start, 100, 30), 0);
    assert_eq!(align_offset(Align::Center, 100, 30), 35);
    assert_eq!(align_offset(Align::End, 100, 30), 70);
    assert_eq!(align_offset(Align::Stretch, 100, 30), 0);
    assert_eq!(align_offset(Align::End, 10, 30), 0);
}

#[test]
fn fill_children_share_the_free_space_by_weight() {
    let mut parent = LayoutNode::new();
    parent.gap = 10;
    let mut second = LayoutNode::new();
    second.width = Length::Fill;
    let mut third = LayoutNode::new();
    third.width = Length::Fill;
    third.fill = 3;
    let children = vec![px(30), second, third];
    let measured = vec![Size::new(0, 5), Size::new(0, 7), Size::new(0, 9)];
    let placements =
        layout_children(&parent, &children, &measured, &measured, Bounds::new(0, 0, 100, 20));
    assert_eq!(
        placements,
        vec![
            Placement { index: 0, rect: Bounds::new(0, 0, 30, 5), measured: Size::new(0, 5) },
            Placement { index: 1, rect: Bounds::new(40, 0, 12, 7), measured: Size::new(0, 7) },
            Placement { index: 2, rect: Bounds::new(62, 0, 38, 9), measured: Size::new(0, 9) },
        ]
    );
    assert_eq!(placements[1].rect.width + placements[2].rect.width, 50);
}

#[test]
fn justify_center_and_align_stretch() {
    let mut parent = LayoutNode::new();
    parent.justify = Align::Center;
    parent.align = Align::Stretch;
    let children = vec![px(10), px(10)];
    let measured = vec![Size::new(10, 3), Size::new(10, 3)];
    let placements =
        layout_children(&parent, &children, &measured, &measured, Bounds::new(5, 5, 100, 20));
    assert_eq!(placements.len(), 2);
    assert_eq!(placements[0].rect, Bounds::new(45, 5, 10, 20));
    assert_eq!(placements[1].rect, Bounds::new(55, 5, 10, 20));
}

#[test]
fn columns_place_children_downwards() {
    let mut parent = LayoutNode::new();
    parent.direction = Direction::Column;
    parent.align = Align::End;
    let mut child = LayoutNode::new();
    child.height = Length::Px(4);
    child.width = Length::Px(6);
    let children = vec![child, child];
    let measured = vec![Size::new(0, 0), Size::new(0, 0)];
    let placements =
        layout_children(&parent, &children, &measured, &measured, Bounds::new(0, 0, 10, 10));
    assert_eq!(placements[0].rect, Bounds::new(4, 0, 6, 4));
    assert_eq!(placements[1].rect, Bounds::new(4, 4, 6, 4));
}

#[test]
fn absolute_children_follow_flow_children() {
    let parent = LayoutNode::new();
    let mut overlay = px(10);
    overlay.height = Length::Px(10);
    overlay.position = Position::Absolute;
    overlay.inset = Inset { top: None, right: Some(5), bottom: Some(5), left: None };
    let children = vec![px(20), overlay];
    let measured = vec![Size::new(0, 4), Size::new(0, 0)];
    let placements =
        layout_children(&parent, &children, &measured, &measured, Bounds::new(0, 0, 100, 50));
    assert_eq!(placements.len(), 2);
    assert_eq!(placements[0].rect, Bounds::new(0, 0, 20, 4));
    assert_eq!(placements[1].index, 1);
    assert_eq!(placements[1].rect, Bounds::new(85, 35, 10, 10));
}

#[test]
fn absolute_fill_between_insets() {
    let mut child = LayoutNode::new();
    child.width = Length::Fill;
    child.height = Length::Px(3);
    child.position = Position::Absolute;
    child.inset = Inset::axis(10, 2);
    let rect = absolute_child_rect(&child, Bounds::new(0, 0, 100, 50), Size::new(0, 0));
    assert_eq!(rect, Bounds::new(10, 2, 80, 3));
}

#[test]
fn measuring_children_and_elements() {
    let mut parent = LayoutNode::new();
    parent.gap = 4;
    let children = vec![px(10), px(20)];
    let measured = vec![Size::new(0, 6), Size::new(0, 8)];
    assert_eq!(measure_children(&parent, &children, &measured, 100, 100), Size::new(34, 8));
    assert_eq!(measure_children(&parent, &children, &measured, 30, 5), Size::new(30, 5));

    let mut node = LayoutNode::new();
    node.padding = Spacing::axis(3, 1);
    assert_eq!(content_available(&node, 20, 10), (14, 8));
    assert_eq!(measure_element(&node, Size::new(5, 5), Size::new(8, 2), 100, 100), Size::new(14, 7));
    assert_eq!(measure_element(&node, Size::new(5, 5), Size::new(8, 2), 10, 100), Size::new(10, 7));
}

#[test]
fn measured_size_from_size() {
    assert_eq!(MeasuredSize::from_size(Size::new(3, 4)), MeasuredSize { width: 3, height: 4 });
    assert_eq!(Size::new(3, 4).axis(Direction::Column), 4);
    assert_eq!(Size::new(3, 4).cross(Direction::Column), 3);
}

#[test]
fn children_that_fit_stay_inside_the_content() {
    let content = Bounds::new(10, 0, 100, 20);
    for justify in [Align::Start, Align::Center, Align::End, Align::Stretch] {
        let mut parent = LayoutNode::new();
        parent.gap = 5;
        parent.justify = justify;
        let children = vec![px(20), px(30), px(40)];
        let measured = vec![Size::new(0, 0); 3];
        let placements = layout_children(&parent, &children, &measured, &measured, content);
        assert_eq!(placements.len(), 3);
        for placement in &placements {
            assert!(placement.rect.x >= content.x);
            assert!(placement.rect.x + placement.rect.width <= content.x + content.width);
        }
    }
    let mut parent = LayoutNode::new();
    parent.gap = 5;
    parent.justify = Align::End;
    let children = vec![px(20), px(30), px(40)];
    let measured = vec![Size::new(0, 0); 3];
    let placements = layout_children(&parent, &children, &measured, &measured, content);
    assert_eq!(placements[0].rect.x, 10);
    assert_eq!(placements[2].rect.x + placements[2].rect.width, 110);
}
