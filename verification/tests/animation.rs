use simple_render::{Animation, Bounds, BoundsTransition, Easing, Edge, Offset};

#[test]
fn animations_complete_at_their_duration() {
    let animation = Animation::new(100, Easing::Linear);
    assert!(!animation.is_complete(99));
    assert!(animation.is_complete(100));
    assert!(Animation::new(0, Easing::EaseIn).is_complete(0));
    assert_eq!(Animation::default(), Animation { duration_ms: 160, easing: Easing::Default });
    assert_eq!(Easing::default(), Easing::Default);
}

#[test]
fn edges_give_slide_offsets() {
    let bounds = Bounds::new(0, 0, 30, 20);
    assert_eq!(Edge::Top.offset(bounds, None), Offset::new(0, -20));
    assert_eq!(Edge::Bottom.offset(bounds, None), Offset::new(0, 20));
    assert_eq!(Edge::Left.offset(bounds, None), Offset::new(-30, 0));
    assert_eq!(Edge::Right.offset(bounds, Some(7)), Offset::new(7, 0));
    assert_eq!(Edge::Right.offset(bounds, Some(u32::MAX)), Offset::new(i32::MAX, 0));
    assert_eq!(Edge::Top.offset(bounds, Some(u32::MAX)), Offset::new(0, -i32::MAX));
    assert_eq!(Offset::zero(), Offset::default());
}

#[test]
fn bounds_transition_keeps_its_ends() {
    let from = Bounds::new(0, 0, 1, 1);
    let to = Bounds::new(10, 10, 5, 5);
    let transition = BoundsTransition::new(Animation::default(), from, to);
    assert_eq!(transition.from, from);
    assert_eq!(transition.to, to);
}
