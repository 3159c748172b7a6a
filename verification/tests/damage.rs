use simple_render::damage::{union_optional_bounds, DamageHistory, MAX_DAMAGE_HISTORY};
use simple_render::Bounds;

#[test]
fn optional_bounds_union() {
    let a = Bounds::new(0, 0, 2, 2);
    let b = Bounds::new(4, 4, 2, 2);
    assert_eq!(union_optional_bounds(Some(a), Some(b)), Some(Bounds::new(0, 0, 6, 6)));
    assert_eq!(union_optional_bounds(Some(a), None), Some(a));
    assert_eq!(union_optional_bounds(None, Some(b)), Some(b));
    assert_eq!(union_optional_bounds(None, None), None);
}

#[test]
fn a_buffer_is_repainted_where_later_frames_drew() {
    let mut history = DamageHistory::new();
    let first = history.record(Some(Bounds::new(0, 0, 1, 1)));
    let second = history.record(Some(Bounds::new(5, 5, 1, 1)));
    let third = history.record(None);
    assert_eq!((first, second, third), (1, 2, 3));
    assert_eq!(history.sequence(), 3);
    assert_eq!(history.buffer_age_repaint(first, None), Some(Bounds::new(5, 5, 1, 1)));
    assert_eq!(
        history.buffer_age_repaint(first, Some(Bounds::new(2, 2, 1, 1))),
        Some(Bounds::new(2, 2, 4, 4))
    );
    assert_eq!(history.buffer_age_repaint(third, None), None);
    assert_eq!(history.buffer_age_repaint(third, Some(Bounds::new(7, 7, 1, 1))), Some(Bounds::new(7, 7, 1, 1)));
}

#[test]
fn a_buffer_older_than_the_history_is_repainted_whole() {
    let mut history = DamageHistory::new();
    for i in 0..(MAX_DAMAGE_HISTORY as u32 + 2) {
        history.record(Some(Bounds::new(i, 0, 1, 1)));
    }
    assert_eq!(history.sequence(), 6);
    assert_eq!(history.buffer_age_repaint(1, Some(Bounds::new(0, 0, 1, 1))), None);
    assert_eq!(history.buffer_age_repaint(2, None), None);
    assert_eq!(history.buffer_age_repaint(3, None), Some(Bounds::new(3, 0, 3, 1)));
    history.clear();
    assert_eq!(history.buffer_age_repaint(0, None), None);
    assert_eq!(history.record(None), 7);
}
