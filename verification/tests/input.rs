use simple_render::input::{KEY_F1, KEY_KP_0, KEY_RETURN};
use simple_render::input_state::{
    interaction_style_for, path_starts_with, pointer_targets, same_path, InteractionStyle, PointerPhase,
};
use simple_render::{
    Bounds, Hit, InputState, Key, KeyState, KeyboardEvent, KeyboardEventKind, KeyboardModifiers,
    KeyboardState, PointerButtonState, SurfaceId, WidgetId, WidgetInteraction,
};

fn hit(path: Vec<usize>) -> Hit {
    Hit { path, bounds: Bounds::new(1, 2, 3, 4) }
}

fn event(surface: u64, kind: KeyboardEventKind) -> KeyboardEvent {
    KeyboardEvent { surface: Some(SurfaceId(surface)), time: None, serial: None, kind }
}

#[test]
fn keysyms_become_keys() {
    assert_eq!(Key::from_keysym(0x61), Key::Character('a'));
    assert_eq!(Key::from_keysym(0xe9), Key::Character('é'));
    assert_eq!(Key::from_keysym(KEY_RETURN), Key::Enter);
    assert_eq!(Key::from_keysym(0xff8d), Key::Enter);
    assert_eq!(Key::from_keysym(KEY_F1), Key::Function(1));
    assert_eq!(Key::from_keysym(KEY_F1 + 4), Key::Function(5));
    assert_eq!(Key::from_keysym(KEY_KP_0 + 3), Key::Numpad(3));
    assert_eq!(Key::from_keysym(0xffe1), Key::ShiftLeft);
    assert_eq!(Key::from_keysym(0xff51), Key::ArrowLeft);
}

#[test]
fn keysyms_without_a_name_use_their_character() {
    assert_eq!(Key::from_keysym(0x10020ac), Key::Character('€'));
    assert_eq!(Key::from_keysym(0x1234_5678), Key::Unknown(0x1234_5678));
}

#[test]
fn modifier_keys() {
    assert!(Key::ShiftLeft.is_modifier());
    assert!(Key::MetaRight.is_modifier());
    assert!(!Key::Character('a').is_modifier());
    assert!(!Key::CapsLock.is_modifier());
}

#[test]
fn widget_ids_compare_by_text() {
    let a = WidgetId::from_str("save");
    let b = WidgetId::new(String::from("save"));
    assert_eq!(a, b);
    assert!(a.same(&b));
    assert_eq!(a.as_str(), "save");
    assert!(!a.same(&WidgetId::from_str("load")));
    assert_eq!(a.clone(), a);
    assert_eq!(WidgetId::default().as_str(), "");
}

#[test]
fn keyboard_leave_clears_focus_only_on_its_surface() {
    let mut keyboard = KeyboardState::default();
    keyboard.focused = Some(WidgetId::from_str("field"));
    assert!(keyboard.handle_event(event(1, KeyboardEventKind::Enter {
        pressed_keycodes: Vec::new(),
        pressed_keysyms: Vec::new(),
    })));
    assert_eq!(keyboard.surface, Some(SurfaceId(1)));
    keyboard.handle_event(event(2, KeyboardEventKind::Leave));
    assert_eq!(keyboard.focused, Some(WidgetId::from_str("field")));
    assert_eq!(keyboard.surface, Some(SurfaceId(1)));
    keyboard.handle_event(event(1, KeyboardEventKind::Leave));
    assert_eq!(keyboard.focused, None);
    assert_eq!(keyboard.surface, None);
    assert_eq!(keyboard.events.len(), 3);
}

#[test]
fn keyboard_modifiers_are_replaced() {
    let mut keyboard = KeyboardState::default();
    let modifiers = KeyboardModifiers { ctrl: true, alt: false, shift: true, caps_lock: false, logo: false, num_lock: true };
    keyboard.handle_event(event(1, KeyboardEventKind::Modifiers { modifiers, layout: 0 }));
    assert_eq!(keyboard.modifiers, modifiers);
    keyboard.handle_event(event(1, KeyboardEventKind::Key {
        state: KeyState::Pressed,
        raw_code: 30,
        keysym: 0x61,
        key: Key::Character('a'),
        utf8: Some(String::from("a")),
    }));
    assert_eq!(keyboard.modifiers, modifiers);
    assert_eq!(keyboard.events.len(), 2);
}

#[test]
fn press_and_release_on_the_same_widget_clicks_it() {
    let ok = WidgetId::from_str("ok");
    let mut input = InputState::new();
    input.set_hovered(Some(hit(vec![0, 1])), Some(ok.clone()));
    assert!(input.is_hovered(&ok));
    assert!(input.pointer_button(272, PointerButtonState::Pressed));
    assert!(input.is_pressed(&ok));
    assert_eq!(input.pointer().pressed_button, Some(272));
    assert_eq!(input.pointer().pressed.as_ref().map(|h| h.path.clone()), Some(vec![0, 1]));
    input.pointer_button(272, PointerButtonState::Released);
    assert!(input.was_clicked(&ok));
    assert_eq!(input.clicked_id(), Some(&ok));
    assert_eq!(input.active(), None);
    assert_eq!(
        input.interaction(&ok),
        WidgetInteraction { hovered: true, pressed: false, clicked: true, focused: false, disabled: false }
    );
    assert!(input.consume_click(&ok));
    assert!(!input.consume_click(&ok));
}

#[test]
fn release_elsewhere_or_with_another_button_does_not_click() {
    let ok = WidgetId::from_str("ok");
    let mut input = InputState::new();
    input.set_hovered(Some(hit(vec![0])), Some(ok.clone()));
    input.pointer_button(1, PointerButtonState::Pressed);
    input.set_hovered(Some(hit(vec![1])), Some(WidgetId::from_str("cancel")));
    input.pointer_button(1, PointerButtonState::Released);
    assert_eq!(input.clicked_id(), None);

    input.set_hovered(Some(hit(vec![0])), Some(ok.clone()));
    input.pointer_button(1, PointerButtonState::Pressed);
    input.pointer_button(2, PointerButtonState::Released);
    assert_eq!(input.clicked_id(), None);
    assert!(!input.is_pressed(&ok));
}

#[test]
fn pointer_leaving_clears_the_hover() {
    let mut input = InputState::new();
    assert!(!input.pointer_left(false));
    assert!(input.pointer_moved(SurfaceId(3), false));
    assert!(!input.pointer_moved(SurfaceId(3), false));
    assert!(input.pointer_moved(SurfaceId(3), true));
    input.set_hovered(Some(hit(vec![2])), Some(WidgetId::from_str("x")));
    assert!(input.pointer_left(false));
    assert_eq!(input.hot(), None);
    assert!(input.pointer().hovered.is_none());
    assert_eq!(input.pointer().surface, None);
}

#[test]
fn focus_and_frame_events() {
    let mut input = InputState::new();
    input.set_focus(WidgetId::from_str("name"));
    assert_eq!(input.focused(), Some(&WidgetId::from_str("name")));
    assert!(input.interaction(&WidgetId::from_str("name")).focused);
    input.handle_keyboard_event(event(1, KeyboardEventKind::Leave));
    assert_eq!(input.keyboard().events.len(), 1);
    assert_eq!(input.focused(), Some(&WidgetId::from_str("name")));
    input.clear_frame_events();
    assert_eq!(input.keyboard().events.len(), 0);
    input.clear_focus();
    assert_eq!(input.focused(), None);
}

#[test]
fn input_state_tracks_keyboard_surface_and_modifiers() {
    let mut input = InputState::new();
    input.set_focus(WidgetId::from_str("name"));
    assert!(input.handle_keyboard_event(event(
        4,
        KeyboardEventKind::Enter { pressed_keycodes: vec![], pressed_keysyms: vec![] },
    )));
    assert_eq!(input.keyboard().surface, Some(SurfaceId(4)));
    let shifted = KeyboardModifiers { shift: true, ..KeyboardModifiers::default() };
    input.handle_keyboard_event(event(4, KeyboardEventKind::Modifiers { modifiers: shifted, layout: 0 }));
    assert_eq!(input.keyboard().modifiers, shifted);
    assert_eq!(input.keyboard().surface, Some(SurfaceId(4)));
    input.handle_keyboard_event(event(5, KeyboardEventKind::Leave));
    assert_eq!(input.keyboard().surface, Some(SurfaceId(4)));
    assert_eq!(input.focused(), Some(&WidgetId::from_str("name")));
    input.handle_keyboard_event(event(4, KeyboardEventKind::Leave));
    assert_eq!(input.keyboard().surface, None);
    assert_eq!(input.focused(), None);
    assert_eq!(input.keyboard().modifiers, shifted);
    assert_eq!(input.keyboard().events.len(), 4);
}

#[test]
fn pointer_targets_drag_and_click() {
    let pressed = Some(hit(vec![0, 2]));
    let hovered = Some(hit(vec![0, 2]));
    let other = Some(hit(vec![1]));
    let released = pointer_targets(PointerPhase::Released, &pressed, &None, &hovered);
    assert_eq!(released.click.map(|h| h.path), Some(vec![0, 2]));
    assert!(released.drag.is_none());
    let elsewhere = pointer_targets(PointerPhase::Released, &pressed, &None, &other);
    assert!(elsewhere.click.is_none());
    let motion = pointer_targets(PointerPhase::Motion, &None, &pressed, &other);
    assert_eq!(motion.drag.map(|h| h.path), Some(vec![0, 2]));
    let hover_drag = pointer_targets(PointerPhase::Pressed, &None, &None, &other);
    assert_eq!(hover_drag.drag.map(|h| h.path), Some(vec![1]));
    let scroll = pointer_targets(PointerPhase::Scroll, &pressed, &pressed, &hovered);
    assert!(scroll.drag.is_none() && scroll.click.is_none());
    assert!(same_path(&vec![1, 2], &vec![1, 2]));
    assert!(!same_path(&vec![1, 2], &vec![1]));
}

#[test]
fn interaction_styles_follow_the_pointer_into_children() {
    let hovered = Some(hit(vec![0, 1, 2]));
    let pressed = Some(hit(vec![0, 3]));
    assert_eq!(interaction_style_for(&vec![0], &hovered, &pressed), InteractionStyle::Pressed);
    assert_eq!(interaction_style_for(&vec![0, 1], &hovered, &pressed), InteractionStyle::Hovered);
    assert_eq!(interaction_style_for(&vec![1], &hovered, &pressed), InteractionStyle::Unchanged);
    assert_eq!(interaction_style_for(&vec![], &None, &None), InteractionStyle::Unchanged);
    assert!(path_starts_with(&vec![4, 5], &vec![]));
    assert!(!path_starts_with(&vec![4], &vec![4, 5]));
}

#[test]
fn unicode_keysyms_become_their_characters() {
    assert_eq!(Key::from_keysym(0x010020ac), Key::Character('€'));
    assert_eq!(Key::from_keysym(0x01000041), Key::Character('A'));
    assert_eq!(Key::from_keysym(0x0100d800), Key::Unknown(0x0100d800));
    assert_eq!(Key::from_keysym_char(7, Some('x')), Key::Character('x'));
    assert_eq!(Key::from_keysym_char(7, None), Key::Unknown(7));
}

#[test]
fn widget_ids_from_numbers_are_their_decimal_text() {
    assert_eq!(WidgetId::from(42u64).as_str(), "42");
    assert_eq!(WidgetId::from(0u64).as_str(), "0");
    assert_eq!(WidgetId::from(u64::MAX).as_str(), "18446744073709551615");
    assert_eq!(WidgetId::from(7u64), WidgetId::from("7"));
}
