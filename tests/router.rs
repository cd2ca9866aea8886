use mocha_compositor::input::{ButtonState, KeyState, MouseButton, MouseButtonInput, RawButtonState};
use mocha_compositor::keyboard::{KeyCode, NamedKey};
use mocha_compositor::router::{
    convert_key_state, convert_keycode_logical, keyboard_input, FilterResult, InputRouter, Key,
    KeyboardInput, UiEvent,
};

#[test]
fn motion_events_keep_order_unmerged() {
    let mut router: InputRouter<(f64, f64)> = InputRouter::new();
    router.on_pointer_motion((3.0, -1.0));
    router.on_pointer_motion((-1.0, 2.0));
    let events = router.forward_events();
    assert_eq!(events, vec![UiEvent::MouseMotion((3.0, -1.0)), UiEvent::MouseMotion((-1.0, 2.0))]);
    assert_eq!(router.len(), 0);
    assert!(router.forward_events().is_empty());
}

#[test]
fn mixed_events_drain_in_arrival_order() {
    let mut router: InputRouter<(f64, f64)> = InputRouter::new();
    assert_eq!(router.on_key(38, Some('a'), KeyState::Pressed), FilterResult::Intercept);
    assert!(router.on_pointer_button(0x111, RawButtonState::Pressed));
    router.on_pointer_motion((0.5, 0.25));
    assert!(!router.on_pointer_button(100000, RawButtonState::Pressed));
    assert_eq!(router.len(), 3);
    let events = router.forward_events();
    assert_eq!(events.len(), 3);
    assert_eq!(
        events[0],
        UiEvent::KeyboardInput(KeyboardInput {
            key_code: KeyCode::KeyA,
            logical_key: Key::Character('a'),
            state: ButtonState::Pressed,
            text: Some('a'),
            repeat: false,
        })
    );
    assert_eq!(
        events[1],
        UiEvent::MouseButtonInput(MouseButtonInput { button: MouseButton::Right, state: ButtonState::Pressed })
    );
    assert_eq!(events[2], UiEvent::MouseMotion((0.5, 0.25)));
}

#[test]
fn key_without_text_uses_named_table() {
    let k = keyboard_input(66, None, KeyState::Released);
    assert_eq!(k.key_code, KeyCode::CapsLock);
    assert_eq!(k.logical_key, Key::Named(NamedKey::CapsLock));
    assert_eq!(k.state, ButtonState::Released);
    assert_eq!(k.text, None);
    assert!(!k.repeat);
}

#[test]
fn key_outside_tables_keeps_keycode() {
    let k = keyboard_input(300, None, KeyState::Pressed);
    assert_eq!(k.key_code, KeyCode::Unidentified(300));
    assert_eq!(k.logical_key, Key::Unidentified(300));
    // A letter key that produced no character has no name either.
    assert_eq!(convert_keycode_logical(38), Key::Unidentified(38));
    assert_eq!(convert_keycode_logical(9), Key::Named(NamedKey::Escape));
}

#[test]
fn character_is_preferred_over_named_key() {
    let k = keyboard_input(65, Some(' '), KeyState::Pressed);
    assert_eq!(k.key_code, KeyCode::Space);
    assert_eq!(k.logical_key, Key::Character(' '));
    assert_eq!(k.text, Some(' '));
}

#[test]
fn key_state_conversion() {
    assert_eq!(convert_key_state(KeyState::Pressed), ButtonState::Pressed);
    assert_eq!(convert_key_state(KeyState::Released), ButtonState::Released);
}
