use mocha_compositor::input::KeyState;
use mocha_compositor::seat::{Capabilities, CursorImage, Seat};

#[test]
fn presses_then_releases_leave_nothing_pressed() {
    let mut seat = Seat::new();
    let keys = [30u32, 31, 32, 30, 57];
    for k in keys {
        seat.key_input(k, KeyState::Pressed);
    }
    assert_eq!(seat.pressed_count(), 4);
    assert!(seat.is_pressed(57));
    for k in [57u32, 30, 32, 31, 30] {
        seat.key_input(k, KeyState::Released);
    }
    assert_eq!(seat.pressed_count(), 0);
    assert!(!seat.is_pressed(30));
}

#[test]
fn release_of_unpressed_key_is_harmless() {
    let mut seat = Seat::new();
    seat.key_input(5, KeyState::Released);
    assert_eq!(seat.pressed_count(), 0);
    seat.key_input(5, KeyState::Pressed);
    seat.key_input(6, KeyState::Released);
    assert!(seat.is_pressed(5));
    assert_eq!(seat.pressed_count(), 1);
}

#[test]
fn focus_defaults_to_none_and_is_stored() {
    let mut seat = Seat::new();
    assert_eq!(seat.keyboard_focus(), None);
    assert_eq!(seat.pointer_focus(), None);
    assert_eq!(seat.touch_focus(), None);
    seat.set_keyboard_focus(Some(3));
    seat.set_pointer_focus(Some(4));
    seat.set_touch_focus(Some(5));
    assert_eq!(seat.keyboard_focus(), Some(3));
    assert_eq!(seat.pointer_focus(), Some(4));
    assert_eq!(seat.touch_focus(), Some(5));
    seat.set_keyboard_focus(None);
    assert_eq!(seat.keyboard_focus(), None);
    assert_eq!(seat.pointer_focus(), Some(4));
}

#[test]
fn drag_and_drop_bookkeeping() {
    let mut seat = Seat::new();
    seat.started(Some(1), None);
    seat.dropped(Some(9), true);
    seat.started(None, Some(2));
    seat.dropped(None, false);
    assert_eq!(seat.pressed_count(), 0);
}

#[test]
fn tablet_tool_image_is_stored() {
    let mut seat = Seat::new();
    assert!(seat.tool_image(7).is_none());
    seat.tablet_tool_image(7, CursorImage::Named("crosshair".to_string()));
    assert!(matches!(seat.tool_image(7), Some(CursorImage::Named(n)) if n == "crosshair"));
    seat.tablet_tool_image(7, CursorImage::Hidden);
    assert!(matches!(seat.tool_image(7), Some(CursorImage::Hidden)));
    seat.tablet_tool_image(8, CursorImage::Surface(3));
    assert!(matches!(seat.tool_image(8), Some(CursorImage::Surface(3))));
}

#[test]
fn capabilities_start_empty_and_accumulate() {
    let mut seat = Seat::new();
    assert_eq!(seat.capabilities(), Capabilities { pointer: false, keyboard: false, touch: false });
    seat.add_pointer();
    seat.add_keyboard();
    assert_eq!(seat.capabilities(), Capabilities { pointer: true, keyboard: true, touch: false });
    seat.add_touch();
    assert!(seat.capabilities().touch);
}
