use mocha_compositor::input::{
    convert_button, convert_button_input, convert_button_state, covert_button_code, pointer_button,
    ButtonState, MouseButton, MouseButtonInput, PointerButton, RawButtonState, BTN_BACK, BTN_EXTRA,
    BTN_FORWARD, BTN_LEFT, BTN_MIDDLE, BTN_RIGHT, BTN_SIDE,
};

#[test]
fn pointer_button_table() {
    assert_eq!(pointer_button(0x110), Some(PointerButton::Left));
    assert_eq!(pointer_button(BTN_RIGHT), Some(PointerButton::Right));
    assert_eq!(pointer_button(BTN_MIDDLE), Some(PointerButton::Middle));
    assert_eq!(pointer_button(BTN_SIDE), Some(PointerButton::Back));
    assert_eq!(pointer_button(BTN_BACK), Some(PointerButton::Back));
    assert_eq!(pointer_button(BTN_EXTRA), Some(PointerButton::Forward));
    assert_eq!(pointer_button(BTN_FORWARD), Some(PointerButton::Forward));
    assert_eq!(pointer_button(0x117), None);
    assert_eq!(pointer_button(0), None);
}

#[test]
fn convert_button_maps_each_variant() {
    assert_eq!(convert_button(PointerButton::Left), Some(MouseButton::Left));
    assert_eq!(convert_button(PointerButton::Right), Some(MouseButton::Right));
    assert_eq!(convert_button(PointerButton::Middle), Some(MouseButton::Middle));
    assert_eq!(convert_button(PointerButton::Back), Some(MouseButton::Back));
    assert_eq!(convert_button(PointerButton::Forward), Some(MouseButton::Forward));
}

#[test]
fn convert_button_state_maps_both() {
    assert_eq!(convert_button_state(RawButtonState::Pressed), ButtonState::Pressed);
    assert_eq!(convert_button_state(RawButtonState::Released), ButtonState::Released);
}

#[test]
fn button_code_fallback_keeps_code() {
    assert_eq!(covert_button_code(0x117), Some(MouseButton::Other(0x117)));
    assert_eq!(covert_button_code(0), Some(MouseButton::Other(0)));
    assert_eq!(covert_button_code(65535), Some(MouseButton::Other(65535)));
    assert_eq!(covert_button_code(65536), None);
}

#[test]
fn unmapped_code_becomes_numbered_button() {
    for code in [0u32, 1, 0x10f, 0x117, 0x118, 0x200, 40000, 65535] {
        let event = convert_button_input(code, RawButtonState::Pressed).unwrap();
        assert_eq!(event.button, MouseButton::Other(code as u16));
        assert_eq!(event.state, ButtonState::Pressed);
    }
}

#[test]
fn button_input_prefers_table() {
    assert_eq!(
        convert_button_input(BTN_LEFT, RawButtonState::Released),
        Some(MouseButtonInput { button: MouseButton::Left, state: ButtonState::Released })
    );
    assert_eq!(
        convert_button_input(BTN_SIDE, RawButtonState::Pressed),
        Some(MouseButtonInput { button: MouseButton::Back, state: ButtonState::Pressed })
    );
}

#[test]
fn button_input_out_of_range_is_dropped() {
    assert_eq!(convert_button_input(70000, RawButtonState::Pressed), None);
    assert_eq!(convert_button_input(u32::MAX, RawButtonState::Released), None);
}
