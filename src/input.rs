//! Normalisation of raw pointer and keyboard events into the host's form.

use vstd::prelude::*;

verus! {

/// Linux input-event code of the left pointer button.
pub const BTN_LEFT: u32 = 0x110;

/// Linux input-event code of the right pointer button.
pub const BTN_RIGHT: u32 = 0x111;

/// Linux input-event code of the middle pointer button.
pub const BTN_MIDDLE: u32 = 0x112;

/// Linux input-event code of the side pointer button.
pub const BTN_SIDE: u32 = 0x113;

/// Linux input-event code of the extra pointer button.
pub const BTN_EXTRA: u32 = 0x114;

/// Linux input-event code of the forward pointer button.
pub const BTN_FORWARD: u32 = 0x115;

/// Linux input-event code of the back pointer button.
pub const BTN_BACK: u32 = 0x116;

/// A pointer button as the input backend names it.
#[derive(Clone, Copy, Debug, PartialEq, Eq, Structural)]
pub enum PointerButton {
    Left,
    Middle,
    Right,
    Back,
    Forward,
}

/// Press state of a button as the input backend reports it.
#[derive(Clone, Copy, Debug, PartialEq, Eq, Structural)]
pub enum RawButtonState {
    Released,
    Pressed,
}

/// State of a key as the input backend reports it.
#[derive(Clone, Copy, Debug, PartialEq, Eq, Structural)]
pub enum KeyState {
    Released,
    Pressed,
}

/// A pointer button as the host application names it.
#[derive(Clone, Copy, Debug, PartialEq, Eq, Structural)]
pub enum MouseButton {
    Left,
    Right,
    Middle,
    Back,
    Forward,
    Other(u16),
}

/// Press state of a button or key as the host application names it.
#[derive(Clone, Copy, Debug, PartialEq, Eq, Structural)]
pub enum ButtonState {
    Pressed,
    Released,
}

/// A pointer button event in the host's form.
#[derive(Clone, Copy, Debug, PartialEq, Eq, Structural)]
pub struct MouseButtonInput {
    pub button: MouseButton,
    pub state: ButtonState,
}

/// The backend's button for an input-event code, if the code is one of the
/// standard pointer buttons.
pub open spec fn spec_pointer_button(code: u32) -> Option<PointerButton> {
    if code == BTN_LEFT {
        Some(PointerButton::Left)
    } else if code == BTN_RIGHT {
        Some(PointerButton::Right)
    } else if code == BTN_MIDDLE {
        Some(PointerButton::Middle)
    } else if code == BTN_BACK || code == BTN_SIDE {
        Some(PointerButton::Back)
    } else if code == BTN_FORWARD || code == BTN_EXTRA {
        Some(PointerButton::Forward)
    } else {
        None
    }
}

/// The host's button for a backend button.
pub open spec fn spec_convert_button(button: PointerButton) -> MouseButton {
    match button {
        PointerButton::Left => MouseButton::Left,
        PointerButton::Middle => MouseButton::Middle,
        PointerButton::Right => MouseButton::Right,
        PointerButton::Forward => MouseButton::Forward,
        PointerButton::Back => MouseButton::Back,
    }
}

/// The host's numbered button for a raw code, when the code fits its range.
pub open spec fn spec_button_code(code: u32) -> Option<MouseButton> {
    if code <= u16::MAX {
        Some(MouseButton::Other(code as u16))
    } else {
        None
    }
}

/// The host's button for a raw code: the fixed table first, the numbered
/// fallback second.
pub open spec fn spec_translate_button(code: u32) -> Option<MouseButton> {
    match spec_pointer_button(code) {
        Some(b) => Some(spec_convert_button(b)),
        None => spec_button_code(code),
    }
}

/// The host's form of a backend button state.
pub open spec fn spec_button_state(state: RawButtonState) -> ButtonState {
    match state {
        RawButtonState::Pressed => ButtonState::Pressed,
        RawButtonState::Released => ButtonState::Released,
    }
}

/// Maps an input-event code to the backend's standard pointer button.
pub fn pointer_button(code: u32) -> (r: Option<PointerButton>)
    ensures
        r == spec_pointer_button(code),
{
    if code == BTN_LEFT {
        Some(PointerButton::Left)
    } else if code == BTN_RIGHT {
        Some(PointerButton::Right)
    } else if code == BTN_MIDDLE {
        Some(PointerButton::Middle)
    } else if code == BTN_BACK || code == BTN_SIDE {
        Some(PointerButton::Back)
    } else if code == BTN_FORWARD || code == BTN_EXTRA {
        Some(PointerButton::Forward)
    } else {
        None
    }
}

/// Translates a backend button through the fixed button table.
pub fn convert_button(button: PointerButton) -> (r: Option<MouseButton>)
    ensures
        r == Some(spec_convert_button(button)),
{
    let b = match button {
        PointerButton::Left => MouseButton::Left,
        PointerButton::Middle => MouseButton::Middle,
        PointerButton::Right => MouseButton::Right,
        PointerButton::Forward => MouseButton::Forward,
        PointerButton::Back => MouseButton::Back,
    };
    Some(b)
}

/// Translates a backend button state.
pub fn convert_button_state(state: RawButtonState) -> (r: ButtonState)
    ensures
        r == spec_button_state(state),
{
    match state {
        RawButtonState::Pressed => ButtonState::Pressed,
        RawButtonState::Released => ButtonState::Released,
    }
}

/// The numbered fallback: a raw code that fits in 16 bits becomes
/// `MouseButton::Other` carrying that code; a larger one has no host form.
pub fn covert_button_code(code: u32) -> (r: Option<MouseButton>)
    ensures
        r == spec_button_code(code),
{
    if code <= u16::MAX as u32 {
        Some(MouseButton::Other(code as u16))
    } else {
        None
    }
}

/// Translates a raw pointer button event; `None` means the event is dropped.
pub fn convert_button_input(code: u32, state: RawButtonState) -> (r: Option<MouseButtonInput>)
    ensures
        r == match spec_translate_button(code) {
            Some(b) => Some(MouseButtonInput { button: b, state: spec_button_state(state) }),
            None => None::<MouseButtonInput>,
        },
{
    let button = match pointer_button(code) {
        Some(b) => convert_button(b),
        None => covert_button_code(code),
    };
    match button {
        Some(b) => Some(MouseButtonInput { button: b, state: convert_button_state(state) }),
        None => None,
    }
}

/// Any code outside the fixed table that fits in 16 bits is translated to the
/// numbered button carrying the same code, never dropped.
pub proof fn lemma_unmapped_code_is_numbered(code: u32)
    requires
        spec_pointer_button(code) is None,
        code <= u16::MAX,
    ensures
        spec_translate_button(code) == Some(MouseButton::Other(code as u16)),
        (MouseButton::Other(code as u16)->Other_0) as u32 == code,
{
}

} // verus!
