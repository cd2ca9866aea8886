//! The fixed keyboard tables: the physical key of each keymap keycode, and
//! the named logical key of the keys that produce no character.

use vstd::prelude::*;

verus! {

/// A physical key, by its position on a US layout.
#[derive(Clone, Copy, Debug, PartialEq, Eq, Structural)]
pub enum KeyCode {
    Escape,
    Digit1,
    Digit2,
    Digit3,
    Digit4,
    Digit5,
    Digit6,
    Digit7,
    Digit8,
    Digit9,
    Digit0,
    Minus,
    Equal,
    Backspace,
    Tab,
    KeyQ,
    KeyW,
    KeyE,
    KeyR,
    KeyT,
    KeyY,
    KeyU,
    KeyI,
    KeyO,
    KeyP,
    BracketLeft,
    BracketRight,
    Enter,
    ControlLeft,
    KeyA,
    KeyS,
    KeyD,
    KeyF,
    KeyG,
    KeyH,
    KeyJ,
    KeyK,
    KeyL,
    Semicolon,
    Quote,
    Backquote,
    ShiftLeft,
    Backslash,
    KeyZ,
    KeyX,
    KeyC,
    KeyV,
    KeyB,
    KeyN,
    KeyM,
    Comma,
    Period,
    Slash,
    ShiftRight,
    AltLeft,
    Space,
    CapsLock,
    F1,
    F2,
    F3,
    F4,
    F5,
    F6,
    F7,
    F8,
    F9,
    F10,
    F11,
    F12,
    ControlRight,
    AltRight,
    Home,
    ArrowUp,
    PageUp,
    ArrowLeft,
    ArrowRight,
    End,
    ArrowDown,
    PageDown,
    Insert,
    Delete,
    SuperLeft,
    SuperRight,
    /// A key outside the table, with its keymap keycode.
    Unidentified(u32),
}

/// A logical key that produces no character.
#[derive(Clone, Copy, Debug, PartialEq, Eq, Structural)]
pub enum NamedKey {
    Escape,
    Backspace,
    Tab,
    Enter,
    Control,
    Shift,
    Alt,
    Super,
    CapsLock,
    Space,
    Home,
    End,
    PageUp,
    PageDown,
    Insert,
    Delete,
    ArrowUp,
    ArrowDown,
    ArrowLeft,
    ArrowRight,
    F1,
    F2,
    F3,
    F4,
    F5,
    F6,
    F7,
    F8,
    F9,
    F10,
    F11,
    F12,
}

/// The physical key of a keymap keycode (the Linux input-event code plus
/// eight).
pub open spec fn spec_convert_keycode(code: u32) -> KeyCode {
    match code {
        9 => KeyCode::Escape,
        10 => KeyCode::Digit1,
        11 => KeyCode::Digit2,
        12 => KeyCode::Digit3,
        13 => KeyCode::Digit4,
        14 => KeyCode::Digit5,
        15 => KeyCode::Digit6,
        16 => KeyCode::Digit7,
        17 => KeyCode::Digit8,
        18 => KeyCode::Digit9,
        19 => KeyCode::Digit0,
        20 => KeyCode::Minus,
        21 => KeyCode::Equal,
        22 => KeyCode::Backspace,
        23 => KeyCode::Tab,
        24 => KeyCode::KeyQ,
        25 => KeyCode::KeyW,
        26 => KeyCode::KeyE,
        27 => KeyCode::KeyR,
        28 => KeyCode::KeyT,
        29 => KeyCode::KeyY,
        30 => KeyCode::KeyU,
        31 => KeyCode::KeyI,
        32 => KeyCode::KeyO,
        33 => KeyCode::KeyP,
        34 => KeyCode::BracketLeft,
        35 => KeyCode::BracketRight,
        36 => KeyCode::Enter,
        37 => KeyCode::ControlLeft,
        38 => KeyCode::KeyA,
        39 => KeyCode::KeyS,
        40 => KeyCode::KeyD,
        41 => KeyCode::KeyF,
        42 => KeyCode::KeyG,
        43 => KeyCode::KeyH,
        44 => KeyCode::KeyJ,
        45 => KeyCode::KeyK,
        46 => KeyCode::KeyL,
        47 => KeyCode::Semicolon,
        48 => KeyCode::Quote,
        49 => KeyCode::Backquote,
        50 => KeyCode::ShiftLeft,
        51 => KeyCode::Backslash,
        52 => KeyCode::KeyZ,
        53 => KeyCode::KeyX,
        54 => KeyCode::KeyC,
        55 => KeyCode::KeyV,
        56 => KeyCode::KeyB,
        57 => KeyCode::KeyN,
        58 => KeyCode::KeyM,
        59 => KeyCode::Comma,
        60 => KeyCode::Period,
        61 => KeyCode::Slash,
        62 => KeyCode::ShiftRight,
        64 => KeyCode::AltLeft,
        65 => KeyCode::Space,
        66 => KeyCode::CapsLock,
        67 => KeyCode::F1,
        68 => KeyCode::F2,
        69 => KeyCode::F3,
        70 => KeyCode::F4,
        71 => KeyCode::F5,
        72 => KeyCode::F6,
        73 => KeyCode::F7,
        74 => KeyCode::F8,
        75 => KeyCode::F9,
        76 => KeyCode::F10,
        95 => KeyCode::F11,
        96 => KeyCode::F12,
        105 => KeyCode::ControlRight,
        108 => KeyCode::AltRight,
        110 => KeyCode::Home,
        111 => KeyCode::ArrowUp,
        112 => KeyCode::PageUp,
        113 => KeyCode::ArrowLeft,
        114 => KeyCode::ArrowRight,
        115 => KeyCode::End,
        116 => KeyCode::ArrowDown,
        117 => KeyCode::PageDown,
        118 => KeyCode::Insert,
        119 => KeyCode::Delete,
        133 => KeyCode::SuperLeft,
        134 => KeyCode::SuperRight,
        _ => KeyCode::Unidentified(code),
    }
}

/// The named logical key of a physical key, for keys that have one.
pub open spec fn spec_named_key(key: KeyCode) -> Option<NamedKey> {
    match key {
        KeyCode::Escape => Some(NamedKey::Escape),
        KeyCode::Backspace => Some(NamedKey::Backspace),
        KeyCode::Tab => Some(NamedKey::Tab),
        KeyCode::Enter => Some(NamedKey::Enter),
        KeyCode::ControlLeft => Some(NamedKey::Control),
        KeyCode::ShiftLeft => Some(NamedKey::Shift),
        KeyCode::ShiftRight => Some(NamedKey::Shift),
        KeyCode::AltLeft => Some(NamedKey::Alt),
        KeyCode::Space => Some(NamedKey::Space),
        KeyCode::CapsLock => Some(NamedKey::CapsLock),
        KeyCode::F1 => Some(NamedKey::F1),
        KeyCode::F2 => Some(NamedKey::F2),
        KeyCode::F3 => Some(NamedKey::F3),
        KeyCode::F4 => Some(NamedKey::F4),
        KeyCode::F5 => Some(NamedKey::F5),
        KeyCode::F6 => Some(NamedKey::F6),
        KeyCode::F7 => Some(NamedKey::F7),
        KeyCode::F8 => Some(NamedKey::F8),
        KeyCode::F9 => Some(NamedKey::F9),
        KeyCode::F10 => Some(NamedKey::F10),
        KeyCode::F11 => Some(NamedKey::F11),
        KeyCode::F12 => Some(NamedKey::F12),
        KeyCode::ControlRight => Some(NamedKey::Control),
        KeyCode::AltRight => Some(NamedKey::Alt),
        KeyCode::Home => Some(NamedKey::Home),
        KeyCode::ArrowUp => Some(NamedKey::ArrowUp),
        KeyCode::PageUp => Some(NamedKey::PageUp),
        KeyCode::ArrowLeft => Some(NamedKey::ArrowLeft),
        KeyCode::ArrowRight => Some(NamedKey::ArrowRight),
        KeyCode::End => Some(NamedKey::End),
        KeyCode::ArrowDown => Some(NamedKey::ArrowDown),
        KeyCode::PageDown => Some(NamedKey::PageDown),
        KeyCode::Insert => Some(NamedKey::Insert),
        KeyCode::Delete => Some(NamedKey::Delete),
        KeyCode::SuperLeft => Some(NamedKey::Super),
        KeyCode::SuperRight => Some(NamedKey::Super),
        _ => None,
    }
}

/// Looks a keymap keycode up in the physical-key table.
pub fn convert_keycode(code: u32) -> (r: KeyCode)
    ensures
        r == spec_convert_keycode(code),
{
    match code {
        9 => KeyCode::Escape,
        10 => KeyCode::Digit1,
        11 => KeyCode::Digit2,
        12 => KeyCode::Digit3,
        13 => KeyCode::Digit4,
        14 => KeyCode::Digit5,
        15 => KeyCode::Digit6,
        16 => KeyCode::Digit7,
        17 => KeyCode::Digit8,
        18 => KeyCode::Digit9,
        19 => KeyCode::Digit0,
        20 => KeyCode::Minus,
        21 => KeyCode::Equal,
        22 => KeyCode::Backspace,
        23 => KeyCode::Tab,
        24 => KeyCode::KeyQ,
        25 => KeyCode::KeyW,
        26 => KeyCode::KeyE,
        27 => KeyCode::KeyR,
        28 => KeyCode::KeyT,
        29 => KeyCode::KeyY,
        30 => KeyCode::KeyU,
        31 => KeyCode::KeyI,
        32 => KeyCode::KeyO,
        33 => KeyCode::KeyP,
        34 => KeyCode::BracketLeft,
        35 => KeyCode::BracketRight,
        36 => KeyCode::Enter,
        37 => KeyCode::ControlLeft,
        38 => KeyCode::KeyA,
        39 => KeyCode::KeyS,
        40 => KeyCode::KeyD,
        41 => KeyCode::KeyF,
        42 => KeyCode::KeyG,
        43 => KeyCode::KeyH,
        44 => KeyCode::KeyJ,
        45 => KeyCode::KeyK,
        46 => KeyCode::KeyL,
        47 => KeyCode::Semicolon,
        48 => KeyCode::Quote,
        49 => KeyCode::Backquote,
        50 => KeyCode::ShiftLeft,
        51 => KeyCode::Backslash,
        52 => KeyCode::KeyZ,
        53 => KeyCode::KeyX,
        54 => KeyCode::KeyC,
        55 => KeyCode::KeyV,
        56 => KeyCode::KeyB,
        57 => KeyCode::KeyN,
        58 => KeyCode::KeyM,
        59 => KeyCode::Comma,
        60 => KeyCode::Period,
        61 => KeyCode::Slash,
        62 => KeyCode::ShiftRight,
        64 => KeyCode::AltLeft,
        65 => KeyCode::Space,
        66 => KeyCode::CapsLock,
        67 => KeyCode::F1,
        68 => KeyCode::F2,
        69 => KeyCode::F3,
        70 => KeyCode::F4,
        71 => KeyCode::F5,
        72 => KeyCode::F6,
        73 => KeyCode::F7,
        74 => KeyCode::F8,
        75 => KeyCode::F9,
        76 => KeyCode::F10,
        95 => KeyCode::F11,
        96 => KeyCode::F12,
        105 => KeyCode::ControlRight,
        108 => KeyCode::AltRight,
        110 => KeyCode::Home,
        111 => KeyCode::ArrowUp,
        112 => KeyCode::PageUp,
        113 => KeyCode::ArrowLeft,
        114 => KeyCode::ArrowRight,
        115 => KeyCode::End,
        116 => KeyCode::ArrowDown,
        117 => KeyCode::PageDown,
        118 => KeyCode::Insert,
        119 => KeyCode::Delete,
        133 => KeyCode::SuperLeft,
        134 => KeyCode::SuperRight,
        _ => KeyCode::Unidentified(code),
    }
}

/// Looks a physical key up in the named-key table.
pub fn named_key(key: KeyCode) -> (r: Option<NamedKey>)
    ensures
        r == spec_named_key(key),
{
    match key {
        KeyCode::Escape => Some(NamedKey::Escape),
        KeyCode::Backspace => Some(NamedKey::Backspace),
        KeyCode::Tab => Some(NamedKey::Tab),
        KeyCode::Enter => Some(NamedKey::Enter),
        KeyCode::ControlLeft => Some(NamedKey::Control),
        KeyCode::ShiftLeft => Some(NamedKey::Shift),
        KeyCode::ShiftRight => Some(NamedKey::Shift),
        KeyCode::AltLeft => Some(NamedKey::Alt),
        KeyCode::Space => Some(NamedKey::Space),
        KeyCode::CapsLock => Some(NamedKey::CapsLock),
        KeyCode::F1 => Some(NamedKey::F1),
        KeyCode::F2 => Some(NamedKey::F2),
        KeyCode::F3 => Some(NamedKey::F3),
        KeyCode::F4 => Some(NamedKey::F4),
        KeyCode::F5 => Some(NamedKey::F5),
        KeyCode::F6 => Some(NamedKey::F6),
        KeyCode::F7 => Some(NamedKey::F7),
        KeyCode::F8 => Some(NamedKey::F8),
        KeyCode::F9 => Some(NamedKey::F9),
        KeyCode::F10 => Some(NamedKey::F10),
        KeyCode::F11 => Some(NamedKey::F11),
        KeyCode::F12 => Some(NamedKey::F12),
        KeyCode::ControlRight => Some(NamedKey::Control),
        KeyCode::AltRight => Some(NamedKey::Alt),
        KeyCode::Home => Some(NamedKey::Home),
        KeyCode::ArrowUp => Some(NamedKey::ArrowUp),
        KeyCode::PageUp => Some(NamedKey::PageUp),
        KeyCode::ArrowLeft => Some(NamedKey::ArrowLeft),
        KeyCode::ArrowRight => Some(NamedKey::ArrowRight),
        KeyCode::End => Some(NamedKey::End),
        KeyCode::ArrowDown => Some(NamedKey::ArrowDown),
        KeyCode::PageDown => Some(NamedKey::PageDown),
        KeyCode::Insert => Some(NamedKey::Insert),
        KeyCode::Delete => Some(NamedKey::Delete),
        KeyCode::SuperLeft => Some(NamedKey::Super),
        KeyCode::SuperRight => Some(NamedKey::Super),
        _ => None,
    }
}

} // verus!
