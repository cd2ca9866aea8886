//! The per-tick input queue: translated events wait here, in arrival order,
//! until the host drains them once per tick.

use vstd::prelude::*;
use crate::keyboard::{KeyCode, NamedKey, convert_keycode, named_key, spec_convert_keycode, spec_named_key};
use crate::input::{
    ButtonState, KeyState, MouseButtonInput, RawButtonState, convert_button_input, spec_button_state,
    spec_translate_button,
};

verus! {

/// The logical meaning of a key.
#[derive(Clone, Copy, Debug, PartialEq, Eq, Structural)]
pub enum Key {
    /// The key produced this character under the active keymap.
    Character(char),
    /// A key that produces no character, from the named-key table.
    Named(NamedKey),
    /// The key produced no character and has no name; its keymap keycode is
    /// kept.
    Unidentified(u32),
}

/// A keyboard event in the host's form.
#[derive(Clone, Copy, Debug, PartialEq, Eq, Structural)]
pub struct KeyboardInput {
    /// The physical key, from the physical-key table.
    pub key_code: KeyCode,
    pub logical_key: Key,
    pub state: ButtonState,
    pub text: Option<char>,
    pub repeat: bool,
}

/// What the keyboard filter tells the seat about a key.
#[derive(Clone, Copy, Debug, PartialEq, Eq, Structural)]
pub enum FilterResult {
    /// The key is consumed here and not delivered to a client.
    Intercept,
    /// The key goes on to the focused client.
    Forward,
}

/// A translated input event; motion carries the host's delta type `M`.
#[derive(Debug, PartialEq)]
pub enum UiEvent<M> {
    KeyboardInput(KeyboardInput),
    MouseButtonInput(MouseButtonInput),
    MouseMotion(M),
}

/// The host's form of a key state.
pub open spec fn spec_key_state(state: KeyState) -> ButtonState {
    match state {
        KeyState::Pressed => ButtonState::Pressed,
        KeyState::Released => ButtonState::Released,
    }
}

/// The logical key of a keycode that produced no character.
pub open spec fn spec_logical_fallback(keycode: u32) -> Key {
    match spec_named_key(spec_convert_keycode(keycode)) {
        Some(n) => Key::Named(n),
        None => Key::Unidentified(keycode),
    }
}

/// The host event for a key with keymap keycode `keycode` that produced
/// `text`, if anything.
pub open spec fn spec_keyboard_input(keycode: u32, text: Option<char>, state: KeyState) -> KeyboardInput {
    KeyboardInput {
        key_code: spec_convert_keycode(keycode),
        logical_key: match text {
            Some(c) => Key::Character(c),
            None => spec_logical_fallback(keycode),
        },
        state: spec_key_state(state),
        text,
        repeat: false,
    }
}

/// Translates a key state.
pub fn convert_key_state(state: KeyState) -> (r: ButtonState)
    ensures
        r == spec_key_state(state),
{
    match state {
        KeyState::Pressed => ButtonState::Pressed,
        KeyState::Released => ButtonState::Released,
    }
}

/// Looks up the logical key of a keycode that produced no character.
pub fn convert_keycode_logical(keycode: u32) -> (r: Key)
    ensures
        r == spec_logical_fallback(keycode),
{
    match named_key(convert_keycode(keycode)) {
        Some(n) => Key::Named(n),
        None => Key::Unidentified(keycode),
    }
}

/// Builds the host event for a key: the physical key from the fixed table;
/// the produced character preferred as logical key, the named-key table
/// otherwise; never a repeat.
pub fn keyboard_input(keycode: u32, text: Option<char>, state: KeyState) -> (r: KeyboardInput)
    ensures
        r == spec_keyboard_input(keycode, text, state),
{
    let logical_key = match text {
        Some(c) => Key::Character(c),
        None => convert_keycode_logical(keycode),
    };
    KeyboardInput {
        key_code: convert_keycode(keycode),
        logical_key,
        state: convert_key_state(state),
        text,
        repeat: false,
    }
}

/// The queue of translated events of the current tick.
pub struct InputRouter<M> {
    ui_events: Vec<UiEvent<M>>,
}

impl<M> View for InputRouter<M> {
    type V = Seq<UiEvent<M>>;

    closed spec fn view(&self) -> Seq<UiEvent<M>> {
        self.ui_events@
    }
}

impl<M> InputRouter<M> {
    /// An empty queue.
    pub fn new() -> (r: Self)
        ensures
            r@ == Seq::<UiEvent<M>>::empty(),
    {
        InputRouter { ui_events: Vec::new() }
    }

    /// How many events wait.
    pub fn len(&self) -> (r: usize)
        ensures
            r == self@.len(),
    {
        self.ui_events.len()
    }

    /// Queues the event of a key. Every key is consumed here.
    pub fn on_key(&mut self, keycode: u32, text: Option<char>, state: KeyState) -> (r: FilterResult)
        ensures
            r == FilterResult::Intercept,
            final(self)@ == old(self)@.push(UiEvent::KeyboardInput(spec_keyboard_input(keycode, text, state))),
    {
        self.ui_events.push(UiEvent::KeyboardInput(keyboard_input(keycode, text, state)));
        FilterResult::Intercept
    }

    /// Queues a pointer button event; an event with no host button is
    /// dropped. Returns whether it was queued.
    pub fn on_pointer_button(&mut self, code: u32, state: RawButtonState) -> (r: bool)
        ensures
            r == spec_translate_button(code) is Some,
            r ==> final(self)@ == old(self)@.push(
                UiEvent::MouseButtonInput(
                    MouseButtonInput { button: spec_translate_button(code)->0, state: spec_button_state(state) },
                ),
            ),
            !r ==> final(self)@ == old(self)@,
    {
        match convert_button_input(code, state) {
            Some(event) => {
                self.ui_events.push(UiEvent::MouseButtonInput(event));
                true
            },
            None => false,
        }
    }

    /// Queues a relative pointer motion.
    pub fn on_pointer_motion(&mut self, delta: M)
        ensures
            final(self)@ == old(self)@.push(UiEvent::MouseMotion(delta)),
    {
        self.ui_events.push(UiEvent::MouseMotion(delta));
    }

    /// Drains the queue: every waiting event, in arrival order, unmerged.
    pub fn forward_events(&mut self) -> (r: Vec<UiEvent<M>>)
        ensures
            r@ == old(self)@,
            final(self)@ == Seq::<UiEvent<M>>::empty(),
    {
        let mut drained: Vec<UiEvent<M>> = Vec::new();
        std::mem::swap(&mut drained, &mut self.ui_events);
        drained
    }
}

} // verus!
