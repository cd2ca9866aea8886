use mocha_compositor::client::CompositorClientState;
use mocha_compositor::input::{ButtonState, KeyState, MouseButton, MouseButtonInput, RawButtonState};
use mocha_compositor::router::{FilterResult, UiEvent};
use mocha_compositor::seat::Capabilities;
use mocha_compositor::state::{InputEvent, State};

#[test]
fn commit_counts_against_owner_of_either_kind() {
    let mut st: State<(f64, f64)> = State::new(vec![]);
    let native = st.clients.insert_client(None);
    let bridge = st.clients.insert_bridge_client();
    let a = st.shell.create_surface(native);
    let b = st.shell.create_surface(bridge);
    assert!(st.shell.attach(a, 1));
    assert_eq!(st.commit(a), None);
    assert!(st.shell.attach(a, 2));
    assert_eq!(st.commit(a), Some(1));
    assert_eq!(st.commit(b), None);
    assert_eq!(st.clients.client_compositor_state(native), &(CompositorClientState { commits: 2 }));
    assert_eq!(st.clients.client_compositor_state(bridge), &(CompositorClientState { commits: 1 }));
    assert_eq!(st.commit(77), None);
}

#[test]
fn disconnect_destroys_only_that_clients_surfaces() {
    let mut st: State<(f64, f64)> = State::new(vec![]);
    let c1 = st.clients.insert_client(None);
    let c2 = st.clients.insert_client(None);
    let a = st.shell.create_surface(c1);
    let b = st.shell.create_surface(c2);
    let c = st.shell.create_surface(c1);
    assert!(st.shell.new_toplevel(a));
    assert!(st.shell.new_toplevel(b));
    assert!(st.shell.attach(a, 10));
    assert_eq!(st.commit(a), None);
    assert!(st.shell.attach(c, 11));
    assert_eq!(st.commit(c), None);
    let released = st.client_disconnected(c1);
    assert_eq!(released, vec![10, 11]);
    assert!(!st.clients.contains(c1));
    assert!(st.clients.contains(c2));
    assert!(st.shell.surface(a).is_none());
    assert!(st.shell.surface(c).is_none());
    assert!(st.shell.surface(b).is_some());
    assert_eq!(st.shell.space_len(), 1);
    assert_eq!(st.shell.element(0).unwrap().surface, b);
}

#[test]
fn input_events_route_through_seat_and_queue() {
    let mut st: State<(f64, f64)> = State::new(vec![]);
    assert_eq!(
        st.on_input_event(InputEvent::Keyboard { keycode: 38, text: Some('a'), state: KeyState::Pressed }),
        Some(FilterResult::Intercept)
    );
    assert!(st.seat.is_pressed(38));
    assert_eq!(st.on_input_event(InputEvent::PointerButton { code: 0x110, state: RawButtonState::Pressed }), None);
    assert_eq!(st.on_input_event(InputEvent::PointerButton { code: 70000, state: RawButtonState::Pressed }), None);
    assert_eq!(st.on_input_event(InputEvent::PointerMotion((3.0, -1.0))), None);
    assert_eq!(st.on_input_event(InputEvent::Other), None);
    assert_eq!(
        st.on_input_event(InputEvent::Keyboard { keycode: 38, text: Some('a'), state: KeyState::Released }),
        Some(FilterResult::Intercept)
    );
    assert!(!st.seat.is_pressed(38));
    let events = st.router.forward_events();
    assert_eq!(events.len(), 4);
    assert_eq!(
        events[1],
        UiEvent::MouseButtonInput(MouseButtonInput { button: MouseButton::Left, state: ButtonState::Pressed })
    );
    assert_eq!(events[2], UiEvent::MouseMotion((3.0, -1.0)));
    assert!(matches!(events[3], UiEvent::KeyboardInput(k) if k.state == ButtonState::Released));
}

#[test]
fn new_state_has_pointer_and_keyboard_and_no_focus() {
    let st: State<(f64, f64)> = State::new(vec![]);
    assert_eq!(st.seat.capabilities(), Capabilities { pointer: true, keyboard: true, touch: false });
    assert_eq!(st.seat.keyboard_focus(), None);
    assert_eq!(st.seat.pointer_focus(), None);
    assert_eq!(st.seat.touch_focus(), None);
    assert_eq!(st.seat.pressed_count(), 0);
}
