//! The aggregate compositor state handed to every dispatch: client registry,
//! shell, seat, buffer imports and the input queue, owned in one place.

use vstd::prelude::*;
use crate::client::{ClientRegistry, labels_kept};
use crate::dmabuf::{DmabufImports, FeedbackEntry};
use crate::input::{KeyState, MouseButtonInput, RawButtonState, spec_button_state, spec_translate_button};
use crate::router::{FilterResult, InputRouter, UiEvent, spec_keyboard_input};
use crate::seat::{Capabilities, Seat};
use crate::shell::{Shell, Surface, released_by_commit};

verus! {

/// A raw event from the input backend, as plain values.
#[derive(Debug)]
#[allow(inconsistent_fields)]
pub enum InputEvent<M> {
    /// A key with keymap keycode `keycode`; `text` is what the active keymap
    /// and modifiers produced for it.
    Keyboard { keycode: u32, text: Option<char>, state: KeyState },
    /// A pointer button with input-event code `code`.
    PointerButton { code: u32, state: RawButtonState },
    /// A relative pointer motion.
    PointerMotion(M),
    /// Any other device event; this core ignores it.
    Other,
}

/// The current buffers, in id order, of the surfaces of `client` among the
/// ids below `n`.
pub open spec fn released_buffers(surfaces: Map<u64, Surface>, client: u64, n: nat) -> Seq<u64>
    decreases n,
{
    if n == 0 {
        Seq::empty()
    } else {
        let k = (n - 1) as u64;
        let earlier = released_buffers(surfaces, client, (n - 1) as nat);
        if surfaces.contains_key(k) && surfaces[k].client == client && surfaces[k].current_buffer is Some {
            earlier.push(surfaces[k].current_buffer->0)
        } else {
            earlier
        }
    }
}

/// Every piece of state the reactor's handlers write, single-writer.
pub struct State<M> {
    pub clients: ClientRegistry,
    pub shell: Shell,
    pub seat: Seat,
    pub imports: DmabufImports,
    pub router: InputRouter<M>,
}

impl<M> State<M> {
    /// Each part keeps its own invariant.
    pub open spec fn wf(&self) -> bool {
        &&& self.clients.wf()
        &&& self.shell.wf()
        &&& self.seat.wf()
        &&& self.imports.wf()
    }

    /// Fresh state advertising `feedback` for buffer imports.
    pub fn new(feedback: Vec<FeedbackEntry>) -> (r: Self)
        ensures
            r.wf(),
            r.clients@ == Map::<u64, crate::client::ClientState>::empty(),
            r.shell.surfaces_spec() == Map::<u64, crate::shell::Surface>::empty(),
            r.shell.space_spec().len() == 0,
            r.router@ == Seq::<UiEvent<M>>::empty(),
            r.imports.feedback_spec() == feedback@,
            r.seat.capabilities_spec() == (Capabilities { pointer: true, keyboard: true, touch: false }),
            r.seat.keyboard_focus_spec() is None,
            r.seat.pointer_focus_spec() is None,
            r.seat.touch_focus_spec() is None,
            r.seat.pressed_spec() == Set::<u32>::empty(),
    {
        let mut seat = Seat::new();
        seat.add_pointer();
        seat.add_keyboard();
        State {
            clients: ClientRegistry::new(),
            shell: Shell::new(),
            seat,
            imports: DmabufImports::new(feedback),
            router: InputRouter::new(),
        }
    }

    /// Commits a surface and counts the commit against its client, whichever
    /// kind the client is. Returns the buffer released to the client.
    pub fn commit(&mut self, surface: u64) -> (r: Option<u64>)
        requires
            old(self).wf(),
        ensures
            final(self).wf(),
            final(self).shell.space_spec() == old(self).shell.space_spec(),
            final(self).shell.surfaces_spec().dom() == old(self).shell.surfaces_spec().dom(),
            labels_kept(old(self).clients@, final(self).clients@),
            final(self).clients@.dom() == old(self).clients@.dom(),
            forall|k: u64| k != surface ==> #[trigger] final(self).shell.surfaces_spec()[k] == old(self).shell.surfaces_spec()[k],
            old(self).shell.surfaces_spec().contains_key(surface) ==> {
                let o = old(self).shell.surfaces_spec()[surface];
                let n = final(self).shell.surfaces_spec()[surface];
                &&& r == released_by_commit(o)
                &&& n.current_buffer == (if o.pending_buffer is Some { o.pending_buffer } else { o.current_buffer })
                &&& n.pending_buffer is None
                &&& n.current_damage@ == o.pending_damage@
                &&& n.pending_damage@.len() == 0
                &&& n.role == o.role
                &&& n.client == o.client
                &&& old(self).clients@.contains_key(o.client) ==> final(self).clients@[o.client].compositor_state_spec().commits
                    == old(self).clients@[o.client].compositor_state_spec().commits.saturating_add(1)
            },
            !old(self).shell.surfaces_spec().contains_key(surface) ==> {
                &&& r is None
                &&& final(self).clients@ == old(self).clients@
                &&& final(self).shell.surfaces_spec() == old(self).shell.surfaces_spec()
            },
    {
        let owner = match self.shell.surface(surface) {
            Some(s) => Some(s.client),
            None => None,
        };
        let released = self.shell.commit(surface);
        match owner {
            Some(c) => {
                self.clients.record_commit(c);
            },
            None => {},
        }
        released
    }

    /// A client went away: each of its surfaces is destroyed and leaves the
    /// space, and its record is dropped. Returns the buffers released.
    pub fn client_disconnected(&mut self, client: u64) -> (released: Vec<u64>)
        requires
            old(self).wf(),
        ensures
            final(self).wf(),
            !final(self).clients@.contains_key(client),
            final(self).clients@ == old(self).clients@.remove(client),
            released@ == released_buffers(old(self).shell.surfaces_spec(), client, old(self).shell.next_surface_spec() as nat),
            forall|k: u64| #[trigger] final(self).shell.surfaces_spec().contains_key(k) ==> final(self).shell.surfaces_spec()[k].client != client,
            forall|k: u64|
                #[trigger] old(self).shell.surfaces_spec().contains_key(k) && old(self).shell.surfaces_spec()[k].client != client
                    ==> final(self).shell.surfaces_spec().contains_key(k) && final(self).shell.surfaces_spec()[k] == old(self).shell.surfaces_spec()[k],
            forall|k: u64| #[trigger] final(self).shell.surfaces_spec().contains_key(k) ==> old(self).shell.surfaces_spec().contains_key(k),
    {
        let mut released: Vec<u64> = Vec::new();
        let end = self.shell.next_surface();
        let mut id: u64 = 0;
        while id < end
            invariant
                self.wf(),
                end == old(self).shell.next_surface_spec(),
                self.shell.next_surface_spec() == end,
                id <= end,
                self.clients == old(self).clients,
                released@ == released_buffers(old(self).shell.surfaces_spec(), client, id as nat),
                forall|k: u64| #[trigger] self.shell.surfaces_spec().contains_key(k) && k < id ==> self.shell.surfaces_spec()[k].client != client,
                forall|k: u64|
                    #[trigger] old(self).shell.surfaces_spec().contains_key(k) && old(self).shell.surfaces_spec()[k].client != client
                        ==> self.shell.surfaces_spec().contains_key(k) && self.shell.surfaces_spec()[k] == old(self).shell.surfaces_spec()[k],
                forall|k: u64| #[trigger] self.shell.surfaces_spec().contains_key(k) ==> old(self).shell.surfaces_spec().contains_key(k),
                forall|k: u64| #[trigger] self.shell.surfaces_spec().contains_key(k) && k >= id ==> self.shell.surfaces_spec()[k] == old(self).shell.surfaces_spec()[k],
                forall|k: u64| #[trigger] old(self).shell.surfaces_spec().contains_key(k) && k >= id ==> self.shell.surfaces_spec().contains_key(k),
            decreases end - id,
        {
            let owned = match self.shell.surface(id) {
                Some(s) => s.client == client,
                None => false,
            };
            proof {
                if old(self).shell.surfaces_spec().contains_key(id) {
                    assert(self.shell.surfaces_spec().contains_key(id));
                    assert(self.shell.surfaces_spec()[id] == old(self).shell.surfaces_spec()[id]);
                }
            }
            if owned {
                match self.shell.destroy_surface(id) {
                    Some(b) => released.push(b),
                    None => {},
                }
            }
            id = id + 1;
        }
        proof {
            assert forall|k: u64| #[trigger] self.shell.surfaces_spec().contains_key(k) implies self.shell.surfaces_spec()[k].client != client by {
                assert(k < self.shell.next_surface_spec());
            }
        }
        let _ = self.clients.remove_client(client);
        released
    }

    /// Handles one event of the input backend: keys are tracked by the seat
    /// and always intercepted, buttons without a host form are dropped, and
    /// every other kept event joins the queue in arrival order.
    pub fn on_input_event(&mut self, event: InputEvent<M>) -> (r: Option<FilterResult>)
        requires
            old(self).wf(),
        ensures
            final(self).wf(),
            final(self).clients == old(self).clients,
            final(self).shell == old(self).shell,
            final(self).imports == old(self).imports,
            match event {
                InputEvent::Keyboard { keycode, text, state } => {
                    &&& r == Some(FilterResult::Intercept)
                    &&& final(self).router@ == old(self).router@.push(
                        UiEvent::KeyboardInput(spec_keyboard_input(keycode, text, state)),
                    )
                    &&& state == KeyState::Pressed ==> final(self).seat.pressed_spec()
                        == old(self).seat.pressed_spec().insert(keycode)
                    &&& state == KeyState::Released ==> final(self).seat.pressed_spec()
                        == old(self).seat.pressed_spec().remove(keycode)
                },
                InputEvent::PointerButton { code, state } => {
                    &&& r is None
                    &&& final(self).router@ == match spec_translate_button(code) {
                        Some(b) => old(self).router@.push(
                            UiEvent::MouseButtonInput(MouseButtonInput { button: b, state: spec_button_state(state) }),
                        ),
                        None => old(self).router@,
                    }
                    &&& final(self).seat == old(self).seat
                },
                InputEvent::PointerMotion(delta) => {
                    &&& r is None
                    &&& final(self).router@ == old(self).router@.push(UiEvent::MouseMotion(delta))
                    &&& final(self).seat == old(self).seat
                },
                InputEvent::Other => {
                    &&& r is None
                    &&& final(self).router@ == old(self).router@
                    &&& final(self).seat == old(self).seat
                },
            },
    {
        match event {
            InputEvent::Keyboard { keycode, text, state } => {
                self.seat.key_input(keycode, state);
                Some(self.router.on_key(keycode, text, state))
            },
            InputEvent::PointerButton { code, state } => {
                self.router.on_pointer_button(code, state);
                None
            },
            InputEvent::PointerMotion(delta) => {
                self.router.on_pointer_motion(delta);
                None
            },
            InputEvent::Other => None,
        }
    }
}

} // verus!
