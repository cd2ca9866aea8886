//! The client registry: one state record per connection, native or bridged.

use vstd::prelude::*;
use std::collections::HashMap;

verus! {

broadcast use vstd::std_specs::hash::group_hash_axioms;

/// A sandbox label attached to a client.
#[derive(Debug)]
pub struct SecurityContext {
    /// Name of the sandbox engine.
    pub sandbox_engine: Option<String>,
    /// Sandbox-specific id of the application.
    pub app_id: Option<String>,
    /// Sandbox-specific id of the application instance.
    pub instance_id: Option<String>,
    /// The client that created the context.
    pub creator: u64,
}

/// Per-client state of the compositor protocol.
#[derive(Clone, Copy, Debug, PartialEq, Eq, Structural)]
pub struct CompositorClientState {
    /// Surface commits this client has made, saturating at `u64::MAX`.
    pub commits: u64,
}

/// The state kept for one connection.
#[derive(Debug)]
pub enum ClientState {
    /// A client speaking the protocol directly.
    Native { compositor_state: CompositorClientState, security_context: Option<SecurityContext> },
    /// A client reached through the legacy windowing bridge.
    Bridge { compositor_state: CompositorClientState },
}

/// Why a security context was not attached.
#[derive(Clone, Copy, Debug, PartialEq, Eq, Structural)]
pub enum SecurityContextError {
    /// No client has this id.
    UnknownClient,
    /// Bridged clients carry no label.
    BridgeClient,
    /// The client already has a label; it never changes.
    AlreadySet,
}

impl ClientState {
    /// The compositor state of either kind of client.
    pub open spec fn compositor_state_spec(&self) -> CompositorClientState {
        match self {
            ClientState::Native { compositor_state, .. } => *compositor_state,
            ClientState::Bridge { compositor_state } => *compositor_state,
        }
    }

    /// The security label, which only a native client can carry.
    pub open spec fn label(&self) -> Option<SecurityContext> {
        match self {
            ClientState::Native { security_context, .. } => *security_context,
            ClientState::Bridge { .. } => None,
        }
    }

    /// Whether the client came through the bridge.
    pub open spec fn is_bridge(&self) -> bool {
        self is Bridge
    }
}

/// The label of client `id` in `clients`, if it is known and labelled.
pub open spec fn label_of(clients: Map<u64, ClientState>, id: u64) -> Option<SecurityContext> {
    if clients.contains_key(id) { clients[id].label() } else { None }
}

/// From `a` to `b`, no client that stays connected gained, lost or changed
/// its label.
pub open spec fn labels_kept(a: Map<u64, ClientState>, b: Map<u64, ClientState>) -> bool {
    forall|id: u64| a.contains_key(id) && b.contains_key(id) ==> #[trigger] label_of(a, id) == label_of(b, id)
}

/// All connected clients, by id.
pub struct ClientRegistry {
    clients: HashMap<u64, ClientState>,
    next_id: u64,
}

impl View for ClientRegistry {
    type V = Map<u64, ClientState>;

    closed spec fn view(&self) -> Map<u64, ClientState> {
        self.clients@
    }
}

impl ClientRegistry {
    /// The id the next connection gets.
    pub closed spec fn next_id_spec(&self) -> u64 {
        self.next_id
    }

    /// Every connected client has an id below the counter.
    pub open spec fn wf(&self) -> bool {
        forall|id: u64| #[trigger] self@.contains_key(id) ==> id < self.next_id_spec()
    }

    /// A registry with no client.
    pub fn new() -> (r: Self)
        ensures
            r.wf(),
            r@ == Map::<u64, ClientState>::empty(),
            r.next_id_spec() == 0,
    {
        ClientRegistry { clients: HashMap::new(), next_id: 0 }
    }

    /// The id the next connection gets.
    pub fn next_id(&self) -> (r: u64)
        ensures
            r == self.next_id_spec(),
    {
        self.next_id
    }

    /// Whether `id` is connected.
    pub fn contains(&self, id: u64) -> (r: bool)
        ensures
            r == self@.contains_key(id),
    {
        self.clients.contains_key(&id)
    }

    fn insert_state(&mut self, state: ClientState) -> (id: u64)
        requires
            old(self).wf(),
            old(self).next_id_spec() < u64::MAX,
        ensures
            final(self).wf(),
            id == old(self).next_id_spec(),
            !old(self)@.contains_key(id),
            final(self)@ == old(self)@.insert(id, state),
            final(self).next_id_spec() == id + 1,
    {
        let id = self.next_id;
        self.clients.insert(id, state);
        self.next_id = id + 1;
        proof {
            assert forall|k: u64| #[trigger] self@.contains_key(k) implies k < self.next_id_spec() by {
                if k != id {
                    assert(old(self)@.contains_key(k));
                }
            }
        }
        id
    }

    /// Registers a native connection under a fresh id, with the label of the
    /// listener it came through, if any.
    pub fn insert_client(&mut self, security_context: Option<SecurityContext>) -> (id: u64)
        requires
            old(self).wf(),
            old(self).next_id_spec() < u64::MAX,
        ensures
            final(self).wf(),
            id == old(self).next_id_spec(),
            !old(self)@.contains_key(id),
            final(self)@ == old(self)@.insert(
                id,
                ClientState::Native { compositor_state: CompositorClientState { commits: 0 }, security_context },
            ),
            final(self).next_id_spec() == id + 1,
            labels_kept(old(self)@, final(self)@),
    {
        let state = ClientState::Native { compositor_state: CompositorClientState { commits: 0 }, security_context };
        self.insert_state(state)
    }

    /// Registers a bridged connection under a fresh id.
    pub fn insert_bridge_client(&mut self) -> (id: u64)
        requires
            old(self).wf(),
            old(self).next_id_spec() < u64::MAX,
        ensures
            final(self).wf(),
            id == old(self).next_id_spec(),
            !old(self)@.contains_key(id),
            final(self)@ == old(self)@.insert(
                id,
                ClientState::Bridge { compositor_state: CompositorClientState { commits: 0 } },
            ),
            final(self).next_id_spec() == id + 1,
            labels_kept(old(self)@, final(self)@),
    {
        self.insert_state(ClientState::Bridge { compositor_state: CompositorClientState { commits: 0 } })
    }

    /// Forgets a disconnected client; returns its state, if it was known.
    pub fn remove_client(&mut self, id: u64) -> (r: Option<ClientState>)
        requires
            old(self).wf(),
        ensures
            final(self).wf(),
            final(self)@ == old(self)@.remove(id),
            final(self).next_id_spec() == old(self).next_id_spec(),
            r == (if old(self)@.contains_key(id) { Some(old(self)@[id]) } else { None }),
            labels_kept(old(self)@, final(self)@),
    {
        let r = self.clients.remove(&id);
        proof {
            assert forall|k: u64| #[trigger] self@.contains_key(k) implies k < self.next_id_spec() by {
                assert(old(self)@.contains_key(k));
            }
        }
        r
    }

    /// The compositor state of a registered client, found by its kind.
    pub fn client_compositor_state(&self, id: u64) -> (r: &CompositorClientState)
        requires
            self@.contains_key(id),
        ensures
            *r == self@[id].compositor_state_spec(),
    {
        match self.clients.get(&id).unwrap() {
            ClientState::Native { compositor_state, .. } => compositor_state,
            ClientState::Bridge { compositor_state } => compositor_state,
        }
    }

    /// The security label of a client.
    pub fn security_context(&self, id: u64) -> (r: Option<&SecurityContext>)
        ensures
            r == match label_of(self@, id) {
                Some(l) => Some(&l),
                None => None::<&SecurityContext>,
            },
    {
        match self.clients.get(&id) {
            Some(ClientState::Native { security_context: Some(l), .. }) => Some(l),
            _ => None,
        }
    }

    /// Attaches a label to a native client that has none. A label, once
    /// set, is never replaced.
    pub fn attach_security_context(&mut self, id: u64, context: SecurityContext) -> (r: Result<
        (),
        SecurityContextError,
    >)
        requires
            old(self).wf(),
        ensures
            final(self).wf(),
            final(self).next_id_spec() == old(self).next_id_spec(),
            !old(self)@.contains_key(id) ==> r == Err::<(), _>(SecurityContextError::UnknownClient),
            old(self)@.contains_key(id) && old(self)@[id].is_bridge() ==> r == Err::<(), _>(
                SecurityContextError::BridgeClient,
            ),
            old(self)@.contains_key(id) && !old(self)@[id].is_bridge() && label_of(old(self)@, id) is Some
                ==> r == Err::<(), _>(SecurityContextError::AlreadySet),
            r is Err ==> final(self)@ == old(self)@,
            r is Ok <==> (old(self)@.contains_key(id) && !old(self)@[id].is_bridge() && label_of(old(self)@, id) is None),
            r is Ok ==> final(self)@ == old(self)@.insert(
                id,
                ClientState::Native {
                    compositor_state: old(self)@[id].compositor_state_spec(),
                    security_context: Some(context),
                },
            ),
    {
        match self.clients.remove(&id) {
            None => Err(SecurityContextError::UnknownClient),
            Some(ClientState::Bridge { compositor_state }) => {
                self.clients.insert(id, ClientState::Bridge { compositor_state });
                proof {
                    assert(self.clients@ =~= old(self)@);
                }
                Err(SecurityContextError::BridgeClient)
            },
            Some(ClientState::Native { compositor_state, security_context: Some(l) }) => {
                self.clients.insert(id, ClientState::Native { compositor_state, security_context: Some(l) });
                proof {
                    assert(self.clients@ =~= old(self)@);
                }
                Err(SecurityContextError::AlreadySet)
            },
            Some(ClientState::Native { compositor_state, security_context: None }) => {
                self.clients.insert(id, ClientState::Native { compositor_state, security_context: Some(context) });
                proof {
                    assert(self.clients@ =~= old(self)@.insert(
                        id,
                        ClientState::Native {
                            compositor_state: old(self)@[id].compositor_state_spec(),
                            security_context: Some(context),
                        },
                    ));
                }
                Ok(())
            },
        }
    }

    /// Counts a surface commit against its client. Returns `false` when the
    /// client is unknown.
    pub fn record_commit(&mut self, id: u64) -> (r: bool)
        requires
            old(self).wf(),
        ensures
            final(self).wf(),
            final(self).next_id_spec() == old(self).next_id_spec(),
            r == old(self)@.contains_key(id),
            final(self)@.dom() == old(self)@.dom(),
            labels_kept(old(self)@, final(self)@),
            forall|o: u64| o != id && #[trigger] old(self)@.contains_key(o) ==> final(self)@[o] == old(self)@[o],
            r ==> final(self)@[id].compositor_state_spec().commits == old(self)@[id].compositor_state_spec().commits.saturating_add(1),
            r ==> final(self)@[id].is_bridge() == old(self)@[id].is_bridge(),
    {
        match self.clients.remove(&id) {
            None => {
                proof {
                    assert(self.clients@ =~= old(self)@);
                }
                false
            },
            Some(ClientState::Native { compositor_state, security_context }) => {
                let cs = CompositorClientState { commits: compositor_state.commits.saturating_add(1) };
                self.clients.insert(id, ClientState::Native { compositor_state: cs, security_context });
                proof {
                    assert(self.clients@.dom() =~= old(self)@.dom());
                    assert forall|k: u64| #[trigger] self@.contains_key(k) implies k < self.next_id_spec() by {
                        assert(old(self)@.contains_key(k));
                    }
                }
                true
            },
            Some(ClientState::Bridge { compositor_state }) => {
                let cs = CompositorClientState { commits: compositor_state.commits.saturating_add(1) };
                self.clients.insert(id, ClientState::Bridge { compositor_state: cs });
                proof {
                    assert(self.clients@.dom() =~= old(self)@.dom());
                    assert forall|k: u64| #[trigger] self@.contains_key(k) implies k < self.next_id_spec() by {
                        assert(old(self)@.contains_key(k));
                    }
                }
                true
            },
        }
    }
}

/// Labels are stable across any run of registry operations: if each step
/// keeps them, the whole run does, for every client connected throughout.
pub proof fn lemma_labels_kept_across_steps(a: Map<u64, ClientState>, b: Map<u64, ClientState>, c: Map<u64, ClientState>, id: u64)
    requires
        labels_kept(a, b),
        labels_kept(b, c),
        a.contains_key(id),
        b.contains_key(id),
        c.contains_key(id),
    ensures
        label_of(a, id) == label_of(c, id),
{
    assert(label_of(a, id) == label_of(b, id));
    assert(label_of(b, id) == label_of(c, id));
}

} // verus!
