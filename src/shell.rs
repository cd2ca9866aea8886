//! Surfaces, their committed state, and the space that arranges toplevels.

use vstd::prelude::*;
use std::collections::HashMap;

verus! {

broadcast use vstd::std_specs::hash::group_hash_axioms;

/// The role a surface has taken.
#[derive(Clone, Copy, Debug, PartialEq, Eq, Structural)]
pub enum Role {
    Unassigned,
    Toplevel,
    Popup,
    Cursor,
}

/// A rectangle in surface-local coordinates.
#[derive(Clone, Copy, Debug, PartialEq, Eq, Structural)]
pub struct Rectangle {
    pub x: i32,
    pub y: i32,
    pub width: i32,
    pub height: i32,
}

/// A client-owned drawable. Buffers are referenced by id; the client keeps
/// them.
#[derive(Debug)]
pub struct Surface {
    pub client: u64,
    pub role: Role,
    pub pending_buffer: Option<u64>,
    pub current_buffer: Option<u64>,
    pub pending_damage: Vec<Rectangle>,
    pub current_damage: Vec<Rectangle>,
}

/// A toplevel placed in the space.
#[derive(Clone, Copy, Debug, PartialEq, Eq, Structural)]
pub struct MappedElement {
    pub surface: u64,
    pub x: i32,
    pub y: i32,
    pub activated: bool,
}

/// A recorded popup grab or reposition request.
#[derive(Clone, Copy, Debug, PartialEq, Eq, Structural)]
pub struct PopupRequest {
    pub surface: u64,
    pub value: u32,
}

/// The buffer a commit hands back to its client: the current one, when a
/// different buffer replaces it.
pub open spec fn released_by_commit(s: Surface) -> Option<u64> {
    match (s.pending_buffer, s.current_buffer) {
        (Some(p), Some(c)) => if p != c { Some(c) } else { None },
        _ => None,
    }
}

/// The elements of `s` other than surface `id`, in order, each deactivated
/// when `deactivate` holds.
pub open spec fn others(s: Seq<MappedElement>, id: u64, deactivate: bool) -> Seq<MappedElement>
    decreases s.len(),
{
    if s.len() == 0 {
        Seq::empty()
    } else {
        let rest = others(s.drop_last(), id, deactivate);
        let e = s.last();
        if e.surface == id {
            rest
        } else if deactivate {
            rest.push(MappedElement { activated: false, ..e })
        } else {
            rest.push(e)
        }
    }
}

/// Whether surface `id` appears activated in `s`.
pub open spec fn was_activated(s: Seq<MappedElement>, id: u64) -> bool {
    exists|i: int| 0 <= i < s.len() && #[trigger] s[i].surface == id && s[i].activated
}

/// The space after mapping surface `id` at `(x, y)`: it leaves its old place
/// and goes on top; activating it deactivates every other element.
pub open spec fn space_after_map(s: Seq<MappedElement>, id: u64, x: i32, y: i32, activate: bool) -> Seq<MappedElement> {
    others(s, id, activate).push(
        MappedElement { surface: id, x, y, activated: activate || was_activated(s, id) },
    )
}

proof fn lemma_others(s: Seq<MappedElement>, id: u64, deactivate: bool)
    requires
        forall|i: int, j: int| 0 <= i < j < s.len() ==> s[i].surface != s[j].surface,
    ensures
        forall|j: int|
            0 <= j < others(s, id, deactivate).len() ==> #[trigger] others(s, id, deactivate)[j].surface != id
                && exists|i: int| 0 <= i < s.len() && s[i].surface == others(s, id, deactivate)[j].surface,
        forall|a: int, b: int|
            0 <= a < b < others(s, id, deactivate).len() ==> others(s, id, deactivate)[a].surface
                != others(s, id, deactivate)[b].surface,
    decreases s.len(),
{
    if s.len() > 0 {
        let t = s.drop_last();
        lemma_others(t, id, deactivate);
        let r = others(t, id, deactivate);
        let o = others(s, id, deactivate);
        assert forall|j: int| 0 <= j < o.len() implies #[trigger] o[j].surface != id
            && exists|i: int| 0 <= i < s.len() && s[i].surface == o[j].surface by {
            if j < r.len() {
                assert(o[j] == r[j]);
                let i = choose|i: int| 0 <= i < t.len() && t[i].surface == r[j].surface;
                assert(s[i].surface == o[j].surface);
            } else {
                assert(s[s.len() - 1].surface == o[j].surface);
            }
        }
        assert forall|a: int, b: int| 0 <= a < b < o.len() implies o[a].surface != o[b].surface by {
            if b < r.len() {
                assert(o[a] == r[a] && o[b] == r[b]);
            } else {
                assert(o[a] == r[a]);
                let i = choose|i: int| 0 <= i < t.len() && t[i].surface == r[a].surface;
                assert(s[i].surface == t[i].surface);
                assert(s[s.len() - 1].surface == o[b].surface);
            }
        }
    }
}

/// The surfaces of all clients and the space of mapped toplevels.
pub struct Shell {
    surfaces: HashMap<u64, Surface>,
    space: Vec<MappedElement>,
    next_surface: u64,
    last_grab: Option<PopupRequest>,
    last_reposition: Option<PopupRequest>,
}

impl Shell {
    /// All surfaces, by id.
    pub closed spec fn surfaces_spec(&self) -> Map<u64, Surface> {
        self.surfaces@
    }

    /// The mapped toplevels, bottom to top.
    pub closed spec fn space_spec(&self) -> Seq<MappedElement> {
        self.space@
    }

    /// The id the next surface gets.
    pub closed spec fn next_surface_spec(&self) -> u64 {
        self.next_surface
    }

    /// The last popup grab request.
    pub closed spec fn last_grab_spec(&self) -> Option<PopupRequest> {
        self.last_grab
    }

    /// The last popup reposition request.
    pub closed spec fn last_reposition_spec(&self) -> Option<PopupRequest> {
        self.last_reposition
    }

    /// Ids are below the counter; the space holds each surface at most once,
    /// and only live toplevels.
    pub open spec fn wf(&self) -> bool {
        &&& forall|k: u64| #[trigger] self.surfaces_spec().contains_key(k) ==> k < self.next_surface_spec()
        &&& forall|i: int|
            0 <= i < self.space_spec().len() ==> {
                &&& self.surfaces_spec().contains_key(#[trigger] self.space_spec()[i].surface)
                &&& self.surfaces_spec()[self.space_spec()[i].surface].role == Role::Toplevel
            }
        &&& forall|i: int, j: int|
            0 <= i < j < self.space_spec().len() ==> self.space_spec()[i].surface != self.space_spec()[j].surface
    }

    /// Whether surface `id` is mapped in the space.
    pub open spec fn mapped(&self, id: u64) -> bool {
        exists|i: int| 0 <= i < self.space_spec().len() && #[trigger] self.space_spec()[i].surface == id
    }

    /// An empty shell.
    pub fn new() -> (r: Self)
        ensures
            r.wf(),
            r.surfaces_spec() == Map::<u64, Surface>::empty(),
            r.space_spec() == Seq::<MappedElement>::empty(),
            r.next_surface_spec() == 0,
            r.last_grab_spec() is None,
            r.last_reposition_spec() is None,
    {
        let r = Shell {
            surfaces: HashMap::new(),
            space: Vec::new(),
            next_surface: 0,
            last_grab: None,
            last_reposition: None,
        };
        assert(r.space_spec() =~= Seq::<MappedElement>::empty());
        r
    }

    /// The id the next surface gets.
    pub fn next_surface(&self) -> (r: u64)
        ensures
            r == self.next_surface_spec(),
    {
        self.next_surface
    }

    /// A surface by id.
    pub fn surface(&self, id: u64) -> (r: Option<&Surface>)
        ensures
            r == (if self.surfaces_spec().contains_key(id) { Some(&self.surfaces_spec()[id]) } else { None }),
    {
        self.surfaces.get(&id)
    }

    /// How many toplevels are mapped.
    pub fn space_len(&self) -> (r: usize)
        ensures
            r == self.space_spec().len(),
    {
        self.space.len()
    }

    /// The `i`-th mapped toplevel, bottom first.
    pub fn element(&self, i: usize) -> (r: Option<MappedElement>)
        ensures
            r == (if i < self.space_spec().len() { Some(self.space_spec()[i as int]) } else { None }),
    {
        if i < self.space.len() {
            Some(self.space[i])
        } else {
            None
        }
    }

    /// Creates a surface for `client`, without role, buffer or damage.
    pub fn create_surface(&mut self, client: u64) -> (id: u64)
        requires
            old(self).wf(),
            old(self).next_surface_spec() < u64::MAX,
        ensures
            final(self).wf(),
            id == old(self).next_surface_spec(),
            !old(self).surfaces_spec().contains_key(id),
            final(self).next_surface_spec() == id + 1,
            final(self).surfaces_spec().dom() == old(self).surfaces_spec().dom().insert(id),
            forall|k: u64| k != id ==> #[trigger] final(self).surfaces_spec()[k] == old(self).surfaces_spec()[k],
            final(self).surfaces_spec()[id].client == client,
            final(self).surfaces_spec()[id].role == Role::Unassigned,
            final(self).surfaces_spec()[id].pending_buffer is None,
            final(self).surfaces_spec()[id].current_buffer is None,
            final(self).surfaces_spec()[id].pending_damage@.len() == 0,
            final(self).surfaces_spec()[id].current_damage@.len() == 0,
            final(self).space_spec() == old(self).space_spec(),
    {
        let id = self.next_surface;
        let s = Surface {
            client,
            role: Role::Unassigned,
            pending_buffer: None,
            current_buffer: None,
            pending_damage: Vec::new(),
            current_damage: Vec::new(),
        };
        self.surfaces.insert(id, s);
        self.next_surface = id + 1;
        proof {
            assert(self.surfaces_spec().dom() =~= old(self).surfaces_spec().dom().insert(id));
            assert forall|k: u64| #[trigger] self.surfaces_spec().contains_key(k) implies k < self.next_surface_spec() by {
                if k != id {
                    assert(old(self).surfaces_spec().contains_key(k));
                }
            }
            assert forall|i: int| 0 <= i < self.space_spec().len() implies {
                &&& self.surfaces_spec().contains_key(#[trigger] self.space_spec()[i].surface)
                &&& self.surfaces_spec()[self.space_spec()[i].surface].role == Role::Toplevel
            } by {
                assert(old(self).surfaces_spec().contains_key(old(self).space_spec()[i].surface));
            }
        }
        id
    }

    /// Places toplevel `id` at `(x, y)` on top of the space.
    fn map_element(&mut self, id: u64, x: i32, y: i32, activate: bool)
        requires
            old(self).wf(),
            old(self).surfaces_spec().contains_key(id),
            old(self).surfaces_spec()[id].role == Role::Toplevel,
        ensures
            final(self).wf(),
            final(self).space_spec() == space_after_map(old(self).space_spec(), id, x, y, activate),
            final(self).surfaces_spec() == old(self).surfaces_spec(),
            final(self).next_surface_spec() == old(self).next_surface_spec(),
            final(self).last_grab_spec() == old(self).last_grab_spec(),
            final(self).last_reposition_spec() == old(self).last_reposition_spec(),
    {
        let ghost s = self.space@;
        let mut kept: Vec<MappedElement> = Vec::new();
        let mut was_active = false;
        let mut i: usize = 0;
        while i < self.space.len()
            invariant
                s == self.space@,
                i <= s.len(),
                kept@ == others(s.take(i as int), id, activate),
                was_active == exists|j: int| 0 <= j < i && #[trigger] s[j].surface == id && s[j].activated,
            decreases s.len() - i,
        {
            let e = self.space[i];
            assert(s.take(i as int + 1).drop_last() =~= s.take(i as int));
            assert(s.take(i as int + 1).last() == e);
            if e.surface == id {
                if e.activated {
                    was_active = true;
                }
            } else if activate {
                kept.push(MappedElement { activated: false, ..e });
            } else {
                kept.push(e);
            }
            i = i + 1;
        }
        assert(s.take(s.len() as int) =~= s);
        kept.push(MappedElement { surface: id, x, y, activated: activate || was_active });
        self.space = kept;
        proof {
            lemma_others(s, id, activate);
            let o = others(s, id, activate);
            let n = self.space@;
            assert(n == o.push(MappedElement { surface: id, x, y, activated: activate || was_active }));
            assert forall|j: int| 0 <= j < n.len() implies {
                &&& self.surfaces_spec().contains_key(#[trigger] n[j].surface)
                &&& self.surfaces_spec()[n[j].surface].role == Role::Toplevel
            } by {
                if j < o.len() {
                    assert(n[j] == o[j]);
                    let k = choose|k: int| 0 <= k < s.len() && s[k].surface == o[j].surface;
                    assert(old(self).surfaces_spec().contains_key(old(self).space_spec()[k].surface));
                }
            }
            assert forall|a: int, b: int| 0 <= a < b < n.len() implies n[a].surface != n[b].surface by {
                if b < o.len() {
                    assert(n[a] == o[a] && n[b] == o[b]);
                } else {
                    assert(n[a] == o[a]);
                }
            }
        }
    }

    /// A new desktop-shell toplevel: the surface takes the toplevel role and
    /// is mapped at the origin, not activated. Returns `false`, changing
    /// nothing, when the surface is unknown or already has another role.
    pub fn new_toplevel(&mut self, id: u64) -> (r: bool)
        requires
            old(self).wf(),
        ensures
            final(self).wf(),
            r == (old(self).surfaces_spec().contains_key(id) && (old(self).surfaces_spec()[id].role
                == Role::Unassigned || old(self).surfaces_spec()[id].role == Role::Toplevel)),
            final(self).next_surface_spec() == old(self).next_surface_spec(),
            final(self).surfaces_spec().dom() == old(self).surfaces_spec().dom(),
            !r ==> final(self).space_spec() == old(self).space_spec(),
            !r ==> final(self).surfaces_spec() == old(self).surfaces_spec(),
            r ==> final(self).surfaces_spec()[id] == (Surface { role: Role::Toplevel, ..old(self).surfaces_spec()[id] }),
            r ==> final(self).space_spec() == space_after_map(old(self).space_spec(), id, 0, 0, false),
            r && !old(self).mapped(id) ==> final(self).space_spec().last() == (MappedElement {
                surface: id,
                x: 0,
                y: 0,
                activated: false,
            }),
            forall|k: u64| k != id ==> #[trigger] final(self).surfaces_spec()[k] == old(self).surfaces_spec()[k],
    {
        proof {
            if !old(self).mapped(id) {
                assert(!was_activated(old(self).space_spec(), id));
            }
        }
        match self.surfaces.remove(&id) {
            None => {
                proof {
                    assert(self.surfaces@ =~= old(self).surfaces_spec());
                }
                false
            },
            Some(mut surface) => {
                if surface.role != Role::Unassigned && surface.role != Role::Toplevel {
                    self.surfaces.insert(id, surface);
                    proof {
                        assert(self.surfaces@ =~= old(self).surfaces_spec());
                    }
                    return false;
                }
                surface.role = Role::Toplevel;
                self.surfaces.insert(id, surface);
                proof {
                    assert(self.surfaces@.dom() =~= old(self).surfaces_spec().dom());
                    assert forall|k: u64| #[trigger] self.surfaces_spec().contains_key(k) implies k < self.next_surface_spec() by {
                        assert(old(self).surfaces_spec().contains_key(k));
                    }
                    assert forall|i: int| 0 <= i < self.space_spec().len() implies {
                        &&& self.surfaces_spec().contains_key(#[trigger] self.space_spec()[i].surface)
                        &&& self.surfaces_spec()[self.space_spec()[i].surface].role == Role::Toplevel
                    } by {
                        assert(old(self).surfaces_spec().contains_key(old(self).space_spec()[i].surface));
                    }
                }
                self.map_element(id, 0, 0, false);
                true
            },
        }
    }

    /// Attaches buffer `buffer` to surface `id`, to take effect at the next
    /// commit. Returns `false`, changing nothing, for an unknown surface.
    pub fn attach(&mut self, id: u64, buffer: u64) -> (r: bool)
        requires
            old(self).wf(),
        ensures
            final(self).wf(),
            r == old(self).surfaces_spec().contains_key(id),
            final(self).space_spec() == old(self).space_spec(),
            final(self).next_surface_spec() == old(self).next_surface_spec(),
            final(self).surfaces_spec().dom() == old(self).surfaces_spec().dom(),
            forall|k: u64| k != id ==> #[trigger] final(self).surfaces_spec()[k] == old(self).surfaces_spec()[k],
            r ==> final(self).surfaces_spec()[id] == (Surface {
                pending_buffer: Some(buffer),
                ..old(self).surfaces_spec()[id]
            }),
    {
        match self.surfaces.remove(&id) {
            None => {
                proof {
                    assert(self.surfaces@ =~= old(self).surfaces_spec());
                }
                false
            },
            Some(mut surface) => {
                surface.pending_buffer = Some(buffer);
                self.surfaces.insert(id, surface);
                proof {
                    assert(self.surfaces@.dom() =~= old(self).surfaces_spec().dom());
                    lemma_wf_after_update(*old(self), *self, id);
                }
                true
            },
        }
    }

    /// Adds a damaged region to surface `id`, to take effect at the next
    /// commit. Returns `false`, changing nothing, for an unknown surface.
    pub fn damage(&mut self, id: u64, region: Rectangle) -> (r: bool)
        requires
            old(self).wf(),
        ensures
            final(self).wf(),
            r == old(self).surfaces_spec().contains_key(id),
            final(self).space_spec() == old(self).space_spec(),
            final(self).next_surface_spec() == old(self).next_surface_spec(),
            final(self).surfaces_spec().dom() == old(self).surfaces_spec().dom(),
            forall|k: u64| k != id ==> #[trigger] final(self).surfaces_spec()[k] == old(self).surfaces_spec()[k],
            r ==> final(self).surfaces_spec()[id].pending_damage@ == old(self).surfaces_spec()[id].pending_damage@.push(region),
            r ==> final(self).surfaces_spec()[id].current_damage@ == old(self).surfaces_spec()[id].current_damage@,
            r ==> final(self).surfaces_spec()[id].pending_buffer == old(self).surfaces_spec()[id].pending_buffer,
            r ==> final(self).surfaces_spec()[id].current_buffer == old(self).surfaces_spec()[id].current_buffer,
            r ==> final(self).surfaces_spec()[id].role == old(self).surfaces_spec()[id].role,
            r ==> final(self).surfaces_spec()[id].client == old(self).surfaces_spec()[id].client,
    {
        match self.surfaces.remove(&id) {
            None => {
                proof {
                    assert(self.surfaces@ =~= old(self).surfaces_spec());
                }
                false
            },
            Some(mut surface) => {
                surface.pending_damage.push(region);
                self.surfaces.insert(id, surface);
                proof {
                    assert(self.surfaces@.dom() =~= old(self).surfaces_spec().dom());
                    lemma_wf_after_update(*old(self), *self, id);
                }
                true
            },
        }
    }

    /// Commits surface `id`: the pending buffer, if any, becomes current and
    /// the pending damage becomes the current damage. Returns the buffer
    /// that is released to the client, if one was superseded.
    pub fn commit(&mut self, id: u64) -> (r: Option<u64>)
        requires
            old(self).wf(),
        ensures
            final(self).wf(),
            final(self).space_spec() == old(self).space_spec(),
            final(self).next_surface_spec() == old(self).next_surface_spec(),
            final(self).surfaces_spec().dom() == old(self).surfaces_spec().dom(),
            forall|k: u64| k != id ==> #[trigger] final(self).surfaces_spec()[k] == old(self).surfaces_spec()[k],
            !old(self).surfaces_spec().contains_key(id) ==> r is None && final(self).surfaces_spec() == old(self).surfaces_spec(),
            old(self).surfaces_spec().contains_key(id) ==> {
                let o = old(self).surfaces_spec()[id];
                let n = final(self).surfaces_spec()[id];
                &&& r == released_by_commit(o)
                &&& n.current_buffer == (if o.pending_buffer is Some { o.pending_buffer } else { o.current_buffer })
                &&& n.pending_buffer is None
                &&& n.current_damage@ == o.pending_damage@
                &&& n.pending_damage@.len() == 0
                &&& n.role == o.role
                &&& n.client == o.client
            },
    {
        match self.surfaces.remove(&id) {
            None => {
                proof {
                    assert(self.surfaces@ =~= old(self).surfaces_spec());
                }
                None
            },
            Some(surface) => {
                let released = match (surface.pending_buffer, surface.current_buffer) {
                    (Some(p), Some(c)) => if p != c { Some(c) } else { None },
                    _ => None,
                };
                let current = match surface.pending_buffer {
                    Some(p) => Some(p),
                    None => surface.current_buffer,
                };
                let Surface { client, role, pending_damage, .. } = surface;
                let committed = Surface {
                    client,
                    role,
                    pending_buffer: None,
                    current_buffer: current,
                    pending_damage: Vec::new(),
                    current_damage: pending_damage,
                };
                self.surfaces.insert(id, committed);
                proof {
                    assert(self.surfaces@.dom() =~= old(self).surfaces_spec().dom());
                    lemma_wf_after_update(*old(self), *self, id);
                }
                released
            },
        }
    }

    /// Destroys surface `id`: it leaves the space and its current buffer is
    /// returned for release.
    #[verifier::rlimit(40)]
    pub fn destroy_surface(&mut self, id: u64) -> (r: Option<u64>)
        requires
            old(self).wf(),
        ensures
            final(self).wf(),
            final(self).surfaces_spec() == old(self).surfaces_spec().remove(id),
            final(self).next_surface_spec() == old(self).next_surface_spec(),
            !final(self).mapped(id),
            forall|k: u64| k != id ==> (#[trigger] final(self).mapped(k) <==> old(self).mapped(k)),
            r == (if old(self).surfaces_spec().contains_key(id) { old(self).surfaces_spec()[id].current_buffer } else { None }),
    {
        let removed = self.surfaces.remove(&id);
        let mut kept: Vec<MappedElement> = Vec::new();
        let ghost s = self.space@;
        let mut i: usize = 0;
        while i < self.space.len()
            invariant
                s == self.space@,
                i <= s.len(),
                kept@ == others(s.take(i as int), id, false),
            decreases s.len() - i,
        {
            let e = self.space[i];
            assert(s.take(i as int + 1).drop_last() =~= s.take(i as int));
            assert(s.take(i as int + 1).last() == e);
            if e.surface != id {
                kept.push(e);
            }
            i = i + 1;
        }
        assert(s.take(s.len() as int) =~= s);
        self.space = kept;
        proof {
            lemma_others(s, id, false);
            lemma_others_keeps(s, id);
            let n = self.space@;
            assert forall|j: int| 0 <= j < n.len() implies {
                &&& self.surfaces_spec().contains_key(#[trigger] n[j].surface)
                &&& self.surfaces_spec()[n[j].surface].role == Role::Toplevel
            } by {
                let k = choose|k: int| 0 <= k < s.len() && s[k].surface == n[j].surface;
                assert(old(self).surfaces_spec().contains_key(old(self).space_spec()[k].surface));
            }
            assert forall|k: u64| #[trigger] self.surfaces_spec().contains_key(k) implies k < self.next_surface_spec() by {
                assert(old(self).surfaces_spec().contains_key(k));
            }
            assert forall|k: u64| k != id implies (#[trigger] self.mapped(k) <==> old(self).mapped(k)) by {
                if old(self).mapped(k) {
                    let a = choose|a: int| 0 <= a < s.len() && #[trigger] s[a].surface == k;
                    assert(exists|b: int| 0 <= b < n.len() && n[b].surface == s[a].surface);
                    let b = choose|b: int| 0 <= b < n.len() && n[b].surface == s[a].surface;
                    assert(self.space_spec()[b].surface == k);
                }
                if self.mapped(k) {
                    let b = choose|b: int| 0 <= b < n.len() && #[trigger] n[b].surface == k;
                    let a = choose|a: int| 0 <= a < s.len() && s[a].surface == n[b].surface;
                    assert(old(self).space_spec()[a].surface == k);
                }
            }
        }
        match removed {
            Some(surface) => surface.current_buffer,
            None => None,
        }
    }

    /// A new popup: the surface takes the popup role. Positioning is left to
    /// the host. Returns `false`, changing nothing, when the surface is
    /// unknown or already has another role.
    pub fn new_popup(&mut self, id: u64) -> (r: bool)
        requires
            old(self).wf(),
        ensures
            final(self).wf(),
            r == (old(self).surfaces_spec().contains_key(id) && (old(self).surfaces_spec()[id].role
                == Role::Unassigned || old(self).surfaces_spec()[id].role == Role::Popup)),
            final(self).space_spec() == old(self).space_spec(),
            final(self).next_surface_spec() == old(self).next_surface_spec(),
            final(self).surfaces_spec().dom() == old(self).surfaces_spec().dom(),
            forall|k: u64| k != id ==> #[trigger] final(self).surfaces_spec()[k] == old(self).surfaces_spec()[k],
            !r ==> final(self).surfaces_spec() == old(self).surfaces_spec(),
            r ==> final(self).surfaces_spec()[id] == (Surface { role: Role::Popup, ..old(self).surfaces_spec()[id] }),
    {
        match self.surfaces.remove(&id) {
            None => {
                proof {
                    assert(self.surfaces@ =~= old(self).surfaces_spec());
                }
                false
            },
            Some(mut surface) => {
                if surface.role != Role::Unassigned && surface.role != Role::Popup {
                    self.surfaces.insert(id, surface);
                    proof {
                        assert(self.surfaces@ =~= old(self).surfaces_spec());
                    }
                    return false;
                }
                proof {
                    assert(!old(self).mapped(id)) by {
                        if old(self).mapped(id) {
                            let i = choose|i: int| 0 <= i < old(self).space_spec().len() && #[trigger] old(self).space_spec()[i].surface == id;
                        }
                    }
                }
                surface.role = Role::Popup;
                self.surfaces.insert(id, surface);
                proof {
                    assert(self.surfaces@.dom() =~= old(self).surfaces_spec().dom());
                    assert forall|k: u64| #[trigger] self.surfaces_spec().contains_key(k) implies k < self.next_surface_spec() by {
                        assert(old(self).surfaces_spec().contains_key(k));
                    }
                    assert forall|i: int| 0 <= i < self.space_spec().len() implies {
                        &&& self.surfaces_spec().contains_key(#[trigger] self.space_spec()[i].surface)
                        &&& self.surfaces_spec()[self.space_spec()[i].surface].role == Role::Toplevel
                    } by {
                        assert(old(self).surfaces_spec().contains_key(old(self).space_spec()[i].surface));
                    }
                }
                true
            },
        }
    }

    /// Records a popup grab request; grabs have no effect in this core.
    pub fn grab(&mut self, id: u64, serial: u32)
        requires
            old(self).wf(),
        ensures
            final(self).wf(),
            final(self).last_grab_spec() == Some(PopupRequest { surface: id, value: serial }),
            final(self).surfaces_spec() == old(self).surfaces_spec(),
            final(self).space_spec() == old(self).space_spec(),
            final(self).next_surface_spec() == old(self).next_surface_spec(),
            final(self).last_reposition_spec() == old(self).last_reposition_spec(),
    {
        self.last_grab = Some(PopupRequest { surface: id, value: serial });
    }

    /// Records a popup reposition request; positioning is left to the host.
    pub fn reposition_request(&mut self, id: u64, token: u32)
        requires
            old(self).wf(),
        ensures
            final(self).wf(),
            final(self).last_reposition_spec() == Some(PopupRequest { surface: id, value: token }),
            final(self).surfaces_spec() == old(self).surfaces_spec(),
            final(self).space_spec() == old(self).space_spec(),
            final(self).next_surface_spec() == old(self).next_surface_spec(),
            final(self).last_grab_spec() == old(self).last_grab_spec(),
    {
        self.last_reposition = Some(PopupRequest { surface: id, value: token });
    }
}

proof fn lemma_wf_after_update(a: Shell, b: Shell, id: u64)
    requires
        a.wf(),
        b.space_spec() == a.space_spec(),
        b.next_surface_spec() == a.next_surface_spec(),
        b.surfaces_spec().dom() == a.surfaces_spec().dom(),
        a.surfaces_spec().contains_key(id),
        b.surfaces_spec()[id].role == a.surfaces_spec()[id].role,
        forall|k: u64| k != id ==> #[trigger] b.surfaces_spec()[k] == a.surfaces_spec()[k],
    ensures
        b.wf(),
{
    assert forall|k: u64| #[trigger] b.surfaces_spec().contains_key(k) implies k < b.next_surface_spec() by {
        assert(a.surfaces_spec().contains_key(k));
    }
    assert forall|i: int| 0 <= i < b.space_spec().len() implies {
        &&& b.surfaces_spec().contains_key(#[trigger] b.space_spec()[i].surface)
        &&& b.surfaces_spec()[b.space_spec()[i].surface].role == Role::Toplevel
    } by {
        assert(a.surfaces_spec().contains_key(a.space_spec()[i].surface));
    }
}

proof fn lemma_others_keeps(s: Seq<MappedElement>, id: u64)
    ensures
        forall|i: int|
            0 <= i < s.len() && #[trigger] s[i].surface != id ==> exists|j: int|
                0 <= j < others(s, id, false).len() && others(s, id, false)[j].surface == s[i].surface,
    decreases s.len(),
{
    if s.len() > 0 {
        let t = s.drop_last();
        lemma_others_keeps(t, id);
        let o = others(s, id, false);
        let r = others(t, id, false);
        assert forall|i: int| 0 <= i < s.len() && #[trigger] s[i].surface != id implies exists|j: int|
            0 <= j < o.len() && o[j].surface == s[i].surface by {
            if i < t.len() {
                assert(t[i] == s[i]);
                let j = choose|j: int| 0 <= j < r.len() && r[j].surface == t[i].surface;
                assert(o[j] == r[j]);
            } else {
                assert(o[o.len() - 1].surface == s[i].surface);
            }
        }
    }
}

} // verus!
