//! The seat: focus slots, the pressed-key set, drag-and-drop and tablet
//! cursor bookkeeping.

use vstd::prelude::*;
use std::collections::HashMap;
use crate::input::KeyState;

verus! {

broadcast use vstd::std_specs::hash::group_hash_axioms;

/// The start of a drag: its data source and optional icon surface.
#[derive(Clone, Copy, Debug, PartialEq, Eq, Structural)]
pub struct DragStart {
    pub source: Option<u64>,
    pub icon: Option<u64>,
}

/// The end of a drag: the surface it was dropped on and whether the drop
/// was accepted.
#[derive(Clone, Copy, Debug, PartialEq, Eq, Structural)]
pub struct DropRecord {
    pub target: Option<u64>,
    pub validated: bool,
}

/// The input capabilities a seat offers.
#[derive(Clone, Copy, Debug, PartialEq, Eq, Structural)]
pub struct Capabilities {
    pub pointer: bool,
    pub keyboard: bool,
    pub touch: bool,
}

/// The image a tablet tool's cursor shows.
#[derive(Debug)]
pub enum CursorImage {
    Hidden,
    Named(String),
    Surface(u64),
}

/// The set after pressing each key of `keys` in order.
pub open spec fn after_presses(s: Set<u32>, keys: Seq<u32>) -> Set<u32>
    decreases keys.len(),
{
    if keys.len() == 0 { s } else { after_presses(s, keys.drop_last()).insert(keys.last()) }
}

/// The set after releasing each key of `keys` in order.
pub open spec fn after_releases(s: Set<u32>, keys: Seq<u32>) -> Set<u32>
    decreases keys.len(),
{
    if keys.len() == 0 { s } else { after_releases(s, keys.drop_last()).remove(keys.last()) }
}

/// One user's input capabilities and their state.
pub struct Seat {
    capabilities: Capabilities,
    keyboard_focus: Option<u64>,
    pointer_focus: Option<u64>,
    touch_focus: Option<u64>,
    pressed: Vec<u32>,
    drag: Option<DragStart>,
    last_drop: Option<DropRecord>,
    tool_images: HashMap<u64, CursorImage>,
}

impl Seat {
    /// The capabilities offered.
    pub closed spec fn capabilities_spec(&self) -> Capabilities {
        self.capabilities
    }

    /// The surface with keyboard focus.
    pub closed spec fn keyboard_focus_spec(&self) -> Option<u64> {
        self.keyboard_focus
    }

    /// The surface with pointer focus.
    pub closed spec fn pointer_focus_spec(&self) -> Option<u64> {
        self.pointer_focus
    }

    /// The surface with touch focus.
    pub closed spec fn touch_focus_spec(&self) -> Option<u64> {
        self.touch_focus
    }

    /// The keys held down.
    pub closed spec fn pressed_spec(&self) -> Set<u32> {
        self.pressed@.to_set()
    }

    /// The drag in progress, if any.
    pub closed spec fn drag_spec(&self) -> Option<DragStart> {
        self.drag
    }

    /// The last drop.
    pub closed spec fn last_drop_spec(&self) -> Option<DropRecord> {
        self.last_drop
    }

    /// The cursor image of each tablet tool, by tool serial.
    pub closed spec fn tool_images_spec(&self) -> Map<u64, CursorImage> {
        self.tool_images@
    }

    /// The pressed keys are held once each.
    pub closed spec fn wf(&self) -> bool {
        self.pressed@.no_duplicates()
    }

    /// A seat with no capability, no focus, no key down, no drag and no
    /// tool image.
    pub fn new() -> (r: Self)
        ensures
            r.wf(),
            r.capabilities_spec() == (Capabilities { pointer: false, keyboard: false, touch: false }),
            r.keyboard_focus_spec() is None,
            r.pointer_focus_spec() is None,
            r.touch_focus_spec() is None,
            r.pressed_spec() == Set::<u32>::empty(),
            r.drag_spec() is None,
            r.last_drop_spec() is None,
            r.tool_images_spec() == Map::<u64, CursorImage>::empty(),
    {
        let r = Seat {
            capabilities: Capabilities { pointer: false, keyboard: false, touch: false },
            keyboard_focus: None,
            pointer_focus: None,
            touch_focus: None,
            pressed: Vec::new(),
            drag: None,
            last_drop: None,
            tool_images: HashMap::new(),
        };
        assert(r.pressed@.to_set() =~= Set::<u32>::empty());
        r
    }

    /// The capabilities offered.
    pub fn capabilities(&self) -> (r: Capabilities)
        ensures
            r == self.capabilities_spec(),
    {
        self.capabilities
    }

    /// Offers a pointer.
    pub fn add_pointer(&mut self)
        ensures
            final(self).capabilities_spec() == (Capabilities { pointer: true, ..old(self).capabilities_spec() }),
            final(self).keyboard_focus_spec() == old(self).keyboard_focus_spec(),
            final(self).pointer_focus_spec() == old(self).pointer_focus_spec(),
            final(self).touch_focus_spec() == old(self).touch_focus_spec(),
            final(self).pressed_spec() == old(self).pressed_spec(),
            final(self).wf() == old(self).wf(),
    {
        self.capabilities.pointer = true;
    }

    /// Offers a keyboard.
    pub fn add_keyboard(&mut self)
        ensures
            final(self).capabilities_spec() == (Capabilities { keyboard: true, ..old(self).capabilities_spec() }),
            final(self).keyboard_focus_spec() == old(self).keyboard_focus_spec(),
            final(self).pointer_focus_spec() == old(self).pointer_focus_spec(),
            final(self).touch_focus_spec() == old(self).touch_focus_spec(),
            final(self).pressed_spec() == old(self).pressed_spec(),
            final(self).wf() == old(self).wf(),
    {
        self.capabilities.keyboard = true;
    }

    /// Offers touch input.
    pub fn add_touch(&mut self)
        ensures
            final(self).capabilities_spec() == (Capabilities { touch: true, ..old(self).capabilities_spec() }),
            final(self).keyboard_focus_spec() == old(self).keyboard_focus_spec(),
            final(self).pointer_focus_spec() == old(self).pointer_focus_spec(),
            final(self).touch_focus_spec() == old(self).touch_focus_spec(),
            final(self).pressed_spec() == old(self).pressed_spec(),
            final(self).wf() == old(self).wf(),
    {
        self.capabilities.touch = true;
    }

    /// The surface with keyboard focus.
    pub fn keyboard_focus(&self) -> (r: Option<u64>)
        ensures
            r == self.keyboard_focus_spec(),
    {
        self.keyboard_focus
    }

    /// The surface with pointer focus.
    pub fn pointer_focus(&self) -> (r: Option<u64>)
        ensures
            r == self.pointer_focus_spec(),
    {
        self.pointer_focus
    }

    /// The surface with touch focus.
    pub fn touch_focus(&self) -> (r: Option<u64>)
        ensures
            r == self.touch_focus_spec(),
    {
        self.touch_focus
    }

    /// Gives keyboard focus to `surface`, or to nothing.
    pub fn set_keyboard_focus(&mut self, surface: Option<u64>)
        ensures
            final(self).keyboard_focus_spec() == surface,
            final(self).pointer_focus_spec() == old(self).pointer_focus_spec(),
            final(self).touch_focus_spec() == old(self).touch_focus_spec(),
            final(self).pressed_spec() == old(self).pressed_spec(),
            final(self).wf() == old(self).wf(),
    {
        self.keyboard_focus = surface;
    }

    /// Gives pointer focus to `surface`, or to nothing.
    pub fn set_pointer_focus(&mut self, surface: Option<u64>)
        ensures
            final(self).pointer_focus_spec() == surface,
            final(self).keyboard_focus_spec() == old(self).keyboard_focus_spec(),
            final(self).touch_focus_spec() == old(self).touch_focus_spec(),
            final(self).pressed_spec() == old(self).pressed_spec(),
            final(self).wf() == old(self).wf(),
    {
        self.pointer_focus = surface;
    }

    /// Gives touch focus to `surface`, or to nothing.
    pub fn set_touch_focus(&mut self, surface: Option<u64>)
        ensures
            final(self).touch_focus_spec() == surface,
            final(self).keyboard_focus_spec() == old(self).keyboard_focus_spec(),
            final(self).pointer_focus_spec() == old(self).pointer_focus_spec(),
            final(self).pressed_spec() == old(self).pressed_spec(),
            final(self).wf() == old(self).wf(),
    {
        self.touch_focus = surface;
    }

    /// Whether `key` is held down.
    pub fn is_pressed(&self, key: u32) -> (r: bool)
        ensures
            r == self.pressed_spec().contains(key),
    {
        let mut i: usize = 0;
        while i < self.pressed.len()
            invariant
                i <= self.pressed@.len(),
                forall|j: int| 0 <= j < i ==> self.pressed@[j] != key,
            decreases self.pressed@.len() - i,
        {
            if self.pressed[i] == key {
                assert(self.pressed@.to_set().contains(self.pressed@[i as int]));
                return true;
            }
            i = i + 1;
        }
        false
    }

    fn position(&self, key: u32) -> (r: Option<usize>)
        ensures
            match r {
                Some(i) => i < self.pressed@.len() && self.pressed@[i as int] == key,
                None => forall|j: int| 0 <= j < self.pressed@.len() ==> self.pressed@[j] != key,
            },
    {
        let mut i: usize = 0;
        while i < self.pressed.len()
            invariant
                i <= self.pressed@.len(),
                forall|j: int| 0 <= j < i ==> self.pressed@[j] != key,
            decreases self.pressed@.len() - i,
        {
            if self.pressed[i] == key {
                return Some(i);
            }
            i = i + 1;
        }
        None
    }

    /// How many keys are held down.
    pub fn pressed_count(&self) -> (r: usize)
        requires
            self.wf(),
        ensures
            r == self.pressed_spec().len(),
    {
        proof {
            self.pressed@.unique_seq_to_set();
        }
        self.pressed.len()
    }

    /// Tracks a key event: a press adds the key to the pressed set, a release
    /// takes it out.
    pub fn key_input(&mut self, key: u32, state: KeyState)
        requires
            old(self).wf(),
        ensures
            final(self).wf(),
            state == KeyState::Pressed ==> final(self).pressed_spec() == old(self).pressed_spec().insert(key),
            state == KeyState::Released ==> final(self).pressed_spec() == old(self).pressed_spec().remove(key),
            final(self).keyboard_focus_spec() == old(self).keyboard_focus_spec(),
            final(self).pointer_focus_spec() == old(self).pointer_focus_spec(),
            final(self).touch_focus_spec() == old(self).touch_focus_spec(),
    {
        let ghost p = self.pressed@;
        let found = self.position(key);
        match state {
            KeyState::Pressed => {
                if found.is_none() {
                    self.pressed.push(key);
                    proof {
                        assert(self.pressed@.to_set() =~= p.to_set().insert(key)) by {
                            assert forall|x: u32| self.pressed@.to_set().contains(x) implies p.to_set().insert(key).contains(x) by {
                                let j = choose|j: int| 0 <= j < self.pressed@.len() && self.pressed@[j] == x;
                                if j < p.len() {
                                    assert(p[j] == x);
                                }
                            }
                            assert forall|x: u32| p.to_set().insert(key).contains(x) implies self.pressed@.to_set().contains(x) by {
                                if x == key {
                                    assert(self.pressed@[p.len() as int] == x);
                                } else {
                                    let j = choose|j: int| 0 <= j < p.len() && p[j] == x;
                                    assert(self.pressed@[j] == x);
                                }
                            }
                        }
                    }
                } else {
                    let i = found.unwrap();
                    proof {
                        assert(p.to_set().contains(p[i as int]));
                        assert(p.to_set() =~= p.to_set().insert(key));
                    }
                }
            },
            KeyState::Released => {
                if found.is_some() {
                    let i = found.unwrap();
                    proof {
                        p.remove_ensures(i as int);
                    }
                    self.pressed.remove(i);
                    proof {
                        let n = self.pressed@;
                        assert forall|a: int, b: int| 0 <= a < b < n.len() implies n[a] != n[b] by {
                            let ia = if a < i { a } else { a + 1 };
                            let ib = if b < i { b } else { b + 1 };
                            assert(n[a] == p[ia] && n[b] == p[ib]);
                        }
                        assert(n.to_set() =~= p.to_set().remove(key)) by {
                            assert forall|x: u32| n.to_set().contains(x) implies p.to_set().remove(key).contains(x) by {
                                let j = choose|j: int| 0 <= j < n.len() && n[j] == x;
                                let ij = if j < i { j } else { j + 1 };
                                assert(p[ij] == x);
                                assert(ij != i);
                            }
                            assert forall|x: u32| p.to_set().remove(key).contains(x) implies n.to_set().contains(x) by {
                                let j = choose|j: int| 0 <= j < p.len() && p[j] == x;
                                assert(j != i);
                                if j < i {
                                    assert(n[j] == x);
                                } else {
                                    assert(n[j - 1] == x);
                                }
                            }
                        }
                    }
                } else {
                    proof {
                        assert(!p.to_set().contains(key)) by {
                            if p.to_set().contains(key) {
                                let j = choose|j: int| 0 <= j < p.len() && p[j] == key;
                            }
                        }
                        assert(p.to_set() =~= p.to_set().remove(key));
                    }
                }
            },
        }
    }

    /// Records the start of a drag.
    pub fn started(&mut self, source: Option<u64>, icon: Option<u64>)
        ensures
            final(self).drag_spec() == Some(DragStart { source, icon }),
            final(self).last_drop_spec() == old(self).last_drop_spec(),
            final(self).pressed_spec() == old(self).pressed_spec(),
            final(self).wf() == old(self).wf(),
    {
        self.drag = Some(DragStart { source, icon });
    }

    /// Records a drop; the drag is over.
    pub fn dropped(&mut self, target: Option<u64>, validated: bool)
        ensures
            final(self).drag_spec() is None,
            final(self).last_drop_spec() == Some(DropRecord { target, validated }),
            final(self).pressed_spec() == old(self).pressed_spec(),
            final(self).wf() == old(self).wf(),
    {
        self.drag = None;
        self.last_drop = Some(DropRecord { target, validated });
    }

    /// Records which cursor image tablet tool `tool` should show.
    pub fn tablet_tool_image(&mut self, tool: u64, image: CursorImage)
        ensures
            final(self).tool_images_spec() == old(self).tool_images_spec().insert(tool, image),
            final(self).pressed_spec() == old(self).pressed_spec(),
            final(self).wf() == old(self).wf(),
    {
        self.tool_images.insert(tool, image);
    }

    /// The cursor image recorded for tablet tool `tool`.
    pub fn tool_image(&self, tool: u64) -> (r: Option<&CursorImage>)
        ensures
            r == (if self.tool_images_spec().contains_key(tool) { Some(&self.tool_images_spec()[tool]) } else { None }),
    {
        self.tool_images.get(&tool)
    }
}

proof fn lemma_after_presses_contains(s: Set<u32>, keys: Seq<u32>, x: u32)
    ensures
        after_presses(s, keys).contains(x) <==> (s.contains(x) || keys.contains(x)),
    decreases keys.len(),
{
    if keys.len() > 0 {
        let t = keys.drop_last();
        lemma_after_presses_contains(s, t, x);
        if t.contains(x) {
            let j = choose|j: int| 0 <= j < t.len() && t[j] == x;
            assert(keys[j] == x);
        }
        if keys.contains(x) && x != keys.last() {
            let j = choose|j: int| 0 <= j < keys.len() && keys[j] == x;
            assert(t[j] == x);
        }
    }
}

proof fn lemma_after_releases_contains(s: Set<u32>, keys: Seq<u32>, x: u32)
    ensures
        after_releases(s, keys).contains(x) <==> (s.contains(x) && !keys.contains(x)),
    decreases keys.len(),
{
    if keys.len() > 0 {
        let t = keys.drop_last();
        lemma_after_releases_contains(s, t, x);
        if t.contains(x) {
            let j = choose|j: int| 0 <= j < t.len() && t[j] == x;
            assert(keys[j] == x);
        }
        if keys.contains(x) && x != keys.last() {
            let j = choose|j: int| 0 <= j < keys.len() && keys[j] == x;
            assert(t[j] == x);
        }
    }
}

/// Pressing any keys and then releasing each of them, in any order, leaves
/// no key pressed.
pub proof fn lemma_presses_then_releases_empty(presses: Seq<u32>, releases: Seq<u32>)
    requires
        forall|i: int| 0 <= i < presses.len() ==> releases.contains(#[trigger] presses[i]),
    ensures
        after_releases(after_presses(Set::empty(), presses), releases) == Set::<u32>::empty(),
{
    let r = after_releases(after_presses(Set::empty(), presses), releases);
    assert forall|x: u32| !r.contains(x) by {
        lemma_after_releases_contains(after_presses(Set::empty(), presses), releases, x);
        lemma_after_presses_contains(Set::empty(), presses, x);
        if presses.contains(x) {
            let j = choose|j: int| 0 <= j < presses.len() && presses[j] == x;
            assert(releases.contains(presses[j]));
        }
    }
    assert(r =~= Set::<u32>::empty());
}

} // verus!
