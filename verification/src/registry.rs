//! The surface registry: what is known of each surface, by its id, and which
//! X11 window each surface is paired with.

use std::collections::HashMap;
use vstd::prelude::*;

use crate::geometry::Point;
use crate::geometry::Size;

verus! {

broadcast use vstd::std_specs::hash::group_hash_axioms;

/// An X11 window, as the compatibility bridge reports it.
#[derive(Debug, Clone, Copy, PartialEq, Eq)]
pub struct X11Window {
    /// The window's id in the nested X server.
    pub id: u32,
    /// The surface that shows the window's contents, once the bridge knows
    /// it.
    pub surface: Option<u64>,
    /// The window that this one declares itself subordinate to, if any.
    pub transient_for: Option<u32>,
    /// Where the window's top left corner lies.
    pub origin: Point,
}

/// The server-drawn frame around a toplevel.
#[derive(Debug, Clone, Copy, PartialEq, Eq, Structural)]
pub struct FrameState {
    /// By how much the frame shifts the window's contents.
    pub offset: Point,
    /// Whether the frame has to be drawn again.
    pub dirty: bool,
}

/// What is known of a toplevel beyond its being one.
#[derive(Debug, Clone, Copy, PartialEq, Eq)]
pub struct ToplevelState {
    /// Whether the toplevel has received its initial configuration.
    pub configured: bool,
    /// The server-drawn frame, where there is one.
    pub frame: Option<FrameState>,
}

/// What a surface is used for.
#[derive(Debug, Clone, Copy, PartialEq, Eq)]
pub enum Role {
    /// Nothing has decided yet.
    Unassigned,
    /// An independent window.
    Toplevel(ToplevelState),
    /// A window anchored to a parent surface.
    Popup,
    /// The pointer's image.
    Cursor,
}

/// How the pixels of a buffer are laid out.
#[derive(Debug, Clone, Copy, PartialEq, Eq, Structural)]
pub enum PixelFormat {
    Argb8888,
    Xrgb8888,
}

/// The contents attached to a surface.
#[derive(Debug, Clone, PartialEq, Eq)]
pub struct Buffer {
    pub format: PixelFormat,
    pub size: Size,
    /// Bytes from the start of one row to the start of the next.
    pub stride: i32,
    pub data: Vec<u8>,
}

/// What a buffer holds.
pub struct BufferContents {
    pub format: PixelFormat,
    pub size: Size,
    pub stride: i32,
    pub data: Seq<u8>,
}

impl View for Buffer {
    type V = BufferContents;

    open spec fn view(&self) -> BufferContents {
        BufferContents {
            format: self.format,
            size: self.size,
            stride: self.stride,
            data: self.data@,
        }
    }
}

/// The view of a buffer that may be absent.
pub open spec fn contents_of(buffer: Option<Buffer>) -> Option<BufferContents> {
    match buffer {
        Some(b) => Some(b@),
        None => None,
    }
}

/// The registry's record of one surface.
#[derive(Debug, Clone, PartialEq, Eq)]
pub struct SurfaceEntry {
    /// The X11 window that the surface is paired with.
    pub x11_window: Option<X11Window>,
    pub role: Role,
    pub buffer: Option<Buffer>,
    /// The ids of the surfaces registered as children, each once.
    pub children: Vec<u64>,
}

/// What the registry knows of one surface.
pub struct SurfaceState {
    pub window: Option<X11Window>,
    pub role: Role,
    pub buffer: Option<BufferContents>,
    pub children: Set<u64>,
}

impl View for SurfaceEntry {
    type V = SurfaceState;

    open spec fn view(&self) -> SurfaceState {
        SurfaceState {
            window: self.x11_window,
            role: self.role,
            buffer: contents_of(self.buffer),
            children: self.children@.to_set(),
        }
    }
}

impl SurfaceState {
    /// A surface of which nothing is known yet.
    pub open spec fn fresh() -> SurfaceState {
        SurfaceState { window: None, role: Role::Unassigned, buffer: None, children: Set::empty() }
    }
}

/// The surfaces with an entry for `id`, fresh if there was none.
pub open spec fn ensured(surfaces: Map<u64, SurfaceState>, id: u64) -> Map<u64, SurfaceState> {
    if surfaces.contains_key(id) {
        surfaces
    } else {
        surfaces.insert(id, SurfaceState::fresh())
    }
}

/// Surface `id` is paired with X11 window `window`.
pub open spec fn paired(surfaces: Map<u64, SurfaceState>, id: u64, window: u32) -> bool {
    &&& surfaces.contains_key(id)
    &&& surfaces[id].window matches Some(w)
    &&& w.id == window
}

/// Some surface is paired with X11 window `window`.
pub open spec fn is_bound(surfaces: Map<u64, SurfaceState>, window: u32) -> bool {
    exists|id: u64| paired(surfaces, id, window)
}

/// The surface that is paired with X11 window `window`, where one is.
pub open spec fn surface_bound_to(surfaces: Map<u64, SurfaceState>, window: u32) -> u64 {
    choose|id: u64| paired(surfaces, id, window)
}

/// No X11 window is paired with two surfaces.
pub open spec fn no_double_pairing(surfaces: Map<u64, SurfaceState>) -> bool {
    forall|a: u64, b: u64, window: u32|
        #![trigger paired(surfaces, a, window), paired(surfaces, b, window)]
        paired(surfaces, a, window) && paired(surfaces, b, window) ==> a == b
}

/// The surfaces after `id` was given a role; its entry is created if it
/// was missing.
pub open spec fn with_role(surfaces: Map<u64, SurfaceState>, id: u64, role: Role) -> Map<
    u64,
    SurfaceState,
> {
    let base = ensured(surfaces, id);
    base.insert(id, SurfaceState { role, ..base[id] })
}

/// The surfaces after `id` was given a buffer, or none; its entry is
/// created if it was missing.
pub open spec fn with_buffer(
    surfaces: Map<u64, SurfaceState>,
    id: u64,
    buffer: Option<BufferContents>,
) -> Map<u64, SurfaceState> {
    let base = ensured(surfaces, id);
    base.insert(id, SurfaceState { buffer, ..base[id] })
}

/// The surfaces after `id` was paired with `window`; its entry is created
/// if it was missing.
pub open spec fn with_window(surfaces: Map<u64, SurfaceState>, id: u64, window: X11Window) -> Map<
    u64,
    SurfaceState,
> {
    let base = ensured(surfaces, id);
    base.insert(id, SurfaceState { window: Some(window), ..base[id] })
}

/// Whether `parent` can take `child` as a child: it has an entry, it is
/// not the child itself, and it is not a cursor.
pub open spec fn accepts_child(surfaces: Map<u64, SurfaceState>, parent: u64, child: u64) -> bool {
    &&& parent != child
    &&& surfaces.contains_key(parent)
    &&& !(surfaces[parent].role is Cursor)
}

/// The surfaces after `child` was registered with `parent`.
pub open spec fn with_child(surfaces: Map<u64, SurfaceState>, parent: u64, child: u64) -> Map<
    u64,
    SurfaceState,
> {
    surfaces.insert(
        parent,
        SurfaceState { children: surfaces[parent].children.insert(child), ..surfaces[parent] },
    )
}

/// The children of `parent` that still have an entry.
pub open spec fn live_children_of(surfaces: Map<u64, SurfaceState>, parent: u64) -> Set<u64> {
    if surfaces.contains_key(parent) {
        surfaces[parent].children.filter(|c: u64| surfaces.contains_key(c))
    } else {
        Set::empty()
    }
}

/// Creating an entry, giving a role, attaching a buffer or registering a
/// child changes no pairing.
pub proof fn lemma_pairings_kept(surfaces: Map<u64, SurfaceState>, id: u64)
    ensures
        forall|x: u64, w: u32| #[trigger]
            paired(ensured(surfaces, id), x, w) <==> paired(surfaces, x, w),
        forall|role: Role, x: u64, w: u32| #[trigger]
            paired(with_role(surfaces, id, role), x, w) <==> paired(surfaces, x, w),
        forall|buffer: Option<BufferContents>, x: u64, w: u32| #[trigger]
            paired(with_buffer(surfaces, id, buffer), x, w) <==> paired(surfaces, x, w),
        forall|child: u64, x: u64, w: u32|
            surfaces.contains_key(id) ==> (#[trigger] paired(with_child(surfaces, id, child), x, w)
                <==> paired(surfaces, x, w)),
{
}

/// Pairing a surface with a window binds that window to it, frees the
/// window that it was paired with, and changes no other pairing.
pub proof fn lemma_pairings_after_window(surfaces: Map<u64, SurfaceState>, id: u64, window: X11Window)
    ensures
        forall|x: u64, w: u32| #[trigger]
            paired(with_window(surfaces, id, window), x, w) <==> (if x == id {
                w == window.id
            } else {
                paired(surfaces, x, w)
            }),
{
}

/// Whether `id` is among `ids`.
fn holds_id(ids: &Vec<u64>, id: u64) -> (found: bool)
    ensures
        found == ids@.contains(id),
{
    let mut i: usize = 0;
    while i < ids.len()
        invariant
            i <= ids.len(),
            forall|j: int| 0 <= j < i ==> ids@[j] != id,
        decreases ids.len() - i,
    {
        if ids[i] == id {
            return true;
        }
        i += 1;
    }
    false
}

/// The surfaces known so far, by id, with an index from each paired X11
/// window to its surface.
pub struct SurfaceRegistry {
    entries: HashMap<u64, SurfaceEntry>,
    by_window: HashMap<u32, u64>,
}

impl SurfaceRegistry {
    /// What is known of each surface.
    pub closed spec fn view(&self) -> Map<u64, SurfaceState> {
        Map::new(|id: u64| self.entries@.contains_key(id), |id: u64| self.entries@[id]@)
    }

    /// The index holds exactly the pairings that the entries record.
    pub closed spec fn wf(&self) -> bool {
        &&& forall|w: u32| #[trigger]
            self.by_window@.contains_key(w) ==> paired(self@, self.by_window@[w], w)
        &&& forall|id: u64, w: u32| #[trigger]
            paired(self@, id, w) ==> self.by_window@.contains_key(w) && self.by_window@[w] == id
    }

    /// In a registry, no X11 window is paired with two surfaces; that no
    /// surface is paired with two windows is in the shape of an entry.
    pub proof fn lemma_no_double_pairing(&self)
        requires
            self.wf(),
        ensures
            no_double_pairing(self@),
    {
    }

    /// No surfaces.
    pub fn new() -> (r: Self)
        ensures
            r.wf(),
            r@ == Map::<u64, SurfaceState>::empty(),
    {
        let r = SurfaceRegistry { entries: HashMap::new(), by_window: HashMap::new() };
        assert(r@ =~= Map::<u64, SurfaceState>::empty());
        r
    }

    /// Whether the surface has an entry.
    pub fn contains(&self, id: u64) -> (r: bool)
        ensures
            r == self@.contains_key(id),
    {
        self.entries.contains_key(&id)
    }

    /// The number of entries.
    pub fn len(&self) -> (n: usize)
        ensures
            n == self@.dom().len(),
    {
        assert(self@.dom() =~= self.entries@.dom());
        self.entries.len()
    }

    /// The entry of a surface.
    pub fn get(&self, id: u64) -> (r: Option<&SurfaceEntry>)
        ensures
            r is Some == self@.contains_key(id),
            r matches Some(e) ==> e@ == self@[id],
    {
        self.entries.get(&id)
    }

    /// The surface that is paired with an X11 window.
    pub fn surface_of_window(&self, window: u32) -> (r: Option<u64>)
        requires
            self.wf(),
        ensures
            r is Some == is_bound(self@, window),
            r matches Some(id) ==> id == surface_bound_to(self@, window) && paired(self@, id, window),
    {
        match self.by_window.get(&window) {
            Some(id) => {
                assert(paired(self@, *id, window));
                Some(*id)
            },
            None => None,
        }
    }

    /// Makes sure that the surface has an entry: a fresh one is created on
    /// first access. Returns whether it was created.
    pub fn get_or_create(&mut self, id: u64) -> (created: bool)
        requires
            old(self).wf(),
        ensures
            final(self).wf(),
            final(self)@ == ensured(old(self)@, id),
            created == !old(self)@.contains_key(id),
    {
        if self.entries.contains_key(&id) {
            false
        } else {
            let entry = SurfaceEntry {
                x11_window: None,
                role: Role::Unassigned,
                buffer: None,
                children: Vec::new(),
            };
            assert(entry@.children =~= Set::<u64>::empty());
            self.entries.insert(id, entry);
            assert(self@ =~= ensured(old(self)@, id));
            assert forall|s: u64, w: u32| #[trigger] paired(self@, s, w) implies paired(
                old(self)@,
                s,
                w,
            ) by {}
            true
        }
    }

    /// Drops the entry of a surface, and with it its pairing and its own
    /// child links. Ids of the surface that other entries hold as children
    /// stay where they are.
    pub fn remove(&mut self, id: u64) -> (removed: Option<SurfaceEntry>)
        requires
            old(self).wf(),
        ensures
            final(self).wf(),
            final(self)@ == old(self)@.remove(id),
            removed is Some == old(self)@.contains_key(id),
            removed matches Some(e) ==> e@ == old(self)@[id],
    {
        let removed = self.entries.remove(&id);
        match &removed {
            Some(entry) => {
                match entry.x11_window {
                    Some(w) => {
                        assert(paired(old(self)@, id, w.id));
                        self.by_window.remove(&w.id);
                    },
                    None => {},
                }
            },
            None => {},
        }
        assert(self@ =~= old(self)@.remove(id));
        assert forall|s: u64, w: u32| #[trigger] paired(self@, s, w) implies paired(
            old(self)@,
            s,
            w,
        ) && s != id by {}
        assert forall|w: u32| #[trigger] self.by_window@.contains_key(w) implies paired(
            self@,
            self.by_window@[w],
            w,
        ) by {
            assert(paired(old(self)@, old(self).by_window@[w], w));
        }
        removed
    }

    /// Gives a surface a role; its entry is created if it was missing.
    pub fn set_role(&mut self, id: u64, role: Role)
        requires
            old(self).wf(),
        ensures
            final(self).wf(),
            final(self)@ == with_role(old(self)@, id, role),
    {
        self.get_or_create(id);
        let ghost base = *self;
        let mut entry = self.take(id);
        entry.role = role;
        self.put(id, entry, Ghost(base));
        assert(self@ =~= with_role(old(self)@, id, role));
    }

    /// Attaches a buffer to a surface, or none; its entry is created if it
    /// was missing.
    pub fn set_buffer(&mut self, id: u64, buffer: Option<Buffer>)
        requires
            old(self).wf(),
        ensures
            final(self).wf(),
            final(self)@ == with_buffer(old(self)@, id, contents_of(buffer)),
    {
        self.get_or_create(id);
        let ghost base = *self;
        let mut entry = self.take(id);
        entry.buffer = buffer;
        self.put(id, entry, Ghost(base));
        assert(self@ =~= with_buffer(old(self)@, id, contents_of(buffer)));
    }

    /// Registers `child` as a child of `parent`, unless `parent` is the
    /// child itself, has no entry, or is a cursor: then nothing changes.
    pub fn add_child(&mut self, parent: u64, child: u64) -> (accepted: bool)
        requires
            old(self).wf(),
        ensures
            final(self).wf(),
            accepted == accepts_child(old(self)@, parent, child),
            accepted ==> final(self)@ == with_child(old(self)@, parent, child),
            !accepted ==> final(self)@ == old(self)@,
    {
        if parent == child {
            return false;
        }
        let acceptable = match self.entries.get(&parent) {
            Some(e) => match e.role {
                Role::Cursor => false,
                _ => true,
            },
            None => false,
        };
        if !acceptable {
            return false;
        }
        let ghost base = *self;
        let mut entry = self.take(parent);
        if !holds_id(&entry.children, child) {
            proof {
                entry.children@.lemma_push_to_set_commute(child);
            }
            entry.children.push(child);
        } else {
            assert(entry.children@.to_set().contains(child));
            assert(entry.children@.to_set().insert(child) =~= entry.children@.to_set());
        }
        self.put(parent, entry, Ghost(base));
        assert(self@ =~= with_child(old(self)@, parent, child));
        true
    }

    /// Pairs a surface with an X11 window, replacing the window that it was
    /// paired with; the surface's entry is created if it was missing.
    /// Where the window is paired with another surface, nothing changes.
    pub fn pair_window(&mut self, id: u64, window: X11Window) -> (done: bool)
        requires
            old(self).wf(),
        ensures
            final(self).wf(),
            done == (is_bound(old(self)@, window.id) ==> paired(old(self)@, id, window.id)),
            done ==> final(self)@ == with_window(old(self)@, id, window),
            !done ==> final(self)@ == old(self)@,
    {
        match self.by_window.get(&window.id) {
            Some(owner) => {
                assert(paired(self@, *owner, window.id));
                if *owner != id {
                    return false;
                }
            },
            None => {},
        }
        let ghost base = self@;
        let ghost base_index = self.by_window@;
        let mut entry = match self.entries.remove(&id) {
            Some(e) => e,
            None => {
                let e = SurfaceEntry {
                    x11_window: None,
                    role: Role::Unassigned,
                    buffer: None,
                    children: Vec::new(),
                };
                assert(e@.children =~= Set::<u64>::empty());
                e
            },
        };
        assert(entry@ == ensured(base, id)[id]);
        match entry.x11_window {
            Some(w) => {
                assert(paired(base, id, w.id));
                self.by_window.remove(&w.id);
            },
            None => {},
        }
        entry.x11_window = Some(window);
        self.by_window.insert(window.id, id);
        self.entries.insert(id, entry);
        assert(self@ =~= with_window(base, id, window));
        assert forall|s: u64, w: u32| #[trigger] paired(self@, s, w) implies self.by_window@.contains_key(
            w,
        ) && self.by_window@[w] == s by {
            if s != id {
                assert(paired(base, s, w));
                assert(base_index.contains_key(w) && base_index[w] == s);
            }
        }
        assert forall|w: u32| #[trigger] self.by_window@.contains_key(w) implies paired(
            self@,
            self.by_window@[w],
            w,
        ) by {
            if w != window.id {
                assert(base_index.contains_key(w));
                assert(paired(base, base_index[w], w));
            }
        }
        true
    }

    /// The children of a surface that still have an entry. Ids left behind
    /// by removed surfaces are passed over.
    pub fn live_children(&self, parent: u64) -> (live: Vec<u64>)
        ensures
            live@.to_set() == live_children_of(self@, parent),
    {
        let mut live: Vec<u64> = Vec::new();
        match self.entries.get(&parent) {
            Some(entry) => {
                let mut i: usize = 0;
                while i < entry.children.len()
                    invariant
                        i <= entry.children.len(),
                        forall|c: u64|
                            live@.contains(c) <==> (entry.children@.take(i as int).contains(c)
                                && self@.contains_key(c)),
                    decreases entry.children.len() - i,
                {
                    let c = entry.children[i];
                    let ghost before = live@;
                    if self.entries.contains_key(&c) {
                        live.push(c);
                    }
                    proof {
                        let prefix = entry.children@.take(i as int);
                        let next = entry.children@.take(i + 1);
                        assert(next =~= prefix.push(c));
                        assert forall|x: u64|
                            live@.contains(x) <==> (next.contains(x) && self@.contains_key(
                                x,
                            )) by {
                            if next.contains(x) {
                                let k = choose|k: int| 0 <= k < next.len() && next[k] == x;
                                if k < i {
                                    assert(prefix[k] == x);
                                }
                            }
                            if prefix.contains(x) {
                                let k = choose|k: int| 0 <= k < prefix.len() && prefix[k] == x;
                                assert(next[k] == x);
                            }
                            assert(next[i as int] == c);
                            if before.contains(x) {
                                let k = choose|k: int| 0 <= k < before.len() && before[k] == x;
                                assert(live@[k] == x);
                            }
                            if live@.contains(x) && live@.len() > before.len() {
                                let k = choose|k: int| 0 <= k < live@.len() && live@[k] == x;
                                if k < before.len() {
                                    assert(before[k] == x);
                                } else {
                                    assert(x == c);
                                }
                            }
                            if x == c && self@.contains_key(c) {
                                assert(live@[live@.len() - 1] == c);
                            }
                        }
                    }
                    i += 1;
                }
                assert(entry.children@.take(i as int) =~= entry.children@);
                assert(live@.to_set() =~= live_children_of(self@, parent));
            },
            None => {
                assert(live@.to_set() =~= Set::<u64>::empty());
            },
        }
        live
    }

    /// Takes the entry of a surface out, to be put back changed.
    fn take(&mut self, id: u64) -> (entry: SurfaceEntry)
        requires
            old(self)@.contains_key(id),
        ensures
            entry@ == old(self)@[id],
            entry.x11_window == old(self).entries@[id].x11_window,
            final(self).entries@ == old(self).entries@.remove(id),
            final(self).by_window@ == old(self).by_window@,
    {
        match self.entries.remove(&id) {
            Some(e) => e,
            None => SurfaceEntry {
                x11_window: None,
                role: Role::Unassigned,
                buffer: None,
                children: Vec::new(),
            },
        }
    }

    /// Puts back an entry taken out of `base`, with its pairing unchanged.
    fn put(&mut self, id: u64, entry: SurfaceEntry, Ghost(base): Ghost<SurfaceRegistry>)
        requires
            base.wf(),
            base@.contains_key(id),
            old(self).entries@ == base.entries@.remove(id),
            old(self).by_window@ == base.by_window@,
            entry@.window == base@[id].window,
        ensures
            final(self).wf(),
            final(self)@ == base@.insert(id, entry@),
    {
        self.entries.insert(id, entry);
        assert(self@ =~= base@.insert(id, entry@));
        assert forall|s: u64, w: u32| #[trigger] paired(self@, s, w) implies paired(base@, s, w) by {}
        assert forall|w: u32| #[trigger] self.by_window@.contains_key(w) implies paired(
            self@,
            self.by_window@[w],
            w,
        ) by {
            assert(paired(base@, base.by_window@[w], w));
        }
    }
}

} // verus!
