//! The commit pipeline: what one commit of a surface does to the state, and
//! what it leaves to be done on the protocol connection.

use vstd::prelude::*;

use crate::geometry::Size;
use crate::parent::find_x11_parent;
use crate::parent::parent_of;
use crate::parent::parent_violation;
use crate::parent::violation_of;
use crate::parent::ParentViolation;
use crate::parent::X11Parent;
use crate::registry::ensured;
use crate::registry::is_bound;
use crate::registry::lemma_pairings_after_window;
use crate::registry::lemma_pairings_kept;
use crate::registry::paired;
use crate::registry::with_buffer;
use crate::registry::with_child;
use crate::registry::with_role;
use crate::registry::with_window;
use crate::registry::Buffer;
use crate::registry::BufferContents;
use crate::registry::FrameState;
use crate::registry::PixelFormat;
use crate::registry::Role;
use crate::registry::SurfaceState;
use crate::registry::ToplevelState;
use crate::registry::X11Window;
use crate::state::CompositorModel;
use crate::state::WprsCompositorState;

verus! {

/// A buffer as a client hands it over: a region of a shared memory pool,
/// and how to read it.
#[derive(Debug, Clone, PartialEq, Eq)]
pub struct ShmBuffer {
    /// The pixel format, by its protocol code.
    pub format: u32,
    pub width: i32,
    pub height: i32,
    /// Bytes from the start of one row to the start of the next.
    pub stride: i32,
    /// Where in the pool the first row starts.
    pub offset: i32,
    pub pool: Vec<u8>,
}

/// What a commit says of the surface's buffer. A commit carries a new
/// buffer, or the removal of the buffer, or neither, never both.
#[derive(Debug, Clone, PartialEq, Eq)]
pub enum BufferAssignment {
    Unchanged,
    NewBuffer(ShmBuffer),
    Removed,
}

/// What a commit of a surface carries.
#[derive(Debug, Clone, PartialEq, Eq)]
pub struct CommitRequest {
    pub buffer: BufferAssignment,
    /// Whether there is a pixel pool to install a new buffer in.
    pub pool_available: bool,
}

/// Why a commit was abandoned.
#[derive(Debug, Clone, Copy, PartialEq, Eq, Structural)]
pub enum CommitError {
    /// A new buffer came while there was no pixel pool.
    MissingPool,
    /// The buffer's format is none that can be shown.
    UnsupportedFormat,
    /// The buffer's dimensions, stride or offset make no sense.
    BadGeometry,
    /// The buffer reaches beyond the end of its pool.
    OutOfBounds,
}

/// An ordering of events that must not happen.
#[derive(Debug, Clone, Copy, PartialEq, Eq, Structural)]
pub enum InvariantViolation {
    /// The parent of the window to pair cannot be resolved.
    Parent(ParentViolation),
    /// The surface would become its own parent.
    SelfParent,
}

/// What is left to be done for a commit once the state has taken it in.
/// In this order: the window in `paired`, if any, is attached to the
/// surface under `parent`; the new buffer is installed, or the shown buffer
/// is detached at the origin; the frame is drawn again; the next
/// frame-completion notification is requested; the state is forwarded as
/// one commit; a frame completion is sent at once.
#[derive(Debug, Clone, Copy, PartialEq, Eq)]
pub struct CommitPlan {
    /// The X11 window that this commit paired the surface with.
    pub paired: Option<X11Window>,
    /// The parent of that window.
    pub parent: Option<X11Parent>,
    pub install_buffer: bool,
    pub detach_buffer: bool,
    pub redraw_frame: bool,
    /// The next frame-completion notification is asked for: on every
    /// commit.
    pub request_frame: bool,
    /// The accumulated state goes out as one commit: on every commit.
    pub forward_commit: bool,
    /// The surface has nobody to acknowledge its frames: it is paired with
    /// no window, or it is a cursor.
    pub synthesize_frame: bool,
}

/// A commit's plan, and whether the commit is to be run once more on the
/// next idle pass.
#[derive(Debug, Clone, Copy, PartialEq, Eq)]
pub struct CommitOutcome {
    pub plan: CommitPlan,
    /// The surface is neither paired nor a cursor: interest in its pairing
    /// is to be registered with the bridge, and the same commit run again.
    pub deferred: bool,
}

/// The pixel format with a protocol code.
pub open spec fn format_of(code: u32) -> Option<PixelFormat> {
    if code == 0 {
        Some(PixelFormat::Argb8888)
    } else if code == 1 {
        Some(PixelFormat::Xrgb8888)
    } else {
        None
    }
}

/// One past the last byte of the pool that a buffer reads.
pub open spec fn end_of(raw: ShmBuffer) -> int {
    raw.offset + raw.stride * raw.height
}

/// Why a buffer cannot be decoded, if it cannot.
pub open spec fn decode_error(raw: ShmBuffer) -> Option<CommitError> {
    if format_of(raw.format) is None {
        Some(CommitError::UnsupportedFormat)
    } else if raw.width <= 0 || raw.height <= 0 || raw.offset < 0 || raw.stride < 4 * raw.width {
        Some(CommitError::BadGeometry)
    } else if end_of(raw) > raw.pool@.len() {
        Some(CommitError::OutOfBounds)
    } else {
        None
    }
}

/// What a buffer that can be decoded holds: its rows, cut out of the pool.
pub open spec fn decoded(raw: ShmBuffer) -> BufferContents {
    BufferContents {
        format: format_of(raw.format)->0,
        size: Size { w: raw.width, h: raw.height },
        stride: raw.stride,
        data: raw.pool@.subrange(raw.offset as int, end_of(raw)),
    }
}

/// Why a commit is abandoned, if it is: it carries a new buffer, and there
/// is no pool, or the buffer cannot be decoded.
pub open spec fn rejection(request: CommitRequest) -> Option<CommitError> {
    match request.buffer {
        BufferAssignment::NewBuffer(raw) => if !request.pool_available {
            Some(CommitError::MissingPool)
        } else {
            decode_error(raw)
        },
        _ => None,
    }
}

/// The window belongs to the surface.
pub open spec fn claims(window: X11Window, surface: u64) -> bool {
    window.surface == Some(surface)
}

/// The window at `i` is the first that belongs to the surface.
pub open spec fn is_first_claim(unpaired: Seq<X11Window>, surface: u64, i: int) -> bool {
    &&& 0 <= i < unpaired.len()
    &&& claims(unpaired[i], surface)
    &&& forall|j: int| 0 <= j < i ==> !claims(#[trigger] unpaired[j], surface)
}

/// Some waiting window belongs to the surface.
pub open spec fn has_claim(unpaired: Seq<X11Window>, surface: u64) -> bool {
    exists|i: int| is_first_claim(unpaired, surface, i)
}

/// Where the first waiting window that belongs to the surface stands.
pub open spec fn first_claim(unpaired: Seq<X11Window>, surface: u64) -> int {
    choose|i: int| is_first_claim(unpaired, surface, i)
}

/// Whether a frame is due to be drawn again: the surface is a toplevel
/// that has received its initial configuration, and its frame is dirty.
pub open spec fn redraw_due(role: Role) -> bool {
    &&& role matches Role::Toplevel(t)
    &&& t.configured
    &&& t.frame matches Some(f)
    &&& f.dirty
}

/// The role once its frame has been drawn.
pub open spec fn drawn(role: Role) -> Role {
    match role {
        Role::Toplevel(t) => match t.frame {
            Some(f) => Role::Toplevel(
                ToplevelState { frame: Some(FrameState { dirty: false, ..f }), ..t },
            ),
            None => role,
        },
        _ => role,
    }
}

/// The surfaces after the buffer part of a commit.
pub open spec fn surfaces_buffered(
    surfaces: Map<u64, SurfaceState>,
    surface: u64,
    request: CommitRequest,
) -> Map<u64, SurfaceState> {
    match request.buffer {
        BufferAssignment::NewBuffer(raw) => with_buffer(surfaces, surface, Some(decoded(raw))),
        BufferAssignment::Removed => with_buffer(surfaces, surface, None),
        BufferAssignment::Unchanged => surfaces,
    }
}

/// The surfaces after the frame of `surface` was drawn if that was due.
pub open spec fn surfaces_drawn(surfaces: Map<u64, SurfaceState>, surface: u64) -> Map<
    u64,
    SurfaceState,
> {
    if redraw_due(surfaces[surface].role) {
        with_role(surfaces, surface, drawn(surfaces[surface].role))
    } else {
        surfaces
    }
}

impl CompositorModel {
    /// The waiting window that a commit of the surface claims: the first
    /// that belongs to it.
    pub open spec fn claimed(self, surface: u64) -> Option<X11Window> {
        if has_claim(self.unpaired, surface) {
            Some(self.unpaired[first_claim(self.unpaired, surface)])
        } else {
            None
        }
    }

    /// The windows that still wait after a commit of the surface: the
    /// claimed one has left, and the last one stands in its place.
    pub open spec fn unclaimed(self, surface: u64) -> Seq<X11Window> {
        if has_claim(self.unpaired, surface) {
            self.unpaired.update(
                first_claim(self.unpaired, surface),
                self.unpaired.last(),
            ).drop_last()
        } else {
            self.unpaired
        }
    }

    /// What forbids a commit of the surface, if anything: the parent of the
    /// window that it would claim cannot be resolved, or is the surface
    /// itself.
    pub open spec fn violation(self, surface: u64) -> Option<InvariantViolation> {
        let window = self.claimed(surface);
        match violation_of(self.surfaces, window) {
            Some(v) => Some(InvariantViolation::Parent(v)),
            None => match parent_of(self.surfaces, window) {
                Some(p) => if p.surface_id == surface {
                    Some(InvariantViolation::SelfParent)
                } else {
                    None
                },
                None => None,
            },
        }
    }

    /// The surfaces after the pairing part of a commit: the surface has an
    /// entry; if it claimed a window, it is paired with it, and registered
    /// as a child of the window's parent.
    pub open spec fn surfaces_paired(self, surface: u64) -> Map<u64, SurfaceState> {
        let window = self.claimed(surface);
        let linked = match parent_of(self.surfaces, window) {
            Some(p) => with_child(self.surfaces, p.surface_id, surface),
            None => self.surfaces,
        };
        match window {
            Some(w) => with_window(linked, surface, w),
            None => ensured(linked, surface),
        }
    }

    /// The state after a commit of the surface that was not abandoned.
    pub open spec fn committed(self, surface: u64, request: CommitRequest) -> CompositorModel {
        CompositorModel {
            surfaces: surfaces_drawn(
                surfaces_buffered(self.surfaces_paired(surface), surface, request),
                surface,
            ),
            unpaired: self.unclaimed(surface),
            ..self
        }
    }

    /// What a commit of the surface leaves to be done.
    pub open spec fn plan(self, surface: u64, request: CommitRequest) -> CommitPlan {
        let window = self.claimed(surface);
        let entry = self.committed(surface, request).surfaces[surface];
        CommitPlan {
            paired: window,
            parent: parent_of(self.surfaces, window),
            install_buffer: request.buffer is NewBuffer,
            detach_buffer: request.buffer is Removed,
            redraw_frame: redraw_due(self.surfaces_paired(surface)[surface].role),
            request_frame: true,
            forward_commit: true,
            synthesize_frame: entry.window is None || entry.role is Cursor,
        }
    }

    /// Whether a commit of the surface has to wait for its pairing: the
    /// surface is paired with no window, and is no cursor.
    pub open spec fn defers(self, surface: u64) -> bool {
        !self.surfaces.contains_key(surface) || (self.surfaces[surface].window is None
            && !(self.surfaces[surface].role is Cursor))
    }
}

/// Decodes a buffer: checks its format and that its rows lie in the pool,
/// and cuts them out.
pub fn decode_buffer(raw: &ShmBuffer) -> (r: Result<Buffer, CommitError>)
    ensures
        match r {
            Ok(buffer) => decode_error(*raw) is None && buffer@ == decoded(*raw),
            Err(e) => decode_error(*raw) == Some(e),
        },
{
    let format = if raw.format == 0 {
        PixelFormat::Argb8888
    } else if raw.format == 1 {
        PixelFormat::Xrgb8888
    } else {
        return Err(CommitError::UnsupportedFormat);
    };
    let width: i64 = raw.width as i64;
    let stride: i64 = raw.stride as i64;
    let height: i64 = raw.height as i64;
    let offset: i64 = raw.offset as i64;
    if width <= 0 || height <= 0 || offset < 0 || stride < 4 * width {
        return Err(CommitError::BadGeometry);
    }
    assert(0 < stride * height <= 0x7fff_ffff * 0x7fff_ffff) by (nonlinear_arith)
        requires
            0 < stride <= 0x7fff_ffff,
            0 < height <= 0x7fff_ffff,
    ;
    let end: i64 = offset + stride * height;
    let len: usize = raw.pool.len();
    if end as u64 > len as u64 {
        return Err(CommitError::OutOfBounds);
    }
    let start: usize = offset as usize;
    let stop: usize = end as usize;
    let mut data: Vec<u8> = Vec::new();
    let mut i: usize = start;
    while i < stop
        invariant
            start <= i <= stop <= raw.pool.len(),
            data@ == raw.pool@.subrange(start as int, i as int),
        decreases stop - i,
    {
        data.push(raw.pool[i]);
        assert(data@ =~= raw.pool@.subrange(start as int, i + 1));
        i += 1;
    }
    Ok(Buffer { format, size: Size { w: raw.width, h: raw.height }, stride: raw.stride, data })
}

/// Finds the first waiting window that belongs to the surface.
pub fn find_claim(unpaired: &Vec<X11Window>, surface: u64) -> (r: Option<usize>)
    ensures
        r is Some == has_claim(unpaired@, surface),
        r matches Some(i) ==> i == first_claim(unpaired@, surface) && is_first_claim(
            unpaired@,
            surface,
            i as int,
        ),
{
    let mut i: usize = 0;
    while i < unpaired.len()
        invariant
            i <= unpaired.len(),
            forall|j: int| 0 <= j < i ==> !claims(#[trigger] unpaired@[j], surface),
        decreases unpaired.len() - i,
    {
        let belongs = match unpaired[i].surface {
            Some(s) => s == surface,
            None => false,
        };
        if belongs {
            assert(is_first_claim(unpaired@, surface, i as int));
            return Some(i);
        }
        i += 1;
    }
    None
}

/// Says what forbids a commit of the surface, if anything does.
pub fn commit_violation(state: &WprsCompositorState, surface: u64) -> (r: Option<InvariantViolation>)
    requires
        state.wf(),
    ensures
        r == state@.violation(surface),
{
    let unpaired = state.unpaired_windows();
    let window = match find_claim(unpaired, surface) {
        Some(i) => Some(unpaired[i]),
        None => None,
    };
    let registry = state.surfaces();
    match parent_violation(registry, window) {
        Some(v) => Some(InvariantViolation::Parent(v)),
        None => match find_x11_parent(registry, window) {
            Some(p) => if p.surface_id == surface {
                Some(InvariantViolation::SelfParent)
            } else {
                None
            },
            None => None,
        },
    }
}

/// Every pairing after a commit was one before it, but for the pairing of
/// the surface with the window that it claimed.
pub proof fn lemma_committed_pairings(model: CompositorModel, surface: u64, request: CommitRequest)
    requires
        model.wf(),
        model.violation(surface) is None,
    ensures
        forall|x: u64, w: u32| #[trigger]
            paired(model.committed(surface, request).surfaces, x, w) ==> (if x == surface
                && model.claimed(surface) is Some {
                w == model.claimed(surface)->0.id
            } else {
                paired(model.surfaces, x, w)
            }),
        model.claimed(surface) matches Some(c) ==> paired(
            model.committed(surface, request).surfaces,
            surface,
            c.id,
        ),
        model.committed(surface, request).surfaces.contains_key(surface),
{
    let window = model.claimed(surface);
    let linked = match parent_of(model.surfaces, window) {
        Some(p) => with_child(model.surfaces, p.surface_id, surface),
        None => model.surfaces,
    };
    let joined = model.surfaces_paired(surface);
    let buffered = surfaces_buffered(joined, surface, request);
    let after = surfaces_drawn(buffered, surface);
    match parent_of(model.surfaces, window) {
        Some(p) => {
            let target = window->0.transient_for->0;
            assert(is_bound(model.surfaces, target));
            assert(paired(model.surfaces, p.surface_id, target));
            lemma_pairings_kept(model.surfaces, p.surface_id);
        },
        None => {},
    }
    lemma_pairings_kept(linked, surface);
    match window {
        Some(w) => {
            lemma_pairings_after_window(linked, surface, w);
        },
        None => {},
    }
    lemma_pairings_kept(joined, surface);
    lemma_pairings_kept(buffered, surface);
    assert forall|x: u64, w: u32| #[trigger] paired(after, x, w) implies (if x == surface
        && window is Some {
        w == window->0.id
    } else {
        paired(model.surfaces, x, w)
    }) by {
        assert(paired(buffered, x, w));
        assert(paired(joined, x, w));
        if window is Some {
            if x != surface {
                assert(paired(linked, x, w));
            }
        } else {
            assert(paired(linked, x, w));
        }
    }
    if window is Some {
        assert(paired(joined, surface, window->0.id));
        assert(paired(buffered, surface, window->0.id));
    }
}

/// A commit leaves a sound state sound: still no X11 window is paired with
/// two surfaces, none waits twice, and none waits while it is paired.
pub proof fn lemma_committed_wf(model: CompositorModel, surface: u64, request: CommitRequest)
    requires
        model.wf(),
        model.violation(surface) is None,
    ensures
        model.committed(surface, request).wf(),
{
    let after = model.committed(surface, request);
    lemma_committed_pairings(model, surface, request);
    let window = model.claimed(surface);
    if window is Some {
        let k = first_claim(model.unpaired, surface);
        assert(is_first_claim(model.unpaired, surface, k));
        assert(model.unpaired[k] == window->0);
        assert(!is_bound(model.surfaces, model.unpaired[k].id));
    }
    assert forall|a: u64, b: u64, w: u32|
        #![trigger paired(after.surfaces, a, w), paired(after.surfaces, b, w)]
        paired(after.surfaces, a, w) && paired(after.surfaces, b, w) implies a == b by {
        if a != b {
            if window is Some && (a == surface || b == surface) {
                let other = if a == surface {
                    b
                } else {
                    a
                };
                assert(paired(model.surfaces, other, w));
                assert(is_bound(model.surfaces, w));
            } else {
                assert(paired(model.surfaces, a, w) && paired(model.surfaces, b, w));
            }
        }
    }
    assert forall|i: int, j: int|
        #![trigger after.unpaired[i], after.unpaired[j]]
        0 <= i < j < after.unpaired.len() implies after.unpaired[i].id != after.unpaired[j].id by {
        if window is Some {
            let k = first_claim(model.unpaired, surface);
            let last = model.unpaired.len() - 1;
            let si = if i == k {
                last
            } else {
                i
            };
            let sj = if j == k {
                last
            } else {
                j
            };
            assert(after.unpaired[i] == model.unpaired[si]);
            assert(after.unpaired[j] == model.unpaired[sj]);
            if si < sj {
                assert(model.unpaired[si].id != model.unpaired[sj].id);
            } else {
                assert(model.unpaired[sj].id != model.unpaired[si].id);
            }
        }
    }
    assert forall|i: int| 0 <= i < after.unpaired.len() implies !is_bound(
        after.surfaces,
        (#[trigger] after.unpaired[i]).id,
    ) by {
        let u = after.unpaired[i];
        if is_bound(after.surfaces, u.id) {
            let x = choose|x: u64| paired(after.surfaces, x, u.id);
            if window is Some {
                let k = first_claim(model.unpaired, surface);
                let last = model.unpaired.len() - 1;
                let si = if i == k {
                    last
                } else {
                    i
                };
                assert(u == model.unpaired[si]);
                assert(si != k);
                if si < k {
                    assert(model.unpaired[si].id != model.unpaired[k].id);
                } else {
                    assert(model.unpaired[k].id != model.unpaired[si].id);
                }
                assert(paired(model.surfaces, x, u.id));
                assert(!is_bound(model.surfaces, model.unpaired[si].id));
            } else {
                assert(u == model.unpaired[i]);
                assert(paired(model.surfaces, x, u.id));
                assert(!is_bound(model.surfaces, model.unpaired[i].id));
            }
        }
    }
}

/// Takes one commit of a surface into the state, and says what is left to
/// be done for it.
///
/// A commit that carries a new buffer is abandoned, and nothing changes,
/// if there is no pixel pool or the buffer cannot be decoded. Otherwise
/// the surface gets an entry if it had none; it claims the first waiting
/// X11 window that belongs to it, is paired with it and registered as a
/// child of that window's parent; the new buffer is attached, or the
/// buffer is dropped; the frame of a configured toplevel is marked drawn
/// where it was dirty.
///
/// The parent of a window to pair must be resolvable and must not be the
/// surface itself.
pub fn commit_inner(surface: u64, request: CommitRequest, state: &mut WprsCompositorState) -> (r:
    Result<CommitPlan, CommitError>)
    requires
        old(state).wf(),
        old(state)@.violation(surface) is None,
    ensures
        final(state).wf(),
        match r {
            Ok(plan) => {
                &&& rejection(request) is None
                &&& final(state)@ == old(state)@.committed(surface, request)
                &&& plan == old(state)@.plan(surface, request)
                &&& !(plan.install_buffer && plan.detach_buffer)
            },
            Err(e) => rejection(request) == Some(e) && final(state)@ == old(state)@,
        },
{
    let ghost model = state@;
    proof {
        state.lemma_parts();
    }
    let mut new_buffer: Option<Buffer> = None;
    let mut install_buffer = false;
    let mut detach_buffer = false;
    match &request.buffer {
        BufferAssignment::NewBuffer(raw) => {
            if !request.pool_available {
                return Err(CommitError::MissingPool);
            }
            match decode_buffer(raw) {
                Ok(b) => {
                    new_buffer = Some(b);
                    install_buffer = true;
                },
                Err(e) => {
                    return Err(e);
                },
            }
        },
        BufferAssignment::Removed => {
            detach_buffer = true;
        },
        BufferAssignment::Unchanged => {},
    }
    let claimed = match find_claim(&state.x11_surfaces, surface) {
        Some(i) => Some(state.x11_surfaces.swap_remove(i)),
        None => None,
    };
    assert(claimed == model.claimed(surface));
    assert(state.x11_surfaces@ == model.unclaimed(surface));
    let parent = find_x11_parent(&state.surfaces, claimed);
    match parent {
        Some(p) => {
            proof {
                let target = claimed->0.transient_for->0;
                assert(is_bound(model.surfaces, target));
                assert(paired(model.surfaces, p.surface_id, target));
                lemma_pairings_kept(model.surfaces, p.surface_id);
            }
            let accepted = state.surfaces.add_child(p.surface_id, surface);
            assert(accepted);
        },
        None => {},
    }
    let ghost linked = state.surfaces@;
    match claimed {
        Some(w) => {
            proof {
                let k = first_claim(model.unpaired, surface);
                assert(model.unpaired[k] == w);
                assert(!is_bound(model.surfaces, model.unpaired[k].id));
                if is_bound(linked, w.id) {
                    let x = choose|x: u64| paired(linked, x, w.id);
                    assert(paired(model.surfaces, x, w.id));
                }
            }
            let done = state.surfaces.pair_window(surface, w);
            assert(done);
        },
        None => {
            state.surfaces.get_or_create(surface);
        },
    }
    assert(state.surfaces@ == model.surfaces_paired(surface));
    if install_buffer {
        state.surfaces.set_buffer(surface, new_buffer);
    } else if detach_buffer {
        state.surfaces.set_buffer(surface, None);
    }
    let ghost joined = model.surfaces_paired(surface);
    assert(joined.contains_key(surface));
    assert(ensured(joined, surface) == joined);
    assert(state.surfaces@ =~= surfaces_buffered(joined, surface, request)) by {
        match request.buffer {
            BufferAssignment::Unchanged => {},
            _ => {},
        }
    }
    let ghost buffered = state.surfaces@;
    let role = match state.surfaces.get(surface) {
        Some(e) => e.role,
        None => Role::Unassigned,
    };
    let redraw_frame = match role {
        Role::Toplevel(t) => match t.frame {
            Some(f) => {
                if t.configured && f.dirty {
                    state.surfaces.set_role(
                        surface,
                        Role::Toplevel(
                            ToplevelState {
                                configured: t.configured,
                                frame: Some(FrameState { offset: f.offset, dirty: false }),
                            },
                        ),
                    );
                    true
                } else {
                    false
                }
            },
            None => false,
        },
        _ => false,
    };
    assert(buffered[surface].role == joined[surface].role);
    assert(redraw_frame == redraw_due(joined[surface].role));
    assert(state.surfaces@ == surfaces_drawn(buffered, surface));
    let synthesize_frame = match state.surfaces.get(surface) {
        Some(e) => e.x11_window.is_none() || (match e.role {
            Role::Cursor => true,
            _ => false,
        }),
        None => true,
    };
    proof {
        state.lemma_parts();
        lemma_committed_wf(model, surface, request);
    }
    Ok(
        CommitPlan {
            paired: claimed,
            parent,
            install_buffer,
            detach_buffer,
            redraw_frame,
            request_frame: true,
            forward_commit: true,
            synthesize_frame,
        },
    )
}

/// Takes one commit of a surface into the state; where it is not
/// abandoned, the buffer's own bookkeeping is to follow what the plan
/// lists.
pub fn commit(surface: u64, request: CommitRequest, state: &mut WprsCompositorState) -> (r: Result<
    CommitPlan,
    CommitError,
>)
    requires
        old(state).wf(),
        old(state)@.violation(surface) is None,
    ensures
        final(state).wf(),
        match r {
            Ok(plan) => {
                &&& rejection(request) is None
                &&& final(state)@ == old(state)@.committed(surface, request)
                &&& plan == old(state)@.plan(surface, request)
                &&& !(plan.install_buffer && plan.detach_buffer)
            },
            Err(e) => rejection(request) == Some(e) && final(state)@ == old(state)@,
        },
{
    commit_inner(surface, request, state)
}

/// Runs a commit, and decides whether it went through or has to be run
/// again: a commit goes through if the surface is paired with an X11
/// window afterwards, or is a cursor. Otherwise it is deferred: the same
/// commit is to be run once more on the next idle pass.
pub fn execute_or_defer_commit(
    state: &mut WprsCompositorState,
    surface: u64,
    request: CommitRequest,
) -> (r: Result<CommitOutcome, CommitError>)
    requires
        old(state).wf(),
        old(state)@.violation(surface) is None,
    ensures
        final(state).wf(),
        match r {
            Ok(outcome) => {
                &&& rejection(request) is None
                &&& final(state)@ == old(state)@.committed(surface, request)
                &&& outcome.plan == old(state)@.plan(surface, request)
                &&& outcome.deferred == final(state)@.defers(surface)
            },
            Err(e) => rejection(request) == Some(e) && final(state)@ == old(state)@,
        },
{
    let plan = match commit(surface, request, state) {
        Ok(plan) => plan,
        Err(e) => {
            return Err(e);
        },
    };
    let deferred = match state.surface(surface) {
        Some(e) => e.x11_window.is_none() && (match e.role {
            Role::Cursor => false,
            _ => true,
        }),
        None => true,
    };
    Ok(CommitOutcome { plan, deferred })
}

} // verus!
