//! Pairing converges: a surface and its X11 window find each other
//! whichever of the two is seen first.

use vstd::prelude::*;

use crate::commit::claims;
use crate::commit::first_claim;
use crate::commit::has_claim;
use crate::commit::is_first_claim;
use crate::commit::lemma_committed_pairings;
use crate::commit::lemma_committed_wf;
use crate::commit::rejection;
use crate::commit::surfaces_buffered;
use crate::commit::surfaces_drawn;
use crate::commit::CommitRequest;
use crate::lifecycle::BridgeState;
use crate::parent::parent_of;
use crate::parent::target_of;
use crate::parent::violation_of;
use crate::registry::is_bound;
use crate::registry::paired;
use crate::registry::surface_bound_to;
use crate::registry::SurfaceState;
use crate::registry::X11Window;
use crate::state::waiting_at;
use crate::state::waits;
use crate::state::CompositorModel;

verus! {

/// A window that belongs to a surface, and arrives where none that belongs
/// to it waits, is the one that the surface claims; once it is claimed,
/// the windows that waited before wait again, in their order.
pub proof fn lemma_arrival_is_claimed(unpaired: Seq<X11Window>, window: X11Window, surface: u64)
    requires
        claims(window, surface),
        !has_claim(unpaired, surface),
    ensures
        has_claim(unpaired.push(window), surface),
        first_claim(unpaired.push(window), surface) == unpaired.len(),
        unpaired.push(window).update(unpaired.len() as int, window).drop_last() == unpaired,
{
    let longer = unpaired.push(window);
    let n = unpaired.len() as int;
    assert forall|j: int| 0 <= j < n implies !claims(#[trigger] longer[j], surface) by {
        if claims(unpaired[j], surface) {
            lemma_some_claim_is_first(unpaired, surface, j);
        }
    }
    assert(longer[n] == window);
    assert(is_first_claim(longer, surface, n));
    let k = first_claim(longer, surface);
    assert(is_first_claim(longer, surface, k));
    if k < n {
        assert(!claims(longer[k], surface));
    }
    assert(longer.update(n, window).drop_last() =~= unpaired);
}

/// Where some window belongs to the surface, one is the first that does.
pub proof fn lemma_some_claim_is_first(unpaired: Seq<X11Window>, surface: u64, at: int)
    requires
        0 <= at < unpaired.len(),
        claims(unpaired[at], surface),
    ensures
        has_claim(unpaired, surface),
    decreases at,
{
    if forall|j: int| 0 <= j < at ==> !claims(#[trigger] unpaired[j], surface) {
        assert(is_first_claim(unpaired, surface, at));
    } else {
        let j = choose|j: int| 0 <= j < at && claims(#[trigger] unpaired[j], surface);
        lemma_some_claim_is_first(unpaired, surface, j);
    }
}

/// Where two families of surfaces have the same pairings, and agree on
/// the surface that a window's target is paired with, the window has the
/// same parent in both.
pub proof fn lemma_same_parent(
    before: Map<u64, SurfaceState>,
    after: Map<u64, SurfaceState>,
    window: Option<X11Window>,
)
    requires
        forall|a: u64, b: u64, w: u32|
            #![trigger paired(before, a, w), paired(before, b, w)]
            paired(before, a, w) && paired(before, b, w) ==> a == b,
        forall|x: u64, w: u32| #[trigger] paired(after, x, w) <==> paired(before, x, w),
        violation_of(before, window) is None,
        target_of(window) matches Some(t) ==> after[surface_bound_to(before, t)]
            == before[surface_bound_to(before, t)],
    ensures
        violation_of(after, window) is None,
        parent_of(after, window) == parent_of(before, window),
{
    match target_of(window) {
        Some(t) => {
            let p = surface_bound_to(before, t);
            assert(is_bound(before, t));
            assert(paired(before, p, t));
            assert(paired(after, p, t));
            assert(is_bound(after, t));
            let q = surface_bound_to(after, t);
            assert(paired(after, q, t));
            assert(paired(before, q, t));
            assert(p == q);
        },
        None => {},
    }
}

/// Pairing converges. Take a surface and an X11 window that belongs to it
/// and is new to the state, where no other waiting window belongs to the
/// surface. Whether the window arrives before the surface's commit, or
/// after it and before the commit is run once more, the state is the same
/// in the end: the surface is paired with the window, and its commit is
/// not deferred again. A commit that comes first for a surface that is
/// neither paired nor a cursor is deferred, and changes nothing that
/// would forbid running it again.
pub proof fn lemma_pairing_converges(
    model: CompositorModel,
    surface: u64,
    window: X11Window,
    request: CommitRequest,
)
    requires
        model.wf(),
        model.bridge == BridgeState::Ready,
        claims(window, surface),
        !is_bound(model.surfaces, window.id),
        !waits(model.unpaired, window.id),
        !has_claim(model.unpaired, surface),
        rejection(request) is None,
        model.arrived(window).violation(surface) is None,
    ensures
        ({
            let window_first = model.arrived(window).committed(surface, request);
            let early = model.committed(surface, request);
            let commit_first = early.arrived(window).committed(surface, request);
            &&& model.violation(surface) is None
            &&& early.wf()
            &&& early.arrived(window).wf()
            &&& early.arrived(window).violation(surface) is None
            &&& model.defers(surface) ==> early.defers(surface)
            &&& commit_first == window_first
            &&& window_first.wf()
            &&& paired(window_first.surfaces, surface, window.id)
            &&& !window_first.defers(surface)
        }),
{
    let came = model.arrived(window);
    let window_first = came.committed(surface, request);
    let early = model.committed(surface, request);
    let came_late = early.arrived(window);
    let commit_first = came_late.committed(surface, request);

    // The window arrives first.
    assert(came.unpaired == model.unpaired.push(window));
    lemma_arrival_is_claimed(model.unpaired, window, surface);
    assert(came.claimed(surface) == Some(window));
    assert(came.unclaimed(surface) == model.unpaired);
    lemma_arrival_wf(model, window);
    lemma_committed_wf(came, surface, request);
    lemma_committed_pairings(came, surface, request);

    // The commit comes first.
    assert(model.claimed(surface) is None);
    assert(model.violation(surface) is None);
    lemma_committed_wf(model, surface, request);
    lemma_committed_pairings(model, surface, request);
    assert(early.unpaired == model.unpaired);
    assert(forall|x: u64, w: u32| #[trigger]
        paired(early.surfaces, x, w) ==> paired(model.surfaces, x, w));
    assert forall|x: u64, w: u32| paired(model.surfaces, x, w) implies #[trigger] paired(
        early.surfaces,
        x,
        w,
    ) by {
        lemma_early_keeps(model, surface, request, x);
    }
    if is_bound(early.surfaces, window.id) {
        let x = choose|x: u64| paired(early.surfaces, x, window.id);
        assert(paired(model.surfaces, x, window.id));
    }
    assert(came_late.unpaired == model.unpaired.push(window));
    lemma_arrival_wf(early, window);
    assert(came_late.claimed(surface) == Some(window));
    assert(came_late.unclaimed(surface) == model.unpaired);

    // The window has the same parent either way.
    match window.transient_for {
        Some(t) => {
            let p = surface_bound_to(model.surfaces, t);
            assert(is_bound(model.surfaces, t));
            assert(paired(model.surfaces, p, t));
            assert(p != surface);
            lemma_early_keeps(model, surface, request, p);
        },
        None => {},
    }
    lemma_same_parent(model.surfaces, early.surfaces, Some(window));
    assert(came_late.violation(surface) is None);
    lemma_committed_wf(came_late, surface, request);
    lemma_committed_pairings(came_late, surface, request);

    // The surfaces are the same in the end.
    assert forall|k: u64| #[trigger]
        commit_first.surfaces.contains_key(k) == window_first.surfaces.contains_key(k) by {}
    assert forall|k: u64| #[trigger] window_first.surfaces.contains_key(k) implies commit_first.surfaces[k]
        == window_first.surfaces[k] by {
        lemma_early_keeps(model, surface, request, k);
        let a = window_first.surfaces[k];
        let b = commit_first.surfaces[k];
        assert(a.window == b.window);
        assert(a.role == b.role);
        assert(a.buffer == b.buffer);
        assert(a.children =~= b.children);
    }
    assert(commit_first.surfaces =~= window_first.surfaces);
}

/// A window that arrives leaves a sound state sound.
pub proof fn lemma_arrival_wf(model: CompositorModel, window: X11Window)
    requires
        model.wf(),
    ensures
        model.arrived(window).wf(),
{
    let after = model.arrived(window);
    if model.accepts_window(window) {
        if waits(model.unpaired, window.id) {
            let at = waiting_at(model.unpaired, window.id);
            assert forall|i: int, j: int|
                #![trigger after.unpaired[i], after.unpaired[j]]
                0 <= i < j < after.unpaired.len() implies after.unpaired[i].id
                != after.unpaired[j].id by {
                assert(model.unpaired[i].id != model.unpaired[j].id);
            }
            assert forall|i: int| 0 <= i < after.unpaired.len() implies !is_bound(
                after.surfaces,
                (#[trigger] after.unpaired[i]).id,
            ) by {
                if i != at {
                    assert(!is_bound(model.surfaces, model.unpaired[i].id));
                }
            }
        } else {
            assert forall|i: int, j: int|
                #![trigger after.unpaired[i], after.unpaired[j]]
                0 <= i < j < after.unpaired.len() implies after.unpaired[i].id
                != after.unpaired[j].id by {
                if j < model.unpaired.len() {
                    assert(model.unpaired[i].id != model.unpaired[j].id);
                } else {
                    assert(model.unpaired[i].id != window.id);
                }
            }
            assert forall|i: int| 0 <= i < after.unpaired.len() implies !is_bound(
                after.surfaces,
                (#[trigger] after.unpaired[i]).id,
            ) by {
                if i < model.unpaired.len() {
                    assert(!is_bound(model.surfaces, model.unpaired[i].id));
                }
            }
        }
    }
}

/// A commit that claims no window changes no entry but the surface's own,
/// and of that neither the window nor the children.
pub proof fn lemma_early_keeps(model: CompositorModel, surface: u64, request: CommitRequest, k: u64)
    requires
        model.claimed(surface) is None,
    ensures
        ({
            let early = model.committed(surface, request);
            &&& k != surface ==> early.surfaces.contains_key(k) == model.surfaces.contains_key(k)
            &&& k != surface && model.surfaces.contains_key(k) ==> early.surfaces[k]
                == model.surfaces[k]
            &&& early.surfaces.contains_key(surface)
            &&& model.surfaces.contains_key(surface) ==> early.surfaces[surface].window
                == model.surfaces[surface].window && early.surfaces[surface].children
                == model.surfaces[surface].children
            &&& !model.surfaces.contains_key(surface) ==> early.surfaces[surface].window is None
                && early.surfaces[surface].children == Set::<u64>::empty()
        }),
{
    let joined = model.surfaces_paired(surface);
    let buffered = surfaces_buffered(joined, surface, request);
    let after = surfaces_drawn(buffered, surface);
    assert(joined.contains_key(surface));
    assert(buffered.contains_key(surface));
}

} // verus!
