//! The state that every handler works on: the surfaces, the X11 windows
//! that wait for a surface, the outputs, the pointer's image and the
//! bridge's lifecycle.

use vstd::prelude::*;

use crate::cursor::cursor_surface;
use crate::cursor::image_for;
use crate::cursor::present;
use crate::cursor::CursorImageStatus;
use crate::cursor::PointerImage;
use crate::cursor::PointerImageView;
use crate::decoration::DecorationBehavior;
use crate::geometry::Point;
use crate::lifecycle::action_for;
use crate::lifecycle::bridge_after;
use crate::lifecycle::bridge_step;
use crate::lifecycle::BridgeAction;
use crate::lifecycle::BridgeSignal;
use crate::lifecycle::BridgeState;
use crate::output::OutputInfo;
use crate::output::OutputState;
use crate::reconciler::all_settled;
use crate::reconciler::applied;
use crate::reconciler::dropped_by;
use crate::reconciler::OutputRegistry;
use crate::reconciler::OutputUpdate;
use crate::registry::is_bound;
use crate::registry::lemma_pairings_kept;
use crate::registry::no_double_pairing;
use crate::registry::paired;
use crate::registry::with_role;
use crate::registry::Role;
use crate::registry::SurfaceEntry;
use crate::registry::SurfaceRegistry;
use crate::registry::SurfaceState;
use crate::registry::X11Window;

verus! {

/// What the state holds.
pub struct CompositorModel {
    pub decoration_behavior: DecorationBehavior,
    pub surfaces: Map<u64, SurfaceState>,
    /// The X11 windows that no surface commit has claimed yet.
    pub unpaired: Seq<X11Window>,
    pub outputs: Map<u32, OutputState>,
    pub pointer: PointerImageView,
    pub bridge: BridgeState,
}

/// No two waiting windows have the same id.
pub open spec fn distinct_windows(unpaired: Seq<X11Window>) -> bool {
    forall|i: int, j: int|
        #![trigger unpaired[i], unpaired[j]]
        0 <= i < j < unpaired.len() ==> unpaired[i].id != unpaired[j].id
}

/// No waiting window is paired with a surface.
pub open spec fn none_bound(surfaces: Map<u64, SurfaceState>, unpaired: Seq<X11Window>) -> bool {
    forall|i: int| 0 <= i < unpaired.len() ==> !is_bound(surfaces, (#[trigger] unpaired[i]).id)
}

/// A window with this id waits for a surface.
pub open spec fn waits(unpaired: Seq<X11Window>, id: u32) -> bool {
    exists|i: int| 0 <= i < unpaired.len() && (#[trigger] unpaired[i]).id == id
}

/// Where the window with this id waits, if one does.
pub open spec fn waiting_at(unpaired: Seq<X11Window>, id: u32) -> int {
    choose|i: int| 0 <= i < unpaired.len() && (#[trigger] unpaired[i]).id == id
}

impl CompositorModel {
    /// What holds of the state at every point in time: no X11 window is
    /// paired with two surfaces, none waits twice, none waits while it is
    /// paired, and every output knows one mode at most.
    pub open spec fn wf(self) -> bool {
        &&& no_double_pairing(self.surfaces)
        &&& distinct_windows(self.unpaired)
        &&& none_bound(self.surfaces, self.unpaired)
        &&& all_settled(self.outputs)
    }

    /// The state at startup.
    pub open spec fn initial(decoration_behavior: DecorationBehavior) -> CompositorModel {
        CompositorModel {
            decoration_behavior,
            surfaces: Map::empty(),
            unpaired: Seq::empty(),
            outputs: Map::empty(),
            pointer: PointerImageView::Untouched,
            bridge: BridgeState::Starting,
        }
    }

    /// Whether a window that the bridge reports is taken in: the bridge is
    /// up, and the window is not paired already.
    pub open spec fn accepts_window(self, window: X11Window) -> bool {
        self.bridge == BridgeState::Ready && !is_bound(self.surfaces, window.id)
    }

    /// The state after the bridge has reported a window: it waits for a
    /// surface, in place of what was known of it if it waited already.
    pub open spec fn arrived(self, window: X11Window) -> CompositorModel {
        if !self.accepts_window(window) {
            self
        } else if waits(self.unpaired, window.id) {
            CompositorModel {
                unpaired: self.unpaired.update(waiting_at(self.unpaired, window.id), window),
                ..self
            }
        } else {
            CompositorModel { unpaired: self.unpaired.push(window), ..self }
        }
    }

    /// The state after a cursor status: the pointer shows what the status
    /// asks for, and a surface that it shows is a cursor.
    pub open spec fn shown(self, status: CursorImageStatus, serial: u32) -> CompositorModel {
        CompositorModel {
            pointer: image_for(status, serial),
            surfaces: match cursor_surface(status) {
                Some(surface) => with_role(self.surfaces, surface, Role::Cursor),
                None => self.surfaces,
            },
            ..self
        }
    }
}

/// The aggregate state of the bridge between X11 windows and surfaces.
pub struct WprsCompositorState {
    pub decoration_behavior: DecorationBehavior,
    pub(crate) surfaces: SurfaceRegistry,
    pub(crate) outputs: OutputRegistry,
    /// The X11 windows that wait for a surface.
    pub(crate) x11_surfaces: Vec<X11Window>,
    pub(crate) pointer: PointerImage,
    pub(crate) bridge: BridgeState,
}

impl View for WprsCompositorState {
    type V = CompositorModel;

    closed spec fn view(&self) -> CompositorModel {
        CompositorModel {
            decoration_behavior: self.decoration_behavior,
            surfaces: self.surfaces@,
            unpaired: self.x11_surfaces@,
            outputs: self.outputs@,
            pointer: self.pointer@,
            bridge: self.bridge,
        }
    }
}

impl WprsCompositorState {
    /// The parts are sound, and so is what they hold together.
    pub closed spec fn wf(&self) -> bool {
        &&& self.surfaces.wf()
        &&& self.outputs.wf()
        &&& self@.wf()
    }

    /// What the view and soundness of a state say of its parts.
    pub(crate) proof fn lemma_parts(&self)
        ensures
            self@.decoration_behavior == self.decoration_behavior,
            self@.surfaces == self.surfaces@,
            self@.unpaired == self.x11_surfaces@,
            self@.outputs == self.outputs@,
            self@.pointer == self.pointer@,
            self@.bridge == self.bridge,
            self.wf() == (self.surfaces.wf() && self.outputs.wf() && self@.wf()),
    {
    }

    /// A state that is sound holds what is sound.
    pub proof fn lemma_wf_model(&self)
        requires
            self.wf(),
        ensures
            self@.wf(),
    {
    }

    /// The state at startup: nothing is known, the bridge is starting.
    pub fn new(decoration_behavior: DecorationBehavior) -> (state: Self)
        ensures
            state.wf(),
            state@ == CompositorModel::initial(decoration_behavior),
    {
        let state = WprsCompositorState {
            decoration_behavior,
            surfaces: SurfaceRegistry::new(),
            outputs: OutputRegistry::new(),
            x11_surfaces: Vec::new(),
            pointer: PointerImage::Untouched,
            bridge: BridgeState::Starting,
        };
        assert(state@.unpaired =~= Seq::<X11Window>::empty());
        proof {
            state.surfaces.lemma_no_double_pairing();
        }
        state
    }

    /// The surfaces.
    pub fn surfaces(&self) -> (r: &SurfaceRegistry)
        ensures
            r@ == self@.surfaces,
            self.wf() ==> r.wf(),
    {
        &self.surfaces
    }

    /// The entry of a surface.
    pub fn surface(&self, id: u64) -> (r: Option<&SurfaceEntry>)
        ensures
            r is Some == self@.surfaces.contains_key(id),
            r matches Some(e) ==> e@ == self@.surfaces[id],
    {
        self.surfaces.get(id)
    }

    /// The outputs.
    pub fn outputs(&self) -> (r: &OutputRegistry)
        ensures
            r@ == self@.outputs,
            self.wf() ==> r.wf(),
    {
        &self.outputs
    }

    /// The X11 windows that wait for a surface.
    pub fn unpaired_windows(&self) -> (r: &Vec<X11Window>)
        ensures
            r@ == self@.unpaired,
    {
        &self.x11_surfaces
    }

    /// What the pointer shows.
    pub fn pointer(&self) -> (r: &PointerImage)
        ensures
            r@ == self@.pointer,
    {
        &self.pointer
    }

    /// Where the bridge stands.
    pub fn bridge(&self) -> (r: BridgeState)
        ensures
            r == self@.bridge,
    {
        self.bridge
    }

    /// Whether a window-manager session exists: exactly while the nested X
    /// server that it was started for is up.
    pub fn has_session(&self) -> (r: bool)
        ensures
            r == (self@.bridge == BridgeState::Ready),
    {
        self.bridge == BridgeState::Ready
    }

    /// Takes a signal from the nested X server, and says what is to be done
    /// with the window-manager session. Nothing else changes.
    pub fn bridge_signal(&mut self, signal: BridgeSignal) -> (action: BridgeAction)
        requires
            old(self).wf(),
        ensures
            final(self).wf(),
            final(self)@ == (CompositorModel { bridge: bridge_after(signal), ..old(self)@ }),
            action@ == action_for(signal),
    {
        let (next, action) = bridge_step(signal);
        self.bridge = next;
        action
    }

    /// Takes in an X11 window that the bridge reports, to wait for the
    /// commit of its surface; if it waits already, what is known of it is
    /// replaced. A window that is paired already, or one reported while the
    /// bridge is not up, is passed over and nothing changes.
    pub fn add_x11_surface(&mut self, window: X11Window) -> (accepted: bool)
        requires
            old(self).wf(),
        ensures
            final(self).wf(),
            accepted == old(self)@.accepts_window(window),
            final(self)@ == old(self)@.arrived(window),
    {
        if self.bridge != BridgeState::Ready {
            return false;
        }
        if self.surfaces.surface_of_window(window.id).is_some() {
            return false;
        }
        let mut i: usize = 0;
        while i < self.x11_surfaces.len()
            invariant
                *self == *old(self),
                self.wf(),
                self@.accepts_window(window),
                i <= self.x11_surfaces.len(),
                forall|j: int| 0 <= j < i ==> (#[trigger] self.x11_surfaces@[j]).id != window.id,
            decreases self.x11_surfaces.len() - i,
        {
            if self.x11_surfaces[i].id == window.id {
                assert(self.x11_surfaces@[i as int].id == window.id);
                assert(waits(self@.unpaired, window.id));
                assert(waiting_at(self@.unpaired, window.id) == i);
                self.x11_surfaces.set(i, window);
                assert(self@.unpaired =~= old(self)@.unpaired.update(i as int, window));
                assert forall|a: int, b: int|
                    #![trigger self@.unpaired[a], self@.unpaired[b]]
                    0 <= a < b < self@.unpaired.len() implies self@.unpaired[a].id
                    != self@.unpaired[b].id by {
                    assert(old(self)@.unpaired[a].id != old(self)@.unpaired[b].id);
                }
                assert forall|a: int| 0 <= a < self@.unpaired.len() implies !is_bound(
                    self@.surfaces,
                    (#[trigger] self@.unpaired[a]).id,
                ) by {
                    if a != i {
                        assert(!is_bound(old(self)@.surfaces, old(self)@.unpaired[a].id));
                    }
                }
                return true;
            }
            i += 1;
        }
        assert(!waits(self@.unpaired, window.id));
        self.x11_surfaces.push(window);
        assert forall|a: int, b: int|
            #![trigger self@.unpaired[a], self@.unpaired[b]]
            0 <= a < b < self@.unpaired.len() implies self@.unpaired[a].id != self@.unpaired[b].id by {
            if b < old(self)@.unpaired.len() {
                assert(old(self)@.unpaired[a].id != old(self)@.unpaired[b].id);
            } else {
                assert(old(self)@.unpaired[a].id != window.id);
            }
        }
        assert forall|a: int| 0 <= a < self@.unpaired.len() implies !is_bound(
            self@.surfaces,
            (#[trigger] self@.unpaired[a]).id,
        ) by {
            if a < old(self)@.unpaired.len() {
                assert(!is_bound(old(self)@.surfaces, old(self)@.unpaired[a].id));
            }
        }
        true
    }

    /// Gives a surface a role; its entry is created if it was missing.
    pub fn set_role(&mut self, id: u64, role: Role)
        requires
            old(self).wf(),
        ensures
            final(self).wf(),
            final(self)@ == (CompositorModel {
                surfaces: with_role(old(self)@.surfaces, id, role),
                ..old(self)@
            }),
    {
        proof {
            lemma_pairings_kept(self@.surfaces, id);
        }
        self.surfaces.set_role(id, role);
        proof {
            self.surfaces.lemma_no_double_pairing();
            lemma_none_bound_kept(old(self)@.surfaces, self@.surfaces, self@.unpaired);
        }
    }

    /// Drops the entry of a surface, and with it its pairing.
    pub fn remove_surface(&mut self, id: u64) -> (removed: Option<SurfaceEntry>)
        requires
            old(self).wf(),
        ensures
            final(self).wf(),
            final(self)@ == (CompositorModel {
                surfaces: old(self)@.surfaces.remove(id),
                ..old(self)@
            }),
            removed is Some == old(self)@.surfaces.contains_key(id),
            removed matches Some(e) ==> e@ == old(self)@.surfaces[id],
    {
        let removed = self.surfaces.remove(id);
        proof {
            self.surfaces.lemma_no_double_pairing();
            assert forall|x: u64, w: u32| #[trigger]
                paired(self@.surfaces, x, w) implies paired(old(self)@.surfaces, x, w) by {}
            lemma_none_bound_kept(old(self)@.surfaces, self@.surfaces, self@.unpaired);
        }
        removed
    }

    /// Applies an output descriptor.
    pub fn handle_output(&mut self, output: OutputInfo) -> (update: OutputUpdate)
        requires
            old(self).wf(),
        ensures
            final(self).wf(),
            final(self)@ == (CompositorModel {
                outputs: applied(old(self)@.outputs, output),
                ..old(self)@
            }),
            update.created == !old(self)@.outputs.contains_key(output.id),
            update.dropped == dropped_by(old(self)@.outputs, output),
    {
        self.outputs.handle_output(output)
    }

    /// Presents a cursor status: the pointer is hidden, shows a surface at
    /// its hotspot, or shows a cursor of the theme. A surface that is shown
    /// becomes a cursor, and gets an entry if it had none. What the seat is
    /// to show is the pointer image afterwards.
    pub fn cursor_image(&mut self, image: CursorImageStatus, last_enter_serial: u32)
        requires
            old(self).wf(),
        ensures
            final(self).wf(),
            final(self)@ == old(self)@.shown(image, last_enter_serial),
    {
        match &image {
            CursorImageStatus::Surface { surface, hotspot } => {
                proof {
                    lemma_pairings_kept(self@.surfaces, *surface);
                }
                self.surfaces.set_role(*surface, Role::Cursor);
                proof {
                    self.surfaces.lemma_no_double_pairing();
                    lemma_none_bound_kept(old(self)@.surfaces, self@.surfaces, self@.unpaired);
                }
            },
            _ => {},
        }
        self.pointer = present(image, last_enter_serial);
    }
}

/// Where every pairing of the later surfaces was one of the earlier ones,
/// the windows that were paired with nothing still are.
pub proof fn lemma_none_bound_kept(
    before: Map<u64, SurfaceState>,
    after: Map<u64, SurfaceState>,
    unpaired: Seq<X11Window>,
)
    requires
        none_bound(before, unpaired),
        forall|x: u64, w: u32| #[trigger] paired(after, x, w) ==> paired(before, x, w),
    ensures
        none_bound(after, unpaired),
{
    assert forall|i: int| 0 <= i < unpaired.len() implies !is_bound(
        after,
        (#[trigger] unpaired[i]).id,
    ) by {
        if is_bound(after, unpaired[i].id) {
            let x = choose|x: u64| paired(after, x, unpaired[i].id);
            assert(paired(before, x, unpaired[i].id));
        }
    }
}

/// Hiding the pointer and then showing a surface leaves the pointer
/// showing that surface at its recorded hotspot, and the surface a cursor.
pub proof fn lemma_hide_then_show(
    model: CompositorModel,
    surface: u64,
    hotspot: Point,
    first_serial: u32,
    serial: u32,
)
    ensures
        ({
            let hidden = model.shown(CursorImageStatus::Hidden, first_serial);
            let after = hidden.shown(CursorImageStatus::Surface { surface, hotspot }, serial);
            &&& hidden.pointer == PointerImageView::Hidden
            &&& after.pointer == (PointerImageView::Surface { surface, hotspot, serial })
            &&& after.surfaces.contains_key(surface)
            &&& after.surfaces[surface].role == Role::Cursor
            &&& after == model.shown(CursorImageStatus::Surface { surface, hotspot }, serial)
        }),
{
}

} // verus!
