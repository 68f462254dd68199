//! The parent resolver: which surface an X11 window hangs under, and by how
//! much a popup on that parent has to be shifted.

use vstd::prelude::*;

use crate::geometry::Offset;
use crate::geometry::Point;
use crate::registry::is_bound;
use crate::registry::paired;
use crate::registry::surface_bound_to;
use crate::registry::Role;
use crate::registry::SurfaceRegistry;
use crate::registry::SurfaceState;
use crate::registry::X11Window;

verus! {

/// What a popup needs of its parent: the surface it is anchored to, and the
/// offset of its position.
#[derive(Debug, Clone, Copy, PartialEq, Eq, Structural)]
pub struct X11ParentForPopup {
    pub surface_id: u64,
    pub offset: Offset,
}

/// The parent of an X11 window.
#[derive(Debug, Clone, Copy, PartialEq, Eq)]
pub struct X11Parent {
    pub surface_id: u64,
    /// The toplevel that positioning is anchored to, where the parent is
    /// one.
    pub for_toplevel: Option<u64>,
    pub for_popup: X11ParentForPopup,
}

/// Why a window's parent cannot be resolved.
#[derive(Debug, Clone, Copy, PartialEq, Eq, Structural)]
pub enum ParentViolation {
    /// The window that it is transient for is paired with no surface.
    TargetNotPaired,
    /// The parent is a cursor, which cannot have children.
    ParentIsCursor,
    /// The parent has no role yet.
    ParentHasNoRole,
}

/// The window that `window` declares itself transient for, if any.
pub open spec fn target_of(window: Option<X11Window>) -> Option<u32> {
    match window {
        Some(w) => w.transient_for,
        None => None,
    }
}

/// What stands in the way of resolving the parent of `window`, if anything.
pub open spec fn violation_of(surfaces: Map<u64, SurfaceState>, window: Option<X11Window>) -> Option<
    ParentViolation,
> {
    match target_of(window) {
        Some(target) => if !is_bound(surfaces, target) {
            Some(ParentViolation::TargetNotPaired)
        } else {
            match surfaces[surface_bound_to(surfaces, target)].role {
                Role::Toplevel(_) => None,
                Role::Popup => None,
                Role::Cursor => Some(ParentViolation::ParentIsCursor),
                Role::Unassigned => Some(ParentViolation::ParentHasNoRole),
            }
        },
        None => None,
    }
}

/// The offset for a popup on a parent with the given role, whose window
/// lies at `origin`: the origin negated, plus the offset of the parent's
/// frame where the parent is a toplevel with a server-drawn frame.
pub open spec fn popup_offset(role: Role, origin: Point) -> Offset {
    let frame = match role {
        Role::Toplevel(t) => match t.frame {
            Some(f) => f.offset,
            None => Point { x: 0, y: 0 },
        },
        _ => Point { x: 0, y: 0 },
    };
    Offset { dx: (-origin.x + frame.x) as i64, dy: (-origin.y + frame.y) as i64 }
}

/// The parent of `window`, where its parent can be resolved: none if it is
/// transient for no window.
pub open spec fn parent_of(surfaces: Map<u64, SurfaceState>, window: Option<X11Window>) -> Option<
    X11Parent,
> {
    match target_of(window) {
        Some(target) => {
            let id = surface_bound_to(surfaces, target);
            let parent = surfaces[id];
            Some(
                X11Parent {
                    surface_id: id,
                    for_toplevel: if parent.role is Toplevel {
                        Some(id)
                    } else {
                        None
                    },
                    for_popup: X11ParentForPopup {
                        surface_id: id,
                        offset: popup_offset(parent.role, parent.window->0.origin),
                    },
                },
            )
        },
        None => None,
    }
}

/// Computes the offset for a popup on a parent.
fn offset_for(role: Role, origin: Point) -> (offset: Offset)
    ensures
        offset == popup_offset(role, origin),
{
    let frame = match role {
        Role::Toplevel(t) => match t.frame {
            Some(f) => f.offset,
            None => Point { x: 0, y: 0 },
        },
        _ => Point { x: 0, y: 0 },
    };
    let ox: i64 = origin.x as i64;
    let oy: i64 = origin.y as i64;
    let fx: i64 = frame.x as i64;
    let fy: i64 = frame.y as i64;
    Offset { dx: -ox + fx, dy: -oy + fy }
}

/// Says what stands in the way of resolving the parent of a window, if
/// anything does: that the window it is transient for is paired with no
/// surface, or that the parent is a cursor or has no role.
pub fn parent_violation(registry: &SurfaceRegistry, x11_surface: Option<X11Window>) -> (r: Option<
    ParentViolation,
>)
    requires
        registry.wf(),
    ensures
        r == violation_of(registry@, x11_surface),
{
    let target = match x11_surface {
        Some(w) => w.transient_for,
        None => None,
    };
    match target {
        Some(t) => match registry.surface_of_window(t) {
            Some(id) => match registry.get(id) {
                Some(parent) => match parent.role {
                    Role::Toplevel(_) => None,
                    Role::Popup => None,
                    Role::Cursor => Some(ParentViolation::ParentIsCursor),
                    Role::Unassigned => Some(ParentViolation::ParentHasNoRole),
                },
                None => Some(ParentViolation::TargetNotPaired),
            },
            None => Some(ParentViolation::TargetNotPaired),
        },
        None => None,
    }
}

/// Resolves the parent of a window: the surface paired with the window
/// that it is transient for, with the toplevel to anchor to where the
/// parent is one, and the popup offset. A window that is transient for
/// nothing, or no window at all, has no parent.
///
/// The window that it is transient for must be paired already, with a
/// surface that is a toplevel or a popup.
pub fn find_x11_parent(registry: &SurfaceRegistry, x11_surface: Option<X11Window>) -> (r: Option<
    X11Parent,
>)
    requires
        registry.wf(),
        violation_of(registry@, x11_surface) is None,
    ensures
        r == parent_of(registry@, x11_surface),
        r is Some == target_of(x11_surface) is Some,
{
    let target = match x11_surface {
        Some(w) => w.transient_for,
        None => None,
    };
    let t = match target {
        Some(t) => t,
        None => {
            return None;
        },
    };
    let id = match registry.surface_of_window(t) {
        Some(id) => id,
        None => {
            return None;
        },
    };
    let parent = match registry.get(id) {
        Some(p) => p,
        None => {
            return None;
        },
    };
    let origin = match parent.x11_window {
        Some(w) => w.origin,
        None => Point { x: 0, y: 0 },
    };
    assert(paired(registry@, id, t));
    let for_toplevel = match parent.role {
        Role::Toplevel(_) => Some(id),
        _ => None,
    };
    Some(
        X11Parent {
            surface_id: id,
            for_toplevel,
            for_popup: X11ParentForPopup { surface_id: id, offset: offset_for(parent.role, origin) },
        },
    )
}

} // verus!
