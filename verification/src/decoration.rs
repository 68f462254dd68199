//! Configuration of server-side window decorations.

use vstd::prelude::*;

verus! {

/// Whether server-drawn decoration frames are ever shown.
#[derive(Debug, Clone, Copy, PartialEq, Eq, Structural)]
pub enum DecorationBehavior {
    /// The decision is left to a per-window policy outside this library.
    Auto,
    /// Every toplevel gets a server-drawn frame.
    AlwaysEnabled,
    /// No toplevel gets a server-drawn frame.
    AlwaysDisabled,
}

impl Default for DecorationBehavior {
    fn default() -> (r: Self)
        ensures
            r == DecorationBehavior::Auto,
    {
        DecorationBehavior::Auto
    }
}

} // verus!
