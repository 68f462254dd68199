//! The lifecycle of the compatibility bridge: the nested X server comes up,
//! a window-manager session is bound to it, and both go away together.

use vstd::prelude::*;

use crate::text::decimal_digits;

verus! {

/// Where the compatibility bridge stands.
#[derive(Debug, Clone, Copy, PartialEq, Eq, Structural)]
pub enum BridgeState {
    /// The nested X server has not reported yet.
    Starting,
    /// The nested X server is up and a window-manager session is bound to
    /// it.
    Ready,
    /// The nested X server has exited and the session is gone.
    Exited,
}

/// A signal from the nested X server.
#[derive(Debug, Clone, Copy, PartialEq, Eq, Structural)]
pub enum BridgeSignal {
    /// The server is up, on the display with this number.
    Ready { display: u32 },
    /// The server has exited.
    Exited,
}

/// What is to be done with the window-manager session after a signal.
#[derive(Debug, Clone, PartialEq, Eq)]
pub enum BridgeAction {
    /// Start a session on the connection that came with the signal, and
    /// advertise the given window-manager name on the given display.
    /// Without either the bridge cannot work.
    StartSession { display_name: String, wm_name: String },
    /// Drop the session and release what it holds.
    DropSession,
}

/// What an action holds.
pub enum BridgeActionView {
    StartSession { display_name: Seq<char>, wm_name: Seq<char> },
    DropSession,
}

impl View for BridgeAction {
    type V = BridgeActionView;

    open spec fn view(&self) -> BridgeActionView {
        match self {
            BridgeAction::StartSession { display_name, wm_name } => BridgeActionView::StartSession {
                display_name: display_name@,
                wm_name: wm_name@,
            },
            BridgeAction::DropSession => BridgeActionView::DropSession,
        }
    }
}

/// The name of the display with the given number: a colon and the number
/// in decimal.
pub open spec fn display_name_text(display: u32) -> Seq<char> {
    seq![':'] + decimal_digits(display as nat)
}

/// The window-manager name that legacy toolkits look for before they
/// enable some client-side negotiations.
pub open spec fn compatibility_name_text() -> Seq<char> {
    seq!['L', 'G', '3', 'D']
}

/// The state of the bridge after a signal.
pub open spec fn bridge_after(signal: BridgeSignal) -> BridgeState {
    match signal {
        BridgeSignal::Ready { .. } => BridgeState::Ready,
        BridgeSignal::Exited => BridgeState::Exited,
    }
}

/// What a signal asks for.
pub open spec fn action_for(signal: BridgeSignal) -> BridgeActionView {
    match signal {
        BridgeSignal::Ready { display } => BridgeActionView::StartSession {
            display_name: display_name_text(display),
            wm_name: compatibility_name_text(),
        },
        BridgeSignal::Exited => BridgeActionView::DropSession,
    }
}

/// `format!` with a colon and a `u32`: the colon, then the number in
/// decimal.
#[verifier::external_body]
fn format_display(display: u32) -> (name: String)
    ensures
        name@ == display_name_text(display),
{
    format!(":{}", display)
}

/// The window-manager name to advertise on the nested X server.
pub fn compatibility_name() -> (name: String)
    ensures
        name@ == compatibility_name_text(),
{
    proof {
        reveal_strlit("LG3D");
    }
    let name = "LG3D".to_owned();
    assert(name@ =~= compatibility_name_text());
    name
}

/// The name of the display with the given number.
pub fn display_name(display: u32) -> (name: String)
    ensures
        name@ == display_name_text(display),
{
    format_display(display)
}

/// Takes a signal from the nested X server: the new state of the bridge,
/// and what is to be done with the window-manager session.
pub fn bridge_step(signal: BridgeSignal) -> (r: (BridgeState, BridgeAction))
    ensures
        r.0 == bridge_after(signal),
        r.1@ == action_for(signal),
{
    match signal {
        BridgeSignal::Ready { display } => (
            BridgeState::Ready,
            BridgeAction::StartSession {
                display_name: display_name(display),
                wm_name: compatibility_name(),
            },
        ),
        BridgeSignal::Exited => (BridgeState::Exited, BridgeAction::DropSession),
    }
}

} // verus!
