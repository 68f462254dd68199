//! The output reconciler: an idempotent create-or-update of outputs, keyed by
//! the id that each descriptor carries.

use std::collections::HashMap;
use vstd::prelude::*;

use crate::output::other_than;
use crate::output::OutputEntry;
use crate::output::OutputInfo;
use crate::output::OutputMode;
use crate::output::OutputState;
use crate::text::decimal_digits;

verus! {

broadcast use vstd::std_specs::hash::group_hash_axioms;

/// The name under which an output is created: its id in decimal, an
/// underscore, and the name that its descriptor gave.
pub open spec fn label_text(id: u32, name: Seq<char>) -> Seq<char> {
    decimal_digits(id as nat) + seq!['_'] + name
}

/// The name that stands in for one that the descriptor does not give.
pub open spec fn missing_name() -> Seq<char> {
    seq!['N', 'o', 'n', 'e']
}

/// The name that a descriptor gives, or the stand-in.
pub open spec fn given_name(name: Option<String>) -> Seq<char> {
    match name {
        Some(n) => n@,
        None => missing_name(),
    }
}

/// The mode that stands for "no current mode" when a descriptor's mode is
/// compared with an output's.
pub open spec fn unset_mode() -> OutputMode {
    OutputMode { width: 0, height: 0, refresh: 0 }
}

impl OutputState {
    /// An output that only the reconciler has touched: it knows no mode but
    /// its current one, and prefers no other.
    pub open spec fn settled(self) -> bool {
        &&& match self.current {
            Some(m) => self.modes == seq![m],
            None => self.modes.len() == 0,
        }
        &&& self.preferred is Some ==> self.preferred == self.current
    }

    /// The output after a descriptor has been applied: the descriptor's mode
    /// is the only known one and the current one; it is preferred if the
    /// descriptor says so, or if it was preferred before.
    pub open spec fn reconciled(self, info: OutputInfo) -> OutputState {
        let received = info.mode.mode();
        OutputState {
            modes: seq![received],
            current: Some(received),
            preferred: if info.mode.preferred || self.preferred == Some(received) {
                Some(received)
            } else {
                None
            },
            transform: info.transform,
            scale: info.scale_factor,
            location: info.location,
            ..self
        }
    }

    /// The output that a descriptor creates when its id is seen for the
    /// first time, before any of the descriptor's state is applied.
    pub open spec fn announced(info: OutputInfo) -> OutputState {
        OutputState::fresh(
            label_text(info.id, given_name(info.name)),
            info.physical_size,
            info.subpixel,
            info.make@,
            info.model@,
        )
    }
}

/// The outputs after a descriptor has been applied to them: the entry under
/// the descriptor's id is created if it is missing, and reconciled.
pub open spec fn applied(outputs: Map<u32, OutputState>, info: OutputInfo) -> Map<
    u32,
    OutputState,
> {
    let base = if outputs.contains_key(info.id) {
        outputs[info.id]
    } else {
        OutputState::announced(info)
    };
    outputs.insert(info.id, base.reconciled(info))
}

/// Every output is settled.
pub open spec fn all_settled(outputs: Map<u32, OutputState>) -> bool {
    forall|id: u32| outputs.contains_key(id) ==> (#[trigger] outputs[id]).settled()
}

/// `format!` with a `u32` and a string: the number in decimal, an
/// underscore, the string.
#[verifier::external_body]
fn format_label(id: u32, name: &str) -> (label: String)
    ensures
        label@ == label_text(id, name@),
{
    format!("{}_{}", id, name)
}

/// What a descriptor did to the outputs, for whoever shows them to clients.
#[derive(Debug, Clone, Copy)]
pub struct OutputUpdate {
    /// The descriptor's id was seen for the first time: the output has yet
    /// to be made visible to clients, once.
    pub created: bool,
    /// The mode that was current and that the descriptor's mode replaces:
    /// it is no longer offered.
    pub dropped: Option<OutputMode>,
}

/// The mode that a descriptor takes out of the outputs, if any.
pub open spec fn dropped_by(outputs: Map<u32, OutputState>, info: OutputInfo) -> Option<OutputMode> {
    if outputs.contains_key(info.id) && outputs[info.id].current != Some(info.mode.mode()) {
        outputs[info.id].current
    } else {
        None
    }
}

/// The outputs known so far, by id.
pub struct OutputRegistry {
    outputs: HashMap<u32, OutputEntry>,
}

impl OutputRegistry {
    /// What each known output holds.
    pub closed spec fn view(&self) -> Map<u32, OutputState> {
        Map::new(
            |id: u32| self.outputs@.contains_key(id),
            |id: u32| self.outputs@[id]@,
        )
    }

    /// Every known output is settled.
    pub open spec fn wf(&self) -> bool {
        all_settled(self@)
    }

    /// No outputs.
    pub fn new() -> (r: Self)
        ensures
            r@ == Map::<u32, OutputState>::empty(),
            r.wf(),
    {
        let r = OutputRegistry { outputs: HashMap::new() };
        assert(r@ =~= Map::<u32, OutputState>::empty());
        r
    }

    /// Whether an output with this id was ever announced.
    pub fn contains(&self, id: u32) -> (r: bool)
        ensures
            r == self@.contains_key(id),
    {
        self.outputs.contains_key(&id)
    }

    /// The number of outputs.
    pub fn len(&self) -> (n: usize)
        ensures
            n == self@.dom().len(),
    {
        assert(self@.dom() =~= self.outputs@.dom());
        self.outputs.len()
    }

    /// The entry of the output with this id.
    pub fn get(&self, id: u32) -> (r: Option<&OutputEntry>)
        ensures
            r is Some == self@.contains_key(id),
            r matches Some(o) ==> o@ == self@[id],
    {
        self.outputs.get(&id)
    }

    /// Applies a descriptor: creates the output on first sight of its id,
    /// drops the mode that the descriptor's mode replaces, and sets mode,
    /// transform, scale and location at once; the mode is marked preferred
    /// if the descriptor says so.
    pub fn handle_output(&mut self, info: OutputInfo) -> (update: OutputUpdate)
        requires
            old(self).wf(),
        ensures
            final(self).wf(),
            final(self)@ == applied(old(self)@, info),
            update.created == !old(self)@.contains_key(info.id),
            update.dropped == dropped_by(old(self)@, info),
    {
        let ghost before = self@;
        let id = info.id;
        let mode_info = info.mode;
        let transform = info.transform;
        let scale_factor = info.scale_factor;
        let location = info.location;
        let received = OutputMode {
            width: mode_info.dimensions.w,
            height: mode_info.dimensions.h,
            refresh: mode_info.refresh_rate,
        };
        let (mut output, created) = match self.outputs.remove(&id) {
            Some(o) => (o, false),
            None => {
                let name = match info.name {
                    Some(n) => n,
                    None => {
                        proof {
                            reveal_strlit("None");
                        }
                        let n = "None".to_owned();
                        assert(n@ =~= missing_name());
                        n
                    },
                };
                let label = format_label(id, name.as_str());
                (
                    OutputEntry::new(label, info.physical_size, info.subpixel, info.make, info.model),
                    true,
                )
            },
        };
        let ghost base = output@;
        assert(base.settled());
        let had_mode = output.current_mode();
        let current = match had_mode {
            Some(m) => m,
            None => OutputMode { width: 0, height: 0, refresh: 0 },
        };
        let differs = current != received;
        if differs {
            proof {
                lemma_settled_without(base, current);
            }
            output.delete_mode(current);
        }
        let ghost cleared = output@;
        assert(cleared.modes.len() == 0 || cleared.modes == seq![received]);
        assert(seq![received][0] == received);
        output.change_current_state(received, transform, scale_factor, location);
        assert(output@.modes =~= seq![received]);
        if mode_info.preferred {
            output.set_preferred(received);
        }
        assert(output@ == base.reconciled(info));
        self.outputs.insert(id, output);
        assert(self@ =~= applied(before, info));
        proof {
            lemma_applied_settled(before, info);
        }
        OutputUpdate {
            created,
            dropped: if differs {
                had_mode
            } else {
                None
            },
        }
    }
}

/// Forgetting the mode that stands for an output's current mode leaves a
/// settled output without modes.
proof fn lemma_settled_without(s: OutputState, mode: OutputMode)
    requires
        s.settled(),
        mode == (match s.current {
            Some(m) => m,
            None => unset_mode(),
        }),
    ensures
        s.without_mode(mode).modes == Seq::<OutputMode>::empty(),
        s.without_mode(mode).current is None,
        s.without_mode(mode).preferred is None,
{
    let pred = other_than(mode);
    let kept = s.modes.filter(pred);
    s.modes.lemma_filter_len(pred);
    if kept.len() > 0 {
        s.modes.lemma_filter_pred(pred, 0);
        assert(kept.contains(kept[0]));
        s.modes.lemma_filter_contains_rev(pred, kept[0]);
    }
    assert(kept =~= Seq::<OutputMode>::empty());
}

/// A descriptor leaves settled outputs settled.
pub proof fn lemma_applied_settled(outputs: Map<u32, OutputState>, info: OutputInfo)
    requires
        all_settled(outputs),
    ensures
        all_settled(applied(outputs, info)),
{
    let after = applied(outputs, info);
    assert forall|id: u32| after.contains_key(id) implies (#[trigger] after[id]).settled() by {
        if id != info.id {
            assert(outputs.contains_key(id));
            assert(after[id] == outputs[id]);
        }
    }
}

/// Applying one descriptor twice in a row gives what applying it once
/// gives: one entry under its id, with the descriptor's mode as its only
/// known mode.
pub proof fn lemma_applied_idempotent(outputs: Map<u32, OutputState>, info: OutputInfo)
    ensures
        applied(applied(outputs, info), info) == applied(outputs, info),
        applied(outputs, info).contains_key(info.id),
        applied(outputs, info)[info.id].modes == seq![info.mode.mode()],
        applied(outputs, info)[info.id].current == Some(info.mode.mode()),
        applied(outputs, info).dom() == outputs.dom().insert(info.id),
{
    let once = applied(outputs, info);
    assert(once[info.id].reconciled(info) == once[info.id]);
    assert(applied(once, info) =~= once);
    assert(once.dom() =~= outputs.dom().insert(info.id));
}

/// A descriptor with another mode replaces the mode that was there: the
/// earlier mode is no longer known, and the new one is preferred exactly
/// if its descriptor says so.
pub proof fn lemma_mode_replaced(outputs: Map<u32, OutputState>, first: OutputInfo, second: OutputInfo)
    requires
        first.id == second.id,
        first.mode.mode() != second.mode.mode(),
    ensures
        ({
            let after = applied(applied(outputs, first), second)[second.id];
            &&& after.modes == seq![second.mode.mode()]
            &&& !after.modes.contains(first.mode.mode())
            &&& after.current == Some(second.mode.mode())
            &&& after.preferred == (if second.mode.preferred {
                Some(second.mode.mode())
            } else {
                None
            })
        }),
{
    let after = applied(applied(outputs, first), second)[second.id];
    assert(after.modes[0] == second.mode.mode());
}

} // verus!
