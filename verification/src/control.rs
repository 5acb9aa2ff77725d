//! What the control plane does with a decoded frame.

use vstd::prelude::*;
use vstd::string::*;

use crate::frame::TelemetryFrame;
use crate::replay::{is_fresh, ReplayGuard};
use crate::rules::{evaluate, spec_evaluate, RuleOutcome};
use crate::text::{dec, push_dec};

verus! {

/// Outcome of processing one frame.
#[derive(Debug, Clone, Copy, PartialEq, Eq, Structural)]
pub enum FrameDisposition {
    /// A replayed frame: refused, only reported.
    ReplayRejected,
    /// A new frame and what the rules made of it.
    Accepted(RuleOutcome),
}

impl FrameDisposition {
    /// Whether the frame is persisted: accepted frames that trigger the action.
    pub open spec fn spec_persists(self) -> bool {
        self == FrameDisposition::Accepted(RuleOutcome::ActionTriggered)
    }

    /// Whether the frame is persisted.
    pub fn persists(&self) -> (b: bool)
        ensures
            b == self.spec_persists(),
    {
        match self {
            FrameDisposition::Accepted(RuleOutcome::ActionTriggered) => true,
            _ => false,
        }
    }
}

/// Passes a frame through replay protection and the rules: a replayed frame
/// is refused without touching the guard; a new one is recorded by the guard
/// and evaluated.
pub fn process_frame(frame: &TelemetryFrame, replay: &mut ReplayGuard) -> (d: FrameDisposition)
    ensures
        is_fresh(old(replay)@, frame.node_id, frame.seq) ==> d == FrameDisposition::Accepted(spec_evaluate(*frame))
            && final(replay)@ == old(replay)@.insert(frame.node_id, frame.seq),
        !is_fresh(old(replay)@, frame.node_id, frame.seq) ==> d == FrameDisposition::ReplayRejected
            && final(replay)@ == old(replay)@,
{
    if !replay.accept(frame.node_id, frame.seq) {
        return FrameDisposition::ReplayRejected;
    }
    FrameDisposition::Accepted(evaluate(frame))
}

/// Storage key of a frame: `<node_id>:<seq>`.
pub open spec fn store_key_text(node_id: u8, seq: u32) -> Seq<char> {
    dec(node_id as nat) + ":"@ + dec(seq as nat)
}

/// Storage key of a frame.
pub fn store_key(node_id: u8, seq: u32) -> (k: String)
    ensures
        k@ == store_key_text(node_id, seq),
{
    let mut k = String::new();
    push_dec(&mut k, node_id as u128);
    k.append(":");
    push_dec(&mut k, seq as u128);
    proof {
        assert(k@ =~= store_key_text(node_id, seq));
    }
    k
}

/// A frame is persisted at most once: once a triggering frame was accepted,
/// the same (node, seq) arriving again is refused and not persisted again.
pub proof fn law_persist_once(seen: Map<u8, u32>, frame: TelemetryFrame)
    requires
        is_fresh(seen, frame.node_id, frame.seq),
    ensures
        !is_fresh(seen.insert(frame.node_id, frame.seq), frame.node_id, frame.seq),
{
}

} // verus!
