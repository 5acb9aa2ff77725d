//! The rules engine of the control plane.

use vstd::prelude::*;

use crate::frame::{Payload, TelemetryFrame};

verus! {

/// What the control plane does with an accepted frame.
#[derive(Debug, Clone, Copy, PartialEq, Eq, Structural)]
pub enum RuleOutcome {
    ActionTriggered,
    Logged,
}

/// `BoolCmd(true)` and a BOOT byte command trigger the action; `BoolCmd(false)`
/// (the heartbeat) is only logged.
pub open spec fn spec_evaluate(frame: TelemetryFrame) -> RuleOutcome {
    match frame.payload {
        Payload::BoolCmd(true) => RuleOutcome::ActionTriggered,
        Payload::BoolCmd(false) => RuleOutcome::Logged,
        Payload::ByteCmd(_) => RuleOutcome::ActionTriggered,
    }
}

/// Applies the rules to a frame.
pub fn evaluate(frame: &TelemetryFrame) -> (r: RuleOutcome)
    ensures
        r == spec_evaluate(*frame),
{
    match frame.payload {
        Payload::BoolCmd(true) => RuleOutcome::ActionTriggered,
        Payload::BoolCmd(false) => RuleOutcome::Logged,
        Payload::ByteCmd(_) => RuleOutcome::ActionTriggered,
    }
}

} // verus!
