//! The live event log of the control plane: the most recent events, newest
//! first, and the last triggered action.

use std::collections::VecDeque;
use vstd::prelude::*;
use vstd::string::*;

use crate::frame::{Payload, TelemetryFrame};
use crate::rules::RuleOutcome;
use crate::text::{dec, hex_fixed_upper, push_dec, push_hex_upper_fixed, str_equal};

verus! {

/// Number of events the log keeps.
pub const LIVE_LOG_CAPACITY: usize = 200;

/// One event shown on the dashboard.
#[derive(Clone, Debug)]
pub struct LiveEvent {
    pub ts_ms: u64,
    pub level: &'static str,
    pub source: &'static str,
    pub message: String,
    pub node_id: Option<u8>,
    pub seq: Option<u32>,
    pub payload: Option<String>,
}

/// An event, as text.
pub struct LiveEventView {
    pub ts_ms: u64,
    pub level: Seq<char>,
    pub source: Seq<char>,
    pub message: Seq<char>,
    pub node_id: Option<u8>,
    pub seq: Option<u32>,
    pub payload: Option<Seq<char>>,
}

impl View for LiveEvent {
    type V = LiveEventView;

    open spec fn view(&self) -> LiveEventView {
        LiveEventView {
            ts_ms: self.ts_ms,
            level: self.level@,
            source: self.source@,
            message: self.message@,
            node_id: self.node_id,
            seq: self.seq,
            payload: crate::gateway::opt_text(self.payload),
        }
    }
}

/// Dashboard label of a payload.
pub open spec fn payload_text(p: Payload) -> Seq<char> {
    match p {
        Payload::BoolCmd(true) => "BoolCmd(true)"@,
        Payload::BoolCmd(false) => "BoolCmd(false)"@,
        Payload::ByteCmd(v) => "ByteCmd(0x"@ + hex_fixed_upper(v as nat, 2) + ")"@,
    }
}

/// Dashboard label of a payload, such as `BoolCmd(true)` or `ByteCmd(0xB2)`.
pub fn payload_label(payload: &Payload) -> (s: String)
    ensures
        s@ == payload_text(*payload),
{
    match payload {
        Payload::BoolCmd(true) => String::from_str("BoolCmd(true)"),
        Payload::BoolCmd(false) => String::from_str("BoolCmd(false)"),
        Payload::ByteCmd(value) => {
            let mut s = String::from_str("ByteCmd(0x");
            push_hex_upper_fixed(&mut s, *value as u128, 2);
            s.append(")");
            s
        },
    }
}

/// The event recorded for a frame: a warning for a replayed frame, an action
/// for a triggered rule, an info line otherwise.
pub open spec fn frame_event(frame: TelemetryFrame, outcome: RuleOutcome, replay_rejected: bool, ts_ms: u64) -> LiveEventView {
    let label = payload_text(frame.payload);
    let node = dec(frame.node_id as nat);
    let seq = dec(frame.seq as nat);
    if replay_rejected {
        LiveEventView {
            ts_ms,
            level: "warn"@,
            source: "control_plane"@,
            message: "rejected replayed frame node_id="@ + node + " seq="@ + seq,
            node_id: Some(frame.node_id),
            seq: Some(frame.seq),
            payload: Some(label),
        }
    } else if outcome == RuleOutcome::ActionTriggered {
        LiveEventView {
            ts_ms,
            level: "action"@,
            source: "control_plane"@,
            message: "ACTION_TRIGGERED: "@ + label + " node="@ + node + " seq="@ + seq,
            node_id: Some(frame.node_id),
            seq: Some(frame.seq),
            payload: Some(label),
        }
    } else {
        LiveEventView {
            ts_ms,
            level: "info"@,
            source: "control_plane"@,
            message: "telemetry node="@ + node + " seq="@ + seq + " payload="@ + label,
            node_id: Some(frame.node_id),
            seq: Some(frame.seq),
            payload: Some(label),
        }
    }
}

/// Builds the event recorded for a frame.
pub fn make_frame_event(frame: &TelemetryFrame, outcome: RuleOutcome, replay_rejected: bool, ts_ms: u64) -> (e: LiveEvent)
    ensures
        e@ == frame_event(*frame, outcome, replay_rejected, ts_ms),
{
    let label = payload_label(&frame.payload);
    if replay_rejected {
        let mut m = String::from_str("rejected replayed frame node_id=");
        push_dec(&mut m, frame.node_id as u128);
        m.append(" seq=");
        push_dec(&mut m, frame.seq as u128);
        LiveEvent {
            ts_ms,
            level: "warn",
            source: "control_plane",
            message: m,
            node_id: Some(frame.node_id),
            seq: Some(frame.seq),
            payload: Some(label),
        }
    } else if outcome == RuleOutcome::ActionTriggered {
        let mut m = String::from_str("ACTION_TRIGGERED: ");
        m.append(label.as_str());
        m.append(" node=");
        push_dec(&mut m, frame.node_id as u128);
        m.append(" seq=");
        push_dec(&mut m, frame.seq as u128);
        LiveEvent {
            ts_ms,
            level: "action",
            source: "control_plane",
            message: m,
            node_id: Some(frame.node_id),
            seq: Some(frame.seq),
            payload: Some(label),
        }
    } else {
        let mut m = String::from_str("telemetry node=");
        push_dec(&mut m, frame.node_id as u128);
        m.append(" seq=");
        push_dec(&mut m, frame.seq as u128);
        m.append(" payload=");
        m.append(label.as_str());
        LiveEvent {
            ts_ms,
            level: "info",
            source: "control_plane",
            message: m,
            node_id: Some(frame.node_id),
            seq: Some(frame.seq),
            payload: Some(label),
        }
    }
}

/// The log after `e` is pushed: newest first, at most 200 events.
pub open spec fn pushed(events: Seq<LiveEventView>, e: LiveEventView) -> Seq<LiveEventView> {
    let all = seq![e] + events;
    if all.len() > LIVE_LOG_CAPACITY {
        all.take(LIVE_LOG_CAPACITY as int)
    } else {
        all
    }
}

/// The last action after `e` is pushed: an `action` event with a node and a
/// sequence number replaces it.
pub open spec fn action_after(last: Option<(u8, u32)>, e: LiveEventView) -> Option<(u8, u32)> {
    if e.level == "action"@ && e.node_id is Some && e.seq is Some {
        Some((e.node_id.unwrap(), e.seq.unwrap()))
    } else {
        last
    }
}

/// The recent events and the last action of the control plane.
pub struct LiveLog {
    events: VecDeque<LiveEvent>,
    last_action: Option<(u8, u32)>,
}

/// The log, as text.
pub struct LiveLogView {
    pub events: Seq<LiveEventView>,
    pub last_action: Option<(u8, u32)>,
}

impl View for LiveLog {
    type V = LiveLogView;

    closed spec fn view(&self) -> LiveLogView {
        LiveLogView { events: self.events@.map_values(|e: LiveEvent| e@), last_action: self.last_action }
    }
}

fn copy_event(e: &LiveEvent) -> (r: LiveEvent)
    ensures
        r@ == e@,
{
    LiveEvent {
        ts_ms: e.ts_ms,
        level: e.level,
        source: e.source,
        message: e.message.clone(),
        node_id: e.node_id,
        seq: e.seq,
        payload: match &e.payload {
            Some(p) => Some(p.clone()),
            None => None,
        },
    }
}

impl LiveLog {
    /// An empty log.
    pub fn new() -> (l: Self)
        ensures
            l@.events == Seq::<LiveEventView>::empty(),
            l@.last_action is None,
    {
        let l = LiveLog { events: VecDeque::new(), last_action: None };
        proof {
            assert(l@.events =~= Seq::<LiveEventView>::empty());
        }
        l
    }

    /// Records an event: it goes first, the oldest beyond 200 are dropped,
    /// and an `action` event with a node and sequence number becomes the last
    /// action.
    pub fn push(&mut self, event: LiveEvent)
        requires
            old(self)@.events.len() <= LIVE_LOG_CAPACITY,
        ensures
            final(self)@.events == pushed(old(self)@.events, event@),
            final(self)@.last_action == action_after(old(self)@.last_action, event@),
            final(self)@.events.len() <= LIVE_LOG_CAPACITY,
    {
        if str_equal(event.level, "action") {
            match (event.node_id, event.seq) {
                (Some(n), Some(s)) => {
                    self.last_action = Some((n, s));
                },
                _ => {},
            }
        }
        let ghost e = event@;
        let ghost before = self@.events;
        self.events.push_front(event);
        proof {
            assert(self@.events =~= seq![e] + before);
        }
        if self.events.len() > LIVE_LOG_CAPACITY {
            let ghost full = self@.events;
            let _ = self.events.pop_back();
            proof {
                assert(self@.events =~= full.take(LIVE_LOG_CAPACITY as int));
            }
        }
    }

    /// The recent events, newest first.
    pub fn recent(&self) -> (v: Vec<LiveEvent>)
        ensures
            v@.map_values(|e: LiveEvent| e@) == self@.events,
    {
        let mut v: Vec<LiveEvent> = Vec::new();
        let mut i: usize = 0;
        while i < self.events.len()
            invariant
                i <= self.events@.len(),
                v@.len() == i,
                forall|k: int| 0 <= k < i ==> (#[trigger] v@[k])@ == self.events@[k]@,
            decreases self.events@.len() - i,
        {
            v.push(copy_event(&self.events[i]));
            i += 1;
        }
        proof {
            assert(v@.map_values(|e: LiveEvent| e@) =~= self@.events);
        }
        v
    }

    /// Number of events held.
    pub fn event_count(&self) -> (n: usize)
        ensures
            n == self@.events.len(),
    {
        self.events.len()
    }

    /// The node and sequence number of the last triggered action.
    pub fn last_action(&self) -> (r: Option<(u8, u32)>)
        ensures
            r == self@.last_action,
    {
        self.last_action
    }

    /// Records the event for a processed frame and returns it (for live
    /// subscribers).
    pub fn record_frame(&mut self, frame: &TelemetryFrame, outcome: RuleOutcome, replay_rejected: bool, ts_ms: u64) -> (e: LiveEvent)
        requires
            old(self)@.events.len() <= LIVE_LOG_CAPACITY,
        ensures
            e@ == frame_event(*frame, outcome, replay_rejected, ts_ms),
            final(self)@.events == pushed(old(self)@.events, e@),
            final(self)@.last_action == action_after(old(self)@.last_action, e@),
            final(self)@.events.len() <= LIVE_LOG_CAPACITY,
    {
        let e = make_frame_event(frame, outcome, replay_rejected, ts_ms);
        let copy = copy_event(&e);
        self.push(copy);
        e
    }
}

/// A replayed frame is recorded as a warning that names its node and
/// sequence number, whatever rule outcome accompanies it; it goes first in
/// the log and never becomes the last action.
pub proof fn law_replay_is_warning(
    frame: TelemetryFrame,
    outcome: RuleOutcome,
    ts_ms: u64,
    events: Seq<LiveEventView>,
    last: Option<(u8, u32)>,
)
    ensures
        ({
            let e = frame_event(frame, outcome, true, ts_ms);
            &&& e.level == "warn"@
            &&& e.message == "rejected replayed frame node_id="@ + dec(frame.node_id as nat) + " seq="@ + dec(
                frame.seq as nat,
            )
            &&& e.node_id == Some(frame.node_id)
            &&& e.seq == Some(frame.seq)
            &&& e.ts_ms == ts_ms
            &&& pushed(events, e)[0] == e
            &&& action_after(last, e) == last
        }),
{
    reveal_strlit("warn");
    reveal_strlit("action");
    assert("warn"@ != "action"@) by {
        assert("warn"@[0] != "action"@[0]);
    }
    let e = frame_event(frame, outcome, true, ts_ms);
    assert((seq![e] + events)[0] == e);
}

/// An accepted frame whose rule fired is recorded as an `action` event
/// naming its payload, node and sequence number, and becomes the last
/// action; an accepted frame that is only logged is an `info` event and
/// leaves the last action alone. Every frame event carries the frame's
/// node, sequence number and payload label.
pub proof fn law_accepted_frame_event(frame: TelemetryFrame, outcome: RuleOutcome, ts_ms: u64, last: Option<(u8, u32)>)
    ensures
        ({
            let e = frame_event(frame, outcome, false, ts_ms);
            &&& e.node_id == Some(frame.node_id)
            &&& e.seq == Some(frame.seq)
            &&& e.payload == Some(payload_text(frame.payload))
            &&& e.ts_ms == ts_ms
            &&& outcome == RuleOutcome::ActionTriggered ==> {
                &&& e.level == "action"@
                &&& e.message == "ACTION_TRIGGERED: "@ + payload_text(frame.payload) + " node="@ + dec(
                    frame.node_id as nat,
                ) + " seq="@ + dec(frame.seq as nat)
                &&& action_after(last, e) == Some((frame.node_id, frame.seq))
            }
            &&& outcome == RuleOutcome::Logged ==> {
                &&& e.level == "info"@
                &&& e.message == "telemetry node="@ + dec(frame.node_id as nat) + " seq="@ + dec(frame.seq as nat)
                    + " payload="@ + payload_text(frame.payload)
                &&& action_after(last, e) == last
            }
        }),
{
    reveal_strlit("info");
    reveal_strlit("action");
    assert("info"@ != "action"@) by {
        assert("info"@[0] != "action"@[0]);
    }
}

} // verus!
