//! Integer and text logic of the HIL simulator's trigger pipeline: bit
//! patterns, bit error positions, packet verdicts and counters.

use vstd::prelude::*;

use crate::replay::{is_fresh, ReplayGuard};
use vstd::string::*;

use crate::text::{chars_of, dec_padded, push_char, push_dec_padded};

verus! {

/// Radio transport being simulated.
#[derive(Debug, Clone, Copy, PartialEq, Eq, Structural)]
pub enum TransmissionMode {
    EspNow,
    BleAdvertisement,
    Ook433Mhz,
}

impl Default for TransmissionMode {
    fn default() -> (m: Self)
        ensures
            m == TransmissionMode::EspNow,
    {
        TransmissionMode::EspNow
    }
}

/// Dashboard label of a transport.
pub open spec fn mode_text(mode: TransmissionMode) -> Seq<char> {
    match mode {
        TransmissionMode::EspNow => "ESP-NOW"@,
        TransmissionMode::BleAdvertisement => "BLE Advertisement"@,
        TransmissionMode::Ook433Mhz => "433MHz OOK"@,
    }
}

/// Dashboard label of a transport.
pub fn mode_label(mode: TransmissionMode) -> (s: &'static str)
    ensures
        s@ == mode_text(mode),
{
    match mode {
        TransmissionMode::EspNow => "ESP-NOW",
        TransmissionMode::BleAdvertisement => "BLE Advertisement",
        TransmissionMode::Ook433Mhz => "433MHz OOK",
    }
}

/// The bits written in `s`: each `0` or `1`, in order; other characters are
/// skipped.
pub open spec fn bits_of(s: Seq<char>) -> Seq<bool>
    decreases s.len(),
{
    if s.len() == 0 {
        Seq::empty()
    } else {
        let b = bits_of(s.drop_last());
        if s.last() == '0' || s.last() == '1' {
            b.push(s.last() == '1')
        } else {
            b
        }
    }
}

/// Parses a bit pattern such as `10110010`.
pub fn parse_bits(data: &str) -> (bits: Vec<bool>)
    ensures
        bits@ == bits_of(data@),
{
    let cs = chars_of(data);
    let mut bits: Vec<bool> = Vec::new();
    let mut i: usize = 0;
    while i < cs.len()
        invariant
            i <= cs@.len(),
            cs@ == data@,
            bits@ == bits_of(cs@.subrange(0, i as int)),
        decreases cs@.len() - i,
    {
        proof {
            assert(cs@.subrange(0, i + 1).drop_last() =~= cs@.subrange(0, i as int));
        }
        let c = cs[i];
        if c == '0' || c == '1' {
            bits.push(c == '1');
        }
        i += 1;
    }
    proof {
        assert(cs@.subrange(0, cs@.len() as int) =~= cs@);
    }
    bits
}

/// The bits a trigger transmits: the configured pattern when it holds at
/// least one `0` or `1`, the default pattern `10110010` otherwise.
pub open spec fn pattern_of(data: Seq<char>) -> Seq<bool> {
    if bits_of(data).len() > 0 {
        bits_of(data)
    } else {
        bits_of("10110010"@)
    }
}

/// The bits a trigger transmits for the configured pattern `data`.
pub fn pattern_bits(data: &str) -> (bits: Vec<bool>)
    ensures
        bits@ == pattern_of(data@),
{
    let bits = parse_bits(data);
    if bits.len() > 0 {
        bits
    } else {
        parse_bits("10110010")
    }
}

/// Replay check of a trigger after the transmission was judged: with the
/// guard on, the guard accepts or refuses `(node_id, seq)` and a refusal
/// makes the trigger a replay; with the guard off nothing is checked.
pub fn guard_trigger(replay: &mut ReplayGuard, replay_guard: bool, node_id: u8, seq: u32) -> (rejected: bool)
    ensures
        rejected == (replay_guard && !is_fresh(old(replay)@, node_id, seq)),
        replay_guard && !rejected ==> final(replay)@ == old(replay)@.insert(node_id, seq),
        !(replay_guard && !rejected) ==> final(replay)@ == old(replay)@,
{
    if replay_guard {
        !replay.accept(node_id, seq)
    } else {
        false
    }
}

/// A bit pattern as text of `0` and `1`.
pub open spec fn bits_text(bits: Seq<bool>) -> Seq<char> {
    bits.map_values(|b: bool| if b { '1' } else { '0' })
}

/// A bit pattern as text of `0` and `1`.
pub fn bits_to_string(bits: &[bool]) -> (s: String)
    ensures
        s@ == bits_text(bits@),
{
    let mut s = String::new();
    let mut i: usize = 0;
    while i < bits.len()
        invariant
            i <= bits@.len(),
            s@ =~= bits_text(bits@.subrange(0, i as int)),
        decreases bits@.len() - i,
    {
        push_char(&mut s, if bits[i] { '1' } else { '0' });
        i += 1;
    }
    proof {
        assert(bits@.subrange(0, bits@.len() as int) =~= bits@);
    }
    s
}

/// Bit `i` of a pattern, `false` past its end.
pub open spec fn bit_at(bits: Seq<bool>, i: int) -> bool {
    if 0 <= i < bits.len() {
        bits[i]
    } else {
        false
    }
}

/// Whether position `i` differs between the two patterns.
pub open spec fn differs(original: Seq<bool>, recovered: Seq<bool>, i: int) -> bool {
    bit_at(original, i) != bit_at(recovered, i)
}

/// The positions below `n` where the patterns differ, increasing.
pub open spec fn error_positions(original: Seq<bool>, recovered: Seq<bool>, n: nat) -> Seq<usize>
    decreases n,
{
    if n == 0 {
        Seq::empty()
    } else {
        let p = error_positions(original, recovered, (n - 1) as nat);
        if differs(original, recovered, n - 1) {
            p.push((n - 1) as usize)
        } else {
            p
        }
    }
}

/// Length over which two patterns are compared: the longer one.
pub open spec fn compared_len(original: Seq<bool>, recovered: Seq<bool>) -> nat {
    if original.len() >= recovered.len() {
        original.len()
    } else {
        recovered.len()
    }
}

/// The positions where the recovered bits differ from the sent bits; a
/// missing bit counts as `0`.
pub fn bit_error_indices(original: &[bool], recovered: &[bool]) -> (errs: Vec<usize>)
    ensures
        errs@ == error_positions(original@, recovered@, compared_len(original@, recovered@)),
{
    let len = if original.len() >= recovered.len() { original.len() } else { recovered.len() };
    let mut errs: Vec<usize> = Vec::new();
    let mut i: usize = 0;
    while i < len
        invariant
            i <= len,
            len == compared_len(original@, recovered@),
            errs@ == error_positions(original@, recovered@, i as nat),
        decreases len - i,
    {
        let o = if i < original.len() { original[i] } else { false };
        let r = if i < recovered.len() { recovered[i] } else { false };
        if o != r {
            errs.push(i);
        }
        i += 1;
    }
    errs
}

/// Reading back the text of a bit pattern gives the pattern.
pub proof fn law_bits_text_round_trip(bits: Seq<bool>)
    ensures
        bits_of(bits_text(bits)) == bits,
    decreases bits.len(),
{
    if bits.len() > 0 {
        law_bits_text_round_trip(bits.drop_last());
        assert(bits_text(bits).drop_last() =~= bits_text(bits.drop_last()));
        assert(bits.drop_last().push(bits.last()) =~= bits);
    }
}

/// Writing out the bits read from a text gives the text with every
/// character other than `0` and `1` removed.
pub proof fn law_bits_of_text(s: Seq<char>)
    ensures
        bits_text(bits_of(s)) == s.filter(|c: char| c == '0' || c == '1'),
    decreases s.len(),
{
    reveal_with_fuel(Seq::filter, 1);
    if s.len() > 0 {
        law_bits_of_text(s.drop_last());
        let b = bits_of(s.drop_last());
        if s.last() == '0' || s.last() == '1' {
            assert(bits_text(b.push(s.last() == '1')) =~= bits_text(b).push(s.last()));
        }
    } else {
        assert(bits_text(bits_of(s)) =~= s);
    }
}

/// Status text of a trigger.
pub open spec fn trigger_status(replay_rejected: bool, packet_ok: bool, crc_ok: bool) -> Seq<char> {
    if replay_rejected {
        "重放拒絕"@
    } else if packet_ok {
        "封包完整"@
    } else if !crc_ok {
        "封包損壞 (CRC Error)"@
    } else {
        "位元錯誤"@
    }
}

/// Verdict on one simulated transmission.
#[derive(Debug, Clone, Copy, PartialEq, Eq)]
pub struct TriggerVerdict {
    /// Bits intact, framing and CRC good, and not a replay.
    pub packet_ok: bool,
    pub replay_rejected: bool,
    pub latency_ms: u32,
    pub status: &'static str,
    /// Whether the frame went out on the publish socket; a fresh verdict has
    /// published nothing yet.
    pub zmq_published: bool,
}

/// Simulated latency: 20 ms, 5 ms per bit error, then 5 ms for a good packet
/// or 30 ms for a bad one, clamped to 15..=120 ms.
pub open spec fn latency(errors: nat, packet_ok: bool) -> u32 {
    let raw: nat = 20 + 5 * errors + if packet_ok { 5nat } else { 30nat };
    if raw < 15 {
        15
    } else if raw > 120 {
        120
    } else {
        raw as u32
    }
}

/// Judges one simulated transmission: the packet is good when no bit was
/// flipped and the frame encoded and checked; a sequence number at or below
/// the node's last accepted one is a replay when the guard is on.
pub fn judge_trigger(
    bits_clean: bool,
    crc_ok: bool,
    wire_ok: bool,
    replay_guard: bool,
    last_seq: Option<u32>,
    seq: u32,
    bit_errors: usize,
) -> (v: TriggerVerdict)
    ensures
        ({
            let ok = bits_clean && crc_ok && wire_ok;
            let replay = replay_guard && match last_seq {
                Some(s) => seq <= s,
                None => false,
            };
            &&& v.replay_rejected == replay
            &&& v.packet_ok == (ok && !replay)
            &&& v.latency_ms == latency(bit_errors as nat, ok)
            &&& v.status@ == trigger_status(replay, ok, crc_ok)
            &&& !v.zmq_published
        }),
{
    let ok = bits_clean && crc_ok && wire_ok;
    let replay = replay_guard && match last_seq {
        Some(s) => seq <= s,
        None => false,
    };
    let extra: u64 = if ok { 5 } else { 30 };
    let raw: u128 = 20 + 5 * (bit_errors as u128) + extra as u128;
    let lat: u32 = if raw < 15 {
        15
    } else if raw > 120 {
        120
    } else {
        raw as u32
    };
    let status = if replay {
        "重放拒絕"
    } else if ok {
        "封包完整"
    } else if !crc_ok {
        "封包損壞 (CRC Error)"
    } else {
        "位元錯誤"
    };
    TriggerVerdict { packet_ok: ok && !replay, replay_rejected: replay, latency_ms: lat, status, zmq_published: false }
}

/// Packet counters of the simulator, with the last trigger's latency and
/// boolean value.
#[derive(Debug, Clone, Copy, PartialEq, Eq, Structural)]
pub struct PacketCounters {
    pub packets_sent: u32,
    pub packets_ok: u32,
    pub security_alerts: u32,
    pub latency_ms: u32,
    pub last_bool: bool,
}

/// Counts one transmission of `bool_value` judged as `v`: always sent; ok
/// when the verdict is good; a replay raises a security alert; the latency
/// and the boolean value become the latest ones.
pub fn count_packet(c: &mut PacketCounters, v: &TriggerVerdict, bool_value: bool)
    requires
        old(c).packets_sent < u32::MAX,
        old(c).packets_ok < u32::MAX,
        old(c).security_alerts < u32::MAX,
    ensures
        final(c).packets_sent == old(c).packets_sent + 1,
        final(c).packets_ok == old(c).packets_ok + if v.packet_ok && !v.replay_rejected { 1u32 } else { 0u32 },
        final(c).security_alerts == old(c).security_alerts + if v.replay_rejected { 1u32 } else { 0u32 },
        final(c).latency_ms == v.latency_ms,
        final(c).last_bool == bool_value,
{
    c.packets_sent = c.packets_sent + 1;
    if v.packet_ok && !v.replay_rejected {
        c.packets_ok = c.packets_ok + 1;
    }
    if v.replay_rejected {
        c.security_alerts = c.security_alerts + 1;
    }
    c.latency_ms = v.latency_ms;
    c.last_bool = bool_value;
}

/// The sequence number a trigger gets: one more than the last one handed out.
pub open spec fn next_seq(last: u32) -> u32 {
    (last + 1) as u32
}

/// The sequence number of the next trigger after `last`.
pub fn next_trigger_seq(last: u32) -> (seq: u32)
    requires
        last < u32::MAX,
    ensures
        seq == next_seq(last),
        seq == last + 1,
{
    last + 1
}

/// A judged trigger after the replay guard's own answer: a refusal makes it
/// a replay that is not ok, with the replay status.
pub open spec fn settled(v: TriggerVerdict, refused: bool) -> TriggerVerdict {
    if refused {
        TriggerVerdict { replay_rejected: true, packet_ok: false, status: "重放拒絕", ..v }
    } else {
        v
    }
}

/// The counters after the replay guard's own answer: a refusal raises one
/// more security alert.
pub open spec fn settled_counters(c: PacketCounters, refused: bool) -> PacketCounters {
    if refused {
        PacketCounters { security_alerts: (c.security_alerts + 1) as u32, ..c }
    } else {
        c
    }
}

/// A settled trigger after publishing was tried with outcome `published`.
pub open spec fn after_publish(v: TriggerVerdict, published: bool) -> TriggerVerdict {
    TriggerVerdict { zmq_published: v.zmq_published || (v.packet_ok && published), ..v }
}

/// Applies the replay guard's own answer to a judged trigger: a refusal
/// makes it a replay that is not ok, with the replay status, and raises one
/// more security alert. Returns whether the frame is to be published, which
/// it is exactly when the trigger is still ok.
pub fn settle_trigger(v: &mut TriggerVerdict, c: &mut PacketCounters, guard_refused: bool) -> (publish: bool)
    requires
        guard_refused ==> old(c).security_alerts < u32::MAX,
    ensures
        guard_refused ==> final(v).replay_rejected && !final(v).packet_ok && final(v).status@ == "重放拒絕"@,
        guard_refused ==> final(c).security_alerts == old(c).security_alerts + 1,
        !guard_refused ==> *final(v) == *old(v) && final(c).security_alerts == old(c).security_alerts,
        final(v).latency_ms == old(v).latency_ms,
        final(v).zmq_published == old(v).zmq_published,
        *final(c) == (PacketCounters { security_alerts: final(c).security_alerts, ..*old(c) }),
        publish == final(v).packet_ok,
        *final(v) == settled(*old(v), guard_refused),
        *final(c) == settled_counters(*old(c), guard_refused),
{
    if guard_refused {
        v.replay_rejected = true;
        v.packet_ok = false;
        v.status = "重放拒絕";
        c.security_alerts = c.security_alerts + 1;
    }
    v.packet_ok
}

/// Records the outcome of publishing a settled trigger: only an ok trigger
/// is published, so only then can it count as published.
pub fn record_publish(v: &mut TriggerVerdict, published: bool)
    ensures
        final(v).zmq_published == (old(v).zmq_published || (old(v).packet_ok && published)),
        *final(v) == (TriggerVerdict { zmq_published: final(v).zmq_published, ..*old(v) }),
        *final(v) == after_publish(*old(v), published),
{
    if v.packet_ok && published {
        v.zmq_published = true;
    }
}

/// `e` put in front of `s`, keeping at most the `cap` newest items.
pub open spec fn newest_first<T>(s: Seq<T>, e: T, cap: nat) -> Seq<T> {
    let t = seq![e] + s;
    if t.len() > cap {
        t.take(cap as int)
    } else {
        t
    }
}

/// Puts `e` in front of `events` and keeps at most the `cap` newest.
pub fn keep_newest<T>(events: &mut Vec<T>, e: T, cap: usize)
    ensures
        final(events)@ == newest_first(old(events)@, e, cap as nat),
{
    events.insert(0, e);
    if events.len() > cap {
        events.truncate(cap);
    }
    proof {
        let t = seq![e] + old(events)@;
        if t.len() > cap {
            assert(final(events)@ =~= t.take(cap as int));
        } else {
            assert(final(events)@ =~= t);
        }
    }
}

/// How many trigger events the simulator keeps.
pub const MAX_EVENTS: usize = 50;

/// One trigger of the simulator, over its steps: its sequence number is one
/// more than the last one handed out; a refusal by the replay guard makes it
/// a replay that is not ok, with the replay status, and raises one more
/// security alert, while without one the judged verdict and the counters
/// stand; it counts as published exactly when it is still ok and publishing
/// succeeded; and its event goes first in the event list, which keeps the 50
/// newest.
pub proof fn law_trigger<T>(
    last_seq: u32,
    judged: TriggerVerdict,
    c: PacketCounters,
    refused: bool,
    published: bool,
    events: Seq<T>,
    event: T,
)
    requires
        last_seq < u32::MAX,
        !judged.zmq_published,
    ensures
        ({
            let v = after_publish(settled(judged, refused), published);
            let c2 = settled_counters(c, refused);
            let e2 = newest_first(events, event, MAX_EVENTS as nat);
            &&& next_seq(last_seq) == last_seq + 1
            &&& v.zmq_published == (v.packet_ok && published)
            &&& refused ==> v.replay_rejected && !v.packet_ok && v.status@ == "重放拒絕"@
            &&& refused && c.security_alerts < u32::MAX ==> c2.security_alerts == c.security_alerts + 1
            &&& refused ==> c2 == (PacketCounters { security_alerts: c2.security_alerts, ..c })
            &&& !refused ==> v == (TriggerVerdict { zmq_published: v.zmq_published, ..judged }) && c2 == c
            &&& v.latency_ms == judged.latency_ms
            &&& e2.len() == (if events.len() + 1 < MAX_EVENTS { events.len() + 1 } else { MAX_EVENTS as nat })
            &&& e2[0] == event
            &&& forall|k: int| 1 <= k < e2.len() ==> #[trigger] e2[k] == events[k - 1]
        }),
{
    let e2 = newest_first(events, event, MAX_EVENTS as nat);
    let t = seq![event] + events;
    assert forall|k: int| 1 <= k < e2.len() implies #[trigger] e2[k] == events[k - 1] by {
        assert(e2[k] == t[k]);
    }
}

/// `HH:MM:SS.mmm` of a time of day.
pub open spec fn clock_text(secs: u64, millis: u32) -> Seq<char> {
    let day = secs % 86_400;
    dec_padded((day / 3600) as nat, 2) + ":"@ + dec_padded(((day % 3600) / 60) as nat, 2) + ":"@
        + dec_padded((day % 60) as nat, 2) + "."@ + dec_padded(millis as nat, 3)
}

/// The time of day of a UNIX time given as whole seconds and milliseconds,
/// as `HH:MM:SS.mmm`.
pub fn clock_string(secs: u64, millis: u32) -> (s: String)
    ensures
        s@ == clock_text(secs, millis),
{
    let day = secs % 86_400;
    let mut s = String::new();
    push_dec_padded(&mut s, (day / 3600) as u128, 2);
    s.append(":");
    push_dec_padded(&mut s, ((day % 3600) / 60) as u128, 2);
    s.append(":");
    push_dec_padded(&mut s, (day % 60) as u128, 2);
    s.append(".");
    push_dec_padded(&mut s, millis as u128, 3);
    proof {
        assert(s@ =~= clock_text(secs, millis));
    }
    s
}

} // verus!
