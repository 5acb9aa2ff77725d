//! Logic of the ESP32-S3 software-sim node: it turns text command lines from
//! the host into gateway-link requests, assembles those lines from the USB
//! byte stream, and formats what comes back over ESP-NOW as text lines.

use vstd::prelude::*;
use vstd::string::*;

use crate::frame::{DecodeError, Payload, TelemetryFrame};
use crate::gwlink::{GwMsg, GwMsgView, WifiMode};
use crate::text::{bool_text, chars_equal, chars_of, dec, push_bool, push_dec, string_of};

verus! {

/// Whether `c` is white space, as `char::is_whitespace` decides it.
pub open spec fn is_ws(c: char) -> bool {
    let u = c as u32;
    (9 <= u && u <= 13) || u == 32 || u == 0x85 || u == 0xA0 || u == 0x1680 || (0x2000 <= u && u <= 0x200A)
        || u == 0x2028 || u == 0x2029 || u == 0x202F || u == 0x205F || u == 0x3000
}

/// `s` without leading white space.
pub open spec fn trim_start(s: Seq<char>) -> Seq<char>
    decreases s.len(),
{
    if s.len() > 0 && is_ws(s[0]) {
        trim_start(s.drop_first())
    } else {
        s
    }
}

/// `s` without trailing white space.
pub open spec fn trim_end(s: Seq<char>) -> Seq<char>
    decreases s.len(),
{
    if s.len() > 0 && is_ws(s.last()) {
        trim_end(s.drop_last())
    } else {
        s
    }
}

/// `s` without leading and trailing white space, as `str::trim` gives it.
pub open spec fn trim(s: Seq<char>) -> Seq<char> {
    trim_end(trim_start(s))
}

/// Index of the first `c` in `s` at or after `from`, or `s.len()`.
pub open spec fn find_char(s: Seq<char>, c: char, from: int) -> int
    decreases s.len() - from,
{
    if from >= s.len() {
        s.len() as int
    } else if s[from] == c {
        from
    } else {
        find_char(s, c, from + 1)
    }
}

/// The pieces of `s[from..]` between occurrences of `c`, as `str::split`
/// gives them (always at least one piece).
pub open spec fn split_from(s: Seq<char>, c: char, from: int) -> Seq<Seq<char>>
    decreases s.len() - from,
{
    if from < 0 || from > s.len() {
        Seq::empty()
    } else {
        let k = find_char(s, c, from);
        if k >= s.len() || k < from {
            seq![s.subrange(from, s.len() as int)]
        } else {
            seq![s.subrange(from, k)] + split_from(s, c, k + 1)
        }
    }
}

/// The comma separated fields of `s`.
pub open spec fn comma_fields(s: Seq<char>) -> Seq<Seq<char>> {
    split_from(s, ',', 0)
}

/// Field `i`, or the empty text when there are fewer fields.
pub open spec fn field_or_empty(fs: Seq<Seq<char>>, i: int) -> Seq<char> {
    if 0 <= i < fs.len() {
        fs[i]
    } else {
        Seq::empty()
    }
}

/// What a command line from the host asks the node to do.
#[derive(Debug)]
pub enum NodeCommand {
    /// Send this request to the gateway.
    Gw(GwMsg),
    /// Send a telemetry frame with this boolean and report `SIMSENT ok`.
    SimSend(bool),
    /// Not a command: answer with this error line.
    Reject(String),
}

/// A node command, as text.
pub enum NodeCommandView {
    Gw(GwMsgView),
    SimSend(bool),
    Reject(Seq<char>),
}

impl View for NodeCommand {
    type V = NodeCommandView;

    open spec fn view(&self) -> NodeCommandView {
        match *self {
            NodeCommand::Gw(m) => NodeCommandView::Gw(m@),
            NodeCommand::SimSend(b) => NodeCommandView::SimSend(b),
            NodeCommand::Reject(s) => NodeCommandView::Reject(s@),
        }
    }
}

/// The meaning of a command line: `GW,<op>[,args]` relays a gateway
/// request, `SIM,SEND,<0|1|true>` sends telemetry, anything else is refused
/// with `ERR unknown command: <line>`.
pub open spec fn node_command(line: Seq<char>) -> NodeCommandView {
    let t = trim(line);
    let fs = comma_fields(t);
    let f2 = field_or_empty(fs, 2);
    let f3 = field_or_empty(fs, 3);
    if fs.len() >= 2 && fs[0] == "GW"@ && fs[1] == "HEALTH"@ {
        NodeCommandView::Gw(GwMsgView::HealthReq)
    } else if fs.len() >= 2 && fs[0] == "GW"@ && fs[1] == "TOGGLE"@ {
        NodeCommandView::Gw(GwMsgView::ToggleReq)
    } else if fs.len() >= 2 && fs[0] == "GW"@ && fs[1] == "DEAUTH"@ {
        NodeCommandView::Gw(GwMsgView::DeauthReq)
    } else if fs.len() >= 2 && fs[0] == "GW"@ && fs[1] == "STALIST"@ {
        NodeCommandView::Gw(GwMsgView::StaListReq)
    } else if fs.len() >= 2 && fs[0] == "GW"@ && fs[1] == "SNMP_SET"@ {
        NodeCommandView::Gw(GwMsgView::SnmpSetReq { oid: f2, value: f3 })
    } else if fs.len() >= 2 && fs[0] == "GW"@ && fs[1] == "SNMP_GET"@ {
        NodeCommandView::Gw(GwMsgView::SnmpGetReq { oid: f2 })
    } else if fs.len() >= 2 && fs[0] == "GW"@ && fs[1] == "ENROLL"@ {
        NodeCommandView::Gw(GwMsgView::EnrollReq { device_id: f2, mac: f3 })
    } else if fs.len() >= 2 && fs[0] == "GW"@ && fs[1] == "CLAIM"@ {
        NodeCommandView::Gw(GwMsgView::ClaimReq { device_id: f2 })
    } else if fs.len() >= 2 && fs[0] == "GW"@ && fs[1] == "ROTATE"@ {
        NodeCommandView::Gw(GwMsgView::RotateReq { device_id: f2 })
    } else if fs.len() >= 2 && fs[0] == "GW"@ && fs[1] == "REVOKE"@ {
        NodeCommandView::Gw(GwMsgView::RevokeReq { device_id: f2 })
    } else if fs.len() >= 2 && fs[0] == "SIM"@ && fs[1] == "SEND"@ {
        NodeCommandView::SimSend(fs.len() >= 3 && (fs[2] == "1"@ || fs[2] == "true"@))
    } else {
        NodeCommandView::Reject("ERR unknown command: "@ + t)
    }
}

/// Whether `c` is white space.
pub fn is_ws_char(c: char) -> (r: bool)
    ensures
        r == is_ws(c),
{
    let u = c as u32;
    (9 <= u && u <= 13) || u == 32 || u == 0x85 || u == 0xA0 || u == 0x1680 || (0x2000 <= u && u <= 0x200A)
        || u == 0x2028 || u == 0x2029 || u == 0x202F || u == 0x205F || u == 0x3000
}

proof fn lemma_trim_start_skip(s: Seq<char>, i: int)
    requires
        0 <= i <= s.len(),
        forall|k: int| 0 <= k < i ==> is_ws(#[trigger] s[k]),
    ensures
        trim_start(s) == trim_start(s.skip(i)),
    decreases i,
{
    if i > 0 {
        assert(s.skip(1).skip(i - 1) =~= s.skip(i));
        assert forall|k: int| 0 <= k < i - 1 implies is_ws(#[trigger] s.skip(1)[k]) by {
            assert(s.skip(1)[k] == s[k + 1]);
        }
        lemma_trim_start_skip(s.skip(1), i - 1);
        assert(s.drop_first() =~= s.skip(1));
    } else {
        assert(s.skip(0) =~= s);
    }
}

proof fn lemma_trim_end_take(s: Seq<char>, j: int)
    requires
        0 <= j <= s.len(),
        forall|k: int| j <= k < s.len() ==> is_ws(#[trigger] s[k]),
    ensures
        trim_end(s) == trim_end(s.take(j)),
    decreases s.len() - j,
{
    if j < s.len() {
        assert(s.drop_last().take(j) =~= s.take(j));
        assert forall|k: int| j <= k < s.drop_last().len() implies is_ws(#[trigger] s.drop_last()[k]) by {
            assert(s.drop_last()[k] == s[k]);
        }
        lemma_trim_end_take(s.drop_last(), j);
    } else {
        assert(s.take(j) =~= s);
    }
}

/// The characters of `line` without leading and trailing white space.
pub fn trim_chars(line: &str) -> (r: Vec<char>)
    ensures
        r@ == trim(line@),
{
    let cs = chars_of(line);
    let n = cs.len();
    let mut i: usize = 0;
    while i < n && is_ws_char(cs[i])
        invariant
            n == cs@.len(),
            cs@ == line@,
            i <= n,
            forall|k: int| 0 <= k < i ==> is_ws(#[trigger] cs@[k]),
        decreases n - i,
    {
        i += 1;
    }
    proof {
        lemma_trim_start_skip(cs@, i as int);
        if i < n {
            assert(cs@.skip(i as int)[0] == cs@[i as int]);
        }
    }
    let ghost ts = cs@.skip(i as int);
    let mut j: usize = n;
    while j > i && is_ws_char(cs[j - 1])
        invariant
            n == cs@.len(),
            i <= j <= n,
            ts == cs@.skip(i as int),
            forall|k: int| j - i <= k < ts.len() ==> is_ws(#[trigger] ts[k]),
        decreases j,
    {
        j -= 1;
    }
    proof {
        lemma_trim_end_take(ts, j - i);
        if j > i {
            assert(ts.take(j - i).last() == cs@[j - 1]);
        }
    }
    let mut r: Vec<char> = Vec::new();
    let mut k: usize = i;
    while k < j
        invariant
            i <= k <= j <= n,
            n == cs@.len(),
            r@ =~= cs@.subrange(i as int, k as int),
        decreases j - k,
    {
        r.push(cs[k]);
        k += 1;
    }
    proof {
        assert(r@ =~= ts.take(j - i));
        assert(trim_start(cs@) == ts);
        if j > i {
            assert(!is_ws(ts.take(j - i).last()));
        } else {
            assert(ts.take(j - i) =~= Seq::<char>::empty());
        }
        assert(trim_end(ts.take(j - i)) == ts.take(j - i));
    }
    r
}

proof fn lemma_find_char_bounds(s: Seq<char>, c: char, from: int)
    requires
        0 <= from <= s.len(),
    ensures
        from <= find_char(s, c, from) <= s.len(),
        find_char(s, c, from) < s.len() ==> s[find_char(s, c, from)] == c,
        forall|k: int| from <= k < find_char(s, c, from) ==> s[k] != c,
    decreases s.len() - from,
{
    if from < s.len() && s[from] != c {
        lemma_find_char_bounds(s, c, from + 1);
    }
}

proof fn lemma_find_char_at(s: Seq<char>, c: char, from: int, k: int)
    requires
        0 <= from <= k <= s.len(),
        k < s.len() ==> s[k] == c,
        forall|m: int| from <= m < k ==> s[m] != c,
    ensures
        find_char(s, c, from) == k,
    decreases k - from,
{
    if from < k {
        lemma_find_char_at(s, c, from + 1, k);
    }
}

/// The comma separated fields of a character sequence.
pub fn split_commas(s: &Vec<char>) -> (fs: Vec<Vec<char>>)
    ensures
        fs@.map_values(|f: Vec<char>| f@) == comma_fields(s@),
{
    let n = s.len();
    let mut fs: Vec<Vec<char>> = Vec::new();
    let mut cur: Vec<char> = Vec::new();
    let mut start: usize = 0;
    let mut i: usize = 0;
    while i < n
        invariant
            n == s@.len(),
            start <= i <= n,
            cur@ =~= s@.subrange(start as int, i as int),
            forall|m: int| start <= m < i ==> s@[m] != ',',
            fs@.map_values(|f: Vec<char>| f@) + split_from(s@, ',', start as int) == comma_fields(s@),
        decreases n - i,
    {
        if s[i] == ',' {
            proof {
                lemma_find_char_at(s@, ',', start as int, i as int);
                let before = fs@.map_values(|f: Vec<char>| f@);
                assert(split_from(s@, ',', start as int) == seq![s@.subrange(start as int, i as int)] + split_from(s@, ',', i + 1));
            }
            let ghost before = fs@.map_values(|f: Vec<char>| f@);
            fs.push(cur);
            proof {
                assert(fs@.map_values(|f: Vec<char>| f@) =~= before.push(s@.subrange(start as int, i as int)));
                assert(before.push(s@.subrange(start as int, i as int)) + split_from(s@, ',', i + 1)
                    =~= before + (seq![s@.subrange(start as int, i as int)] + split_from(s@, ',', i + 1)));
            }
            cur = Vec::new();
            start = i + 1;
        } else {
            cur.push(s[i]);
        }
        i += 1;
    }
    proof {
        lemma_find_char_at(s@, ',', start as int, n as int);
        let before = fs@.map_values(|f: Vec<char>| f@);
        assert(split_from(s@, ',', start as int) == seq![s@.subrange(start as int, n as int)]);
    }
    let ghost before = fs@.map_values(|f: Vec<char>| f@);
    fs.push(cur);
    proof {
        assert(fs@.map_values(|f: Vec<char>| f@) =~= before.push(s@.subrange(start as int, n as int)));
        assert(before + seq![s@.subrange(start as int, n as int)] =~= before.push(s@.subrange(start as int, n as int)));
    }
    fs
}

fn field_is(fs: &Vec<Vec<char>>, i: usize, lit: &str) -> (r: bool)
    ensures
        r == (i < fs@.len() && fs@[i as int]@ == lit@),
{
    if i >= fs.len() {
        return false;
    }
    let l = chars_of(lit);
    chars_equal(&fs[i], &l)
}

fn field_string(fs: &Vec<Vec<char>>, i: usize) -> (r: String)
    ensures
        r@ == field_or_empty(fs@.map_values(|f: Vec<char>| f@), i as int),
{
    if i < fs.len() {
        string_of(&fs[i])
    } else {
        String::new()
    }
}

/// Turns one command line from the host into what the node does.
pub fn parse_node_command(line: &str) -> (c: NodeCommand)
    ensures
        c@ == node_command(line@),
{
    let t = trim_chars(line);
    let fs = split_commas(&t);
    let ghost fv = fs@.map_values(|f: Vec<char>| f@);
    proof {
        assert(fv == comma_fields(trim(line@)));
        assert(forall|k: int| 0 <= k < fs@.len() ==> fv[k] == (#[trigger] fs@[k])@);
    }
    let gw = field_is(&fs, 0, "GW");
    let sim = field_is(&fs, 0, "SIM");
    if gw && field_is(&fs, 1, "HEALTH") {
        NodeCommand::Gw(GwMsg::HealthReq)
    } else if gw && field_is(&fs, 1, "TOGGLE") {
        NodeCommand::Gw(GwMsg::ToggleReq)
    } else if gw && field_is(&fs, 1, "DEAUTH") {
        NodeCommand::Gw(GwMsg::DeauthReq)
    } else if gw && field_is(&fs, 1, "STALIST") {
        NodeCommand::Gw(GwMsg::StaListReq)
    } else if gw && field_is(&fs, 1, "SNMP_SET") {
        NodeCommand::Gw(GwMsg::SnmpSetReq { oid: field_string(&fs, 2), value: field_string(&fs, 3) })
    } else if gw && field_is(&fs, 1, "SNMP_GET") {
        NodeCommand::Gw(GwMsg::SnmpGetReq { oid: field_string(&fs, 2) })
    } else if gw && field_is(&fs, 1, "ENROLL") {
        NodeCommand::Gw(GwMsg::EnrollReq { device_id: field_string(&fs, 2), mac: field_string(&fs, 3) })
    } else if gw && field_is(&fs, 1, "CLAIM") {
        NodeCommand::Gw(GwMsg::ClaimReq { device_id: field_string(&fs, 2) })
    } else if gw && field_is(&fs, 1, "ROTATE") {
        NodeCommand::Gw(GwMsg::RotateReq { device_id: field_string(&fs, 2) })
    } else if gw && field_is(&fs, 1, "REVOKE") {
        NodeCommand::Gw(GwMsg::RevokeReq { device_id: field_string(&fs, 2) })
    } else if sim && field_is(&fs, 1, "SEND") {
        let v = field_is(&fs, 2, "1") || field_is(&fs, 2, "true");
        NodeCommand::SimSend(v)
    } else {
        let mut msg = String::from_str("ERR unknown command: ");
        let ts = string_of(&t);
        msg.append(ts.as_str());
        NodeCommand::Reject(msg)
    }
}

/// What the node does for `SIM,SEND,<value>` when `seq` is the sequence
/// number of the last frame it sent: the telemetry frame it sends to the
/// gateway (the next sequence number, node 1, no timestamp, the boolean as
/// payload) and the line it writes back to the host.
pub fn sim_send_step(seq: u32, value: bool) -> (r: (TelemetryFrame, String))
    requires
        seq < u32::MAX,
    ensures
        r.0 == (TelemetryFrame { seq: (seq + 1) as u32, timestamp_ms: 0, node_id: 1, payload: Payload::BoolCmd(value) }),
        r.1@ == "SIMSENT ok"@,
{
    let frame = TelemetryFrame { seq: seq + 1, timestamp_ms: 0, node_id: 1, payload: Payload::BoolCmd(value) };
    (frame, String::from_str("SIMSENT ok"))
}

/// `{:?}` text of a payload.
pub open spec fn payload_debug(p: Payload) -> Seq<char> {
    match p {
        Payload::BoolCmd(b) => "BoolCmd("@ + bool_text(b) + ")"@,
        Payload::ByteCmd(v) => "ByteCmd("@ + dec(v as nat) + ")"@,
    }
}

/// `{:?}` text of a gateway-link Wi-Fi mode.
pub open spec fn wifi_mode_debug(m: WifiMode) -> Seq<char> {
    match m {
        WifiMode::Sta => "Sta"@,
        WifiMode::ApSta => "ApSta"@,
    }
}

/// The host line for a received telemetry frame.
pub open spec fn sim_recv_line(f: TelemetryFrame) -> Seq<char> {
    "SIMRECV node="@ + dec(f.node_id as nat) + " seq="@ + dec(f.seq as nat) + " payload="@ + payload_debug(f.payload)
}

/// The host line for a gateway reply, when it is one of the replies the node
/// expects.
pub open spec fn reply_line(m: GwMsgView) -> Option<Seq<char>> {
    match m {
        GwMsgView::HealthResp { free_heap, uptime_ms, rx_count, wifi_mode } => Some(
            "GWRESP HEALTH free_heap="@ + dec(free_heap as nat) + " uptime_ms="@ + dec(uptime_ms as nat)
                + " rx_count="@ + dec(rx_count as nat) + " wifi_mode="@ + wifi_mode_debug(wifi_mode),
        ),
        GwMsgView::ToggleResp { downstream_online, wifi_mode } => Some(
            "GWRESP TOGGLE downstream_online="@ + bool_text(downstream_online) + " wifi_mode="@
                + wifi_mode_debug(wifi_mode),
        ),
        GwMsgView::DeauthResp { kicked } => Some("GWRESP DEAUTH kicked="@ + dec(kicked as nat)),
        GwMsgView::StaListResp { count } => Some("GWRESP STALIST count="@ + dec(count as nat)),
        GwMsgView::SnmpResp { oid, value, ok } => Some(
            "GWRESP SNMP oid="@ + oid + " value="@ + match value {
                Some(v) => v,
                None => "<none>"@,
            } + " ok="@ + bool_text(ok),
        ),
        GwMsgView::ProvisionResp { device_id, state, fingerprint, version, ok } => Some(
            "GWRESP PROVISION device_id="@ + device_id + " state="@ + state + " fingerprint="@ + (if fingerprint.len()
                == 0 {
                "<none>"@
            } else {
                fingerprint
            }) + " version="@ + dec(version as nat) + " ok="@ + bool_text(ok),
        ),
        _ => None,
    }
}

/// The `{:?}` text of a string slice as std's `Debug` for `str` writes it:
/// the characters between double quotes, with those that std escapes
/// escaped.
pub uninterp spec fn str_debug(s: Seq<char>) -> Seq<char>;

/// `format!("{:?}", s)` on a string slice, which goes through std's
/// `Debug` for `str`. Trusted: the text is `str_debug` of the characters
/// of `s`. Which characters std escapes, and how, is not written out here:
/// that takes std's Unicode tables.
#[verifier::external_body]
fn str_debug_text(s: &str) -> (r: String)
    ensures
        r@ == str_debug(s@),
{
    format!("{:?}", s)
}

/// `{:?}` text of an optional string.
pub open spec fn opt_str_debug(v: Option<Seq<char>>) -> Seq<char> {
    match v {
        Some(t) => "Some("@ + str_debug(t) + ")"@,
        None => "None"@,
    }
}

/// `{:?}` text of a gateway-link message, as its derived `Debug` writes it:
/// the variant's name, then its fields in declaration order inside braces.
pub open spec fn gw_msg_debug(m: GwMsgView) -> Seq<char> {
    match m {
        GwMsgView::HealthReq => "HealthReq"@,
        GwMsgView::HealthResp { free_heap, uptime_ms, rx_count, wifi_mode } => "HealthResp { free_heap: "@ + dec(
            free_heap as nat,
        ) + ", uptime_ms: "@ + dec(uptime_ms as nat) + ", rx_count: "@ + dec(rx_count as nat) + ", wifi_mode: "@
            + wifi_mode_debug(wifi_mode) + " }"@,
        GwMsgView::ToggleReq => "ToggleReq"@,
        GwMsgView::ToggleResp { downstream_online, wifi_mode } => "ToggleResp { downstream_online: "@ + bool_text(
            downstream_online,
        ) + ", wifi_mode: "@ + wifi_mode_debug(wifi_mode) + " }"@,
        GwMsgView::DeauthReq => "DeauthReq"@,
        GwMsgView::DeauthResp { kicked } => "DeauthResp { kicked: "@ + dec(kicked as nat) + " }"@,
        GwMsgView::StaListReq => "StaListReq"@,
        GwMsgView::StaListResp { count } => "StaListResp { count: "@ + dec(count as nat) + " }"@,
        GwMsgView::SnmpSetReq { oid, value } => "SnmpSetReq { oid: "@ + str_debug(oid) + ", value: "@ + str_debug(value)
            + " }"@,
        GwMsgView::SnmpGetReq { oid } => "SnmpGetReq { oid: "@ + str_debug(oid) + " }"@,
        GwMsgView::SnmpResp { oid, value, ok } => "SnmpResp { oid: "@ + str_debug(oid) + ", value: "@ + opt_str_debug(
            value,
        ) + ", ok: "@ + bool_text(ok) + " }"@,
        GwMsgView::EnrollReq { device_id, mac } => "EnrollReq { device_id: "@ + str_debug(device_id) + ", mac: "@
            + str_debug(mac) + " }"@,
        GwMsgView::ClaimReq { device_id } => "ClaimReq { device_id: "@ + str_debug(device_id) + " }"@,
        GwMsgView::RotateReq { device_id } => "RotateReq { device_id: "@ + str_debug(device_id) + " }"@,
        GwMsgView::RevokeReq { device_id } => "RevokeReq { device_id: "@ + str_debug(device_id) + " }"@,
        GwMsgView::ProvisionResp { device_id, state, fingerprint, version, ok } => "ProvisionResp { device_id: "@
            + str_debug(device_id) + ", state: "@ + str_debug(state) + ", fingerprint: "@ + str_debug(fingerprint)
            + ", version: "@ + dec(version as nat) + ", ok: "@ + bool_text(ok) + " }"@,
    }
}

fn push_str_debug(s: &mut String, t: &String)
    ensures
        final(s)@ == old(s)@ + str_debug(t@),
{
    let d = str_debug_text(t.as_str());
    s.append(d.as_str());
}

fn push_opt_str_debug(s: &mut String, v: &Option<String>)
    ensures
        final(s)@ == old(s)@ + opt_str_debug(
            match v {
                Some(t) => Some(t@),
                None => None,
            },
        ),
{
    match v {
        Some(t) => {
            s.append("Some(");
            push_str_debug(s, t);
            s.append(")");
        },
        None => s.append("None"),
    }
}

/// Appends the `{:?}` text of a gateway-link message.
fn push_gw_msg_debug(s: &mut String, m: &GwMsg)
    ensures
        final(s)@ == old(s)@ + gw_msg_debug(m@),
{
    match m {
        GwMsg::HealthReq => s.append("HealthReq"),
        GwMsg::HealthResp { free_heap, uptime_ms, rx_count, wifi_mode } => {
            s.append("HealthResp { free_heap: ");
            push_dec(s, *free_heap as u128);
            s.append(", uptime_ms: ");
            push_dec(s, *uptime_ms as u128);
            s.append(", rx_count: ");
            push_dec(s, *rx_count as u128);
            s.append(", wifi_mode: ");
            push_wifi_mode(s, *wifi_mode);
            s.append(" }");
        },
        GwMsg::ToggleReq => s.append("ToggleReq"),
        GwMsg::ToggleResp { downstream_online, wifi_mode } => {
            s.append("ToggleResp { downstream_online: ");
            push_bool(s, *downstream_online);
            s.append(", wifi_mode: ");
            push_wifi_mode(s, *wifi_mode);
            s.append(" }");
        },
        GwMsg::DeauthReq => s.append("DeauthReq"),
        GwMsg::DeauthResp { kicked } => {
            s.append("DeauthResp { kicked: ");
            push_dec(s, *kicked as u128);
            s.append(" }");
        },
        GwMsg::StaListReq => s.append("StaListReq"),
        GwMsg::StaListResp { count } => {
            s.append("StaListResp { count: ");
            push_dec(s, *count as u128);
            s.append(" }");
        },
        GwMsg::SnmpSetReq { oid, value } => {
            s.append("SnmpSetReq { oid: ");
            push_str_debug(s, oid);
            s.append(", value: ");
            push_str_debug(s, value);
            s.append(" }");
        },
        GwMsg::SnmpGetReq { oid } => {
            s.append("SnmpGetReq { oid: ");
            push_str_debug(s, oid);
            s.append(" }");
        },
        GwMsg::SnmpResp { oid, value, ok } => {
            s.append("SnmpResp { oid: ");
            push_str_debug(s, oid);
            s.append(", value: ");
            push_opt_str_debug(s, value);
            s.append(", ok: ");
            push_bool(s, *ok);
            s.append(" }");
        },
        GwMsg::EnrollReq { device_id, mac } => {
            s.append("EnrollReq { device_id: ");
            push_str_debug(s, device_id);
            s.append(", mac: ");
            push_str_debug(s, mac);
            s.append(" }");
        },
        GwMsg::ClaimReq { device_id } => {
            s.append("ClaimReq { device_id: ");
            push_str_debug(s, device_id);
            s.append(" }");
        },
        GwMsg::RotateReq { device_id } => {
            s.append("RotateReq { device_id: ");
            push_str_debug(s, device_id);
            s.append(" }");
        },
        GwMsg::RevokeReq { device_id } => {
            s.append("RevokeReq { device_id: ");
            push_str_debug(s, device_id);
            s.append(" }");
        },
        GwMsg::ProvisionResp { device_id, state, fingerprint, version, ok } => {
            s.append("ProvisionResp { device_id: ");
            push_str_debug(s, device_id);
            s.append(", state: ");
            push_str_debug(s, state);
            s.append(", fingerprint: ");
            push_str_debug(s, fingerprint);
            s.append(", version: ");
            push_dec(s, *version as u128);
            s.append(", ok: ");
            push_bool(s, *ok);
            s.append(" }");
        },
    }
}

fn push_payload_debug(s: &mut String, p: Payload)
    ensures
        final(s)@ == old(s)@ + payload_debug(p),
{
    match p {
        Payload::BoolCmd(b) => {
            s.append("BoolCmd(");
            push_bool(s, b);
            s.append(")");
        },
        Payload::ByteCmd(v) => {
            s.append("ByteCmd(");
            push_dec(s, v as u128);
            s.append(")");
        },
    }
}

fn push_wifi_mode(s: &mut String, m: WifiMode)
    ensures
        final(s)@ == old(s)@ + wifi_mode_debug(m),
{
    match m {
        WifiMode::Sta => s.append("Sta"),
        WifiMode::ApSta => s.append("ApSta"),
    }
}

/// Formats what arrived over ESP-NOW as a host line. `telemetry` is the
/// packet read as a telemetry frame (if it is one), `gw` the packet read as
/// a gateway-link message. A telemetry frame gives a `SIMRECV` line, an
/// expected gateway reply a `GWRESP` line, another gateway message a
/// `GWRESP other=` line with its `{:?}` text, and an undecodable packet an
/// `ERR undecodable inbound:` line with the error.
pub fn format_inbound(telemetry: Option<TelemetryFrame>, gw: Result<GwMsg, DecodeError>) -> (line: String)
    ensures
        match telemetry {
            Some(f) => line@ == sim_recv_line(f),
            None => match gw {
                Ok(m) => match reply_line(m@) {
                    Some(l) => line@ == l,
                    None => line@ == "GWRESP other="@ + gw_msg_debug(m@),
                },
                Err(e) => line@ == "ERR undecodable inbound: "@ + e.spec_message(),
            },
        },
{
    if let Some(f) = telemetry {
        let mut s = String::from_str("SIMRECV node=");
        push_dec(&mut s, f.node_id as u128);
        s.append(" seq=");
        push_dec(&mut s, f.seq as u128);
        s.append(" payload=");
        push_payload_debug(&mut s, f.payload);
        return s;
    }
    match gw {
        Ok(GwMsg::HealthResp { free_heap, uptime_ms, rx_count, wifi_mode }) => {
            let mut s = String::from_str("GWRESP HEALTH free_heap=");
            push_dec(&mut s, free_heap as u128);
            s.append(" uptime_ms=");
            push_dec(&mut s, uptime_ms as u128);
            s.append(" rx_count=");
            push_dec(&mut s, rx_count as u128);
            s.append(" wifi_mode=");
            push_wifi_mode(&mut s, wifi_mode);
            proof {
                let m = GwMsgView::HealthResp { free_heap, uptime_ms, rx_count, wifi_mode };
                assert(reply_line(m) == Some(s@));
            }
            s
        },
        Ok(GwMsg::ToggleResp { downstream_online, wifi_mode }) => {
            let mut s = String::from_str("GWRESP TOGGLE downstream_online=");
            push_bool(&mut s, downstream_online);
            s.append(" wifi_mode=");
            push_wifi_mode(&mut s, wifi_mode);
            s
        },
        Ok(GwMsg::DeauthResp { kicked }) => {
            let mut s = String::from_str("GWRESP DEAUTH kicked=");
            push_dec(&mut s, kicked as u128);
            s
        },
        Ok(GwMsg::StaListResp { count }) => {
            let mut s = String::from_str("GWRESP STALIST count=");
            push_dec(&mut s, count as u128);
            s
        },
        Ok(GwMsg::SnmpResp { oid, value, ok }) => {
            let mut s = String::from_str("GWRESP SNMP oid=");
            s.append(oid.as_str());
            s.append(" value=");
            match value {
                Some(v) => s.append(v.as_str()),
                None => s.append("<none>"),
            }
            s.append(" ok=");
            push_bool(&mut s, ok);
            s
        },
        Ok(GwMsg::ProvisionResp { device_id, state, fingerprint, version, ok }) => {
            let mut s = String::from_str("GWRESP PROVISION device_id=");
            s.append(device_id.as_str());
            s.append(" state=");
            s.append(state.as_str());
            s.append(" fingerprint=");
            if fingerprint.as_str().is_empty() {
                s.append("<none>");
            } else {
                s.append(fingerprint.as_str());
            }
            s.append(" version=");
            push_dec(&mut s, version as u128);
            s.append(" ok=");
            push_bool(&mut s, ok);
            s
        },
        Ok(other) => {
            let mut s = String::from_str("GWRESP other=");
            push_gw_msg_debug(&mut s, &other);
            s
        },
        Err(e) => {
            let mut s = String::from_str("ERR undecodable inbound: ");
            s.append(e.message());
            s
        },
    }
}

} // verus!
