//! Gateway backend logic for the HIL simulator in hardware mode: dashboard
//! commands become serial command lines for the S3 node, and the text lines
//! the boards print are folded into the dashboard's gateway snapshot.

use vstd::prelude::*;
use vstd::string::*;

use crate::gateway::{
    command_name, opt_text, DeviceIdentity, DeviceView, GatewayCommand, GatewayResponse, GatewaySnapshot, OidEntry,
    ProvisioningState, ResponseView, SnapshotView, SnmpResponse, SnmpView, WifiMode, HEAP_TOTAL_BYTES, MAX_LOG, SIM_SNMP_PROTOCOL,
};
use crate::gateway_sim::copy_string;
use crate::sim_node::{is_ws, trim, trim_chars};
use crate::text::{chars_equal, chars_of, lemma_seq_lt_transitive, seq_lt, starts_with, str_equal, str_lt, string_of};

verus! {

/// Which backend serves the dashboard's gateway page.
#[derive(Debug, Clone, Copy, PartialEq, Eq, Structural)]
pub enum GatewayMode {
    Hardware,
    Simulation,
}

/// Backend status shown on the dashboard.
#[derive(Debug, Clone)]
pub struct GatewayStatus {
    pub mode: GatewayMode,
    pub connected: bool,
    pub port: Option<String>,
}

/// The snapshot shown before the boards have reported anything.
pub open spec fn default_hw_snapshot_view() -> SnapshotView {
    SnapshotView {
        wifi_mode: WifiMode::ApSta,
        downstream_online: true,
        free_heap_bytes: 0,
        heap_total_bytes: HEAP_TOTAL_BYTES,
        station_count: 0,
        command_count: 0,
        oids: Seq::empty(),
        nodes: Seq::empty(),
        devices: Seq::empty(),
        command_log: Seq::empty(),
    }
}

/// The snapshot shown before the boards have reported anything.
pub fn default_hw_snapshot() -> (s: GatewaySnapshot)
    ensures
        s@ == default_hw_snapshot_view(),
{
    let s = GatewaySnapshot {
        wifi_mode: WifiMode::ApSta,
        downstream_online: true,
        free_heap_bytes: 0,
        heap_total_bytes: HEAP_TOTAL_BYTES,
        station_count: 0,
        command_count: 0,
        oids: Vec::new(),
        nodes: Vec::new(),
        devices: Vec::new(),
        command_log: Vec::new(),
    };
    proof {
        assert(s@.oids =~= Seq::<(Seq<char>, Seq<char>)>::empty());
        assert(s@.nodes =~= Seq::<crate::gateway::NodeView>::empty());
        assert(s@.devices =~= Seq::<DeviceView>::empty());
        assert(s@.command_log =~= Seq::<Seq<char>>::empty());
    }
    s
}

/// The serial command line for a dashboard command; `RegisterNode` has no
/// hardware equivalent. Deauthentication on hardware kicks all stations.
pub open spec fn command_line_text(cmd: GatewayCommand) -> Option<Seq<char>> {
    match cmd {
        GatewayCommand::NetToggleDownstream => Some("GW,TOGGLE"@),
        GatewayCommand::SnmpSet { oid, value } => Some("GW,SNMP_SET,"@ + oid@ + ","@ + value@),
        GatewayCommand::SnmpGet { oid } => Some("GW,SNMP_GET,"@ + oid@),
        GatewayCommand::DeauthSta { .. } => Some("GW,DEAUTH"@),
        GatewayCommand::SysHealth => Some("GW,HEALTH"@),
        GatewayCommand::StaList => Some("GW,STALIST"@),
        GatewayCommand::EnrollDevice { device_id, mac } => Some("GW,ENROLL,"@ + device_id@ + ","@ + mac@),
        GatewayCommand::ClaimDevice { device_id } => Some("GW,CLAIM,"@ + device_id@),
        GatewayCommand::RotateCredential { device_id } => Some("GW,ROTATE,"@ + device_id@),
        GatewayCommand::RevokeDevice { device_id } => Some("GW,REVOKE,"@ + device_id@),
        GatewayCommand::RegisterNode { .. } => None,
    }
}

/// Maps a dashboard command to the S3 node's serial command line.
pub fn command_to_line(command: &GatewayCommand) -> (r: Option<String>)
    ensures
        opt_text(r) == command_line_text(*command),
{
    match command {
        GatewayCommand::NetToggleDownstream => Some(String::from_str("GW,TOGGLE")),
        GatewayCommand::SnmpSet { oid, value } => {
            let mut s = String::from_str("GW,SNMP_SET,");
            s.append(oid.as_str());
            s.append(",");
            s.append(value.as_str());
            Some(s)
        },
        GatewayCommand::SnmpGet { oid } => {
            let mut s = String::from_str("GW,SNMP_GET,");
            s.append(oid.as_str());
            Some(s)
        },
        GatewayCommand::DeauthSta { .. } => Some(String::from_str("GW,DEAUTH")),
        GatewayCommand::SysHealth => Some(String::from_str("GW,HEALTH")),
        GatewayCommand::StaList => Some(String::from_str("GW,STALIST")),
        GatewayCommand::EnrollDevice { device_id, mac } => {
            let mut s = String::from_str("GW,ENROLL,");
            s.append(device_id.as_str());
            s.append(",");
            s.append(mac.as_str());
            Some(s)
        },
        GatewayCommand::ClaimDevice { device_id } => {
            let mut s = String::from_str("GW,CLAIM,");
            s.append(device_id.as_str());
            Some(s)
        },
        GatewayCommand::RotateCredential { device_id } => {
            let mut s = String::from_str("GW,ROTATE,");
            s.append(device_id.as_str());
            Some(s)
        },
        GatewayCommand::RevokeDevice { device_id } => {
            let mut s = String::from_str("GW,REVOKE,");
            s.append(device_id.as_str());
            Some(s)
        },
        GatewayCommand::RegisterNode { .. } => None,
    }
}

/// Index of the first MIB entry with `oid`, or -1.
pub open spec fn entry_index(oids: Seq<(Seq<char>, Seq<char>)>, oid: Seq<char>) -> int
    decreases oids.len(),
{
    if oids.len() == 0 {
        -1
    } else {
        let r = entry_index(oids.drop_last(), oid);
        if r >= 0 {
            r
        } else if oids.last().0 == oid {
            oids.len() - 1
        } else {
            -1
        }
    }
}

proof fn lemma_entry_index_bounds(oids: Seq<(Seq<char>, Seq<char>)>, oid: Seq<char>)
    ensures
        -1 <= entry_index(oids, oid) < oids.len(),
        entry_index(oids, oid) >= 0 ==> oids[entry_index(oids, oid)].0 == oid,
    decreases oids.len(),
{
    if oids.len() > 0 {
        lemma_entry_index_bounds(oids.drop_last(), oid);
    }
}

proof fn lemma_entry_index_prefix(oids: Seq<(Seq<char>, Seq<char>)>, oid: Seq<char>, j: int)
    requires
        0 <= j <= oids.len(),
        entry_index(oids.subrange(0, j), oid) >= 0,
    ensures
        entry_index(oids, oid) == entry_index(oids.subrange(0, j), oid),
    decreases oids.len() - j,
{
    if j < oids.len() {
        assert(oids.subrange(0, j + 1).drop_last() =~= oids.subrange(0, j));
        lemma_entry_index_prefix(oids, oid, j + 1);
    } else {
        assert(oids.subrange(0, j) =~= oids);
    }
}

fn find_entry(oids: &Vec<OidEntry>, oid: &str) -> (r: Option<usize>)
    ensures
        match r {
            Some(i) => i as int == entry_index(oids@.map_values(|e: OidEntry| e@), oid@),
            None => entry_index(oids@.map_values(|e: OidEntry| e@), oid@) < 0,
        },
{
    let ghost es = oids@.map_values(|e: OidEntry| e@);
    let mut i: usize = 0;
    while i < oids.len()
        invariant
            i <= oids@.len(),
            es == oids@.map_values(|e: OidEntry| e@),
            entry_index(es.subrange(0, i as int), oid@) < 0,
        decreases oids@.len() - i,
    {
        proof {
            assert(es.subrange(0, i + 1).drop_last() =~= es.subrange(0, i as int));
        }
        if str_equal(oids[i].oid.as_str(), oid) {
            proof {
                lemma_entry_index_prefix(es, oid@, i + 1);
            }
            return Some(i);
        }
        i += 1;
    }
    proof {
        assert(es.subrange(0, i as int) =~= es);
    }
    None
}

/// The SNMP part of a hardware-mode response: for SNMP commands, the value
/// the snapshot holds for the OID, if any.
pub open spec fn extracted_snmp(cmd: GatewayCommand, snap: SnapshotView) -> Option<SnmpView> {
    match cmd {
        GatewayCommand::SnmpSet { oid, .. } => {
            let i = entry_index(snap.oids, oid@);
            let v = if i >= 0 { Some(snap.oids[i].1) } else { None };
            Some(SnmpView { protocol: SIM_SNMP_PROTOCOL@, operation: "set"@, oid: oid@, value: v, ok: v is Some, message: "hardware"@ })
        },
        GatewayCommand::SnmpGet { oid } => {
            let i = entry_index(snap.oids, oid@);
            let v = if i >= 0 { Some(snap.oids[i].1) } else { None };
            Some(SnmpView { protocol: SIM_SNMP_PROTOCOL@, operation: "get"@, oid: oid@, value: v, ok: v is Some, message: "hardware"@ })
        },
        _ => None,
    }
}

/// The SNMP part of a hardware-mode response.
pub fn extract_snmp(command: &GatewayCommand, snap: &GatewaySnapshot) -> (r: Option<SnmpResponse>)
    ensures
        crate::gateway::opt_snmp(r) == extracted_snmp(*command, snap@),
{
    let (oid, is_set) = match command {
        GatewayCommand::SnmpSet { oid, .. } => (oid, true),
        GatewayCommand::SnmpGet { oid } => (oid, false),
        _ => return None,
    };
    let value = match find_entry(&snap.oids, oid.as_str()) {
        Some(i) => {
            proof {
                lemma_entry_index_bounds(snap@.oids, oid@);
            }
            Some(copy_string(&snap.oids[i].value))
        },
        None => None,
    };
    let ok = value.is_some();
    Some(SnmpResponse {
        protocol: String::from_str(SIM_SNMP_PROTOCOL),
        operation: if is_set { String::from_str("set") } else { String::from_str("get") },
        oid: copy_string(oid),
        value,
        ok,
        message: String::from_str("hardware"),
    })
}

// --- line parsing -----------------------------------------------------------

/// End of the run of non-white-space characters starting at `i`.
pub open spec fn run_end(s: Seq<char>, i: int) -> int
    decreases s.len() - i,
{
    if i >= s.len() || is_ws(s[i]) {
        i
    } else {
        run_end(s, i + 1)
    }
}

pub proof fn lemma_run_end(s: Seq<char>, i: int)
    requires
        0 <= i <= s.len(),
    ensures
        i <= run_end(s, i) <= s.len(),
        forall|k: int| i <= k < run_end(s, i) ==> !is_ws(s[k]),
        run_end(s, i) < s.len() ==> is_ws(s[run_end(s, i)]),
    decreases s.len() - i,
{
    if i < s.len() && !is_ws(s[i]) {
        lemma_run_end(s, i + 1);
    }
}

/// The white-space separated words of `s[i..]`, as `str::split_whitespace`
/// gives them.
pub open spec fn words_from(s: Seq<char>, i: int) -> Seq<Seq<char>>
    decreases s.len() - i, 1int,
{
    if i < 0 || i >= s.len() {
        Seq::empty()
    } else if is_ws(s[i]) {
        words_from(s, i + 1)
    } else {
        let j = run_end(s, i);
        proof {
            lemma_run_end(s, i);
        }
        if j <= i {
            Seq::empty()
        } else {
            seq![s.subrange(i, j)] + words_from(s, j)
        }
    }
}

/// The words of a line.
pub open spec fn words(s: Seq<char>) -> Seq<Seq<char>> {
    words_from(s, 0)
}

/// The words of a line.
pub fn split_words(line: &str) -> (ws: Vec<Vec<char>>)
    ensures
        ws@.map_values(|w: Vec<char>| w@) == words(line@),
{
    let cs = chars_of(line);
    let n = cs.len();
    let mut ws: Vec<Vec<char>> = Vec::new();
    let mut i: usize = 0;
    while i < n
        invariant
            n == cs@.len(),
            cs@ == line@,
            i <= n,
            ws@.map_values(|w: Vec<char>| w@) + words_from(cs@, i as int) == words(cs@),
        decreases n - i,
    {
        if crate::sim_node::is_ws_char(cs[i]) {
            i += 1;
        } else {
            let start = i;
            let mut w: Vec<char> = Vec::new();
            proof {
                lemma_run_end(cs@, start as int);
            }
            while i < n && !crate::sim_node::is_ws_char(cs[i])
                invariant
                    n == cs@.len(),
                    start <= i <= n,
                    i <= run_end(cs@, start as int),
                    run_end(cs@, start as int) == run_end(cs@, i as int),
                    w@ =~= cs@.subrange(start as int, i as int),
                decreases n - i,
            {
                w.push(cs[i]);
                i += 1;
                proof {
                    lemma_run_end(cs@, i as int);
                }
            }
            proof {
                assert(i as int == run_end(cs@, start as int));
            }
            let ghost before = ws@.map_values(|w: Vec<char>| w@);
            ws.push(w);
            proof {
                assert(ws@.map_values(|w: Vec<char>| w@) =~= before.push(cs@.subrange(start as int, i as int)));
                assert(before.push(cs@.subrange(start as int, i as int)) + words_from(cs@, i as int)
                    =~= before + (seq![cs@.subrange(start as int, i as int)] + words_from(cs@, i as int)));
            }
        }
    }
    proof {
        assert(ws@.map_values(|w: Vec<char>| w@) + Seq::<Seq<char>>::empty() =~= ws@.map_values(|w: Vec<char>| w@));
    }
    ws
}

/// Index of the first `=` in `w`, or -1.
pub open spec fn eq_index(w: Seq<char>) -> int
    decreases w.len(),
{
    if w.len() == 0 {
        -1
    } else {
        let r = eq_index(w.drop_last());
        if r >= 0 {
            r
        } else if w.last() == '=' {
            w.len() - 1
        } else {
            -1
        }
    }
}

/// The `key=value` pairs among `words`, split at the first `=`; words
/// without `=` are skipped.
pub open spec fn kv_pairs(words: Seq<Seq<char>>) -> Seq<(Seq<char>, Seq<char>)>
    decreases words.len(),
{
    if words.len() == 0 {
        Seq::empty()
    } else {
        let p = kv_pairs(words.drop_last());
        let w = words.last();
        let e = eq_index(w);
        if e >= 0 {
            p.push((w.subrange(0, e), w.subrange(e + 1, w.len() as int)))
        } else {
            p
        }
    }
}

/// The value of `key`: the last pair with that key wins, as collecting the
/// pairs into a map keeps it.
pub open spec fn kv_get(kv: Seq<(Seq<char>, Seq<char>)>, key: Seq<char>) -> Option<Seq<char>>
    decreases kv.len(),
{
    if kv.len() == 0 {
        None
    } else if kv.last().0 == key {
        Some(kv.last().1)
    } else {
        kv_get(kv.drop_last(), key)
    }
}

proof fn lemma_eq_index_bounds(w: Seq<char>)
    ensures
        -1 <= eq_index(w) < w.len(),
        eq_index(w) >= 0 ==> w[eq_index(w)] == '=',
        eq_index(w) >= 0 ==> forall|k: int| 0 <= k < eq_index(w) ==> w[k] != '=',
        eq_index(w) < 0 ==> forall|k: int| 0 <= k < w.len() ==> w[k] != '=',
    decreases w.len(),
{
    if w.len() > 0 {
        lemma_eq_index_bounds(w.drop_last());
        assert forall|k: int| 0 <= k < w.len() - 1 implies w.drop_last()[k] == w[k] by {}
    }
}

fn split_at_eq(w: &Vec<char>) -> (r: Option<(String, String)>)
    ensures
        match r {
            Some(p) => eq_index(w@) >= 0 && p.0@ == w@.subrange(0, eq_index(w@)) && p.1@ == w@.subrange(eq_index(w@) + 1, w@.len() as int),
            None => eq_index(w@) < 0,
        },
{
    proof {
        lemma_eq_index_bounds(w@);
    }
    let mut i: usize = 0;
    while i < w.len()
        invariant
            i <= w@.len(),
            forall|k: int| 0 <= k < i ==> w@[k] != '=',
        decreases w@.len() - i,
    {
        if w[i] == '=' {
            proof {
                lemma_eq_index_bounds(w@);
                if eq_index(w@) >= 0 && eq_index(w@) != i {
                    assert(w@[eq_index(w@)] == '=');
                }
                assert(eq_index(w@) == i);
            }
            let mut k = String::new();
            let mut j: usize = 0;
            while j < i
                invariant
                    j <= i < w@.len(),
                    k@ =~= w@.subrange(0, j as int),
                decreases i - j,
            {
                crate::text::push_char(&mut k, w[j]);
                j += 1;
            }
            let mut v = String::new();
            let mut m: usize = i + 1;
            while m < w.len()
                invariant
                    i < m <= w@.len() || m == i + 1,
                    i + 1 <= m <= w@.len(),
                    v@ =~= w@.subrange(i + 1, m as int),
                decreases w@.len() - m,
            {
                crate::text::push_char(&mut v, w[m]);
                m += 1;
            }
            return Some((k, v));
        }
        i += 1;
    }
    None
}

/// The `key=value` pairs of a sequence of words.
pub fn parse_kv(words: &Vec<Vec<char>>) -> (kv: Vec<(String, String)>)
    ensures
        kv@.map_values(|p: (String, String)| (p.0@, p.1@)) == kv_pairs(words@.map_values(|w: Vec<char>| w@)),
{
    let ghost wv = words@.map_values(|w: Vec<char>| w@);
    let mut kv: Vec<(String, String)> = Vec::new();
    let mut i: usize = 0;
    while i < words.len()
        invariant
            i <= words@.len(),
            wv == words@.map_values(|w: Vec<char>| w@),
            kv@.map_values(|p: (String, String)| (p.0@, p.1@)) == kv_pairs(wv.subrange(0, i as int)),
        decreases words@.len() - i,
    {
        proof {
            assert(wv.subrange(0, i + 1).drop_last() =~= wv.subrange(0, i as int));
            assert(wv.subrange(0, i + 1).last() == words@[i as int]@);
        }
        let ghost before = kv@.map_values(|p: (String, String)| (p.0@, p.1@));
        match split_at_eq(&words[i]) {
            Some(p) => {
                kv.push(p);
                proof {
                    assert(kv@.map_values(|p: (String, String)| (p.0@, p.1@)) =~= before.push((p.0@, p.1@)));
                }
            },
            None => {},
        }
        i += 1;
    }
    proof {
        assert(wv.subrange(0, wv.len() as int) =~= wv);
    }
    kv
}

/// The value of `key` among the pairs (the last one wins).
pub fn kv_lookup(kv: &Vec<(String, String)>, key: &str) -> (r: Option<String>)
    ensures
        opt_text(r) == kv_get(kv@.map_values(|p: (String, String)| (p.0@, p.1@)), key@),
{
    let ghost pv = kv@.map_values(|p: (String, String)| (p.0@, p.1@));
    let mut i: usize = kv.len();
    proof {
        assert(pv.subrange(0, pv.len() as int) =~= pv);
    }
    while i > 0
        invariant
            i <= kv@.len(),
            pv == kv@.map_values(|p: (String, String)| (p.0@, p.1@)),
            kv_get(pv, key@) == kv_get(pv.subrange(0, i as int), key@),
        decreases i,
    {
        proof {
            assert(pv.subrange(0, i as int).drop_last() =~= pv.subrange(0, i - 1));
            assert(pv.subrange(0, i as int).last() == pv[i - 1]);
        }
        if str_equal(kv[i - 1].0.as_str(), key) {
            return Some(copy_string(&kv[i - 1].1));
        }
        i -= 1;
    }
    None
}

/// Decimal value of a digit string.
pub open spec fn digits_value(d: Seq<char>) -> nat
    decreases d.len(),
{
    if d.len() == 0 {
        0
    } else {
        10 * digits_value(d.drop_last()) + ((d.last() as u32) - 48) as nat
    }
}

/// Whether every character of `d` is an ASCII digit.
pub open spec fn all_digits(d: Seq<char>) -> bool {
    forall|i: int| 0 <= i < d.len() ==> '0' <= #[trigger] d[i] && d[i] <= '9'
}

/// `u32` parsed from text as `str::parse::<u32>` does: an optional `+`, then
/// at least one digit, and a value that fits.
pub open spec fn parse_u32(s: Seq<char>) -> Option<u32> {
    let d = if s.len() > 0 && s[0] == '+' { s.drop_first() } else { s };
    if d.len() > 0 && all_digits(d) && digits_value(d) <= u32::MAX {
        Some(digits_value(d) as u32)
    } else {
        None
    }
}

proof fn lemma_digits_value_mono(d: Seq<char>, k: int)
    requires
        0 <= k <= d.len(),
        all_digits(d),
    ensures
        digits_value(d.subrange(0, k)) <= digits_value(d),
    decreases d.len() - k,
{
    if k < d.len() {
        lemma_digits_value_mono(d, k + 1);
        assert(d.subrange(0, k + 1).drop_last() =~= d.subrange(0, k));
        assert('0' <= d[k]);
    } else {
        assert(d.subrange(0, k) =~= d);
    }
}

/// Parses a `u32` from text.
pub fn parse_u32_text(s: &str) -> (r: Option<u32>)
    ensures
        r == parse_u32(s@),
{
    let cs = chars_of(s);
    let start: usize = if cs.len() > 0 && cs[0] == '+' { 1 } else { 0 };
    let ghost d = if cs@.len() > 0 && cs@[0] == '+' { cs@.drop_first() } else { cs@ };
    if start >= cs.len() {
        proof {
            assert(d.len() == 0);
        }
        return None;
    }
    let mut value: u64 = 0;
    let mut i: usize = start;
    proof {
        assert(d =~= cs@.subrange(start as int, cs@.len() as int));
        assert(cs@.subrange(start as int, start as int) =~= Seq::<char>::empty());
    }
    while i < cs.len()
        invariant
            cs@ == s@,
            d == (if cs@.len() > 0 && cs@[0] == '+' { cs@.drop_first() } else { cs@ }),
            start <= i <= cs@.len(),
            d == cs@.subrange(start as int, cs@.len() as int),
            forall|k: int| start <= k < i ==> '0' <= #[trigger] cs@[k] && cs@[k] <= '9',
            value == digits_value(cs@.subrange(start as int, i as int)),
            value <= u32::MAX,
        decreases cs@.len() - i,
    {
        let c = cs[i];
        if !('0' <= c && c <= '9') {
            proof {
                assert(d[i - start] == c);
                assert(!all_digits(d));
            }
            return None;
        }
        proof {
            assert(cs@.subrange(start as int, i + 1).drop_last() =~= cs@.subrange(start as int, i as int));
        }
        let next: u64 = value * 10 + ((c as u32) - 48) as u64;
        if next > 4294967295 {
            proof {
                assert(digits_value(cs@.subrange(start as int, i + 1)) == next);
                assert(cs@.subrange(start as int, i + 1) =~= d.subrange(0, i + 1 - start));
                if all_digits(d) {
                    lemma_digits_value_mono(d, i + 1 - start);
                }
            }
            return None;
        }
        value = next;
        i += 1;
    }
    proof {
        assert(cs@.subrange(start as int, i as int) =~= d);
        assert(all_digits(d)) by {
            assert forall|k: int| 0 <= k < d.len() implies '0' <= #[trigger] d[k] && d[k] <= '9' by {
                assert(d[k] == cs@[k + start]);
            }
        }
    }
    Some(value as u32)
}

/// `kv_u32`: the key's value parsed as `u32`.
pub open spec fn kv_u32_value(kv: Seq<(Seq<char>, Seq<char>)>, key: Seq<char>) -> Option<u32> {
    match kv_get(kv, key) {
        Some(v) => parse_u32(v),
        None => None,
    }
}

/// The key's value parsed as `u32`.
pub fn kv_u32(kv: &Vec<(String, String)>, key: &str) -> (r: Option<u32>)
    ensures
        r == kv_u32_value(kv@.map_values(|p: (String, String)| (p.0@, p.1@)), key@),
{
    match kv_lookup(kv, key) {
        Some(v) => parse_u32_text(v.as_str()),
        None => None,
    }
}

// --- folding board lines into the snapshot ----------------------------------

/// A reported Wi-Fi mode: `ApSta`/`ap_sta` brings the downstream link up,
/// `Sta`/`sta` takes it down, anything else changes nothing.
pub open spec fn with_wifi_mode(s: SnapshotView, mode: Seq<char>) -> SnapshotView {
    if mode == "ApSta"@ || mode == "ap_sta"@ {
        SnapshotView { wifi_mode: WifiMode::ApSta, downstream_online: true, ..s }
    } else if mode == "Sta"@ || mode == "sta"@ {
        SnapshotView { wifi_mode: WifiMode::Sta, downstream_online: false, ..s }
    } else {
        s
    }
}

/// Records a reported OID value: the first entry with the OID is updated,
/// or a new entry is appended.
pub open spec fn with_oid(s: SnapshotView, oid: Seq<char>, value: Seq<char>) -> SnapshotView {
    let i = entry_index(s.oids, oid);
    if i >= 0 {
        SnapshotView { oids: s.oids.update(i, (s.oids[i].0, value)), ..s }
    } else {
        SnapshotView { oids: s.oids.push((oid, value)), ..s }
    }
}

/// The provisioning state a reported `state=` value names.
pub open spec fn reported_state(v: Option<Seq<char>>) -> Option<ProvisioningState> {
    match v {
        Some(t) => if t == "active"@ {
            Some(ProvisioningState::Active)
        } else if t == "revoked"@ {
            Some(ProvisioningState::Revoked)
        } else if t == "pending"@ {
            Some(ProvisioningState::Pending)
        } else {
            None
        },
        None => None,
    }
}

/// Records a reported device identity. A report whose state is not a real
/// one (`unknown`) changes nothing; a known device gets the new state and
/// version, and the fingerprint when one was reported; a new device is
/// appended.
pub open spec fn with_device(s: SnapshotView, device_id: Seq<char>, kv: Seq<(Seq<char>, Seq<char>)>) -> SnapshotView {
    match reported_state(kv_get(kv, "state"@)) {
        None => s,
        Some(state) => {
            let fp = match kv_get(kv, "fingerprint"@) {
                Some(f) => if f != "<none>"@ { f } else { Seq::empty() },
                None => Seq::empty(),
            };
            let version = match kv_u32_value(kv, "version"@) {
                Some(v) => v,
                None => 0,
            };
            let i = crate::gateway::device_index(s.devices, device_id);
            if i >= 0 {
                let d = s.devices[i];
                SnapshotView {
                    devices: s.devices.update(
                        i,
                        DeviceView {
                            state: state,
                            credential_fingerprint: if fp.len() > 0 { fp } else { d.credential_fingerprint },
                            credential_version: version,
                            ..d
                        },
                    ),
                    ..s
                }
            } else {
                SnapshotView {
                    devices: s.devices.push(
                        DeviceView {
                            device_id: device_id,
                            mac: match kv_get(kv, "mac"@) {
                                Some(m) => m,
                                None => Seq::empty(),
                            },
                            state: state,
                            credential_fingerprint: fp,
                            credential_version: version,
                        },
                    ),
                    ..s
                }
            }
        },
    }
}

/// Folds one line printed by the boards into the snapshot: every line is
/// counted and logged (newest first, at most 20); `GWRESP HEALTH`, `TOGGLE`,
/// `SNMP` and `PROVISION` replies update the fields they report.
pub open spec fn after_line(s: SnapshotView, line: Seq<char>) -> SnapshotView {
    let log = seq![line] + s.command_log;
    let s1 = SnapshotView {
        command_count: if s.command_count < u32::MAX { (s.command_count + 1) as u32 } else { u32::MAX },
        command_log: if log.len() > MAX_LOG { log.take(MAX_LOG as int) } else { log },
        ..s
    };
    let ws = words(line);
    if ws.len() > 0 && ws[0] == "GWRESP"@ {
        let sub = if ws.len() > 1 { ws[1] } else { Seq::empty() };
        let kv = if ws.len() > 2 { kv_pairs(ws.skip(2)) } else { Seq::empty() };
        if sub == "HEALTH"@ {
            let s2 = match kv_u32_value(kv, "free_heap"@) {
                Some(v) => SnapshotView { free_heap_bytes: v, ..s1 },
                None => s1,
            };
            match kv_get(kv, "wifi_mode"@) {
                Some(m) => with_wifi_mode(s2, m),
                None => s2,
            }
        } else if sub == "TOGGLE"@ {
            let s2 = match kv_get(kv, "downstream_online"@) {
                Some(b) => SnapshotView { downstream_online: b == "true"@, ..s1 },
                None => s1,
            };
            match kv_get(kv, "wifi_mode"@) {
                Some(m) => with_wifi_mode(s2, m),
                None => s2,
            }
        } else if sub == "SNMP"@ {
            match (kv_get(kv, "oid"@), kv_get(kv, "value"@)) {
                (Some(o), Some(v)) => if v != "<none>"@ { with_oid(s1, o, v) } else { s1 },
                _ => s1,
            }
        } else if sub == "PROVISION"@ {
            match kv_get(kv, "device_id"@) {
                Some(id) => with_device(s1, id, kv),
                None => s1,
            }
        } else {
            s1
        }
    } else {
        s1
    }
}

/// Applies a reported Wi-Fi mode.
pub fn set_wifi_mode(s: &mut GatewaySnapshot, mode: &str)
    ensures
        final(s)@ == with_wifi_mode(old(s)@, mode@),
{
    if str_equal(mode, "ApSta") || str_equal(mode, "ap_sta") {
        s.wifi_mode = WifiMode::ApSta;
        s.downstream_online = true;
    } else if str_equal(mode, "Sta") || str_equal(mode, "sta") {
        s.wifi_mode = WifiMode::Sta;
        s.downstream_online = false;
    }
}

/// Records a reported OID value.
pub fn upsert_oid(s: &mut GatewaySnapshot, oid: &str, value: &str)
    ensures
        final(s)@ == with_oid(old(s)@, oid@, value@),
{
    let ghost s0 = s@;
    match find_entry(&s.oids, oid) {
        Some(i) => {
            proof {
                lemma_entry_index_bounds(s0.oids, oid@);
            }
            let e = OidEntry { oid: copy_string(&s.oids[i].oid), value: String::from_str(value) };
            s.oids.set(i, e);
            proof {
                assert(s@.oids =~= s0.oids.update(i as int, (s0.oids[i as int].0, value@)));
            }
        },
        None => {
            s.oids.push(OidEntry { oid: String::from_str(oid), value: String::from_str(value) });
            proof {
                assert(s@.oids =~= s0.oids.push((oid@, value@)));
            }
        },
    }
}

fn find_device(devices: &Vec<DeviceIdentity>, device_id: &str) -> (r: Option<usize>)
    ensures
        match r {
            Some(i) => i as int == crate::gateway::device_index(devices@.map_values(|d: DeviceIdentity| d@), device_id@),
            None => crate::gateway::device_index(devices@.map_values(|d: DeviceIdentity| d@), device_id@) < 0,
        },
{
    let ghost ds = devices@.map_values(|d: DeviceIdentity| d@);
    let mut i: usize = 0;
    while i < devices.len()
        invariant
            i <= devices@.len(),
            ds == devices@.map_values(|d: DeviceIdentity| d@),
            crate::gateway::device_index(ds.subrange(0, i as int), device_id@) < 0,
        decreases devices@.len() - i,
    {
        proof {
            assert(ds.subrange(0, i + 1).drop_last() =~= ds.subrange(0, i as int));
        }
        if str_equal(devices[i].device_id.as_str(), device_id) {
            proof {
                crate::gateway_sim::lemma_device_index_prefix(ds, device_id@, i + 1);
            }
            return Some(i);
        }
        i += 1;
    }
    proof {
        assert(ds.subrange(0, i as int) =~= ds);
    }
    None
}

fn state_named(v: &Option<String>) -> (r: Option<ProvisioningState>)
    ensures
        r == reported_state(opt_text(*v)),
{
    match v {
        Some(t) => if str_equal(t.as_str(), "active") {
            Some(ProvisioningState::Active)
        } else if str_equal(t.as_str(), "revoked") {
            Some(ProvisioningState::Revoked)
        } else if str_equal(t.as_str(), "pending") {
            Some(ProvisioningState::Pending)
        } else {
            None
        },
        None => None,
    }
}

/// Records a reported device identity.
pub fn upsert_device(s: &mut GatewaySnapshot, device_id: &str, kv: &Vec<(String, String)>)
    ensures
        final(s)@ == with_device(old(s)@, device_id@, kv@.map_values(|p: (String, String)| (p.0@, p.1@))),
{
    let ghost s0 = s@;
    let ghost kvv = kv@.map_values(|p: (String, String)| (p.0@, p.1@));
    let st = kv_lookup(kv, "state");
    let state = match state_named(&st) {
        Some(x) => x,
        None => return,
    };
    let fingerprint = match kv_lookup(kv, "fingerprint") {
        Some(f) => if !str_equal(f.as_str(), "<none>") {
            f
        } else {
            String::new()
        },
        None => String::new(),
    };
    let version = match kv_u32(kv, "version") {
        Some(v) => v,
        None => 0,
    };
    match find_device(&s.devices, device_id) {
        Some(i) => {
            proof {
                crate::gateway::lemma_device_index_bounds(s0.devices, device_id@);
            }
            let old_d = &s.devices[i];
            let fp = if fingerprint.as_str().is_empty() {
                copy_string(&old_d.credential_fingerprint)
            } else {
                fingerprint
            };
            let d = DeviceIdentity {
                device_id: copy_string(&old_d.device_id),
                mac: copy_string(&old_d.mac),
                state,
                credential_fingerprint: fp,
                credential_version: version,
            };
            s.devices.set(i, d);
            proof {
                assert(s@.devices =~= with_device(s0, device_id@, kvv).devices);
            }
        },
        None => {
            let mac = match kv_lookup(kv, "mac") {
                Some(m) => m,
                None => String::new(),
            };
            let d = DeviceIdentity {
                device_id: String::from_str(device_id),
                mac,
                state,
                credential_fingerprint: fingerprint,
                credential_version: version,
            };
            s.devices.push(d);
            proof {
                assert(s@.devices =~= with_device(s0, device_id@, kvv).devices);
            }
        },
    }
}

/// Folds one line printed by the boards into the snapshot.
pub fn apply_line(s: &mut GatewaySnapshot, line: &str)
    ensures
        final(s)@ == after_line(old(s)@, line@),
{
    let ghost s0 = s@;
    s.command_count = if s.command_count < u32::MAX { s.command_count + 1 } else { u32::MAX };
    let ghost before_log = s@.command_log;
    s.command_log.insert(0, String::from_str(line));
    if s.command_log.len() > MAX_LOG {
        s.command_log.truncate(MAX_LOG);
    }
    proof {
        let log = seq![line@] + before_log;
        if log.len() > MAX_LOG {
            assert(s@.command_log =~= log.take(MAX_LOG as int));
        } else {
            assert(s@.command_log =~= log);
        }
    }
    let mut ws = split_words(line);
    let ghost wv = ws@.map_values(|w: Vec<char>| w@);
    if ws.len() == 0 {
        return;
    }
    let gwresp = chars_of("GWRESP");
    if !chars_equal(&ws[0], &gwresp) {
        return;
    }
    let rest: Vec<Vec<char>> = if ws.len() > 2 { ws.split_off(2) } else { Vec::new() };
    let kv = parse_kv(&rest);
    proof {
        if wv.len() > 2 {
            assert(rest@.map_values(|w: Vec<char>| w@) =~= wv.skip(2));
        } else {
            assert(rest@.map_values(|w: Vec<char>| w@) =~= Seq::<Seq<char>>::empty());
            assert(kv_pairs(Seq::<Seq<char>>::empty()) =~= Seq::<(Seq<char>, Seq<char>)>::empty());
        }
    }
    let empty: Vec<char> = Vec::new();
    let sub: &Vec<char> = if ws.len() > 1 { &ws[1] } else { &empty };
    if chars_equal(sub, &chars_of("HEALTH")) {
        match kv_u32(&kv, "free_heap") {
            Some(v) => {
                s.free_heap_bytes = v;
            },
            None => {},
        }
        match kv_lookup(&kv, "wifi_mode") {
            Some(m) => set_wifi_mode(s, m.as_str()),
            None => {},
        }
    } else if chars_equal(sub, &chars_of("TOGGLE")) {
        match kv_lookup(&kv, "downstream_online") {
            Some(b) => {
                s.downstream_online = str_equal(b.as_str(), "true");
            },
            None => {},
        }
        match kv_lookup(&kv, "wifi_mode") {
            Some(m) => set_wifi_mode(s, m.as_str()),
            None => {},
        }
    } else if chars_equal(sub, &chars_of("SNMP")) {
        match (kv_lookup(&kv, "oid"), kv_lookup(&kv, "value")) {
            (Some(o), Some(v)) => {
                if !str_equal(v.as_str(), "<none>") {
                    upsert_oid(s, o.as_str(), v.as_str());
                }
            },
            _ => {},
        }
    } else if chars_equal(sub, &chars_of("PROVISION")) {
        match kv_lookup(&kv, "device_id") {
            Some(id) => upsert_device(s, id.as_str(), &kv),
            None => {},
        }
    }
}

/// A line read from the boards, without leading and trailing white space;
/// `None` for a blank line, which is skipped.
pub fn board_line(raw: &str) -> (r: Option<String>)
    ensures
        match r {
            Some(l) => l@ == trim(raw@) && l@.len() > 0,
            None => trim(raw@).len() == 0,
        },
{
    let t = trim_chars(raw);
    if t.len() == 0 {
        None
    } else {
        Some(string_of(&t))
    }
}

/// Whether a line printed by the boards reports an error (starts `ERR`).
pub open spec fn is_error_line(line: Seq<char>) -> bool {
    line.len() >= 3 && line.take(3) == "ERR"@
}

/// The hardware-mode response to a command. `reply` is the last line the
/// boards printed after the command's line was sent, or `None` when the
/// command has no hardware line; `snapshot` is the snapshot at that moment.
pub open spec fn hw_response_view(cmd: GatewayCommand, reply: Option<Seq<char>>, snapshot: SnapshotView) -> ResponseView {
    ResponseView {
        ok: match reply {
            Some(l) => !is_error_line(l),
            None => false,
        },
        command: command_name(cmd),
        message: match reply {
            Some(l) => l,
            None => command_name(cmd) + " is simulation-only; not supported on hardware"@,
        },
        snmp: extracted_snmp(cmd, snapshot),
        snapshot: snapshot,
    }
}

/// Builds the hardware-mode response to a command from the boards' reply
/// line (`None` for a command with no hardware line) and the snapshot: the
/// command succeeded unless the reply starts with `ERR`.
pub fn hw_response(command: &GatewayCommand, reply: Option<String>, snapshot: GatewaySnapshot) -> (r: GatewayResponse)
    ensures
        r@ == hw_response_view(*command, opt_text(reply), snapshot@),
{
    let name = command.name();
    let snmp = extract_snmp(command, &snapshot);
    let (ok, message) = match reply {
        Some(l) => {
            let cs = chars_of(l.as_str());
            let err = cs.len() >= 3 && cs[0] == 'E' && cs[1] == 'R' && cs[2] == 'R';
            proof {
                reveal_strlit("ERR");
                if cs@.len() >= 3 {
                    let t = cs@.take(3);
                    assert(t[0] == cs@[0] && t[1] == cs@[1] && t[2] == cs@[2]);
                    assert("ERR"@[0] == 'E' && "ERR"@[1] == 'R' && "ERR"@[2] == 'R');
                    if err {
                        assert(t =~= "ERR"@);
                    }
                }
            }
            (!err, l)
        },
        None => {
            let mut m = String::from_str(name);
            m.append(" is simulation-only; not supported on hardware");
            (false, m)
        },
    };
    GatewayResponse { ok, command: String::from_str(name), message, snmp, snapshot }
}

/// Whether a device path names the S3 node's USB serial port
/// (`/dev/cu.usbmodem*` on macOS, `/dev/ttyACM*` on Linux).
pub open spec fn is_port_candidate(p: Seq<char>) -> bool {
    ||| (p.len() >= 16 && p.take(16) == "/dev/cu.usbmodem"@)
    ||| (p.len() >= 11 && p.take(11) == "/dev/ttyACM"@)
}

/// Picks the S3 node's serial port among device paths: the first candidate
/// in string order, or `None` when there is no candidate.
pub fn pick_gateway_port(paths: &Vec<String>) -> (r: Option<String>)
    ensures
        match r {
            None => forall|i: int| 0 <= i < paths@.len() ==> !is_port_candidate(#[trigger] paths@[i]@),
            Some(p) => {
                &&& is_port_candidate(p@)
                &&& exists|i: int| 0 <= i < paths@.len() && #[trigger] paths@[i]@ == p@
                &&& forall|j: int| 0 <= j < paths@.len() && is_port_candidate(#[trigger] paths@[j]@) ==> !seq_lt(paths@[j]@, p@)
            },
        },
{
    proof {
        reveal_strlit("/dev/cu.usbmodem");
        reveal_strlit("/dev/ttyACM");
    }
    let mut best: Option<usize> = None;
    let mut i: usize = 0;
    while i < paths.len()
        invariant
            i <= paths@.len(),
            "/dev/cu.usbmodem"@.len() == 16,
            "/dev/ttyACM"@.len() == 11,
            match best {
                None => forall|k: int| 0 <= k < i ==> !is_port_candidate(#[trigger] paths@[k]@),
                Some(b) => {
                    &&& b < i
                    &&& is_port_candidate(paths@[b as int]@)
                    &&& forall|k: int| 0 <= k < i && is_port_candidate(#[trigger] paths@[k]@) ==> !seq_lt(paths@[k]@, paths@[b as int]@)
                },
            },
        decreases paths@.len() - i,
    {
        let p = paths[i].as_str();
        let candidate = starts_with(p, "/dev/cu.usbmodem") || starts_with(p, "/dev/ttyACM");
        assert(candidate == is_port_candidate(paths@[i as int]@));
        if candidate {
            match best {
                None => {
                    proof {
                        crate::text::lemma_seq_lt_irreflexive(paths@[i as int]@);
                    }
                    best = Some(i);
                },
                Some(b) => {
                    if str_lt(p, paths[b].as_str()) {
                        proof {
                            assert forall|k: int| 0 <= k < i + 1 && is_port_candidate(#[trigger] paths@[k]@) implies !seq_lt(paths@[k]@, paths@[i as int]@) by {
                                if k < i && seq_lt(paths@[k]@, paths@[i as int]@) {
                                    lemma_seq_lt_transitive(paths@[k]@, paths@[i as int]@, paths@[b as int]@);
                                }
                                if k == i {
                                    crate::text::lemma_seq_lt_irreflexive(paths@[k]@);
                                }
                            }
                        }
                        best = Some(i);
                    }
                },
            }
        }
        i += 1;
    }
    match best {
        None => None,
        Some(b) => Some(paths[b].clone()),
    }
}

proof fn lemma_entry_index_same_keys(a: Seq<(Seq<char>, Seq<char>)>, b: Seq<(Seq<char>, Seq<char>)>, oid: Seq<char>)
    requires
        a.len() == b.len(),
        forall|k: int| 0 <= k < a.len() ==> (#[trigger] a[k]).0 == b[k].0,
    ensures
        entry_index(a, oid) == entry_index(b, oid),
    decreases a.len(),
{
    if a.len() > 0 {
        lemma_entry_index_same_keys(a.drop_last(), b.drop_last(), oid);
        assert(a.last().0 == b.last().0);
    }
}

/// A value the boards reported for an OID is what a following hardware-mode
/// SNMP read of that OID returns.
pub proof fn law_reported_oid_read_back(s: SnapshotView, oid: String, value: Seq<char>)
    ensures
        extracted_snmp(GatewayCommand::SnmpGet { oid: oid }, with_oid(s, oid@, value)) == Some(
            SnmpView {
                protocol: SIM_SNMP_PROTOCOL@,
                operation: "get"@,
                oid: oid@,
                value: Some(value),
                ok: true,
                message: "hardware"@,
            },
        ),
{
    let i = entry_index(s.oids, oid@);
    lemma_entry_index_bounds(s.oids, oid@);
    if i >= 0 {
        let u = s.oids.update(i, (s.oids[i].0, value));
        assert forall|k: int| 0 <= k < s.oids.len() implies (#[trigger] s.oids[k]).0 == u[k].0 by {}
        lemma_entry_index_same_keys(s.oids, u, oid@);
    } else {
        assert(s.oids.push((oid@, value)).drop_last() =~= s.oids);
    }
}

} // verus!
