//! What the host reads back from the lines the S3 node prints: a gateway
//! reply formatted by the node and parsed by the hardware backend updates the
//! snapshot with exactly the reported values.

use vstd::prelude::*;

use crate::gateway::{SnapshotView, WifiMode};
use crate::gwlink::{GwMsgView, WifiMode as LinkWifiMode};
use crate::hw_backend::{
    after_line, all_digits, digits_value, eq_index, kv_get, kv_pairs, kv_u32_value, lemma_run_end, parse_u32, reported_state,
    run_end, with_device, with_oid, words, words_from,
};
use crate::gateway::{device_index, lemma_device_index_bounds};
use crate::gateway_inv::ids_distinct;
use crate::gateway_sim::lemma_device_index_update;
use crate::sim_node::{is_ws, reply_line, wifi_mode_debug};
use crate::text::{bool_text, dec, digit_char};

verus! {

/// Words joined by single spaces.
pub open spec fn spaced(ws: Seq<Seq<char>>) -> Seq<char>
    decreases ws.len(),
{
    if ws.len() == 0 {
        Seq::empty()
    } else if ws.len() == 1 {
        ws[0]
    } else {
        ws[0] + " "@ + spaced(ws.drop_first())
    }
}

/// A word: non-empty, without white space.
pub open spec fn is_word(w: Seq<char>) -> bool {
    w.len() > 0 && forall|k: int| 0 <= k < w.len() ==> !is_ws(#[trigger] w[k])
}

proof fn lemma_run_end_at(s: Seq<char>, i: int, j: int)
    requires
        0 <= i <= j <= s.len(),
        forall|k: int| i <= k < j ==> !is_ws(#[trigger] s[k]),
        j < s.len() ==> is_ws(s[j]),
    ensures
        run_end(s, i) == j,
    decreases j - i,
{
    if i < j {
        lemma_run_end_at(s, i + 1, j);
    }
}

proof fn lemma_run_end_skip(s: Seq<char>, i: int, k: int)
    requires
        0 <= i <= k <= s.len(),
    ensures
        run_end(s, k) == i + run_end(s.skip(i), k - i),
    decreases s.len() - k,
{
    if k < s.len() && !is_ws(s[k]) {
        assert(s.skip(i)[k - i] == s[k]);
        lemma_run_end_skip(s, i, k + 1);
    } else if k < s.len() {
        assert(s.skip(i)[k - i] == s[k]);
    }
}

proof fn lemma_words_skip(s: Seq<char>, i: int, k: int)
    requires
        0 <= i <= k <= s.len(),
    ensures
        words_from(s, k) == words_from(s.skip(i), k - i),
    decreases s.len() - k, 0int,
{
    if k < s.len() {
        assert(s.skip(i)[k - i] == s[k]);
        if is_ws(s[k]) {
            lemma_words_skip(s, i, k + 1);
        } else {
            lemma_run_end(s, k);
            lemma_run_end_skip(s, i, k);
            let j = run_end(s, k);
            if j > k {
                lemma_words_skip(s, i, j);
                assert(s.skip(i).subrange(k - i, j - i) =~= s.subrange(k, j));
            }
        }
    }
}

/// Words joined by single spaces split back into those words.
pub proof fn lemma_words_spaced(ws: Seq<Seq<char>>)
    requires
        forall|k: int| 0 <= k < ws.len() ==> is_word(#[trigger] ws[k]),
    ensures
        words(spaced(ws)) == ws,
    decreases ws.len(),
{
    if ws.len() == 0 {
        assert(words(spaced(ws)) =~= ws);
    } else {
        let w = ws[0];
        assert(is_word(w));
        if ws.len() == 1 {
            let s = spaced(ws);
            assert(!is_ws(s[0]));
            lemma_run_end_at(s, 0, w.len() as int);
            assert(s.subrange(0, w.len() as int) =~= w);
            assert(words_from(s, w.len() as int) =~= Seq::<Seq<char>>::empty());
            assert(words(s) =~= ws);
        } else {
            let rest = ws.drop_first();
            assert forall|k: int| 0 <= k < rest.len() implies is_word(#[trigger] rest[k]) by {
                assert(rest[k] == ws[k + 1]);
            }
            lemma_words_spaced(rest);
            let s = spaced(ws);
            let n = w.len() as int;
            reveal_strlit(" ");
            assert(s == w + " "@ + spaced(rest));
            assert forall|k: int| 0 <= k < n implies !is_ws(#[trigger] s[k]) by {
                assert(s[k] == w[k]);
            }
            assert(s[n] == ' ');
            lemma_run_end_at(s, 0, n);
            assert(s.subrange(0, n) =~= w);
            assert(!is_ws(s[0]));
            assert(is_ws(s[n]));
            lemma_words_skip(s, n + 1, n + 1);
            assert(s.skip(n + 1) =~= spaced(rest));
            assert(words_from(s, n + 1) == rest);
            assert(words_from(s, n) == words_from(s, n + 1));
            assert(words_from(s, 0) == seq![s.subrange(0, n)] + words_from(s, n));
            assert(words(s) =~= seq![w] + rest);
            assert(seq![w] + rest =~= ws);
        }
    }
}

proof fn lemma_digit_char(d: nat)
    requires
        d < 10,
    ensures
        (digit_char(d) as u32) == 48 + d,
        '0' <= digit_char(d) <= '9',
{
}

/// Decimal text parses back to its number.
pub proof fn lemma_dec_parses(n: nat)
    ensures
        dec(n).len() > 0,
        all_digits(dec(n)),
        digits_value(dec(n)) == n,
    decreases n,
{
    let d = dec(n);
    if n < 10 {
        lemma_digit_char(n);
        assert(d.drop_last() =~= Seq::<char>::empty());
        assert(d.last() == digit_char(n));
        assert(digits_value(d) == 10 * digits_value(d.drop_last()) + ((d.last() as u32) - 48) as nat);
    } else {
        lemma_dec_parses(n / 10);
        lemma_digit_char(n % 10);
        assert(d.drop_last() =~= dec(n / 10));
        assert(d.last() == digit_char(n % 10));
        assert(digits_value(d) == 10 * digits_value(d.drop_last()) + ((d.last() as u32) - 48) as nat);
        assert(n == 10 * (n / 10) + n % 10);
        assert forall|k: int| 0 <= k < d.len() implies '0' <= #[trigger] d[k] && d[k] <= '9' by {
            if k < d.len() - 1 {
                assert(d[k] == dec(n / 10)[k]);
            }
        }
    }
}

/// Whether `w` holds no `=`.
pub open spec fn no_eq(w: Seq<char>) -> bool {
    forall|k: int| 0 <= k < w.len() ==> #[trigger] w[k] != '='
}

proof fn lemma_eq_index_none(w: Seq<char>)
    requires
        no_eq(w),
    ensures
        eq_index(w) == -1,
    decreases w.len(),
{
    if w.len() > 0 {
        assert(w.last() != '=');
        lemma_eq_index_none(w.drop_last());
    }
}

/// `key=value` splits at the `=` after the key.
proof fn lemma_eq_index_pair(key: Seq<char>, value: Seq<char>)
    requires
        no_eq(key),
    ensures
        eq_index(key + "="@ + value) == key.len(),
    decreases value.len(),
{
    reveal_strlit("=");
    let w = key + "="@ + value;
    if value.len() == 0 {
        assert(w.drop_last() =~= key);
        lemma_eq_index_none(key);
    } else {
        lemma_eq_index_pair(key, value.drop_last());
        assert(w.drop_last() =~= key + "="@ + value.drop_last());
    }
}

/// A `key=value` word, split.
proof fn lemma_kv_word(ws: Seq<Seq<char>>, key: Seq<char>, value: Seq<char>)
    requires
        no_eq(key),
    ensures
        kv_pairs(ws.push(key + "="@ + value)) == kv_pairs(ws).push((key, value)),
{
    reveal_strlit("=");
    let w = key + "="@ + value;
    lemma_eq_index_pair(key, value);
    assert(ws.push(w).drop_last() =~= ws);
    assert(w.subrange(0, key.len() as int) =~= key);
    assert(w.subrange(key.len() as int + 1, w.len() as int) =~= value);
}

/// Decimal text is a word.
pub(crate) proof fn lemma_dec_word(n: nat)
    ensures
        is_word(dec(n)),
        no_eq(dec(n)),
        parse_u32(dec(n)) == (if n <= u32::MAX { Some(n as u32) } else { None::<u32> }),
{
    lemma_dec_parses(n);
    let d = dec(n);
    assert forall|k: int| 0 <= k < d.len() implies !is_ws(#[trigger] d[k]) && d[k] != '=' by {
        assert('0' <= d[k] && d[k] <= '9');
    }
    assert(d[0] != '+');
}

proof fn lemma_literal_words()
    ensures
        is_word("GWRESP"@),
        is_word("HEALTH"@),
        is_word("TOGGLE"@),
        is_word("SNMP"@),
        is_word("Sta"@),
        is_word("ApSta"@),
        is_word("true"@),
        is_word("false"@),
        is_word("free_heap"@),
        is_word("uptime_ms"@),
        is_word("rx_count"@),
        is_word("wifi_mode"@),
        is_word("downstream_online"@),
        is_word("oid"@),
        is_word("value"@),
        is_word("ok"@),
        is_word("device_id"@),
        is_word("state"@),
        is_word("fingerprint"@),
        is_word("version"@),
        is_word("PROVISION"@),
        no_eq("device_id"@),
        no_eq("state"@),
        no_eq("fingerprint"@),
        no_eq("version"@),
        no_eq("free_heap"@),
        no_eq("uptime_ms"@),
        no_eq("rx_count"@),
        no_eq("wifi_mode"@),
        no_eq("downstream_online"@),
        no_eq("oid"@),
        no_eq("value"@),
        no_eq("ok"@),
        no_eq("Sta"@),
        no_eq("ApSta"@),
        no_eq("true"@),
        no_eq("false"@),
{
    reveal_strlit("GWRESP");
    reveal_strlit("HEALTH");
    reveal_strlit("TOGGLE");
    reveal_strlit("SNMP");
    reveal_strlit("Sta");
    reveal_strlit("ApSta");
    reveal_strlit("true");
    reveal_strlit("false");
    reveal_strlit("free_heap");
    reveal_strlit("uptime_ms");
    reveal_strlit("rx_count");
    reveal_strlit("wifi_mode");
    reveal_strlit("downstream_online");
    reveal_strlit("oid");
    reveal_strlit("value");
    reveal_strlit("ok");
    reveal_strlit("device_id");
    reveal_strlit("state");
    reveal_strlit("fingerprint");
    reveal_strlit("version");
    reveal_strlit("PROVISION");
}

/// A `key=value` word with a value that is a word without `=` is a word.
proof fn lemma_pair_word(key: Seq<char>, value: Seq<char>)
    requires
        is_word(key),
        no_eq(key),
        forall|k: int| 0 <= k < value.len() ==> !is_ws(#[trigger] value[k]),
    ensures
        is_word(key + "="@ + value),
{
    reveal_strlit("=");
    let w = key + "="@ + value;
    assert forall|k: int| 0 <= k < w.len() implies !is_ws(#[trigger] w[k]) by {
        if k < key.len() {
            assert(w[k] == key[k]);
        } else if k == key.len() {
            assert(w[k] == '=');
        } else {
            assert(w[k] == value[k - key.len() - 1]);
        }
    }
}

/// The words of a health reply line.
pub open spec fn health_words(free_heap: u32, uptime_ms: u64, rx_count: u32, mode: LinkWifiMode) -> Seq<Seq<char>> {
    seq![
        "GWRESP"@,
        "HEALTH"@,
        "free_heap"@ + "="@ + dec(free_heap as nat),
        "uptime_ms"@ + "="@ + dec(uptime_ms as nat),
        "rx_count"@ + "="@ + dec(rx_count as nat),
        "wifi_mode"@ + "="@ + wifi_mode_debug(mode),
    ]
}

#[verifier::spinoff_prover]
#[verifier::rlimit(40)]
proof fn lemma_health_line(free_heap: u32, uptime_ms: u64, rx_count: u32, mode: LinkWifiMode)
    ensures
        reply_line(GwMsgView::HealthResp { free_heap, uptime_ms, rx_count, wifi_mode: mode }).unwrap()
            == spaced(health_words(free_heap, uptime_ms, rx_count, mode)),
{
    reveal_strlit("GWRESP");
    reveal_strlit("HEALTH");
    reveal_strlit(" ");
    reveal_strlit("=");
    reveal_strlit("free_heap");
    reveal_strlit("uptime_ms");
    reveal_strlit("rx_count");
    reveal_strlit("wifi_mode");
    reveal_strlit("GWRESP HEALTH free_heap=");
    reveal_strlit(" uptime_ms=");
    reveal_strlit(" rx_count=");
    reveal_strlit(" wifi_mode=");
    let ws = health_words(free_heap, uptime_ms, rx_count, mode);
    reveal_with_fuel(spaced, 7);
    let fh = dec(free_heap as nat);
    let up = dec(uptime_ms as nat);
    let rx = dec(rx_count as nat);
    let md = wifi_mode_debug(mode);
    assert(spaced(ws.skip(5)) == ws[5]);
    assert(ws.skip(5) == ws.skip(4).drop_first());
    assert(ws.skip(4) == ws.skip(3).drop_first());
    assert(ws.skip(3) == ws.skip(2).drop_first());
    assert(ws.skip(2) == ws.skip(1).drop_first());
    assert(ws.skip(1) == ws.drop_first());
    let line = reply_line(GwMsgView::HealthResp { free_heap, uptime_ms, rx_count, wifi_mode: mode }).unwrap();
    assert(line =~= "GWRESP"@ + " "@ + ("HEALTH"@ + " "@ + ("free_heap"@ + "="@ + fh + " "@ + ("uptime_ms"@ + "="@ + up
        + " "@ + ("rx_count"@ + "="@ + rx + " "@ + ("wifi_mode"@ + "="@ + md))))));
}

proof fn lemma_health_kv(free_heap: u32, uptime_ms: u64, rx_count: u32, mode: LinkWifiMode)
    ensures
        kv_pairs(health_words(free_heap, uptime_ms, rx_count, mode).skip(2)) == seq![
            ("free_heap"@, dec(free_heap as nat)),
            ("uptime_ms"@, dec(uptime_ms as nat)),
            ("rx_count"@, dec(rx_count as nat)),
            ("wifi_mode"@, wifi_mode_debug(mode)),
        ],
{
    lemma_literal_words();
    let ws = health_words(free_heap, uptime_ms, rx_count, mode);
    let fh = dec(free_heap as nat);
    let up = dec(uptime_ms as nat);
    let rx = dec(rx_count as nat);
    let md = wifi_mode_debug(mode);
    let e = Seq::<Seq<char>>::empty();
    lemma_kv_word(e, "free_heap"@, fh);
    lemma_kv_word(e.push(ws[2]), "uptime_ms"@, up);
    lemma_kv_word(e.push(ws[2]).push(ws[3]), "rx_count"@, rx);
    lemma_kv_word(e.push(ws[2]).push(ws[3]).push(ws[4]), "wifi_mode"@, md);
    assert(ws.skip(2) =~= e.push(ws[2]).push(ws[3]).push(ws[4]).push(ws[5]));
    assert(kv_pairs(e) =~= Seq::<(Seq<char>, Seq<char>)>::empty());
}

proof fn lemma_health_is_words(free_heap: u32, uptime_ms: u64, rx_count: u32, mode: LinkWifiMode)
    ensures
        words(spaced(health_words(free_heap, uptime_ms, rx_count, mode))) == health_words(free_heap, uptime_ms, rx_count, mode),
{
    lemma_literal_words();
    let ws = health_words(free_heap, uptime_ms, rx_count, mode);
    lemma_dec_word(free_heap as nat);
    lemma_dec_word(uptime_ms as nat);
    lemma_dec_word(rx_count as nat);
    lemma_pair_word("free_heap"@, dec(free_heap as nat));
    lemma_pair_word("uptime_ms"@, dec(uptime_ms as nat));
    lemma_pair_word("rx_count"@, dec(rx_count as nat));
    lemma_pair_word("wifi_mode"@, wifi_mode_debug(mode));
    assert forall|k: int| 0 <= k < ws.len() implies is_word(#[trigger] ws[k]) by {}
    lemma_words_spaced(ws);
}

/// The host's reading of a health reply printed by the node: the snapshot
/// takes the reported free heap and Wi-Fi mode (the link is up exactly in
/// `ApSta`), and its MIB and device registry are unchanged.
pub proof fn law_health_reply_read_back(s: SnapshotView, free_heap: u32, uptime_ms: u64, rx_count: u32, mode: LinkWifiMode)
    ensures
        ({
            let line = reply_line(GwMsgView::HealthResp { free_heap, uptime_ms, rx_count, wifi_mode: mode }).unwrap();
            let t = after_line(s, line);
            &&& t.free_heap_bytes == free_heap
            &&& t.wifi_mode == (if mode == LinkWifiMode::ApSta { WifiMode::ApSta } else { WifiMode::Sta })
            &&& t.downstream_online == (mode == LinkWifiMode::ApSta)
            &&& t.oids == s.oids
            &&& t.devices == s.devices
        }),
{
    lemma_health_line(free_heap, uptime_ms, rx_count, mode);
    lemma_health_is_words(free_heap, uptime_ms, rx_count, mode);
    lemma_health_kv(free_heap, uptime_ms, rx_count, mode);
    lemma_dec_word(free_heap as nat);
    reveal_strlit("GWRESP");
    reveal_strlit("HEALTH");
    reveal_strlit("TOGGLE");
    reveal_strlit("SNMP");
    reveal_strlit("free_heap");
    reveal_strlit("uptime_ms");
    reveal_strlit("rx_count");
    reveal_strlit("wifi_mode");
    reveal_strlit("Sta");
    reveal_strlit("ApSta");
    reveal_strlit("ap_sta");
    reveal_strlit("sta");
    let fh = dec(free_heap as nat);
    let md = wifi_mode_debug(mode);
    let kv = seq![("free_heap"@, fh), ("uptime_ms"@, dec(uptime_ms as nat)), ("rx_count"@, dec(rx_count as nat)), ("wifi_mode"@, md)];
    assert("wifi_mode"@[0] != "free_heap"@[0]);
    assert("rx_count"@.len() != "free_heap"@.len());
    assert("uptime_ms"@[0] != "free_heap"@[0]);
    reveal_with_fuel(kv_get, 5);
    assert(kv_get(kv, "free_heap"@) == Some(fh));
    assert(kv_get(kv, "wifi_mode"@) == Some(md));
    assert(kv_u32_value(kv, "free_heap"@) == Some(free_heap));
    assert("HEALTH"@[0] != "TOGGLE"@[0]);
    assert("HEALTH"@.len() != "SNMP"@.len());
    assert("ApSta"@[0] != "ap_sta"@[0]);
    assert("Sta"@.len() != "ApSta"@.len());
    assert("Sta"@.len() != "ap_sta"@.len());
    assert("ApSta"@.len() != "sta"@.len());
}

/// The value text of an SNMP reply line.
pub open spec fn snmp_value_text(value: Option<Seq<char>>) -> Seq<char> {
    match value {
        Some(v) => v,
        None => "<none>"@,
    }
}

/// The words of an SNMP reply line.
pub open spec fn snmp_words(oid: Seq<char>, value: Option<Seq<char>>, ok: bool) -> Seq<Seq<char>> {
    seq!["GWRESP"@, "SNMP"@, "oid"@ + "="@ + oid, "value"@ + "="@ + snmp_value_text(value), "ok"@ + "="@ + bool_text(ok)]
}

#[verifier::spinoff_prover]
#[verifier::rlimit(40)]
proof fn lemma_snmp_line(oid: Seq<char>, value: Option<Seq<char>>, ok: bool)
    ensures
        reply_line(GwMsgView::SnmpResp { oid, value, ok }).unwrap() == spaced(snmp_words(oid, value, ok)),
{
    reveal_strlit("GWRESP");
    reveal_strlit("SNMP");
    reveal_strlit(" ");
    reveal_strlit("=");
    reveal_strlit("oid");
    reveal_strlit("value");
    reveal_strlit("ok");
    reveal_strlit("GWRESP SNMP oid=");
    reveal_strlit(" value=");
    reveal_strlit(" ok=");
    let ws = snmp_words(oid, value, ok);
    reveal_with_fuel(spaced, 6);
    assert(spaced(ws.skip(4)) == ws[4]);
    assert(ws.skip(4) == ws.skip(3).drop_first());
    assert(ws.skip(3) == ws.skip(2).drop_first());
    assert(ws.skip(2) == ws.skip(1).drop_first());
    assert(ws.skip(1) == ws.drop_first());
    let vt = snmp_value_text(value);
    let line = reply_line(GwMsgView::SnmpResp { oid, value, ok }).unwrap();
    assert(line =~= "GWRESP"@ + " "@ + ("SNMP"@ + " "@ + ("oid"@ + "="@ + oid + " "@ + ("value"@ + "="@ + vt + " "@ + (
    "ok"@ + "="@ + bool_text(ok))))));
}

proof fn lemma_snmp_kv(oid: Seq<char>, value: Option<Seq<char>>, ok: bool)
    ensures
        kv_pairs(snmp_words(oid, value, ok).skip(2)) == seq![
            ("oid"@, oid),
            ("value"@, snmp_value_text(value)),
            ("ok"@, bool_text(ok)),
        ],
{
    lemma_literal_words();
    let ws = snmp_words(oid, value, ok);
    let e = Seq::<Seq<char>>::empty();
    lemma_kv_word(e, "oid"@, oid);
    lemma_kv_word(e.push(ws[2]), "value"@, snmp_value_text(value));
    lemma_kv_word(e.push(ws[2]).push(ws[3]), "ok"@, bool_text(ok));
    assert(ws.skip(2) =~= e.push(ws[2]).push(ws[3]).push(ws[4]));
    assert(kv_pairs(e) =~= Seq::<(Seq<char>, Seq<char>)>::empty());
}

proof fn lemma_snmp_is_words(oid: Seq<char>, value: Option<Seq<char>>, ok: bool)
    requires
        forall|k: int| 0 <= k < oid.len() ==> !is_ws(#[trigger] oid[k]),
        forall|k: int| 0 <= k < snmp_value_text(value).len() ==> !is_ws(#[trigger] snmp_value_text(value)[k]),
    ensures
        words(spaced(snmp_words(oid, value, ok))) == snmp_words(oid, value, ok),
{
    lemma_literal_words();
    let ws = snmp_words(oid, value, ok);
    lemma_pair_word("oid"@, oid);
    lemma_pair_word("value"@, snmp_value_text(value));
    lemma_pair_word("ok"@, bool_text(ok));
    assert forall|k: int| 0 <= k < ws.len() implies is_word(#[trigger] ws[k]) by {}
    lemma_words_spaced(ws);
}

/// The host's reading of an SNMP reply printed by the node: a reported value
/// is recorded for the OID exactly as the hardware backend's MIB update does
/// it, and a reply without a value (`<none>`) leaves the MIB unchanged. The
/// OID and the value are single words (no white space), as the line format
/// needs.
pub proof fn law_snmp_reply_read_back(s: SnapshotView, oid: Seq<char>, value: Option<Seq<char>>, ok: bool)
    requires
        forall|k: int| 0 <= k < oid.len() ==> !is_ws(#[trigger] oid[k]),
        forall|k: int| 0 <= k < snmp_value_text(value).len() ==> !is_ws(#[trigger] snmp_value_text(value)[k]),
    ensures
        ({
            let t = after_line(s, reply_line(GwMsgView::SnmpResp { oid, value, ok }).unwrap());
            let v = snmp_value_text(value);
            &&& t.oids == (if v != "<none>"@ { with_oid(s, oid, v).oids } else { s.oids })
            &&& t.devices == s.devices
            &&& t.free_heap_bytes == s.free_heap_bytes
            &&& t.downstream_online == s.downstream_online
        }),
{
    lemma_snmp_line(oid, value, ok);
    lemma_snmp_is_words(oid, value, ok);
    lemma_snmp_kv(oid, value, ok);
    reveal_strlit("GWRESP");
    reveal_strlit("HEALTH");
    reveal_strlit("TOGGLE");
    reveal_strlit("SNMP");
    reveal_strlit("oid");
    reveal_strlit("value");
    reveal_strlit("ok");
    let kv = seq![("oid"@, oid), ("value"@, snmp_value_text(value)), ("ok"@, bool_text(ok))];
    assert("ok"@.len() != "oid"@.len());
    assert("value"@.len() != "oid"@.len());
    assert("ok"@.len() != "value"@.len());
    reveal_with_fuel(kv_get, 4);
    assert(kv_get(kv, "oid"@) == Some(oid));
    assert(kv_get(kv, "value"@) == Some(snmp_value_text(value)));
    assert("SNMP"@.len() != "HEALTH"@.len());
    assert("SNMP"@.len() != "TOGGLE"@.len());
}

/// The words of a toggle reply line.
pub open spec fn toggle_words(downstream_online: bool, mode: LinkWifiMode) -> Seq<Seq<char>> {
    seq!["GWRESP"@, "TOGGLE"@, "downstream_online"@ + "="@ + bool_text(downstream_online), "wifi_mode"@ + "="@ + wifi_mode_debug(mode)]
}

#[verifier::spinoff_prover]
#[verifier::rlimit(40)]
proof fn lemma_toggle_line(downstream_online: bool, mode: LinkWifiMode)
    ensures
        reply_line(GwMsgView::ToggleResp { downstream_online, wifi_mode: mode }).unwrap() == spaced(
            toggle_words(downstream_online, mode),
        ),
{
    reveal_strlit("GWRESP");
    reveal_strlit("TOGGLE");
    reveal_strlit(" ");
    reveal_strlit("=");
    reveal_strlit("downstream_online");
    reveal_strlit("wifi_mode");
    reveal_strlit("GWRESP TOGGLE downstream_online=");
    reveal_strlit(" wifi_mode=");
    let ws = toggle_words(downstream_online, mode);
    reveal_with_fuel(spaced, 5);
    assert(spaced(ws.skip(3)) == ws[3]);
    assert(ws.skip(3) == ws.skip(2).drop_first());
    assert(ws.skip(2) == ws.skip(1).drop_first());
    assert(ws.skip(1) == ws.drop_first());
    let line = reply_line(GwMsgView::ToggleResp { downstream_online, wifi_mode: mode }).unwrap();
    assert(line =~= "GWRESP"@ + " "@ + ("TOGGLE"@ + " "@ + ("downstream_online"@ + "="@ + bool_text(downstream_online) + " "@
        + ("wifi_mode"@ + "="@ + wifi_mode_debug(mode)))));
}

/// The host's reading of a toggle reply printed by the node: the snapshot
/// takes the reported Wi-Fi mode, and the link is up exactly in `ApSta`.
pub proof fn law_toggle_reply_read_back(s: SnapshotView, downstream_online: bool, mode: LinkWifiMode)
    ensures
        ({
            let t = after_line(s, reply_line(GwMsgView::ToggleResp { downstream_online, wifi_mode: mode }).unwrap());
            &&& t.wifi_mode == (if mode == LinkWifiMode::ApSta { WifiMode::ApSta } else { WifiMode::Sta })
            &&& t.downstream_online == (mode == LinkWifiMode::ApSta)
            &&& t.oids == s.oids
            &&& t.devices == s.devices
        }),
{
    lemma_toggle_line(downstream_online, mode);
    lemma_literal_words();
    let ws = toggle_words(downstream_online, mode);
    let b = bool_text(downstream_online);
    let md = wifi_mode_debug(mode);
    lemma_pair_word("downstream_online"@, b);
    lemma_pair_word("wifi_mode"@, md);
    assert forall|k: int| 0 <= k < ws.len() implies is_word(#[trigger] ws[k]) by {}
    lemma_words_spaced(ws);
    let e = Seq::<Seq<char>>::empty();
    lemma_kv_word(e, "downstream_online"@, b);
    lemma_kv_word(e.push(ws[2]), "wifi_mode"@, md);
    assert(ws.skip(2) =~= e.push(ws[2]).push(ws[3]));
    assert(kv_pairs(e) =~= Seq::<(Seq<char>, Seq<char>)>::empty());
    reveal_strlit("GWRESP");
    reveal_strlit("HEALTH");
    reveal_strlit("TOGGLE");
    reveal_strlit("downstream_online");
    reveal_strlit("wifi_mode");
    reveal_strlit("Sta");
    reveal_strlit("ApSta");
    reveal_strlit("ap_sta");
    reveal_strlit("sta");
    let kv = seq![("downstream_online"@, b), ("wifi_mode"@, md)];
    assert("wifi_mode"@.len() != "downstream_online"@.len());
    reveal_with_fuel(kv_get, 3);
    assert(kv_get(kv, "downstream_online"@) == Some(b));
    assert(kv_get(kv, "wifi_mode"@) == Some(md));
    assert("TOGGLE"@[0] != "HEALTH"@[0]);
    assert("ApSta"@[0] != "ap_sta"@[0]);
    assert("Sta"@.len() != "ApSta"@.len());
    assert("Sta"@.len() != "ap_sta"@.len());
    assert("ApSta"@.len() != "sta"@.len());
}

/// The fingerprint text of a provisioning reply line.
pub open spec fn fingerprint_text(fingerprint: Seq<char>) -> Seq<char> {
    if fingerprint.len() == 0 {
        "<none>"@
    } else {
        fingerprint
    }
}

/// The `key=value` pairs of a provisioning reply line.
pub open spec fn provision_kv(device_id: Seq<char>, state: Seq<char>, fingerprint: Seq<char>, version: u32, ok: bool) -> Seq<
    (Seq<char>, Seq<char>),
> {
    seq![
        ("device_id"@, device_id),
        ("state"@, state),
        ("fingerprint"@, fingerprint_text(fingerprint)),
        ("version"@, dec(version as nat)),
        ("ok"@, bool_text(ok)),
    ]
}

/// The words of a provisioning reply line.
pub open spec fn provision_words(device_id: Seq<char>, state: Seq<char>, fingerprint: Seq<char>, version: u32, ok: bool) -> Seq<
    Seq<char>,
> {
    seq![
        "GWRESP"@,
        "PROVISION"@,
        "device_id"@ + "="@ + device_id,
        "state"@ + "="@ + state,
        "fingerprint"@ + "="@ + fingerprint_text(fingerprint),
        "version"@ + "="@ + dec(version as nat),
        "ok"@ + "="@ + bool_text(ok),
    ]
}

#[verifier::spinoff_prover]
#[verifier::rlimit(60)]
proof fn lemma_provision_line(device_id: Seq<char>, state: Seq<char>, fingerprint: Seq<char>, version: u32, ok: bool)
    ensures
        reply_line(GwMsgView::ProvisionResp { device_id, state, fingerprint, version, ok }).unwrap() == spaced(
            provision_words(device_id, state, fingerprint, version, ok),
        ),
{
    reveal_strlit("GWRESP");
    reveal_strlit("PROVISION");
    reveal_strlit(" ");
    reveal_strlit("=");
    reveal_strlit("device_id");
    reveal_strlit("state");
    reveal_strlit("fingerprint");
    reveal_strlit("version");
    reveal_strlit("ok");
    reveal_strlit("GWRESP PROVISION device_id=");
    reveal_strlit(" state=");
    reveal_strlit(" fingerprint=");
    reveal_strlit(" version=");
    reveal_strlit(" ok=");
    let ws = provision_words(device_id, state, fingerprint, version, ok);
    reveal_with_fuel(spaced, 8);
    assert(spaced(ws.skip(6)) == ws[6]);
    assert(ws.skip(6) == ws.skip(5).drop_first());
    assert(ws.skip(5) == ws.skip(4).drop_first());
    assert(ws.skip(4) == ws.skip(3).drop_first());
    assert(ws.skip(3) == ws.skip(2).drop_first());
    assert(ws.skip(2) == ws.skip(1).drop_first());
    assert(ws.skip(1) == ws.drop_first());
    let line = reply_line(GwMsgView::ProvisionResp { device_id, state, fingerprint, version, ok }).unwrap();
    let fp = fingerprint_text(fingerprint);
    let vd = dec(version as nat);
    assert(line =~= "GWRESP"@ + " "@ + ("PROVISION"@ + " "@ + ("device_id"@ + "="@ + device_id + " "@ + ("state"@ + "="@
        + state + " "@ + ("fingerprint"@ + "="@ + fp + " "@ + ("version"@ + "="@ + vd + " "@ + ("ok"@ + "="@ + bool_text(
        ok,
    ))))))));
}

#[verifier::rlimit(40)]
proof fn lemma_provision_kv(device_id: Seq<char>, state: Seq<char>, fingerprint: Seq<char>, version: u32, ok: bool)
    ensures
        kv_pairs(provision_words(device_id, state, fingerprint, version, ok).skip(2)) == provision_kv(
            device_id,
            state,
            fingerprint,
            version,
            ok,
        ),
{
    lemma_literal_words();
    let ws = provision_words(device_id, state, fingerprint, version, ok);
    let e = Seq::<Seq<char>>::empty();
    lemma_kv_word(e, "device_id"@, device_id);
    lemma_kv_word(e.push(ws[2]), "state"@, state);
    lemma_kv_word(e.push(ws[2]).push(ws[3]), "fingerprint"@, fingerprint_text(fingerprint));
    lemma_kv_word(e.push(ws[2]).push(ws[3]).push(ws[4]), "version"@, dec(version as nat));
    lemma_kv_word(e.push(ws[2]).push(ws[3]).push(ws[4]).push(ws[5]), "ok"@, bool_text(ok));
    assert(ws.skip(2) =~= e.push(ws[2]).push(ws[3]).push(ws[4]).push(ws[5]).push(ws[6]));
    assert(kv_pairs(e) =~= Seq::<(Seq<char>, Seq<char>)>::empty());
}

/// The host's reading of a provisioning reply printed by the node: the
/// device registry is updated from the reported pairs exactly as the
/// hardware backend records a reported device (`with_device`). The id, state
/// and fingerprint are single words, as the line format needs.
pub proof fn law_provision_reply_read_back(
    s: SnapshotView,
    device_id: Seq<char>,
    state: Seq<char>,
    fingerprint: Seq<char>,
    version: u32,
    ok: bool,
)
    requires
        forall|k: int| 0 <= k < device_id.len() ==> !is_ws(#[trigger] device_id[k]),
        forall|k: int| 0 <= k < state.len() ==> !is_ws(#[trigger] state[k]),
        forall|k: int| 0 <= k < fingerprint.len() ==> !is_ws(#[trigger] fingerprint[k]),
    ensures
        ({
            let t = after_line(s, reply_line(GwMsgView::ProvisionResp { device_id, state, fingerprint, version, ok }).unwrap());
            &&& t.devices == with_device(s, device_id, provision_kv(device_id, state, fingerprint, version, ok)).devices
            &&& t.oids == s.oids
            &&& t.free_heap_bytes == s.free_heap_bytes
        }),
{
    lemma_provision_line(device_id, state, fingerprint, version, ok);
    lemma_provision_kv(device_id, state, fingerprint, version, ok);
    lemma_literal_words();
    reveal_strlit("<none>");
    let ws = provision_words(device_id, state, fingerprint, version, ok);
    let fp = fingerprint_text(fingerprint);
    assert forall|k: int| 0 <= k < fp.len() implies !is_ws(#[trigger] fp[k]) by {}
    lemma_dec_word(version as nat);
    lemma_pair_word("device_id"@, device_id);
    lemma_pair_word("state"@, state);
    lemma_pair_word("fingerprint"@, fp);
    lemma_pair_word("version"@, dec(version as nat));
    lemma_pair_word("ok"@, bool_text(ok));
    assert forall|k: int| 0 <= k < ws.len() implies is_word(#[trigger] ws[k]) by {}
    lemma_words_spaced(ws);
    reveal_strlit("GWRESP");
    reveal_strlit("HEALTH");
    reveal_strlit("TOGGLE");
    reveal_strlit("SNMP");
    reveal_strlit("PROVISION");
    reveal_strlit("device_id");
    reveal_strlit("state");
    reveal_strlit("fingerprint");
    reveal_strlit("version");
    reveal_strlit("ok");
    let kv = provision_kv(device_id, state, fingerprint, version, ok);
    assert("ok"@.len() != "device_id"@.len());
    assert("version"@.len() != "device_id"@.len());
    assert("fingerprint"@.len() != "device_id"@.len());
    assert("state"@.len() != "device_id"@.len());
    reveal_with_fuel(kv_get, 6);
    assert(kv_get(kv, "device_id"@) == Some(device_id));
    assert("PROVISION"@.len() != "HEALTH"@.len());
    assert("PROVISION"@.len() != "TOGGLE"@.len());
    assert("PROVISION"@.len() != "SNMP"@.len());
}

/// A reported device identity is recorded once per id: a report whose state
/// is not `pending`, `active` or `revoked` (a refused request answered as
/// `unknown`) leaves the table unchanged; otherwise afterwards exactly the
/// device with that id has the reported state and version, a new id is
/// appended, and ids stay unique.
pub proof fn law_upsert_device(s: SnapshotView, device_id: Seq<char>, kv: Seq<(Seq<char>, Seq<char>)>)
    ensures
        ({
            let t = with_device(s, device_id, kv);
            let version: u32 = match kv_u32_value(kv, "version"@) {
                Some(v) => v,
                None => 0,
            };
            &&& reported_state(kv_get(kv, "state"@)) is None ==> t == s
            &&& reported_state(kv_get(kv, "state"@)) matches Some(st) ==> {
                let i = device_index(t.devices, device_id);
                &&& i >= 0
                &&& t.devices[i].state == st
                &&& t.devices[i].credential_version == version
                &&& t.devices.len() == s.devices.len() + (if device_index(s.devices, device_id) >= 0 { 0int } else { 1int })
                &&& ids_distinct(s.devices) ==> ids_distinct(t.devices)
            }
        }),
{
    let t = with_device(s, device_id, kv);
    lemma_device_index_bounds(s.devices, device_id);
    if reported_state(kv_get(kv, "state"@)) is Some {
        let j = device_index(s.devices, device_id);
        if j >= 0 {
            lemma_device_index_update(s.devices, device_id, j, t.devices[j]);
            assert(t.devices == s.devices.update(j, t.devices[j]));
            if ids_distinct(s.devices) {
                assert forall|a: int, b: int| 0 <= a < b < t.devices.len() implies (#[trigger] t.devices[a]).device_id
                    != (#[trigger] t.devices[b]).device_id by {
                    assert(t.devices[a].device_id == s.devices[a].device_id);
                    assert(t.devices[b].device_id == s.devices[b].device_id);
                }
            }
        } else {
            lemma_device_index_bounds(t.devices, device_id);
            assert forall|k: int| 0 <= k < t.devices.len() - 1 implies (#[trigger] t.devices[k]).device_id != device_id by {
                assert(t.devices[k] == s.devices[k]);
            }
            assert(t.devices.drop_last() =~= s.devices);
            assert(device_index(t.devices, device_id) == t.devices.len() - 1);
            if ids_distinct(s.devices) {
                assert forall|a: int, b: int| 0 <= a < b < t.devices.len() implies (#[trigger] t.devices[a]).device_id
                    != (#[trigger] t.devices[b]).device_id by {
                    assert(t.devices[a] == s.devices[a]);
                    if b < s.devices.len() {
                        assert(t.devices[b] == s.devices[b]);
                    }
                }
            }
        }
    }
}

/// A reported fingerprint replaces the recorded one: when the state is one
/// of `pending`, `active` or `revoked` and a fingerprint other than `<none>`
/// is reported, the device of that id afterwards holds exactly that
/// fingerprint, whether it was known before or not; with no fingerprint
/// reported a known device keeps its own.
pub proof fn law_upsert_reported_fingerprint(s: SnapshotView, device_id: Seq<char>, kv: Seq<(Seq<char>, Seq<char>)>)
    requires
        reported_state(kv_get(kv, "state"@)) is Some,
    ensures
        ({
            let t = with_device(s, device_id, kv);
            let i = device_index(t.devices, device_id);
            &&& i >= 0
            &&& kv_get(kv, "fingerprint"@) matches Some(f) ==> (f.len() > 0 && f != "<none>"@
                ==> t.devices[i].credential_fingerprint == f)
            &&& kv_get(kv, "fingerprint"@) is None && device_index(s.devices, device_id) >= 0 ==> t.devices[i].credential_fingerprint
                == s.devices[device_index(s.devices, device_id)].credential_fingerprint
        }),
{
    law_upsert_device(s, device_id, kv);
    let t = with_device(s, device_id, kv);
    let j = device_index(s.devices, device_id);
    lemma_device_index_bounds(s.devices, device_id);
    reveal_strlit("<none>");
    if j >= 0 {
        lemma_device_index_update(s.devices, device_id, j, t.devices[j]);
        assert(t.devices == s.devices.update(j, t.devices[j]));
        assert(device_index(t.devices, device_id) == j);
    } else {
        assert forall|k: int| 0 <= k < t.devices.len() - 1 implies (#[trigger] t.devices[k]).device_id != device_id by {
            assert(t.devices[k] == s.devices[k]);
        }
        assert(t.devices.drop_last() =~= s.devices);
        assert(device_index(t.devices, device_id) == t.devices.len() - 1);
    }
}

/// A device first reported with a known state is appended under its id with
/// the reported MAC (empty when none is reported), and the devices before it
/// are kept as they were.
pub proof fn law_upsert_new_device(s: SnapshotView, device_id: Seq<char>, kv: Seq<(Seq<char>, Seq<char>)>)
    requires
        reported_state(kv_get(kv, "state"@)) is Some,
        device_index(s.devices, device_id) < 0,
    ensures
        ({
            let t = with_device(s, device_id, kv);
            &&& t.devices.drop_last() == s.devices
            &&& t.devices.last().device_id == device_id
            &&& t.devices.last().mac == (match kv_get(kv, "mac"@) {
                Some(m) => m,
                None => Seq::empty(),
            })
        }),
{
    let t = with_device(s, device_id, kv);
    assert(t.devices.drop_last() =~= s.devices);
}

} // verus!
