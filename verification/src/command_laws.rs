//! What the S3 node makes of the command lines the hardware backend sends:
//! every dashboard command with a hardware line is relayed to the gateway as
//! the matching gateway-link request.

use vstd::prelude::*;

use crate::device_gateway::{ActionView, DeviceGatewayState};
use crate::gateway::{
    device_index, fingerprint, lemma_device_index_bounds, DeviceView, GatewayCommand, ProvisioningState, SnapshotView,
};
use crate::gwlink::{GwMsg, GwMsgView};
use crate::hw_backend::{after_line, command_line_text, kv_get, kv_u32_value, reported_state, with_oid};
use crate::hw_laws::{
    fingerprint_text, law_provision_reply_read_back, law_snmp_reply_read_back, lemma_dec_word, provision_kv, snmp_value_text,
};
use crate::sim_node::{
    comma_fields, field_or_empty, find_char, is_ws, node_command, reply_line, split_from, trim, trim_end, trim_start,
    NodeCommandView,
};
use crate::text::{dec, hex_char, hex_fixed};

verus! {

/// Fields joined by commas.
pub open spec fn joined(fs: Seq<Seq<char>>) -> Seq<char>
    decreases fs.len(),
{
    if fs.len() <= 1 {
        if fs.len() == 1 { fs[0] } else { Seq::empty() }
    } else {
        fs[0] + ","@ + joined(fs.drop_first())
    }
}

/// Whether `w` holds no comma.
pub open spec fn no_comma(w: Seq<char>) -> bool {
    forall|k: int| 0 <= k < w.len() ==> #[trigger] w[k] != ','
}

proof fn lemma_find_char_at(s: Seq<char>, c: char, from: int, j: int)
    requires
        0 <= from <= j <= s.len(),
        forall|k: int| from <= k < j ==> #[trigger] s[k] != c,
        j < s.len() ==> s[j] == c,
    ensures
        find_char(s, c, from) == j,
    decreases j - from,
{
    if from < j {
        lemma_find_char_at(s, c, from + 1, j);
    }
}

proof fn lemma_find_char_skip(s: Seq<char>, c: char, i: int, from: int)
    requires
        0 <= i <= from <= s.len(),
    ensures
        find_char(s, c, from) == i + find_char(s.skip(i), c, from - i),
    decreases s.len() - from,
{
    if from < s.len() {
        assert(s.skip(i)[from - i] == s[from]);
        if s[from] != c {
            lemma_find_char_skip(s, c, i, from + 1);
        }
    }
}

proof fn lemma_find_char_bounds(s: Seq<char>, c: char, from: int)
    requires
        0 <= from <= s.len(),
    ensures
        from <= find_char(s, c, from) <= s.len(),
    decreases s.len() - from,
{
    if from < s.len() && s[from] != c {
        lemma_find_char_bounds(s, c, from + 1);
    }
}

proof fn lemma_split_skip(s: Seq<char>, c: char, i: int, from: int)
    requires
        0 <= i <= from <= s.len(),
    ensures
        split_from(s, c, from) == split_from(s.skip(i), c, from - i),
    decreases s.len() - from,
{
    lemma_find_char_skip(s, c, i, from);
    lemma_find_char_bounds(s, c, from);
    let k = find_char(s, c, from);
    assert(s.skip(i).subrange(from - i, k - i) =~= s.subrange(from, k));
    assert(s.skip(i).subrange(from - i, s.skip(i).len() as int) =~= s.subrange(from, s.len() as int));
    if k < s.len() {
        lemma_split_skip(s, c, i, k + 1);
    }
}

/// Comma-free fields joined by commas split back into those fields.
pub proof fn lemma_comma_fields_joined(fs: Seq<Seq<char>>)
    requires
        fs.len() >= 1,
        forall|k: int| 0 <= k < fs.len() ==> no_comma(#[trigger] fs[k]),
    ensures
        comma_fields(joined(fs)) == fs,
    decreases fs.len(),
{
    reveal_strlit(",");
    let w = fs[0];
    assert(no_comma(w));
    let s = joined(fs);
    let n = w.len() as int;
    if fs.len() == 1 {
        lemma_find_char_at(s, ',', 0, n);
        assert(s.subrange(0, n) =~= w);
        assert(comma_fields(s) =~= fs);
    } else {
        let rest = fs.drop_first();
        assert forall|k: int| 0 <= k < rest.len() implies no_comma(#[trigger] rest[k]) by {
            assert(rest[k] == fs[k + 1]);
        }
        lemma_comma_fields_joined(rest);
        assert(s == w + ","@ + joined(rest));
        assert forall|k: int| 0 <= k < n implies #[trigger] s[k] != ',' by {
            assert(s[k] == w[k]);
        }
        assert(s[n] == ',');
        lemma_find_char_at(s, ',', 0, n);
        assert(s.subrange(0, n) =~= w);
        lemma_split_skip(s, ',', n + 1, n + 1);
        assert(s.skip(n + 1) =~= joined(rest));
        assert(split_from(s, ',', n + 1) == rest);
        assert(comma_fields(s) == seq![w] + rest);
        assert(seq![w] + rest =~= fs);
    }
}

/// A line that starts and ends with a non-white-space character is its own
/// trim.
proof fn lemma_trim_same(s: Seq<char>)
    requires
        s.len() > 0,
        !is_ws(s[0]),
        !is_ws(s.last()),
    ensures
        trim(s) == s,
{
    assert(trim_start(s) == s);
    assert(trim_end(s) == s);
}

proof fn lemma_joined_ends(fs: Seq<Seq<char>>)
    requires
        fs.len() >= 2,
    ensures
        joined(fs).len() > 0,
        joined(fs)[0] == (if fs[0].len() > 0 { fs[0][0] } else { ',' }),
        joined(fs).last() == (if fs.last().len() > 0 { fs.last().last() } else { ',' }),
    decreases fs.len(),
{
    reveal_strlit(",");
    let rest = fs.drop_first();
    let s = joined(fs);
    assert(s == fs[0] + ","@ + joined(rest));
    if rest.len() >= 2 {
        lemma_joined_ends(rest);
        assert(rest.last() == fs.last());
    } else {
        assert(joined(rest) == fs.last());
    }
}

/// A command line `GW,<op>[,<arg>...]` with comma-free arguments, whose last
/// character is not white space, is split by the node into exactly those
/// fields.
proof fn lemma_line_fields(op: Seq<char>, args: Seq<Seq<char>>)
    requires
        op.len() > 0,
        no_comma(op),
        !is_ws(op.last()),
        forall|k: int| 0 <= k < args.len() ==> no_comma(#[trigger] args[k]),
        args.len() > 0 ==> (args.last().len() == 0 || !is_ws(args.last().last())),
    ensures
        comma_fields(trim(joined(seq!["GW"@, op] + args))) == seq!["GW"@, op] + args,
{
    reveal_strlit("GW");
    let fs = seq!["GW"@, op] + args;
    assert(fs[0] == "GW"@ && fs[1] == op);
    assert forall|k: int| 0 <= k < fs.len() implies no_comma(#[trigger] fs[k]) by {
        if k >= 2 {
            assert(fs[k] == args[k - 2]);
        }
    }
    lemma_joined_ends(fs);
    if args.len() > 0 {
        assert(fs.last() == args.last());
    } else {
        assert(fs.last() == op);
    }
    lemma_trim_same(joined(fs));
    lemma_comma_fields_joined(fs);
}

proof fn lemma_ops()
    ensures
        "HEALTH"@ != "TOGGLE"@,
        "HEALTH"@ != "DEAUTH"@,
        "HEALTH"@ != "STALIST"@,
        "HEALTH"@ != "SNMP_SET"@,
        "HEALTH"@ != "SNMP_GET"@,
        "HEALTH"@ != "ENROLL"@,
        "HEALTH"@ != "CLAIM"@,
        "HEALTH"@ != "ROTATE"@,
        "HEALTH"@ != "REVOKE"@,
        "TOGGLE"@ != "DEAUTH"@,
        "TOGGLE"@ != "STALIST"@,
        "TOGGLE"@ != "SNMP_SET"@,
        "TOGGLE"@ != "SNMP_GET"@,
        "TOGGLE"@ != "ENROLL"@,
        "TOGGLE"@ != "CLAIM"@,
        "TOGGLE"@ != "ROTATE"@,
        "TOGGLE"@ != "REVOKE"@,
        "DEAUTH"@ != "STALIST"@,
        "DEAUTH"@ != "SNMP_SET"@,
        "DEAUTH"@ != "SNMP_GET"@,
        "DEAUTH"@ != "ENROLL"@,
        "DEAUTH"@ != "CLAIM"@,
        "DEAUTH"@ != "ROTATE"@,
        "DEAUTH"@ != "REVOKE"@,
        "STALIST"@ != "SNMP_SET"@,
        "STALIST"@ != "SNMP_GET"@,
        "STALIST"@ != "ENROLL"@,
        "STALIST"@ != "CLAIM"@,
        "STALIST"@ != "ROTATE"@,
        "STALIST"@ != "REVOKE"@,
        "SNMP_SET"@ != "SNMP_GET"@,
        "SNMP_SET"@ != "ENROLL"@,
        "SNMP_SET"@ != "CLAIM"@,
        "SNMP_SET"@ != "ROTATE"@,
        "SNMP_SET"@ != "REVOKE"@,
        "SNMP_GET"@ != "ENROLL"@,
        "SNMP_GET"@ != "CLAIM"@,
        "SNMP_GET"@ != "ROTATE"@,
        "SNMP_GET"@ != "REVOKE"@,
        "ENROLL"@ != "CLAIM"@,
        "ENROLL"@ != "ROTATE"@,
        "ENROLL"@ != "REVOKE"@,
        "CLAIM"@ != "ROTATE"@,
        "CLAIM"@ != "REVOKE"@,
        "ROTATE"@ != "REVOKE"@,
        no_comma("HEALTH"@),
        "HEALTH"@.len() > 0,
        !is_ws("HEALTH"@.last()),
        no_comma("TOGGLE"@),
        "TOGGLE"@.len() > 0,
        !is_ws("TOGGLE"@.last()),
        no_comma("DEAUTH"@),
        "DEAUTH"@.len() > 0,
        !is_ws("DEAUTH"@.last()),
        no_comma("STALIST"@),
        "STALIST"@.len() > 0,
        !is_ws("STALIST"@.last()),
        no_comma("SNMP_SET"@),
        "SNMP_SET"@.len() > 0,
        !is_ws("SNMP_SET"@.last()),
        no_comma("SNMP_GET"@),
        "SNMP_GET"@.len() > 0,
        !is_ws("SNMP_GET"@.last()),
        no_comma("ENROLL"@),
        "ENROLL"@.len() > 0,
        !is_ws("ENROLL"@.last()),
        no_comma("CLAIM"@),
        "CLAIM"@.len() > 0,
        !is_ws("CLAIM"@.last()),
        no_comma("ROTATE"@),
        "ROTATE"@.len() > 0,
        !is_ws("ROTATE"@.last()),
        no_comma("REVOKE"@),
        "REVOKE"@.len() > 0,
        !is_ws("REVOKE"@.last()),
        "GW"@ != "SIM"@,
{
    reveal_strlit("HEALTH");
    reveal_strlit("TOGGLE");
    reveal_strlit("DEAUTH");
    reveal_strlit("STALIST");
    reveal_strlit("SNMP_SET");
    reveal_strlit("SNMP_GET");
    reveal_strlit("ENROLL");
    reveal_strlit("CLAIM");
    reveal_strlit("ROTATE");
    reveal_strlit("REVOKE");
    reveal_strlit("GW");
    reveal_strlit("SIM");
    assert("GW"@.len() != "SIM"@.len());
    assert("HEALTH"@[0] != "TOGGLE"@[0]);
    assert("HEALTH"@[0] != "DEAUTH"@[0]);
    assert("HEALTH"@.len() != "STALIST"@.len());
    assert("HEALTH"@.len() != "SNMP_SET"@.len());
    assert("HEALTH"@.len() != "SNMP_GET"@.len());
    assert("HEALTH"@[0] != "ENROLL"@[0]);
    assert("HEALTH"@.len() != "CLAIM"@.len());
    assert("HEALTH"@[0] != "ROTATE"@[0]);
    assert("HEALTH"@[0] != "REVOKE"@[0]);
    assert("TOGGLE"@[0] != "DEAUTH"@[0]);
    assert("TOGGLE"@.len() != "STALIST"@.len());
    assert("TOGGLE"@.len() != "SNMP_SET"@.len());
    assert("TOGGLE"@.len() != "SNMP_GET"@.len());
    assert("TOGGLE"@[0] != "ENROLL"@[0]);
    assert("TOGGLE"@.len() != "CLAIM"@.len());
    assert("TOGGLE"@[0] != "ROTATE"@[0]);
    assert("TOGGLE"@[0] != "REVOKE"@[0]);
    assert("DEAUTH"@.len() != "STALIST"@.len());
    assert("DEAUTH"@.len() != "SNMP_SET"@.len());
    assert("DEAUTH"@.len() != "SNMP_GET"@.len());
    assert("DEAUTH"@[0] != "ENROLL"@[0]);
    assert("DEAUTH"@.len() != "CLAIM"@.len());
    assert("DEAUTH"@[0] != "ROTATE"@[0]);
    assert("DEAUTH"@[0] != "REVOKE"@[0]);
    assert("STALIST"@.len() != "SNMP_SET"@.len());
    assert("STALIST"@.len() != "SNMP_GET"@.len());
    assert("STALIST"@.len() != "ENROLL"@.len());
    assert("STALIST"@.len() != "CLAIM"@.len());
    assert("STALIST"@.len() != "ROTATE"@.len());
    assert("STALIST"@.len() != "REVOKE"@.len());
    assert("SNMP_SET"@[5] != "SNMP_GET"@[5]);
    assert("SNMP_SET"@.len() != "ENROLL"@.len());
    assert("SNMP_SET"@.len() != "CLAIM"@.len());
    assert("SNMP_SET"@.len() != "ROTATE"@.len());
    assert("SNMP_SET"@.len() != "REVOKE"@.len());
    assert("SNMP_GET"@.len() != "ENROLL"@.len());
    assert("SNMP_GET"@.len() != "CLAIM"@.len());
    assert("SNMP_GET"@.len() != "ROTATE"@.len());
    assert("SNMP_GET"@.len() != "REVOKE"@.len());
    assert("ENROLL"@.len() != "CLAIM"@.len());
    assert("ENROLL"@[0] != "ROTATE"@[0]);
    assert("ENROLL"@[0] != "REVOKE"@[0]);
    assert("CLAIM"@.len() != "ROTATE"@.len());
    assert("CLAIM"@.len() != "REVOKE"@.len());
    assert("ROTATE"@[1] != "REVOKE"@[1]);
}

/// The gateway-link request the node relays for a dashboard command that
/// has a hardware line.
pub open spec fn relayed_request(cmd: GatewayCommand) -> Option<GwMsgView> {
    match cmd {
        GatewayCommand::NetToggleDownstream => Some(GwMsgView::ToggleReq),
        GatewayCommand::SnmpSet { oid, value } => Some(GwMsgView::SnmpSetReq { oid: oid@, value: value@ }),
        GatewayCommand::SnmpGet { oid } => Some(GwMsgView::SnmpGetReq { oid: oid@ }),
        GatewayCommand::DeauthSta { .. } => Some(GwMsgView::DeauthReq),
        GatewayCommand::SysHealth => Some(GwMsgView::HealthReq),
        GatewayCommand::StaList => Some(GwMsgView::StaListReq),
        GatewayCommand::EnrollDevice { device_id, mac } => Some(GwMsgView::EnrollReq { device_id: device_id@, mac: mac@ }),
        GatewayCommand::ClaimDevice { device_id } => Some(GwMsgView::ClaimReq { device_id: device_id@ }),
        GatewayCommand::RotateCredential { device_id } => Some(GwMsgView::RotateReq { device_id: device_id@ }),
        GatewayCommand::RevokeDevice { device_id } => Some(GwMsgView::RevokeReq { device_id: device_id@ }),
        GatewayCommand::RegisterNode { .. } => None,
    }
}

/// The operation and the text arguments of a command's hardware line.
pub open spec fn line_parts(cmd: GatewayCommand) -> (Seq<char>, Seq<Seq<char>>) {
    match cmd {
        GatewayCommand::NetToggleDownstream => ("TOGGLE"@, Seq::empty()),
        GatewayCommand::SnmpSet { oid, value } => ("SNMP_SET"@, seq![oid@, value@]),
        GatewayCommand::SnmpGet { oid } => ("SNMP_GET"@, seq![oid@]),
        GatewayCommand::DeauthSta { .. } => ("DEAUTH"@, Seq::empty()),
        GatewayCommand::SysHealth => ("HEALTH"@, Seq::empty()),
        GatewayCommand::StaList => ("STALIST"@, Seq::empty()),
        GatewayCommand::EnrollDevice { device_id, mac } => ("ENROLL"@, seq![device_id@, mac@]),
        GatewayCommand::ClaimDevice { device_id } => ("CLAIM"@, seq![device_id@]),
        GatewayCommand::RotateCredential { device_id } => ("ROTATE"@, seq![device_id@]),
        GatewayCommand::RevokeDevice { device_id } => ("REVOKE"@, seq![device_id@]),
        GatewayCommand::RegisterNode { .. } => (Seq::empty(), Seq::empty()),
    }
}

#[verifier::rlimit(40)]
proof fn lemma_line_text(cmd: GatewayCommand)
    requires
        !(cmd is RegisterNode),
    ensures
        command_line_text(cmd) == Some(joined(seq!["GW"@, line_parts(cmd).0] + line_parts(cmd).1)),
{
    reveal_strlit("GW");
    reveal_strlit(",");
    reveal_strlit("TOGGLE");
    reveal_strlit("SNMP_SET");
    reveal_strlit("SNMP_GET");
    reveal_strlit("DEAUTH");
    reveal_strlit("HEALTH");
    reveal_strlit("STALIST");
    reveal_strlit("ENROLL");
    reveal_strlit("CLAIM");
    reveal_strlit("ROTATE");
    reveal_strlit("REVOKE");
    reveal_strlit("GW,TOGGLE");
    reveal_strlit("GW,SNMP_SET,");
    reveal_strlit("GW,SNMP_GET,");
    reveal_strlit("GW,DEAUTH");
    reveal_strlit("GW,HEALTH");
    reveal_strlit("GW,STALIST");
    reveal_strlit("GW,ENROLL,");
    reveal_strlit("GW,CLAIM,");
    reveal_strlit("GW,ROTATE,");
    reveal_strlit("GW,REVOKE,");
    let fs = seq!["GW"@, line_parts(cmd).0] + line_parts(cmd).1;
    reveal_with_fuel(joined, 5);
    if fs.len() == 2 {
        assert(fs.drop_first() =~= seq![fs[1]]);
        assert(command_line_text(cmd).unwrap() =~= joined(fs));
    } else if fs.len() == 3 {
        assert(fs.drop_first() =~= seq![fs[1], fs[2]]);
        assert(fs.drop_first().drop_first() =~= seq![fs[2]]);
        assert(command_line_text(cmd).unwrap() =~= joined(fs));
    } else {
        assert(fs.drop_first() =~= seq![fs[1], fs[2], fs[3]]);
        assert(fs.drop_first().drop_first() =~= seq![fs[2], fs[3]]);
        assert(fs.drop_first().drop_first().drop_first() =~= seq![fs[3]]);
        assert(command_line_text(cmd).unwrap() =~= joined(fs));
    }
}

/// Every dashboard command with a hardware line is relayed by the S3 node to
/// the gateway as the matching request, carrying the command's texts. The
/// texts hold no comma (the field separator), and the line does not end in
/// white space (the node trims each line).
#[verifier::rlimit(60)]
pub proof fn law_command_line_relayed(cmd: GatewayCommand)
    requires
        forall|k: int| 0 <= k < line_parts(cmd).1.len() ==> no_comma(#[trigger] line_parts(cmd).1[k]),
        line_parts(cmd).1.len() > 0 ==> (line_parts(cmd).1.last().len() == 0 || !is_ws(line_parts(cmd).1.last().last())),
    ensures
        match command_line_text(cmd) {
            Some(line) => relayed_request(cmd) matches Some(r) && node_command(line) == NodeCommandView::Gw(r),
            None => relayed_request(cmd) is None,
        },
{
    if !(cmd is RegisterNode) {
        lemma_ops();
        lemma_line_text(cmd);
        let op = line_parts(cmd).0;
        let args = line_parts(cmd).1;
        lemma_line_fields(op, args);
        let fs = seq!["GW"@, op] + args;
        assert(fs[0] == "GW"@ && fs[1] == op);
        assert(args.len() > 0 ==> field_or_empty(fs, 2) == args[0]);
        assert(args.len() > 1 ==> field_or_empty(fs, 3) == args[1]);
    }
}

/// An SNMP set issued from the dashboard in hardware mode goes all the way
/// round: the node relays it as an SNMP set request, the gateway (with its
/// downstream link up) stores the value and acknowledges it, and the host,
/// reading the node's reply line, records the value for the OID. The OID and
/// the value are single words without commas, and the value is not the
/// `<none>` placeholder.
pub proof fn law_hardware_snmp_set_round_trip(dev: DeviceGatewayState, snap: SnapshotView, oid: String, value: String)
    requires
        dev.downstream_online,
        no_comma(oid@),
        no_comma(value@),
        forall|k: int| 0 <= k < oid@.len() ==> !is_ws(#[trigger] oid@[k]),
        forall|k: int| 0 <= k < value@.len() ==> !is_ws(#[trigger] value@[k]),
        value@ != "<none>"@,
    ensures
        ({
            let cmd = GatewayCommand::SnmpSet { oid: oid, value: value };
            let msg = GwMsg::SnmpSetReq { oid: oid, value: value };
            let reply = GwMsgView::SnmpResp { oid: oid@, value: Some(value@), ok: true };
            &&& node_command(command_line_text(cmd).unwrap()) == NodeCommandView::Gw(msg@)
            &&& dev.action(msg) == ActionView::Reply(reply)
            &&& after_line(snap, reply_line(reply).unwrap()).oids == with_oid(snap, oid@, value@).oids
        }),
{
    let cmd = GatewayCommand::SnmpSet { oid: oid, value: value };
    let args = line_parts(cmd).1;
    assert(args == seq![oid@, value@]);
    assert forall|k: int| 0 <= k < args.len() implies no_comma(#[trigger] args[k]) by {}
    if value@.len() > 0 {
        assert(!is_ws(value@[value@.len() - 1]));
    }
    law_command_line_relayed(cmd);
    law_snmp_reply_read_back(snap, oid@, Some(value@), true);
    assert(snmp_value_text(Some(value@)) == value@);
}

proof fn lemma_hex_plain(n: nat, width: nat)
    ensures
        forall|k: int| 0 <= k < hex_fixed(n, width).len() ==> {
            let c = #[trigger] hex_fixed(n, width)[k];
            !is_ws(c) && c != ',' && c != '='
        },
    decreases width,
{
    if width > 0 {
        lemma_hex_plain(n / 16, (width - 1) as nat);
        let h = hex_fixed(n, width);
        let d = n % 16;
        assert(h.last() == hex_char(d));
        assert(d < 16);
        assert forall|k: int| 0 <= k < h.len() implies ({
            let c = #[trigger] h[k];
            !is_ws(c) && c != ',' && c != '='
        }) by {
            if k < h.len() - 1 {
                assert(h[k] == hex_fixed(n / 16, (width - 1) as nat)[k]);
            }
        }
    }
}

/// A credential fingerprint is one word, free of commas and `=`.
proof fn lemma_fingerprint_plain(id: Seq<char>, c: u32)
    ensures
        fingerprint(id, c).len() > 0,
        fingerprint(id, c) != "<none>"@,
        forall|k: int| 0 <= k < fingerprint(id, c).len() ==> !is_ws(#[trigger] fingerprint(id, c)[k]),
{
    reveal_strlit("cred-");
    reveal_strlit("<none>");
    let f = fingerprint(id, c);
    let h = f.skip(5);
    assert(f[0] == 'c');
    assert("<none>"@[0] == '<');
    assert forall|k: int| 0 <= k < f.len() implies !is_ws(#[trigger] f[k]) by {
        if k >= 5 {
            lemma_hex_plain(crate::gateway::fnv1a(vstd::utf8::encode_utf8(id) + crate::gateway::u32_le(c)) as nat, 16);
        }
    }
}

proof fn lemma_enroll_on_device(dev: DeviceGatewayState, device_id: String, mac: String)
    requires
        device_index(dev.devices, device_id@) < 0,
    ensures
        dev.action(GwMsg::EnrollReq { device_id: device_id, mac: mac }) == ActionView::Reply(
            GwMsgView::ProvisionResp {
                device_id: device_id@,
                state: "pending"@,
                fingerprint: fingerprint(device_id@, (dev.credential_counter + 1) as u32),
                version: 1,
                ok: true,
            },
        ),
{
    let msg = GwMsg::EnrollReq { device_id: device_id, mac: mac };
    let t = dev.next(msg);
    lemma_device_index_bounds(dev.devices, device_id@);
    assert(t.devices.drop_last() =~= dev.devices);
    assert(device_index(t.devices, device_id@) == t.devices.len() - 1);
}

#[verifier::rlimit(60)]
proof fn lemma_enroll_on_host(snap: SnapshotView, device_id: Seq<char>, fp: Seq<char>)
    requires
        device_index(snap.devices, device_id) < 0,
        forall|k: int| 0 <= k < device_id.len() ==> !is_ws(#[trigger] device_id[k]),
        forall|k: int| 0 <= k < fp.len() ==> !is_ws(#[trigger] fp[k]),
        fp.len() > 0,
        fp != "<none>"@,
    ensures
        after_line(
            snap,
            reply_line(GwMsgView::ProvisionResp { device_id, state: "pending"@, fingerprint: fp, version: 1, ok: true }).unwrap(),
        ).devices == snap.devices.push(
            DeviceView {
                device_id: device_id,
                mac: Seq::empty(),
                state: ProvisioningState::Pending,
                credential_fingerprint: fp,
                credential_version: 1,
            },
        ),
{
    reveal_strlit("pending");
    assert forall|k: int| 0 <= k < "pending"@.len() implies !is_ws(#[trigger] "pending"@[k]) by {}
    law_provision_reply_read_back(snap, device_id, "pending"@, fp, 1, true);
    let kv = provision_kv(device_id, "pending"@, fp, 1, true);
    assert(fingerprint_text(fp) == fp);
    lemma_dec_word(1);
    reveal_strlit("device_id");
    reveal_strlit("state");
    reveal_strlit("fingerprint");
    reveal_strlit("version");
    reveal_strlit("ok");
    reveal_strlit("mac");
    reveal_strlit("active");
    reveal_strlit("revoked");
    assert("ok"@.len() != "state"@.len());
    assert("version"@.len() != "state"@.len());
    assert("fingerprint"@.len() != "state"@.len());
    assert("ok"@.len() != "fingerprint"@.len());
    assert("version"@.len() != "fingerprint"@.len());
    assert("ok"@.len() != "version"@.len());
    assert("mac"@.len() != "ok"@.len() && "mac"@.len() != "version"@.len() && "mac"@.len() != "fingerprint"@.len());
    assert("mac"@.len() != "state"@.len() && "mac"@.len() != "device_id"@.len());
    reveal_with_fuel(kv_get, 6);
    assert(kv_get(kv, "state"@) == Some("pending"@));
    assert(kv_get(kv, "fingerprint"@) == Some(fp));
    assert(kv_get(kv, "version"@) == Some(dec(1)));
    assert(kv_get(kv, "mac"@) is None);
    assert("pending"@ != "active"@ && "pending"@ != "revoked"@) by {
        assert("pending"@[0] != "active"@[0]);
        assert("pending"@[0] != "revoked"@[0]);
    }
    assert(reported_state(Some("pending"@)) == Some(ProvisioningState::Pending));
    assert(kv_u32_value(kv, "version"@) == Some(1u32));
}

/// Enrolling a new device from the dashboard in hardware mode goes all the
/// way round: the node relays the request, the gateway registers the device
/// as `Pending` with credential version 1 and a fresh fingerprint and says
/// so, and the host, reading the node's reply line, adds that device to its
/// registry (without a MAC, which the reply does not carry). The id and the
/// MAC are single words without commas.
pub proof fn law_hardware_enroll_round_trip(dev: DeviceGatewayState, snap: SnapshotView, device_id: String, mac: String)
    requires
        device_index(dev.devices, device_id@) < 0,
        device_index(snap.devices, device_id@) < 0,
        no_comma(device_id@),
        no_comma(mac@),
        forall|k: int| 0 <= k < device_id@.len() ==> !is_ws(#[trigger] device_id@[k]),
        forall|k: int| 0 <= k < mac@.len() ==> !is_ws(#[trigger] mac@[k]),
    ensures
        ({
            let cmd = GatewayCommand::EnrollDevice { device_id: device_id, mac: mac };
            let msg = GwMsg::EnrollReq { device_id: device_id, mac: mac };
            let fp = fingerprint(device_id@, (dev.credential_counter + 1) as u32);
            let reply = GwMsgView::ProvisionResp { device_id: device_id@, state: "pending"@, fingerprint: fp, version: 1, ok: true };
            &&& node_command(command_line_text(cmd).unwrap()) == NodeCommandView::Gw(msg@)
            &&& dev.action(msg) == ActionView::Reply(reply)
            &&& after_line(snap, reply_line(reply).unwrap()).devices == snap.devices.push(
                DeviceView {
                    device_id: device_id@,
                    mac: Seq::empty(),
                    state: ProvisioningState::Pending,
                    credential_fingerprint: fp,
                    credential_version: 1,
                },
            )
        }),
{
    let cmd = GatewayCommand::EnrollDevice { device_id: device_id, mac: mac };
    let args = line_parts(cmd).1;
    assert(args == seq![device_id@, mac@]);
    assert forall|k: int| 0 <= k < args.len() implies no_comma(#[trigger] args[k]) by {}
    if mac@.len() > 0 {
        assert(!is_ws(mac@[mac@.len() - 1]));
    }
    law_command_line_relayed(cmd);
    lemma_enroll_on_device(dev, device_id, mac);
    let fp = fingerprint(device_id@, (dev.credential_counter + 1) as u32);
    lemma_fingerprint_plain(device_id@, (dev.credential_counter + 1) as u32);
    lemma_enroll_on_host(snap, device_id@, fp);
}

/// `SIM,SEND,<v>` sends a true boolean exactly when `v` is `1` or `true`,
/// for every comma-free `v` that does not end in white space (trailing white
/// space is trimmed from the line first).
pub proof fn law_sim_send_value(v: Seq<char>)
    requires
        no_comma(v),
        v.len() == 0 || !is_ws(v.last()),
    ensures
        node_command("SIM,SEND,"@ + v) == NodeCommandView::SimSend(v == "1"@ || v == "true"@),
{
    reveal_strlit("SIM,SEND,");
    reveal_strlit("SIM");
    reveal_strlit("SEND");
    reveal_strlit("GW");
    reveal_strlit(",");
    let fs = seq!["SIM"@, "SEND"@, v];
    assert(no_comma("SIM"@));
    assert(no_comma("SEND"@));
    assert forall|k: int| 0 <= k < fs.len() implies no_comma(#[trigger] fs[k]) by {
        assert(fs[0] == "SIM"@ && fs[1] == "SEND"@ && fs[2] == v);
    }
    let line = "SIM,SEND,"@ + v;
    assert(joined(fs.drop_first()) == "SEND"@ + ","@ + v) by {
        let r = fs.drop_first();
        assert(r[0] == "SEND"@);
        assert(r.drop_first() =~= seq![v]);
        assert(joined(r.drop_first()) == v);
    }
    assert(joined(fs) =~= line);
    lemma_joined_ends(fs);
    assert(fs.last() == v);
    lemma_trim_same(line);
    lemma_comma_fields_joined(fs);
    assert(comma_fields(trim(line)) == fs);
    assert("SIM"@ != "GW"@) by {
        assert("SIM"@.len() != "GW"@.len());
    }
}

} // verus!
