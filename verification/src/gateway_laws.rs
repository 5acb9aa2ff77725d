//! Properties of the gateway model that span commands.

use vstd::prelude::*;

use crate::gateway::{
    count_online, device_index, lemma_device_index_bounds, has_mac, oid_insert, oid_lookup, oids_sorted, with_online, without_mac,
    GatewayCommand, GatewayState, NodeView, ProvisioningState, HEAP_FLOOR_BYTES, MAX_LOG,
};
use crate::text::{lemma_seq_lt_at, lemma_seq_lt_total, lemma_seq_lt_transitive, same_ignoring_case, seq_lt};

verus! {

/// Toggling the downstream AP twice restores the Wi-Fi mode and the link
/// state; one toggle switches between `ApSta` and `Sta`.
pub proof fn law_toggle_twice_restores(s: GatewayState)
    ensures
        s.step(GatewayCommand::NetToggleDownstream).downstream_online == !s.downstream_online,
        s.step(GatewayCommand::NetToggleDownstream).wifi_mode() != s.wifi_mode(),
        s.step(GatewayCommand::NetToggleDownstream).step(GatewayCommand::NetToggleDownstream).wifi_mode() == s.wifi_mode(),
        s.response(GatewayCommand::NetToggleDownstream).ok,
{
}

pub(crate) proof fn lemma_lookup_after_insert(es: Seq<(Seq<char>, Seq<char>)>, oid: Seq<char>, value: Seq<char>)
    ensures
        oid_lookup(oid_insert(es, oid, value), oid) == Some(value),
    decreases es.len(),
{
    if es.len() > 0 && es[0].0 != oid && !seq_lt(oid, es[0].0) {
        lemma_lookup_after_insert(es.drop_first(), oid, value);
        assert((seq![es[0]] + oid_insert(es.drop_first(), oid, value)).drop_first() =~= oid_insert(es.drop_first(), oid, value));
    } else if es.len() > 0 && es[0].0 == oid {
        assert((seq![(oid, value)] + es.drop_first())[0] == (oid, value));
    } else if es.len() > 0 {
        assert((seq![(oid, value)] + es)[0] == (oid, value));
    }
}

/// A value written with `SnmpSet` while downstream is up is what a
/// following `SnmpGet` of the same OID reads back.
pub proof fn law_snmp_set_then_get(s: GatewayState, oid: String, value: String)
    requires
        s.downstream_online,
    ensures
        ({
            let set = GatewayCommand::SnmpSet { oid: oid, value: value };
            let get = GatewayCommand::SnmpGet { oid: oid };
            let s1 = s.step(set);
            &&& s.response(set).ok
            &&& s1.response(get).ok
            &&& s1.response(get).snmp.unwrap().ok
            &&& s1.response(get).snmp.unwrap().value == Some(value@)
        }),
{
    lemma_lookup_after_insert(s.oids, oid@, value@);
}

/// With the downstream AP severed, SNMP reads and writes fail (both the
/// response and its SNMP part report failure) and the MIB is unchanged.
pub proof fn law_snmp_fails_offline(s: GatewayState, cmd: GatewayCommand)
    requires
        !s.downstream_online,
        cmd is SnmpSet || cmd is SnmpGet,
    ensures
        !s.response(cmd).ok,
        s.response(cmd).snmp is Some,
        !s.response(cmd).snmp.unwrap().ok,
        s.step(cmd).oids == s.oids,
{
}

pub(crate) proof fn lemma_without_mac_none(nodes: Seq<NodeView>, mac: Seq<char>)
    ensures
        !has_mac(without_mac(nodes, mac), mac),
        without_mac(nodes, mac).len() <= nodes.len(),
    decreases nodes.len(),
{
    if nodes.len() > 0 {
        lemma_without_mac_none(nodes.drop_last(), mac);
        let rest = without_mac(nodes.drop_last(), mac);
        if !same_ignoring_case(nodes.last().mac, mac) {
            assert forall|i: int| 0 <= i < rest.push(nodes.last()).len() implies !same_ignoring_case(#[trigger] rest.push(nodes.last())[i].mac, mac) by {
                if i < rest.len() {
                    assert(rest.push(nodes.last())[i] == rest[i]);
                }
            }
        }
    }
}

proof fn lemma_without_mac_fewer(nodes: Seq<NodeView>, mac: Seq<char>)
    requires
        has_mac(nodes, mac),
    ensures
        without_mac(nodes, mac).len() < nodes.len(),
    decreases nodes.len(),
{
    lemma_without_mac_none(nodes.drop_last(), mac);
    if !same_ignoring_case(nodes.last().mac, mac) {
        let i = choose|i: int| 0 <= i < nodes.len() && same_ignoring_case(#[trigger] nodes[i].mac, mac);
        assert(nodes.drop_last()[i] == nodes[i]);
        lemma_without_mac_fewer(nodes.drop_last(), mac);
    }
}

/// Deauthenticating a MAC removes every station with that MAC (ignoring
/// ASCII case); it succeeds exactly when one was connected, and then the
/// station list shrinks.
pub proof fn law_deauth_removes_station(s: GatewayState, mac: String)
    ensures
        ({
            let cmd = GatewayCommand::DeauthSta { mac: mac };
            &&& !has_mac(s.step(cmd).nodes, mac@)
            &&& s.response(cmd).ok == has_mac(s.nodes, mac@)
            &&& s.response(cmd).ok ==> s.step(cmd).nodes.len() < s.nodes.len()
        }),
{
    lemma_without_mac_none(s.nodes, mac@);
    if has_mac(s.nodes, mac@) {
        lemma_without_mac_fewer(s.nodes, mac@);
    }
}

/// Registering a station whose MAC is already joined (ignoring ASCII case)
/// fails and leaves the station list unchanged; a new MAC joins.
pub proof fn law_register_node_idempotent(s: GatewayState, mac: String, ip: String)
    ensures
        ({
            let cmd = GatewayCommand::RegisterNode { mac: mac, ip: ip };
            &&& has_mac(s.nodes, mac@) ==> !s.response(cmd).ok && s.step(cmd).nodes == s.nodes
            &&& !has_mac(s.nodes, mac@) ==> s.response(cmd).ok && has_mac(s.step(cmd).nodes, mac@)
        }),
{
    let cmd = GatewayCommand::RegisterNode { mac: mac, ip: ip };
    if !has_mac(s.nodes, mac@) {
        let n = s.step(cmd).nodes;
        assert(same_ignoring_case(n[n.len() - 1].mac, mac@));
    }
}

/// Every command is counted and consumes heap: the free heap strictly
/// decreases while above the floor and never goes below it; the log keeps at
/// most 20 lines, the newest first.
pub proof fn law_command_accounting(s: GatewayState, cmd: GatewayCommand)
    requires
        s.command_count < u32::MAX,
    ensures
        s.step(cmd).command_count == s.command_count + 1,
        s.free_heap_bytes > HEAP_FLOOR_BYTES ==> s.step(cmd).free_heap_bytes < s.free_heap_bytes,
        s.step(cmd).free_heap_bytes >= HEAP_FLOOR_BYTES,
        s.step(cmd).log.len() <= MAX_LOG,
        s.step(cmd).log.len() > 0,
{
}

proof fn lemma_count_online_none(nodes: Seq<NodeView>)
    ensures
        count_online(with_online(nodes, false)) == 0,
    decreases nodes.len(),
{
    if nodes.len() > 0 {
        lemma_count_online_none(nodes.drop_last());
        assert(with_online(nodes, false).drop_last() =~= with_online(nodes.drop_last(), false));
    }
}

/// While the downstream AP is severed no station counts as connected.
pub proof fn law_no_stations_when_severed(s: GatewayState, cmd: GatewayCommand)
    requires
        !s.step(cmd).downstream_online,
    ensures
        s.step(cmd).snapshot().station_count == 0,
{
}

/// Provisioning lifecycle: enrolling a new id adds a `Pending` device with
/// credential version 1; enrolling a known id is refused and changes no
/// device.
pub proof fn law_enroll(s: GatewayState, device_id: String, mac: String)
    ensures
        ({
            let cmd = GatewayCommand::EnrollDevice { device_id: device_id, mac: mac };
            let t = s.step(cmd);
            &&& device_index(s.devices, device_id@) >= 0 ==> !s.response(cmd).ok && t.devices == s.devices
            &&& device_index(s.devices, device_id@) < 0 ==> {
                &&& s.response(cmd).ok
                &&& t.devices.len() == s.devices.len() + 1
                &&& t.devices.last().device_id == device_id@
                &&& t.devices.last().state == ProvisioningState::Pending
                &&& t.devices.last().credential_version == 1
            }
        }),
{
}

/// Only a `Pending` device can be claimed, and claiming makes it `Active`
/// and onboards its MAC as a station.
#[verifier::rlimit(40)]
pub proof fn law_claim(s: GatewayState, device_id: String)
    ensures
        ({
            let cmd = GatewayCommand::ClaimDevice { device_id: device_id };
            let i = device_index(s.devices, device_id@);
            let t = s.step(cmd);
            &&& s.response(cmd).ok <==> (i >= 0 && s.devices[i].state == ProvisioningState::Pending)
            &&& !s.response(cmd).ok ==> t.devices == s.devices && t.nodes == s.nodes
            &&& s.response(cmd).ok ==> t.devices[i].state == ProvisioningState::Active
                && has_mac(t.nodes, s.devices[i].mac)
        }),
{
    let cmd = GatewayCommand::ClaimDevice { device_id: device_id };
    let i = device_index(s.devices, device_id@);
    lemma_device_index_bounds(s.devices, device_id@);
    if s.response(cmd).ok {
        let t = s.step(cmd);
        let mac = s.devices[i].mac;
        if !has_mac(s.nodes, mac) {
            assert(t.nodes[t.nodes.len() - 1].mac == mac);
            assert(same_ignoring_case(t.nodes[t.nodes.len() - 1].mac, mac));
        } else {
            let k = choose|k: int| 0 <= k < s.nodes.len() && same_ignoring_case(#[trigger] s.nodes[k].mac, mac);
            assert(t.nodes[k] == s.nodes[k]);
        }
    }
}

/// Rotating the credential of a device that is not revoked bumps its
/// credential version by one and keeps its state; a revoked or unknown
/// device cannot rotate and nothing changes.
#[verifier::rlimit(40)]
pub proof fn law_rotate(s: GatewayState, device_id: String)
    requires
        forall|k: int| 0 <= k < s.devices.len() ==> (#[trigger] s.devices[k]).credential_version < u32::MAX,
    ensures
        ({
            let cmd = GatewayCommand::RotateCredential { device_id: device_id };
            let i = device_index(s.devices, device_id@);
            let t = s.step(cmd);
            &&& s.response(cmd).ok <==> (i >= 0 && s.devices[i].state != ProvisioningState::Revoked)
            &&& !s.response(cmd).ok ==> t.devices == s.devices
            &&& s.response(cmd).ok ==> t.devices[i].credential_version == s.devices[i].credential_version + 1
                && t.devices[i].state == s.devices[i].state
        }),
{
    lemma_device_index_bounds(s.devices, device_id@);
}

/// `Revoked` is terminal: a revoked device can be neither claimed, rotated
/// nor revoked again, and such a command changes no device.
pub proof fn law_revoked_is_terminal(s: GatewayState, device_id: String, cmd: GatewayCommand)
    requires
        device_index(s.devices, device_id@) >= 0,
        s.devices[device_index(s.devices, device_id@)].state == ProvisioningState::Revoked,
        cmd == (GatewayCommand::ClaimDevice { device_id: device_id })
            || cmd == (GatewayCommand::RotateCredential { device_id: device_id })
            || cmd == (GatewayCommand::RevokeDevice { device_id: device_id }),
    ensures
        !s.response(cmd).ok,
        s.step(cmd).devices == s.devices,
{
}

/// Revoking a device that is not yet revoked marks it `Revoked` and
/// offboards every station with its MAC.
pub proof fn law_revoke_offboards(s: GatewayState, device_id: String)
    requires
        device_index(s.devices, device_id@) >= 0,
        s.devices[device_index(s.devices, device_id@)].state != ProvisioningState::Revoked,
    ensures
        ({
            let cmd = GatewayCommand::RevokeDevice { device_id: device_id };
            let i = device_index(s.devices, device_id@);
            &&& s.response(cmd).ok
            &&& s.step(cmd).devices[i].state == ProvisioningState::Revoked
            &&& !has_mac(s.step(cmd).nodes, s.devices[i].mac)
        }),
{
    lemma_device_index_bounds(s.devices, device_id@);
    lemma_without_mac_none(s.nodes, s.devices[device_index(s.devices, device_id@)].mac);
}

proof fn lemma_sorted_tail(es: Seq<(Seq<char>, Seq<char>)>)
    requires
        oids_sorted(es),
        es.len() > 0,
    ensures
        oids_sorted(es.drop_first()),
{
    let t = es.drop_first();
    assert forall|i: int, j: int| 0 <= i < j < t.len() implies seq_lt(#[trigger] t[i].0, #[trigger] t[j].0) by {
        assert(t[i] == es[i + 1] && t[j] == es[j + 1]);
    }
}

proof fn lemma_sorted_cons(e: (Seq<char>, Seq<char>), rest: Seq<(Seq<char>, Seq<char>)>)
    requires
        oids_sorted(rest),
        rest.len() > 0 ==> seq_lt(e.0, rest[0].0),
    ensures
        oids_sorted(seq![e] + rest),
{
    let s = seq![e] + rest;
    assert forall|i: int, j: int| 0 <= i < j < s.len() implies seq_lt(#[trigger] s[i].0, #[trigger] s[j].0) by {
        assert(s[j] == rest[j - 1]);
        if i == 0 {
            if j > 1 {
                assert(seq_lt(rest[0].0, rest[j - 1].0));
                lemma_seq_lt_transitive(e.0, rest[0].0, rest[j - 1].0);
            }
        } else {
            assert(s[i] == rest[i - 1]);
        }
    }
}

/// Inserting into a sorted MIB keeps it sorted; the first key afterwards is
/// the inserted one or the first key before.
pub(crate) proof fn lemma_oid_insert_sorted(es: Seq<(Seq<char>, Seq<char>)>, oid: Seq<char>, value: Seq<char>)
    requires
        oids_sorted(es),
    ensures
        oids_sorted(oid_insert(es, oid, value)),
        oid_insert(es, oid, value).len() > 0,
        oid_insert(es, oid, value)[0].0 == oid || (es.len() > 0 && oid_insert(es, oid, value)[0].0 == es[0].0),
    decreases es.len(),
{
    if es.len() == 0 {
        lemma_sorted_cons((oid, value), es);
    } else {
        let rest = es.drop_first();
        lemma_sorted_tail(es);
        if es[0].0 == oid {
            if rest.len() > 0 {
                assert(seq_lt(es[0].0, es[1].0));
            }
            lemma_sorted_cons((oid, value), rest);
        } else if seq_lt(oid, es[0].0) {
            lemma_sorted_cons((oid, value), es);
        } else {
            lemma_seq_lt_total(oid, es[0].0);
            lemma_oid_insert_sorted(rest, oid, value);
            let r = oid_insert(rest, oid, value);
            if r[0].0 != oid {
                assert(seq_lt(es[0].0, es[1].0));
            }
            lemma_sorted_cons(es[0], r);
        }
    }
}

/// The MIB lists its OIDs in strictly increasing order, as an ordered map
/// does, and every command keeps it so.
pub proof fn law_mib_sorted(s: GatewayState, cmd: GatewayCommand)
    requires
        oids_sorted(s.oids),
    ensures
        oids_sorted(s.step(cmd).oids),
{
    match cmd {
        GatewayCommand::SnmpSet { oid, value } => {
            lemma_oid_insert_sorted(s.oids, oid@, value@);
        },
        _ => {},
    }
}

/// The default MIB is sorted.
pub proof fn law_initial_mib_sorted()
    ensures
        oids_sorted(GatewayState::initial().oids),
{
    let a = "1.3.6.1.4.1.custom.isolate"@;
    let b = "1.3.6.1.4.1.custom.relay"@;
    reveal_strlit("1.3.6.1.4.1.custom.isolate");
    reveal_strlit("1.3.6.1.4.1.custom.relay");
    lemma_seq_lt_at(a, b, 19);
    let es = GatewayState::initial().oids;
    assert(es[0].0 == a && es[1].0 == b);
}

} // verus!
