//! What holds of every gateway state reachable from the initial one by
//! applying commands, and what a single failed command leaves alone.

use vstd::prelude::*;

use crate::gateway::{
    command_name, count_online, device_index, fingerprint, has_mac, lemma_device_index_bounds, oids_sorted, with_online, without_mac,
    DeviceView, GatewayCommand, GatewayState, NodeView, WifiMode, HEAP_FLOOR_BYTES, HEAP_PER_COMMAND, HEAP_TOTAL_BYTES,
    MAX_LOG,
};
use crate::gateway_laws::{law_initial_mib_sorted, law_mib_sorted, lemma_without_mac_none};
use crate::gateway_sim::{can_apply, state_wf};
use crate::text::{hex_char, hex_fixed, same_ignoring_case};

verus! {

/// No two stations share a MAC, ignoring ASCII case.
pub open spec fn macs_distinct(nodes: Seq<NodeView>) -> bool {
    forall|i: int, j: int|
        0 <= i < j < nodes.len() ==> !same_ignoring_case(#[trigger] nodes[i].mac, #[trigger] nodes[j].mac)
}

/// No two devices share an id.
pub open spec fn ids_distinct(devices: Seq<DeviceView>) -> bool {
    forall|i: int, j: int|
        0 <= i < j < devices.len() ==> (#[trigger] devices[i]).device_id != (#[trigger] devices[j]).device_id
}

/// Every station's online flag is `online`.
pub open spec fn all_online(nodes: Seq<NodeView>, online: bool) -> bool {
    forall|i: int| 0 <= i < nodes.len() ==> (#[trigger] nodes[i]).online == online
}

/// The part of the invariant that commands keep before they are logged.
pub open spec fn core_inv(s: GatewayState) -> bool {
    &&& state_wf(s)
    &&& all_online(s.nodes, s.downstream_online)
    &&& oids_sorted(s.oids)
    &&& ids_distinct(s.devices)
    &&& macs_distinct(s.nodes)
}

/// What holds of every reachable gateway state: stations are online exactly
/// while downstream is up, the free heap stays between the floor and its
/// initial value, the MIB is sorted, the log holds at most 20 lines, device
/// ids and station MACs are unique, and no device has a credential version
/// above the credential counter.
pub open spec fn reachable_inv(s: GatewayState) -> bool {
    &&& core_inv(s)
    &&& HEAP_FLOOR_BYTES <= s.free_heap_bytes <= HEAP_TOTAL_BYTES - HEAP_PER_COMMAND
    &&& s.log.len() <= MAX_LOG
}

proof fn lemma_without_mac_keeps(nodes: Seq<NodeView>, mac: Seq<char>, online: bool)
    ensures
        all_online(nodes, online) ==> all_online(without_mac(nodes, mac), online),
        forall|x: Seq<char>| #[trigger] has_mac(without_mac(nodes, mac), x) ==> has_mac(nodes, x),
        macs_distinct(nodes) ==> macs_distinct(without_mac(nodes, mac)),
    decreases nodes.len(),
{
    if nodes.len() > 0 {
        let d = nodes.drop_last();
        let last = nodes.last();
        lemma_without_mac_keeps(d, mac, online);
        let rest = without_mac(d, mac);
        assert forall|k: int| 0 <= k < d.len() implies #[trigger] d[k] == nodes[k] by {}
        assert forall|x: Seq<char>| #[trigger] has_mac(without_mac(nodes, mac), x) implies has_mac(nodes, x) by {
            let w = without_mac(nodes, mac);
            let i = choose|i: int| 0 <= i < w.len() && same_ignoring_case(#[trigger] w[i].mac, x);
            if i < rest.len() {
                assert(w[i] == rest[i]);
                assert(has_mac(rest, x));
                let k = choose|k: int| 0 <= k < d.len() && same_ignoring_case(#[trigger] d[k].mac, x);
                assert(nodes[k] == d[k]);
            } else {
                assert(w[i] == last);
                assert(nodes[nodes.len() - 1] == last);
            }
        }
        if all_online(nodes, online) {
            assert(all_online(d, online));
            let w = without_mac(nodes, mac);
            assert forall|i: int| 0 <= i < w.len() implies (#[trigger] w[i]).online == online by {
                if i < rest.len() {
                    assert(w[i] == rest[i]);
                } else {
                    assert(nodes[nodes.len() - 1] == last);
                }
            }
        }
        if macs_distinct(nodes) {
            assert(macs_distinct(d)) by {
                assert forall|i: int, j: int| 0 <= i < j < d.len() implies !same_ignoring_case(
                    #[trigger] d[i].mac,
                    #[trigger] d[j].mac,
                ) by {
                    assert(d[i] == nodes[i] && d[j] == nodes[j]);
                }
            }
            if !same_ignoring_case(last.mac, mac) {
                let w = rest.push(last);
                assert(!has_mac(d, last.mac)) by {
                    if has_mac(d, last.mac) {
                        let k = choose|k: int| 0 <= k < d.len() && same_ignoring_case(#[trigger] d[k].mac, last.mac);
                        assert(nodes[k] == d[k]);
                        assert(nodes[nodes.len() - 1] == last);
                        assert(!same_ignoring_case(nodes[k].mac, nodes[nodes.len() - 1].mac));
                    }
                }
                assert(!has_mac(rest, last.mac));
                assert forall|i: int, j: int| 0 <= i < j < w.len() implies !same_ignoring_case(
                    #[trigger] w[i].mac,
                    #[trigger] w[j].mac,
                ) by {
                    assert(w[i] == rest[i]);
                    if j < rest.len() {
                        assert(w[j] == rest[j]);
                    } else {
                        assert(w[j] == last);
                        if same_ignoring_case(rest[i].mac, last.mac) {
                            assert(has_mac(rest, last.mac));
                        }
                    }
                }
            }
        }
    }
}

proof fn lemma_push_new_mac(nodes: Seq<NodeView>, n: NodeView, online: bool)
    requires
        macs_distinct(nodes),
        all_online(nodes, online),
        !has_mac(nodes, n.mac),
        n.online == online,
    ensures
        macs_distinct(nodes.push(n)),
        all_online(nodes.push(n), online),
{
    let w = nodes.push(n);
    assert forall|i: int, j: int| 0 <= i < j < w.len() implies !same_ignoring_case(
        #[trigger] w[i].mac,
        #[trigger] w[j].mac,
    ) by {
        assert(w[i] == nodes[i]);
        if j < nodes.len() {
            assert(w[j] == nodes[j]);
        } else if same_ignoring_case(nodes[i].mac, n.mac) {
            assert(has_mac(nodes, n.mac));
        }
    }
    assert forall|i: int| 0 <= i < w.len() implies (#[trigger] w[i]).online == online by {
        if i < nodes.len() {
            assert(w[i] == nodes[i]);
        }
    }
}

proof fn lemma_update_keeps_ids(devices: Seq<DeviceView>, i: int, d: DeviceView)
    requires
        ids_distinct(devices),
        0 <= i < devices.len(),
        d.device_id == devices[i].device_id,
    ensures
        ids_distinct(devices.update(i, d)),
{
    let w = devices.update(i, d);
    assert forall|a: int, b: int| 0 <= a < b < w.len() implies (#[trigger] w[a]).device_id != (#[trigger] w[b]).device_id by {
        assert(w[a].device_id == devices[a].device_id);
        assert(w[b].device_id == devices[b].device_id);
    }
}

#[verifier::rlimit(60)]
#[verifier::spinoff_prover]
proof fn lemma_effect_core(s: GatewayState, cmd: GatewayCommand)
    requires
        core_inv(s),
        can_apply(s, cmd),
    ensures
        core_inv(s.effect(cmd).state),
{
    let t = s.effect(cmd).state;
    law_mib_sorted(s, cmd);
    assert(t.oids == s.step(cmd).oids);
    match cmd {
        GatewayCommand::NetToggleDownstream => {
            let n = with_online(s.nodes, !s.downstream_online);
            assert forall|i: int, j: int| 0 <= i < j < n.len() implies !same_ignoring_case(
                #[trigger] n[i].mac,
                #[trigger] n[j].mac,
            ) by {
                assert(n[i].mac == s.nodes[i].mac && n[j].mac == s.nodes[j].mac);
            }
        },
        GatewayCommand::DeauthSta { mac } => {
            lemma_without_mac_keeps(s.nodes, mac@, s.downstream_online);
        },
        GatewayCommand::RegisterNode { mac, ip } => {
            if !has_mac(s.nodes, mac@) {
                lemma_push_new_mac(s.nodes, t.nodes.last(), s.downstream_online);
                assert(t.nodes =~= s.nodes.push(t.nodes.last()));
            }
        },
        GatewayCommand::EnrollDevice { device_id, mac } => {
            lemma_device_index_bounds(s.devices, device_id@);
            if device_index(s.devices, device_id@) < 0 {
                let w = t.devices;
                assert forall|a: int, b: int| 0 <= a < b < w.len() implies (#[trigger] w[a]).device_id
                    != (#[trigger] w[b]).device_id by {
                    assert(w[a] == s.devices[a]);
                    if b < s.devices.len() {
                        assert(w[b] == s.devices[b]);
                    }
                }
                assert forall|a: int| 0 <= a < w.len() implies (#[trigger] w[a]).credential_version
                    <= t.credential_counter by {
                    if a < s.devices.len() {
                        assert(w[a] == s.devices[a]);
                    }
                }
            }
        },
        GatewayCommand::ClaimDevice { device_id } => {
            let i = device_index(s.devices, device_id@);
            lemma_device_index_bounds(s.devices, device_id@);
            if i >= 0 && s.devices[i].state == crate::gateway::ProvisioningState::Pending {
                let d = t.devices[i];
                lemma_update_keeps_ids(s.devices, i, d);
                assert(t.devices == s.devices.update(i, d));
                let mac = s.devices[i].mac;
                if !has_mac(s.nodes, mac) {
                    lemma_push_new_mac(s.nodes, t.nodes.last(), s.downstream_online);
                    assert(t.nodes =~= s.nodes.push(t.nodes.last()));
                }
                assert forall|a: int| 0 <= a < t.devices.len() implies (#[trigger] t.devices[a]).credential_version
                    <= t.credential_counter by {
                    if a != i {
                        assert(t.devices[a] == s.devices[a]);
                    }
                }
            }
        },
        GatewayCommand::RotateCredential { device_id } => {
            let i = device_index(s.devices, device_id@);
            lemma_device_index_bounds(s.devices, device_id@);
            if i >= 0 && s.devices[i].state != crate::gateway::ProvisioningState::Revoked {
                let d = t.devices[i];
                lemma_update_keeps_ids(s.devices, i, d);
                assert(t.devices == s.devices.update(i, d));
                assert(s.devices[i].credential_version <= s.credential_counter);
                assert forall|a: int| 0 <= a < t.devices.len() implies (#[trigger] t.devices[a]).credential_version
                    <= t.credential_counter by {
                    if a != i {
                        assert(t.devices[a] == s.devices[a]);
                    }
                }
            }
        },
        GatewayCommand::RevokeDevice { device_id } => {
            let i = device_index(s.devices, device_id@);
            lemma_device_index_bounds(s.devices, device_id@);
            if i >= 0 && s.devices[i].state != crate::gateway::ProvisioningState::Revoked {
                let d = t.devices[i];
                lemma_update_keeps_ids(s.devices, i, d);
                assert(t.devices == s.devices.update(i, d));
                lemma_without_mac_keeps(s.nodes, s.devices[i].mac, s.downstream_online);
                assert forall|a: int| 0 <= a < t.devices.len() implies (#[trigger] t.devices[a]).credential_version
                    <= t.credential_counter by {
                    if a != i {
                        assert(t.devices[a] == s.devices[a]);
                    }
                }
            }
        },
        _ => {},
    }
}

/// The initial gateway satisfies the invariant of reachable states.
pub proof fn law_initial_reachable_inv()
    ensures
        reachable_inv(GatewayState::initial()),
{
    law_initial_mib_sorted();
}

/// Applying any command that fits the counters to a state that satisfies the
/// invariant gives a state that satisfies it, so every state reachable from
/// the initial one does.
pub proof fn law_step_keeps_inv(s: GatewayState, cmd: GatewayCommand)
    requires
        reachable_inv(s),
        can_apply(s, cmd),
    ensures
        reachable_inv(s.step(cmd)),
{
    lemma_effect_core(s, cmd);
}

proof fn lemma_count_all_online(nodes: Seq<NodeView>)
    requires
        all_online(nodes, true),
    ensures
        count_online(nodes) == nodes.len(),
    decreases nodes.len(),
{
    if nodes.len() > 0 {
        let d = nodes.drop_last();
        assert(all_online(d, true)) by {
            assert forall|i: int| 0 <= i < d.len() implies (#[trigger] d[i]).online == true by {
                assert(d[i] == nodes[i]);
            }
        }
        lemma_count_all_online(d);
    }
}

/// The snapshot of a reachable state: the Wi-Fi mode follows the link, every
/// station is online exactly while downstream is up, all of them count as
/// connected then and none otherwise, the heap is between its floor and its
/// initial value, the MIB is sorted, the log holds at most 20 lines, and
/// device ids and station MACs (ignoring case) are unique.
pub proof fn law_reachable_snapshot(s: GatewayState)
    requires
        reachable_inv(s),
    ensures
        ({
            let v = s.snapshot();
            &&& v.wifi_mode == (if v.downstream_online { WifiMode::ApSta } else { WifiMode::Sta })
            &&& forall|i: int| 0 <= i < v.nodes.len() ==> (#[trigger] v.nodes[i]).online == v.downstream_online
            &&& v.station_count == (if v.downstream_online { v.nodes.len() } else { 0 }) as u32
            &&& HEAP_FLOOR_BYTES <= v.free_heap_bytes <= HEAP_TOTAL_BYTES - HEAP_PER_COMMAND
            &&& oids_sorted(v.oids)
            &&& v.command_log.len() <= MAX_LOG
            &&& ids_distinct(v.devices)
            &&& macs_distinct(v.nodes)
        }),
{
    if s.downstream_online {
        lemma_count_all_online(s.nodes);
    }
}

proof fn lemma_without_absent_mac(nodes: Seq<NodeView>, mac: Seq<char>)
    requires
        !has_mac(nodes, mac),
    ensures
        without_mac(nodes, mac) == nodes,
    decreases nodes.len(),
{
    if nodes.len() > 0 {
        let d = nodes.drop_last();
        assert(!has_mac(d, mac)) by {
            if has_mac(d, mac) {
                let k = choose|k: int| 0 <= k < d.len() && same_ignoring_case(#[trigger] d[k].mac, mac);
                assert(nodes[k] == d[k]);
            }
        }
        lemma_without_absent_mac(d, mac);
        assert(!same_ignoring_case(nodes[nodes.len() - 1].mac, mac));
        assert(d.push(nodes.last()) =~= nodes);
    }
}

/// A command that fails changes nothing but the accounting: the link, the
/// MIB, the stations, the devices and the credential counter stay as they
/// were, and the state is the old one with the command recorded.
pub proof fn law_failed_command_keeps_state(s: GatewayState, cmd: GatewayCommand)
    requires
        !s.response(cmd).ok,
    ensures
        ({
            let t = s.step(cmd);
            let r = s.response(cmd);
            &&& t.downstream_online == s.downstream_online
            &&& t.oids == s.oids
            &&& t.nodes == s.nodes
            &&& t.devices == s.devices
            &&& t.credential_counter == s.credential_counter
            &&& r.command == command_name(cmd)
            &&& t == s.record(command_name(cmd) + ": "@ + r.message)
        }),
{
    match cmd {
        GatewayCommand::DeauthSta { mac } => {
            lemma_without_absent_mac(s.nodes, mac@);
        },
        _ => {},
    }
}

/// Recording a handled command: the command count goes up by one, the free
/// heap drops by 1280 bytes but not below the 40960-byte floor, the line
/// goes first in the log and only the 20 newest lines are kept; nothing else
/// changes.
pub proof fn law_record(s: GatewayState, line: Seq<char>)
    requires
        s.command_count < u32::MAX,
    ensures
        ({
            let t = s.record(line);
            let dropped: int = if s.free_heap_bytes >= HEAP_PER_COMMAND {
                s.free_heap_bytes - HEAP_PER_COMMAND
            } else {
                0
            };
            let kept: int = if s.log.len() < MAX_LOG { s.log.len() as int } else { MAX_LOG - 1 };
            &&& t.command_count == s.command_count + 1
            &&& t.free_heap_bytes == (if dropped >= HEAP_FLOOR_BYTES { dropped } else { HEAP_FLOOR_BYTES as int })
            &&& t.log == seq![line] + s.log.take(kept)
            &&& t.downstream_online == s.downstream_online
            &&& t.oids == s.oids
            &&& t.nodes == s.nodes
            &&& t.devices == s.devices
            &&& t.credential_counter == s.credential_counter
        }),
{
    let t = s.record(line);
    let kept: int = if s.log.len() < MAX_LOG { s.log.len() as int } else { MAX_LOG - 1 };
    assert(t.log =~= seq![line] + s.log.take(kept));
}

proof fn lemma_hex_fixed_shape(n: nat, width: nat)
    ensures
        hex_fixed(n, width).len() == width,
        forall|k: int| 0 <= k < width ==> {
            let c = #[trigger] hex_fixed(n, width)[k];
            ('0' <= c && c <= '9') || ('a' <= c && c <= 'f')
        },
    decreases width,
{
    if width > 0 {
        lemma_hex_fixed_shape(n / 16, (width - 1) as nat);
        let h = hex_fixed(n, width);
        let d = n % 16;
        assert(h.last() == hex_char(d));
        assert forall|k: int| 0 <= k < width implies ({
            let c = #[trigger] h[k];
            ('0' <= c && c <= '9') || ('a' <= c && c <= 'f')
        }) by {
            if k < width - 1 {
                assert(h[k] == hex_fixed(n / 16, (width - 1) as nat)[k]);
            }
        }
    }
}

/// A credential fingerprint is `cred-` followed by 16 lower-case hex digits:
/// 21 characters in all.
pub proof fn law_fingerprint_shape(device_id: Seq<char>, counter: u32)
    ensures
        fingerprint(device_id, counter).len() == 21,
        fingerprint(device_id, counter).take(5) == "cred-"@,
        forall|k: int| 5 <= k < 21 ==> {
            let c = #[trigger] fingerprint(device_id, counter)[k];
            ('0' <= c && c <= '9') || ('a' <= c && c <= 'f')
        },
{
    reveal_strlit("cred-");
    let f = fingerprint(device_id, counter);
    let h = hex_fixed(crate::gateway::fnv1a(vstd::utf8::encode_utf8(device_id) + crate::gateway::u32_le(counter)) as nat, 16);
    lemma_hex_fixed_shape(crate::gateway::fnv1a(vstd::utf8::encode_utf8(device_id) + crate::gateway::u32_le(counter)) as nat, 16);
    assert(f.take(5) =~= "cred-"@);
    assert forall|k: int| 5 <= k < 21 implies ({
        let c = #[trigger] f[k];
        ('0' <= c && c <= '9') || ('a' <= c && c <= 'f')
    }) by {
        assert(f[k] == h[k - 5]);
    }
}

proof fn lemma_enroll_issues(s: GatewayState, device_id: String, mac: String)
    requires
        device_index(s.devices, device_id@) < 0,
    ensures
        ({
            let cmd = GatewayCommand::EnrollDevice { device_id: device_id, mac: mac };
            let t = s.step(cmd);
            let c = (s.credential_counter + 1) as u32;
            &&& s.response(cmd).ok
            &&& t.credential_counter == c
            &&& t.downstream_online == s.downstream_online
            &&& t.oids == s.oids
            &&& t.nodes == s.nodes
            &&& t.devices.len() == s.devices.len() + 1
            &&& t.devices.last().credential_fingerprint == fingerprint(device_id@, c)
        }),
{
}

#[verifier::rlimit(40)]
proof fn lemma_rotate_issues(s: GatewayState, device_id: String)
    requires
        state_wf(s),
        s.credential_counter < u32::MAX,
        device_index(s.devices, device_id@) >= 0,
        s.devices[device_index(s.devices, device_id@)].state != crate::gateway::ProvisioningState::Revoked,
    ensures
        ({
            let cmd = GatewayCommand::RotateCredential { device_id: device_id };
            let t = s.step(cmd);
            let c = (s.credential_counter + 1) as u32;
            let i = device_index(s.devices, device_id@);
            &&& s.response(cmd).ok
            &&& t.credential_counter == c
            &&& t.downstream_online == s.downstream_online
            &&& t.oids == s.oids
            &&& t.nodes == s.nodes
            &&& t.devices.len() == s.devices.len()
            &&& t.devices[i].credential_fingerprint == fingerprint(device_id@, c)
            &&& t.devices[i].credential_version == s.devices[i].credential_version + 1
        }),
{
    lemma_device_index_bounds(s.devices, device_id@);
}

/// Issuing a credential: enrolling a new id, or rotating the credential of a
/// device that is not revoked, succeeds, raises the credential counter by
/// one, and gives the device the fingerprint of its id and the new counter.
pub proof fn law_credential_issue(s: GatewayState, cmd: GatewayCommand)
    requires
        state_wf(s),
        s.issues_credential(cmd),
        s.credential_counter < u32::MAX,
    ensures
        ({
            let t = s.step(cmd);
            let c = (s.credential_counter + 1) as u32;
            &&& s.response(cmd).ok
            &&& t.credential_counter == c
            &&& t.downstream_online == s.downstream_online
            &&& t.oids == s.oids
            &&& t.nodes == s.nodes
            &&& match cmd {
                GatewayCommand::EnrollDevice { device_id, .. } => {
                    &&& t.devices.len() == s.devices.len() + 1
                    &&& t.devices.last().credential_fingerprint == fingerprint(device_id@, c)
                },
                GatewayCommand::RotateCredential { device_id } => {
                    let i = device_index(s.devices, device_id@);
                    &&& t.devices.len() == s.devices.len()
                    &&& t.devices[i].credential_fingerprint == fingerprint(device_id@, c)
                    &&& t.devices[i].credential_version == s.devices[i].credential_version + 1
                },
                _ => false,
            }
        }),
{
    match cmd {
        GatewayCommand::EnrollDevice { device_id, mac } => {
            lemma_enroll_issues(s, device_id, mac);
        },
        GatewayCommand::RotateCredential { device_id } => {
            lemma_rotate_issues(s, device_id);
        },
        _ => {},
    }
}

/// Enrolling a new id records the device under that id with the MAC it was
/// given, and claiming it then onboards a station with that MAC (ignoring
/// ASCII case).
#[verifier::rlimit(60)]
pub proof fn law_enroll_records_mac(s: GatewayState, device_id: String, mac: String)
    requires
        device_index(s.devices, device_id@) < 0,
    ensures
        ({
            let t = s.step(GatewayCommand::EnrollDevice { device_id: device_id, mac: mac });
            let u = t.step(GatewayCommand::ClaimDevice { device_id: device_id });
            &&& t.devices.last().device_id == device_id@
            &&& t.devices.last().mac == mac@
            &&& device_index(t.devices, device_id@) == t.devices.len() - 1
            &&& t.response(GatewayCommand::ClaimDevice { device_id: device_id }).ok
            &&& has_mac(u.nodes, mac@)
        }),
{
    let t = s.step(GatewayCommand::EnrollDevice { device_id: device_id, mac: mac });
    lemma_device_index_bounds(s.devices, device_id@);
    assert forall|k: int| 0 <= k < t.devices.len() - 1 implies (#[trigger] t.devices[k]).device_id != device_id@ by {
        assert(t.devices[k] == s.devices[k]);
    }
    assert(t.devices.drop_last() =~= s.devices);
    assert(device_index(t.devices, device_id@) == t.devices.len() - 1);
    let u = t.step(GatewayCommand::ClaimDevice { device_id: device_id });
    assert(same_ignoring_case(mac@, mac@));
    if !has_mac(t.nodes, mac@) {
        assert(u.nodes[u.nodes.len() - 1].mac == mac@);
    }
}

} // verus!
