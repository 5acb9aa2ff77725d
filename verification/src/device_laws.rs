//! Properties of the on-device gateway that span requests.

use vstd::prelude::*;

use crate::device_gateway::{device_state_wf, state_text, ActionView, DeviceGatewayState};
use crate::gateway::{
    device_index, fingerprint, lemma_device_index_bounds, oids_sorted, GatewayCommand, GatewayState, ProvisioningState,
};
use crate::gateway_sim::lemma_device_index_update;
use crate::gateway_laws::{lemma_lookup_after_insert, lemma_oid_insert_sorted};
use crate::gwlink::{GwMsg, GwMsgView, WifiMode};

verus! {

/// Two toggle requests restore the gateway exactly; each one flips the link
/// and answers with the new link state and Wi-Fi mode.
pub proof fn law_device_toggle_twice(s: DeviceGatewayState)
    ensures
        s.next(GwMsg::ToggleReq).next(GwMsg::ToggleReq) == s,
        s.next(GwMsg::ToggleReq).downstream_online == !s.downstream_online,
        s.action(GwMsg::ToggleReq) == ActionView::ApplyWifiThenReply(
            GwMsgView::ToggleResp {
                downstream_online: !s.downstream_online,
                wifi_mode: if s.downstream_online { WifiMode::Sta } else { WifiMode::ApSta },
            },
        ),
{
}

/// While the downstream AP is up, a value written with an SNMP set is what a
/// following SNMP get of the same OID reads back; while it is down, the set
/// fails and changes nothing.
pub proof fn law_device_snmp_set_then_get(s: DeviceGatewayState, oid: String, value: String)
    ensures
        ({
            let set = GwMsg::SnmpSetReq { oid: oid, value: value };
            let get = GwMsg::SnmpGetReq { oid: oid };
            &&& s.downstream_online ==> s.next(set).action(get) == ActionView::Reply(
                GwMsgView::SnmpResp { oid: oid@, value: Some(value@), ok: true },
            )
            &&& !s.downstream_online ==> s.next(set) == s && s.action(set) == ActionView::Reply(
                GwMsgView::SnmpResp { oid: oid@, value: None, ok: false },
            )
        }),
{
    lemma_lookup_after_insert(s.oids, oid@, value@);
}

/// Enrolling an id that is already registered is refused and changes
/// nothing; a new id is registered `Pending` with credential version 1.
pub proof fn law_device_enroll(s: DeviceGatewayState, device_id: String, mac: String)
    ensures
        ({
            let msg = GwMsg::EnrollReq { device_id: device_id, mac: mac };
            let t = s.next(msg);
            &&& device_index(s.devices, device_id@) >= 0 ==> t == s && s.action(msg) == ActionView::Reply(
                s.provision_resp(device_id@, false),
            )
            &&& device_index(s.devices, device_id@) < 0 ==> {
                &&& t.devices.len() == s.devices.len() + 1
                &&& t.devices.last().device_id == device_id@
                &&& t.devices.last().state == ProvisioningState::Pending
                &&& t.devices.last().credential_version == 1
                &&& s.action(msg) == ActionView::Reply(t.provision_resp(device_id@, true))
            }
        }),
{
    let msg = GwMsg::EnrollReq { device_id: device_id, mac: mac };
    if device_index(s.devices, device_id@) < 0 {
        let t = s.next(msg);
        lemma_device_index_bounds(t.devices, device_id@);
        assert(t.devices[t.devices.len() - 1].device_id == device_id@);
    }
}

/// `Revoked` is terminal on the device too: a revoked device can be neither
/// claimed, rotated nor revoked again; such a request is refused (its reply
/// reports the device as it stands, with `ok` false) and changes nothing.
pub proof fn law_device_revoked_is_terminal(s: DeviceGatewayState, device_id: String, msg: GwMsg)
    requires
        device_index(s.devices, device_id@) >= 0,
        s.devices[device_index(s.devices, device_id@)].state == ProvisioningState::Revoked,
        msg == (GwMsg::ClaimReq { device_id: device_id }) || msg == (GwMsg::RotateReq { device_id: device_id })
            || msg == (GwMsg::RevokeReq { device_id: device_id }),
    ensures
        s.next(msg) == s,
        s.action(msg) == ActionView::Reply(s.provision_resp(device_id@, false)),
{
}

/// The on-device MIB stays in strictly increasing OID order under every
/// request.
pub proof fn law_device_mib_sorted(s: DeviceGatewayState, msg: GwMsg)
    requires
        oids_sorted(s.oids),
    ensures
        oids_sorted(s.next(msg).oids),
{
    match msg {
        GwMsg::SnmpSetReq { oid, value } => {
            lemma_oid_insert_sorted(s.oids, oid@, value@);
        },
        _ => {},
    }
}

/// A claim, rotate or revoke request for an id that is not registered is
/// answered with state `unknown`, no fingerprint, version 0 and `ok` false,
/// and changes nothing.
pub proof fn law_device_unknown_id(s: DeviceGatewayState, device_id: String, msg: GwMsg)
    requires
        device_index(s.devices, device_id@) < 0,
        msg == (GwMsg::ClaimReq { device_id: device_id }) || msg == (GwMsg::RotateReq { device_id: device_id })
            || msg == (GwMsg::RevokeReq { device_id: device_id }),
    ensures
        s.next(msg) == s,
        s.action(msg) == ActionView::Reply(
            GwMsgView::ProvisionResp {
                device_id: device_id@,
                state: "unknown"@,
                fingerprint: Seq::empty(),
                version: 0,
                ok: false,
            },
        ),
{
}

/// Enrolling answers for the id: a new id is registered and answered as
/// `pending`, with the fingerprint of the next issuance and version 1; a
/// known id is answered with its record as it stands and `ok` false.
pub proof fn law_device_enroll_reply(s: DeviceGatewayState, device_id: String, mac: String)
    ensures
        ({
            let msg = GwMsg::EnrollReq { device_id: device_id, mac: mac };
            let i = device_index(s.devices, device_id@);
            &&& i < 0 ==> s.action(msg) == ActionView::Reply(
                GwMsgView::ProvisionResp {
                    device_id: device_id@,
                    state: "pending"@,
                    fingerprint: fingerprint(device_id@, (s.credential_counter + 1) as u32),
                    version: 1,
                    ok: true,
                },
            )
            &&& i >= 0 ==> s.action(msg) == ActionView::Reply(
                GwMsgView::ProvisionResp {
                    device_id: device_id@,
                    state: state_text(s.devices[i].state),
                    fingerprint: s.devices[i].credential_fingerprint,
                    version: s.devices[i].credential_version,
                    ok: false,
                },
            )
        }),
{
    law_device_enroll(s, device_id, mac);
    let msg = GwMsg::EnrollReq { device_id: device_id, mac: mac };
    let t = s.next(msg);
    lemma_device_index_bounds(s.devices, device_id@);
    if device_index(s.devices, device_id@) < 0 {
        lemma_device_index_bounds(t.devices, device_id@);
        assert forall|k: int| 0 <= k < t.devices.len() - 1 implies (#[trigger] t.devices[k]).device_id != device_id@ by {
            assert(t.devices[k] == s.devices[k]);
        }
        assert(device_index(t.devices, device_id@) == t.devices.len() - 1) by {
            assert(t.devices.drop_last() =~= s.devices);
        }
    }
}

/// Claiming a registered device succeeds exactly when it is `pending`, and
/// then answers it as `active`; either way the reply carries the device's
/// fingerprint and version, which a claim leaves alone.
pub proof fn law_device_claim_reply(s: DeviceGatewayState, device_id: String)
    requires
        device_index(s.devices, device_id@) >= 0,
    ensures
        ({
            let msg = GwMsg::ClaimReq { device_id: device_id };
            let i = device_index(s.devices, device_id@);
            let ok = s.devices[i].state == ProvisioningState::Pending;
            s.action(msg) == ActionView::Reply(
                GwMsgView::ProvisionResp {
                    device_id: device_id@,
                    state: if ok { "active"@ } else { state_text(s.devices[i].state) },
                    fingerprint: s.devices[i].credential_fingerprint,
                    version: s.devices[i].credential_version,
                    ok: ok,
                },
            )
        }),
{
    let i = device_index(s.devices, device_id@);
    lemma_device_index_bounds(s.devices, device_id@);
    if s.devices[i].state == ProvisioningState::Pending {
        lemma_device_index_update(
            s.devices,
            device_id@,
            i,
            crate::gateway::DeviceView { state: ProvisioningState::Active, ..s.devices[i] },
        );
    }
}

/// Rotating a registered device succeeds exactly when it is not revoked, and
/// then answers it with the fingerprint of the next issuance and its version
/// raised by one; a refused rotation answers the record as it stands.
pub proof fn law_device_rotate_reply(s: DeviceGatewayState, device_id: String)
    requires
        device_state_wf(s),
        s.credential_counter < u32::MAX,
        device_index(s.devices, device_id@) >= 0,
    ensures
        ({
            let msg = GwMsg::RotateReq { device_id: device_id };
            let i = device_index(s.devices, device_id@);
            let ok = s.devices[i].state != ProvisioningState::Revoked;
            s.action(msg) == ActionView::Reply(
                GwMsgView::ProvisionResp {
                    device_id: device_id@,
                    state: state_text(s.devices[i].state),
                    fingerprint: if ok {
                        fingerprint(device_id@, (s.credential_counter + 1) as u32)
                    } else {
                        s.devices[i].credential_fingerprint
                    },
                    version: if ok { (s.devices[i].credential_version + 1) as u32 } else { s.devices[i].credential_version },
                    ok: ok,
                },
            )
        }),
{
    let i = device_index(s.devices, device_id@);
    lemma_device_index_bounds(s.devices, device_id@);
    if s.devices[i].state != ProvisioningState::Revoked {
        let c = (s.credential_counter + 1) as u32;
        lemma_device_index_update(
            s.devices,
            device_id@,
            i,
            crate::gateway::DeviceView {
                credential_fingerprint: fingerprint(device_id@, c),
                credential_version: (s.devices[i].credential_version + 1) as u32,
                ..s.devices[i]
            },
        );
    }
}

/// Revoking a registered device succeeds exactly when it is not already
/// revoked; either way the reply answers it as `revoked`, with its
/// fingerprint and version.
pub proof fn law_device_revoke_reply(s: DeviceGatewayState, device_id: String)
    requires
        device_index(s.devices, device_id@) >= 0,
    ensures
        ({
            let msg = GwMsg::RevokeReq { device_id: device_id };
            let i = device_index(s.devices, device_id@);
            s.action(msg) == ActionView::Reply(
                GwMsgView::ProvisionResp {
                    device_id: device_id@,
                    state: "revoked"@,
                    fingerprint: s.devices[i].credential_fingerprint,
                    version: s.devices[i].credential_version,
                    ok: s.devices[i].state != ProvisioningState::Revoked,
                },
            )
        }),
{
    let i = device_index(s.devices, device_id@);
    lemma_device_index_bounds(s.devices, device_id@);
    if s.devices[i].state != ProvisioningState::Revoked {
        lemma_device_index_update(
            s.devices,
            device_id@,
            i,
            crate::gateway::DeviceView { state: ProvisioningState::Revoked, ..s.devices[i] },
        );
    }
}

/// The host simulation and the on-device gateway issue the same credential:
/// enrolling the same new id when both have made the same number of
/// issuances gives the same fingerprint and version on both.
pub proof fn law_fingerprints_agree(
    host: GatewayState,
    board: DeviceGatewayState,
    device_id: String,
    mac: String,
)
    requires
        host.credential_counter == board.credential_counter,
        device_index(host.devices, device_id@) < 0,
        device_index(board.devices, device_id@) < 0,
    ensures
        ({
            let h = host.step(GatewayCommand::EnrollDevice { device_id: device_id, mac: mac }).devices.last();
            let b = board.next(GwMsg::EnrollReq { device_id: device_id, mac: mac }).devices.last();
            &&& h.credential_fingerprint == b.credential_fingerprint
            &&& h.credential_version == b.credential_version
            &&& h.state == b.state
        }),
{
}

/// Rotation issues the same credential on both sides too: rotating the
/// same id, registered and not revoked on both, when both have made the same
/// number of issuances gives the same new fingerprint, and both counters go
/// up by one.
#[verifier::rlimit(40)]
pub proof fn law_rotation_fingerprints_agree(host: GatewayState, board: DeviceGatewayState, device_id: String)
    requires
        host.credential_counter == board.credential_counter,
        host.credential_counter < u32::MAX,
        device_index(host.devices, device_id@) >= 0,
        host.devices[device_index(host.devices, device_id@)].state != ProvisioningState::Revoked,
        device_index(board.devices, device_id@) >= 0,
        board.devices[device_index(board.devices, device_id@)].state != ProvisioningState::Revoked,
    ensures
        ({
            let h = host.step(GatewayCommand::RotateCredential { device_id: device_id });
            let b = board.next(GwMsg::RotateReq { device_id: device_id });
            let ih = device_index(host.devices, device_id@);
            let ib = device_index(board.devices, device_id@);
            &&& h.devices[ih].credential_fingerprint == b.devices[ib].credential_fingerprint
            &&& h.devices[ih].credential_fingerprint == fingerprint(device_id@, (host.credential_counter + 1) as u32)
            &&& h.credential_counter == host.credential_counter + 1
            &&& b.credential_counter == board.credential_counter + 1
        }),
{
    lemma_device_index_bounds(host.devices, device_id@);
    lemma_device_index_bounds(board.devices, device_id@);
}

/// While the downstream AP is down, an SNMP get on the device gateway
/// answers no value and `ok` false whatever the MIB holds, and changes
/// nothing; while it is up, it answers the stored value, `ok` exactly when
/// there is one.
pub proof fn law_device_snmp_get(s: DeviceGatewayState, oid: String)
    ensures
        s.next(GwMsg::SnmpGetReq { oid: oid }) == s,
        !s.downstream_online ==> s.action(GwMsg::SnmpGetReq { oid: oid }) == ActionView::Reply(
            GwMsgView::SnmpResp { oid: oid@, value: None, ok: false },
        ),
        s.downstream_online ==> s.action(GwMsg::SnmpGetReq { oid: oid }) == ActionView::Reply(
            GwMsgView::SnmpResp {
                oid: oid@,
                value: crate::gateway::oid_lookup(s.oids, oid@),
                ok: crate::gateway::oid_lookup(s.oids, oid@) is Some,
            },
        ),
{
}

/// Enrolling a new id on the board records it with the MAC it was given,
/// and only the registry and the credential counter change.
pub proof fn law_device_enroll_records_mac(s: DeviceGatewayState, device_id: String, mac: String)
    requires
        device_index(s.devices, device_id@) < 0,
    ensures
        ({
            let t = s.next(GwMsg::EnrollReq { device_id: device_id, mac: mac });
            &&& t.devices.last().device_id == device_id@
            &&& t.devices.last().mac == mac@
            &&& t.devices.drop_last() == s.devices
            &&& t.credential_counter == (s.credential_counter + 1) as u32
            &&& t.downstream_online == s.downstream_online
            &&& t.oids == s.oids
        }),
{
    let t = s.next(GwMsg::EnrollReq { device_id: device_id, mac: mac });
    assert(t.devices.drop_last() =~= s.devices);
}

} // verus!
