//! Decision logic of the on-device ESP32 gateway: it executes gateway-link
//! requests received over ESP-NOW (link toggle, SNMP, provisioning) and says
//! which hardware work a request needs (health readout, deauthentication,
//! station count, Wi-Fi reconfiguration). The firmware performs that work and
//! sends the reply.

use vstd::prelude::*;
use vstd::string::*;

use crate::frame::{Payload, TelemetryFrame};
use crate::gateway::{
    device_index, fingerprint, lemma_device_index_bounds, oid_insert, oid_lookup, DeviceIdentity, DeviceView,
    OidEntry, ProvisioningState,
};
use crate::gateway_sim::{copy_string, credential_fingerprint, mib_insert, mib_lookup};
use crate::gwlink::{GwMsg, GwMsgView, WifiMode};
use crate::text::str_equal;

verus! {

/// What the firmware does for a received gateway-link request.
#[derive(Debug)]
pub enum GatewayAction {
    /// Send this reply.
    Reply(GwMsg),
    /// Apply the new downstream state to the Wi-Fi driver (and re-lock the
    /// ESP-NOW channel), then send this reply.
    ApplyWifiThenReply(GwMsg),
    /// Read free heap, uptime and receive count, and reply with
    /// [`Gateway::health_reply`].
    ReportHealth,
    /// Deauthenticate all downstream stations and reply with [`deauth_reply`].
    Deauthenticate,
    /// Read the AP station list and reply with [`Gateway::sta_list_reply`].
    CountStations,
    /// Not a request (a response arrived inbound): log and drop it.
    Ignore,
}

/// A gateway action, as text.
pub enum ActionView {
    Reply(GwMsgView),
    ApplyWifiThenReply(GwMsgView),
    ReportHealth,
    Deauthenticate,
    CountStations,
    Ignore,
}

impl View for GatewayAction {
    type V = ActionView;

    open spec fn view(&self) -> ActionView {
        match *self {
            GatewayAction::Reply(m) => ActionView::Reply(m@),
            GatewayAction::ApplyWifiThenReply(m) => ActionView::ApplyWifiThenReply(m@),
            GatewayAction::ReportHealth => ActionView::ReportHealth,
            GatewayAction::Deauthenticate => ActionView::Deauthenticate,
            GatewayAction::CountStations => ActionView::CountStations,
            GatewayAction::Ignore => ActionView::Ignore,
        }
    }
}

/// State of the on-device gateway.
pub struct DeviceGatewayState {
    pub downstream_online: bool,
    pub oids: Seq<(Seq<char>, Seq<char>)>,
    pub devices: Seq<DeviceView>,
    pub credential_counter: u32,
}

/// Registry text of a provisioning state.
pub open spec fn state_text(s: ProvisioningState) -> Seq<char> {
    match s {
        ProvisioningState::Pending => "pending"@,
        ProvisioningState::Active => "active"@,
        ProvisioningState::Revoked => "revoked"@,
    }
}

impl DeviceGatewayState {
    /// Boot state: downstream AP up, default MIB, empty registry.
    pub open spec fn initial() -> DeviceGatewayState {
        DeviceGatewayState {
            downstream_online: true,
            oids: seq![("1.3.6.1.4.1.custom.isolate"@, "false"@), ("1.3.6.1.4.1.custom.relay"@, "off"@)],
            devices: Seq::empty(),
            credential_counter: 0,
        }
    }

    pub open spec fn wifi_mode(self) -> WifiMode {
        if self.downstream_online {
            WifiMode::ApSta
        } else {
            WifiMode::Sta
        }
    }

    /// The provisioning reply for `device_id` from the current registry.
    pub open spec fn provision_resp(self, device_id: Seq<char>, ok: bool) -> GwMsgView {
        let i = device_index(self.devices, device_id);
        if i >= 0 {
            GwMsgView::ProvisionResp {
                device_id: device_id,
                state: state_text(self.devices[i].state),
                fingerprint: self.devices[i].credential_fingerprint,
                version: self.devices[i].credential_version,
                ok: ok,
            }
        } else {
            GwMsgView::ProvisionResp {
                device_id: device_id,
                state: "unknown"@,
                fingerprint: Seq::empty(),
                version: 0,
                ok: false,
            }
        }
    }

    /// Whether handling `msg` issues a credential.
    pub open spec fn issues_credential(self, msg: GwMsg) -> bool {
        match msg {
            GwMsg::EnrollReq { device_id, .. } => device_index(self.devices, device_id@) < 0,
            GwMsg::RotateReq { device_id } => {
                let i = device_index(self.devices, device_id@);
                i >= 0 && self.devices[i].state != ProvisioningState::Revoked
            },
            _ => false,
        }
    }

    /// The registry after `device_id`'s record at `i` is replaced by `d`.
    pub open spec fn with_device(self, i: int, d: DeviceView) -> DeviceGatewayState {
        DeviceGatewayState { devices: self.devices.update(i, d), ..self }
    }

    /// The state after handling `msg`.
    pub open spec fn next(self, msg: GwMsg) -> DeviceGatewayState {
        match msg {
            GwMsg::ToggleReq => DeviceGatewayState { downstream_online: !self.downstream_online, ..self },
            GwMsg::SnmpSetReq { oid, value } => if self.downstream_online {
                DeviceGatewayState { oids: oid_insert(self.oids, oid@, value@), ..self }
            } else {
                self
            },
            GwMsg::EnrollReq { device_id, mac } => if device_index(self.devices, device_id@) >= 0 {
                self
            } else {
                let c = (self.credential_counter + 1) as u32;
                DeviceGatewayState {
                    credential_counter: c,
                    devices: self.devices.push(DeviceView {
                        device_id: device_id@,
                        mac: mac@,
                        state: ProvisioningState::Pending,
                        credential_fingerprint: fingerprint(device_id@, c),
                        credential_version: 1,
                    }),
                    ..self
                }
            },
            GwMsg::ClaimReq { device_id } => {
                let i = device_index(self.devices, device_id@);
                if i >= 0 && self.devices[i].state == ProvisioningState::Pending {
                    self.with_device(i, DeviceView { state: ProvisioningState::Active, ..self.devices[i] })
                } else {
                    self
                }
            },
            GwMsg::RotateReq { device_id } => {
                let i = device_index(self.devices, device_id@);
                if i >= 0 && self.devices[i].state != ProvisioningState::Revoked {
                    let c = (self.credential_counter + 1) as u32;
                    DeviceGatewayState {
                        credential_counter: c,
                        ..self.with_device(
                            i,
                            DeviceView {
                                credential_fingerprint: fingerprint(device_id@, c),
                                credential_version: (self.devices[i].credential_version + 1) as u32,
                                ..self.devices[i]
                            },
                        )
                    }
                } else {
                    self
                }
            },
            GwMsg::RevokeReq { device_id } => {
                let i = device_index(self.devices, device_id@);
                if i >= 0 && self.devices[i].state != ProvisioningState::Revoked {
                    self.with_device(i, DeviceView { state: ProvisioningState::Revoked, ..self.devices[i] })
                } else {
                    self
                }
            },
            _ => self,
        }
    }

    /// What the firmware does for `msg`.
    pub open spec fn action(self, msg: GwMsg) -> ActionView {
        let t = self.next(msg);
        match msg {
            GwMsg::HealthReq => ActionView::ReportHealth,
            GwMsg::ToggleReq => ActionView::ApplyWifiThenReply(
                GwMsgView::ToggleResp { downstream_online: t.downstream_online, wifi_mode: t.wifi_mode() },
            ),
            GwMsg::DeauthReq => ActionView::Deauthenticate,
            GwMsg::StaListReq => ActionView::CountStations,
            GwMsg::SnmpSetReq { oid, value } => ActionView::Reply(
                if self.downstream_online {
                    GwMsgView::SnmpResp { oid: oid@, value: Some(value@), ok: true }
                } else {
                    GwMsgView::SnmpResp { oid: oid@, value: None, ok: false }
                },
            ),
            GwMsg::SnmpGetReq { oid } => {
                let v = if self.downstream_online { oid_lookup(self.oids, oid@) } else { None };
                ActionView::Reply(GwMsgView::SnmpResp { oid: oid@, value: v, ok: v is Some })
            },
            GwMsg::EnrollReq { device_id, .. } => ActionView::Reply(
                t.provision_resp(device_id@, device_index(self.devices, device_id@) < 0),
            ),
            GwMsg::ClaimReq { device_id } => {
                let i = device_index(self.devices, device_id@);
                ActionView::Reply(t.provision_resp(device_id@, i >= 0 && self.devices[i].state == ProvisioningState::Pending))
            },
            GwMsg::RotateReq { device_id } => {
                let i = device_index(self.devices, device_id@);
                ActionView::Reply(t.provision_resp(device_id@, i >= 0 && self.devices[i].state != ProvisioningState::Revoked))
            },
            GwMsg::RevokeReq { device_id } => {
                let i = device_index(self.devices, device_id@);
                ActionView::Reply(t.provision_resp(device_id@, i >= 0 && self.devices[i].state != ProvisioningState::Revoked))
            },
            _ => ActionView::Ignore,
        }
    }
}

/// Invariant: no device has seen more issuances than the gateway made.
pub open spec fn device_state_wf(s: DeviceGatewayState) -> bool {
    forall|i: int| 0 <= i < s.devices.len() ==> (#[trigger] s.devices[i]).credential_version <= s.credential_counter
}

/// The on-device gateway state.
#[derive(Debug)]
pub struct Gateway {
    downstream_online: bool,
    /// The MIB: one entry per OID, kept in increasing OID order. It stands
    /// for a `String`-keyed hash map: with `String` keys Verus proves nothing
    /// of such a map's lookup or insert, so the map is an association list
    /// on which lookup, replacement of an existing key and the key order are
    /// proved.
    oids: Vec<OidEntry>,
    /// The device registry: one record per device id, found by a verified
    /// linear search. It stands for a `String`-keyed hash map, for the same
    /// reason as the MIB; no lookup of the firmware depends on hash order.
    devices: Vec<DeviceIdentity>,
    credential_counter: u32,
}

impl View for Gateway {
    type V = DeviceGatewayState;

    closed spec fn view(&self) -> DeviceGatewayState {
        DeviceGatewayState {
            downstream_online: self.downstream_online,
            oids: self.oids@.map_values(|e: OidEntry| e@),
            devices: self.devices@.map_values(|d: DeviceIdentity| d@),
            credential_counter: self.credential_counter,
        }
    }
}

fn text_of_state(s: ProvisioningState) -> (r: String)
    ensures
        r@ == state_text(s),
{
    match s {
        ProvisioningState::Pending => String::from_str("pending"),
        ProvisioningState::Active => String::from_str("active"),
        ProvisioningState::Revoked => String::from_str("revoked"),
    }
}

/// Reply to a deauthentication: one kick reported when the driver call
/// returned 0.
pub fn deauth_reply(rc: i32) -> (m: GwMsg)
    ensures
        m@ == (GwMsgView::DeauthResp { kicked: if rc == 0 { 1 } else { 0 } }),
{
    GwMsg::DeauthResp { kicked: if rc == 0 { 1 } else { 0 } }
}

/// The telemetry echo sent back to the sender of a telemetry frame: same
/// node and sequence number, the gateway's clock, payload `ByteCmd(0xAC)`.
pub fn echo_frame(frame: &TelemetryFrame, now_ms: u64) -> (r: TelemetryFrame)
    ensures
        r == (TelemetryFrame { seq: frame.seq, timestamp_ms: now_ms, node_id: frame.node_id, payload: Payload::ByteCmd(0xAC) }),
{
    TelemetryFrame { seq: frame.seq, timestamp_ms: now_ms, node_id: frame.node_id, payload: Payload::ByteCmd(0xAC) }
}

impl Gateway {
    /// Boot state: downstream AP up, default MIB, empty registry.
    pub fn new() -> (g: Self)
        ensures
            g@ == DeviceGatewayState::initial(),
            device_state_wf(g@),
    {
        let mut oids: Vec<OidEntry> = Vec::new();
        oids.push(OidEntry { oid: String::from_str("1.3.6.1.4.1.custom.isolate"), value: String::from_str("false") });
        oids.push(OidEntry { oid: String::from_str("1.3.6.1.4.1.custom.relay"), value: String::from_str("off") });
        let g = Gateway { downstream_online: true, oids, devices: Vec::new(), credential_counter: 0 };
        proof {
            assert(g@.oids =~= DeviceGatewayState::initial().oids);
            assert(g@.devices =~= DeviceGatewayState::initial().devices);
        }
        g
    }

    /// `ApSta` while the downstream AP is up, `Sta` once it is dropped.
    pub fn wifi_mode(&self) -> (m: WifiMode)
        ensures
            m == self@.wifi_mode(),
    {
        if self.downstream_online {
            WifiMode::ApSta
        } else {
            WifiMode::Sta
        }
    }

    /// Whether the downstream AP is up.
    pub fn downstream_online(&self) -> (b: bool)
        ensures
            b == self@.downstream_online,
    {
        self.downstream_online
    }

    /// Health reply from the readings taken by the firmware.
    pub fn health_reply(&self, free_heap: u32, uptime_ms: u64, rx_count: u32) -> (m: GwMsg)
        ensures
            m@ == (GwMsgView::HealthResp { free_heap, uptime_ms, rx_count, wifi_mode: self@.wifi_mode() }),
    {
        GwMsg::HealthResp { free_heap, uptime_ms, rx_count, wifi_mode: self.wifi_mode() }
    }

    /// Station-count reply: no stations while the downstream AP is down;
    /// otherwise the driver's count, or 0 when the driver could not list them.
    pub fn sta_list_reply(&self, listed: Option<u32>) -> (m: GwMsg)
        ensures
            m@ == (GwMsgView::StaListResp {
                count: if !self@.downstream_online {
                    0
                } else {
                    match listed {
                        Some(n) => n,
                        None => 0,
                    }
                },
            }),
    {
        let count = if !self.downstream_online {
            0
        } else {
            match listed {
                Some(n) => n,
                None => 0,
            }
        };
        GwMsg::StaListResp { count }
    }

    fn device_index(&self, device_id: &String) -> (r: Option<usize>)
        ensures
            match r {
                Some(i) => i as int == device_index(self@.devices, device_id@),
                None => device_index(self@.devices, device_id@) < 0,
            },
    {
        let ghost ds = self@.devices;
        let mut i: usize = 0;
        while i < self.devices.len()
            invariant
                i <= self.devices@.len(),
                ds == self.devices@.map_values(|d: DeviceIdentity| d@),
                device_index(ds.subrange(0, i as int), device_id@) < 0,
            decreases self.devices@.len() - i,
        {
            proof {
                assert(ds.subrange(0, i + 1).drop_last() =~= ds.subrange(0, i as int));
            }
            if str_equal(self.devices[i].device_id.as_str(), device_id.as_str()) {
                proof {
                    crate::gateway_sim::lemma_device_index_prefix(ds, device_id@, i + 1);
                }
                return Some(i);
            }
            i += 1;
        }
        proof {
            assert(ds.subrange(0, i as int) =~= ds);
        }
        None
    }

    /// The provisioning reply for `device_id` from the current registry.
    fn provision_resp(&self, device_id: &String, ok: bool) -> (m: GwMsg)
        ensures
            m@ == self@.provision_resp(device_id@, ok),
    {
        match self.device_index(device_id) {
            Some(i) => {
                proof {
                    lemma_device_index_bounds(self@.devices, device_id@);
                }
                GwMsg::ProvisionResp {
                    device_id: copy_string(device_id),
                    state: text_of_state(self.devices[i].state),
                    fingerprint: copy_string(&self.devices[i].credential_fingerprint),
                    version: self.devices[i].credential_version,
                    ok,
                }
            },
            None => GwMsg::ProvisionResp {
                device_id: copy_string(device_id),
                state: String::from_str("unknown"),
                fingerprint: String::new(),
                version: 0,
                ok: false,
            },
        }
    }

    fn set_device(&mut self, i: usize, d: DeviceIdentity)
        requires
            i < old(self)@.devices.len(),
        ensures
            final(self)@ == old(self)@.with_device(i as int, d@),
    {
        let ghost s0 = self@;
        self.devices.set(i, d);
        proof {
            assert(self@.devices =~= s0.devices.update(i as int, d@));
        }
    }

    /// Handles one gateway-link request: updates the link state, the MIB or
    /// the registry as the model's `next` says, and returns the model's
    /// `action`.
    pub fn handle_msg(&mut self, msg: GwMsg) -> (a: GatewayAction)
        requires
            device_state_wf(old(self)@),
            old(self)@.issues_credential(msg) ==> old(self)@.credential_counter < u32::MAX,
        ensures
            device_state_wf(final(self)@),
            final(self)@ == old(self)@.next(msg),
            a@ == old(self)@.action(msg),
    {
        let ghost m = msg;
        match msg {
            GwMsg::HealthReq => GatewayAction::ReportHealth,
            GwMsg::ToggleReq => {
                self.downstream_online = !self.downstream_online;
                GatewayAction::ApplyWifiThenReply(
                    GwMsg::ToggleResp { downstream_online: self.downstream_online, wifi_mode: self.wifi_mode() },
                )
            },
            GwMsg::DeauthReq => GatewayAction::Deauthenticate,
            GwMsg::StaListReq => GatewayAction::CountStations,
            GwMsg::SnmpSetReq { oid, value } => {
                if self.downstream_online {
                    mib_insert(&mut self.oids, &oid, &value);
                    GatewayAction::Reply(GwMsg::SnmpResp { oid, value: Some(value), ok: true })
                } else {
                    GatewayAction::Reply(GwMsg::SnmpResp { oid, value: None, ok: false })
                }
            },
            GwMsg::SnmpGetReq { oid } => {
                let value = if self.downstream_online { mib_lookup(&self.oids, &oid) } else { None };
                let ok = value.is_some();
                GatewayAction::Reply(GwMsg::SnmpResp { oid, value, ok })
            },
            GwMsg::EnrollReq { device_id, mac } => {
                match self.device_index(&device_id) {
                    Some(_) => GatewayAction::Reply(self.provision_resp(&device_id, false)),
                    None => {
                        self.credential_counter = self.credential_counter + 1;
                        let fp = credential_fingerprint(&device_id, self.credential_counter);
                        let ghost s0 = self@;
                        self.devices.push(DeviceIdentity {
                            device_id: copy_string(&device_id),
                            mac,
                            state: ProvisioningState::Pending,
                            credential_fingerprint: fp,
                            credential_version: 1,
                        });
                        proof {
                            assert(self@.devices =~= s0.devices.push(self.devices@.last()@));
                            assert(self@ == old(self)@.next(m));
                            assert(device_index(self@.devices, device_id@) == s0.devices.len()) by {
                                assert(self@.devices.drop_last() =~= s0.devices);
                            }
                        }
                        GatewayAction::Reply(self.provision_resp(&device_id, true))
                    },
                }
            },
            GwMsg::ClaimReq { device_id } => {
                let ok = match self.device_index(&device_id) {
                    Some(i) => {
                        proof {
                            lemma_device_index_bounds(self@.devices, device_id@);
                        }
                        if self.devices[i].state == ProvisioningState::Pending {
                            let d = DeviceIdentity {
                                device_id: copy_string(&self.devices[i].device_id),
                                mac: copy_string(&self.devices[i].mac),
                                state: ProvisioningState::Active,
                                credential_fingerprint: copy_string(&self.devices[i].credential_fingerprint),
                                credential_version: self.devices[i].credential_version,
                            };
                            self.set_device(i, d);
                            proof {
                                crate::gateway_sim::lemma_device_index_update(old(self)@.devices, device_id@, i as int, d@);
                            }
                            true
                        } else {
                            false
                        }
                    },
                    None => false,
                };
                GatewayAction::Reply(self.provision_resp(&device_id, ok))
            },
            GwMsg::RotateReq { device_id } => {
                let ok = match self.device_index(&device_id) {
                    Some(i) => {
                        proof {
                            lemma_device_index_bounds(self@.devices, device_id@);
                        }
                        if self.devices[i].state != ProvisioningState::Revoked {
                            proof {
                                assert(self@.devices[i as int].credential_version <= self@.credential_counter);
                            }
                            self.credential_counter = self.credential_counter + 1;
                            let fp = credential_fingerprint(&device_id, self.credential_counter);
                            let d = DeviceIdentity {
                                device_id: copy_string(&self.devices[i].device_id),
                                mac: copy_string(&self.devices[i].mac),
                                state: self.devices[i].state,
                                credential_fingerprint: fp,
                                credential_version: self.devices[i].credential_version + 1,
                            };
                            self.set_device(i, d);
                            proof {
                                crate::gateway_sim::lemma_device_index_update(old(self)@.devices, device_id@, i as int, d@);
                            }
                            true
                        } else {
                            false
                        }
                    },
                    None => false,
                };
                GatewayAction::Reply(self.provision_resp(&device_id, ok))
            },
            GwMsg::RevokeReq { device_id } => {
                let ok = match self.device_index(&device_id) {
                    Some(i) => {
                        proof {
                            lemma_device_index_bounds(self@.devices, device_id@);
                        }
                        if self.devices[i].state != ProvisioningState::Revoked {
                            let d = DeviceIdentity {
                                device_id: copy_string(&self.devices[i].device_id),
                                mac: copy_string(&self.devices[i].mac),
                                state: ProvisioningState::Revoked,
                                credential_fingerprint: copy_string(&self.devices[i].credential_fingerprint),
                                credential_version: self.devices[i].credential_version,
                            };
                            self.set_device(i, d);
                            proof {
                                crate::gateway_sim::lemma_device_index_update(old(self)@.devices, device_id@, i as int, d@);
                            }
                            true
                        } else {
                            false
                        }
                    },
                    None => false,
                };
                GatewayAction::Reply(self.provision_resp(&device_id, ok))
            },
            _ => GatewayAction::Ignore,
        }
    }
}

} // verus!
