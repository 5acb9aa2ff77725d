//! Hardware-free model of the Secure Telemetry Gateway (ESP32 in AP-STA
//! mode): it routes commands to a downstream endpoint, can sever/restore the
//! isolated downstream Wi-Fi network, answers a simulated SNMP protocol,
//! reports system health, deauthenticates stations and keeps a registry of
//! provisioned device identities.
//!
//! This module holds the types and the mathematical model of the gateway;
//! `gateway_sim` holds the executable simulator, proved against it.

use vstd::prelude::*;
use vstd::utf8::encode_utf8;

use crate::text::{bool_text, dec, hex_fixed, same_ignoring_case, seq_lt};

verus! {

/// Wire command names shared with the on-device firmware.
pub const CMD_NET_TOGGLE_DOWNSTREAM: &'static str = "CMD_NET_TOGGLE_DOWNSTREAM";
pub const CMD_SNMP_SET: &'static str = "CMD_SNMP_SET";
pub const CMD_SNMP_GET: &'static str = "CMD_SNMP_GET";
pub const CMD_DEAUTH_STA: &'static str = "CMD_DEAUTH_STA";
pub const CMD_SYS_HEALTH: &'static str = "CMD_SYS_HEALTH";
pub const CMD_STA_LIST: &'static str = "CMD_STA_LIST";
pub const CMD_REGISTER_NODE: &'static str = "CMD_REGISTER_NODE";
pub const CMD_ENROLL_DEVICE: &'static str = "CMD_ENROLL_DEVICE";
pub const CMD_CLAIM_DEVICE: &'static str = "CMD_CLAIM_DEVICE";
pub const CMD_ROTATE_CREDENTIAL: &'static str = "CMD_ROTATE_CREDENTIAL";
pub const CMD_REVOKE_DEVICE: &'static str = "CMD_REVOKE_DEVICE";

/// Simulated SNMP protocol label.
pub const SIM_SNMP_PROTOCOL: &'static str = "sim_snmp_v3";

pub const HEAP_TOTAL_BYTES: u32 = 327_680;
pub const HEAP_FLOOR_BYTES: u32 = 40_960;
pub const HEAP_PER_COMMAND: u32 = 1_280;
pub const MAX_LOG: usize = 20;
/// Free heap reported for a newly joined downstream station.
pub const NODE_FREE_HEAP_BYTES: u32 = 180_224;

/// Wi-Fi mode of the gateway. `ApSta` keeps both the upstream link and the
/// downstream isolated AP; `Sta` drops the AP (downstream severed).
#[derive(Debug, Clone, Copy, PartialEq, Eq, Structural)]
pub enum WifiMode {
    ApSta,
    Sta,
}

/// Lifecycle state of a provisioned device identity:
/// `Pending` (enrolled, credential issued) -> `Active` (claimed, onboarded)
/// -> `Revoked` (terminal).
#[derive(Debug, Clone, Copy, PartialEq, Eq, Structural)]
pub enum ProvisioningState {
    Pending,
    Active,
    Revoked,
}

/// A provisioned device identity. The fingerprint is a deterministic stand-in
/// for key material; it changes on every issuance, and `credential_version`
/// counts issuances.
#[derive(Debug, Clone, PartialEq, Eq)]
pub struct DeviceIdentity {
    pub device_id: String,
    pub mac: String,
    pub state: ProvisioningState,
    pub credential_fingerprint: String,
    pub credential_version: u32,
}

/// A station connected to the gateway's isolated downstream network.
#[derive(Debug, Clone, PartialEq, Eq)]
pub struct NodeInfo {
    pub mac: String,
    pub ip: String,
    pub free_heap_bytes: u32,
    pub online: bool,
}

/// Simulated SNMP request.
#[derive(Debug, Clone, PartialEq, Eq)]
pub struct SnmpRequest {
    pub protocol: String,
    pub operation: String,
    pub oid: String,
    pub value: Option<String>,
}

/// Simulated SNMP response forwarded back to the orchestrator.
#[derive(Debug, Clone, PartialEq, Eq)]
pub struct SnmpResponse {
    pub protocol: String,
    pub operation: String,
    pub oid: String,
    pub value: Option<String>,
    pub ok: bool,
    pub message: String,
}

/// Commands the orchestrator can issue to the gateway.
#[derive(Debug, Clone, PartialEq, Eq)]
pub enum GatewayCommand {
    /// Sever/restore the downstream AP.
    NetToggleDownstream,
    /// Write a simulated OID on the downstream endpoint.
    SnmpSet { oid: String, value: String },
    /// Read a simulated OID from the downstream endpoint.
    SnmpGet { oid: String },
    /// Kick a connected station by MAC.
    DeauthSta { mac: String },
    /// Report free heap, link state and station count.
    SysHealth,
    /// Report the number of connected downstream stations.
    StaList,
    /// Simulate a downstream endpoint joining the AP.
    RegisterNode { mac: String, ip: String },
    /// Create a device identity and issue its first credential.
    EnrollDevice { device_id: String, mac: String },
    /// Activate an enrolled device and onboard it as a node.
    ClaimDevice { device_id: String },
    /// Reissue the credential of a device that is not revoked.
    RotateCredential { device_id: String },
    /// Revoke a device identity and offboard its node.
    RevokeDevice { device_id: String },
}

/// Result of applying a command.
#[derive(Debug, Clone)]
pub struct GatewayResponse {
    pub ok: bool,
    pub command: String,
    pub message: String,
    pub snmp: Option<SnmpResponse>,
    pub snapshot: GatewaySnapshot,
}

/// Point-in-time view of the gateway.
#[derive(Debug, Clone)]
pub struct GatewaySnapshot {
    pub wifi_mode: WifiMode,
    pub downstream_online: bool,
    pub free_heap_bytes: u32,
    pub heap_total_bytes: u32,
    pub station_count: u32,
    pub command_count: u32,
    pub oids: Vec<OidEntry>,
    pub nodes: Vec<NodeInfo>,
    pub devices: Vec<DeviceIdentity>,
    pub command_log: Vec<String>,
}

/// One simulated MIB entry.
#[derive(Debug, Clone, PartialEq, Eq)]
pub struct OidEntry {
    pub oid: String,
    pub value: String,
}

// ---------------------------------------------------------------------------
// Mathematical model
// ---------------------------------------------------------------------------

/// A downstream station, as text.
pub struct NodeView {
    pub mac: Seq<char>,
    pub ip: Seq<char>,
    pub free_heap_bytes: u32,
    pub online: bool,
}

/// A device identity, as text.
pub struct DeviceView {
    pub device_id: Seq<char>,
    pub mac: Seq<char>,
    pub state: ProvisioningState,
    pub credential_fingerprint: Seq<char>,
    pub credential_version: u32,
}

/// An SNMP response, as text.
pub struct SnmpView {
    pub protocol: Seq<char>,
    pub operation: Seq<char>,
    pub oid: Seq<char>,
    pub value: Option<Seq<char>>,
    pub ok: bool,
    pub message: Seq<char>,
}

/// A snapshot, as text.
pub struct SnapshotView {
    pub wifi_mode: WifiMode,
    pub downstream_online: bool,
    pub free_heap_bytes: u32,
    pub heap_total_bytes: u32,
    pub station_count: u32,
    pub command_count: u32,
    pub oids: Seq<(Seq<char>, Seq<char>)>,
    pub nodes: Seq<NodeView>,
    pub devices: Seq<DeviceView>,
    pub command_log: Seq<Seq<char>>,
}

/// A response, as text.
pub struct ResponseView {
    pub ok: bool,
    pub command: Seq<char>,
    pub message: Seq<char>,
    pub snmp: Option<SnmpView>,
    pub snapshot: SnapshotView,
}

/// The whole state of the gateway. The MIB is an association list kept in
/// increasing key order, as a `BTreeMap` iterates it.
pub struct GatewayState {
    pub downstream_online: bool,
    pub free_heap_bytes: u32,
    pub command_count: u32,
    pub oids: Seq<(Seq<char>, Seq<char>)>,
    pub nodes: Seq<NodeView>,
    pub devices: Seq<DeviceView>,
    pub credential_counter: u32,
    pub log: Seq<Seq<char>>,
}

impl View for NodeInfo {
    type V = NodeView;

    open spec fn view(&self) -> NodeView {
        NodeView { mac: self.mac@, ip: self.ip@, free_heap_bytes: self.free_heap_bytes, online: self.online }
    }
}

impl View for DeviceIdentity {
    type V = DeviceView;

    open spec fn view(&self) -> DeviceView {
        DeviceView {
            device_id: self.device_id@,
            mac: self.mac@,
            state: self.state,
            credential_fingerprint: self.credential_fingerprint@,
            credential_version: self.credential_version,
        }
    }
}

impl View for OidEntry {
    type V = (Seq<char>, Seq<char>);

    open spec fn view(&self) -> (Seq<char>, Seq<char>) {
        (self.oid@, self.value@)
    }
}

/// Text of an optional string.
pub open spec fn opt_text(v: Option<String>) -> Option<Seq<char>> {
    match v {
        Some(s) => Some(s@),
        None => None,
    }
}

impl View for SnmpResponse {
    type V = SnmpView;

    open spec fn view(&self) -> SnmpView {
        SnmpView {
            protocol: self.protocol@,
            operation: self.operation@,
            oid: self.oid@,
            value: opt_text(self.value),
            ok: self.ok,
            message: self.message@,
        }
    }
}

impl View for GatewaySnapshot {
    type V = SnapshotView;

    open spec fn view(&self) -> SnapshotView {
        SnapshotView {
            wifi_mode: self.wifi_mode,
            downstream_online: self.downstream_online,
            free_heap_bytes: self.free_heap_bytes,
            heap_total_bytes: self.heap_total_bytes,
            station_count: self.station_count,
            command_count: self.command_count,
            oids: self.oids@.map_values(|e: OidEntry| e@),
            nodes: self.nodes@.map_values(|n: NodeInfo| n@),
            devices: self.devices@.map_values(|d: DeviceIdentity| d@),
            command_log: self.command_log@.map_values(|l: String| l@),
        }
    }
}

/// Text of an optional SNMP response.
pub open spec fn opt_snmp(v: Option<SnmpResponse>) -> Option<SnmpView> {
    match v {
        Some(r) => Some(r@),
        None => None,
    }
}

impl View for GatewayResponse {
    type V = ResponseView;

    open spec fn view(&self) -> ResponseView {
        ResponseView {
            ok: self.ok,
            command: self.command@,
            message: self.message@,
            snmp: opt_snmp(self.snmp),
            snapshot: self.snapshot@,
        }
    }
}

/// The wire name of a command.
pub open spec fn command_name(cmd: GatewayCommand) -> Seq<char> {
    match cmd {
        GatewayCommand::NetToggleDownstream => CMD_NET_TOGGLE_DOWNSTREAM@,
        GatewayCommand::SnmpSet { .. } => CMD_SNMP_SET@,
        GatewayCommand::SnmpGet { .. } => CMD_SNMP_GET@,
        GatewayCommand::DeauthSta { .. } => CMD_DEAUTH_STA@,
        GatewayCommand::SysHealth => CMD_SYS_HEALTH@,
        GatewayCommand::StaList => CMD_STA_LIST@,
        GatewayCommand::RegisterNode { .. } => CMD_REGISTER_NODE@,
        GatewayCommand::EnrollDevice { .. } => CMD_ENROLL_DEVICE@,
        GatewayCommand::ClaimDevice { .. } => CMD_CLAIM_DEVICE@,
        GatewayCommand::RotateCredential { .. } => CMD_ROTATE_CREDENTIAL@,
        GatewayCommand::RevokeDevice { .. } => CMD_REVOKE_DEVICE@,
    }
}

impl GatewayCommand {
    /// The wire name of the command.
    pub fn name(&self) -> (r: &'static str)
        ensures
            r@ == command_name(*self),
    {
        match self {
            GatewayCommand::NetToggleDownstream => CMD_NET_TOGGLE_DOWNSTREAM,
            GatewayCommand::SnmpSet { .. } => CMD_SNMP_SET,
            GatewayCommand::SnmpGet { .. } => CMD_SNMP_GET,
            GatewayCommand::DeauthSta { .. } => CMD_DEAUTH_STA,
            GatewayCommand::SysHealth => CMD_SYS_HEALTH,
            GatewayCommand::StaList => CMD_STA_LIST,
            GatewayCommand::RegisterNode { .. } => CMD_REGISTER_NODE,
            GatewayCommand::EnrollDevice { .. } => CMD_ENROLL_DEVICE,
            GatewayCommand::ClaimDevice { .. } => CMD_CLAIM_DEVICE,
            GatewayCommand::RotateCredential { .. } => CMD_ROTATE_CREDENTIAL,
            GatewayCommand::RevokeDevice { .. } => CMD_REVOKE_DEVICE,
        }
    }
}

// --- MIB -------------------------------------------------------------------

/// The value stored under `oid`, if any.
pub open spec fn oid_lookup(entries: Seq<(Seq<char>, Seq<char>)>, oid: Seq<char>) -> Option<Seq<char>>
    decreases entries.len(),
{
    if entries.len() == 0 {
        None
    } else if entries[0].0 == oid {
        Some(entries[0].1)
    } else {
        oid_lookup(entries.drop_first(), oid)
    }
}

/// Stores `value` under `oid`, keeping keys in increasing order: an existing
/// key has its value replaced, a new key goes before the first larger key.
pub open spec fn oid_insert(entries: Seq<(Seq<char>, Seq<char>)>, oid: Seq<char>, value: Seq<char>) -> Seq<(Seq<char>, Seq<char>)>
    decreases entries.len(),
{
    if entries.len() == 0 {
        seq![(oid, value)]
    } else if entries[0].0 == oid {
        seq![(oid, value)] + entries.drop_first()
    } else if seq_lt(oid, entries[0].0) {
        seq![(oid, value)] + entries
    } else {
        seq![entries[0]] + oid_insert(entries.drop_first(), oid, value)
    }
}

/// Keys in strictly increasing order.
pub open spec fn oids_sorted(entries: Seq<(Seq<char>, Seq<char>)>) -> bool {
    forall|i: int, j: int| 0 <= i < j < entries.len() ==> seq_lt(#[trigger] entries[i].0, #[trigger] entries[j].0)
}

// --- stations and devices ------------------------------------------------

/// Number of stations that are online.
pub open spec fn count_online(nodes: Seq<NodeView>) -> nat
    decreases nodes.len(),
{
    if nodes.len() == 0 {
        0
    } else {
        count_online(nodes.drop_last()) + if nodes.last().online { 1nat } else { 0nat }
    }
}

/// Whether some station has `mac`, ignoring ASCII case.
pub open spec fn has_mac(nodes: Seq<NodeView>, mac: Seq<char>) -> bool {
    exists|i: int| 0 <= i < nodes.len() && same_ignoring_case(#[trigger] nodes[i].mac, mac)
}

/// The stations whose MAC differs from `mac` ignoring ASCII case, in order.
pub open spec fn without_mac(nodes: Seq<NodeView>, mac: Seq<char>) -> Seq<NodeView>
    decreases nodes.len(),
{
    if nodes.len() == 0 {
        Seq::empty()
    } else {
        let rest = without_mac(nodes.drop_last(), mac);
        if same_ignoring_case(nodes.last().mac, mac) {
            rest
        } else {
            rest.push(nodes.last())
        }
    }
}

/// All stations with their online flag set to `online`.
pub open spec fn with_online(nodes: Seq<NodeView>, online: bool) -> Seq<NodeView> {
    Seq::new(nodes.len(), |i: int| NodeView { online: online, ..nodes[i] })
}

/// Index of the first device with `id`, or -1.
pub open spec fn device_index(devices: Seq<DeviceView>, id: Seq<char>) -> int
    decreases devices.len(),
{
    if devices.len() == 0 {
        -1
    } else {
        let r = device_index(devices.drop_last(), id);
        if r >= 0 {
            r
        } else if devices.last().device_id == id {
            devices.len() - 1
        } else {
            -1
        }
    }
}

/// A found device index is in range and names the device; -1 means no
/// device has the id.
pub proof fn lemma_device_index_bounds(devices: Seq<DeviceView>, id: Seq<char>)
    ensures
        -1 <= device_index(devices, id) < devices.len(),
        device_index(devices, id) >= 0 ==> devices[device_index(devices, id)].device_id == id,
        device_index(devices, id) < 0 ==> forall|k: int| 0 <= k < devices.len() ==> (#[trigger] devices[k]).device_id != id,
    decreases devices.len(),
{
    if devices.len() > 0 {
        lemma_device_index_bounds(devices.drop_last(), id);
        assert forall|k: int| 0 <= k < devices.len() - 1 implies devices.drop_last()[k] == devices[k] by {}
    }
}

// --- credentials -----------------------------------------------------------

pub open spec fn fnv_offset() -> u64 {
    0xcbf2_9ce4_8422_2325
}

pub open spec fn fnv_prime() -> u64 {
    0x0100_0000_01b3
}

/// One FNV-1a step.
pub open spec fn fnv_step(hash: u64, byte: u8) -> u64 {
    (((hash ^ (byte as u64)) as nat * fnv_prime() as nat) % 0x1_0000_0000_0000_0000nat) as u64
}

/// 64-bit FNV-1a hash of `bytes`.
pub open spec fn fnv1a(bytes: Seq<u8>) -> u64
    decreases bytes.len(),
{
    if bytes.len() == 0 {
        fnv_offset()
    } else {
        fnv_step(fnv1a(bytes.drop_last()), bytes.last())
    }
}

/// Little-endian bytes of a `u32`.
pub open spec fn u32_le(x: u32) -> Seq<u8> {
    seq![(x % 256) as u8, ((x / 256) % 256) as u8, ((x / 65536) % 256) as u8, (x / 16777216) as u8]
}

/// The credential fingerprint issued to `device_id` as the `counter`-th
/// credential of the gateway: `cred-` and the FNV-1a hash of the UTF-8 id
/// followed by the counter (little endian), as 16 lower-case hex digits.
pub open spec fn fingerprint(device_id: Seq<char>, counter: u32) -> Seq<char> {
    "cred-"@ + hex_fixed(fnv1a(encode_utf8(device_id) + u32_le(counter)) as nat, 16)
}

/// `{:?}` text of a provisioning state.
pub open spec fn state_debug(s: ProvisioningState) -> Seq<char> {
    match s {
        ProvisioningState::Pending => "Pending"@,
        ProvisioningState::Active => "Active"@,
        ProvisioningState::Revoked => "Revoked"@,
    }
}

// --- responses ---------------------------------------------------------------

/// The SNMP error response for `op` on `oid`.
pub open spec fn snmp_error_view(op: Seq<char>, oid: Seq<char>, message: Seq<char>) -> SnmpView {
    SnmpView {
        protocol: SIM_SNMP_PROTOCOL@,
        operation: if op == CMD_SNMP_SET@ { "set"@ } else { "get"@ },
        oid: oid,
        value: None,
        ok: false,
        message: message,
    }
}

/// The successful SNMP response.
pub open spec fn snmp_ok_view(op: Seq<char>, oid: Seq<char>, value: Seq<char>, message: Seq<char>) -> SnmpView {
    SnmpView { protocol: SIM_SNMP_PROTOCOL@, operation: op, oid: oid, value: Some(value), ok: true, message: message }
}

/// Outcome of a command before it is logged: new state, `ok`, message and
/// SNMP response.
pub struct Effect {
    pub state: GatewayState,
    pub ok: bool,
    pub message: Seq<char>,
    pub snmp: Option<SnmpView>,
}

impl GatewayState {
    /// The initial gateway: downstream up, two default OIDs, one station.
    pub open spec fn initial() -> GatewayState {
        GatewayState {
            downstream_online: true,
            free_heap_bytes: (HEAP_TOTAL_BYTES - HEAP_PER_COMMAND) as u32,
            command_count: 0,
            oids: seq![
                ("1.3.6.1.4.1.custom.isolate"@, "false"@),
                ("1.3.6.1.4.1.custom.relay"@, "off"@),
            ],
            nodes: seq![
                NodeView {
                    mac: "24:6F:28:00:00:01"@,
                    ip: "192.168.4.2"@,
                    free_heap_bytes: NODE_FREE_HEAP_BYTES,
                    online: true,
                },
            ],
            devices: Seq::empty(),
            credential_counter: 0,
            log: Seq::empty(),
        }
    }

    pub open spec fn wifi_mode(self) -> WifiMode {
        if self.downstream_online {
            WifiMode::ApSta
        } else {
            WifiMode::Sta
        }
    }

    /// Connected stations: the online ones, none while downstream is down.
    pub open spec fn online_station_count(self) -> u32 {
        if !self.downstream_online {
            0
        } else {
            count_online(self.nodes) as u32
        }
    }

    pub open spec fn snapshot(self) -> SnapshotView {
        SnapshotView {
            wifi_mode: self.wifi_mode(),
            downstream_online: self.downstream_online,
            free_heap_bytes: self.free_heap_bytes,
            heap_total_bytes: HEAP_TOTAL_BYTES,
            station_count: self.online_station_count(),
            command_count: self.command_count,
            oids: self.oids,
            nodes: self.nodes,
            devices: self.devices,
            command_log: self.log,
        }
    }

    /// Counts a handled command: each consumes a little heap (down to a
    /// floor), and its log line goes first in a log of at most 20 lines.
    pub open spec fn record(self, line: Seq<char>) -> GatewayState {
        let heap = if self.free_heap_bytes >= HEAP_PER_COMMAND { self.free_heap_bytes - HEAP_PER_COMMAND } else { 0 };
        let log = seq![line] + self.log;
        GatewayState {
            command_count: (self.command_count + 1) as u32,
            free_heap_bytes: if heap >= HEAP_FLOOR_BYTES { heap as u32 } else { HEAP_FLOOR_BYTES },
            log: if log.len() > MAX_LOG { log.take(MAX_LOG as int) } else { log },
            ..self
        }
    }

    /// Whether applying `cmd` issues a new credential.
    pub open spec fn issues_credential(self, cmd: GatewayCommand) -> bool {
        match cmd {
            GatewayCommand::EnrollDevice { device_id, .. } => device_index(self.devices, device_id@) < 0,
            GatewayCommand::RotateCredential { device_id } => {
                let i = device_index(self.devices, device_id@);
                i >= 0 && self.devices[i].state != ProvisioningState::Revoked
            },
            _ => false,
        }
    }

    /// What a command does, before it is logged.
    pub open spec fn effect(self, cmd: GatewayCommand) -> Effect {
        match cmd {
            GatewayCommand::NetToggleDownstream => {
                let d = !self.downstream_online;
                Effect {
                    state: GatewayState { downstream_online: d, nodes: with_online(self.nodes, d), ..self },
                    ok: true,
                    message: if d {
                        "downstream AP restored (WifiMode::ApSta)"@
                    } else {
                        "downstream AP severed (WifiMode::Sta)"@
                    },
                    snmp: None,
                }
            },
            GatewayCommand::SnmpSet { oid, value } => {
                if !self.downstream_online {
                    Effect {
                        state: self,
                        ok: false,
                        message: "downstream offline"@,
                        snmp: Some(snmp_error_view(CMD_SNMP_SET@, oid@, "downstream offline"@)),
                    }
                } else {
                    Effect {
                        state: GatewayState { oids: oid_insert(self.oids, oid@, value@), ..self },
                        ok: true,
                        message: "set "@ + oid@ + " = "@ + value@,
                        snmp: Some(snmp_ok_view("set"@, oid@, value@, "ack"@)),
                    }
                }
            },
            GatewayCommand::SnmpGet { oid } => {
                if !self.downstream_online {
                    Effect {
                        state: self,
                        ok: false,
                        message: "downstream offline"@,
                        snmp: Some(snmp_error_view(CMD_SNMP_GET@, oid@, "downstream offline"@)),
                    }
                } else {
                    match oid_lookup(self.oids, oid@) {
                        Some(v) => Effect {
                            state: self,
                            ok: true,
                            message: "get "@ + oid@ + " = "@ + v,
                            snmp: Some(snmp_ok_view("get"@, oid@, v, "ok"@)),
                        },
                        None => Effect {
                            state: self,
                            ok: false,
                            message: "no such OID "@ + oid@,
                            snmp: Some(snmp_error_view(CMD_SNMP_GET@, oid@, "no such OID"@)),
                        },
                    }
                }
            },
            GatewayCommand::DeauthSta { mac } => {
                let found = has_mac(self.nodes, mac@);
                Effect {
                    state: GatewayState { nodes: without_mac(self.nodes, mac@), ..self },
                    ok: found,
                    message: if found { "deauthenticated "@ + mac@ } else { "no station "@ + mac@ },
                    snmp: None,
                }
            },
            GatewayCommand::SysHealth => Effect {
                state: self,
                ok: true,
                message: "free_heap="@ + dec(self.free_heap_bytes as nat) + " bytes, downstream="@
                    + bool_text(self.downstream_online) + ", stations="@ + dec(self.nodes.len()),
                snmp: None,
            },
            GatewayCommand::StaList => Effect {
                state: self,
                ok: true,
                message: "stations="@ + dec(self.online_station_count() as nat),
                snmp: None,
            },
            GatewayCommand::RegisterNode { mac, ip } => {
                if has_mac(self.nodes, mac@) {
                    Effect { state: self, ok: false, message: mac@ + " already joined"@, snmp: None }
                } else {
                    let node = NodeView {
                        mac: mac@,
                        ip: ip@,
                        free_heap_bytes: NODE_FREE_HEAP_BYTES,
                        online: self.downstream_online,
                    };
                    Effect {
                        state: GatewayState { nodes: self.nodes.push(node), ..self },
                        ok: true,
                        message: mac@ + " joined at "@ + ip@,
                        snmp: None,
                    }
                }
            },
            GatewayCommand::EnrollDevice { device_id, mac } => {
                if device_index(self.devices, device_id@) >= 0 {
                    Effect {
                        state: self,
                        ok: false,
                        message: "device "@ + device_id@ + " already enrolled"@,
                        snmp: None,
                    }
                } else {
                    let counter = (self.credential_counter + 1) as u32;
                    let fp = fingerprint(device_id@, counter);
                    let dev = DeviceView {
                        device_id: device_id@,
                        mac: mac@,
                        state: ProvisioningState::Pending,
                        credential_fingerprint: fp,
                        credential_version: 1,
                    };
                    Effect {
                        state: GatewayState { credential_counter: counter, devices: self.devices.push(dev), ..self },
                        ok: true,
                        message: "enrolled "@ + device_id@ + " (pending), credential "@ + fp,
                        snmp: None,
                    }
                }
            },
            GatewayCommand::ClaimDevice { device_id } => {
                let i = device_index(self.devices, device_id@);
                if i < 0 {
                    Effect { state: self, ok: false, message: "unknown device "@ + device_id@, snmp: None }
                } else if self.devices[i].state != ProvisioningState::Pending {
                    Effect {
                        state: self,
                        ok: false,
                        message: "device "@ + device_id@ + " is "@ + state_debug(self.devices[i].state)
                            + ", only pending devices can be claimed"@,
                        snmp: None,
                    }
                } else {
                    let devices = self.devices.update(i, DeviceView { state: ProvisioningState::Active, ..self.devices[i] });
                    let mac = self.devices[i].mac;
                    let nodes = if has_mac(self.nodes, mac) {
                        self.nodes
                    } else {
                        self.nodes.push(NodeView {
                            mac: mac,
                            ip: "192.168.4."@ + dec(10 + self.nodes.len()),
                            free_heap_bytes: NODE_FREE_HEAP_BYTES,
                            online: self.downstream_online,
                        })
                    };
                    Effect {
                        state: GatewayState { devices: devices, nodes: nodes, ..self },
                        ok: true,
                        message: "claimed "@ + device_id@ + " (active)"@,
                        snmp: None,
                    }
                }
            },
            GatewayCommand::RotateCredential { device_id } => {
                let i = device_index(self.devices, device_id@);
                if i < 0 {
                    Effect { state: self, ok: false, message: "unknown device "@ + device_id@, snmp: None }
                } else if self.devices[i].state == ProvisioningState::Revoked {
                    Effect {
                        state: self,
                        ok: false,
                        message: "device "@ + device_id@ + " is revoked; cannot rotate"@,
                        snmp: None,
                    }
                } else {
                    let counter = (self.credential_counter + 1) as u32;
                    let fp = fingerprint(device_id@, counter);
                    let version = (self.devices[i].credential_version + 1) as u32;
                    let devices = self.devices.update(
                        i,
                        DeviceView { credential_fingerprint: fp, credential_version: version, ..self.devices[i] },
                    );
                    Effect {
                        state: GatewayState { credential_counter: counter, devices: devices, ..self },
                        ok: true,
                        message: "rotated "@ + device_id@ + " credential to "@ + fp + " (v"@ + dec(version as nat) + ")"@,
                        snmp: None,
                    }
                }
            },
            GatewayCommand::RevokeDevice { device_id } => {
                let i = device_index(self.devices, device_id@);
                if i < 0 {
                    Effect { state: self, ok: false, message: "unknown device "@ + device_id@, snmp: None }
                } else if self.devices[i].state == ProvisioningState::Revoked {
                    Effect {
                        state: self,
                        ok: false,
                        message: "device "@ + device_id@ + " already revoked"@,
                        snmp: None,
                    }
                } else {
                    let devices = self.devices.update(i, DeviceView { state: ProvisioningState::Revoked, ..self.devices[i] });
                    Effect {
                        state: GatewayState { devices: devices, nodes: without_mac(self.nodes, self.devices[i].mac), ..self },
                        ok: true,
                        message: "revoked "@ + device_id@,
                        snmp: None,
                    }
                }
            },
        }
    }

    /// The state after applying `cmd`.
    pub open spec fn step(self, cmd: GatewayCommand) -> GatewayState {
        let e = self.effect(cmd);
        e.state.record(command_name(cmd) + ": "@ + e.message)
    }

    /// The response to applying `cmd`.
    pub open spec fn response(self, cmd: GatewayCommand) -> ResponseView {
        let e = self.effect(cmd);
        ResponseView {
            ok: e.ok,
            command: command_name(cmd),
            message: e.message,
            snmp: e.snmp,
            snapshot: self.step(cmd).snapshot(),
        }
    }
}

} // verus!
