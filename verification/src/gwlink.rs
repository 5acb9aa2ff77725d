//! Gateway control link messages exchanged over ESP-NOW between the
//! software-sim node and the gateway.

use vstd::prelude::*;

use crate::codec::{decode_vendor, encode_vendor, vendor_decoding, vendor_wire};
use crate::frame::DecodeError;

verus! {

/// First byte of an ESP-NOW gateway-link packet (telemetry uses 0x1A).
pub const GW_LINK_VENDOR_ID: u8 = 0x1B;

/// Wi-Fi mode reported by the gateway. `ApSta` keeps the downstream AP up;
/// `Sta` has dropped it.
#[derive(Clone, Copy, Debug, PartialEq, Eq, Structural)]
pub enum WifiMode {
    Sta,
    ApSta,
}

/// Request/response messages exchanged over the gateway control link.
#[derive(Clone, Debug, PartialEq, Eq)]
pub enum GwMsg {
    HealthReq,
    HealthResp { free_heap: u32, uptime_ms: u64, rx_count: u32, wifi_mode: WifiMode },
    ToggleReq,
    ToggleResp { downstream_online: bool, wifi_mode: WifiMode },
    DeauthReq,
    DeauthResp { kicked: u32 },
    StaListReq,
    StaListResp { count: u32 },
    SnmpSetReq { oid: String, value: String },
    SnmpGetReq { oid: String },
    SnmpResp { oid: String, value: Option<String>, ok: bool },
    EnrollReq { device_id: String, mac: String },
    ClaimReq { device_id: String },
    RotateReq { device_id: String },
    RevokeReq { device_id: String },
    ProvisionResp { device_id: String, state: String, fingerprint: String, version: u32, ok: bool },
}

/// A gateway-link message, as text.
pub enum GwMsgView {
    HealthReq,
    HealthResp { free_heap: u32, uptime_ms: u64, rx_count: u32, wifi_mode: WifiMode },
    ToggleReq,
    ToggleResp { downstream_online: bool, wifi_mode: WifiMode },
    DeauthReq,
    DeauthResp { kicked: u32 },
    StaListReq,
    StaListResp { count: u32 },
    SnmpSetReq { oid: Seq<char>, value: Seq<char> },
    SnmpGetReq { oid: Seq<char> },
    SnmpResp { oid: Seq<char>, value: Option<Seq<char>>, ok: bool },
    EnrollReq { device_id: Seq<char>, mac: Seq<char> },
    ClaimReq { device_id: Seq<char> },
    RotateReq { device_id: Seq<char> },
    RevokeReq { device_id: Seq<char> },
    ProvisionResp { device_id: Seq<char>, state: Seq<char>, fingerprint: Seq<char>, version: u32, ok: bool },
}

impl View for GwMsg {
    type V = GwMsgView;

    open spec fn view(&self) -> GwMsgView {
        match *self {
            GwMsg::HealthReq => GwMsgView::HealthReq,
            GwMsg::HealthResp { free_heap, uptime_ms, rx_count, wifi_mode } => GwMsgView::HealthResp {
                free_heap,
                uptime_ms,
                rx_count,
                wifi_mode,
            },
            GwMsg::ToggleReq => GwMsgView::ToggleReq,
            GwMsg::ToggleResp { downstream_online, wifi_mode } => GwMsgView::ToggleResp { downstream_online, wifi_mode },
            GwMsg::DeauthReq => GwMsgView::DeauthReq,
            GwMsg::DeauthResp { kicked } => GwMsgView::DeauthResp { kicked },
            GwMsg::StaListReq => GwMsgView::StaListReq,
            GwMsg::StaListResp { count } => GwMsgView::StaListResp { count },
            GwMsg::SnmpSetReq { oid, value } => GwMsgView::SnmpSetReq { oid: oid@, value: value@ },
            GwMsg::SnmpGetReq { oid } => GwMsgView::SnmpGetReq { oid: oid@ },
            GwMsg::SnmpResp { oid, value, ok } => GwMsgView::SnmpResp {
                oid: oid@,
                value: match value {
                    Some(v) => Some(v@),
                    None => None,
                },
                ok,
            },
            GwMsg::EnrollReq { device_id, mac } => GwMsgView::EnrollReq { device_id: device_id@, mac: mac@ },
            GwMsg::ClaimReq { device_id } => GwMsgView::ClaimReq { device_id: device_id@ },
            GwMsg::RotateReq { device_id } => GwMsgView::RotateReq { device_id: device_id@ },
            GwMsg::RevokeReq { device_id } => GwMsgView::RevokeReq { device_id: device_id@ },
            GwMsg::ProvisionResp { device_id, state, fingerprint, version, ok } => GwMsgView::ProvisionResp {
                device_id: device_id@,
                state: state@,
                fingerprint: fingerprint@,
                version,
                ok,
            },
        }
    }
}

/// Gateway-link ESP-NOW framing of a serialized `GwMsg`:
/// `[0x1B][payload || crc16_le]`.
pub fn encode_gw_espnow(payload: &[u8]) -> (r: Vec<u8>)
    ensures
        r@ == vendor_wire(GW_LINK_VENDOR_ID, payload@),
{
    encode_vendor(GW_LINK_VENDOR_ID, payload)
}

/// Decodes a gateway-link ESP-NOW packet to the serialized `GwMsg`. A packet
/// with another first byte (a telemetry frame) gives `VendorMismatch`, so one
/// receive callback can demultiplex both kinds.
pub fn decode_gw_espnow(data: &[u8]) -> (r: Result<Vec<u8>, DecodeError>)
    ensures
        match r {
            Ok(v) => vendor_decoding(GW_LINK_VENDOR_ID, data@) == Ok::<Seq<u8>, DecodeError>(v@),
            Err(e) => vendor_decoding(GW_LINK_VENDOR_ID, data@) == Err::<Seq<u8>, DecodeError>(e),
        },
{
    decode_vendor(GW_LINK_VENDOR_ID, data)
}

} // verus!
