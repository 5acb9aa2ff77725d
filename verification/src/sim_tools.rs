//! Host-side helpers that emit the same frames and control lines as the
//! real boards.

use vstd::prelude::*;
use vstd::string::*;

use crate::codec::{encode_espnow, encode_frame, frame_wire, vendor_wire, ESP_NOW_VENDOR_ID};
use crate::frame::{Payload, TelemetryFrame};
use crate::text::{dec, dec_signed, push_dec, push_dec_signed};

verus! {

/// Which board's output to produce.
#[derive(Debug, Clone, Copy, PartialEq, Eq, Structural)]
pub enum BoardRole {
    Esp32TxNode,
    Esp32S3Gateway,
}

/// A telemetry frame carrying a boolean command.
pub fn tx_bool_frame(seq: u32, node_id: u8, timestamp_ms: u64, value: bool) -> (f: TelemetryFrame)
    ensures
        f == (TelemetryFrame { seq, timestamp_ms, node_id, payload: Payload::BoolCmd(value) }),
{
    TelemetryFrame { seq, timestamp_ms, node_id, payload: Payload::BoolCmd(value) }
}

/// A telemetry frame carrying the BOOT byte command.
pub fn tx_boot_frame(seq: u32, node_id: u8, timestamp_ms: u64, value: u8) -> (f: TelemetryFrame)
    ensures
        f == (TelemetryFrame { seq, timestamp_ms, node_id, payload: Payload::ByteCmd(value) }),
{
    TelemetryFrame { seq, timestamp_ms, node_id, payload: Payload::ByteCmd(value) }
}

/// The ESP-NOW packet the TX node sends for a serialized frame.
pub fn esp32_tx_bytes(payload: &[u8]) -> (r: Vec<u8>)
    ensures
        r@ == vendor_wire(ESP_NOW_VENDOR_ID, payload@),
{
    encode_espnow(payload)
}

/// The UART bytes the gateway forwards for a serialized frame.
pub fn esp32s3_gateway_bytes(payload: &[u8]) -> (r: Vec<u8>)
    ensures
        r@ == frame_wire(payload@),
{
    encode_frame(payload)
}

/// The bytes a board of `role` emits for a serialized frame.
pub fn write_frame_bytes(payload: &[u8], role: BoardRole) -> (r: Vec<u8>)
    ensures
        role == BoardRole::Esp32TxNode ==> r@ == vendor_wire(ESP_NOW_VENDOR_ID, payload@),
        role == BoardRole::Esp32S3Gateway ==> r@ == frame_wire(payload@),
{
    match role {
        BoardRole::Esp32TxNode => esp32_tx_bytes(payload),
        BoardRole::Esp32S3Gateway => esp32s3_gateway_bytes(payload),
    }
}

/// The runtime control line `SDRCTL,<node_id>,<tx_power_dbm>,<boot_byte>`.
pub open spec fn control_line(node_id: u8, tx_power_dbm: i8, boot_byte: u8) -> Seq<char> {
    "SDRCTL,"@ + dec(node_id as nat) + ","@ + dec_signed(tx_power_dbm as int) + ","@ + dec(boot_byte as nat) + "\n"@
}

/// The gateway control line that sets a TX node's power and BOOT byte.
pub fn gateway_control_line(node_id: u8, tx_power_dbm: i8, boot_byte: u8) -> (s: String)
    ensures
        s@ == control_line(node_id, tx_power_dbm, boot_byte),
{
    let mut s = String::from_str("SDRCTL,");
    push_dec(&mut s, node_id as u128);
    s.append(",");
    push_dec_signed(&mut s, tx_power_dbm as i64);
    s.append(",");
    push_dec(&mut s, boot_byte as u128);
    s.append("\n");
    s
}

} // verus!
