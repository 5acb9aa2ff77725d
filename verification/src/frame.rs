//! The telemetry frame carried end to end through the pipeline.

use vstd::prelude::*;

verus! {

/// Command value carried by a telemetry frame.
#[derive(Clone, Copy, Debug, PartialEq, Eq, Structural)]
pub enum Payload {
    BoolCmd(bool),
    ByteCmd(u8),
}

/// One telemetry frame: a per-node sequence number, a timestamp and a payload.
#[derive(Clone, Copy, Debug, PartialEq, Eq, Structural)]
pub struct TelemetryFrame {
    pub seq: u32,
    pub timestamp_ms: u64,
    pub node_id: u8,
    pub payload: Payload,
}

/// Why a received packet was not accepted.
#[derive(Debug, Clone, Copy, PartialEq, Eq, Structural)]
pub enum DecodeError {
    Cobs,
    TooShort,
    CrcMismatch,
    Postcard,
    VendorMismatch,
}

impl DecodeError {
    /// Human readable description of the error.
    pub open spec fn spec_message(self) -> Seq<char> {
        match self {
            DecodeError::Cobs => "COBS decode error"@,
            DecodeError::TooShort => "Frame too short for CRC"@,
            DecodeError::CrcMismatch => "CRC mismatch"@,
            DecodeError::Postcard => "Postcard deserialization error"@,
            DecodeError::VendorMismatch => "ESP-NOW vendor ID mismatch"@,
        }
    }

    /// Human readable description of the error.
    pub fn message(&self) -> (r: &'static str)
        ensures
            r@ == self.spec_message(),
    {
        match self {
            DecodeError::Cobs => "COBS decode error",
            DecodeError::TooShort => "Frame too short for CRC",
            DecodeError::CrcMismatch => "CRC mismatch",
            DecodeError::Postcard => "Postcard deserialization error",
            DecodeError::VendorMismatch => "ESP-NOW vendor ID mismatch",
        }
    }
}

} // verus!
