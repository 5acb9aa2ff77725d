//! Wire framing of telemetry payloads.
//!
//! A payload is the serialized body of a message. Two framings are used:
//! - UART / ZMQ: `COBS(payload || crc16_le)` (the `0x00` delimiter is added by
//!   the sender of a stream).
//! - ESP-NOW: `[vendor_id][payload || crc16_le]`.
//!
//! The CRC is CRC-16/XMODEM, stored little endian.

use vstd::prelude::*;

use crate::frame::DecodeError;

verus! {

/// First byte of an ESP-NOW telemetry packet.
pub const ESP_NOW_VENDOR_ID: u8 = 0x1A;

/// Largest ESP-NOW packet that the radios carry.
pub const MAX_ESP_NOW_PAYLOAD: usize = 250;

/// `n` more steps of the bitwise CRC-16 register with polynomial `0x1021`:
/// shift left, and xor the polynomial when the bit shifted out was set.
pub open spec fn crc_shift(c: u16, n: nat) -> u16
    decreases n,
{
    if n == 0 {
        c
    } else {
        crc_shift(if c & 0x8000 != 0 { (c << 1u16) ^ 0x1021 } else { c << 1u16 }, (n - 1) as nat)
    }
}

/// CRC-16/XMODEM of `data`: polynomial `0x1021`, initial value 0, bits taken
/// most significant first, no final xor.
pub open spec fn crc16_xmodem(data: Seq<u8>) -> u16
    decreases data.len(),
{
    if data.len() == 0 {
        0
    } else {
        crc_shift(crc16_xmodem(data.drop_last()) ^ ((data.last() as u16) << 8u16), 8)
    }
}

/// COBS encoding of `data` (sentinel 0), as produced by the `cobs` crate.
pub uninterp spec fn cobs_encoding(data: Seq<u8>) -> Seq<u8>;

/// COBS decoding of `data` (sentinel 0) by the `cobs` crate; `None` when the
/// input is not a valid encoding.
pub uninterp spec fn cobs_decoding(data: Seq<u8>) -> Option<Seq<u8>>;

/// Computes the CRC with `crc16::State::<crc16::XMODEM>::calculate`.
/// Trusted: the crate's XMODEM parameters (poly `0x1021`, init 0, no
/// reflection, no final xor) make the result `crc16_xmodem` of the bytes.
#[verifier::external_body]
pub(crate) fn crc16_xmodem_of(data: &[u8]) -> (r: u16)
    ensures
        r == crc16_xmodem(data@),
{
    crc16::State::<crc16::XMODEM>::calculate(data)
}

/// Encodes with `cobs::encode_vec`. Trusted: the result is the named encoding;
/// it holds no `0x00` byte (the purpose of COBS); and a non-empty input gives
/// a non-empty encoding that `cobs::decode_vec` turns back into the input.
#[verifier::external_body]
fn cobs_encode(data: &[u8]) -> (r: Vec<u8>)
    ensures
        r@ == cobs_encoding(data@),
        !r@.contains(0u8),
        data@.len() > 0 ==> r@.len() > 0,
        data@.len() > 0 ==> cobs_decoding(r@) == Some(data@),
{
    cobs::encode_vec(data)
}

/// Decodes with `cobs::decode_vec`. Trusted: `Ok` exactly when the named
/// decoding is defined, and then with its bytes.
#[verifier::external_body]
fn cobs_decode(data: &[u8]) -> (r: Result<Vec<u8>, ()>)
    ensures
        match r {
            Ok(v) => cobs_decoding(data@) == Some(v@),
            Err(_) => cobs_decoding(data@) is None,
        },
{
    cobs::decode_vec(data)
}

/// The two little-endian bytes of a CRC.
pub open spec fn crc_le_bytes(crc: u16) -> Seq<u8> {
    seq![(crc % 256) as u8, (crc / 256) as u8]
}

/// The value of two little-endian bytes.
pub open spec fn le_u16(lo: u8, hi: u8) -> u16 {
    (lo + hi * 256) as u16
}

/// A payload followed by its CRC.
pub open spec fn with_crc(payload: Seq<u8>) -> Seq<u8> {
    payload + crc_le_bytes(crc16_xmodem(payload))
}

/// Checks and strips the trailing CRC of `body`.
pub open spec fn strip_crc(body: Seq<u8>) -> Result<Seq<u8>, DecodeError> {
    if body.len() < 2 {
        Err(DecodeError::TooShort)
    } else {
        let payload = body.subrange(0, body.len() - 2);
        if crc16_xmodem(payload) != le_u16(body[body.len() - 2], body[body.len() - 1]) {
            Err(DecodeError::CrcMismatch)
        } else {
            Ok(payload)
        }
    }
}

/// UART / ZMQ wire form of a payload.
pub open spec fn frame_wire(payload: Seq<u8>) -> Seq<u8> {
    cobs_encoding(with_crc(payload))
}

/// What `decode_frame` gives for the bytes `data`.
pub open spec fn frame_decoding(data: Seq<u8>) -> Result<Seq<u8>, DecodeError> {
    match cobs_decoding(data) {
        None => Err(DecodeError::Cobs),
        Some(body) => strip_crc(body),
    }
}

/// ESP-NOW wire form of a payload under a vendor id.
pub open spec fn vendor_wire(vendor: u8, payload: Seq<u8>) -> Seq<u8> {
    seq![vendor] + with_crc(payload)
}

/// What decoding an ESP-NOW packet for `vendor` gives for the bytes `data`.
pub open spec fn vendor_decoding(vendor: u8, data: Seq<u8>) -> Result<Seq<u8>, DecodeError> {
    if data.len() == 0 {
        Err(DecodeError::TooShort)
    } else if data[0] != vendor {
        Err(DecodeError::VendorMismatch)
    } else {
        strip_crc(data.subrange(1, data.len() as int))
    }
}

proof fn lemma_le_roundtrip(c: u16)
    ensures
        le_u16(crc_le_bytes(c)[0], crc_le_bytes(c)[1]) == c,
{
}

/// Stripping the CRC of a payload followed by its CRC gives the payload back.
pub proof fn lemma_strip_with_crc(payload: Seq<u8>)
    ensures
        strip_crc(with_crc(payload)) == Ok::<Seq<u8>, DecodeError>(payload),
{
    let body = with_crc(payload);
    lemma_le_roundtrip(crc16_xmodem(payload));
    assert(body.subrange(0, body.len() - 2) =~= payload);
}

/// Appends the CRC of `buf` to it.
fn append_crc(buf: &mut Vec<u8>)
    ensures
        final(buf)@ == with_crc(old(buf)@),
{
    let crc = crc16_xmodem_of(buf.as_slice());
    buf.push((crc % 256) as u8);
    buf.push((crc / 256) as u8);
}

/// Checks and strips the trailing CRC of `body`.
fn strip_crc_exec(body: &[u8]) -> (r: Result<Vec<u8>, DecodeError>)
    ensures
        match r {
            Ok(v) => strip_crc(body@) == Ok::<Seq<u8>, DecodeError>(v@),
            Err(e) => strip_crc(body@) == Err::<Seq<u8>, DecodeError>(e),
        },
{
    let n = body.len();
    if n < 2 {
        return Err(DecodeError::TooShort);
    }
    let mut payload: Vec<u8> = Vec::new();
    let mut i: usize = 0;
    while i < n - 2
        invariant
            n == body@.len(),
            n >= 2,
            i <= n - 2,
            payload@ =~= body@.subrange(0, i as int),
        decreases n - 2 - i,
    {
        payload.push(body[i]);
        i += 1;
    }
    let expected: u16 = (body[n - 2] as u16) + (body[n - 1] as u16) * 256;
    let actual = crc16_xmodem_of(payload.as_slice());
    if actual != expected {
        Err(DecodeError::CrcMismatch)
    } else {
        Ok(payload)
    }
}

/// UART / ZMQ framing: `COBS(payload || crc16_le)`.
///
/// The result decodes back to `payload` and holds no `0x00` byte, so frames
/// can be delimited by `0x00` on a byte stream.
pub fn encode_frame(payload: &[u8]) -> (r: Vec<u8>)
    ensures
        r@ == frame_wire(payload@),
        frame_decoding(r@) == Ok::<Seq<u8>, DecodeError>(payload@),
        !r@.contains(0u8),
        r@.len() > 0,
{
    let mut buf: Vec<u8> = Vec::new();
    let mut i: usize = 0;
    while i < payload.len()
        invariant
            i <= payload@.len(),
            buf@ =~= payload@.subrange(0, i as int),
        decreases payload@.len() - i,
    {
        buf.push(payload[i]);
        i += 1;
    }
    proof {
        assert(buf@ =~= payload@);
    }
    append_crc(&mut buf);
    let r = cobs_encode(buf.as_slice());
    proof {
        lemma_strip_with_crc(payload@);
        assert(buf@.len() > 0);
    }
    r
}

/// Decodes UART / ZMQ bytes back to the payload: COBS decode, then check and
/// strip the CRC.
pub fn decode_frame(data: &[u8]) -> (r: Result<Vec<u8>, DecodeError>)
    ensures
        match r {
            Ok(v) => frame_decoding(data@) == Ok::<Seq<u8>, DecodeError>(v@),
            Err(e) => frame_decoding(data@) == Err::<Seq<u8>, DecodeError>(e),
        },
{
    match cobs_decode(data) {
        Err(_) => Err(DecodeError::Cobs),
        Ok(body) => strip_crc_exec(body.as_slice()),
    }
}

/// ESP-NOW framing under a vendor id: `[vendor][payload || crc16_le]`.
pub(crate) fn encode_vendor(vendor: u8, payload: &[u8]) -> (r: Vec<u8>)
    ensures
        r@ == vendor_wire(vendor, payload@),
{
    let mut buf: Vec<u8> = Vec::new();
    let mut i: usize = 0;
    while i < payload.len()
        invariant
            i <= payload@.len(),
            buf@ =~= payload@.subrange(0, i as int),
        decreases payload@.len() - i,
    {
        buf.push(payload[i]);
        i += 1;
    }
    proof {
        assert(buf@ =~= payload@);
    }
    append_crc(&mut buf);
    let mut out: Vec<u8> = Vec::new();
    out.push(vendor);
    let mut j: usize = 0;
    while j < buf.len()
        invariant
            j <= buf@.len(),
            buf@ == with_crc(payload@),
            out@ =~= seq![vendor] + buf@.subrange(0, j as int),
        decreases buf@.len() - j,
    {
        out.push(buf[j]);
        j += 1;
    }
    proof {
        assert(buf@.subrange(0, buf@.len() as int) =~= buf@);
    }
    out
}

/// Decodes an ESP-NOW packet framed under `vendor`.
pub(crate) fn decode_vendor(vendor: u8, data: &[u8]) -> (r: Result<Vec<u8>, DecodeError>)
    ensures
        match r {
            Ok(v) => vendor_decoding(vendor, data@) == Ok::<Seq<u8>, DecodeError>(v@),
            Err(e) => vendor_decoding(vendor, data@) == Err::<Seq<u8>, DecodeError>(e),
        },
{
    if data.len() == 0 {
        return Err(DecodeError::TooShort);
    }
    if data[0] != vendor {
        return Err(DecodeError::VendorMismatch);
    }
    let mut body: Vec<u8> = Vec::new();
    let mut i: usize = 1;
    while i < data.len()
        invariant
            1 <= i <= data@.len(),
            body@ =~= data@.subrange(1, i as int),
        decreases data@.len() - i,
    {
        body.push(data[i]);
        i += 1;
    }
    strip_crc_exec(body.as_slice())
}

/// ESP-NOW telemetry framing: `[0x1A][payload || crc16_le]`.
pub fn encode_espnow(payload: &[u8]) -> (r: Vec<u8>)
    ensures
        r@ == vendor_wire(ESP_NOW_VENDOR_ID, payload@),
{
    encode_vendor(ESP_NOW_VENDOR_ID, payload)
}

/// Decodes an ESP-NOW telemetry packet back to its payload.
pub fn decode_espnow(data: &[u8]) -> (r: Result<Vec<u8>, DecodeError>)
    ensures
        match r {
            Ok(v) => vendor_decoding(ESP_NOW_VENDOR_ID, data@) == Ok::<Seq<u8>, DecodeError>(v@),
            Err(e) => vendor_decoding(ESP_NOW_VENDOR_ID, data@) == Err::<Seq<u8>, DecodeError>(e),
        },
{
    decode_vendor(ESP_NOW_VENDOR_ID, data)
}

/// An ESP-NOW packet decodes back to the payload it was framed from, under
/// the vendor id it was framed with.
pub proof fn law_vendor_roundtrip(vendor: u8, payload: Seq<u8>)
    ensures
        vendor_decoding(vendor, vendor_wire(vendor, payload)) == Ok::<Seq<u8>, DecodeError>(payload),
{
    let w = vendor_wire(vendor, payload);
    assert(w.subrange(1, w.len() as int) =~= with_crc(payload));
    lemma_strip_with_crc(payload);
}

/// A packet framed under one vendor id is refused as `VendorMismatch` under
/// any other, so one receiver can tell telemetry and gateway-link packets
/// apart by their first byte.
pub proof fn law_vendor_demux(framed: u8, expected: u8, payload: Seq<u8>)
    requires
        framed != expected,
    ensures
        vendor_decoding(expected, vendor_wire(framed, payload))
            == Err::<Seq<u8>, DecodeError>(DecodeError::VendorMismatch),
{
}

proof fn lemma_le_injective(a: u8, b: u8, c: u8, d: u8)
    requires
        le_u16(a, b) == le_u16(c, d),
    ensures
        a == c && b == d,
{
    assert(a + b * 256 < 65536 && c + d * 256 < 65536);
    assert((a + b * 256) as u16 == a + b * 256);
    assert((c + d * 256) as u16 == c + d * 256);
}

/// Corrupting either CRC byte of an ESP-NOW packet is always detected: the
/// packet is refused as `CrcMismatch`.
pub proof fn law_crc_byte_corruption_detected(vendor: u8, payload: Seq<u8>, k: int, b: u8)
    requires
        k == payload.len() + 1 || k == payload.len() + 2,
        b != vendor_wire(vendor, payload)[k],
    ensures
        vendor_decoding(vendor, vendor_wire(vendor, payload).update(k, b))
            == Err::<Seq<u8>, DecodeError>(DecodeError::CrcMismatch),
{
    let w = vendor_wire(vendor, payload);
    let c = crc16_xmodem(payload);
    let bad = w.update(k, b);
    let body = bad.subrange(1, bad.len() as int);
    let n = body.len();
    assert(body.subrange(0, n - 2) =~= payload);
    lemma_le_roundtrip(c);
    if le_u16(body[n - 2], body[n - 1]) == c {
        lemma_le_injective(body[n - 2], body[n - 1], crc_le_bytes(c)[0], crc_le_bytes(c)[1]);
        assert(w[k] == bad[k]);
    }
}

} // verus!
