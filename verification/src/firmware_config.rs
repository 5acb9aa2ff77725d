//! Runtime firmware configuration requested from the dashboard: which
//! settings the boards can apply, and the control line that applies them.

use vstd::prelude::*;
use vstd::string::*;

use crate::sim_tools::{control_line, gateway_control_line};
use crate::text::str_equal;

verus! {

/// A firmware configuration request. The simulator-only settings (SNR,
/// noise level, filter bandwidth, threshold) matter here only by whether
/// they were given.
#[derive(Debug, Clone)]
pub struct FirmwareConfigRequest {
    pub node_id: Option<u8>,
    pub tx_power_dbm: Option<i8>,
    pub data_bits: Option<String>,
    pub mode: Option<String>,
    pub snr_db_given: bool,
    pub noise_level_given: bool,
    pub filter_bw_mhz_given: bool,
    pub threshold_given: bool,
    pub replay_guard: Option<bool>,
}

/// What was applied and what the firmware cannot apply.
#[derive(Debug, Clone)]
pub struct FirmwareConfigResponse {
    pub ok: bool,
    pub applied: Vec<&'static str>,
    pub unsupported: Vec<&'static str>,
    pub command: String,
}

/// Value of eight ASCII `0`/`1` bytes read as a binary number, most
/// significant first.
pub open spec fn binary_value(bits: Seq<u8>) -> nat
    decreases bits.len(),
{
    if bits.len() == 0 {
        0
    } else {
        2 * binary_value(bits.drop_last()) + (bits.last() - 48) as nat
    }
}

/// `Some(byte)` exactly when `bits` is eight characters, each `0` or `1`.
pub open spec fn data_bits_value(bits: Seq<u8>) -> Option<u8> {
    if bits.len() == 8 && forall|i: int| 0 <= i < 8 ==> (#[trigger] bits[i] == 48 || bits[i] == 49) {
        Some(binary_value(bits) as u8)
    } else {
        None
    }
}

proof fn lemma_binary_bound(bits: Seq<u8>)
    requires
        forall|i: int| 0 <= i < bits.len() ==> (#[trigger] bits[i] == 48 || bits[i] == 49),
    ensures
        binary_value(bits) < crate::text::pow2(bits.len()),
    decreases bits.len(),
{
    if bits.len() > 0 {
        assert forall|i: int| 0 <= i < bits.drop_last().len() implies (#[trigger] bits.drop_last()[i] == 48 || bits.drop_last()[i] == 49) by {
            assert(bits.drop_last()[i] == bits[i]);
        }
        lemma_binary_bound(bits.drop_last());
        assert(bits.last() == 48 || bits.last() == 49);
    }
}

/// Parses an 8-bit pattern such as `10110010` into its byte.
pub fn parse_data_bits(bits: &str) -> (r: Option<u8>)
    ensures
        r == data_bits_value(bits.spec_bytes()),
{
    let b = bits.as_bytes();
    if b.len() != 8 {
        return None;
    }
    let mut value: u32 = 0;
    let mut i: usize = 0;
    while i < 8
        invariant
            b@.len() == 8,
            b@ == bits.spec_bytes(),
            i <= 8,
            forall|k: int| 0 <= k < i ==> (#[trigger] b@[k] == 48 || b@[k] == 49),
            value == binary_value(b@.subrange(0, i as int)),
            value < crate::text::pow2(i as nat),
        decreases 8 - i,
    {
        if b[i] != 48 && b[i] != 49 {
            proof {
                let k = i as int;
                assert(!(b@[k] == 48 || b@[k] == 49));
                assert(!(forall|j: int| 0 <= j < 8 ==> (#[trigger] b@[j] == 48 || b@[j] == 49)));
            }
            return None;
        }
        proof {
            assert(b@.subrange(0, i + 1).drop_last() =~= b@.subrange(0, i as int));
            assert(crate::text::pow2((i + 1) as nat) == 2 * crate::text::pow2(i as nat));
            assert(crate::text::pow2(i as nat) <= 128) by {
                reveal_with_fuel(crate::text::pow2, 9);
            }
        }
        value = 2 * value + (b[i] - 48) as u32;
        i += 1;
    }
    proof {
        assert(b@.subrange(0, 8) =~= b@);
        assert(crate::text::pow2(8) == 256) by {
            reveal_with_fuel(crate::text::pow2, 9);
        }
    }
    Some(value as u8)
}

/// The BOOT byte sent when the request gives no valid data bits.
pub const DEFAULT_BOOT_BYTE: u8 = 0xB2;

/// Text of a list of static labels.
pub open spec fn labels(v: Seq<&'static str>) -> Seq<Seq<char>> {
    v.map_values(|s: &'static str| s@)
}

/// The settings the firmware applies, in order.
pub open spec fn applied_labels(node: bool, power: bool, bits: bool) -> Seq<Seq<char>> {
    (if node { seq!["node_id"@] } else { Seq::empty() }) + (if power { seq!["tx_power_dbm"@] } else { Seq::empty() })
        + (if bits { seq!["data_bits"@] } else { Seq::empty() })
}

/// The given settings the firmware cannot apply, in order.
pub open spec fn unsupported_labels(mode_other: bool, snr: bool, noise: bool, bw: bool, threshold: bool, replay: bool) -> Seq<Seq<char>> {
    (if mode_other { seq!["mode_non_esp_now"@] } else { Seq::empty() })
        + (if snr { seq!["snr_db"@] } else { Seq::empty() })
        + (if noise { seq!["noise_level"@] } else { Seq::empty() })
        + (if bw { seq!["filter_bw_mhz"@] } else { Seq::empty() })
        + (if threshold { seq!["threshold"@] } else { Seq::empty() })
        + (if replay { seq!["replay_guard"@] } else { Seq::empty() })
}

/// The BOOT byte a request asks for.
pub open spec fn requested_boot_byte(req: FirmwareConfigRequest) -> u8 {
    match req.data_bits {
        Some(b) => match data_bits_value(vstd::utf8::encode_utf8(b@)) {
            Some(v) => v,
            None => DEFAULT_BOOT_BYTE,
        },
        None => DEFAULT_BOOT_BYTE,
    }
}

/// The control line for a request: node 0 (all nodes) and power `i8::MIN`
/// (unchanged) when not given.
pub open spec fn requested_line(req: FirmwareConfigRequest) -> Seq<char> {
    control_line(
        match req.node_id {
            Some(n) => n,
            None => 0,
        },
        match req.tx_power_dbm {
            Some(p) => p,
            None => i8::MIN,
        },
        requested_boot_byte(req),
    )
}

fn push_label(v: &mut Vec<&'static str>, cond: bool, label: &'static str)
    ensures
        labels(final(v)@) == labels(old(v)@) + if cond { seq![label@] } else { Seq::empty() },
{
    let ghost before = labels(v@);
    if cond {
        v.push(label);
        proof {
            assert(labels(v@) =~= before + seq![label@]);
        }
    } else {
        proof {
            assert(labels(v@) =~= before + Seq::<Seq<char>>::empty());
        }
    }
}

/// Plans a firmware configuration request: the control line to send to the
/// boards and the response describing which settings were applied and which
/// belong to the simulator or control plane. The response's `command` is the
/// line without its newline.
pub fn plan_firmware_config(req: &FirmwareConfigRequest) -> (r: (String, FirmwareConfigResponse))
    ensures
        r.0@ == requested_line(*req),
        r.1.ok,
        r.1.command@ == requested_line(*req).drop_last(),
        labels(r.1.applied@) == applied_labels(req.node_id is Some, req.tx_power_dbm is Some, req.data_bits is Some),
        labels(r.1.unsupported@) == unsupported_labels(
            match req.mode {
                Some(m) => m@ != "EspNow"@,
                None => false,
            },
            req.snr_db_given,
            req.noise_level_given,
            req.filter_bw_mhz_given,
            req.threshold_given,
            req.replay_guard is Some,
        ),
{
    let node_id = match req.node_id {
        Some(n) => n,
        None => 0,
    };
    let tx_power = match req.tx_power_dbm {
        Some(p) => p,
        None => i8::MIN,
    };
    let boot_byte = match &req.data_bits {
        Some(b) => match parse_data_bits(b.as_str()) {
            Some(v) => v,
            None => DEFAULT_BOOT_BYTE,
        },
        None => DEFAULT_BOOT_BYTE,
    };
    let line = gateway_control_line(node_id, tx_power, boot_byte);
    let mut command = String::new();
    let cs = crate::text::chars_of(line.as_str());
    let mut i: usize = 0;
    let n = cs.len();
    proof {
        reveal_strlit("\n");
        assert(line@.len() > 0);
    }
    while i < n - 1
        invariant
            cs@ == line@,
            n == cs@.len(),
            n > 0,
            i <= n - 1,
            command@ =~= cs@.subrange(0, i as int),
        decreases n - i,
    {
        crate::text::push_char(&mut command, cs[i]);
        i += 1;
    }
    proof {
        assert(command@ =~= line@.drop_last());
    }
    let mut applied: Vec<&'static str> = Vec::new();
    push_label(&mut applied, req.node_id.is_some(), "node_id");
    push_label(&mut applied, req.tx_power_dbm.is_some(), "tx_power_dbm");
    push_label(&mut applied, req.data_bits.is_some(), "data_bits");
    proof {
        assert(labels(Seq::<&'static str>::empty()) =~= Seq::<Seq<char>>::empty());
        assert(labels(applied@) =~= applied_labels(req.node_id is Some, req.tx_power_dbm is Some, req.data_bits is Some));
    }
    let mode_other = match &req.mode {
        Some(m) => !str_equal(m.as_str(), "EspNow"),
        None => false,
    };
    let mut unsupported: Vec<&'static str> = Vec::new();
    push_label(&mut unsupported, mode_other, "mode_non_esp_now");
    push_label(&mut unsupported, req.snr_db_given, "snr_db");
    push_label(&mut unsupported, req.noise_level_given, "noise_level");
    push_label(&mut unsupported, req.filter_bw_mhz_given, "filter_bw_mhz");
    push_label(&mut unsupported, req.threshold_given, "threshold");
    push_label(&mut unsupported, req.replay_guard.is_some(), "replay_guard");
    (line, FirmwareConfigResponse { ok: true, applied, unsupported, command })
}

} // verus!
