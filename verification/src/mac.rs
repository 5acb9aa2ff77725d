//! MAC address parsing for the firmware build configuration.

use vstd::prelude::*;
use vstd::string::*;

verus! {

/// Value of an ASCII hexadecimal digit.
pub open spec fn hex_value(b: u8) -> Option<u8> {
    if 48 <= b && b <= 57 {
        Some((b - 48) as u8)
    } else if 97 <= b && b <= 102 {
        Some((b - 97 + 10) as u8)
    } else if 65 <= b && b <= 70 {
        Some((b - 65 + 10) as u8)
    } else {
        None
    }
}

/// The hexadecimal digit values of `bytes`, in order; every other byte
/// (separators included) is skipped.
pub open spec fn hex_digits(bytes: Seq<u8>) -> Seq<u8>
    decreases bytes.len(),
{
    if bytes.len() == 0 {
        Seq::empty()
    } else {
        let d = hex_digits(bytes.drop_last());
        match hex_value(bytes.last()) {
            Some(v) => d.push(v),
            None => d,
        }
    }
}

/// Byte `i` of a MAC built from digit values: digits `2i` and `2i+1`, or 0
/// when there are not enough digits.
pub open spec fn mac_byte(digits: Seq<u8>, i: int) -> u8 {
    if 2 * i + 1 < digits.len() {
        (digits[2 * i] * 16 + digits[2 * i + 1]) as u8
    } else {
        0
    }
}

fn hex_value_exec(b: u8) -> (r: Option<u8>)
    ensures
        r == hex_value(b),
{
    if 48 <= b && b <= 57 {
        Some(b - 48)
    } else if 97 <= b && b <= 102 {
        Some(b - 97 + 10)
    } else if 65 <= b && b <= 70 {
        Some(b - 65 + 10)
    } else {
        None
    }
}

/// Parses a MAC such as `14:C1:9F:CB:51:B4`: the first twelve hexadecimal
/// digits, either case, taken in pairs; any other character is skipped.
/// Missing bytes are 0 and digits after the twelfth are ignored.
pub fn parse_mac(s: &str) -> (mac: [u8; 6])
    ensures
        forall|i: int| 0 <= i < 6 ==> #[trigger] mac@[i] == mac_byte(hex_digits(s.spec_bytes()), i),
{
    let bytes = s.as_bytes();
    let mut mac = [0u8; 6];
    let mut idx: usize = 0;
    let mut hi: Option<u8> = None;
    let mut k: usize = 0;
    while k < bytes.len()
        invariant
            k <= bytes@.len(),
            ({
                let ds = hex_digits(bytes@.subrange(0, k as int));
                &&& idx as int == if ds.len() / 2 < 6 { ds.len() / 2 } else { 6 }
                &&& (ds.len() % 2 == 1 ==> hi == Some(ds.last()))
                &&& (ds.len() % 2 == 0 ==> hi is None)
                &&& forall|j: int| 0 <= j < ds.len() ==> ds[j] < 16
                &&& forall|i: int| 0 <= i < 6 ==> #[trigger] mac@[i] == mac_byte(ds, i)
            }),
        decreases bytes@.len() - k,
    {
        let ghost ds0 = hex_digits(bytes@.subrange(0, k as int));
        proof {
            assert(bytes@.subrange(0, k + 1).drop_last() =~= bytes@.subrange(0, k as int));
            assert(bytes@.subrange(0, k + 1).last() == bytes@[k as int]);
        }
        match hex_value_exec(bytes[k]) {
            None => {
                proof {
                    assert(hex_digits(bytes@.subrange(0, k + 1)) == ds0);
                }
            },
            Some(v) => {
                let ghost ds1 = ds0.push(v);
                proof {
                    assert(hex_digits(bytes@.subrange(0, k + 1)) == ds1);
                    assert(v < 16);
                }
                match hi {
                    Some(h) => {
                        proof {
                            assert(ds0.len() % 2 == 1);
                            assert(h < 16);
                        }
                        let ghost old_idx = idx;
                        if idx < 6 {
                            mac[idx] = h * 16 + v;
                            idx += 1;
                        }
                        hi = None;
                        proof {
                            assert forall|i: int| 0 <= i < 6 implies #[trigger] mac@[i] == mac_byte(ds1, i) by {
                                if 2 * i + 1 < ds0.len() {
                                    assert(ds1[2 * i] == ds0[2 * i]);
                                    assert(ds1[2 * i + 1] == ds0[2 * i + 1]);
                                    assert(i != old_idx);
                                } else if i == old_idx {
                                    assert(ds1[2 * i] == h);
                                    assert(ds1[2 * i + 1] == v);
                                } else {
                                    assert(2 * i + 1 >= ds1.len());
                                }
                            }
                        }
                    },
                    None => {
                        hi = Some(v);
                        proof {
                            assert(ds0.len() % 2 == 0);
                            assert forall|i: int| 0 <= i < 6 implies #[trigger] mac@[i] == mac_byte(ds1, i) by {
                                if 2 * i + 1 < ds0.len() {
                                    assert(ds1[2 * i] == ds0[2 * i]);
                                    assert(ds1[2 * i + 1] == ds0[2 * i + 1]);
                                }
                            }
                        }
                    },
                }
            },
        }
        k += 1;
    }
    proof {
        assert(bytes@.subrange(0, bytes@.len() as int) =~= bytes@);
    }
    mac
}

} // verus!
