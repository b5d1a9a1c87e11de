//! Bluetooth UUIDs as 128-bit values.

use vstd::prelude::*;

use crate::render::{hex_char, hex_digit, push_char};

verus! {

/// The Bluetooth Base UUID `00000000-0000-1000-8000-00805F9B34FB`.
pub const BLUETOOTH_BASE_UUID: u128 = 0x0000_0000_0000_1000_8000_0080_5F9B_34FB;

/// The 128-bit form of a 16-bit SIG-assigned UUID: the 16-bit value stands
/// in bits 96..112 of the Bluetooth Base UUID.
pub open spec fn uuid16_to_u128(v: u16) -> u128 {
    (BLUETOOTH_BASE_UUID + (v as u128) * 0x1_0000_0000_0000_0000_0000_0000) as u128
}

/// A 128-bit Bluetooth UUID.
#[derive(Clone, Copy, Debug, PartialEq, Eq, Structural)]
pub struct Uuid {
    pub value: u128,
}

impl Uuid {
    /// The UUID for a 16-bit SIG-assigned value.
    pub fn from_u16(v: u16) -> (r: Uuid)
        ensures
            r.value == uuid16_to_u128(v),
    {
        Uuid { value: BLUETOOTH_BASE_UUID + (v as u128) * 0x1_0000_0000_0000_0000_0000_0000 }
    }

    /// The UUID with the given 128-bit value.
    pub fn from_u128(v: u128) -> (r: Uuid)
        ensures
            r.value == v,
    {
        Uuid { value: v }
    }

    /// The UUID's 128-bit value.
    pub fn as_u128(&self) -> (r: u128)
        ensures
            r == self.value,
    {
        self.value
    }
}

/// The 4-bit group `i` of a 128-bit value, counting from the most
/// significant (0) to the least significant (31).
pub open spec fn nibble(v: u128, i: int) -> u8 {
    ((v >> ((124 - 4 * i) as u128)) & 0xfu128) as u8
}

/// Which 4-bit group the character at position `k` of the hyphenated form
/// shows.
pub open spec fn nibble_index(k: int) -> int {
    if k < 8 {
        k
    } else if k < 13 {
        k - 1
    } else if k < 18 {
        k - 2
    } else if k < 23 {
        k - 3
    } else {
        k - 4
    }
}

/// The character at position `k` of the hyphenated form: hyphens at 8, 13,
/// 18 and 23, lower-case hexadecimal digits elsewhere.
pub open spec fn uuid_char(v: u128, k: int) -> char {
    if k == 8 || k == 13 || k == 18 || k == 23 {
        '-'
    } else {
        hex_char(nibble(v, nibble_index(k)) as int)
    }
}

/// The hyphenated lower-case text of a UUID,
/// `xxxxxxxx-xxxx-xxxx-xxxx-xxxxxxxxxxxx`.
pub open spec fn uuid_text(v: u128) -> Seq<char> {
    Seq::new(36, |k: int| uuid_char(v, k))
}

impl Uuid {
    /// Append the hyphenated lower-case text of the UUID.
    pub fn push_text(&self, out: &mut String)
        ensures
            final(out)@ == old(out)@ + uuid_text(self.value),
    {
        let v = self.value;
        let ghost start = out@;
        let mut k: usize = 0;
        while k < 36
            invariant
                k <= 36,
                out@ == start + uuid_text(v).take(k as int),
            decreases 36 - k,
        {
            let c = if k == 8 || k == 13 || k == 18 || k == 23 {
                '-'
            } else {
                let i: usize = if k < 8 {
                    k
                } else if k < 13 {
                    k - 1
                } else if k < 18 {
                    k - 2
                } else if k < 23 {
                    k - 3
                } else {
                    k - 4
                };
                let shift: u128 = (124 - 4 * i) as u128;
                let n: u8 = ((v >> shift) & 0xfu128) as u8;
                assert(n < 16) by (bit_vector)
                    requires n == ((v >> shift) & 0xfu128) as u8;
                hex_digit(n)
            };
            push_char(out, c);
            assert(uuid_text(v).take(k + 1) =~= uuid_text(v).take(k as int).push(uuid_char(v, k as int)));
            k += 1;
        }
        assert(uuid_text(v).take(36) =~= uuid_text(v));
    }

    /// The hyphenated lower-case text of the UUID.
    pub fn to_text(&self) -> (r: String)
        ensures
            r@ == uuid_text(self.value),
    {
        let mut out = String::new();
        self.push_text(&mut out);
        assert(out@ =~= uuid_text(self.value));
        out
    }
}

} // verus!
