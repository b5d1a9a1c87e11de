//! The shared BLE contract: identity of the peripheral, transport limits,
//! the service namespaces and the deterministic bulk test pattern.

use vstd::prelude::*;

pub mod advertisement_identity;
pub mod battery;
pub mod bulk;
pub mod device_info;
pub mod echo;
pub mod status;

verus! {

/// Advertised name of the peripheral; the central scans for it.
pub const PERIPHERAL_NAME: &'static str = "hello-espcx";

/// Fixed random Bluetooth address of the peripheral.
pub const PERIPHERAL_ADDRESS: [u8; 6] = [0xffu8, 0x8fu8, 0x1au8, 0x05u8, 0xe4u8, 0xffu8];

/// Maximum transmission unit of a connection.
pub const BLE_MTU: usize = 255;

/// Largest ATT payload: the MTU minus the three-byte ATT header.
pub const ATT_PAYLOAD_MAX: usize = BLE_MTU - 3;

/// Byte of the bulk test pattern at absolute stream offset `pos`.
pub open spec fn pattern_byte(pos: int) -> u8 {
    ((pos * 17 + 29) % 256) as u8
}

/// The test pattern as it appears from `start` on, `len` bytes long.
pub open spec fn pattern_seq(start: int, len: nat) -> Seq<u8> {
    Seq::new(len, |i: int| pattern_byte(start + i))
}

/// Only the position modulo 256 matters to the pattern.
pub proof fn lemma_pattern_mod(pos: int)
    requires
        pos >= 0,
    ensures
        pattern_byte(pos) == pattern_byte(pos % 256),
{
    let q = pos / 256;
    let r = pos % 256;
    vstd::arithmetic::div_mod::lemma_fundamental_div_mod(pos, 256);
    assert(pos * 17 + 29 == 256 * (17 * q) + (r * 17 + 29)) by (nonlinear_arith)
        requires
            pos == 256 * q + r,
    ;
    vstd::arithmetic::div_mod::lemma_mod_multiples_vanish(17 * q, r * 17 + 29, 256);
}

/// The pattern repeats every 256 positions.
pub proof fn lemma_pattern_periodic(pos: int)
    requires
        pos >= 0,
    ensures
        pattern_byte(pos + 256) == pattern_byte(pos),
{
    lemma_pattern_mod(pos);
    lemma_pattern_mod(pos + 256);
    vstd::arithmetic::div_mod::lemma_mod_multiples_vanish(1, pos, 256);
}

/// Fill `buffer` with the deterministic bulk test pattern: the byte at index
/// `i` is `((start_offset + i) * 17 + 29) % 256`.
pub fn fill_test_pattern(start_offset: usize, buffer: &mut [u8])
    ensures
        final(buffer)@ == pattern_seq(start_offset as int, old(buffer)@.len()),
{
    let n = buffer.len();
    let base: usize = start_offset % 256;
    let mut index: usize = 0;
    while index < n
        invariant
            n == buffer@.len(),
            n == old(buffer)@.len(),
            index <= n,
            base == start_offset % 256,
            forall|k: int| 0 <= k < index ==> buffer@[k] == pattern_byte(start_offset + k),
        decreases n - index,
    {
        let pos: usize = (base + index % 256) % 256;
        let value: usize = (pos * 17 + 29) % 256;
        proof {
            vstd::arithmetic::div_mod::lemma_add_mod_noop(start_offset as int, index as int, 256);
            assert(pos == (start_offset + index) % 256);
            lemma_pattern_mod(start_offset + index);
        }
        buffer[index] = value as u8;
        index += 1;
    }
    assert(buffer@ =~= pattern_seq(start_offset as int, n as nat));
}

/// Adjacent pieces of the pattern join into one piece.
pub proof fn lemma_pattern_concat(start: int, a: nat, b: nat)
    ensures
        pattern_seq(start, a) + pattern_seq(start + a, b) =~= pattern_seq(start, a + b),
{
}

} // verus!
