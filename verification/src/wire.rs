//! The postcard wire format of the values the two sides exchange over GATT:
//! the status boolean, bulk control commands and bulk statistics.
//!
//! postcard writes a `bool` as one byte 0 or 1, a `u32` as a varint (seven
//! bits per byte, least significant group first, high bit set on every byte
//! but the last, at most five bytes), a struct or tuple as its fields in
//! order, and an enum variant as its index as a varint followed by its
//! fields.

use vstd::prelude::*;

use crate::error::BtleplusError;
use crate::protocol::bulk::{BulkControlCommand, BulkStats, CONTROL_CAPACITY, STATS_CAPACITY};
use crate::protocol::status::CAPACITY as STATUS_CAPACITY;

verus! {

#[verifier::external_type_specification]
#[verifier::external_body]
pub struct ExPostcardError(postcard::Error);

/// The varint encoding of `v`.
pub open spec fn varint(v: nat) -> Seq<u8>
    decreases v,
{
    if v < 128 {
        seq![v as u8]
    } else {
        seq![(v % 128 + 128) as u8] + varint(v / 128)
    }
}

/// Reading a `u32` varint from byte `i` on, having read `acc` so far, when
/// the group at `i` has weight `weight`: the value and the index after it,
/// or `None` when the input ends, runs past five bytes, or the fifth byte
/// carries more than the four bits a `u32` has left.
pub open spec fn varint_take_from(bytes: Seq<u8>, i: nat, acc: nat, weight: nat) -> Option<(nat, nat)>
    decreases 5 - i,
{
    if i >= 5 || i >= bytes.len() {
        None
    } else {
        let b = bytes[i as int];
        let value = acc + (b % 128) as nat * weight;
        if b < 128 {
            if i == 4 && b > 15 {
                None
            } else {
                Some((value, (i + 1) as nat))
            }
        } else {
            varint_take_from(bytes, (i + 1) as nat, value, weight * 128)
        }
    }
}

/// Reading a `u32` varint from the start of `bytes`: the value and the
/// number of bytes it took.
pub open spec fn varint_take(bytes: Seq<u8>) -> Option<(nat, nat)> {
    varint_take_from(bytes, 0, 0, 1)
}

/// Reading a `bool` from the start of `bytes`.
pub open spec fn bool_take(bytes: Seq<u8>) -> Option<bool> {
    if bytes.len() == 0 {
        None
    } else if bytes[0] == 0 {
        Some(false)
    } else if bytes[0] == 1 {
        Some(true)
    } else {
        None
    }
}

/// The encoding of a status value.
pub open spec fn status_bytes(value: bool) -> Seq<u8> {
    seq![if value { 1u8 } else { 0u8 }]
}

/// The encoding of a bulk control command.
pub open spec fn control_bytes(cmd: BulkControlCommand) -> Seq<u8> {
    match cmd {
        BulkControlCommand::Idle => varint(0),
        BulkControlCommand::ResetStats => varint(1),
        BulkControlCommand::StartStream { total_bytes } => varint(2) + varint(total_bytes as nat),
    }
}

/// The encoding of bulk statistics.
pub open spec fn stats_bytes(stats: BulkStats) -> Seq<u8> {
    varint(stats.rx_bytes as nat) + varint(stats.tx_bytes as nat)
}

/// The status value that `bytes` begin with.
pub open spec fn spec_decode_status(bytes: Seq<u8>) -> Option<bool> {
    bool_take(bytes)
}

/// The bulk control command that `bytes` begin with.
pub open spec fn spec_decode_control(bytes: Seq<u8>) -> Option<BulkControlCommand> {
    match varint_take(bytes) {
        Some((index, n)) => if index == 0 {
            Some(BulkControlCommand::Idle)
        } else if index == 1 {
            Some(BulkControlCommand::ResetStats)
        } else if index == 2 {
            match varint_take(bytes.skip(n as int)) {
                Some((total, _)) => Some(BulkControlCommand::StartStream { total_bytes: total as u32 }),
                None => None,
            }
        } else {
            None
        },
        None => None,
    }
}

/// The bulk statistics that `bytes` begin with.
pub open spec fn spec_decode_stats(bytes: Seq<u8>) -> Option<BulkStats> {
    match varint_take(bytes) {
        Some((rx, n)) => match varint_take(bytes.skip(n as int)) {
            Some((tx, _)) => Some(BulkStats { rx_bytes: rx as u32, tx_bytes: tx as u32 }),
            None => None,
        },
        None => None,
    }
}

/// `postcard::to_slice` on a `bool`: on success the buffer begins with the
/// value's encoding and the rest of it is untouched; it fails only when the
/// encoding does not fit.
#[verifier::external_body]
fn postcard_bool_to_slice(value: bool, buf: &mut [u8]) -> (r: Result<usize, postcard::Error>)
    ensures
        final(buf)@.len() == old(buf)@.len(),
        match r {
            Ok(n) => n == status_bytes(value).len() && n <= old(buf)@.len()
                && final(buf)@.subrange(0, n as int) == status_bytes(value)
                && final(buf)@.skip(n as int) == old(buf)@.skip(n as int),
            Err(_) => status_bytes(value).len() > old(buf)@.len(),
        },
{
    postcard::to_slice(&value, buf).map(|used| used.len())
}

/// `postcard::to_slice` on a `u32`: on success the buffer begins with the
/// value's varint and the rest of it is untouched; it fails only when the
/// encoding does not fit.
#[verifier::external_body]
fn postcard_u32_to_slice(value: u32, buf: &mut [u8]) -> (r: Result<usize, postcard::Error>)
    ensures
        final(buf)@.len() == old(buf)@.len(),
        match r {
            Ok(n) => n == varint(value as nat).len() && n <= old(buf)@.len()
                && final(buf)@.subrange(0, n as int) == varint(value as nat)
                && final(buf)@.skip(n as int) == old(buf)@.skip(n as int),
            Err(_) => varint(value as nat).len() > old(buf)@.len(),
        },
{
    postcard::to_slice(&value, buf).map(|used| used.len())
}

/// `postcard::to_slice` on a pair of `u32`: on success the buffer begins with
/// the two varints and the rest of it is untouched; it fails only when the
/// encoding does not fit.
#[verifier::external_body]
fn postcard_u32_pair_to_slice(first: u32, second: u32, buf: &mut [u8]) -> (r: Result<usize, postcard::Error>)
    ensures
        final(buf)@.len() == old(buf)@.len(),
        match r {
            Ok(n) => n == (varint(first as nat) + varint(second as nat)).len() && n <= old(buf)@.len()
                && final(buf)@.subrange(0, n as int) == varint(first as nat) + varint(second as nat)
                && final(buf)@.skip(n as int) == old(buf)@.skip(n as int),
            Err(_) => (varint(first as nat) + varint(second as nat)).len() > old(buf)@.len(),
        },
{
    postcard::to_slice(&(first, second), buf).map(|used| used.len())
}

/// `postcard::take_from_bytes` at `bool`: the value the bytes begin with and
/// the bytes after it, or an error when they do not begin with one.
#[verifier::external_body]
fn postcard_take_bool<'a>(bytes: &'a [u8]) -> (r: Result<(bool, &'a [u8]), postcard::Error>)
    ensures
        match r {
            Ok((v, rest)) => bool_take(bytes@) == Some(v) && rest@ == bytes@.skip(1),
            Err(_) => bool_take(bytes@) is None,
        },
{
    postcard::take_from_bytes::<bool>(bytes)
}

/// `postcard::take_from_bytes` at `u32`: the varint the bytes begin with
/// and the bytes after it, or an error when they do not begin with one.
#[verifier::external_body]
fn postcard_take_u32<'a>(bytes: &'a [u8]) -> (r: Result<(u32, &'a [u8]), postcard::Error>)
    ensures
        match r {
            Ok((v, rest)) => varint_take(bytes@) matches Some((x, n)) && x == v && rest@ == bytes@.skip(n as int),
            Err(_) => varint_take(bytes@) is None,
        },
{
    postcard::take_from_bytes::<u32>(bytes)
}

/// The weight of the `i`-th seven-bit group: 128 to the power `i`.
pub open spec fn group_weight(i: nat) -> nat
    decreases i,
{
    if i == 0 { 1 } else { 128 * group_weight((i - 1) as nat) }
}

/// A varint's bytes: every byte but the last has its high bit set, and it
/// takes at most `k` bytes when the value is below 128 to the power `k`.
pub proof fn lemma_varint_len(v: nat, k: nat)
    requires
        k >= 1,
        v < group_weight(k),
    ensures
        1 <= varint(v).len() <= k,
    decreases v,
{
    if v >= 128 {
        assert(group_weight(k) == 128 * group_weight((k - 1) as nat));
        assert(v / 128 < group_weight((k - 1) as nat)) by (nonlinear_arith)
            requires v < 128 * group_weight((k - 1) as nat), v >= 128;
        if k == 1 {
            assert(group_weight(0) == 1);
        }
        lemma_varint_len(v / 128, (k - 1) as nat);
    }
}

/// Reading back a varint written at byte `i` yields its value, scaled by
/// the weight of position `i`, and the index after it.
pub proof fn lemma_varint_take_from(v: nat, bytes: Seq<u8>, i: nat, acc: nat)
    requires
        i <= 4,
        i <= bytes.len(),
        varint(v).is_prefix_of(bytes.skip(i as int)),
        v * group_weight(i) < 0x1_0000_0000,
    ensures
        varint_take_from(bytes, i, acc, group_weight(i)) == Some((acc + v * group_weight(i), i + varint(v).len())),
    decreases v,
{
    reveal_with_fuel(group_weight, 5);
    let w = group_weight(i);
    assert(w >= 1) by {
        assert(group_weight(0) == 1);
    }
    assert(varint(v).len() >= 1);
    let b = varint(v)[0];
    assert(i < bytes.len());
    assert(bytes.skip(i as int)[0] == bytes[i as int]);
    assert(bytes[i as int] == b);
    if v < 128 {
        assert(b == v as u8);
        if i == 4 {
            assert(w == 268435456);
            assert(v < 16) by (nonlinear_arith)
                requires v * w < 0x1_0000_0000, w == 268435456;
        }
        assert((b % 128) as nat == v);
        assert(varint(v).len() == 1);
    } else {
        assert(b == (v % 128 + 128) as u8);
        assert((b % 128) as nat == v % 128);
        let rest = v / 128;
        assert(varint(v) == seq![b] + varint(rest));
        assert(varint(rest).is_prefix_of(bytes.skip((i + 1) as int))) by {
            assert forall|k: int| 0 <= k < varint(rest).len() implies varint(rest)[k] == bytes.skip((i + 1) as int)[k] by {
                assert(varint(rest)[k] == varint(v)[k + 1]);
                assert(varint(v)[k + 1] == bytes.skip(i as int)[k + 1]);
            }
            assert(varint(rest) =~= bytes.skip((i + 1) as int).subrange(0, varint(rest).len() as int));
        }
        assert(i < 4) by {
            if i == 4 {
                assert(w == 268435456);
                assert(false) by (nonlinear_arith)
                    requires v * w < 0x1_0000_0000, w == 268435456, v >= 128;
            }
        }
        assert(group_weight((i + 1) as nat) == w * 128);
        assert(rest * (w * 128) < 0x1_0000_0000) by (nonlinear_arith)
            requires v * w < 0x1_0000_0000, rest == v / 128, w >= 1;
        let acc2 = acc + (v % 128) * w;
        lemma_varint_take_from(rest, bytes, (i + 1) as nat, acc2);
        assert(acc2 + rest * (w * 128) == acc + v * w) by (nonlinear_arith)
            requires acc2 == acc + (v % 128) * w, rest == v / 128;
    }
}

/// A `u32` written as a varint, followed by anything, reads back as itself.
pub proof fn lemma_varint_roundtrip(v: u32, rest: Seq<u8>)
    ensures
        varint_take(varint(v as nat) + rest) == Some((v as nat, varint(v as nat).len())),
        (varint(v as nat) + rest).skip(varint(v as nat).len() as int) == rest,
{
    let bytes = varint(v as nat) + rest;
    assert(bytes.skip(0) =~= bytes);
    assert(varint(v as nat) =~= bytes.subrange(0, varint(v as nat).len() as int));
    assert(group_weight(0) == 1);
    lemma_varint_take_from(v as nat, bytes, 0, 0);
    assert(bytes.skip(varint(v as nat).len() as int) =~= rest);
}

/// The first `n` bytes of `buf` as a new vector.
fn prefix_to_vec(buf: &[u8], n: usize) -> (r: Vec<u8>)
    requires
        n <= buf@.len(),
    ensures
        r@ == buf@.subrange(0, n as int),
{
    let mut r: Vec<u8> = Vec::new();
    let mut i: usize = 0;
    while i < n
        invariant
            i <= n,
            n <= buf@.len(),
            r@ == buf@.subrange(0, i as int),
        decreases n - i,
    {
        r.push(buf[i]);
        assert(buf@.subrange(0, i + 1) =~= buf@.subrange(0, i as int).push(buf@[i as int]));
        i += 1;
    }
    r
}

/// Encode a status value, as written to the Status characteristic.
pub fn status_value(value: bool) -> (r: Vec<u8>)
    ensures
        r@ == status_bytes(value),
{
    let mut buf: Vec<u8> = vec![0u8; STATUS_CAPACITY];
    match postcard_bool_to_slice(value, buf.as_mut_slice()) {
        Ok(n) => prefix_to_vec(buf.as_slice(), n),
        Err(_) => Vec::new(),
    }
}

/// Encode a bulk control command, as written to the control characteristic.
pub fn control_value(cmd: BulkControlCommand) -> (r: Vec<u8>)
    ensures
        r@ == control_bytes(cmd),
{
    let mut buf: Vec<u8> = vec![0u8; CONTROL_CAPACITY];
    let written = match cmd {
        BulkControlCommand::Idle => postcard_u32_to_slice(0, buf.as_mut_slice()),
        BulkControlCommand::ResetStats => postcard_u32_to_slice(1, buf.as_mut_slice()),
        BulkControlCommand::StartStream { total_bytes } => {
            proof {
                reveal_with_fuel(group_weight, 6);
                lemma_varint_len(2, 1);
                lemma_varint_len(total_bytes as nat, 5);
            }
            postcard_u32_pair_to_slice(2, total_bytes, buf.as_mut_slice())
        },
    };
    match written {
        Ok(n) => prefix_to_vec(buf.as_slice(), n),
        Err(_) => Vec::new(),
    }
}

/// Encode bulk statistics, as written to the statistics characteristic.
pub fn stats_value(stats: BulkStats) -> (r: Vec<u8>)
    ensures
        r@ == stats_bytes(stats),
{
    let mut buf: Vec<u8> = vec![0u8; STATS_CAPACITY];
    proof {
        reveal_with_fuel(group_weight, 6);
        lemma_varint_len(stats.rx_bytes as nat, 5);
        lemma_varint_len(stats.tx_bytes as nat, 5);
    }
    match postcard_u32_pair_to_slice(stats.rx_bytes, stats.tx_bytes, buf.as_mut_slice()) {
        Ok(n) => prefix_to_vec(buf.as_slice(), n),
        Err(_) => Vec::new(),
    }
}

/// The error reported for bytes that do not decode.
fn deserialize_error() -> (e: BtleplusError)
    ensures
        e matches BtleplusError::Deserialize(m) && m@ == "postcard deserialize failed"@,
{
    BtleplusError::Deserialize("postcard deserialize failed".to_owned())
}

/// Decode a status value from the bytes read from the Status
/// characteristic; bytes after the value are ignored.
pub fn decode_status(bytes: &[u8]) -> (r: Result<bool, BtleplusError>)
    ensures
        match spec_decode_status(bytes@) {
            Some(v) => r == Ok::<bool, BtleplusError>(v),
            None => r matches Err(BtleplusError::Deserialize(m)) && m@ == "postcard deserialize failed"@,
        },
{
    match postcard_take_bool(bytes) {
        Ok((v, _)) => Ok(v),
        Err(_) => Err(deserialize_error()),
    }
}

/// Decode a bulk control command; bytes after the command are ignored.
pub fn decode_control_command(bytes: &[u8]) -> (r: Result<BulkControlCommand, BtleplusError>)
    ensures
        match spec_decode_control(bytes@) {
            Some(c) => r == Ok::<BulkControlCommand, BtleplusError>(c),
            None => r matches Err(BtleplusError::Deserialize(m)) && m@ == "postcard deserialize failed"@,
        },
{
    match postcard_take_u32(bytes) {
        Ok((index, rest)) => {
            if index == 0 {
                Ok(BulkControlCommand::Idle)
            } else if index == 1 {
                Ok(BulkControlCommand::ResetStats)
            } else if index == 2 {
                match postcard_take_u32(rest) {
                    Ok((total_bytes, _)) => Ok(BulkControlCommand::StartStream { total_bytes }),
                    Err(_) => Err(deserialize_error()),
                }
            } else {
                Err(deserialize_error())
            }
        },
        Err(_) => Err(deserialize_error()),
    }
}

/// Decode bulk statistics; bytes after them are ignored.
pub fn decode_bulk_stats(bytes: &[u8]) -> (r: Result<BulkStats, BtleplusError>)
    ensures
        match spec_decode_stats(bytes@) {
            Some(s) => r == Ok::<BulkStats, BtleplusError>(s),
            None => r matches Err(BtleplusError::Deserialize(m)) && m@ == "postcard deserialize failed"@,
        },
{
    match postcard_take_u32(bytes) {
        Ok((rx_bytes, rest)) => match postcard_take_u32(rest) {
            Ok((tx_bytes, _)) => Ok(BulkStats { rx_bytes, tx_bytes }),
            Err(_) => Err(deserialize_error()),
        },
        Err(_) => Err(deserialize_error()),
    }
}

/// A status value written by one side is read back unchanged by the other,
/// whatever follows it.
pub proof fn lemma_status_roundtrip(value: bool, rest: Seq<u8>)
    ensures
        spec_decode_status(status_bytes(value) + rest) == Some(value),
{
}

/// A bulk control command written by the central is decoded unchanged by
/// the peripheral, whatever follows it.
pub proof fn lemma_control_roundtrip(cmd: BulkControlCommand, rest: Seq<u8>)
    ensures
        spec_decode_control(control_bytes(cmd) + rest) == Some(cmd),
{
    match cmd {
        BulkControlCommand::Idle => {
            lemma_varint_roundtrip(0, rest);
        },
        BulkControlCommand::ResetStats => {
            lemma_varint_roundtrip(1, rest);
        },
        BulkControlCommand::StartStream { total_bytes } => {
            let tail = varint(total_bytes as nat) + rest;
            assert(control_bytes(cmd) + rest =~= varint(2) + tail);
            lemma_varint_roundtrip(2, tail);
            lemma_varint_roundtrip(total_bytes, rest);
        },
    }
}

/// Bulk statistics written by the peripheral are read back unchanged by the
/// central, whatever follows them.
pub proof fn lemma_stats_roundtrip(stats: BulkStats, rest: Seq<u8>)
    ensures
        spec_decode_stats(stats_bytes(stats) + rest) == Some(stats),
{
    let tail = varint(stats.tx_bytes as nat) + rest;
    assert(stats_bytes(stats) + rest =~= varint(stats.rx_bytes as nat) + tail);
    lemma_varint_roundtrip(stats.rx_bytes, tail);
    lemma_varint_roundtrip(stats.tx_bytes, rest);
}

} // verus!
