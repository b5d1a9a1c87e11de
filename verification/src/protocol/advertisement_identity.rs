//! Scan-time identity of the peripheral: a compact manufacturer payload that
//! the central decodes to pick the right device.

use vstd::prelude::*;

verus! {

/// Manufacturer payload format version (current).
pub const VERSION: u8 = 1;

/// Temporary development company identifier, for local testing only.
pub const DEVELOPMENT_COMPANY_ID: u16 = 0xFFFF;

/// Product identifier of the hello-espcx product family.
pub const PRODUCT_ID_HELLO_ESPCX: u8 = 1;

/// Byte length of the current payload layout.
pub const PAYLOAD_LEN: usize = 7;

/// Reserved flag bit: the device has completed configuration.
pub const FLAG_CONFIGURED: u8 = 1;
/// Reserved flag bit: the device is bound/claimed.
pub const FLAG_BOUND: u8 = 2;
/// Reserved flag bit: the device is in test mode.
pub const FLAG_TEST_MODE: u8 = 4;
/// Reserved flag bit: the device reports low battery.
pub const FLAG_LOW_BATTERY: u8 = 8;

/// The four little-endian bytes of `v`.
pub open spec fn u32_le_bytes(v: u32) -> Seq<u8> {
    seq![(v & 0xff) as u8, ((v >> 8) & 0xff) as u8, ((v >> 16) & 0xff) as u8, ((v >> 24) & 0xff) as u8]
}

/// The `u32` whose little-endian bytes are `b0, b1, b2, b3`.
pub open spec fn u32_from_le(b0: u8, b1: u8, b2: u8, b3: u8) -> u32 {
    (b0 as u32) | ((b1 as u32) << 8) | ((b2 as u32) << 16) | ((b3 as u32) << 24)
}

/// Reading the bytes back gives the integer again.
pub proof fn lemma_u32_le_roundtrip(v: u32)
    ensures
        u32_from_le(u32_le_bytes(v)[0], u32_le_bytes(v)[1], u32_le_bytes(v)[2], u32_le_bytes(v)[3]) == v,
{
    let b0 = (v & 0xff) as u8;
    let b1 = ((v >> 8) & 0xff) as u8;
    let b2 = ((v >> 16) & 0xff) as u8;
    let b3 = ((v >> 24) & 0xff) as u8;
    assert((b0 as u32) | ((b1 as u32) << 8) | ((b2 as u32) << 16) | ((b3 as u32) << 24) == v) by (bit_vector)
        requires
            b0 == (v & 0xff) as u8,
            b1 == ((v >> 8) & 0xff) as u8,
            b2 == ((v >> 16) & 0xff) as u8,
            b3 == ((v >> 24) & 0xff) as u8,
    ;
}

/// Writing an integer read from bytes gives the bytes again.
pub proof fn lemma_u32_bytes_roundtrip(b0: u8, b1: u8, b2: u8, b3: u8)
    ensures
        u32_le_bytes(u32_from_le(b0, b1, b2, b3)) == seq![b0, b1, b2, b3],
{
    let v = u32_from_le(b0, b1, b2, b3);
    assert(
        (v & 0xff) as u8 == b0 && ((v >> 8) & 0xff) as u8 == b1
        && ((v >> 16) & 0xff) as u8 == b2 && ((v >> 24) & 0xff) as u8 == b3
    ) by (bit_vector)
        requires
            v == (b0 as u32) | ((b1 as u32) << 8) | ((b2 as u32) << 16) | ((b3 as u32) << 24),
    ;
    assert(u32_le_bytes(v) =~= seq![b0, b1, b2, b3]);
}

/// Compact manufacturer payload for scan-time device selection.
///
/// Layout (version 1): version (u8), product_id (u8), unit_id (u32,
/// little endian), flags (u8).
#[derive(Clone, Copy, Debug, PartialEq, Eq, Structural)]
pub struct ManufacturerPayload {
    pub version: u8,
    pub product_id: u8,
    pub unit_id: u32,
    pub flags: u8,
}

impl ManufacturerPayload {
    /// The payload's encoding in the version-1 layout.
    pub open spec fn spec_bytes(self) -> Seq<u8> {
        seq![self.version, self.product_id] + u32_le_bytes(self.unit_id) + seq![self.flags]
    }

    /// Build a payload with the current protocol version baked in.
    pub fn new(product_id: u8, unit_id: u32, flags: u8) -> (r: Self)
        ensures
            r == (ManufacturerPayload { version: VERSION, product_id, unit_id, flags }),
    {
        ManufacturerPayload { version: VERSION, product_id, unit_id, flags }
    }

    /// Whether any bit of `flag` is set in the payload's flags.
    pub fn has_flag(&self, flag: u8) -> (r: bool)
        ensures
            r == (self.flags & flag != 0),
    {
        self.flags & flag != 0
    }

    /// Encode the payload in the version-1 layout.
    pub fn to_bytes(self) -> (r: [u8; PAYLOAD_LEN])
        ensures
            r@ == self.spec_bytes(),
    {
        let u = self.unit_id;
        let r = [
            self.version,
            self.product_id,
            (u & 0xff) as u8,
            ((u >> 8) & 0xff) as u8,
            ((u >> 16) & 0xff) as u8,
            ((u >> 24) & 0xff) as u8,
            self.flags,
        ];
        assert(r@ =~= self.spec_bytes());
        r
    }
}

/// Derive a stable 32-bit unit identifier from the first four bytes of a
/// BLE address, read little endian.
pub fn unit_id_from_address(address: [u8; 6]) -> (r: u32)
    ensures
        r == u32_from_le(address[0], address[1], address[2], address[3]),
{
    (address[0] as u32) | ((address[1] as u32) << 8) | ((address[2] as u32) << 16) | ((address[3] as u32) << 24)
}

} // verus!
