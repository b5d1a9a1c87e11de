//! The peripheral's advertisement: BLE AD structures, each written as a
//! length byte (covering the type byte and the data), a type byte and the
//! data.

use vstd::prelude::*;

use crate::protocol::advertisement_identity::{
    unit_id_from_address, ManufacturerPayload, DEVELOPMENT_COMPANY_ID, PRODUCT_ID_HELLO_ESPCX, VERSION,
};
use crate::protocol::battery::SERVICE_UUID16;
use crate::protocol::{PERIPHERAL_ADDRESS, PERIPHERAL_NAME};
use crate::text::text_bytes;
use trouble_host::advertise::AdStructure;

verus! {

/// Flag: LE General Discoverable Mode.
pub const LE_GENERAL_DISCOVERABLE: u8 = 0x02;

/// Flag: BR/EDR Not Supported.
pub const BR_EDR_NOT_SUPPORTED: u8 = 0x04;

/// Largest advertisement or scan response payload.
pub const ADV_PAYLOAD_MAX: usize = 31;

/// One AD structure of an advertisement.
#[derive(Clone, Debug)]
pub enum AdItem {
    /// Discoverability flags (type 0x01).
    Flags(u8),
    /// Complete list of 16-bit service UUIDs, little endian (type 0x03).
    CompleteServiceUuids16(Vec<[u8; 2]>),
    /// Complete local name (type 0x09).
    CompleteLocalName(Vec<u8>),
    /// Manufacturer-specific data: company identifier, little endian, then
    /// the payload (type 0xFF).
    ManufacturerSpecificData { company_identifier: u16, payload: Vec<u8> },
}

/// The bytes of a list of 16-bit UUIDs, in order.
pub open spec fn uuid16_list_bytes(uuids: Seq<[u8; 2]>) -> Seq<u8>
    decreases uuids.len(),
{
    if uuids.len() == 0 {
        Seq::empty()
    } else {
        uuid16_list_bytes(uuids.drop_last()) + uuids.last()@
    }
}

/// The length byte of an AD structure whose type and data take `n` bytes.
pub open spec fn ad_len_byte(n: nat) -> u8 {
    (n % 256) as u8
}

/// The encoding of one AD structure.
pub open spec fn ad_item_bytes(item: AdItem) -> Seq<u8> {
    match item {
        AdItem::Flags(f) => seq![2u8, 0x01u8, f],
        AdItem::CompleteServiceUuids16(uuids) => seq![ad_len_byte(uuids@.len() * 2 + 1), 0x03u8]
            + uuid16_list_bytes(uuids@),
        AdItem::CompleteLocalName(name) => seq![ad_len_byte(name@.len() + 1), 0x09u8] + name@,
        AdItem::ManufacturerSpecificData { company_identifier, payload } => seq![
            ad_len_byte(payload@.len() + 3),
            0xffu8,
            (company_identifier % 256) as u8,
            (company_identifier / 256) as u8,
        ] + payload@,
    }
}

/// The encoding of a sequence of AD structures, one after the other.
pub open spec fn ad_bytes(items: Seq<AdItem>) -> Seq<u8>
    decreases items.len(),
{
    if items.len() == 0 {
        Seq::empty()
    } else {
        ad_bytes(items.drop_last()) + ad_item_bytes(items.last())
    }
}

/// `trouble_host::advertise::AdStructure::encode_slice`: writes the AD
/// structures one after the other at the start of `dest` and returns how
/// many bytes that took; it fails (here `None`, the crate's codec error type
/// being private) exactly when they do not fit. On success the rest of
/// `dest` is untouched.
#[verifier::external_body]
fn encode_ad_items(items: &[AdItem], dest: &mut [u8]) -> (r: Option<usize>)
    ensures
        final(dest)@.len() == old(dest)@.len(),
        match r {
            Some(n) => n == ad_bytes(items@).len() && n <= old(dest)@.len()
                && final(dest)@.subrange(0, n as int) == ad_bytes(items@)
                && final(dest)@.skip(n as int) == old(dest)@.skip(n as int),
            None => ad_bytes(items@).len() > old(dest)@.len(),
        },
{
    let structures: Vec<AdStructure<'_>> = items.iter().map(|item| match item {
        AdItem::Flags(f) => AdStructure::Flags(*f),
        AdItem::CompleteServiceUuids16(u) => AdStructure::CompleteServiceUuids16(u),
        AdItem::CompleteLocalName(n) => AdStructure::CompleteLocalName(n),
        AdItem::ManufacturerSpecificData { company_identifier, payload } =>
            AdStructure::ManufacturerSpecificData { company_identifier: *company_identifier, payload },
    }).collect();
    AdStructure::encode_slice(&structures, dest).ok()
}

/// Why an advertisement could not be built.
#[derive(Clone, Copy, Debug, PartialEq, Eq, Structural)]
pub enum AdvertisingError {
    /// The AD structures do not fit in the payload.
    InsufficientSpace,
}

/// A built advertisement and scan response.
pub struct AdvertisementData {
    /// Advertisement buffer.
    pub adv_data: [u8; 31],
    /// Bytes of `adv_data` in use.
    pub adv_len: usize,
    /// Scan response buffer.
    pub scan_data: [u8; 31],
    /// Bytes of `scan_data` in use.
    pub scan_len: usize,
}

/// The product's identity payload: current version, this product, the unit
/// identifier derived from the fixed address, no flags.
pub open spec fn product_identity() -> ManufacturerPayload {
    ManufacturerPayload {
        version: VERSION,
        product_id: PRODUCT_ID_HELLO_ESPCX,
        unit_id: crate::protocol::advertisement_identity::u32_from_le(
            PERIPHERAL_ADDRESS[0], PERIPHERAL_ADDRESS[1], PERIPHERAL_ADDRESS[2], PERIPHERAL_ADDRESS[3],
        ),
        flags: 0,
    }
}

/// The bytes of the product's advertisement: the flags (LE General
/// Discoverable, BR/EDR Not Supported), the Battery Service UUID, the
/// complete local name and the identity payload under the development
/// company identifier.
pub open spec fn product_advertisement_bytes() -> Seq<u8> {
    let name = text_bytes(PERIPHERAL_NAME@);
    let payload = product_identity().spec_bytes();
    seq![2u8, 0x01u8, 0x06u8]
        + seq![3u8, 0x03u8, 0x0Fu8, 0x18u8]
        + (seq![ad_len_byte(name.len() + 1), 0x09u8] + name)
        + (seq![ad_len_byte(payload.len() + 3), 0xffu8, 0xffu8, 0xffu8] + payload)
}

/// Build the product's advertisement; the scan response stays empty, its
/// buffer all zeros. The AD structures take exactly the 31 bytes
/// available, so this succeeds.
pub fn build_advertisement() -> (r: Result<AdvertisementData, AdvertisingError>)
    ensures
        r is Ok,
        match r {
            Ok(data) => data.adv_len == product_advertisement_bytes().len()
                && data.adv_data@.subrange(0, data.adv_len as int) == product_advertisement_bytes()
                && data.scan_len == 0
                && data.scan_data@ == Seq::new(31, |i: int| 0u8),
            Err(e) => e == AdvertisingError::InsufficientSpace,
        },
{
    let identity = ManufacturerPayload::new(PRODUCT_ID_HELLO_ESPCX, unit_id_from_address(PERIPHERAL_ADDRESS), 0);
    let payload_bytes = identity.to_bytes();
    let mut payload: Vec<u8> = Vec::new();
    let mut i: usize = 0;
    while i < 7
        invariant
            i <= 7,
            payload@ == payload_bytes@.subrange(0, i as int),
        decreases 7 - i,
    {
        payload.push(payload_bytes[i]);
        assert(payload_bytes@.subrange(0, i + 1) =~= payload_bytes@.subrange(0, i as int).push(payload_bytes@[i as int]));
        i += 1;
    }
    assert(payload_bytes@.subrange(0, 7) =~= payload_bytes@);
    let name_str: &str = PERIPHERAL_NAME;
    let name_bytes = name_str.as_bytes();
    let mut name: Vec<u8> = Vec::new();
    let mut j: usize = 0;
    while j < name_bytes.len()
        invariant
            j <= name_bytes@.len(),
            name@ == name_bytes@.subrange(0, j as int),
        decreases name_bytes@.len() - j,
    {
        name.push(name_bytes[j]);
        assert(name_bytes@.subrange(0, j + 1) =~= name_bytes@.subrange(0, j as int).push(name_bytes@[j as int]));
        j += 1;
    }
    assert(name_bytes@.subrange(0, name_bytes@.len() as int) =~= name_bytes@);
    let mut uuids: Vec<[u8; 2]> = Vec::new();
    uuids.push([0x0Fu8, 0x18u8]);
    let items = vec![
        AdItem::Flags(LE_GENERAL_DISCOVERABLE | BR_EDR_NOT_SUPPORTED),
        AdItem::CompleteServiceUuids16(uuids),
        AdItem::CompleteLocalName(name),
        AdItem::ManufacturerSpecificData { company_identifier: DEVELOPMENT_COMPANY_ID, payload },
    ];
    proof {
        lemma_product_advertisement_fits();
        assert(LE_GENERAL_DISCOVERABLE | BR_EDR_NOT_SUPPORTED == 0x06u8) by (bit_vector);
        assert(SERVICE_UUID16 == 0x180F);
        let s = items@;
        assert(uuid16_list_bytes(s[1]->CompleteServiceUuids16_0@) =~= seq![0x0Fu8, 0x18u8]) by {
            let u = s[1]->CompleteServiceUuids16_0@;
            assert(u.drop_last().len() == 0);
            assert(uuid16_list_bytes(u.drop_last()) =~= Seq::<u8>::empty());
        }
        assert(s.drop_last().drop_last().drop_last().drop_last() =~= Seq::<AdItem>::empty());
        assert(ad_bytes(s) =~= product_advertisement_bytes()) by {
            reveal_with_fuel(ad_bytes, 5);
        }
    }
    let mut buf: Vec<u8> = vec![0u8; ADV_PAYLOAD_MAX];
    match encode_ad_items(items.as_slice(), buf.as_mut_slice()) {
        Some(adv_len) => {
            let mut adv_data = [0u8; 31];
            let mut k: usize = 0;
            while k < 31
                invariant
                    k <= 31,
                    buf@.len() == 31,
                    adv_data@.len() == 31,
                    forall|m: int| 0 <= m < k ==> adv_data@[m] == buf@[m],
                decreases 31 - k,
            {
                adv_data[k] = buf[k];
                k += 1;
            }
            assert(adv_data@ =~= buf@);
            let scan_data = [0u8; 31];
            assert(scan_data@ =~= Seq::new(31, |i: int| 0u8));
            Ok(AdvertisementData { adv_data, adv_len, scan_data, scan_len: 0 })
        },
        None => Err(AdvertisingError::InsufficientSpace),
    }
}

/// The product's advertisement takes exactly the 31 bytes of a legacy
/// advertising payload, so building it never fails.
pub proof fn lemma_product_advertisement_fits()
    ensures
        product_advertisement_bytes().len() == ADV_PAYLOAD_MAX,
{
    reveal_strlit("hello-espcx");
    assert(vstd::string::is_ascii(PERIPHERAL_NAME));
    vstd::string::is_ascii_spec_bytes(PERIPHERAL_NAME);
    assert(text_bytes(PERIPHERAL_NAME@).len() == 11);
}

} // verus!
