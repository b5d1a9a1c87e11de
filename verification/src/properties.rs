//! What a scan reports of a peripheral, and the conditions that filters and
//! preferences evaluate on it.

use std::collections::BTreeMap;

use vstd::prelude::*;

use crate::central::{decode_manufacturer_payload, matches_product_identity, spec_product_identity_matches};
use crate::uuid::Uuid;

verus! {

/// Manufacturer-specific advertisement data.
#[derive(Clone, Debug, PartialEq, Eq)]
pub struct ManufacturerData {
    /// Company identifier assigned by the Bluetooth SIG.
    pub company_id: u16,
    /// Manufacturer-specific payload bytes.
    pub data: Vec<u8>,
}

/// The content of manufacturer data.
pub ghost struct ManufacturerDataView {
    pub company_id: u16,
    pub data: Seq<u8>,
}

impl View for ManufacturerData {
    type V = ManufacturerDataView;

    open spec fn view(&self) -> ManufacturerDataView {
        ManufacturerDataView { company_id: self.company_id, data: self.data@ }
    }
}

impl ManufacturerData {
    /// The manufacturer payload bytes.
    pub fn payload(&self) -> (r: &[u8])
        ensures
            r@ == self.data@,
    {
        self.data.as_slice()
    }

    /// Whether the company identifier is `company_id`.
    pub fn is_company_id(&self, company_id: u16) -> (r: bool)
        ensures
            r == (self.company_id == company_id),
    {
        self.company_id == company_id
    }

    /// An equal copy.
    pub fn duplicate(&self) -> (r: Self)
        ensures
            r@ == self@,
    {
        let data = self.data.clone();
        assert(data@ =~= self.data@);
        ManufacturerData { company_id: self.company_id, data }
    }
}

/// Snapshot of what a scan reported of one peripheral.
#[derive(Clone, Debug, PartialEq, Eq)]
pub struct PeripheralProperties {
    /// Stable adapter-specific device identifier.
    pub id: String,
    /// Advertised local name, if present.
    pub local_name: Option<String>,
    /// Services advertised in the scan data.
    pub advertised_services: Vec<Uuid>,
    /// Manufacturer-specific advertisement data, if present.
    pub manufacturer_data: Option<ManufacturerData>,
    /// Service data sections of the advertisement, keyed by the 128-bit
    /// value of their service UUID (one section per service, in UUID order).
    pub service_data: BTreeMap<u128, Vec<u8>>,
    /// Received signal strength in dBm.
    pub rssi: Option<i16>,
    /// Whether the device reported itself as connectable.
    pub is_connectable: bool,
}

/// The content of a properties snapshot.
pub ghost struct PropertiesView {
    pub id: Seq<char>,
    pub local_name: Option<Seq<char>>,
    pub advertised_services: Seq<Uuid>,
    pub manufacturer_data: Option<ManufacturerDataView>,
    pub service_data: Map<u128, Seq<u8>>,
    pub rssi: Option<i16>,
    pub is_connectable: bool,
}

/// The text of an optional string.
pub open spec fn optional_text(s: Option<String>) -> Option<Seq<char>> {
    match s {
        Some(t) => Some(t@),
        None => None,
    }
}

/// The content of optional manufacturer data.
pub open spec fn optional_manufacturer(d: Option<ManufacturerData>) -> Option<ManufacturerDataView> {
    match d {
        Some(m) => Some(m@),
        None => None,
    }
}

impl View for PeripheralProperties {
    type V = PropertiesView;

    open spec fn view(&self) -> PropertiesView {
        PropertiesView {
            id: self.id@,
            local_name: optional_text(self.local_name),
            advertised_services: self.advertised_services@,
            manufacturer_data: optional_manufacturer(self.manufacturer_data),
            service_data: self.service_data@.map_values(|v: Vec<u8>| v@),
            rssi: self.rssi,
            is_connectable: self.is_connectable,
        }
    }
}

impl PeripheralProperties {
    /// An equal copy.
    pub fn duplicate(&self) -> (r: Self)
        ensures
            r@ == self@,
    {
        let local_name = match &self.local_name {
            Some(n) => Some(n.clone()),
            None => None,
        };
        let manufacturer_data = match &self.manufacturer_data {
            Some(d) => Some(d.duplicate()),
            None => None,
        };
        let advertised_services = self.advertised_services.clone();
        assert(advertised_services@ =~= self.advertised_services@);
        let service_data = self.service_data.clone();
        let r = PeripheralProperties {
            id: self.id.clone(),
            local_name,
            advertised_services,
            manufacturer_data,
            service_data,
            rssi: self.rssi,
            is_connectable: self.is_connectable,
        };
        assert(r.service_data@.map_values(|v: Vec<u8>| v@) =~= self.service_data@.map_values(|v: Vec<u8>| v@));
        r
    }
}

/// The advertised local name as text, or the empty text when there is none.
pub open spec fn name_or_empty(p: PropertiesView) -> Seq<char> {
    match p.local_name {
        Some(n) => n,
        None => Seq::empty(),
    }
}

/// Whether `p` advertises exactly the local name `name`.
pub open spec fn has_local_name(p: PropertiesView, name: Seq<char>) -> bool {
    p.local_name == Some(name)
}

/// Whether manufacturer data is present and satisfies `pred`.
pub open spec fn present_and_satisfies(pred: ManufacturerPredicate, m: Option<ManufacturerDataView>) -> bool {
    match m {
        Some(d) => pred.holds(d),
        None => false,
    }
}

/// Whether `p` carries manufacturer data that satisfies `pred`.
pub open spec fn manufacturer_satisfies(p: PropertiesView, pred: ManufacturerPredicate) -> bool {
    present_and_satisfies(pred, p.manufacturer_data)
}

/// Whether `p` advertises exactly the local name `name`.
pub fn local_name_is(p: &PeripheralProperties, name: &str) -> (r: bool)
    ensures
        r == has_local_name(p@, name@),
{
    match &p.local_name {
        Some(n) => crate::text::text_eq(n.as_str(), name),
        None => false,
    }
}

/// A condition on manufacturer data.
#[derive(Clone, Debug)]
pub enum ManufacturerPredicate {
    /// The company identifier equals the given one.
    CompanyId(u16),
    /// The payload decodes as this product's identity (development company
    /// identifier, current payload version and product identifier).
    ProductIdentity,
}

impl ManufacturerPredicate {
    /// Whether `data` satisfies the condition.
    pub open spec fn holds(self, data: ManufacturerDataView) -> bool {
        match self {
            ManufacturerPredicate::CompanyId(c) => data.company_id == c,
            ManufacturerPredicate::ProductIdentity => spec_product_identity_matches(data),
        }
    }

    /// Evaluate the condition on `data`.
    pub fn test(&self, data: &ManufacturerData) -> (r: bool)
        ensures
            r == self.holds(data@),
    {
        match self {
            ManufacturerPredicate::CompanyId(c) => data.is_company_id(*c),
            ManufacturerPredicate::ProductIdentity => matches_product_identity(data),
        }
    }

    /// Evaluate the condition on optional data; absent data never satisfies it.
    pub fn test_optional(&self, data: &Option<ManufacturerData>) -> (r: bool)
        ensures
            r == present_and_satisfies(*self, optional_manufacturer(*data)),
    {
        match data {
            Some(d) => self.test(d),
            None => false,
        }
    }
}

/// A condition on a whole properties snapshot.
#[derive(Clone, Debug)]
pub enum PropertiesPredicate {
    /// The advertised local name equals the given text.
    LocalNameIs(String),
    /// The device identifier equals the given text.
    IdIs(String),
    /// The device reported itself connectable.
    Connectable,
    /// Manufacturer data is present and satisfies the condition.
    Manufacturer(ManufacturerPredicate),
}

impl PropertiesPredicate {
    /// Whether `p` satisfies the condition.
    pub open spec fn holds(self, p: PropertiesView) -> bool {
        match self {
            PropertiesPredicate::LocalNameIs(name) => has_local_name(p, name@),
            PropertiesPredicate::IdIs(id) => p.id == id@,
            PropertiesPredicate::Connectable => p.is_connectable,
            PropertiesPredicate::Manufacturer(m) => manufacturer_satisfies(p, m),
        }
    }

    /// Evaluate the condition on `p`.
    pub fn test(&self, p: &PeripheralProperties) -> (r: bool)
        ensures
            r == self.holds(p@),
    {
        match self {
            PropertiesPredicate::LocalNameIs(name) => local_name_is(p, name.as_str()),
            PropertiesPredicate::IdIs(id) => crate::text::text_eq(p.id.as_str(), id.as_str()),
            PropertiesPredicate::Connectable => p.is_connectable,
            PropertiesPredicate::Manufacturer(m) => m.test_optional(&p.manufacturer_data),
        }
    }
}

/// A peripheral found by a scan and not yet connected, described by its
/// scan-time properties; the platform device handle stays with the caller,
/// keyed by the properties' identifier.
#[derive(Clone, Debug)]
pub struct Peripheral {
    pub properties: PeripheralProperties,
}

impl View for Peripheral {
    type V = PropertiesView;

    open spec fn view(&self) -> PropertiesView {
        self.properties@
    }
}

impl Peripheral {
    /// A peripheral with the given scan-time properties.
    pub fn from_properties(properties: PeripheralProperties) -> (r: Peripheral)
        ensures
            r.properties == properties,
    {
        Peripheral { properties }
    }

    /// The scan-time properties.
    pub fn properties(&self) -> (r: &PeripheralProperties)
        ensures
            *r == self.properties,
    {
        &self.properties
    }

    /// The advertised local name, if present.
    pub fn local_name(&self) -> (r: Option<&str>)
        ensures
            match r {
                Some(s) => self@.local_name == Some(s@),
                None => self@.local_name is None,
            },
    {
        match &self.properties.local_name {
            Some(n) => Some(n.as_str()),
            None => None,
        }
    }

    /// An equal copy.
    pub fn duplicate(&self) -> (r: Self)
        ensures
            r@ == self@,
    {
        Peripheral { properties: self.properties.duplicate() }
    }

    /// The device identifier.
    pub fn id(&self) -> (r: &str)
        ensures
            r@ == self@.id,
    {
        self.properties.id.as_str()
    }
}

} // verus!
