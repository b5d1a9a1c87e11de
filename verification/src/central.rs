//! Central-side product logic: recognising this product's advertisements,
//! the scan filter and selector it scans with, and the checks it applies to
//! what it reads and writes.

use vstd::prelude::*;

use crate::error::SessionError;
use crate::filter::{pattern_matches, ScanFilter};
use crate::properties::{
    name_or_empty, optional_manufacturer, ManufacturerData, ManufacturerDataView, ManufacturerPredicate, Peripheral,
    PropertiesPredicate, PropertiesView,
};
use crate::protocol::advertisement_identity::{
    u32_from_le, ManufacturerPayload, DEVELOPMENT_COMPANY_ID, PAYLOAD_LEN, PRODUCT_ID_HELLO_ESPCX,
    VERSION,
};
use crate::protocol::bulk::{BulkStats, CHUNK_SIZE, CONTROL_UUID128, DATA_UUID128, STATS_UUID128};
use crate::protocol::{battery, device_info, echo, status, PERIPHERAL_NAME};
use crate::selection::{passes_all, ranking_by, views, Preference, Selector};
use crate::uuid::{uuid16_to_u128, Uuid};

verus! {

/// The identity that manufacturer data decodes to: present when the company
/// identifier is the development one and the payload has the version-1
/// length.
pub open spec fn spec_decode_manufacturer_payload(data: ManufacturerDataView) -> Option<ManufacturerPayload> {
    let p = data.data;
    if data.company_id == DEVELOPMENT_COMPANY_ID && p.len() == PAYLOAD_LEN {
        Some(ManufacturerPayload {
            version: p[0],
            product_id: p[1],
            unit_id: u32_from_le(p[2], p[3], p[4], p[5]),
            flags: p[6],
        })
    } else {
        None
    }
}

/// Whether manufacturer data belongs to this product.
pub open spec fn spec_product_identity_matches(data: ManufacturerDataView) -> bool {
    match spec_decode_manufacturer_payload(data) {
        Some(p) => p.version == VERSION && p.product_id == PRODUCT_ID_HELLO_ESPCX,
        None => false,
    }
}

/// Decode raw manufacturer data into this product's identity payload.
///
/// Layout (version 1): `payload[0]` version, `payload[1]` product id,
/// `payload[2..6]` unit id (little endian), `payload[6]` flags.
pub fn decode_manufacturer_payload(data: &ManufacturerData) -> (r: Option<ManufacturerPayload>)
    ensures
        r == spec_decode_manufacturer_payload(data@),
{
    if !data.is_company_id(DEVELOPMENT_COMPANY_ID) {
        return None;
    }
    let payload = data.payload();
    if payload.len() != PAYLOAD_LEN {
        return None;
    }
    Some(ManufacturerPayload {
        version: payload[0],
        product_id: payload[1],
        unit_id: (payload[2] as u32) | ((payload[3] as u32) << 8) | ((payload[4] as u32) << 16)
            | ((payload[5] as u32) << 24),
        flags: payload[6],
    })
}

/// Whether manufacturer data belongs to this product: it decodes, with the
/// current version and this product's identifier.
pub fn matches_product_identity(data: &ManufacturerData) -> (r: bool)
    ensures
        r == spec_product_identity_matches(data@),
{
    match decode_manufacturer_payload(data) {
        Some(payload) => payload.version == VERSION && payload.product_id == PRODUCT_ID_HELLO_ESPCX,
        None => false,
    }
}

/// The product scan filter: one name pattern, the product name; the
/// Battery Service UUID; the development company identifier; the product
/// identity check; nothing else, and the default scan interval.
pub open spec fn is_product_scan_filter(f: ScanFilter) -> bool {
    &&& f.name_patterns@.len() == 1
    &&& f.name_patterns@[0]@ == PERIPHERAL_NAME@
    &&& f.addr_patterns@.len() == 0
    &&& f.service_uuids@ == seq![Uuid { value: uuid16_to_u128(battery::SERVICE_UUID16) }]
    &&& f.manufacturer_company_ids@ == seq![DEVELOPMENT_COMPANY_ID]
    &&& f.manufacturer_predicates@ == seq![ManufacturerPredicate::ProductIdentity]
    &&& f.property_predicates@.len() == 0
    &&& f.scan_interval_secs == crate::filter::DEFAULT_SCAN_INTERVAL_SECS
}

/// Build the product scan filter: the advertised name begins with the
/// product name, the Battery Service is advertised, and the manufacturer
/// data carries the development company identifier and this product's
/// identity.
pub fn build_product_scan_filter() -> (f: ScanFilter)
    ensures
        is_product_scan_filter(f),
{
    let f = ScanFilter::default()
        .with_name_pattern(PERIPHERAL_NAME)
        .with_service_uuid(Uuid::from_u16(battery::SERVICE_UUID16))
        .with_manufacturer_company_id(DEVELOPMENT_COMPANY_ID)
        .with_manufacturer_data(ManufacturerPredicate::ProductIdentity);
    assert(f.name_patterns@[0] == f.name_patterns@.last());
    assert(f.service_uuids@ =~= seq![Uuid { value: uuid16_to_u128(battery::SERVICE_UUID16) }]);
    assert(f.manufacturer_company_ids@ =~= seq![DEVELOPMENT_COMPANY_ID]);
    assert(f.manufacturer_predicates@ =~= seq![ManufacturerPredicate::ProductIdentity]);
    f
}

/// The product selector's preferences: connectable devices first, then
/// the strongest signal.
pub open spec fn product_preferences() -> Seq<Preference> {
    seq![Preference::Connectable, Preference::StrongestSignal]
}

/// Build the product selector: connectable devices first, then the
/// strongest signal.
pub fn build_product_selector() -> (s: Selector)
    ensures
        s.preferences@ == product_preferences(),
        s.filters@.len() == 0,
{
    let s = Selector::default().prefer_connectable().prefer_strongest_signal();
    assert(s.preferences@ =~= seq![Preference::Connectable, Preference::StrongestSignal]);
    s
}

/// A scanned peripheral together with its decoded identity.
#[derive(Clone, Debug)]
pub struct ProductCandidate {
    peripheral: Peripheral,
    identity: ManufacturerPayload,
}

impl View for ProductCandidate {
    type V = (PropertiesView, ManufacturerPayload);

    closed spec fn view(&self) -> (PropertiesView, ManufacturerPayload) {
        (self.peripheral@, self.identity)
    }
}

impl ProductCandidate {
    /// The underlying peripheral.
    pub fn peripheral(&self) -> (r: &Peripheral)
        ensures
            r@ == self@.0,
    {
        &self.peripheral
    }

    /// The device identifier.
    pub fn id(&self) -> (r: &str)
        ensures
            r@ == self@.0.id,
    {
        self.peripheral.id()
    }

    /// The advertised local name, if present.
    pub fn local_name(&self) -> (r: Option<&str>)
        ensures
            match r {
                Some(s) => self@.0.local_name == Some(s@),
                None => self@.0.local_name is None,
            },
    {
        self.peripheral.local_name()
    }

    /// The signal strength in dBm, if reported.
    pub fn rssi(&self) -> (r: Option<i16>)
        ensures
            r == self@.0.rssi,
    {
        self.peripheral.properties.rssi
    }

    /// Whether the device accepts connections.
    pub fn is_connectable(&self) -> (r: bool)
        ensures
            r == self@.0.is_connectable,
    {
        self.peripheral.properties.is_connectable
    }

    /// The decoded identity payload.
    pub fn identity(&self) -> (r: &ManufacturerPayload)
        ensures
            *r == self@.1,
    {
        &self.identity
    }
}

/// Turn a scanned peripheral into a product candidate by decoding its
/// manufacturer data.
pub fn product_candidate_from_peripheral(peripheral: Peripheral) -> (r: Result<ProductCandidate, SessionError>)
    ensures
        match peripheral@.manufacturer_data {
            None => r == Err::<ProductCandidate, SessionError>(SessionError::MissingManufacturerData),
            Some(d) => match spec_decode_manufacturer_payload(d) {
                None => r == Err::<ProductCandidate, SessionError>(SessionError::InvalidManufacturerPayload),
                Some(p) => r matches Ok(c) && c@ == (peripheral@, p),
            },
        },
{
    let identity = match &peripheral.properties.manufacturer_data {
        None => { return Err(SessionError::MissingManufacturerData); },
        Some(data) => match decode_manufacturer_payload(data) {
            None => { return Err(SessionError::InvalidManufacturerPayload); },
            Some(p) => p,
        },
    };
    Ok(ProductCandidate { peripheral, identity })
}

/// The identity a scanned peripheral's manufacturer data decodes to.
pub open spec fn decoded_identity(p: PropertiesView) -> Option<ManufacturerPayload> {
    match p.manufacturer_data {
        Some(d) => spec_decode_manufacturer_payload(d),
        None => None,
    }
}

/// Why a scanned peripheral is not a product candidate.
pub open spec fn candidate_error(p: PropertiesView) -> SessionError {
    match p.manufacturer_data {
        Some(_) => SessionError::InvalidManufacturerPayload,
        None => SessionError::MissingManufacturerData,
    }
}

/// Turn ranked peripherals into product candidates, keeping their order;
/// the first peripheral that does not decode makes the whole step fail.
#[verifier::loop_isolation(false)]
pub fn product_candidates(ranked: Vec<Peripheral>) -> (r: Result<Vec<ProductCandidate>, SessionError>)
    ensures
        r is Ok <==> forall|i: int| 0 <= i < ranked@.len() ==> (#[trigger] decoded_identity(ranked@[i]@)) is Some,
        match r {
            Ok(cs) => cs@.len() == ranked@.len() && forall|i: int| 0 <= i < ranked@.len() ==>
                (#[trigger] decoded_identity(ranked@[i]@)) == Some(cs@[i]@.1) && cs@[i]@.0 == ranked@[i]@,
            Err(e) => exists|i: int| 0 <= i < ranked@.len()
                && (forall|j: int| 0 <= j < i ==> (#[trigger] decoded_identity(ranked@[j]@)) is Some)
                && decoded_identity(ranked@[i]@) is None
                && e == candidate_error(ranked@[i]@),
        },
{
    let ghost input = ranked@;
    let mut out: Vec<ProductCandidate> = Vec::new();
    let mut rest = ranked;
    let mut i: usize = 0;
    let n = rest.len();
    while i < n
        invariant
            n == input.len(),
            i <= n,
            rest@ == input.subrange(i as int, n as int),
            out@.len() == i,
            forall|j: int| 0 <= j < i ==> (#[trigger] decoded_identity(input[j]@)) == Some(out@[j]@.1)
                && out@[j]@.0 == input[j]@,
        decreases n - i,
    {
        let p = rest.remove(0);
        assert(p == input[i as int]);
        match product_candidate_from_peripheral(p) {
            Ok(c) => { out.push(c); },
            Err(e) => {
                assert(forall|j: int| 0 <= j < i ==> (#[trigger] decoded_identity(input[j]@)) is Some);
                assert(decoded_identity(input[i as int]@) is None);
                assert(e == candidate_error(input[i as int]@));
                return Err(e);
            },
        }
        assert(rest@ =~= input.subrange(i + 1, n as int));
        i += 1;
    }
    Ok(out)
}

/// The characteristic UUIDs of the product's services, bound once a
/// session is connected.
#[derive(Clone, Copy, Debug)]
pub struct BleSession {
    battery_uuid: Uuid,
    manufacturer_uuid: Uuid,
    model_uuid: Uuid,
    firmware_uuid: Uuid,
    software_uuid: Uuid,
    echo_uuid: Uuid,
    status_uuid: Uuid,
    bulk_control_uuid: Uuid,
    bulk_data_uuid: Uuid,
    bulk_stats_uuid: Uuid,
}

/// The UUIDs a session binds: battery level; manufacturer, model, firmware
/// and software strings; echo; status; bulk control, data and statistics.
pub open spec fn session_uuids() -> Seq<u128> {
    seq![
        uuid16_to_u128(battery::LEVEL_UUID16),
        uuid16_to_u128(device_info::MANUFACTURER_NAME_UUID16),
        uuid16_to_u128(device_info::MODEL_NUMBER_UUID16),
        uuid16_to_u128(device_info::FIRMWARE_REVISION_UUID16),
        uuid16_to_u128(device_info::SOFTWARE_REVISION_UUID16),
        echo::ECHO_UUID128,
        status::STATUS_UUID128,
        CONTROL_UUID128,
        DATA_UUID128,
        STATS_UUID128,
    ]
}

impl View for BleSession {
    type V = Seq<u128>;

    closed spec fn view(&self) -> Seq<u128> {
        seq![
            self.battery_uuid.value,
            self.manufacturer_uuid.value,
            self.model_uuid.value,
            self.firmware_uuid.value,
            self.software_uuid.value,
            self.echo_uuid.value,
            self.status_uuid.value,
            self.bulk_control_uuid.value,
            self.bulk_data_uuid.value,
            self.bulk_stats_uuid.value,
        ]
    }
}

/// Bind the product's characteristic UUIDs for a connected session.
pub fn build_session() -> (s: BleSession)
    ensures
        s@ == session_uuids(),
{
    BleSession {
        battery_uuid: Uuid::from_u16(battery::LEVEL_UUID16),
        manufacturer_uuid: Uuid::from_u16(device_info::MANUFACTURER_NAME_UUID16),
        model_uuid: Uuid::from_u16(device_info::MODEL_NUMBER_UUID16),
        firmware_uuid: Uuid::from_u16(device_info::FIRMWARE_REVISION_UUID16),
        software_uuid: Uuid::from_u16(device_info::SOFTWARE_REVISION_UUID16),
        echo_uuid: Uuid::from_u128(echo::ECHO_UUID128),
        status_uuid: Uuid::from_u128(status::STATUS_UUID128),
        bulk_control_uuid: Uuid::from_u128(CONTROL_UUID128),
        bulk_data_uuid: Uuid::from_u128(DATA_UUID128),
        bulk_stats_uuid: Uuid::from_u128(STATS_UUID128),
    }
}

impl BleSession {
    /// Battery Level characteristic UUID.
    pub fn battery_uuid(&self) -> (r: Uuid)
        ensures r.value == self@[0],
    { self.battery_uuid }

    /// Manufacturer Name characteristic UUID.
    pub fn manufacturer_uuid(&self) -> (r: Uuid)
        ensures r.value == self@[1],
    { self.manufacturer_uuid }

    /// Model Number characteristic UUID.
    pub fn model_uuid(&self) -> (r: Uuid)
        ensures r.value == self@[2],
    { self.model_uuid }

    /// Firmware Revision characteristic UUID.
    pub fn firmware_uuid(&self) -> (r: Uuid)
        ensures r.value == self@[3],
    { self.firmware_uuid }

    /// Software Revision characteristic UUID.
    pub fn software_uuid(&self) -> (r: Uuid)
        ensures r.value == self@[4],
    { self.software_uuid }

    /// Echo characteristic UUID.
    pub fn echo_uuid(&self) -> (r: Uuid)
        ensures r.value == self@[5],
    { self.echo_uuid }

    /// Status characteristic UUID.
    pub fn status_uuid(&self) -> (r: Uuid)
        ensures r.value == self@[6],
    { self.status_uuid }

    /// Bulk control characteristic UUID.
    pub fn bulk_control_uuid(&self) -> (r: Uuid)
        ensures r.value == self@[7],
    { self.bulk_control_uuid }

    /// Bulk data characteristic UUID.
    pub fn bulk_data_uuid(&self) -> (r: Uuid)
        ensures r.value == self@[8],
    { self.bulk_data_uuid }

    /// Bulk statistics characteristic UUID.
    pub fn bulk_stats_uuid(&self) -> (r: Uuid)
        ensures r.value == self@[9],
    { self.bulk_stats_uuid }
}

/// Device information strings read once from the Device Information
/// Service.
#[derive(Debug)]
pub struct DeviceInfo {
    /// Manufacturer name.
    pub manufacturer: String,
    /// Model number.
    pub model: String,
    /// Firmware revision.
    pub firmware: String,
    /// Software revision.
    pub software: String,
}

/// The battery level in a Battery Level value: exactly one byte.
pub fn battery_level_from(bytes: &[u8]) -> (r: Result<u8, SessionError>)
    ensures
        bytes@.len() == 1 ==> r == Ok::<u8, SessionError>(bytes@[0]),
        bytes@.len() != 1 ==> r == Err::<u8, SessionError>(SessionError::UnexpectedLength { expected: 1, actual: bytes@.len() as usize }),
{
    if bytes.len() != 1 {
        return Err(SessionError::UnexpectedLength { expected: 1, actual: bytes.len() });
    }
    Ok(bytes[0])
}

/// Check echo data before writing it: at most one echo capacity.
pub fn check_echo_payload(data: &[u8]) -> (r: Result<(), SessionError>)
    ensures
        data@.len() <= echo::CAPACITY ==> r is Ok,
        data@.len() > echo::CAPACITY ==> r == Err::<(), SessionError>(SessionError::EchoTooLarge { len: data@.len() as usize, max: echo::CAPACITY }),
{
    if data.len() > echo::CAPACITY {
        return Err(SessionError::EchoTooLarge { len: data.len(), max: echo::CAPACITY });
    }
    Ok(())
}

/// Check upload data before writing it: at most one bulk chunk.
pub fn check_upload_chunk(data: &[u8]) -> (r: Result<(), SessionError>)
    ensures
        data@.len() <= CHUNK_SIZE ==> r is Ok,
        data@.len() > CHUNK_SIZE ==> r == Err::<(), SessionError>(SessionError::DataTooLarge { len: data@.len() as usize, max: CHUNK_SIZE }),
{
    if data.len() > CHUNK_SIZE {
        return Err(SessionError::DataTooLarge { len: data.len(), max: CHUNK_SIZE });
    }
    Ok(())
}

/// How many times the central reads the statistics after a reset before
/// giving up.
pub const RESET_POLL_ATTEMPTS: u32 = 30;

/// Pause before each statistics read while waiting for a reset, in
/// milliseconds.
pub const RESET_POLL_INTERVAL_MS: u64 = 100;

/// What to do after reading the statistics while waiting for a reset.
#[derive(Clone, Copy, Debug, PartialEq, Eq, Structural)]
pub enum ResetPollStep {
    /// The statistics read as zero: the reset took effect.
    Done,
    /// Not yet: pause and read again.
    Retry,
    /// The attempts ran out.
    TimedOut,
}

/// The wait for a statistics reset to take effect.
pub struct ResetPoll {
    attempts: u32,
}

impl ResetPoll {
    /// Reads made so far.
    pub closed spec fn spec_attempts(&self) -> nat {
        self.attempts as nat
    }

    /// A wait with no read made yet.
    pub fn new() -> (r: ResetPoll)
        ensures
            r.spec_attempts() == 0,
    {
        ResetPoll { attempts: 0 }
    }

    /// Decide after one read: done when the statistics are zero, timed out
    /// when this was the last allowed read, else retry.
    pub fn observe(&mut self, stats: BulkStats) -> (r: ResetPollStep)
        requires
            old(self).spec_attempts() < RESET_POLL_ATTEMPTS,
        ensures
            final(self).spec_attempts() == old(self).spec_attempts() + 1,
            r == if stats.rx_bytes == 0 && stats.tx_bytes == 0 {
                ResetPollStep::Done
            } else if old(self).spec_attempts() + 1 >= RESET_POLL_ATTEMPTS {
                ResetPollStep::TimedOut
            } else {
                ResetPollStep::Retry
            },
    {
        self.attempts = self.attempts + 1;
        if stats.rx_bytes == 0 && stats.tx_bytes == 0 {
            ResetPollStep::Done
        } else if self.attempts >= RESET_POLL_ATTEMPTS {
            ResetPollStep::TimedOut
        } else {
            ResetPollStep::Retry
        }
    }
}

/// What the central's monitoring loop observed.
#[derive(Clone, Debug)]
pub enum MonitorEvent {
    /// A Battery Level notification arrived with these bytes.
    Notification(Vec<u8>),
    /// The notification stream reported an error.
    NotificationFailed,
    /// The notification stream ended.
    StreamEnded,
    /// The polling interval elapsed; `connected` tells whether the link is up.
    Tick { connected: bool },
}

/// Why the monitoring loop stops.
#[derive(Clone, Copy, Debug, PartialEq, Eq, Structural)]
pub enum MonitorStop {
    /// The notification stream reported an error.
    NotificationError,
    /// The notification stream ended.
    StreamEnded,
    /// The link is down.
    Disconnected,
}

/// What the monitoring loop does next.
#[derive(Clone, Copy, Debug, PartialEq, Eq, Structural)]
pub enum MonitorAction {
    /// Report a battery level carried by a one-byte notification.
    ReportBattery(u8),
    /// Report a notification of another length.
    ReportBytes(usize),
    /// Read the battery level now.
    PollBattery,
    /// Leave the loop.
    Stop(MonitorStop),
}

/// The monitoring loop's decision on one event: a one-byte notification is
/// a battery level; any other notification is reported by its length; a
/// failing or ended stream stops the loop; on each tick the link is checked
/// and the battery polled while it is up.
pub fn monitor_step(event: &MonitorEvent) -> (r: MonitorAction)
    ensures
        r == match *event {
            MonitorEvent::Notification(data) => if data@.len() == 1 {
                MonitorAction::ReportBattery(data@[0])
            } else {
                MonitorAction::ReportBytes(data@.len() as usize)
            },
            MonitorEvent::NotificationFailed => MonitorAction::Stop(MonitorStop::NotificationError),
            MonitorEvent::StreamEnded => MonitorAction::Stop(MonitorStop::StreamEnded),
            MonitorEvent::Tick { connected } => if connected {
                MonitorAction::PollBattery
            } else {
                MonitorAction::Stop(MonitorStop::Disconnected)
            },
        },
{
    match event {
        MonitorEvent::Notification(data) => {
            if data.len() == 1 {
                MonitorAction::ReportBattery(data[0])
            } else {
                MonitorAction::ReportBytes(data.len())
            }
        },
        MonitorEvent::NotificationFailed => MonitorAction::Stop(MonitorStop::NotificationError),
        MonitorEvent::StreamEnded => MonitorAction::Stop(MonitorStop::StreamEnded),
        MonitorEvent::Tick { connected } => {
            if *connected {
                MonitorAction::PollBattery
            } else {
                MonitorAction::Stop(MonitorStop::Disconnected)
            }
        },
    }
}

/// Whether `cs` are the product candidates of the peripherals `ps` taken
/// in the order `order`: each keeps its peripheral and carries the
/// identity that peripheral's manufacturer data decodes to.
pub open spec fn candidates_in_order(
    ps: Seq<PropertiesView>,
    order: Seq<usize>,
    cs: Seq<(PropertiesView, ManufacturerPayload)>,
) -> bool {
    &&& cs.len() == order.len()
    &&& forall|i: int| 0 <= i < order.len() ==> (#[trigger] cs[i]).0 == ps[order[i] as int]
        && decoded_identity(ps[order[i] as int]) == Some(cs[i].1)
}

/// What a list of product candidates holds: each one's peripheral and
/// identity.
pub open spec fn candidate_views(cs: Seq<ProductCandidate>) -> Seq<(PropertiesView, ManufacturerPayload)> {
    cs.map_values(|c: ProductCandidate| c@)
}

/// Whether every peripheral of `ps` carries a decodable identity.
pub open spec fn all_decode(ps: Seq<PropertiesView>) -> bool {
    forall|k: int| 0 <= k < ps.len() ==> (#[trigger] decoded_identity(ps[k])) is Some
}

/// Whether ranking `ps` by `order` meets, at position `i`, the first
/// peripheral without a decodable identity, and `e` reports it.
pub open spec fn first_undecodable(ps: Seq<PropertiesView>, order: Seq<usize>, i: int, e: SessionError) -> bool {
    &&& 0 <= i < order.len()
    &&& forall|j: int| 0 <= j < i ==> (#[trigger] decoded_identity(ps[order[j] as int])) is Some
    &&& decoded_identity(ps[order[i] as int]) is None
    &&& e == candidate_error(ps[order[i] as int])
}

/// The product candidates among discovered peripherals, best first: the
/// peripherals ranked by the product selector, each with its decoded
/// identity. No peripheral gives `NoCandidate`; a ranked peripheral
/// without a decodable identity fails the whole step.
pub fn discovered_candidates(peripherals: &[Peripheral]) -> (r: Result<Vec<ProductCandidate>, SessionError>)
    ensures
        r is Ok <==> peripherals@.len() > 0 && all_decode(views(peripherals@)),
        match r {
            Ok(cs) => exists|order: Seq<usize>|
                ranking_by(product_preferences(), Seq::empty(), views(peripherals@), order)
                && #[trigger] candidates_in_order(views(peripherals@), order, candidate_views(cs@)),
            Err(e) => if peripherals@.len() == 0 {
                e == SessionError::NoCandidate
            } else {
                exists|order: Seq<usize>, i: int|
                    ranking_by(product_preferences(), Seq::empty(), views(peripherals@), order)
                    && #[trigger] first_undecodable(views(peripherals@), order, i, e)
            },
        },
{
    let selector = build_product_selector();
    let n = peripherals.len();
    let ghost vs = views(peripherals@);
    proof {
        assert(vs.len() == n);
        assert(selector.filters@ =~= Seq::<PropertiesPredicate>::empty());
        if peripherals@.len() > 0 {
            assert(selector.passes(peripherals@[0]@));
        }
    }
    match selector.rank(peripherals) {
        Err(_) => Err(SessionError::NoCandidate),
        Ok(ranked) => {
            let ghost order = choose|order: Seq<usize>| selector.is_ranking(vs, order)
                && views(ranked@) == order.map_values(|i: usize| peripherals@[i as int]@);
            let ghost rv = views(ranked@);
            let ghost rs = ranked@;
            proof {
                assert(vs.len() == peripherals@.len());
                assert(rv.len() == order.len());
                assert forall|j: int| 0 <= j < rv.len() implies #[trigger] rv[j] == rs[j]@ by {}
                assert forall|i: int| 0 <= i < rv.len() implies #[trigger] rv[i] == vs[order[i] as int] by {
                    assert(order[i] < vs.len());
                    assert(rv[i] == peripherals@[order[i] as int]@);
                }
            }
            let result = product_candidates(ranked);
            proof {
                match result {
                    Ok(ref cs) => {
                        let cv = candidate_views(cs@);
                        assert forall|i: int| 0 <= i < rv.len() implies
                            #[trigger] decoded_identity(rv[i]) == Some(cv[i].1) && cv[i].0 == rv[i] by {
                            assert(rv[i] == rs[i]@);
                        }
                        lemma_candidates_follow_ranking(vs, order, rv, cv);
                        lemma_ranking_covers_all(vs, order, rv);
                    },
                    Err(ref e) => {
                        let e = *e;
                        let i = choose|i: int| 0 <= i < rs.len()
                            && (forall|j: int| 0 <= j < i ==> (#[trigger] decoded_identity(rs[j]@)) is Some)
                            && decoded_identity(rs[i]@) is None
                            && e == candidate_error(rs[i]@);
                        assert forall|j: int| 0 <= j < i implies (#[trigger] decoded_identity(rv[j])) is Some by {
                            assert(rv[j] == rs[j]@);
                            assert(decoded_identity(rs[j]@) is Some);
                        }
                        assert(rv[i] == rs[i]@);
                        lemma_first_undecodable(vs, order, rv, i, e);
                    },
                }
            }
            result
        },
    }
}

/// Candidates built from peripherals listed in the order `order` follow
/// that order.
proof fn lemma_candidates_follow_ranking(
    vs: Seq<PropertiesView>,
    order: Seq<usize>,
    rv: Seq<PropertiesView>,
    cv: Seq<(PropertiesView, ManufacturerPayload)>,
)
    requires
        rv.len() == order.len(),
        cv.len() == rv.len(),
        forall|i: int| 0 <= i < rv.len() ==> #[trigger] rv[i] == vs[order[i] as int],
        forall|i: int| 0 <= i < rv.len() ==> #[trigger] decoded_identity(rv[i]) == Some(cv[i].1) && cv[i].0 == rv[i],
    ensures
        candidates_in_order(vs, order, cv),
{
    assert forall|i: int| 0 <= i < order.len() implies (#[trigger] cv[i]).0 == vs[order[i] as int]
        && decoded_identity(vs[order[i] as int]) == Some(cv[i].1) by {
        assert(rv[i] == vs[order[i] as int]);
        assert(decoded_identity(rv[i]) == Some(cv[i].1));
    }
}

/// When a ranking without filters lists only peripherals that decode,
/// every peripheral decodes: the ranking lists them all.
proof fn lemma_ranking_covers_all(vs: Seq<PropertiesView>, order: Seq<usize>, rv: Seq<PropertiesView>)
    requires
        ranking_by(product_preferences(), Seq::empty(), vs, order),
        vs.len() <= usize::MAX,
        rv.len() == order.len(),
        forall|i: int| 0 <= i < rv.len() ==> #[trigger] rv[i] == vs[order[i] as int],
        forall|i: int| 0 <= i < rv.len() ==> (#[trigger] decoded_identity(rv[i])) is Some,
    ensures
        all_decode(vs),
{
    assert forall|k: int| 0 <= k < vs.len() implies (#[trigger] decoded_identity(vs[k])) is Some by {
        assert(passes_all(Seq::empty(), vs[k]));
        assert(order.contains(k as usize));
        let q = choose|q: int| 0 <= q < order.len() && order[q] == k as usize;
        assert(rv[q] == vs[order[q] as int]);
        assert(decoded_identity(rv[q]) is Some);
    }
}

/// The first ranked peripheral that does not decode is reported, and not
/// every peripheral decodes.
proof fn lemma_first_undecodable(
    vs: Seq<PropertiesView>,
    order: Seq<usize>,
    rv: Seq<PropertiesView>,
    i: int,
    e: SessionError,
)
    requires
        ranking_by(product_preferences(), Seq::empty(), vs, order),
        rv.len() == order.len(),
        forall|j: int| 0 <= j < rv.len() ==> #[trigger] rv[j] == vs[order[j] as int],
        0 <= i < rv.len(),
        forall|j: int| 0 <= j < i ==> (#[trigger] decoded_identity(rv[j])) is Some,
        decoded_identity(rv[i]) is None,
        e == candidate_error(rv[i]),
    ensures
        first_undecodable(vs, order, i, e),
        !all_decode(vs),
{
    assert forall|j: int| 0 <= j < i implies (#[trigger] decoded_identity(vs[order[j] as int])) is Some by {
        assert(rv[j] == vs[order[j] as int]);
        assert(decoded_identity(rv[j]) is Some);
    }
    assert(rv[i] == vs[order[i] as int]);
    assert(order[i] < vs.len());
    assert(decoded_identity(vs[order[i] as int]) is None);
}

/// The best product candidate among discovered peripherals: the first of
/// `discovered_candidates`.
pub fn best_candidate(peripherals: &[Peripheral]) -> (r: Result<ProductCandidate, SessionError>)
    ensures
        r is Ok <==> peripherals@.len() > 0 && all_decode(views(peripherals@)),
        match r {
            Ok(c) => exists|order: Seq<usize>|
                #[trigger] ranking_by(product_preferences(), Seq::empty(), views(peripherals@), order)
                && order.len() > 0
                && c@.0 == views(peripherals@)[order[0] as int]
                && decoded_identity(c@.0) == Some(c@.1),
            Err(e) => if peripherals@.len() == 0 {
                e == SessionError::NoCandidate
            } else {
                exists|order: Seq<usize>, i: int|
                    ranking_by(product_preferences(), Seq::empty(), views(peripherals@), order)
                    && #[trigger] first_undecodable(views(peripherals@), order, i, e)
            },
        },
{
    match discovered_candidates(peripherals) {
        Ok(cs) => {
            let ghost vs = views(peripherals@);
            let ghost order = choose|order: Seq<usize>|
                ranking_by(product_preferences(), Seq::empty(), vs, order)
                && #[trigger] candidates_in_order(vs, order, candidate_views(cs@));
            proof {
                assert(passes_all(Seq::<PropertiesPredicate>::empty(), vs[0]));
                assert(order.contains(0usize));
                assert(candidate_views(cs@).len() == cs@.len());
            }
            let ghost cv = candidate_views(cs@);
            let mut cs = cs;
            let first = cs.remove(0);
            proof {
                assert(cv[0] == first@);
                assert(cv[0].0 == vs[order[0] as int]);
            }
            Ok(first)
        },
        Err(e) => Err(e),
    }
}

/// Decoding is the inverse of the identity payload's encoding: manufacturer
/// data under the development company identifier holding an encoded
/// payload decodes to that payload.
pub proof fn lemma_identity_roundtrip(p: ManufacturerPayload)
    ensures
        spec_decode_manufacturer_payload(ManufacturerDataView {
            company_id: DEVELOPMENT_COMPANY_ID,
            data: p.spec_bytes(),
        }) == Some(p),
{
    crate::protocol::advertisement_identity::lemma_u32_le_roundtrip(p.unit_id);
}

/// Under any other company identifier, or with any other length, nothing
/// decodes.
pub proof fn lemma_identity_needs_company_and_length(d: ManufacturerDataView)
    requires
        d.company_id != DEVELOPMENT_COMPANY_ID || d.data.len() != PAYLOAD_LEN,
    ensures
        spec_decode_manufacturer_payload(d) is None,
{
}

/// The central's product check accepts an encoded payload exactly when it
/// carries the current version and this product's identifier.
pub proof fn lemma_product_identity_accepts(p: ManufacturerPayload)
    ensures
        spec_product_identity_matches(ManufacturerDataView {
            company_id: DEVELOPMENT_COMPANY_ID,
            data: p.spec_bytes(),
        }) == (p.version == VERSION && p.product_id == PRODUCT_ID_HELLO_ESPCX),
{
    lemma_identity_roundtrip(p);
}

/// What the product scan filter lets through: a peripheral whose advertised
/// name begins with the product name and whose manufacturer data carries
/// this product's identity, and nothing else.
pub proof fn lemma_product_scan_filter_matches(f: ScanFilter, p: PropertiesView)
    requires
        is_product_scan_filter(f),
    ensures
        f.spec_matches(p) <==> (pattern_matches(PERIPHERAL_NAME@, name_or_empty(p)) && match p.manufacturer_data {
            Some(d) => spec_product_identity_matches(d),
            None => false,
        }),
{
    if pattern_matches(PERIPHERAL_NAME@, name_or_empty(p)) {
        assert(pattern_matches(f.name_patterns@[0]@, name_or_empty(p)));
    }
    if let Some(d) = p.manufacturer_data {
        if spec_product_identity_matches(d) {
            assert(f.manufacturer_company_ids@[0] == d.company_id);
        }
        assert(f.manufacturer_predicates@[0] == ManufacturerPredicate::ProductIdentity);
    }
}

/// The identity the peripheral advertises passes the central's product
/// check: the two sides agree on the payload.
pub proof fn lemma_advertised_identity_accepted()
    ensures
        spec_product_identity_matches(ManufacturerDataView {
            company_id: DEVELOPMENT_COMPANY_ID,
            data: crate::advertising::product_identity().spec_bytes(),
        }),
{
    lemma_product_identity_accepts(crate::advertising::product_identity());
}

} // verus!
