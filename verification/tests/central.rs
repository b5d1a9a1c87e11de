use std::collections::BTreeMap;

use hello_espcx::central::{
    best_candidate, discovered_candidates,
    build_product_scan_filter, build_product_selector, decode_manufacturer_payload, matches_product_identity,
    product_candidate_from_peripheral, battery_level_from, check_echo_payload, check_upload_chunk, ResetPoll,
    ResetPollStep, build_session, RESET_POLL_ATTEMPTS,
};
use hello_espcx::central::{monitor_step, MonitorAction, MonitorEvent, MonitorStop};
use hello_espcx::error::SessionError;
use hello_espcx::properties::{ManufacturerData, Peripheral, PeripheralProperties};
use hello_espcx::protocol::advertisement_identity;
use hello_espcx::protocol::bulk::BulkStats;
use hello_espcx::protocol::{battery, PERIPHERAL_NAME};
use hello_espcx::uuid::Uuid;

fn valid_manufacturer_data() -> ManufacturerData {
    ManufacturerData {
        company_id: advertisement_identity::DEVELOPMENT_COMPANY_ID,
        data: vec![
            advertisement_identity::VERSION,
            advertisement_identity::PRODUCT_ID_HELLO_ESPCX,
            0x78,
            0x56,
            0x34,
            0x12,
            0b0000_0010,
        ],
    }
}

fn props(id: &str, local_name: Option<&str>) -> PeripheralProperties {
    PeripheralProperties {
        id: id.to_string(),
        local_name: local_name.map(str::to_string),
        advertised_services: Vec::new(),
        manufacturer_data: None,
        service_data: BTreeMap::new(),
        rssi: Some(-50),
        is_connectable: true,
    }
}

#[test]
fn decode_manufacturer_payload_accepts_expected_layout() {
    let payload = decode_manufacturer_payload(&valid_manufacturer_data()).unwrap();

    assert_eq!(payload.version, advertisement_identity::VERSION);
    assert_eq!(payload.product_id, advertisement_identity::PRODUCT_ID_HELLO_ESPCX);
    assert_eq!(payload.unit_id, 0x1234_5678);
    assert_eq!(payload.flags, 0b0000_0010);
}

#[test]
fn decode_manufacturer_payload_rejects_wrong_company_or_length() {
    let wrong_company = ManufacturerData {
        company_id: advertisement_identity::DEVELOPMENT_COMPANY_ID.wrapping_add(1),
        data: valid_manufacturer_data().data,
    };
    assert!(decode_manufacturer_payload(&wrong_company).is_none());

    let wrong_length = ManufacturerData {
        company_id: advertisement_identity::DEVELOPMENT_COMPANY_ID,
        data: vec![advertisement_identity::VERSION],
    };
    assert!(decode_manufacturer_payload(&wrong_length).is_none());
}

#[test]
fn product_scan_filter_targets_expected_name_service_and_company() {
    let filter = build_product_scan_filter();

    assert_eq!(filter.name_patterns, vec![PERIPHERAL_NAME.to_string()]);
    assert_eq!(filter.service_uuids, vec![Uuid::from_u16(battery::SERVICE_UUID16)]);
    assert_eq!(
        filter.manufacturer_company_ids,
        vec![advertisement_identity::DEVELOPMENT_COMPANY_ID]
    );
}

#[test]
fn product_scan_filter_matches_expected_product_advertisement() {
    assert!(matches_product_identity(&valid_manufacturer_data()));
}

#[test]
fn product_scan_filter_rejects_wrong_product_payload() {
    let mut wrong_version = valid_manufacturer_data();
    wrong_version.data[0] = advertisement_identity::VERSION.wrapping_add(1);
    assert!(!matches_product_identity(&wrong_version));

    let mut wrong_product = valid_manufacturer_data();
    wrong_product.data[1] = advertisement_identity::PRODUCT_ID_HELLO_ESPCX.wrapping_add(1);
    assert!(!matches_product_identity(&wrong_product));
}

#[test]
fn product_scan_filter_accepts_product_and_rejects_foreign_device() {
    let filter = build_product_scan_filter();
    let mut product = props("dev-1", Some("hello-espcx"));
    product.manufacturer_data = Some(valid_manufacturer_data());
    assert!(filter.matches_properties(&product));

    let mut renamed = props("dev-2", Some("other"));
    renamed.manufacturer_data = Some(valid_manufacturer_data());
    assert!(!filter.matches_properties(&renamed));

    let bare = props("dev-3", Some("hello-espcx"));
    assert!(!filter.matches_properties(&bare));

    let mut foreign = props("dev-4", Some("hello-espcx"));
    foreign.manufacturer_data = Some(ManufacturerData { company_id: 0x004C, data: vec![1, 1, 0, 0, 0, 0, 0] });
    assert!(!filter.matches_properties(&foreign));
}

#[test]
fn product_selector_prefers_connectable_then_signal() {
    let selector = build_product_selector();
    let mut a = props("a", Some("hello-espcx"));
    a.rssi = Some(-30);
    a.is_connectable = false;
    let mut b = props("b", Some("hello-espcx"));
    b.rssi = Some(-70);
    let mut c = props("c", Some("hello-espcx"));
    c.rssi = Some(-40);
    let peripherals = [Peripheral::from_properties(a), Peripheral::from_properties(b), Peripheral::from_properties(c)];
    let order = selector.rank_ref(&peripherals).unwrap();
    let ids: Vec<&str> = order.iter().map(|&i| peripherals[i].id()).collect();
    assert_eq!(ids, vec!["c", "b", "a"]);
}

#[test]
fn product_candidate_requires_decodable_identity() {
    let mut with_identity = props("dev-1", Some("hello-espcx"));
    with_identity.manufacturer_data = Some(valid_manufacturer_data());
    let candidate = product_candidate_from_peripheral(Peripheral::from_properties(with_identity)).unwrap();
    assert_eq!(candidate.id(), "dev-1");
    assert_eq!(candidate.local_name(), Some("hello-espcx"));
    assert_eq!(candidate.rssi(), Some(-50));
    assert!(candidate.is_connectable());
    assert_eq!(candidate.identity().unit_id, 0x1234_5678);

    let missing = product_candidate_from_peripheral(Peripheral::from_properties(props("dev-2", None)));
    assert!(matches!(missing, Err(SessionError::MissingManufacturerData)));

    let mut short = props("dev-3", None);
    short.manufacturer_data = Some(ManufacturerData { company_id: 0xFFFF, data: vec![1] });
    let invalid = product_candidate_from_peripheral(Peripheral::from_properties(short));
    assert!(matches!(invalid, Err(SessionError::InvalidManufacturerPayload)));
}

#[test]
fn session_binds_product_characteristics() {
    let session = build_session();
    assert_eq!(session.battery_uuid().as_u128(), 0x0000_2A19_0000_1000_8000_0080_5F9B_34FB);
    assert_eq!(session.echo_uuid().as_u128(), 0x4088_13df_5dd4_1f87_ec11_cdb0_0110_1002);
    assert_eq!(session.status_uuid().as_u128(), 0x4088_13df_5dd4_1f87_ec11_cdb0_0110_2002);
    assert_eq!(session.bulk_control_uuid().as_u128(), 0x4088_13df_5dd4_1f87_ec11_cdb0_0110_3002);
    assert_eq!(session.bulk_data_uuid().as_u128(), 0x4088_13df_5dd4_1f87_ec11_cdb0_0110_3003);
    assert_eq!(session.bulk_stats_uuid().as_u128(), 0x4088_13df_5dd4_1f87_ec11_cdb0_0110_3004);
    assert_eq!(session.manufacturer_uuid().as_u128(), 0x0000_2A29_0000_1000_8000_0080_5F9B_34FB);
    assert_eq!(session.model_uuid().as_u128(), 0x0000_2A24_0000_1000_8000_0080_5F9B_34FB);
    assert_eq!(session.firmware_uuid().as_u128(), 0x0000_2A26_0000_1000_8000_0080_5F9B_34FB);
    assert_eq!(session.software_uuid().as_u128(), 0x0000_2A28_0000_1000_8000_0080_5F9B_34FB);
}

#[test]
fn battery_level_needs_exactly_one_byte() {
    assert_eq!(battery_level_from(&[87]), Ok(87));
    assert_eq!(battery_level_from(&[]), Err(SessionError::UnexpectedLength { expected: 1, actual: 0 }));
    assert_eq!(battery_level_from(&[1, 2]), Err(SessionError::UnexpectedLength { expected: 1, actual: 2 }));
}

#[test]
fn echo_and_upload_sizes_are_checked() {
    assert_eq!(check_echo_payload(&[0u8; 252]), Ok(()));
    assert_eq!(check_echo_payload(&[0u8; 253]), Err(SessionError::EchoTooLarge { len: 253, max: 252 }));
    assert_eq!(check_upload_chunk(&[0u8; 252]), Ok(()));
    assert_eq!(check_upload_chunk(&[0u8; 300]), Err(SessionError::DataTooLarge { len: 300, max: 252 }));
}

#[test]
fn reset_poll_finishes_on_zero_stats_and_times_out() {
    let mut poll = ResetPoll::new();
    assert_eq!(poll.observe(BulkStats { rx_bytes: 5, tx_bytes: 0 }), ResetPollStep::Retry);
    assert_eq!(poll.observe(BulkStats { rx_bytes: 0, tx_bytes: 0 }), ResetPollStep::Done);

    let mut stuck = ResetPoll::new();
    for _ in 0..RESET_POLL_ATTEMPTS - 1 {
        assert_eq!(stuck.observe(BulkStats { rx_bytes: 1, tx_bytes: 1 }), ResetPollStep::Retry);
    }
    assert_eq!(stuck.observe(BulkStats { rx_bytes: 1, tx_bytes: 1 }), ResetPollStep::TimedOut);
}

#[test]
fn monitor_step_classifies_events() {
    assert_eq!(monitor_step(&MonitorEvent::Notification(vec![73])), MonitorAction::ReportBattery(73));
    assert_eq!(monitor_step(&MonitorEvent::Notification(vec![1, 2, 3])), MonitorAction::ReportBytes(3));
    assert_eq!(monitor_step(&MonitorEvent::Notification(vec![])), MonitorAction::ReportBytes(0));
    assert_eq!(monitor_step(&MonitorEvent::NotificationFailed), MonitorAction::Stop(MonitorStop::NotificationError));
    assert_eq!(monitor_step(&MonitorEvent::StreamEnded), MonitorAction::Stop(MonitorStop::StreamEnded));
    assert_eq!(monitor_step(&MonitorEvent::Tick { connected: true }), MonitorAction::PollBattery);
    assert_eq!(monitor_step(&MonitorEvent::Tick { connected: false }), MonitorAction::Stop(MonitorStop::Disconnected));
}

fn product(id: &str, rssi: i16, connectable: bool, unit: u8) -> Peripheral {
    let mut p = props(id, Some("hello-espcx"));
    p.rssi = Some(rssi);
    p.is_connectable = connectable;
    let mut data = valid_manufacturer_data();
    data.data[2] = unit;
    p.manufacturer_data = Some(data);
    Peripheral::from_properties(p)
}

#[test]
fn discovered_candidates_rank_and_decode() {
    let found = [product("a", -80, true, 1), product("b", -40, false, 2), product("c", -60, true, 3)];
    let candidates = discovered_candidates(&found).unwrap();
    let ids: Vec<&str> = candidates.iter().map(|c| c.id()).collect();
    assert_eq!(ids, vec!["c", "a", "b"]);
    assert_eq!(candidates[0].identity().unit_id & 0xff, 3);

    let best = best_candidate(&found).unwrap();
    assert_eq!(best.id(), "c");

    assert!(matches!(discovered_candidates(&[]), Err(SessionError::NoCandidate)));
    assert!(matches!(best_candidate(&[]), Err(SessionError::NoCandidate)));

    let with_stranger = [product("a", -80, true, 1), Peripheral::from_properties(props("s", Some("hello-espcx")))];
    assert!(matches!(discovered_candidates(&with_stranger), Err(SessionError::MissingManufacturerData)));
}
