use std::collections::BTreeMap;

use hello_espcx::discovery::{scan_interval_secs, scan_pause_ms, should_collect_discovered_properties, SeenIds};
use hello_espcx::filter::ScanFilter;
use hello_espcx::properties::{ManufacturerData, ManufacturerPredicate, PeripheralProperties, PropertiesPredicate};
use hello_espcx::uuid::Uuid;

fn props(id: &str, local_name: Option<&str>) -> PeripheralProperties {
    PeripheralProperties {
        id: id.to_string(),
        local_name: local_name.map(str::to_string),
        advertised_services: Vec::new(),
        manufacturer_data: None,
        service_data: BTreeMap::new(),
        rssi: Some(-50),
        is_connectable: true,
    }
}

#[test]
fn matches_name_when_only_name_filters_exist() {
    let filter = ScanFilter::default().with_name_pattern("hello");
    assert!(filter.matches_properties(&props("id-a", Some("hello-espcx"))));
    assert!(!filter.matches_properties(&props("id-b", Some("other"))));
}

#[test]
fn matches_addr_when_only_addr_filters_exist() {
    let filter = ScanFilter::default().with_addr_pattern("device-123");
    assert!(filter.matches_properties(&props("device-123-abc", Some("other"))));
    assert!(!filter.matches_properties(&props("device-999", Some("other"))));
}

#[test]
fn manufacturer_company_id_filters_candidates() {
    let filter = ScanFilter::default().with_manufacturer_company_id(0xFFFF);
    let mut peripheral = props("id-a", Some("hello"));
    peripheral.manufacturer_data = Some(ManufacturerData { company_id: 0xFFFF, data: vec![1, 2, 3] });
    assert!(filter.matches_properties(&peripheral));

    peripheral.manufacturer_data = Some(ManufacturerData { company_id: 0x004C, data: vec![1, 2, 3] });
    assert!(!filter.matches_properties(&peripheral));
}

#[test]
fn discover_helper_collects_first_matching_id() {
    let filter = ScanFilter::default().with_name_pattern("hello");
    let mut seen_ids = SeenIds::new();
    let properties = props("id-a", Some("hello-espcx"));

    assert!(should_collect_discovered_properties(&properties, &filter, &mut seen_ids));
    assert!(seen_ids.contains("id-a"));
}

#[test]
fn discover_helper_skips_non_matching_properties() {
    let filter = ScanFilter::default().with_name_pattern("hello");
    let mut seen_ids = SeenIds::new();
    let properties = props("id-a", Some("other"));

    assert!(!should_collect_discovered_properties(&properties, &filter, &mut seen_ids));
    assert!(seen_ids.is_empty());
}

#[test]
fn discover_helper_deduplicates_by_device_id() {
    let filter = ScanFilter::default().with_name_pattern("hello");
    let mut seen_ids = SeenIds::new();
    let first = props("id-a", Some("hello-espcx"));
    let second = props("id-a", Some("hello-espcx"));

    assert!(should_collect_discovered_properties(&first, &filter, &mut seen_ids));
    assert!(!should_collect_discovered_properties(&second, &filter, &mut seen_ids));
}

#[test]
fn discover_helper_applies_manufacturer_filters_before_collecting() {
    let filter = ScanFilter::default().with_manufacturer_company_id(0x004C);
    let mut seen_ids = SeenIds::new();
    let mut properties = props("id-a", Some("hello-espcx"));
    properties.manufacturer_data = Some(ManufacturerData { company_id: 0x004C, data: vec![1, 2, 3] });

    assert!(should_collect_discovered_properties(&properties, &filter, &mut seen_ids));

    let mut wrong_company = props("id-b", Some("hello-espcx"));
    wrong_company.manufacturer_data = Some(ManufacturerData { company_id: 0xFFFF, data: vec![1, 2, 3] });

    assert!(!should_collect_discovered_properties(&wrong_company, &filter, &mut seen_ids));
}

#[test]
fn empty_filter_matches_every_device() {
    let filter = ScanFilter::default();
    assert!(filter.matches_properties(&props("any", None)));
    assert!(filter.matches_properties(&props("", Some(""))));
}

#[test]
fn name_or_address_patterns_are_alternatives() {
    let filter = ScanFilter::default().with_name_patterns(&["foo", "hello"]).with_addr_patterns(&["AA:"]);
    assert!(filter.matches_properties(&props("BB:01", Some("hello-espcx"))));
    assert!(filter.matches_properties(&props("AA:01", Some("other"))));
    assert!(!filter.matches_properties(&props("BB:01", Some("other"))));
    assert!(!filter.matches_properties(&props("BB:01", None)));
}

#[test]
fn pattern_must_be_a_prefix_not_a_substring() {
    let filter = ScanFilter::default().with_name_pattern("espcx");
    assert!(!filter.matches_properties(&props("id", Some("hello-espcx"))));
    let longer = ScanFilter::default().with_name_pattern("hello-espcx-2");
    assert!(!longer.matches_properties(&props("id", Some("hello-espcx"))));
}

#[test]
fn company_ids_and_conditions_combine() {
    let filter = ScanFilter::default()
        .with_manufacturer_company_ids(&[0x004C, 0xFFFF])
        .with_manufacturer_data(ManufacturerPredicate::CompanyId(0xFFFF))
        .filter(PropertiesPredicate::Connectable);
    let mut p = props("id", None);
    assert!(!filter.matches_properties(&p));
    p.manufacturer_data = Some(ManufacturerData { company_id: 0x004C, data: vec![] });
    assert!(!filter.matches_properties(&p));
    p.manufacturer_data = Some(ManufacturerData { company_id: 0xFFFF, data: vec![] });
    assert!(filter.matches_properties(&p));
    p.is_connectable = false;
    assert!(!filter.matches_properties(&p));
}

#[test]
fn builders_record_services_and_interval() {
    let filter = ScanFilter::default()
        .with_service_uuid(Uuid::from_u16(0x180F))
        .with_service_uuids(&[Uuid::from_u128(7), Uuid::from_u128(9)])
        .with_scan_interval_secs(5);
    assert_eq!(filter.service_uuids, vec![Uuid::from_u16(0x180F), Uuid::from_u128(7), Uuid::from_u128(9)]);
    assert_eq!(scan_interval_secs(&filter), 5);
    assert_eq!(ScanFilter::default().scan_interval_secs, 2);
    assert_eq!(scan_interval_secs(&ScanFilter::default()), 2);
    assert_eq!(scan_interval_secs(&ScanFilter::default().with_scan_interval_secs(0)), 1);
}

#[test]
fn scan_pause_is_shorter_of_remaining_and_interval() {
    let filter = ScanFilter::default().with_scan_interval_secs(2);
    assert_eq!(scan_pause_ms(&filter, 500), 500);
    assert_eq!(scan_pause_ms(&filter, 5000), 2000);
    assert_eq!(scan_pause_ms(&ScanFilter::default(), 5000), 2000);
    assert_eq!(scan_pause_ms(&ScanFilter::default().with_scan_interval_secs(0), 5000), 1000);
    assert_eq!(scan_pause_ms(&ScanFilter::default().with_scan_interval_secs(u64::MAX), u64::MAX), u64::MAX);
}
