use hello_espcx::advertising::{build_advertisement, ADV_PAYLOAD_MAX};
use hello_espcx::peripheral::{
    handle_gatt_event, initial_bulk_control_value, initial_bulk_stats_value, initial_status_value, CustomTask,
    GattRequest, ProductHandles, TaskStep, TransferStats,
};
use hello_espcx::protocol::bulk::BulkStats;
use hello_espcx::winble;

fn handles() -> ProductHandles {
    ProductHandles { level: 1, echo: 2, status: 3, bulk_control: 4, bulk_data: 5, bulk_stats: 6 }
}

#[test]
fn characteristics_start_with_encoded_defaults() {
    assert_eq!(initial_status_value(), vec![0]);
    assert_eq!(initial_bulk_control_value(), vec![0]);
    assert_eq!(initial_bulk_stats_value(), vec![0, 0]);
}

#[test]
fn transfer_stats_count_and_reset() {
    let mut stats = TransferStats::new();
    stats.record_rx(&[0u8; 252]);
    stats.record_rx(&[0u8; 48]);
    stats.record_tx(&[0u8; 10]);
    assert_eq!(stats.snapshot(), BulkStats { rx_bytes: 300, tx_bytes: 10 });
    assert_eq!(stats.stats_value(), vec![0xAC, 0x02, 10]);
    stats.begin_stream();
    assert_eq!(stats.snapshot(), BulkStats { rx_bytes: 300, tx_bytes: 0 });
    stats.reset_stats();
    assert_eq!(stats.snapshot(), BulkStats { rx_bytes: 0, tx_bytes: 0 });
}

#[test]
fn gatt_reset_and_upload_update_stats() {
    let h = handles();
    let mut stats = TransferStats::new();

    let upload = GattRequest::Write { handle: h.bulk_data, data: vec![7u8; 100] };
    assert_eq!(handle_gatt_event(&mut stats, &h, &upload), Some(vec![100, 0]));
    assert_eq!(stats.snapshot(), BulkStats { rx_bytes: 100, tx_bytes: 0 });

    let read = GattRequest::Read { handle: h.bulk_stats };
    assert_eq!(handle_gatt_event(&mut stats, &h, &read), None);

    let echo = GattRequest::Write { handle: h.echo, data: vec![1, 2, 3] };
    assert_eq!(handle_gatt_event(&mut stats, &h, &echo), None);
    assert_eq!(stats.snapshot(), BulkStats { rx_bytes: 100, tx_bytes: 0 });

    let start = GattRequest::Write { handle: h.bulk_control, data: vec![2, 0x80, 0x50] };
    assert_eq!(handle_gatt_event(&mut stats, &h, &start), None);
    assert_eq!(stats.snapshot(), BulkStats { rx_bytes: 100, tx_bytes: 0 });

    let reset = GattRequest::Write { handle: h.bulk_control, data: vec![1] };
    assert_eq!(handle_gatt_event(&mut stats, &h, &reset), Some(vec![0, 0]));
    assert_eq!(stats.snapshot(), BulkStats { rx_bytes: 0, tx_bytes: 0 });
}

#[test]
fn custom_task_streams_on_command_else_notifies() {
    let mut task = CustomTask::new();
    assert_eq!(task.step(&[0], &[]), TaskStep::Notify { echo: false, battery_level: 1 });
    assert_eq!(task.step(&[2, 0x80, 0x50], &[]), TaskStep::Stream { total_bytes: 10240 });
    assert_eq!(task.step(&[1], &[9, 9]), TaskStep::Notify { echo: true, battery_level: 2 });
    for level in 3..=100u8 {
        assert_eq!(task.step(&[], &[]), TaskStep::Notify { echo: false, battery_level: level });
    }
    assert_eq!(task.step(&[0], &[]), TaskStep::Notify { echo: false, battery_level: 0 });
    assert_eq!(task.step(&[0], &[]), TaskStep::Notify { echo: false, battery_level: 1 });
}

#[test]
fn advertisement_fills_the_legacy_payload() {
    let data = build_advertisement().unwrap();
    assert_eq!(data.adv_len, ADV_PAYLOAD_MAX);
    assert_eq!(data.scan_len, 0);
    let expected: [u8; 31] = [
        2, 0x01, 0x06, 3, 0x03, 0x0F, 0x18, 12, 0x09, b'h', b'e', b'l', b'l', b'o', b'-', b'e', b's', b'p', b'c',
        b'x', 10, 0xff, 0xff, 0xff, 1, 1, 0xff, 0x8f, 0x1a, 0x05, 0,
    ];
    assert_eq!(data.adv_data, expected);
    assert_eq!(data.scan_data, [0u8; 31]);
}

#[test]
fn winble_filter_passes_when_name_or_address_matches() {
    assert!(winble::ScanFilter::default().matches("anything", "AA"));
    let named = winble::ScanFilter::default().with_name_pattern("hello").with_addr_pattern("FF:8F");
    assert!(named.matches("hello-espcx", "00:00"));
    assert!(named.matches("other", "FF:8F:1A"));
    assert!(!named.matches("other", "00:00"));
    let name_only = winble::ScanFilter::default().with_name_patterns(&["x", "y"]);
    assert!(!name_only.matches("zzz", "00:00"));
    assert!(name_only.matches("yes", "00:00"));
    let hello = winble::ScanFilter::default().with_name_pattern("hello");
    assert!(!hello.matches("other", "id-b"));
    assert!(hello.matches("hello-espcx", "id-a"));
    let address_only = winble::ScanFilter::default().with_addr_pattern("FF:8F");
    assert!(address_only.matches("any", "FF:8F:1A"));
    assert!(!address_only.matches("hello-espcx", "00:00"));
    let both = winble::ScanFilter::default().with_name_pattern("").with_addr_patterns(&["AA"]);
    assert!(both.matches("", "BB"));
    assert_eq!(winble::ScanFilter::default().with_scan_interval_secs(3).scan_interval_secs, 3);
    assert_eq!(winble::ScanFilter::default().scan_interval_secs, 2);
}
