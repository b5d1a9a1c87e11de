use hello_espcx::error::BtleplusError;
use hello_espcx::protocol::bulk::{BulkControlCommand, BulkStats};
use hello_espcx::wire::{
    control_value, decode_bulk_stats, decode_control_command, decode_status, stats_value, status_value,
};

#[test]
fn status_values_encode_as_one_byte() {
    assert_eq!(status_value(true), vec![1]);
    assert_eq!(status_value(false), vec![0]);
    assert_eq!(decode_status(&[1]).unwrap(), true);
    assert_eq!(decode_status(&[0, 9]).unwrap(), false);
    assert!(matches!(decode_status(&[2]), Err(BtleplusError::Deserialize(_))));
    assert!(matches!(decode_status(&[]), Err(BtleplusError::Deserialize(_))));
}

#[test]
fn control_commands_encode_as_variant_then_fields() {
    assert_eq!(control_value(BulkControlCommand::Idle), vec![0]);
    assert_eq!(control_value(BulkControlCommand::ResetStats), vec![1]);
    assert_eq!(control_value(BulkControlCommand::StartStream { total_bytes: 10240 }), vec![2, 0x80, 0x50]);
    assert_eq!(
        control_value(BulkControlCommand::StartStream { total_bytes: u32::MAX }),
        vec![2, 0xff, 0xff, 0xff, 0xff, 0x0f]
    );
}

#[test]
fn control_commands_decode_back() {
    for cmd in [
        BulkControlCommand::Idle,
        BulkControlCommand::ResetStats,
        BulkControlCommand::StartStream { total_bytes: 0 },
        BulkControlCommand::StartStream { total_bytes: 300 },
        BulkControlCommand::StartStream { total_bytes: u32::MAX },
    ] {
        assert_eq!(decode_control_command(&control_value(cmd)).unwrap(), cmd);
    }
    assert!(matches!(decode_control_command(&[3]), Err(BtleplusError::Deserialize(_))));
    assert!(matches!(decode_control_command(&[2]), Err(BtleplusError::Deserialize(_))));
    match decode_control_command(&[]) {
        Err(BtleplusError::Deserialize(message)) => assert_eq!(message, "postcard deserialize failed"),
        other => panic!("unexpected {:?}", other),
    }
}

#[test]
fn stats_encode_as_two_varints() {
    assert_eq!(stats_value(BulkStats { rx_bytes: 300, tx_bytes: 1 }), vec![0xAC, 0x02, 0x01]);
    assert_eq!(stats_value(BulkStats { rx_bytes: 0, tx_bytes: 0 }), vec![0, 0]);
    assert_eq!(decode_bulk_stats(&[0xAC, 0x02, 0x01]).unwrap(), BulkStats { rx_bytes: 300, tx_bytes: 1 });
    let big = BulkStats { rx_bytes: u32::MAX, tx_bytes: 10240 };
    assert_eq!(decode_bulk_stats(&stats_value(big)).unwrap(), big);
    assert!(matches!(decode_bulk_stats(&[0xAC]), Err(BtleplusError::Deserialize(_))));
    assert!(matches!(decode_bulk_stats(&[5]), Err(BtleplusError::Deserialize(_))));
}
