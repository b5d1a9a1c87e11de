use hello_espcx::error::{BtleplusError, WinbleError};
use hello_espcx::gatt::GattDatabase;
use hello_espcx::uuid::Uuid;

fn database() -> GattDatabase {
    GattDatabase::new(
        2,
        vec![
            Uuid::from_u16(0x2A19),
            Uuid::from_u128(0x4088_13df_5dd4_1f87_ec11_cdb0_0110_1002),
            Uuid::from_u16(0x2A19),
        ],
    )
}

#[test]
fn database_counts_what_was_discovered() {
    let db = database();
    assert_eq!(db.num_services(), 2);
    assert_eq!(db.num_characteristics(), 3);
    assert_eq!(db.discovered_characteristics()[1].as_u128(), 0x4088_13df_5dd4_1f87_ec11_cdb0_0110_1002);
}

#[test]
fn find_characteristic_returns_first_match() {
    let db = database();
    assert_eq!(db.find_characteristic(Uuid::from_u16(0x2A19)).unwrap(), 0);
    assert_eq!(db.find_characteristic(Uuid::from_u128(0x4088_13df_5dd4_1f87_ec11_cdb0_0110_1002)).unwrap(), 1);
    assert_eq!(db.find_char(Uuid::from_u16(0x2A19)).unwrap(), 0);
}

#[test]
fn missing_characteristic_is_named_in_the_error() {
    let db = database();
    match db.find_characteristic(Uuid::from_u16(0x180F)) {
        Err(BtleplusError::InvalidOperation(message)) => {
            assert_eq!(message, "Characteristic 0000180f-0000-1000-8000-00805f9b34fb not found")
        }
        other => panic!("unexpected {:?}", other),
    }
    match db.find_char(Uuid::from_u128(0xABCD)) {
        Err(WinbleError::InvalidOperation(message)) => {
            assert_eq!(message, "Characteristic 00000000-0000-0000-0000-00000000abcd not found")
        }
        other => panic!("unexpected {:?}", other),
    }
}

#[test]
fn uuid_text_is_hyphenated_lower_case() {
    assert_eq!(
        Uuid::from_u128(0x4088_13df_5dd4_1f87_ec11_cdb0_0110_3004).to_text(),
        "408813df-5dd4-1f87-ec11-cdb001103004"
    );
    assert_eq!(Uuid::from_u128(0).to_text(), "00000000-0000-0000-0000-000000000000");
    assert_eq!(Uuid::from_u128(u128::MAX).to_text(), "ffffffff-ffff-ffff-ffff-ffffffffffff");
    let texts = database().characteristic_texts();
    assert_eq!(texts[0], "00002a19-0000-1000-8000-00805f9b34fb");
    assert_eq!(texts.len(), 3);
}
