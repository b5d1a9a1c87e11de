use std::collections::BTreeMap;

use hello_espcx::display::display_lines;
use hello_espcx::properties::{Peripheral, PeripheralProperties};

fn peripheral(id: &str, name: Option<&str>, rssi: Option<i16>, connectable: bool) -> Peripheral {
    Peripheral::from_properties(PeripheralProperties {
        id: id.to_string(),
        local_name: name.map(str::to_string),
        advertised_services: Vec::new(),
        manufacturer_data: None,
        service_data: BTreeMap::new(),
        rssi,
        is_connectable: connectable,
    })
}

#[test]
fn summary_shows_name_id_signal_and_connectability() {
    assert_eq!(
        peripheral("AA:BB", Some("hello-espcx"), Some(-47), true).summary(),
        "hello-espcx [id=AA:BB, rssi=-47, connectable=true]"
    );
    assert_eq!(peripheral("x", None, None, false).summary(), "(unknown) [id=x, rssi=?, connectable=false]");
    assert_eq!(peripheral("y", Some("n"), Some(0), true).summary(), "n [id=y, rssi=0, connectable=true]");
    assert_eq!(peripheral("z", Some("n"), Some(-32768), true).summary(), "n [id=z, rssi=-32768, connectable=true]");
    assert_eq!(peripheral("z", Some("n"), Some(32767), true).summary(), "n [id=z, rssi=32767, connectable=true]");
}

#[test]
fn display_lines_puts_one_peripheral_per_line() {
    assert_eq!(display_lines(&[]), "(no peripherals)");
    let list = [peripheral("a", Some("one"), Some(-10), true), peripheral("b", None, Some(-120), false)];
    assert_eq!(
        display_lines(&list),
        "one [id=a, rssi=-10, connectable=true]\n(unknown) [id=b, rssi=-120, connectable=false]"
    );
}
