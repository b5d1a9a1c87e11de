use std::collections::BTreeMap;

use hello_espcx::error::BtleplusError;
use hello_espcx::properties::{ManufacturerData, Peripheral, PeripheralProperties, PropertiesPredicate};
use hello_espcx::selection::Selector;

fn candidate(id: &str, local_name: Option<&str>, rssi: Option<i16>, connectable: bool) -> Peripheral {
    Peripheral::from_properties(PeripheralProperties {
        id: id.to_string(),
        local_name: local_name.map(str::to_string),
        advertised_services: Vec::new(),
        manufacturer_data: None,
        service_data: BTreeMap::new(),
        rssi,
        is_connectable: connectable,
    })
}

fn with_manufacturer_data(mut peripheral: Peripheral, company_id: u16, data: &[u8]) -> Peripheral {
    peripheral.properties.manufacturer_data = Some(ManufacturerData { company_id, data: data.to_vec() });
    peripheral
}

fn ranked_ids<'a>(selector: &Selector, candidates: &'a [Peripheral]) -> Vec<&'a str> {
    let ranked = selector.rank_ref(candidates).unwrap();
    ranked.into_iter().map(|index| candidates[index].id()).collect()
}

#[test]
fn prefer_connectable_keeps_non_connectable_as_fallback() {
    let selector = Selector::default().prefer_connectable();
    let candidates = [
        candidate("a", Some("hello-espcx"), Some(-40), false),
        candidate("b", Some("hello-espcx"), Some(-80), true),
    ];

    let chosen = selector.select_ref(&candidates).unwrap();
    assert_eq!(candidates[chosen].id(), "b");
}

#[test]
fn prefer_strongest_signal_picks_highest_rssi() {
    let selector = Selector::default().prefer_strongest_signal();
    let candidates = [
        candidate("a", Some("hello-espcx"), Some(-80), true),
        candidate("b", Some("hello-espcx"), Some(-45), true),
        candidate("c", Some("hello-espcx"), Some(-60), true),
    ];

    let chosen = selector.select_ref(&candidates).unwrap();
    assert_eq!(candidates[chosen].id(), "b");
}

#[test]
fn filter_removes_non_matching_candidates() {
    let selector = Selector::default().filter(PropertiesPredicate::LocalNameIs("hello-espcx".to_string()));
    let candidates = [
        candidate("a", Some("other"), Some(-40), true),
        candidate("b", Some("hello-espcx"), Some(-80), true),
    ];

    let chosen = selector.select_ref(&candidates).unwrap();
    assert_eq!(candidates[chosen].id(), "b");
}

#[test]
fn no_candidates_after_filter_returns_selection_error() {
    let selector = Selector::default().filter(PropertiesPredicate::LocalNameIs("missing".to_string()));
    let candidates = [candidate("a", Some("hello-espcx"), Some(-40), true)];

    let error = selector.select_ref(&candidates).unwrap_err();
    assert!(matches!(error, BtleplusError::SelectionFailed(_)));
}

#[test]
fn prefer_manufacturer_company_id_boosts_matching_candidate() {
    let selector = Selector::default().prefer_manufacturer_company_id(0x004C);
    let candidates = [
        with_manufacturer_data(candidate("a", Some("hello-espcx"), Some(-40), true), 0xFFFF, &[1, 2, 3]),
        with_manufacturer_data(candidate("b", Some("hello-espcx"), Some(-80), true), 0x004C, &[9, 9, 9]),
    ];

    let chosen = selector.select_ref(&candidates).unwrap();
    assert_eq!(candidates[chosen].id(), "b");
}

#[test]
fn prefer_call_order_sets_priority() {
    let selector = Selector::default().prefer_strongest_signal().prefer_connectable();
    let candidates = [
        candidate("a", Some("hello-espcx"), Some(-80), true),
        candidate("b", Some("hello-espcx"), Some(-45), true),
        candidate("c", Some("hello-espcx"), Some(-30), false),
    ];

    assert_eq!(ranked_ids(&selector, &candidates), vec!["c", "b", "a"]);
}

#[test]
fn repeated_preference_calls_keep_their_chain_order() {
    let selector = Selector::default().prefer_id("a".to_string()).prefer_id("b".to_string());
    let candidates = [
        candidate("a", Some("hello-espcx"), Some(-80), true),
        candidate("b", Some("hello-espcx"), Some(-45), true),
        candidate("c", Some("hello-espcx"), Some(-30), true),
    ];

    assert_eq!(ranked_ids(&selector, &candidates), vec!["a", "b", "c"]);
}

#[test]
fn rank_returns_all_candidates_in_preference_order() {
    let selector = Selector::default().prefer_connectable().prefer_strongest_signal();
    let candidates = [
        candidate("a", Some("hello-espcx"), Some(-80), true),
        candidate("b", Some("hello-espcx"), Some(-45), true),
        candidate("c", Some("hello-espcx"), Some(-30), false),
    ];

    assert_eq!(ranked_ids(&selector, &candidates), vec!["b", "a", "c"]);
}

#[test]
fn ties_fall_back_to_identifier_order() {
    let selector = Selector::default();
    let candidates = [
        candidate("zeta", None, Some(-50), true),
        candidate("alpha", None, Some(-50), true),
        candidate("mid", None, None, false),
    ];
    assert_eq!(ranked_ids(&selector, &candidates), vec!["alpha", "mid", "zeta"]);
}

#[test]
fn missing_rssi_ranks_below_any_reported_signal() {
    let selector = Selector::default().prefer_strongest_signal();
    let candidates = [candidate("a", None, None, true), candidate("b", None, Some(-120), true)];
    assert_eq!(ranked_ids(&selector, &candidates), vec!["b", "a"]);
}

#[test]
fn prefer_local_name_boosts_exact_name() {
    let selector = Selector::default().prefer_local_name("hello-espcx".to_string());
    let candidates = [
        candidate("a", Some("hello-espcx-2"), Some(-30), true),
        candidate("b", Some("hello-espcx"), Some(-90), true),
    ];
    let chosen = selector.select_ref(&candidates).unwrap();
    assert_eq!(candidates[chosen].id(), "b");
}

#[test]
fn rank_and_select_return_owned_peripherals() {
    let selector = Selector::default().prefer_strongest_signal();
    let candidates = [
        candidate("a", Some("x"), Some(-80), true),
        candidate("b", Some("y"), Some(-20), true),
    ];
    let ranked = selector.rank(&candidates).unwrap();
    let ids: Vec<&str> = ranked.iter().map(|p| p.id()).collect();
    assert_eq!(ids, vec!["b", "a"]);
    let best = selector.select(&candidates).unwrap();
    assert_eq!(best.id(), "b");
    assert_eq!(best.local_name(), Some("y"));

    let empty: [Peripheral; 0] = [];
    assert!(matches!(selector.rank(&empty), Err(BtleplusError::SelectionFailed(_))));
}
