use club_ledger::clock::Timestamp;
use club_ledger::currency::Currency;
use club_ledger::types::{begins_with, suggestion, Callsign, ESCPOSDevice};
use std::collections::hash_map::DefaultHasher;
use std::collections::HashMap;
use std::hash::{Hash, Hasher};

fn party(callsign: &str, name: &str) -> Callsign {
    Callsign::new(callsign.to_string(), name.to_string())
}

fn hash_of(callsign: &Callsign) -> u64 {
    let mut hasher = DefaultHasher::new();
    callsign.hash(&mut hasher);
    hasher.finish()
}

#[test]
fn callsigns_are_equal_by_callsign_alone() {
    assert!(party("M0ABC", "Jane Smith") == party("M0ABC", "J. Smith"));
    assert!(party("M0ABC", "Jane Smith") != party("M0ABD", "Jane Smith"));
    assert!(party("", "") == Callsign::default());
}

#[test]
fn callsigns_hash_by_callsign_alone() {
    assert_eq!(hash_of(&party("M0ABC", "Jane Smith")), hash_of(&party("M0ABC", "")));
    let mut owed: HashMap<Callsign, u32> = HashMap::new();
    owed.insert(party("M0ABC", "Jane Smith"), 1);
    owed.insert(party("M0ABC", "Somebody Else"), 2);
    assert_eq!(owed.len(), 1);
    assert_eq!(owed[&party("M0ABC", "")], 2);
}

#[test]
fn callsign_getters_and_setters() {
    let mut c = party("M0ABC", "Jane Smith");
    assert_eq!(c.callsign(), "M0ABC");
    assert_eq!(c.name(), "Jane Smith");
    c.set_callsign("G4XYZ".to_string()).set_name("John Doe".to_string());
    assert_eq!(c.callsign(), "G4XYZ");
    assert_eq!(c.name(), "John Doe");
    c.callsign_mut().push_str("/P");
    c.name_mut().push_str(" Jr");
    assert_eq!(c.callsign(), "G4XYZ/P");
    assert_eq!(c.name(), "John Doe Jr");
    let c = c.with_callsign("2E0AAA".to_string()).with_name("Ann".to_string());
    assert_eq!(c.callsign(), "2E0AAA");
    assert_eq!(c.name(), "Ann");
}

#[test]
fn callsign_clone_keeps_both_fields() {
    let c = party("M0ABC", "Jane Smith");
    let d = c.clone();
    assert_eq!(d.callsign(), "M0ABC");
    assert_eq!(d.name(), "Jane Smith");
}

#[test]
fn callsign_text_is_callsign_then_name() {
    assert_eq!(party("M0ABC", "Jane Smith").to_text(), "M0ABC Jane Smith");
    assert_eq!(Callsign::default().to_text(), " ");
}

#[test]
fn begins_with_compares_characters() {
    assert!(begins_with("M0ABC", "M0"));
    assert!(begins_with("M0ABC", ""));
    assert!(begins_with("M0ABC", "M0ABC"));
    assert!(!begins_with("M0ABC", "M0ABCD"));
    assert!(!begins_with("M0ABC", "m0"));
    assert!(!begins_with("", "M"));
    assert!(begins_with("\u{e9}t\u{e9}", "\u{e9}t"));
    assert!(!begins_with("\u{e9}t\u{e9}", "et"));
}

#[test]
fn suggestion_is_the_first_longer_match() {
    let known = vec![party("G4XYZ", "John"), party("M0ABC", "Jane"), party("M0ABD", "Jim")];
    let offered = suggestion(&known, &party("M0", ""), true).unwrap();
    assert_eq!(offered.callsign(), "M0ABC");
    assert_eq!(offered.name(), "Jane");
    let offered = suggestion(&known, &party("M0ABD", ""), true);
    assert!(offered.is_none());
    let offered = suggestion(&known, &party("M0AB", ""), true).unwrap();
    assert_eq!(offered.callsign(), "M0ABC");
}

#[test]
fn suggestion_skips_what_was_typed_in_full() {
    let known = vec![party("M0A", "Short"), party("M0ABC", "Jane")];
    let offered = suggestion(&known, &party("M0A", ""), true).unwrap();
    assert_eq!(offered.callsign(), "M0ABC");
}

#[test]
fn nothing_is_suggested_for_an_empty_or_idle_entry() {
    let known = vec![party("M0ABC", "Jane")];
    assert!(suggestion(&known, &party("", ""), true).is_none());
    assert!(suggestion(&known, &party("M0", ""), false).is_none());
    assert!(suggestion(&known, &party("G", ""), true).is_none());
    assert!(suggestion(&Vec::new(), &party("M0", ""), true).is_none());
}

#[test]
fn printer_ids_are_a_plain_pair() {
    let device = ESCPOSDevice(0x04b8, 0x0e15);
    assert_eq!(device.0, 0x04b8);
    assert_eq!(device.1, 0x0e15);
    assert!(device == ESCPOSDevice(0x04b8, 0x0e15));
    assert!(device != ESCPOSDevice(0x04b8, 0x0e16));
}

#[test]
fn currencies_are_their_iso_numbers() {
    assert_eq!(Currency::gbp().numeric(), 826);
    assert_eq!(Currency::from_numeric(978).numeric(), 978);
    assert_eq!(Currency::gbp(), Currency::from_numeric(826));
    assert_ne!(Currency::gbp(), Currency::from_numeric(978));
}

#[test]
fn the_clock_reads_a_recent_year() {
    let now = Timestamp::now();
    assert!(now.seconds > 1_600_000_000);
    assert!(now.nanos < 2_000_000_000);
    assert!(now.offset.abs() < 86_400);
}

#[test]
fn printer_ids_are_read_from_hexadecimal() {
    assert!(ESCPOSDevice::from_hex("04b8", "0e15") == Some(ESCPOSDevice(0x04b8, 0x0e15)));
    assert!(ESCPOSDevice::from_hex("04B8", "+E15") == Some(ESCPOSDevice(0x04b8, 0x0e15)));
    assert!(ESCPOSDevice::from_hex("", "0e15").is_none());
    assert!(ESCPOSDevice::from_hex("04b8", "").is_none());
    assert!(ESCPOSDevice::from_hex("04b8", "10000").is_none());
    assert!(ESCPOSDevice::from_hex("usb", "0e15").is_none());
}
