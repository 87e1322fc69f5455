use dreamhost_ddns::record::{filter_remote_entry, IpValue, Record, RecordKind};

#[test]
fn new_derives_kind_from_address_family() {
    let r = Record::new(&IpValue::V4(1, 2, 3, 4));
    assert_eq!(r.kind, RecordKind::V4);
    assert_eq!(r.value, IpValue::V4(1, 2, 3, 4));
    assert!(r.svalue.is_empty());

    let r = Record::new(&IpValue::V6(0x2001, 0xdb8, 0, 0, 0, 0, 0, 1));
    assert_eq!(r.kind, RecordKind::V6);
    assert!(r.svalue.is_empty());
}

#[test]
fn wire_names_round_trip() {
    assert_eq!(RecordKind::V4.wire_name(), "A");
    assert_eq!(RecordKind::V6.wire_name(), "AAAA");
    assert_eq!(RecordKind::from_wire_name(&"A".to_string()), Some(RecordKind::V4));
    assert_eq!(RecordKind::from_wire_name(&"AAAA".to_string()), Some(RecordKind::V6));
    assert_eq!(RecordKind::from_wire_name(&"MX".to_string()), None);
    assert_eq!(RecordKind::from_wire_name(&"CNAME".to_string()), None);
    assert_eq!(RecordKind::from_wire_name(&"a".to_string()), None);
    assert_eq!(RecordKind::from_wire_name(&"".to_string()), None);
}

#[test]
fn matching_listing_entry_is_kept_with_its_handle() {
    let host = "home.example.net".to_string();
    let kept = filter_remote_entry(
        &host,
        &"home.example.net".to_string(),
        &"A".to_string(),
        Some(IpValue::V4(1, 2, 3, 4)),
        "1.2.3.4".to_string(),
    );
    let rec = kept.unwrap();
    assert_eq!(rec.kind, RecordKind::V4);
    assert_eq!(rec.value, IpValue::V4(1, 2, 3, 4));
    assert_eq!(rec.svalue, "1.2.3.4");
}

#[test]
fn entry_for_another_hostname_is_dropped() {
    let host = "home.example.net".to_string();
    let r = filter_remote_entry(
        &host,
        &"other.example.net".to_string(),
        &"A".to_string(),
        Some(IpValue::V4(1, 2, 3, 4)),
        "1.2.3.4".to_string(),
    );
    assert!(r.is_none());
}

#[test]
fn entry_of_unmanaged_type_is_dropped() {
    let host = "home.example.net".to_string();
    let r = filter_remote_entry(
        &host,
        &"home.example.net".to_string(),
        &"TXT".to_string(),
        Some(IpValue::V4(1, 2, 3, 4)),
        "1.2.3.4".to_string(),
    );
    assert!(r.is_none());
}

#[test]
fn entry_with_unparsable_value_is_dropped() {
    let host = "home.example.net".to_string();
    let r = filter_remote_entry(
        &host,
        &"home.example.net".to_string(),
        &"AAAA".to_string(),
        None,
        "not-an-address".to_string(),
    );
    assert!(r.is_none());
}

#[test]
fn kept_entry_derives_kind_from_the_address_family() {
    let host = "home.example.net".to_string();
    let rec = filter_remote_entry(
        &host,
        &"home.example.net".to_string(),
        &"AAAA".to_string(),
        Some(IpValue::V6(0, 0, 0, 0, 0, 0, 0, 1)),
        "::1".to_string(),
    )
    .unwrap();
    assert_eq!(rec.kind, RecordKind::V6);
    assert_eq!(rec.svalue, "::1");
}

#[test]
fn entry_whose_value_is_of_the_other_family_is_dropped() {
    // An A entry carrying an IPv6 value, or an AAAA entry carrying an
    // IPv4 value, is malformed: the kind must agree with the address
    // family, so such an entry is skipped rather than kept mismatched.
    let host = "home.example.net".to_string();
    let r = filter_remote_entry(
        &host,
        &"home.example.net".to_string(),
        &"A".to_string(),
        Some(IpValue::V6(0, 0, 0, 0, 0, 0, 0, 1)),
        "::1".to_string(),
    );
    assert!(r.is_none());
    let r = filter_remote_entry(
        &host,
        &"home.example.net".to_string(),
        &"AAAA".to_string(),
        Some(IpValue::V4(1, 2, 3, 4)),
        "1.2.3.4".to_string(),
    );
    assert!(r.is_none());
}

#[test]
fn from_remote_derives_kind_from_the_address_family() {
    let r = Record::from_remote(IpValue::V4(1, 2, 3, 4), "1.2.3.4".to_string());
    assert_eq!(r.kind, RecordKind::V4);
    assert_eq!(r.svalue, "1.2.3.4");
    let r = Record::from_remote(IpValue::V6(0, 0, 0, 0, 0, 0, 0, 1), "::1".to_string());
    assert_eq!(r.kind, RecordKind::V6);
}
