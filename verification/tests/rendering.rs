#[test]
fn ascii_dump_substitution() {
    let s = dissect::bytes_to_ascii(&[0x41, 0x00, 0x7F, 0x20, 0x7E, 0x1F]);
    assert_eq!(s, "A.. ~.");
}

#[test]
fn ascii_dump_empty() {
    assert_eq!(dissect::bytes_to_ascii(&[]), "");
}

#[test]
fn parse_usize_accepts_plus_and_digits() {
    assert_eq!(dissect::text::parse_usize("42"), Some(42));
    assert_eq!(dissect::text::parse_usize("+42"), Some(42));
    assert_eq!(dissect::text::parse_usize("0"), Some(0));
}

#[test]
fn parse_usize_rejects_bad_input() {
    assert_eq!(dissect::text::parse_usize(""), None);
    assert_eq!(dissect::text::parse_usize("+"), None);
    assert_eq!(dissect::text::parse_usize("1x"), None);
    assert_eq!(dissect::text::parse_usize("-1"), None);
    assert_eq!(dissect::text::parse_usize(" 7"), None);
    assert_eq!(dissect::text::parse_usize("99999999999999999999999999"), None);
}

#[test]
fn field_map_replaces_on_same_name() {
    let mut m = dissect::FieldMap::new();
    m.set("k", dissect::FieldValue::UInt(1));
    m.set("k", dissect::FieldValue::UInt(2));
    match m.get("k") {
        Some(dissect::FieldValue::UInt(n)) => assert_eq!(*n, 2),
        _ => panic!("missing"),
    }
    assert!(m.get("absent").is_none());
}

#[test]
fn field_map_entries_in_insertion_order() {
    let mut m = dissect::FieldMap::new();
    m.set("a", dissect::FieldValue::UInt(1));
    m.set("b", dissect::FieldValue::Bool(true));
    let entries = m.entries();
    assert_eq!(entries.len(), 2);
    assert_eq!(entries[0].0, "a");
    assert_eq!(entries[1].0, "b");
}
