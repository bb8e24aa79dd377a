use pastebin::clock::Timestamp;
use pastebin::id::RecordId;

fn sample() -> RecordId {
    RecordId { bytes: [0, 1, 2, 3, 4, 5, 6, 7, 8, 9, 10, 11, 12, 13, 14, 255] }
}

#[test]
fn literal_is_hyphenated_lower_case_hex() {
    assert_eq!(sample().to_text(), "00010203-0405-0607-0809-0a0b0c0d0eff");
    assert_eq!(RecordId { bytes: [0xab; 16] }.to_text(), "abababab-abab-abab-abab-abababababab");
}

#[test]
fn literal_reads_back() {
    let id = sample();
    assert_eq!(RecordId::parse(&id.to_text()), Some(id));
    let fresh = RecordId::generate();
    assert_eq!(RecordId::parse(&fresh.to_text()), Some(fresh));
}

#[test]
fn other_spellings_of_a_literal() {
    let id = sample();
    assert_eq!(RecordId::parse("000102030405060708090a0b0c0d0eff"), Some(id));
    assert_eq!(RecordId::parse("00010203-0405-0607-0809-0A0B0C0D0EFF"), Some(id));
    assert_eq!(RecordId::parse("urn:uuid:00010203-0405-0607-0809-0a0b0c0d0eff"), Some(id));
}

#[test]
fn what_is_no_literal() {
    assert_eq!(RecordId::parse(""), None);
    assert_eq!(RecordId::parse("3p0c"), None);
    assert_eq!(RecordId::parse("00010203-0405-0607-0809-0a0b0c0d0ef"), None);
    assert_eq!(RecordId::parse("00010203-0405-0607-0809-0a0b0c0d0efg"), None);
    assert_eq!(RecordId::parse("0001020-30405-0607-0809-0a0b0c0d0eff"), None);
    assert_eq!(RecordId::parse("\u{e9}0010203-0405-0607-0809-0a0b0c0d0ef"), None);
}

#[test]
fn generated_identifiers_differ() {
    assert_ne!(RecordId::generate(), RecordId::generate());
}

#[test]
fn generated_identifiers_are_marked_as_random() {
    for _ in 0..64 {
        let id = RecordId::generate();
        assert_eq!(id.bytes[6] & 0xf0, 0x40);
        assert_eq!(id.bytes[8] & 0xc0, 0x80);
        let literal = id.to_text();
        assert_eq!(&literal[14..15], "4");
        assert!(["8", "9", "a", "b"].contains(&&literal[19..20]));
    }
}

#[test]
fn order_of_times() {
    let t = Timestamp { secs: 10, nanos: 5 };
    assert!(Timestamp { secs: 11, nanos: 0 }.later_than(t));
    assert!(Timestamp { secs: 10, nanos: 6 }.later_than(t));
    assert!(!t.later_than(t));
    assert!(!Timestamp { secs: 10, nanos: 4 }.later_than(t));
    assert!(!Timestamp { secs: 9, nanos: 999_999_999 }.later_than(t));
    assert!(t.later_than(Timestamp { secs: -1, nanos: 0 }));
}

#[test]
fn seconds_added_to_a_time() {
    let t = Timestamp { secs: 100, nanos: 7 };
    assert_eq!(t.plus_seconds(60), Some(Timestamp { secs: 160, nanos: 7 }));
    assert_eq!(t.plus_seconds(-101), Some(Timestamp { secs: -1, nanos: 7 }));
    assert_eq!(t.plus_seconds(i64::MAX), None);
    assert_eq!(Timestamp { secs: -2, nanos: 0 }.plus_seconds(i64::MIN), None);
    assert_eq!(
        Timestamp { secs: 0, nanos: 0 }.plus_seconds(i64::MAX),
        Some(Timestamp { secs: i64::MAX, nanos: 0 })
    );
}
