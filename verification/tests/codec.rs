use pastebin::clock::Timestamp;
use pastebin::codec::{decode_item, encode_item};
use pastebin::id::RecordId;
use pastebin::model::{DataBaseItem, DataType};

fn small() -> DataBaseItem {
    DataBaseItem {
        destroy_time: None,
        custom_url: None,
        uuid: RecordId { bytes: [7; 16] },
        hash: String::from("h"),
        short: String::from("ab"),
        data: DataType::Binary(vec![9, 8]),
    }
}

fn small_bytes() -> Vec<u8> {
    let mut expected: Vec<u8> = vec![0, 0];
    expected.extend_from_slice(&[7; 16]);
    expected.extend_from_slice(&[1, 0, 0, 0, 0, 0, 0, 0, b'h']);
    expected.extend_from_slice(&[2, 0, 0, 0, 0, 0, 0, 0, b'a', b'b']);
    expected.extend_from_slice(&[2, 2, 0, 0, 0, 0, 0, 0, 0, 9, 8]);
    expected
}

#[test]
fn stored_form_of_a_small_record() {
    assert_eq!(encode_item(&small()), small_bytes());
}

#[test]
fn stored_form_with_time_and_alias() {
    let mut item = small();
    item.destroy_time = Some(Timestamp { secs: 1, nanos: 0x01020304 });
    item.custom_url = Some(String::from("x"));
    item.data = DataType::Text(String::from("t"));
    let mut expected: Vec<u8> = vec![1];
    // 1 + 2^63, little-endian
    expected.extend_from_slice(&[1, 0, 0, 0, 0, 0, 0, 0x80]);
    expected.extend_from_slice(&[4, 3, 2, 1]);
    expected.extend_from_slice(&[1, 1, 0, 0, 0, 0, 0, 0, 0, b'x']);
    expected.extend_from_slice(&[7; 16]);
    expected.extend_from_slice(&[1, 0, 0, 0, 0, 0, 0, 0, b'h']);
    expected.extend_from_slice(&[2, 0, 0, 0, 0, 0, 0, 0, b'a', b'b']);
    expected.extend_from_slice(&[0, 1, 0, 0, 0, 0, 0, 0, 0, b't']);
    assert_eq!(encode_item(&item), expected);
    assert_eq!(decode_item(&expected), Some(item));
}

#[test]
fn negative_seconds_are_stored_below_two_to_the_63() {
    let mut item = small();
    item.destroy_time = Some(Timestamp { secs: -1, nanos: 0 });
    let bytes = encode_item(&item);
    assert_eq!(&bytes[0..13], &[1, 0xff, 0xff, 0xff, 0xff, 0xff, 0xff, 0xff, 0x7f, 0, 0, 0, 0]);
    assert_eq!(decode_item(&bytes), Some(item));
}

#[test]
fn every_kind_of_record_reads_back() {
    let times = [
        None,
        Some(Timestamp { secs: 0, nanos: 0 }),
        Some(Timestamp { secs: i64::MIN, nanos: u32::MAX }),
        Some(Timestamp { secs: i64::MAX, nanos: 999_999_999 }),
        Some(Timestamp { secs: -1_600_000_000, nanos: 1 }),
    ];
    let aliases = [None, Some(String::new()), Some(String::from("my-alias \u{1f600}"))];
    let payloads = [
        DataType::Text(String::new()),
        DataType::Text(String::from("line one\nline two \u{e9}\n")),
        DataType::ShortLink(String::from("https://example.org/")),
        DataType::Binary(Vec::new()),
        DataType::Binary((0..=255u8).collect()),
    ];
    for time in times.iter() {
        for alias in aliases.iter() {
            for payload in payloads.iter() {
                let item = DataBaseItem {
                    destroy_time: *time,
                    custom_url: alias.clone(),
                    uuid: RecordId::generate(),
                    hash: String::from("0123abcd"),
                    short: String::from("3p0c"),
                    data: payload.clone(),
                };
                assert_eq!(decode_item(&encode_item(&item)), Some(item));
            }
        }
    }
}

#[test]
fn what_is_no_stored_form() {
    let good = small_bytes();
    assert_eq!(decode_item(&good), Some(small()));
    assert_eq!(decode_item(&[]), None);
    // every proper prefix is refused
    for n in 0..good.len() {
        assert_eq!(decode_item(&good[0..n]), None);
    }
    // a byte after the end
    let mut longer = good.clone();
    longer.push(0);
    assert_eq!(decode_item(&longer), None);
    // an unknown marker for the destroy time, the alias, the payload
    let mut bad = good.clone();
    bad[0] = 2;
    assert_eq!(decode_item(&bad), None);
    let mut bad = good.clone();
    bad[1] = 2;
    assert_eq!(decode_item(&bad), None);
    let mut bad = good.clone();
    bad[37] = 3;
    assert_eq!(decode_item(&bad), None);
    // a hash that is no UTF-8
    let mut bad = good.clone();
    bad[26] = 0xff;
    assert_eq!(decode_item(&bad), None);
    // a length that reaches beyond the end
    let mut bad = good.clone();
    bad[25] = 0x7f;
    assert_eq!(decode_item(&bad), None);
}

#[test]
fn a_text_payload_must_be_valid_text() {
    let mut bytes = small_bytes();
    // the same content marked as text: 9, 8 is valid UTF-8
    bytes[37] = 0;
    let mut expected = small();
    expected.data = DataType::Text(String::from("\u{9}\u{8}"));
    assert_eq!(decode_item(&bytes), Some(expected));
    let n = bytes.len();
    bytes[n - 1] = 0xff;
    assert_eq!(decode_item(&bytes), None);
    bytes[37] = 2;
    let mut expected = small();
    expected.data = DataType::Binary(vec![9, 0xff]);
    assert_eq!(decode_item(&bytes), Some(expected));
}
