use pastebin::address::{content_hash, short_code, short_code_of_text, SHORT_CODE_LEN};
use pastebin::base32::encode;

#[test]
fn radix32_of_small_numbers() {
    assert_eq!(encode(&[]), "0");
    assert_eq!(encode(&[0]), "0");
    assert_eq!(encode(&[9]), "9");
    assert_eq!(encode(&[10]), "a");
    assert_eq!(encode(&[31]), "v");
    assert_eq!(encode(&[32]), "10");
    assert_eq!(encode(&[255]), "7v");
}

#[test]
fn radix32_of_a_digest() {
    let digest = blake3::hash(b"hello");
    assert_eq!(
        encode(digest.as_bytes()),
        "3p0ct565h88t638ldqeo7s6sk5j9e6ubhch8hf950k6mcuhd3va"
    );
}

#[test]
fn radix32_reads_bytes_least_significant_first() {
    // 0x0100 = 256 = 8 * 32
    assert_eq!(encode(&[0, 1]), "80");
    // 0x0001 = 1
    assert_eq!(encode(&[1, 0]), "1");
    // 2^15 = 32^3 is the smallest number with four digits
    assert_eq!(encode(&[0, 128]), "1000");
    assert_eq!(encode(&[255, 127]), "vvv");
}

#[test]
fn content_hash_is_the_blake3_digest_in_hex() {
    assert_eq!(
        content_hash(b""),
        "af1349b9f5f9a1a6a0404dea36dcc9499bcb25c9adc112b7cc9a93cae41f3262"
    );
    assert_eq!(
        content_hash(b"hello"),
        "ea8f163db38682925e4491c5e58d4bb3506ef8c14eb78a86e908c5624a67200f"
    );
    assert_eq!(content_hash(b"hello"), blake3::hash(b"hello").to_hex().as_str());
}

#[test]
fn content_hash_has_64_lower_case_hex_digits() {
    let hash = content_hash(b"some payload");
    assert_eq!(hash.len(), 64);
    assert!(hash.chars().all(|c| c.is_ascii_digit() || ('a'..='f').contains(&c)));
}

#[test]
fn short_code_is_a_prefix_of_the_radix32_digest() {
    let digest = blake3::hash(b"hello");
    let full = encode(digest.as_bytes());
    let code = short_code(b"hello").unwrap();
    assert_eq!(code.len(), SHORT_CODE_LEN);
    assert_eq!(code, &full[0..4]);
    assert_eq!(code, "3p0c");
    assert_eq!(short_code(b"").unwrap(), "ohi3");
}

#[test]
fn address_is_reproducible_from_the_bytes() {
    assert_eq!(content_hash(b"abc"), content_hash(b"abc"));
    assert_eq!(short_code(b"abc"), short_code(b"abc"));
    assert_ne!(content_hash(b"abc"), content_hash(b"abd"));
}

#[test]
fn short_code_of_a_text() {
    assert_eq!(short_code_of_text("3p0ct565"), Some(String::from("3p0c")));
    assert_eq!(short_code_of_text("1000"), Some(String::from("1000")));
    assert_eq!(short_code_of_text("vvv"), None);
    assert_eq!(short_code_of_text("0"), None);
    assert_eq!(short_code_of_text(""), None);
    // characters count, not bytes
    assert_eq!(short_code_of_text("\u{e9}\u{e9}\u{e9}"), None);
    assert_eq!(
        short_code_of_text("\u{e9}\u{e9}\u{e9}\u{e9}\u{e9}"),
        Some(String::from("\u{e9}\u{e9}\u{e9}\u{e9}"))
    );
}

#[test]
fn short_code_is_made_of_radix32_digits() {
    for payload in [&b"a"[..], &b"b"[..], &b"hello"[..], &[0xff, 0x00][..], &[][..]] {
        let code = short_code(payload).unwrap();
        assert_eq!(code.chars().count(), 4);
        assert!(code.chars().all(|c| c.is_ascii_digit() || ('a'..='v').contains(&c)));
    }
}
