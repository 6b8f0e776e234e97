use signing_gateway::encoding::pem_base64;
use signing_gateway::http::handlers::{decode_payload, pick_readable};
use signing_gateway::string_map::StringMap;
use signing_gateway::text::{decimal_text, join5, same, starts_with, strip_prefix, trim_end, utf8_text};

#[test]
fn hex_is_tried_first() {
    assert_eq!(decode_payload("00ff10"), Ok(vec![0x00, 0xff, 0x10]));
    assert_eq!(decode_payload("ABcd"), Ok(vec![0xab, 0xcd]));
    assert_eq!(decode_payload(""), Ok(vec![]));
}

#[test]
fn hex_is_read_in_either_case() {
    let bytes: Vec<u8> = (0..=255).collect();
    let lower: String = bytes.iter().map(|b| format!("{:02x}", b)).collect();
    let mixed: String = bytes.iter().map(|b| format!("{:X}{:x}", b / 16, b % 16)).collect();
    assert_eq!(decode_payload(&lower), Ok(bytes.clone()));
    assert_eq!(decode_payload(&lower.to_uppercase()), Ok(bytes.clone()));
    assert_eq!(decode_payload(&mixed), Ok(bytes));
}

#[test]
fn base64_is_tried_next() {
    assert_eq!(decode_payload("aGVsbG8="), Ok(b"hello".to_vec()));
    assert_eq!(decode_payload("+/+/"), Ok(vec![0xfb, 0xff, 0xbf]));
}

#[test]
fn base64url_comes_last() {
    assert_eq!(decode_payload("-_-_"), Ok(vec![0xfb, 0xff, 0xbf]));
    assert_eq!(decode_payload("aGVsbG8"), Ok(b"hello".to_vec()));
    // Both forms read this one alike.
    assert_eq!(decode_payload("aGVsbG8h"), Ok(b"hello!".to_vec()));
}

#[test]
fn first_reading_counts() {
    assert_eq!(pick_readable(Ok(vec![1]), Ok(vec![2])), Ok(vec![1]));
    assert_eq!(pick_readable(Err("a".to_string()), Ok(vec![2])), Ok(vec![2]));
    assert_eq!(pick_readable(Err("a".to_string()), Err("b".to_string())), Err("b".to_string()));
}

#[test]
fn odd_hex_is_no_hex() {
    assert_eq!(decode_payload("abc"), Ok(vec![0x69, 0xb7]));
}

#[test]
fn unreadable_payload_is_told_by_base64url() {
    let fault = decode_payload("!!").unwrap_err();
    assert_eq!(fault, "Invalid symbol 33, offset 0.");
}

#[test]
fn base64_that_could_be_hex_is_read_as_hex() {
    assert_eq!(decode_payload("abcd"), Ok(vec![0xab, 0xcd]));
}

#[test]
fn pem_boundaries_and_line_ends_are_left_out() {
    assert_eq!(pem_base64("-----BEGIN X-----\nAAAA\nBBBB\n-----END X-----\n"), "AAAABBBB");
    assert_eq!(pem_base64("-----BEGIN X-----\r\nAAAA\r\nBBBB\r\n-----END X-----"), "AAAABBBB");
    assert_eq!(pem_base64("AAAA"), "AAAA");
    assert_eq!(pem_base64("AAAA\r"), "AAAA\r");
    assert_eq!(pem_base64("----AAAA\n\n\nB"), "----AAAAB");
    assert_eq!(pem_base64(""), "");
}

#[test]
fn texts_are_cut_and_joined() {
    assert!(same("äb", "äb"));
    assert!(!same("äb", "ab"));
    assert!(starts_with("Bearer x", "Bearer "));
    assert_eq!(strip_prefix("Bearer tök", "Bearer "), Some("tök"));
    assert_eq!(strip_prefix("bearer x", "Bearer "), None);
    assert_eq!(trim_end("/keys//", '/'), "/keys");
    assert_eq!(trim_end("///", '/'), "");
    assert_eq!(join5("a", "b", "c", "d", "e"), "abcde");
    assert_eq!(decimal_text(0), "0");
    assert_eq!(decimal_text(18446744073709551615), "18446744073709551615");
}

#[test]
fn only_utf8_is_text() {
    assert_eq!(utf8_text("straße".as_bytes()), Ok("straße"));
    assert!(utf8_text(&[0xff, 0xfe]).is_err());
}

#[test]
fn string_map_replaces_in_place() {
    let mut map: StringMap<u64> = StringMap::new();
    map.insert("a".to_string(), 1);
    map.insert("b".to_string(), 2);
    map.insert("a".to_string(), 3);
    assert_eq!(map.len(), 2);
    assert_eq!(map.get("a"), Some(&3));
    assert_eq!(map.get("b"), Some(&2));
    assert_eq!(map.get("c"), None);
    assert_eq!(map.value_at(0), &3);
    let copy = map.clone();
    assert_eq!(copy.get("a"), Some(&3));
}
