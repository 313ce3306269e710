//! Round-trip and malformed-input behavior of the persisted index codec.

use docdex::codec::deserialize;
use docdex::codec::serialize;
use docdex::error::DocError;

fn strings(items: &[&str]) -> Vec<String> {
    items.iter().map(|s| s.to_string()).collect()
}

#[test]
fn round_trip_simple_pair() {
    let paths = strings(&["run", "Config"]);
    let texts = strings(&["fn run()", "struct Config"]);
    let bytes = serialize(&paths, &texts);
    let (p2, t2) = deserialize(&bytes).unwrap();
    assert_eq!(p2, paths);
    assert_eq!(t2, texts);
}

#[test]
fn round_trip_empty_pair() {
    let paths: Vec<String> = Vec::new();
    let texts: Vec<String> = Vec::new();
    let bytes = serialize(&paths, &texts);
    assert_eq!(bytes.len(), 16);
    let (p2, t2) = deserialize(&bytes).unwrap();
    assert!(p2.is_empty());
    assert!(t2.is_empty());
}

#[test]
fn round_trip_empty_strings() {
    let paths = strings(&["", "a", ""]);
    let texts = strings(&["", "", "x"]);
    let bytes = serialize(&paths, &texts);
    let (p2, t2) = deserialize(&bytes).unwrap();
    assert_eq!(p2, paths);
    assert_eq!(t2, texts);
}

#[test]
fn round_trip_multibyte_text() {
    let paths = strings(&["p\u{e4}th::n\u{2026}me"]);
    let texts = strings(&["docs \u{1f980} with emoji and \u{2026} ellipsis"]);
    let bytes = serialize(&paths, &texts);
    let (p2, t2) = deserialize(&bytes).unwrap();
    assert_eq!(p2, paths);
    assert_eq!(t2, texts);
}

#[test]
fn round_trip_unequal_lengths() {
    let paths = strings(&["only"]);
    let texts: Vec<String> = Vec::new();
    let bytes = serialize(&paths, &texts);
    let (p2, t2) = deserialize(&bytes).unwrap();
    assert_eq!(p2, paths);
    assert_eq!(t2, texts);
}

#[test]
fn serialized_layout_is_length_prefixed() {
    let paths = strings(&["ab"]);
    let texts = strings(&["c"]);
    let bytes = serialize(&paths, &texts);
    let mut expected: Vec<u8> = Vec::new();
    expected.extend_from_slice(&1u64.to_le_bytes());
    expected.extend_from_slice(&2u64.to_le_bytes());
    expected.extend_from_slice(b"ab");
    expected.extend_from_slice(&1u64.to_le_bytes());
    expected.extend_from_slice(&1u64.to_le_bytes());
    expected.extend_from_slice(b"c");
    assert_eq!(bytes, expected);
}

#[test]
fn deserialize_rejects_truncated_input() {
    let paths = strings(&["run"]);
    let texts = strings(&["fn run()"]);
    let mut bytes = serialize(&paths, &texts);
    bytes.pop();
    assert_eq!(deserialize(&bytes), Err(DocError::MalformedIndex));
}

#[test]
fn deserialize_rejects_trailing_garbage() {
    let paths = strings(&["run"]);
    let texts = strings(&["fn run()"]);
    let mut bytes = serialize(&paths, &texts);
    bytes.push(0);
    assert_eq!(deserialize(&bytes), Err(DocError::MalformedIndex));
}

#[test]
fn deserialize_rejects_short_input() {
    let bytes = vec![1, 2, 3];
    assert_eq!(deserialize(&bytes), Err(DocError::MalformedIndex));
}

#[test]
fn deserialize_rejects_invalid_utf8() {
    let mut bytes: Vec<u8> = Vec::new();
    bytes.extend_from_slice(&1u64.to_le_bytes());
    bytes.extend_from_slice(&2u64.to_le_bytes());
    bytes.extend_from_slice(&[0xff, 0xfe]);
    bytes.extend_from_slice(&0u64.to_le_bytes());
    assert_eq!(deserialize(&bytes), Err(DocError::MalformedIndex));
}

#[test]
fn deserialize_rejects_overlong_count() {
    let mut bytes: Vec<u8> = Vec::new();
    bytes.extend_from_slice(&5u64.to_le_bytes());
    assert_eq!(deserialize(&bytes), Err(DocError::MalformedIndex));
}
