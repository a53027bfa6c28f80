use ubi_backend::codec::{decode_latest, decode_version_list, encode_latest, encode_version_list};
use ubi_backend::strutil::{contains_str, starts_with_str};

fn strings(v: &[&str]) -> Vec<String> {
    v.iter().map(|s| s.to_string()).collect()
}

#[test]
fn version_list_round_trip() {
    let tags = strings(&["v1.0.0", "v1.1.0", "2024-01-01"]);
    let bytes = encode_version_list(&tags);
    assert_eq!(decode_version_list(&bytes), Some(tags));
}

#[test]
fn empty_version_list_round_trip() {
    let tags: Vec<String> = Vec::new();
    let bytes = encode_version_list(&tags);
    assert_eq!(decode_version_list(&bytes), Some(tags));
}

#[test]
fn non_ascii_tags_round_trip() {
    let tags = strings(&["ver\u{00e4}ffentlichung", "\u{4e00}.\u{4e8c}.\u{4e09}"]);
    let bytes = encode_version_list(&tags);
    assert_eq!(decode_version_list(&bytes), Some(tags));
}

#[test]
fn latest_round_trip() {
    let bytes = encode_latest(&Some("v1.1.0".to_string()));
    assert_eq!(decode_latest(&bytes), Some(Some("v1.1.0".to_string())));
    let bytes = encode_latest(&None);
    assert_eq!(decode_latest(&bytes), Some(None));
}

#[test]
fn corrupt_bytes_do_not_decode() {
    assert_eq!(decode_version_list(b"definitely not deflate"), None);
    assert_eq!(decode_latest(b""), None);
}

#[test]
fn flipped_byte_does_not_decode_as_the_original() {
    let tags = strings(&["v1.0.0"]);
    let mut bytes = encode_version_list(&tags);
    let mid = bytes.len() / 2;
    bytes[mid] ^= 0xFF;
    assert_ne!(decode_version_list(&bytes), Some(tags));
}

#[test]
fn list_and_latest_files_are_distinguished() {
    let list_bytes = encode_version_list(&strings(&["v1.0.0"]));
    assert_eq!(decode_latest(&list_bytes), None);
    let latest_bytes = encode_latest(&Some("v1.0.0".to_string()));
    assert_eq!(decode_version_list(&latest_bytes), None);
}

#[test]
fn prefix_check() {
    assert!(starts_with_str("https://example.com", "https://"));
    assert!(!starts_with_str("ht", "http"));
    assert!(starts_with_str("anything", ""));
    assert!(!starts_with_str("owner/repo", "http"));
}

#[test]
fn substring_check() {
    assert!(contains_str("v1.0.0", "1.0"));
    assert!(contains_str("v1.0.0", ""));
    assert!(!contains_str("v2.0.0", "1.0"));
    assert!(contains_str("v1.20", "1.2"));
}
