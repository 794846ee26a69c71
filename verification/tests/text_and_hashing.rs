use mac2win::hashing::{hash_bytes, hash_str, hash_str_pair, hash_strs};
use mac2win::text::{format_resolution, join_lines, parse_resolution, parse_u32, push_decimal};
use std::collections::hash_map::DefaultHasher;
use std::hash::{Hash, Hasher};

#[test]
fn decimal_text() {
    let mut s = String::from("n=");
    push_decimal(&mut s, 0);
    assert_eq!(s, "n=0");
    let mut s = String::new();
    push_decimal(&mut s, 1920);
    assert_eq!(s, "1920");
    let mut s = String::new();
    push_decimal(&mut s, u64::MAX);
    assert_eq!(s, u64::MAX.to_string());
}

#[test]
fn u32_parsing_matches_std() {
    for text in ["0", "42", "+7", "+", "", "-1", "4294967295", "4294967296", "12a", "007", " 1", "99999999999999999999"] {
        assert_eq!(parse_u32(text.as_bytes()), text.parse::<u32>().ok(), "{:?}", text);
    }
}

#[test]
fn resolution_values() {
    assert_eq!(parse_resolution("2560x1440"), (2560, 1440));
    assert_eq!(parse_resolution(""), (1920, 1080));
    assert_eq!(parse_resolution("800"), (800, 1080));
    assert_eq!(parse_resolution("axb"), (1920, 1080));
    assert_eq!(parse_resolution("1x2x3"), (1, 2));
    assert_eq!(parse_resolution("x768"), (1920, 768));
    assert_eq!(parse_resolution("resolution=2560x1440"), (1920, 1440));
}

#[test]
fn resolution_round_trip() {
    let text = format_resolution(3840, 2160);
    assert_eq!(text, "3840x2160");
    assert_eq!(parse_resolution(&text), (3840, 2160));
    assert_eq!(parse_resolution(&format_resolution(0, u32::MAX)), (0, u32::MAX));
}

#[test]
fn lines_joined() {
    assert_eq!(join_lines(&vec![]), "");
    assert_eq!(join_lines(&vec!["/a".to_string()]), "/a");
    let paths = vec!["/a".to_string(), "/b c".to_string(), "".to_string()];
    assert_eq!(join_lines(&paths), paths.join("\n"));
}

#[test]
fn text_fingerprint_is_std_hash_of_str() {
    for text in ["", "hello", "héllo wörld"] {
        let mut h = DefaultHasher::new();
        text.hash(&mut h);
        assert_eq!(hash_str(text), h.finish());
    }
    assert_ne!(hash_str("a"), hash_str("b"));
}

#[test]
fn bytes_fingerprint_is_std_hash_of_slice() {
    for data in [&b""[..], &b"\x89PNG"[..], &[0u8; 100][..]] {
        let mut h = DefaultHasher::new();
        data.hash(&mut h);
        assert_eq!(hash_bytes(data), h.finish());
    }
    assert_ne!(hash_bytes(&[1]), hash_bytes(&[1, 1]));
}

#[test]
fn pair_and_list_fingerprints_are_std_hashes() {
    let pair = ("<b>x</b>".to_string(), "x".to_string());
    let mut h = DefaultHasher::new();
    pair.hash(&mut h);
    assert_eq!(hash_str_pair(&pair.0, &pair.1), h.finish());
    for list in [vec![], vec!["/a".to_string()], vec!["/a".to_string(), "é".to_string()]] {
        let mut h = DefaultHasher::new();
        list.hash(&mut h);
        assert_eq!(hash_strs(&list), h.finish());
    }
}
