use jbundle::hash::{checksum_matches, content_hash, digest_prefix_hex, hex_lower, sha256_hex};

#[test]
fn hash_file_is_deterministic() {
    let h1 = content_hash(b"hello world");
    let h2 = content_hash(b"hello world");
    assert_eq!(h1, h2);
}

#[test]
fn hash_file_is_16_chars() {
    let hash = content_hash(b"content");
    assert_eq!(hash.len(), 16);
    assert!(hash.chars().all(|c| c.is_ascii_hexdigit() && !c.is_ascii_uppercase()));
}

#[test]
fn hash_file_different_content_different_hash() {
    let h1 = content_hash(b"content A");
    let h2 = content_hash(b"content B");
    assert_ne!(h1, h2);
}

#[test]
fn content_hash_known_value() {
    assert_eq!(content_hash(b"hello world"), "b94d27b9934d3e08");
    assert_eq!(sha256_hex(b"hello world"), "b94d27b9934d3e08a52e52d7da7dabfac484efe37a5380ee9088f7ace2efcde9");
    assert_eq!(sha256_hex(b""), "e3b0c44298fc1c149afbf4c8996fb92427ae41e4649b934ca495991b7852b855");
}

#[test]
fn hex_of_bytes() {
    assert_eq!(hex_lower(&[0x00, 0x0f, 0xa0, 0xff]), "000fa0ff");
    assert_eq!(digest_prefix_hex(&[1, 2, 3, 4, 5, 6, 7, 8, 9]), "0102030405060708");
}

#[test]
fn checksum_comparison() {
    assert!(checksum_matches("abc", "abc"));
    assert!(!checksum_matches("abc", "abd"));
}
