use bitchain::digest::{block_hash, to_hex_lower};
use bitchain::uri::{block_uri, file_uri, is_s3_uri};

#[test]
fn hash_of_abc_is_sha256() {
    assert_eq!(
        block_hash(b"abc"),
        "ba7816bf8f01cfea414140de5dae2223b00361a396177a9cb410ff61f20015ad"
    );
}

#[test]
fn hash_of_nothing_is_sha256_of_empty() {
    assert_eq!(
        block_hash(b""),
        "e3b0c44298fc1c149afbf4c8996fb92427ae41e4649b934ca495991b7852b855"
    );
}

#[test]
fn identical_content_identical_hash() {
    let a = vec![7u8; 1000];
    let b = vec![7u8; 1000];
    assert_eq!(block_hash(&a), block_hash(&b));
    assert_ne!(block_hash(&a), block_hash(&a[..999]));
    assert_eq!(block_hash(&a).len(), 64);
}

#[test]
fn hex_is_lower_case_two_digits_per_byte() {
    assert_eq!(to_hex_lower(&[10, 20, 30]), "0a141e");
    assert_eq!(to_hex_lower(&[0x00, 0xff, 0xab]), "00ffab");
    assert_eq!(to_hex_lower(&[]), "");
}

#[test]
fn block_uri_joins_base_path_and_hash() {
    assert_eq!(
        block_uri("s3://bucket/prefix//", "//dir/file.bin", "abc"),
        "s3://bucket/prefix/dir/file.bin/abc"
    );
    assert_eq!(
        block_uri("https://host", "f", "h"),
        "https://host/f/h"
    );
}

#[test]
fn bare_s3_base_loses_its_scheme() {
    let u = block_uri("s3://", "f", "h");
    assert_eq!(u, "s3:/f/h");
    assert!(!is_s3_uri(&u));
}

#[test]
fn s3_uris_are_recognised() {
    assert!(is_s3_uri("s3://b/k"));
    assert!(!is_s3_uri(" s3://b/k"));
    assert!(!is_s3_uri("S3://b/k"));
    assert!(!is_s3_uri("s3:/"));
}

#[test]
fn file_uri_prefixes_scheme() {
    assert_eq!(file_uri("/tmp/x.blocks/h.bin"), "file:///tmp/x.blocks/h.bin");
}
