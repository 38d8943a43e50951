use sha2::Digest;
use nwt_auth::{from_hex, sha256_digest, sha256_string};

#[test]
fn from_hex_decodes_mixed_case_pairs() {
    let mut target = [0u8; 4];
    assert_eq!(from_hex("0aFf10", &mut target), Ok(3));
    assert_eq!(target, [0x0a, 0xff, 0x10, 0x00]);
}

#[test]
fn from_hex_empty_text_writes_nothing() {
    let mut target = [7u8; 2];
    assert_eq!(from_hex("", &mut target), Ok(0));
    assert_eq!(target, [7, 7]);
}

#[test]
fn from_hex_rejects_odd_length_without_writing() {
    let mut target = [9u8; 4];
    assert_eq!(from_hex("abc", &mut target), Err(()));
    assert_eq!(target, [9, 9, 9, 9]);
}

#[test]
fn from_hex_rejects_text_longer_than_target() {
    let mut target = [9u8; 2];
    assert_eq!(from_hex("aabbcc", &mut target), Err(()));
    assert_eq!(target, [9, 9]);
}

#[test]
fn from_hex_keeps_pairs_before_a_bad_digit() {
    let mut target = [1u8; 4];
    assert_eq!(from_hex("12345g78", &mut target), Err(()));
    assert_eq!(target, [0x12, 0x34, 1, 1]);
}

#[test]
fn from_hex_rejects_non_ascii() {
    let mut target = [0u8; 4];
    assert_eq!(from_hex("é1", &mut target), Err(()));
}

#[test]
fn from_hex_reads_back_hex_lower_encode() {
    let data = [0u8, 1, 0x7f, 0x80, 0xfe, 0xff];
    let text = data_encoding::HEXLOWER.encode(&data);
    let mut target = [0u8; 6];
    assert_eq!(from_hex(&text, &mut target), Ok(6));
    assert_eq!(target, data);
}

#[test]
fn sha256_digest_known_values() {
    assert_eq!(
        sha256_digest(b"abc"),
        "ba7816bf8f01cfea414140de5dae2223b00361a396177a9cb410ff61f20015ad"
    );
    assert_eq!(
        sha256_digest(b""),
        "e3b0c44298fc1c149afbf4c8996fb92427ae41e4649b934ca495991b7852b855"
    );
}

#[test]
fn sha256_digest_over_many_blocks_matches_one_shot() {
    let data: Vec<u8> = (0..5000u32).map(|i| (i % 251) as u8).collect();
    let expected = data_encoding::HEXLOWER.encode(&sha2::Sha256::digest(&data));
    assert_eq!(sha256_digest(&data), expected);
    assert_eq!(sha256_digest(&data[..1024]), data_encoding::HEXLOWER.encode(&sha2::Sha256::digest(&data[..1024])));
}

#[test]
fn sha256_string_hashes_utf8_bytes() {
    assert_eq!(
        sha256_string("abc").unwrap(),
        "ba7816bf8f01cfea414140de5dae2223b00361a396177a9cb410ff61f20015ad"
    );
    let s = "héllo";
    assert_eq!(
        sha256_string(s).unwrap(),
        data_encoding::HEXLOWER.encode(&sha2::Sha256::digest(s.as_bytes()))
    );
}
