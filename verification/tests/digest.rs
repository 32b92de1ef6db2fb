use flac2alac::digest::{verify_bitperfect, PcmDigest, DIGEST_LEN, PCM_CHUNK_SIZE};
use flac2alac::error::TaskError;

fn hex(bytes: &[u8]) -> String {
    let mut out = String::new();
    for b in bytes {
        out.push_str(&format!("{:02x}", b));
    }
    out
}

fn digest_of(chunks: &[&[u8]]) -> Vec<u8> {
    let mut d = PcmDigest::new();
    for c in chunks {
        assert!(d.update(c));
    }
    d.finish(true).unwrap()
}

#[test]
fn digest_of_nothing_is_the_sha256_of_the_empty_stream() {
    let d = PcmDigest::new();
    assert_eq!(d.len(), 0);
    let out = d.finish(true).unwrap();
    assert_eq!(out.len(), DIGEST_LEN);
    assert_eq!(hex(&out), "e3b0c44298fc1c149afbf4c8996fb92427ae41e4649b934ca495991b7852b855");
}

#[test]
fn digest_of_abc_is_the_known_sha256() {
    let out = digest_of(&[b"abc"]);
    assert_eq!(hex(&out), "ba7816bf8f01cfea414140de5dae2223b00361a396177a9cb410ff61f20015ad");
}

#[test]
fn digest_does_not_depend_on_how_the_stream_is_cut() {
    let whole = digest_of(&[b"hello world"]);
    let cut = digest_of(&[b"hel", b"", b"lo wor", b"ld"]);
    assert_eq!(whole, cut);
    assert_eq!(hex(&whole), "b94d27b9934d3e08a52e52d7da7dabfac484efe37a5380ee9088f7ace2efcde9");
}

#[test]
fn digest_counts_the_bytes_it_took_in() {
    let mut d = PcmDigest::new();
    assert!(d.update(&[0u8; 10]));
    assert!(d.update(&[1u8; 5]));
    assert_eq!(d.len(), 15);
}

#[test]
fn digest_of_a_stream_longer_than_one_buffer() {
    let data: Vec<u8> = (0..(PCM_CHUNK_SIZE * 2 + 17)).map(|i| (i % 251) as u8).collect();
    let mut d = PcmDigest::new();
    for piece in data.chunks(PCM_CHUNK_SIZE) {
        assert!(d.update(piece));
    }
    assert_eq!(d.len(), data.len() as u64);
    let by_pieces = d.finish(true).unwrap();
    assert_eq!(by_pieces, digest_of(&[&data]));
}

#[test]
fn failed_decode_gives_no_digest() {
    let mut d = PcmDigest::new();
    assert!(d.update(b"partial output"));
    assert_eq!(d.finish(false), Err(TaskError::DecodeFailure));
}

#[test]
fn equal_streams_verify_and_altered_ones_do_not() {
    let source = digest_of(&[b"\x01\x00\x00\x00\x02\x00\x00\x00"]);
    let same = digest_of(&[b"\x01\x00\x00\x00", b"\x02\x00\x00\x00"]);
    let altered = digest_of(&[b"\x01\x00\x00\x00\x03\x00\x00\x00"]);
    let truncated = digest_of(&[b"\x01\x00\x00\x00"]);
    assert!(verify_bitperfect(&source, &same));
    assert!(!verify_bitperfect(&source, &altered));
    assert!(!verify_bitperfect(&source, &truncated));
}

#[test]
fn verify_bitperfect_compares_every_byte_and_the_length() {
    assert!(verify_bitperfect(&[], &[]));
    assert!(verify_bitperfect(&[1, 2, 3], &[1, 2, 3]));
    assert!(!verify_bitperfect(&[1, 2, 3], &[1, 2, 4]));
    assert!(!verify_bitperfect(&[9, 2, 3], &[1, 2, 3]));
    assert!(!verify_bitperfect(&[1, 2, 3], &[1, 2]));
    assert!(!verify_bitperfect(&[1, 2], &[1, 2, 3]));
}
