use parity_scale_codec::Encode;

use vaultvisor::error::Error;
use vaultvisor::release::ClientRelease;
use vaultvisor::scale::{
    decode_client_release, decode_compact_u32, encode_client_release, encode_compact_u32,
    read_chain_storage,
};

#[test]
fn decode_matches_reference_codec() {
    let tuple = ("http://fake/vault-1.0".to_string(), [7u8; 32]);
    let bytes = tuple.encode();
    let rel = decode_client_release(&bytes).unwrap();
    assert_eq!(rel.uri, b"http://fake/vault-1.0".to_vec());
    assert_eq!(rel.code_hash, vec![7u8; 32]);
    // The encoder writes exactly the reference bytes back.
    assert_eq!(encode_client_release(&rel), bytes);
}

#[test]
fn release_encoding_round_trips() {
    let rel = ClientRelease {
        uri: b"http://fake/vault-1.0".to_vec(),
        code_hash: vec![9u8; 32],
    };
    let enc = encode_client_release(&rel);
    let dec = decode_client_release(&enc).unwrap();
    assert_eq!(dec, rel);
}

#[test]
fn two_byte_length_matches_reference_codec() {
    let long: String = "x".repeat(100);
    let tuple = (long.clone(), [0u8; 32]);
    let bytes = tuple.encode();
    assert_eq!(bytes[0] % 4, 1);
    let rel = ClientRelease {
        uri: long.as_bytes().to_vec(),
        code_hash: vec![0u8; 32],
    };
    assert_eq!(encode_client_release(&rel), bytes);
    assert_eq!(decode_client_release(&bytes).unwrap(), rel);
}

#[test]
fn compact_forms_match_reference_codec() {
    for n in [0u32, 1, 63, 64, 16383, 16384, 0x3FFF_FFFF, 0x4000_0000, u32::MAX] {
        let reference = parity_scale_codec::Compact(n).encode();
        let ours = encode_compact_u32(n);
        assert_eq!(ours, reference);
        let (back, used) = decode_compact_u32(&ours).unwrap();
        assert_eq!(back, n);
        assert_eq!(used, ours.len());
    }
}

#[test]
fn corrupted_chain_bytes_give_decode_error() {
    // A width-beyond-32-bit prefix is refused outright.
    let r = read_chain_storage(Some(vec![0xFFu8, 0x00]));
    assert_eq!(r, Err(Error::DecodeError));
    // A record cut short is refused.
    let r = read_chain_storage(Some(vec![8u8, b'a', b'b']));
    assert_eq!(r, Err(Error::DecodeError));
}

#[test]
fn invalid_utf8_uri_is_decode_error() {
    // Length 2, then a malformed UTF-8 pair, then a full hash.
    let mut frame = vec![8u8, 0xC3, 0x28];
    frame.extend(vec![0u8; 32]);
    assert_eq!(decode_client_release(&frame), Err(Error::DecodeError));
}

#[test]
fn non_canonical_length_is_decode_error() {
    // The value 1 in the two-byte form: the reference codec refuses it.
    let mut frame = vec![5u8, 0u8];
    frame.extend(vec![0u8; 40]);
    assert_eq!(decode_client_release(&frame), Err(Error::DecodeError));
}

#[test]
fn missing_chain_value_reads_as_none() {
    assert_eq!(read_chain_storage(None), Ok(None));
}

#[test]
fn chain_bytes_read_as_release() {
    let tuple = ("http://fake/vault-2.0".to_string(), [3u8; 32]);
    let r = read_chain_storage(Some(tuple.encode())).unwrap().unwrap();
    assert_eq!(r.uri, b"http://fake/vault-2.0".to_vec());
    assert_eq!(r.code_hash, vec![3u8; 32]);
}

#[test]
fn trailing_bytes_are_ignored() {
    let tuple = ("http://fake/vault-1.0".to_string(), [1u8; 32]);
    let mut bytes = tuple.encode();
    bytes.extend(vec![0xAAu8; 5]);
    let rel = decode_client_release(&bytes).unwrap();
    assert_eq!(rel.uri, b"http://fake/vault-1.0".to_vec());
}
