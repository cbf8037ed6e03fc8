use vaultvisor::bin_name::{derive_bin_name, join_path_bytes};
use vaultvisor::error::Error;
use vaultvisor::storage_key::{compute_storage_key, decode_hex_response, release_storage_key};

#[test]
fn bin_name_from_plain_url() {
    let r = derive_bin_name(&b"http://fake/vault-1.0".to_vec());
    assert_eq!(r, Ok(b"vault-1.0".to_vec()));
}

#[test]
fn bin_name_from_trailing_slash() {
    // The name derives from the segment before the trailing slash.
    let r = derive_bin_name(&b"https://host/dir/name/".to_vec());
    assert_eq!(r, Ok(b"name".to_vec()));
    let r = derive_bin_name(&b"http://fake/vault-1.0///".to_vec());
    assert_eq!(r, Ok(b"vault-1.0".to_vec()));
}

#[test]
fn bin_name_empty_path_is_error() {
    let r = derive_bin_name(&b"https://host/".to_vec());
    assert_eq!(r, Err(Error::NameDerivationError));
}

#[test]
fn bin_name_no_filename_is_error() {
    let r = derive_bin_name(&b"http://fake/".to_vec());
    assert_eq!(r, Err(Error::NameDerivationError));
    let r = derive_bin_name(&b"http://fake".to_vec());
    assert_eq!(r, Err(Error::NameDerivationError));
}

#[test]
fn bin_name_bad_url_is_parse_error() {
    assert_eq!(
        derive_bin_name(&b"not-a-url".to_vec()),
        Err(Error::UrlParseError)
    );
    assert_eq!(derive_bin_name(&b"http://".to_vec()), Err(Error::UrlParseError));
    assert_eq!(
        derive_bin_name(&b"://host/x".to_vec()),
        Err(Error::UrlParseError)
    );
    assert_eq!(
        derive_bin_name(&b"http:///x".to_vec()),
        Err(Error::UrlParseError)
    );
}

#[test]
fn bin_name_ignores_query_and_fragment() {
    let r = derive_bin_name(&b"http://host/dir/file?x=1".to_vec());
    assert_eq!(r, Ok(b"file".to_vec()));
    let r = derive_bin_name(&b"http://host/dir/file#frag".to_vec());
    assert_eq!(r, Ok(b"file".to_vec()));
}

#[test]
fn join_path_handles_separators() {
    assert_eq!(
        join_path_bytes(&b".".to_vec(), &b"vault".to_vec()),
        b"./vault".to_vec()
    );
    assert_eq!(
        join_path_bytes(&b"/opt/bin/".to_vec(), &b"vault".to_vec()),
        b"/opt/bin/vault".to_vec()
    );
    assert_eq!(
        join_path_bytes(&b"".to_vec(), &b"vault".to_vec()),
        b"vault".to_vec()
    );
}

#[test]
fn storage_key_shape_and_value() {
    let key = compute_storage_key(
        "VaultRegistry".to_string(),
        "CurrentClientRelease".to_string(),
    );
    assert_eq!(key.len(), 66);
    assert!(key.starts_with("0x"));
    let body = &key[2..];
    assert!(body
        .chars()
        .all(|c| c.is_ascii_hexdigit() && !c.is_ascii_uppercase()));

    // Cross-check against the chain's own hasher and hex writer.
    let expected = format!(
        "0x{}{}",
        hex::encode(sp_core_hashing::twox_128(b"VaultRegistry")),
        hex::encode(sp_core_hashing::twox_128(b"CurrentClientRelease"))
    );
    assert_eq!(key, expected);

    // The first 16 decoded bytes are the module digest, the next 16
    // the item digest.
    let decoded = hex::decode(body).unwrap();
    assert_eq!(decoded[0..16], sp_core_hashing::twox_128(b"VaultRegistry"));
    assert_eq!(
        decoded[16..32],
        sp_core_hashing::twox_128(b"CurrentClientRelease")
    );
}

#[test]
fn release_keys_name_the_two_slots() {
    let current = release_storage_key(false);
    let pending = release_storage_key(true);
    assert_eq!(
        current,
        compute_storage_key(
            "VaultRegistry".to_string(),
            "CurrentClientRelease".to_string()
        )
    );
    assert_eq!(
        pending,
        compute_storage_key(
            "VaultRegistry".to_string(),
            "PendingClientRelease".to_string()
        )
    );
    assert_ne!(current, pending);
}

#[test]
fn hex_responses_decode() {
    assert_eq!(decode_hex_response("0x0102ff"), Ok(vec![1u8, 2, 255]));
    assert_eq!(decode_hex_response("0xAB"), Ok(vec![171u8]));
    assert_eq!(decode_hex_response("0x"), Ok(vec![]));
}

#[test]
fn malformed_hex_responses_are_decode_errors() {
    // Missing prefix, odd digit count, and a non-hex character.
    assert_eq!(decode_hex_response("01ff"), Err(Error::DecodeError));
    assert_eq!(decode_hex_response("0x1"), Err(Error::DecodeError));
    assert_eq!(decode_hex_response("0x0g"), Err(Error::DecodeError));
    assert_eq!(decode_hex_response(""), Err(Error::DecodeError));
}
