use blockchain::crypto::{
    deserialize_key, from_hex, gen, key_parses, key_to_string, parse_key, read_key, serialize_key,
    sha256, sign, string_to_key, to_hex, verify, CryptoError,
};

#[test]
fn sha256_of_abc() {
    let d = sha256(b"abc");
    assert_eq!(
        to_hex(&d),
        "ba7816bf8f01cfea414140de5dae2223b00361a396177a9cb410ff61f20015ad"
    );
    assert_eq!(sha256(b"").len(), 32);
}

#[test]
fn hex_encoding_is_lower_case_pairs() {
    assert_eq!(to_hex(&[0x0a, 0xff, 0x00]), "0aff00");
    assert_eq!(to_hex(&[]), "");
}

#[test]
fn hex_decoding_accepts_both_cases() {
    assert_eq!(from_hex("0AfF"), Ok(vec![0x0a, 0xff]));
    assert_eq!(from_hex(""), Ok(vec![]));
}

#[test]
fn hex_decoding_refuses_bad_text() {
    assert_eq!(from_hex("abc"), Err(CryptoError::InvalidHex));
    assert_eq!(from_hex("zz"), Err(CryptoError::InvalidHex));
    assert_eq!(from_hex("é0"), Err(CryptoError::InvalidHex));
}

#[test]
fn hex_round_trip() {
    let b = vec![0u8, 1, 127, 128, 254, 255];
    assert_eq!(from_hex(&to_hex(&b)), Ok(b));
}

#[test]
fn string_to_key_errors() {
    assert_eq!(read_key(&"xyz".to_string()).err(), Some(CryptoError::InvalidHex));
    assert_eq!(read_key(&"abc".to_string()).err(), Some(CryptoError::InvalidHex));
    assert_eq!(read_key(&"0001".to_string()).err(), Some(CryptoError::InvalidKey));
    assert_eq!(read_key(&"00".to_string()).err(), Some(CryptoError::InvalidKey));
    assert_eq!(parse_key(&vec![1, 2, 3]).err(), Some(CryptoError::InvalidKey));
    assert_eq!(parse_key(&vec![]).err(), Some(CryptoError::InvalidKey));
    assert!(!key_parses(&vec![]));
}

#[test]
fn keys_sign_and_verify() {
    let (pk, sk) = gen();
    let msg = "message".as_bytes();
    let signature = sign(msg, &sk).unwrap();
    assert_eq!(signature.len(), 128);
    assert!(verify(msg, &signature, &pk));
    assert!(!verify(b"other message", &signature, &pk));
    let mut bad = signature.clone();
    bad[5] ^= 1;
    assert!(!verify(msg, &bad, &pk));

    assert_eq!(signature.len(), (1024 + 7) / 8);

    let der = serialize_key(&pk);
    assert!(key_parses(&der));
    assert_eq!(deserialize_key(&der), pk);
    assert_eq!(parse_key(&der), Ok(pk.clone()));
    let text = key_to_string(&pk);
    assert_eq!(text, hex::encode(&der));
    assert_eq!(string_to_key(&text), pk);
    assert_eq!(read_key(&text), Ok(pk.clone()));
    assert_eq!(string_to_key(&text.to_uppercase()), pk);
}
