//! Keys, digests and signatures: RSA (PKCS#1 v1.5 over SHA-256) from the
//! `rsa` crate, SHA-256 from `sha2`, hexadecimal text from `hex`.

use vstd::prelude::*;
use rand::rngs::OsRng;
use rsa::{PaddingScheme, PublicKey, PublicKeyEncoding, RSAPrivateKey, RSAPublicKey};
use sha2::{Digest, Sha256};

verus! {

#[verifier::external_type_specification]
#[verifier::external_body]
pub struct ExRSAPublicKey(RSAPublicKey);

#[verifier::external_type_specification]
#[verifier::external_body]
pub struct ExRSAPrivateKey(RSAPrivateKey);

#[verifier::external_type_specification]
#[verifier::external_body]
pub struct ExRsaError(rsa::errors::Error);

#[verifier::external_type_specification]
#[verifier::external_body]
pub struct ExFromHexError(hex::FromHexError);

/// Why a key or signature operation failed.
#[derive(Debug, Clone, Copy, PartialEq, Eq)]
pub enum CryptoError {
    /// The signer refused the key or the digest.
    SigningFailed,
    /// The text is not an even number of hexadecimal digits.
    InvalidHex,
    /// The bytes are not a PKCS#8 encoded RSA public key.
    InvalidKey,
}

/// The size of the keys this node generates, in bits.
pub const KEY_BITS: usize = 1024;

/// The SHA-256 digest of `data`.
pub uninterp spec fn sha256_of(data: Seq<u8>) -> Seq<u8>;

/// The lower-case hexadecimal digit for `n < 16`.
pub open spec fn hex_digit(n: u8) -> char {
    if n < 10 {
        (n + 48) as char
    } else {
        (n + 87) as char
    }
}

/// Each byte as two lower-case hexadecimal digits, high nibble first.
pub open spec fn hex_encoding(b: Seq<u8>) -> Seq<char>
    decreases b.len(),
{
    if b.len() == 0 {
        Seq::empty()
    } else {
        seq![hex_digit(b[0] / 16), hex_digit(b[0] % 16)] + hex_encoding(b.drop_first())
    }
}

/// The value of a hexadecimal digit of either case.
pub open spec fn hex_value(c: char) -> Option<u8> {
    if '0' <= c && c <= '9' {
        Some((c as u32 - 48) as u8)
    } else if 'a' <= c && c <= 'f' {
        Some((c as u32 - 87) as u8)
    } else if 'A' <= c && c <= 'F' {
        Some((c as u32 - 55) as u8)
    } else {
        None
    }
}

/// An even number of hexadecimal digits.
pub open spec fn hex_valid(s: Seq<char>) -> bool {
    &&& s.len() % 2 == 0
    &&& forall|i: int| 0 <= i < s.len() ==> (#[trigger] hex_value(s[i])) is Some
}

/// The bytes that consecutive pairs of hexadecimal digits stand for.
pub open spec fn hex_decoding(s: Seq<char>) -> Seq<u8>
    decreases s.len(),
{
    if s.len() < 2 {
        Seq::empty()
    } else {
        seq![(hex_value(s[0]).unwrap() * 16 + hex_value(s[1]).unwrap()) as u8] + hex_decoding(s.skip(2))
    }
}

/// `sha2::Sha256::digest`: the SHA-256 digest of `data`, which is 32 bytes long.
#[verifier::external_body]
fn sha256_digest(data: &[u8]) -> (r: Vec<u8>)
    ensures
        r@ == sha256_of(data@),
        r@.len() == 32,
{
    Sha256::digest(data).to_vec()
}

/// `hex::encode`: each byte as two lower-case hexadecimal digits.
#[verifier::external_body]
fn hex_encode(data: &[u8]) -> (r: String)
    ensures
        r@ == hex_encoding(data@),
{
    hex::encode(data)
}

/// `hex::decode`: fails unless the text is an even number of hexadecimal
/// digits (of either case), and otherwise gives the bytes they stand for.
/// The crate reads the text's UTF-8 bytes; a character outside ASCII
/// gives bytes that are no digit, so the text is refused then too.
#[verifier::external_body]
fn hex_decode(s: &str) -> (r: Result<Vec<u8>, hex::FromHexError>)
    ensures
        r is Ok <==> hex_valid(s@),
        r matches Ok(v) ==> v@ == hex_decoding(s@),
{
    hex::decode(s)
}

/// The public half of a private key: its modulus and public exponent
/// (`rsa::RSAPublicKey::from(&RSAPrivateKey)`).
pub uninterp spec fn public_key_of(sk: RSAPrivateKey) -> RSAPublicKey;

/// The number of bits of a private key's modulus
/// (`rsa::PublicKeyParts::n(..).bits()`).
pub uninterp spec fn modulus_bits(sk: RSAPrivateKey) -> nat;

/// The PKCS#1 v1.5 signature that `sk` makes of a SHA-256 digest, or `None`
/// where the crate refuses to sign (`rsa::RSAPrivateKey::sign`).
pub uninterp spec fn pkcs1v15_signature(sk: RSAPrivateKey, hashed: Seq<u8>) -> Option<Seq<u8>>;

/// Whether `pk` accepts `sig` as a PKCS#1 v1.5 signature of a SHA-256
/// digest (`rsa::PublicKey::verify` succeeds).
pub uninterp spec fn pkcs1v15_accepts(pk: RSAPublicKey, hashed: Seq<u8>, sig: Seq<u8>) -> bool;

/// Whether a private key passes the crate's consistency check
/// (`rsa::RSAPrivateKey::validate` succeeds): its exponents are in range,
/// its primes multiply to its modulus, and `d * e` is 1 modulo each prime
/// less one.
pub uninterp spec fn passes_validation(sk: RSAPrivateKey) -> bool;

/// Whether a public key's exponent lies in the range that the crate accepts
/// of a public key (`rsa::key::check_public` succeeds: from 2 to 2^30).
pub uninterp spec fn public_key_checks(pk: RSAPublicKey) -> bool;

/// The PKCS#8 DER encoding of a public key (`rsa::PublicKeyEncoding::to_pkcs8`).
pub uninterp spec fn pkcs8_encoding(pk: RSAPublicKey) -> Seq<u8>;

/// The public key that PKCS#8 DER bytes encode, or `None` where the crate's
/// parser refuses them (`rsa::RSAPublicKey::from_pkcs8`).
pub uninterp spec fn pkcs8_decoding(der: Seq<u8>) -> Option<RSAPublicKey>;

/// `rsa::RSAPrivateKey::new` with the operating system's random source:
/// a fresh two-prime key with public exponent 65537. Which key comes out is
/// chance. The source fails only for fewer than 64 bits; otherwise it draws
/// primes until their product has exactly `bits` bits.
#[verifier::external_body]
fn generate_private_key(bits: usize) -> (r: Result<RSAPrivateKey, rsa::errors::Error>)
    ensures
        bits >= 64 ==> r is Ok,
        r matches Ok(sk) ==> modulus_bits(sk) == bits,
        r matches Ok(sk) ==> passes_validation(sk),
{
    RSAPrivateKey::new(&mut OsRng, bits)
}

/// `rsa::RSAPublicKey::from(&RSAPrivateKey)`: the public half of a private
/// key. It keeps the modulus and exponent, so where the private key passes
/// `validate` (which checks the exponent as `check_public` does), so does
/// the public half.
#[verifier::external_body]
fn public_half(sk: &RSAPrivateKey) -> (r: RSAPublicKey)
    ensures
        r == public_key_of(*sk),
        passes_validation(*sk) ==> public_key_checks(r),
{
    RSAPublicKey::from(sk)
}

/// `rsa::RSAPrivateKey::sign` with PKCS#1 v1.5 padding for SHA-256, without
/// blinding: the signature is a function of the key and the digest. The
/// source refuses a digest that is not 32 bytes long, and a key whose
/// modulus is shorter than 62 bytes (the padded digest needs that many).
/// Whether any other key signs depends on the key's private parts, which the
/// crate checks as it signs; that is left to the name. Before it returns a
/// signature the crate checks that raising it to the public exponent gives
/// the padded digest back, and it pads the signature to the key's size in
/// bytes: so the signature has that length and the public half accepts it.
#[verifier::external_body]
fn rsa_sign(sk: &RSAPrivateKey, hashed: &[u8]) -> (r: Result<Vec<u8>, rsa::errors::Error>)
    ensures
        r is Ok <==> pkcs1v15_signature(*sk, hashed@) is Some,
        r matches Ok(s) ==> pkcs1v15_signature(*sk, hashed@) == Some(s@),
        hashed@.len() != 32 ==> r is Err,
        modulus_bits(*sk) < 489 ==> r is Err,
        r matches Ok(s) ==> s@.len() == (modulus_bits(*sk) + 7) / 8,
        r matches Ok(s) ==> pkcs1v15_accepts(public_key_of(*sk), hashed@, s@),
{
    sk.sign(PaddingScheme::new_pkcs1v15_sign(Some(rsa::hash::Hash::SHA2_256)), hashed)
}

/// `rsa::PublicKey::verify` with PKCS#1 v1.5 padding for SHA-256: succeeds
/// exactly when the key accepts the signature; the source refuses a digest
/// that is not 32 bytes long.
#[verifier::external_body]
fn rsa_verify(pk: &RSAPublicKey, hashed: &[u8], sig: &[u8]) -> (r: Result<(), rsa::errors::Error>)
    ensures
        r is Ok <==> pkcs1v15_accepts(*pk, hashed@, sig@),
        hashed@.len() != 32 ==> r is Err,
{
    pk.verify(PaddingScheme::new_pkcs1v15_sign(Some(rsa::hash::Hash::SHA2_256)), hashed, sig)
}

/// `rsa::PublicKeyEncoding::to_pkcs8`: the DER encoding of the key. In the
/// source the only failure of the encoder is an object identifier out of
/// range, and the RSA identifier is not, so it always succeeds. The parser
/// reads the modulus and exponent back and rebuilds the key with
/// `RSAPublicKey::new`, which accepts it where `check_public` does.
#[verifier::external_body]
fn public_key_to_pkcs8(pk: &RSAPublicKey) -> (r: Result<Vec<u8>, rsa::errors::Error>)
    ensures
        r is Ok,
        r matches Ok(der) ==> der@ == pkcs8_encoding(*pk),
        r matches Ok(der) ==> (public_key_checks(*pk) ==> pkcs8_decoding(der@) == Some(*pk)),
{
    pk.to_pkcs8()
}

/// `rsa::RSAPublicKey::from_pkcs8`: parses a DER encoded public key. No
/// bytes at all are refused (the parser finds no outer sequence).
#[verifier::external_body]
fn public_key_from_pkcs8(der: &[u8]) -> (r: Result<RSAPublicKey, rsa::errors::Error>)
    ensures
        r is Ok <==> pkcs8_decoding(der@) is Some,
        r matches Ok(k) ==> pkcs8_decoding(der@) == Some(k),
        der@.len() == 0 ==> r is Err,
{
    RSAPublicKey::from_pkcs8(der)
}

/// A fresh key pair of `KEY_BITS` bits: the private key and its public half.
pub fn gen() -> (r: (RSAPublicKey, RSAPrivateKey))
    ensures
        r.0 == public_key_of(r.1),
        modulus_bits(r.1) == KEY_BITS,
        passes_validation(r.1),
        public_key_checks(r.0),
{
    match generate_private_key(KEY_BITS) {
        Ok(sk) => {
            let pk = public_half(&sk);
            (pk, sk)
        },
        Err(_) => vstd::pervasive::unreached(),
    }
}

/// The SHA-256 digest of `data`.
pub fn sha256(data: &[u8]) -> (r: Vec<u8>)
    ensures
        r@ == sha256_of(data@),
        r@.len() == 32,
{
    sha256_digest(data)
}

/// Signs the SHA-256 digest of `data` with PKCS#1 v1.5 padding.
pub fn sign(data: &[u8], sk: &RSAPrivateKey) -> (r: Result<Vec<u8>, CryptoError>)
    ensures
        r is Ok <==> pkcs1v15_signature(*sk, sha256_of(data@)) is Some,
        r matches Ok(s) ==> pkcs1v15_signature(*sk, sha256_of(data@)) == Some(s@),
        r matches Err(e) ==> e == CryptoError::SigningFailed,
        modulus_bits(*sk) < 489 ==> r is Err,
        r matches Ok(s) ==> s@.len() == (modulus_bits(*sk) + 7) / 8,
        r matches Ok(s) ==> pkcs1v15_accepts(public_key_of(*sk), sha256_of(data@), s@),
{
    let hashed = sha256_digest(data);
    match rsa_sign(sk, hashed.as_slice()) {
        Ok(signature) => Ok(signature),
        Err(_) => Err(CryptoError::SigningFailed),
    }
}

/// Whether `signature` is a PKCS#1 v1.5 signature of the SHA-256 digest of
/// `data` under `pk`.
pub fn verify(data: &[u8], signature: &Vec<u8>, pk: &RSAPublicKey) -> (r: bool)
    ensures
        r == pkcs1v15_accepts(*pk, sha256_of(data@), signature@),
{
    let hashed = sha256_digest(data);
    match rsa_verify(pk, hashed.as_slice(), signature.as_slice()) {
        Ok(()) => true,
        Err(_) => false,
    }
}

/// The PKCS#8 DER encoding of a public key.
pub fn serialize_key(pk: &RSAPublicKey) -> (r: Vec<u8>)
    ensures
        r@ == pkcs8_encoding(*pk),
        public_key_checks(*pk) ==> pkcs8_decoding(r@) == Some(*pk),
{
    match public_key_to_pkcs8(pk) {
        Ok(der) => der,
        Err(_) => vstd::pervasive::unreached(),
    }
}

/// Whether the bytes parse as a PKCS#8 encoded public key.
pub fn key_parses(der: &Vec<u8>) -> (r: bool)
    ensures
        r == pkcs8_decoding(der@) is Some,
        der@.len() == 0 ==> !r,
{
    public_key_from_pkcs8(der.as_slice()).is_ok()
}

/// Parses a PKCS#8 DER encoded public key; the bytes must encode one.
pub fn deserialize_key(pk: &Vec<u8>) -> (r: RSAPublicKey)
    requires
        pkcs8_decoding(pk@) is Some,
    ensures
        pkcs8_decoding(pk@) == Some(r),
{
    match public_key_from_pkcs8(pk.as_slice()) {
        Ok(key) => key,
        Err(_) => vstd::pervasive::unreached(),
    }
}

/// Parses a PKCS#8 DER encoded public key, or says that the bytes encode none.
pub fn parse_key(pk: &Vec<u8>) -> (r: Result<RSAPublicKey, CryptoError>)
    ensures
        r is Ok <==> pkcs8_decoding(pk@) is Some,
        r matches Ok(k) ==> pkcs8_decoding(pk@) == Some(k),
        r matches Err(e) ==> e == CryptoError::InvalidKey,
        pk@.len() == 0 ==> r is Err,
{
    if key_parses(pk) {
        Ok(deserialize_key(pk))
    } else {
        Err(CryptoError::InvalidKey)
    }
}

/// The lower-case hexadecimal form of `data`.
pub fn to_hex(data: &[u8]) -> (r: String)
    ensures
        r@ == hex_encoding(data@),
{
    hex_encode(data)
}

/// The bytes that a text of hexadecimal digits stands for.
pub fn from_hex(s: &str) -> (r: Result<Vec<u8>, CryptoError>)
    ensures
        r is Ok <==> hex_valid(s@),
        r matches Ok(v) ==> v@ == hex_decoding(s@),
        r matches Err(e) ==> e == CryptoError::InvalidHex,
{
    match hex_decode(s) {
        Ok(v) => Ok(v),
        Err(_) => Err(CryptoError::InvalidHex),
    }
}

/// A public key as text: its PKCS#8 encoding in lower-case hexadecimal.
pub fn key_to_string(pk: &RSAPublicKey) -> (r: String)
    ensures
        r@ == hex_encoding(pkcs8_encoding(*pk)),
        public_key_checks(*pk) ==> key_of_text(r@) == Some(*pk),
{
    let der = serialize_key(pk);
    proof {
        lemma_hex_round_trip(der@);
    }
    to_hex(der.as_slice())
}

/// The key that a text of hexadecimal digits encodes, if the text is
/// hexadecimal and the bytes parse as a PKCS#8 public key.
pub open spec fn key_of_text(s: Seq<char>) -> Option<RSAPublicKey> {
    if hex_valid(s) {
        pkcs8_decoding(hex_decoding(s))
    } else {
        None
    }
}

/// Reads a public key from the text that `key_to_string` writes; the text
/// must be hexadecimal digits that encode a key.
pub fn string_to_key(s: &String) -> (r: RSAPublicKey)
    requires
        key_of_text(s@) is Some,
    ensures
        key_of_text(s@) == Some(r),
{
    match from_hex(s.as_str()) {
        Ok(der) => deserialize_key(&der),
        Err(_) => vstd::pervasive::unreached(),
    }
}

/// Reads a public key from text, or says why the text is none: it is not
/// hexadecimal, or its bytes encode no key.
pub fn read_key(s: &String) -> (r: Result<RSAPublicKey, CryptoError>)
    ensures
        r matches Err(CryptoError::InvalidHex) <==> !hex_valid(s@),
        r matches Err(CryptoError::InvalidKey) <==> (hex_valid(s@) && pkcs8_decoding(hex_decoding(s@)) is None),
        r matches Err(e) ==> e == CryptoError::InvalidHex || e == CryptoError::InvalidKey,
        r is Ok <==> key_of_text(s@) is Some,
        r matches Ok(k) ==> key_of_text(s@) == Some(k),
{
    match from_hex(s.as_str()) {
        Ok(der) => {
            if key_parses(&der) {
                Ok(string_to_key(s))
            } else {
                Err(CryptoError::InvalidKey)
            }
        },
        Err(e) => Err(e),
    }
}

/// Lower-case hexadecimal text is valid hexadecimal.
pub proof fn lemma_hex_digit_value(n: u8)
    requires
        n < 16,
    ensures
        hex_value(hex_digit(n)) == Some(n),
{
}

/// Decoding the hexadecimal text of any bytes gives the bytes back, and the
/// text is valid hexadecimal: what `key_to_string` writes, `string_to_key`
/// reads without a hexadecimal error.
pub proof fn lemma_hex_round_trip(b: Seq<u8>)
    ensures
        hex_valid(hex_encoding(b)),
        hex_decoding(hex_encoding(b)) == b,
        hex_encoding(b).len() == 2 * b.len(),
    decreases b.len(),
{
    if b.len() > 0 {
        let hi = b[0] / 16;
        let lo = b[0] % 16;
        lemma_hex_digit_value(hi);
        lemma_hex_digit_value(lo);
        lemma_hex_round_trip(b.drop_first());
        let rest = hex_encoding(b.drop_first());
        let s = hex_encoding(b);
        assert(s == seq![hex_digit(hi), hex_digit(lo)] + rest);
        assert(s.skip(2) =~= rest);
        assert forall|i: int| 0 <= i < s.len() implies (#[trigger] hex_value(s[i])) is Some by {
            if i >= 2 {
                assert(s[i] == rest[i - 2]);
            }
        }
        assert(hex_decoding(s) =~= b);
    } else {
        assert(hex_encoding(b) =~= Seq::<char>::empty());
        assert(b =~= Seq::<u8>::empty());
    }
}

/// A character in upper case, where it is a lower-case ASCII letter.
pub open spec fn ascii_upper(c: char) -> char {
    if 'a' <= c && c <= 'z' {
        ((c as u32) - 32) as char
    } else {
        c
    }
}

/// A text with its lower-case ASCII letters in upper case.
pub open spec fn upper_text(s: Seq<char>) -> Seq<char> {
    s.map_values(|c: char| ascii_upper(c))
}

proof fn lemma_upper_hex_value(c: char)
    requires
        hex_value(c) is Some,
    ensures
        hex_value(ascii_upper(c)) == hex_value(c),
{
}

/// Hexadecimal text reads the same in upper case: the text of a key, in
/// upper case, still reads back as that key.
pub proof fn lemma_hex_case_insensitive(s: Seq<char>)
    requires
        hex_valid(s),
    ensures
        hex_valid(upper_text(s)),
        hex_decoding(upper_text(s)) == hex_decoding(s),
        key_of_text(upper_text(s)) == key_of_text(s),
    decreases s.len(),
{
    let u = upper_text(s);
    assert forall|i: int| 0 <= i < u.len() implies (#[trigger] hex_value(u[i])) is Some by {
        assert(hex_value(s[i]) is Some);
        lemma_upper_hex_value(s[i]);
    }
    if s.len() >= 2 {
        let rest = s.skip(2);
        assert(hex_valid(rest)) by {
            assert forall|i: int| 0 <= i < rest.len() implies (#[trigger] hex_value(rest[i])) is Some by {
                assert(rest[i] == s[i + 2]);
                assert(hex_value(s[i + 2]) is Some);
            }
        }
        lemma_hex_case_insensitive(rest);
        assert(u.skip(2) =~= upper_text(rest));
        assert(hex_value(s[0]) is Some);
        assert(hex_value(s[1]) is Some);
        lemma_upper_hex_value(s[0]);
        lemma_upper_hex_value(s[1]);
    }
}

} // verus!
