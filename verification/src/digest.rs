//! Transaction hashing: uppercase hex of the SHA-256 digest of the raw
//! transaction bytes, matching the consensus node's own transaction hash.

use vstd::prelude::*;

verus! {

/// The SHA-256 digest of a byte sequence. The algorithm itself is not
/// written out here; the digest is a function of the bytes alone.
pub uninterp spec fn sha256_of(bytes: Seq<u8>) -> Seq<u8>;

/// The uppercase hex digit of a nibble.
pub open spec fn hex_digit_upper(n: u8) -> char
    recommends
        n < 16,
{
    if n == 0 {
        '0'
    } else if n == 1 {
        '1'
    } else if n == 2 {
        '2'
    } else if n == 3 {
        '3'
    } else if n == 4 {
        '4'
    } else if n == 5 {
        '5'
    } else if n == 6 {
        '6'
    } else if n == 7 {
        '7'
    } else if n == 8 {
        '8'
    } else if n == 9 {
        '9'
    } else if n == 10 {
        'A'
    } else if n == 11 {
        'B'
    } else if n == 12 {
        'C'
    } else if n == 13 {
        'D'
    } else if n == 14 {
        'E'
    } else {
        'F'
    }
}

/// Uppercase hex of a byte sequence: two digits per byte, high nibble
/// first.
pub open spec fn hex_upper_of(bytes: Seq<u8>) -> Seq<char> {
    Seq::new(
        bytes.len() * 2,
        |i: int|
            if i % 2 == 0 {
                hex_digit_upper(bytes[i / 2] / 16)
            } else {
                hex_digit_upper(bytes[i / 2] % 16)
            },
    )
}

/// The transaction hash as stored: uppercase hex of the SHA-256 digest.
pub open spec fn tx_hash_of(bytes: Seq<u8>) -> Seq<char> {
    hex_upper_of(sha256_of(bytes))
}

/// Relies on tendermint's default `Sha256::digest` (the sha2 crate): the
/// 32-byte SHA-256 digest, a function of the input bytes alone.
#[verifier::external_body]
fn sha256_digest(bytes: &[u8]) -> (r: Vec<u8>)
    ensures
        r@ == sha256_of(bytes@),
        r@.len() == 32,
{
    <tendermint::crypto::default::Sha256 as tendermint::crypto::Sha256>::digest(bytes).to_vec()
}

/// Relies on subtle-encoding's `hex::encode_upper`: two uppercase hex
/// digits per input byte, high nibble first.
#[verifier::external_body]
fn hex_encode_upper(bytes: &[u8]) -> (r: String)
    ensures
        r@ == hex_upper_of(bytes@),
{
    let encoded = subtle_encoding::hex::encode_upper(bytes);
    match String::from_utf8(encoded) {
        Ok(s) => s,
        Err(_) => String::new(),
    }
}

/// The hash under which a transaction is stored, computed over its raw
/// bytes.
pub fn tx_hash(bytes: &Vec<u8>) -> (r: String)
    ensures
        r@ == tx_hash_of(bytes@),
{
    let digest = sha256_digest(bytes.as_slice());
    hex_encode_upper(digest.as_slice())
}

} // verus!
