//! Hashing of file paths into the identifiers that diff links use.

use vstd::prelude::*;
use sha2::{Digest, Sha256};

verus! {

/// The SHA-256 digest of a string's bytes; the result depends on the
/// characters alone.
pub uninterp spec fn sha256_of(data: Seq<char>) -> Seq<u8>;

/// Relies on the `sha2` crate: `Sha256` computes the SHA-256 digest of its
/// input, a pure function of it, and the digest is 32 bytes long.
#[verifier::external_body]
fn sha256_digest(data: &str) -> (r: Vec<u8>)
    ensures
        r@ == sha256_of(data@),
        r@.len() == 32,
{
    let mut hasher = Sha256::new();
    hasher.update(data);
    hasher.finalize().to_vec()
}

/// The lower-case hexadecimal digit of a value below sixteen.
pub open spec fn hex_digit(d: int) -> char
    recommends
        0 <= d < 16,
{
    if d == 0 {
        '0'
    } else if d == 1 {
        '1'
    } else if d == 2 {
        '2'
    } else if d == 3 {
        '3'
    } else if d == 4 {
        '4'
    } else if d == 5 {
        '5'
    } else if d == 6 {
        '6'
    } else if d == 7 {
        '7'
    } else if d == 8 {
        '8'
    } else if d == 9 {
        '9'
    } else if d == 10 {
        'a'
    } else if d == 11 {
        'b'
    } else if d == 12 {
        'c'
    } else if d == 13 {
        'd'
    } else if d == 14 {
        'e'
    } else {
        'f'
    }
}

/// The lower-case hexadecimal notation of a byte string: two digits per
/// byte, high nibble first.
pub open spec fn hex_chars(bytes: Seq<u8>) -> Seq<char>
    decreases bytes.len(),
{
    if bytes.len() == 0 {
        Seq::empty()
    } else {
        hex_chars(bytes.drop_last()) + seq![
            hex_digit(bytes.last() as int / 16),
            hex_digit(bytes.last() as int % 16),
        ]
    }
}

/// Relies on the `hex` crate: `encode` renders each byte as two lower-case
/// hexadecimal digits, high nibble first.
#[verifier::external_body]
fn hex_encode(bytes: &Vec<u8>) -> (r: String)
    ensures
        r@ == hex_chars(bytes@),
{
    hex::encode(bytes)
}

/// The identifier a diff link carries for one file: the lower-case
/// hexadecimal SHA-256 digest of its path.
pub open spec fn path_sha_chars(path: Seq<char>) -> Seq<char> {
    hex_chars(sha256_of(path))
}

/// Hash a file path into the 64-digit identifier its diff links use.
pub fn path_sha(path: &str) -> (r: String)
    ensures
        r@ == path_sha_chars(path@),
        r@.len() == 64,
{
    let digest: Vec<u8> = sha256_digest(path);
    let r: String = hex_encode(&digest);
    proof {
        lemma_hex_chars_len(digest@);
    }
    r
}

/// Two characters come out for each byte that goes in.
proof fn lemma_hex_chars_len(bytes: Seq<u8>)
    ensures
        hex_chars(bytes).len() == 2 * bytes.len(),
    decreases bytes.len(),
{
    if bytes.len() > 0 {
        lemma_hex_chars_len(bytes.drop_last());
    }
}

} // verus!
