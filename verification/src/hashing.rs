//! Deterministic URL -> cache-key hashing.
//!
//! A cache key is the SHA-256 digest of the URL's text, written as 64
//! lowercase hexadecimal characters.

use sha2::Digest;
use vstd::prelude::*;

verus! {

/// The SHA-256 digest of a piece of text: 32 bytes, a pure function of the
/// text alone.
pub uninterp spec fn sha256_of(s: Seq<char>) -> Seq<u8>;

/// Relies on sha2's `Sha256::digest`: the digest depends on the input bytes
/// alone (the bytes are the UTF-8 encoding of the text) and is 32 bytes long.
#[verifier::external_body]
fn sha256_digest(s: &str) -> (r: Vec<u8>)
    ensures
        r@ == sha256_of(s@),
        r@.len() == 32,
{
    sha2::Sha256::digest(s.as_bytes()).to_vec()
}

/// The lowercase hexadecimal digit for a value below 16.
pub open spec fn hex_digit(n: u8) -> char {
    if n == 0 {
        '0'
    } else if n == 1 {
        '1'
    } else if n == 2 {
        '2'
    } else if n == 3 {
        '3'
    } else if n == 4 {
        '4'
    } else if n == 5 {
        '5'
    } else if n == 6 {
        '6'
    } else if n == 7 {
        '7'
    } else if n == 8 {
        '8'
    } else if n == 9 {
        '9'
    } else if n == 10 {
        'a'
    } else if n == 11 {
        'b'
    } else if n == 12 {
        'c'
    } else if n == 13 {
        'd'
    } else if n == 14 {
        'e'
    } else {
        'f'
    }
}

/// Lowercase hexadecimal rendering of a byte sequence: two digits per byte,
/// most significant digit first.
pub open spec fn hex_of(b: Seq<u8>) -> Seq<char>
    decreases b.len(),
{
    if b.len() == 0 {
        Seq::empty()
    } else {
        seq![hex_digit(b[0] / 16), hex_digit(b[0] % 16)] + hex_of(b.drop_first())
    }
}

pub proof fn lemma_hex_of_len(b: Seq<u8>)
    ensures
        hex_of(b).len() == 2 * b.len(),
    decreases b.len(),
{
    if b.len() > 0 {
        lemma_hex_of_len(b.drop_first());
    }
}

/// Relies on hex's `encode`: lowercase hexadecimal, two digits per byte, most
/// significant digit first.
#[verifier::external_body]
fn hex_encode(b: &Vec<u8>) -> (r: String)
    ensures
        r@ == hex_of(b@),
{
    hex::encode(b.as_slice())
}

/// The cache key for a URL: its SHA-256 digest in lowercase hexadecimal.
pub open spec fn spec_url_hash(url: Seq<char>) -> Seq<char> {
    hex_of(sha256_of(url))
}

/// Maps a URL to its cache key. Pure and total: the result depends on the
/// URL's text alone, and is always 64 characters long.
pub fn url_to_hash(url: &str) -> (r: String)
    ensures
        r@ == spec_url_hash(url@),
        r@.len() == 64,
{
    let digest = sha256_digest(url);
    proof {
        lemma_hex_of_len(digest@);
    }
    hex_encode(&digest)
}

/// Law: hashing is deterministic — the same URL text always yields the same
/// cache key, within a run and across runs.
pub proof fn lemma_hash_deterministic(u1: Seq<char>, u2: Seq<char>)
    requires
        u1 == u2,
    ensures
        spec_url_hash(u1) == spec_url_hash(u2),
{
}

} // verus!
