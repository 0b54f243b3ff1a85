use vstd::prelude::*;
use vstd::string::*;
use vstd::utf8::encode_utf8;

use crate::cache::MediaCache;
use sha2::Digest;

verus! {

/// The lowercase hexadecimal digit for a value below 16.
pub open spec fn hex_digit(v: u8) -> char {
    if v < 10 {
        ((v + 48) as u8) as char
    } else {
        ((v + 87) as u8) as char
    }
}

/// Lowercase hexadecimal text of a byte string: two digits per byte, high
/// nibble first.
pub open spec fn hex_lower(b: Seq<u8>) -> Seq<char> {
    Seq::new(
        2 * b.len(),
        |i: int|
            if i % 2 == 0 {
                hex_digit(b[i / 2] / 16)
            } else {
                hex_digit(b[i / 2] % 16)
            },
    )
}

/// The SHA-256 digest of a byte string.
pub uninterp spec fn sha256_of(b: Seq<u8>) -> Seq<u8>;

/// The sharded relative path for a digest: the first two hex digits, the
/// next two, then all of them, separated by `/`.
pub open spec fn key_of_digest(d: Seq<u8>) -> Seq<char> {
    let h = hex_lower(d);
    h.subrange(0, 2) + seq!['/'] + h.subrange(2, 4) + seq!['/'] + h
}

/// The cache key of a URL: the sharded path of the SHA-256 digest of its UTF-8
/// bytes.
pub open spec fn key_of_url(url: Seq<char>) -> Seq<char> {
    key_of_digest(sha256_of(encode_utf8(url)))
}

/// Relies on sha2's `Digest::digest` for `Sha256`: a 32-byte digest that
/// depends on the input bytes alone.
#[verifier::external_body]
fn sha256(b: &[u8]) -> (r: Vec<u8>)
    ensures
        r@ == sha256_of(b@),
        r@.len() == 32,
{
    sha2::Sha256::digest(b).to_vec()
}

/// Relies on `hex::encode`: lowercase hexadecimal, two digits per byte.
#[verifier::external_body]
fn to_hex(b: &[u8]) -> (r: String)
    ensures
        r@ == hex_lower(b@),
{
    hex::encode(b)
}

proof fn lemma_hex_slice(d: Seq<u8>, n: int)
    requires
        0 <= n < d.len(),
    ensures
        hex_lower(d.subrange(n, n + 1)) == hex_lower(d).subrange(2 * n, 2 * n + 2),
{
    assert(hex_lower(d.subrange(n, n + 1)) =~= hex_lower(d).subrange(2 * n, 2 * n + 2));
}

impl MediaCache {
    /// The cache key of `url`, a relative path `{h[0..2]}/{h[2..4]}/{h}`
    /// where `h` is the lowercase hex SHA-256 digest of the URL's bytes.
    pub fn key(url: &str) -> (r: String)
        ensures
            r@ == key_of_url(url@),
            sha256_of(encode_utf8(url@)).len() == 32,
    {
        let d = sha256(url.as_bytes());
        let mut first: Vec<u8> = Vec::new();
        first.push(d[0]);
        let mut second: Vec<u8> = Vec::new();
        second.push(d[1]);
        let h0 = to_hex(first.as_slice());
        let h1 = to_hex(second.as_slice());
        let h = to_hex(d.as_slice());
        proof {
            assert(first@ == d@.subrange(0, 1));
            assert(second@ == d@.subrange(1, 2));
            lemma_hex_slice(d@, 0);
            lemma_hex_slice(d@, 1);
            reveal_strlit("/");
        }
        let r = h0.concat("/").concat(h1.as_str()).concat("/").concat(h.as_str());
        r
    }
}

/// Key derivation is a function of the URL: equal URLs give equal keys.
pub proof fn lemma_key_deterministic(u1: Seq<char>, u2: Seq<char>)
    requires
        u1 == u2,
    ensures
        key_of_url(u1) == key_of_url(u2),
{
}

/// Distinct digests give distinct keys: the key carries the whole digest, so
/// two URLs share a key only where their SHA-256 digests collide.
pub proof fn lemma_key_distinct(d1: Seq<u8>, d2: Seq<u8>)
    requires
        d1.len() == 32,
        d2.len() == 32,
        d1 != d2,
    ensures
        key_of_digest(d1) != key_of_digest(d2),
{
    let h1 = hex_lower(d1);
    let h2 = hex_lower(d2);
    let i = choose|i: int| 0 <= i < 32 && d1[i] != d2[i];
    assert(exists|i: int| 0 <= i < 32 && d1[i] != d2[i]) by {
        if forall|i: int| 0 <= i < 32 ==> d1[i] == d2[i] {
            assert(d1 =~= d2);
        }
    }
    lemma_hex_byte_injective(d1[i], d2[i]);
    if key_of_digest(d1) == key_of_digest(d2) {
        let k1 = key_of_digest(d1);
        assert(k1.subrange(6, 70) =~= h1);
        assert(key_of_digest(d2).subrange(6, 70) =~= h2);
        assert(h1[2 * i] == h2[2 * i] && h1[2 * i + 1] == h2[2 * i + 1]);
    }
}

/// Two URLs whose SHA-256 digests differ get different keys. (`key` states
/// that a digest has 32 bytes.)
pub proof fn lemma_key_distinct_urls(u1: Seq<char>, u2: Seq<char>)
    requires
        sha256_of(encode_utf8(u1)).len() == 32,
        sha256_of(encode_utf8(u2)).len() == 32,
        sha256_of(encode_utf8(u1)) != sha256_of(encode_utf8(u2)),
    ensures
        key_of_url(u1) != key_of_url(u2),
{
    lemma_key_distinct(sha256_of(encode_utf8(u1)), sha256_of(encode_utf8(u2)));
}

proof fn lemma_hex_byte_injective(a: u8, b: u8)
    requires
        a != b,
    ensures
        hex_digit(a / 16) != hex_digit(b / 16) || hex_digit(a % 16) != hex_digit(b % 16),
{
    assert(a / 16 != b / 16 || a % 16 != b % 16) by (nonlinear_arith)
        requires a != b;
}

} // verus!
