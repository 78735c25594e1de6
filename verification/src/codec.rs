//! Encodings and digests that outside crates compute: base64, gzip, SHA-256
//! and hexadecimal text.

use vstd::prelude::*;

verus! {

/// The bytes that a text in standard base64 stands for, as the `base64`
/// crate decodes it; nothing where the text is not valid base64.
pub uninterp spec fn base64_decoded(text: Seq<char>) -> Option<Seq<u8>>;

/// The standard base64 text of a byte string, as the `base64` crate encodes
/// it.
pub uninterp spec fn base64_encoded(bytes: Seq<u8>) -> Seq<char>;

/// The content of a gzip stream, as `flate2` inflates it; nothing where the
/// stream is damaged.
pub uninterp spec fn gunzipped(bytes: Seq<u8>) -> Option<Seq<u8>>;

/// The SHA-256 digest of a byte string, as the `sha2` crate computes it.
pub uninterp spec fn sha256_of(bytes: Seq<u8>) -> Seq<u8>;

/// The lower-case hexadecimal digit of a value below sixteen.
pub open spec fn hex_digit(n: int) -> char {
    if n < 10 {
        ('0' as int + n) as char
    } else {
        ('a' as int + n - 10) as char
    }
}

/// The lower-case hexadecimal text of a byte string: two digits a byte, the
/// high one first.
pub open spec fn hex_of(bytes: Seq<u8>) -> Seq<char> {
    Seq::new(
        2 * bytes.len(),
        |i: int|
            hex_digit(
                if i % 2 == 0 {
                    bytes[i / 2] as int / 16
                } else {
                    bytes[i / 2] as int % 16
                },
            ),
    )
}

/// Decodes with `Engine::decode` of `base64::engine::general_purpose::STANDARD`.
/// The contract names the outcome and says nothing else of it.
#[verifier::external_body]
pub(crate) fn base64_decode(text: &str) -> (r: Option<Vec<u8>>)
    ensures
        match r {
            Some(bytes) => base64_decoded(text@) == Some(bytes@),
            None => base64_decoded(text@) is None,
        },
{
    base64::Engine::decode(&base64::engine::general_purpose::STANDARD, text).ok()
}

/// Encodes with `Engine::encode` of `base64::engine::general_purpose::STANDARD`.
/// The contract names the outcome and says nothing else of it.
#[verifier::external_body]
pub(crate) fn base64_encode(bytes: &[u8]) -> (r: String)
    ensures
        r@ == base64_encoded(bytes@),
{
    base64::Engine::encode(&base64::engine::general_purpose::STANDARD, bytes)
}

/// Inflates with `flate2::read::GzDecoder`, read to its end. The contract
/// names the outcome and says nothing else of it.
#[verifier::external_body]
pub(crate) fn gunzip(bytes: &[u8]) -> (r: Option<Vec<u8>>)
    ensures
        match r {
            Some(content) => gunzipped(bytes@) == Some(content@),
            None => gunzipped(bytes@) is None,
        },
{
    let mut out = Vec::new();
    match std::io::Read::read_to_end(&mut flate2::read::GzDecoder::new(bytes), &mut out) {
        Ok(_) => Some(out),
        Err(_) => None,
    }
}

/// Digests with `sha2::Sha256::digest`. The contract names the outcome and
/// says nothing else of it.
#[verifier::external_body]
pub(crate) fn sha256(bytes: &[u8]) -> (r: Vec<u8>)
    ensures
        r@ == sha256_of(bytes@),
{
    <sha2::Sha256 as sha2::Digest>::digest(bytes).to_vec()
}

/// Writes bytes in hexadecimal with `hex::encode`, which takes its digits
/// from `0123456789abcdef`, the high half of a byte first.
#[verifier::external_body]
pub(crate) fn hex_encode(bytes: &[u8]) -> (r: String)
    ensures
        r@ == hex_of(bytes@),
{
    hex::encode(bytes)
}

/// The entity tag of a response body: its SHA-256 digest in hexadecimal.
pub open spec fn etag_of(body: Seq<u8>) -> Seq<char> {
    hex_of(sha256_of(body))
}

/// The entity tag of a response body.
pub fn etag(body: &[u8]) -> (r: String)
    ensures
        r@ == etag_of(body@),
{
    let digest = sha256(body);
    hex_encode(digest.as_slice())
}

/// Equal bodies have equal entity tags.
pub proof fn lemma_equal_bodies_equal_etags(a: Seq<u8>, b: Seq<u8>)
    requires
        a == b,
    ensures
        etag_of(a) == etag_of(b),
{
}

/// Different digits are written differently.
pub proof fn lemma_hex_digit_injective(m: int, n: int)
    requires
        0 <= m < 16,
        0 <= n < 16,
        hex_digit(m) == hex_digit(n),
    ensures
        m == n,
{
    assert(hex_digit(m) as int == (if m < 10 {
        '0' as int + m
    } else {
        'a' as int + m - 10
    }));
    assert(hex_digit(n) as int == (if n < 10 {
        '0' as int + n
    } else {
        'a' as int + n - 10
    }));
}

/// Different byte strings are written differently in hexadecimal.
pub proof fn lemma_hex_injective(a: Seq<u8>, b: Seq<u8>)
    requires
        hex_of(a) == hex_of(b),
    ensures
        a == b,
{
    assert(hex_of(a).len() == 2 * a.len());
    assert(hex_of(b).len() == 2 * b.len());
    assert forall|i: int| 0 <= i < a.len() implies a[i] == b[i] by {
        let x = a[i] as int;
        let y = b[i] as int;
        assert((2 * i) % 2 == 0 && (2 * i) / 2 == i && (2 * i + 1) % 2 == 1 && (2 * i + 1) / 2
            == i) by (nonlinear_arith)
            requires
                0 <= i,
        ;
        assert(hex_of(a)[2 * i] == hex_digit(x / 16));
        assert(hex_of(b)[2 * i] == hex_digit(y / 16));
        assert(hex_of(a)[2 * i + 1] == hex_digit(x % 16));
        assert(hex_of(b)[2 * i + 1] == hex_digit(y % 16));
        lemma_hex_digit_injective(x / 16, y / 16);
        lemma_hex_digit_injective(x % 16, y % 16);
    }
    assert(a =~= b);
}

/// Bodies with different digests have different entity tags.
pub proof fn lemma_different_digests_different_etags(a: Seq<u8>, b: Seq<u8>)
    requires
        sha256_of(a) != sha256_of(b),
    ensures
        etag_of(a) != etag_of(b),
{
    if etag_of(a) == etag_of(b) {
        lemma_hex_injective(sha256_of(a), sha256_of(b));
    }
}

} // verus!
