//! Encoding primitives: base64url, SHA-256, big-endian integers, and
//! constant-time comparison.
use vstd::prelude::*;
use base64::Engine;
use sha2::Digest;

verus! {

/// What base64url decoding (padding optional) makes of a text, if it is valid.
pub uninterp spec fn base64url_decode_of(s: Seq<char>) -> Option<Seq<u8>>;

/// The unpadded base64url text of a byte string.
pub uninterp spec fn base64url_encode_of(b: Seq<u8>) -> Seq<char>;

/// Whether `c` is in the URL-safe base64 alphabet: letters, digits, `-`, `_`.
pub open spec fn is_base64url_char(c: char) -> bool {
    ('A' <= c <= 'Z') || ('a' <= c <= 'z') || ('0' <= c <= '9') || c == '-' || c == '_'
}

/// The length of the unpadded base64 text of `n` bytes: four characters per
/// three bytes, and two or three for a final one or two.
pub open spec fn unpadded_len(n: nat) -> nat {
    (4 * n + 2) / 3
}

/// The SHA-256 digest of a byte string.
pub uninterp spec fn sha256_of(b: Seq<u8>) -> Seq<u8>;

/// Relies on base64's `GeneralPurpose::decode` with the URL-safe alphabet and
/// padding accepted whether present or absent.
#[verifier::external_body]
pub(crate) fn base64url_decode(s: &str) -> (r: Option<Vec<u8>>)
    ensures
        r.is_some() == base64url_decode_of(s@).is_some(),
        r.is_some() ==> r.unwrap()@ == base64url_decode_of(s@).unwrap(),
{
    let config = base64::engine::GeneralPurposeConfig::new()
        .with_decode_padding_mode(base64::engine::DecodePaddingMode::Indifferent);
    let engine = base64::engine::GeneralPurpose::new(&base64::alphabet::URL_SAFE, config);
    engine.decode(s).ok()
}

/// Relies on base64's `URL_SAFE_NO_PAD` engine: unpadded text of the URL-safe
/// alphabet, of the length `encoded_len` gives, which decodes back to the
/// same bytes.
#[verifier::external_body]
pub(crate) fn base64url_encode(b: &[u8]) -> (r: String)
    ensures
        r@ == base64url_encode_of(b@),
        base64url_decode_of(r@) == Some(b@),
        r@.len() == unpadded_len(b@.len()),
        forall|i: int| 0 <= i < r@.len() ==> is_base64url_char(#[trigger] r@[i]),
{
    base64::engine::general_purpose::URL_SAFE_NO_PAD.encode(b)
}

/// Relies on sha2's `Sha256::digest`: a 32-byte digest of the input.
#[verifier::external_body]
pub(crate) fn sha256(b: &[u8]) -> (r: Vec<u8>)
    ensures
        r@ == sha256_of(b@),
        r@.len() == 32,
{
    sha2::Sha256::digest(b).to_vec()
}

/// Encodes bytes as unpadded base64url text.
pub fn encode_base64url(b: &[u8]) -> (r: String)
    ensures
        r@ == base64url_encode_of(b@),
        base64url_decode_of(r@) == Some(b@),
        r@.len() == unpadded_len(b@.len()),
        forall|i: int| 0 <= i < r@.len() ==> is_base64url_char(#[trigger] r@[i]),
{
    base64url_encode(b)
}

/// Decodes base64url text, with or without padding.
pub fn decode_base64url(s: &str) -> (r: Option<Vec<u8>>)
    ensures
        r.is_some() == base64url_decode_of(s@).is_some(),
        r.is_some() ==> r.unwrap()@ == base64url_decode_of(s@).unwrap(),
{
    base64url_decode(s)
}

/// The big-endian value of two bytes starting at `i`.
pub open spec fn be_u16(s: Seq<u8>, i: int) -> int {
    s[i] as int * 256 + s[i + 1] as int
}

/// The big-endian value of four bytes starting at `i`.
pub open spec fn be_u32(s: Seq<u8>, i: int) -> int {
    s[i] as int * 16777216 + s[i + 1] as int * 65536 + s[i + 2] as int * 256 + s[i + 3] as int
}

/// Reads a big-endian 16-bit integer.
pub fn read_be_u16(v: &[u8], i: usize) -> (r: u16)
    requires
        i + 2 <= v@.len(),
    ensures
        r as int == be_u16(v@, i as int),
{
    (v[i] as u16) * 256 + (v[i + 1] as u16)
}

/// Reads a big-endian 32-bit integer.
pub fn read_be_u32(v: &[u8], i: usize) -> (r: u32)
    requires
        i + 4 <= v@.len(),
    ensures
        r as int == be_u32(v@, i as int),
{
    (v[i] as u32) * 16777216 + (v[i + 1] as u32) * 65536 + (v[i + 2] as u32) * 256 + (
    v[i + 3] as u32)
}

/// Compares two byte strings, looking at every byte of equal-length inputs
/// whatever the earlier bytes were.
pub fn constant_time_eq(a: &[u8], b: &[u8]) -> (r: bool)
    ensures
        r == (a@ == b@),
{
    if a.len() != b.len() {
        return false;
    }
    let mut diff: u8 = 0;
    let mut i: usize = 0;
    assert(a@.subrange(0, 0) =~= b@.subrange(0, 0));
    while i < a.len()
        invariant
            a@.len() == b@.len(),
            i <= a@.len(),
            (diff == 0) == (a@.subrange(0, i as int) == b@.subrange(0, i as int)),
        decreases a@.len() - i,
    {
        let ai: u8 = a[i];
        let bi: u8 = b[i];
        let x: u8 = ai ^ bi;
        assert((x == 0) == (ai == bi)) by (bit_vector)
            requires x == ai ^ bi;
        let nd: u8 = diff | x;
        assert((nd == 0) == (diff == 0 && x == 0)) by (bit_vector)
            requires nd == diff | x;
        proof {
            let sa = a@.subrange(0, i + 1);
            let sb = b@.subrange(0, i + 1);
            assert(sa.subrange(0, i as int) =~= a@.subrange(0, i as int));
            assert(sb.subrange(0, i as int) =~= b@.subrange(0, i as int));
            assert(sa[i as int] == a@[i as int]);
            assert(sb[i as int] == b@[i as int]);
            if a@.subrange(0, i as int) == b@.subrange(0, i as int) && x == 0 {
                assert(sa =~= sb);
            }
        }
        diff = nd;
        i = i + 1;
    }
    assert(a@.subrange(0, a@.len() as int) =~= a@);
    assert(b@.subrange(0, b@.len() as int) =~= b@);
    diff == 0
}

} // verus!
