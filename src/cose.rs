//! COSE public keys: decoding from their CBOR map, and signature checks.
use vstd::prelude::*;
use p256::ecdsa::signature::Verifier;
use crate::error::WebAuthnError;
use crate::structured::{cbor_lookup, cbor_lookup_of, CborKey, CborKeyView, CborLookup, CborLookupView};

verus! {

/// COSE key-type label.
pub const LABEL_KTY: i64 = 1;
/// COSE algorithm label.
pub const LABEL_ALG: i64 = 3;
/// COSE curve label.
pub const LABEL_CRV: i64 = -1;
/// COSE x-coordinate (or public value) label.
pub const LABEL_X: i64 = -2;
/// COSE y-coordinate label.
pub const LABEL_Y: i64 = -3;

/// Key type: octet key pair.
pub const KTY_OKP: i128 = 1;
/// Key type: elliptic curve with x and y coordinates.
pub const KTY_EC2: i128 = 2;
/// Algorithm: ECDSA with SHA-256.
pub const ALG_ES256: i128 = -7;
/// Algorithm: EdDSA.
pub const ALG_EDDSA: i128 = -8;
/// Curve: NIST P-256.
pub const CRV_P256: i128 = 1;
/// Curve: Ed25519.
pub const CRV_ED25519: i128 = 6;

/// A decoded public key, tagged by its algorithm.
#[derive(Debug, Clone)]
pub enum CoseKey {
    /// ECDSA P-256 with SHA-256; 32-byte affine coordinates.
    Es256 { x: Vec<u8>, y: Vec<u8> },
    /// Ed25519; the 32-byte public value.
    Ed25519 { x: Vec<u8> },
}

pub enum CoseKeyView {
    Es256 { x: Seq<u8>, y: Seq<u8> },
    Ed25519 { x: Seq<u8> },
}

impl View for CoseKey {
    type V = CoseKeyView;

    open spec fn view(&self) -> CoseKeyView {
        match self {
            CoseKey::Es256 { x, y } => CoseKeyView::Es256 { x: x@, y: y@ },
            CoseKey::Ed25519 { x } => CoseKeyView::Ed25519 { x: x@ },
        }
    }
}

pub open spec fn lookup_int(doc: Seq<u8>, label: int) -> CborLookupView {
    cbor_lookup_of(doc, CborKeyView::Int(label))
}

pub open spec fn is_bytes32(l: CborLookupView) -> bool {
    match l {
        CborLookupView::Bytes(b) => b.len() == 32,
        _ => false,
    }
}

pub open spec fn bytes_of(l: CborLookupView) -> Seq<u8> {
    match l {
        CborLookupView::Bytes(b) => b,
        _ => Seq::empty(),
    }
}

/// What a COSE_Key document decodes to. A document that is no map, or whose
/// key type or algorithm is missing or not an integer, is malformed; a pair
/// other than EC2/ES256 and OKP/EdDSA is unsupported. For a supported pair, a
/// missing or non-integer curve is malformed, another curve is unsupported,
/// and coordinates that are not 32-byte strings are malformed.
pub open spec fn cose_key_spec(doc: Seq<u8>) -> Result<CoseKeyView, WebAuthnError> {
    let kty = lookup_int(doc, 1);
    let alg = lookup_int(doc, 3);
    if !(kty is Int) || !(alg is Int) {
        Err(WebAuthnError::MalformedInput)
    } else if kty->Int_0 == 2 && alg->Int_0 == -7 {
        let crv = lookup_int(doc, -1);
        let x = lookup_int(doc, -2);
        let y = lookup_int(doc, -3);
        if !(crv is Int) {
            Err(WebAuthnError::MalformedInput)
        } else if crv->Int_0 != 1 {
            Err(WebAuthnError::UnsupportedAlgorithm)
        } else if is_bytes32(x) && is_bytes32(y) {
            Ok(CoseKeyView::Es256 { x: bytes_of(x), y: bytes_of(y) })
        } else {
            Err(WebAuthnError::MalformedInput)
        }
    } else if kty->Int_0 == 1 && alg->Int_0 == -8 {
        let crv = lookup_int(doc, -1);
        let x = lookup_int(doc, -2);
        if !(crv is Int) {
            Err(WebAuthnError::MalformedInput)
        } else if crv->Int_0 != 6 {
            Err(WebAuthnError::UnsupportedAlgorithm)
        } else if is_bytes32(x) {
            Ok(CoseKeyView::Ed25519 { x: bytes_of(x) })
        } else {
            Err(WebAuthnError::MalformedInput)
        }
    } else {
        Err(WebAuthnError::UnsupportedAlgorithm)
    }
}

fn lookup_label(doc: &[u8], label: i64) -> (r: CborLookup)
    ensures
        r@ == lookup_int(doc@, label as int),
{
    cbor_lookup(doc, &CborKey::Int(label))
}

fn take_bytes32(l: CborLookup) -> (r: Option<Vec<u8>>)
    ensures
        r.is_some() == is_bytes32(l@),
        r.is_some() ==> r.unwrap()@ == bytes_of(l@),
{
    match l {
        CborLookup::Bytes(b) => if b.len() == 32 {
            Some(b)
        } else {
            None
        },
        _ => None,
    }
}

/// Checks a curve entry against the curve a supported pair requires.
fn check_curve(l: &CborLookup, v: i128) -> (r: Result<(), WebAuthnError>)
    ensures
        !(l@ is Int) ==> r == Err::<(), _>(WebAuthnError::MalformedInput),
        (l@ is Int) && l@->Int_0 != v ==> r == Err::<(), _>(WebAuthnError::UnsupportedAlgorithm),
        (l@ is Int) && l@->Int_0 == v ==> r is Ok,
{
    match l {
        CborLookup::Int(i) => if *i == v {
            Ok(())
        } else {
            Err(WebAuthnError::UnsupportedAlgorithm)
        },
        _ => Err(WebAuthnError::MalformedInput),
    }
}

impl CoseKey {
    /// Decodes a COSE_Key CBOR map into one of the supported key kinds.
    pub fn decode(doc: &[u8]) -> (r: Result<CoseKey, WebAuthnError>)
        ensures
            match r {
                Ok(k) => cose_key_spec(doc@) == Ok::<_, WebAuthnError>(k@),
                Err(e) => cose_key_spec(doc@) == Err::<CoseKeyView, _>(e),
            },
    {
        let kty = lookup_label(doc, LABEL_KTY);
        let alg = lookup_label(doc, LABEL_ALG);
        let (k, a) = match (kty, alg) {
            (CborLookup::Int(k), CborLookup::Int(a)) => (k, a),
            _ => {
                return Err(WebAuthnError::MalformedInput);
            },
        };
        if k == KTY_EC2 && a == ALG_ES256 {
            let crv = lookup_label(doc, LABEL_CRV);
            let x = take_bytes32(lookup_label(doc, LABEL_X));
            let y = take_bytes32(lookup_label(doc, LABEL_Y));
            if let Err(e) = check_curve(&crv, CRV_P256) {
                return Err(e);
            }
            match (x, y) {
                (Some(x), Some(y)) => Ok(CoseKey::Es256 { x, y }),
                _ => Err(WebAuthnError::MalformedInput),
            }
        } else if k == KTY_OKP && a == ALG_EDDSA {
            let crv = lookup_label(doc, LABEL_CRV);
            let x = take_bytes32(lookup_label(doc, LABEL_X));
            if let Err(e) = check_curve(&crv, CRV_ED25519) {
                return Err(e);
            }
            match x {
                Some(x) => Ok(CoseKey::Ed25519 { x }),
                None => Err(WebAuthnError::MalformedInput),
            }
        } else {
            Err(WebAuthnError::UnsupportedAlgorithm)
        }
    }
}

/// Whether `sig`, DER-encoded, is a valid ECDSA P-256 / SHA-256 signature of
/// `msg` under the SEC1-encoded public point `point`.
pub uninterp spec fn es256_verifies_of(point: Seq<u8>, msg: Seq<u8>, sig: Seq<u8>) -> bool;

/// Whether `sig` is a valid Ed25519 signature of `msg` under public key `key`.
pub uninterp spec fn ed25519_verifies_of(key: Seq<u8>, msg: Seq<u8>, sig: Seq<u8>) -> bool;

/// Relies on p256's `VerifyingKey::from_sec1_bytes`, `Signature::from_der` and
/// `Verifier::verify`: false where either does not decode or the signature
/// does not verify.
#[verifier::external_body]
fn es256_verify(point: &[u8], msg: &[u8], sig: &[u8]) -> (r: bool)
    ensures
        r == es256_verifies_of(point@, msg@, sig@),
{
    let key = match p256::ecdsa::VerifyingKey::from_sec1_bytes(point) {
        Ok(k) => k,
        Err(_) => return false,
    };
    match p256::ecdsa::Signature::from_der(sig) {
        Ok(s) => key.verify(msg, &s).is_ok(),
        Err(_) => false,
    }
}

/// Relies on ed25519-dalek's `VerifyingKey::from_bytes`, `Signature::from_slice`
/// and `Verifier::verify`: false where either does not decode or the
/// signature does not verify.
#[verifier::external_body]
fn ed25519_verify(key: &[u8], msg: &[u8], sig: &[u8]) -> (r: bool)
    ensures
        r == ed25519_verifies_of(key@, msg@, sig@),
{
    let bytes: [u8; 32] = match key.try_into() {
        Ok(b) => b,
        Err(_) => return false,
    };
    let vk = match ed25519_dalek::VerifyingKey::from_bytes(&bytes) {
        Ok(k) => k,
        Err(_) => return false,
    };
    match ed25519_dalek::Signature::from_slice(sig) {
        Ok(s) => vk.verify(msg, &s).is_ok(),
        Err(_) => false,
    }
}

/// The uncompressed SEC1 encoding of an affine point.
pub open spec fn sec1_point(x: Seq<u8>, y: Seq<u8>) -> Seq<u8> {
    seq![4u8] + x + y
}

/// Whether `sig` is a valid signature of `msg` under `key`.
pub open spec fn signature_valid(key: CoseKeyView, msg: Seq<u8>, sig: Seq<u8>) -> bool {
    match key {
        CoseKeyView::Es256 { x, y } => es256_verifies_of(sec1_point(x, y), msg, sig),
        CoseKeyView::Ed25519 { x } => ed25519_verifies_of(x, msg, sig),
    }
}

/// Appends all of `b` to `v`.
pub fn append_bytes(v: &mut Vec<u8>, b: &[u8])
    ensures
        final(v)@ == old(v)@ + b@,
{
    let mut i: usize = 0;
    while i < b.len()
        invariant
            i <= b@.len(),
            v@ == old(v)@ + b@.subrange(0, i as int),
        decreases b@.len() - i,
    {
        v.push(b[i]);
        assert(b@.subrange(0, i + 1) =~= b@.subrange(0, i as int).push(b@[i as int]));
        i = i + 1;
    }
    assert(b@.subrange(0, b@.len() as int) =~= b@);
}

/// Checks a signature of `msg` under a decoded key.
pub fn verify_signature(key: &CoseKey, msg: &[u8], sig: &[u8]) -> (r: bool)
    ensures
        r == signature_valid(key@, msg@, sig@),
{
    match key {
        CoseKey::Es256 { x, y } => {
            let mut point: Vec<u8> = vec![4u8];
            append_bytes(&mut point, x.as_slice());
            append_bytes(&mut point, y.as_slice());
            assert(point@ =~= sec1_point(x@, y@));
            es256_verify(point.as_slice(), msg, sig)
        },
        CoseKey::Ed25519 { x } => ed25519_verify(x.as_slice(), msg, sig),
    }
}

} // verus!
