//! Decoding of the binary authenticator data that an authenticator signs.
use vstd::prelude::*;
use crate::codec::{be_u16, be_u32, read_be_u16, read_be_u32};
use crate::error::WebAuthnError;

verus! {

/// Bytes of the fixed header: RP ID hash, flags, counter.
pub const AUTH_DATA_HEADER_LEN: usize = 37;

/// Bytes of the attested credential data before the credential ID: AAGUID
/// and the ID's length.
pub const ATTESTED_PREFIX_LEN: usize = 18;

/// The attested credential data: authenticator model, credential ID and the
/// COSE-encoded public key.
#[derive(Debug, Clone)]
pub struct AttestedCredentialData {
    pub aaguid: Vec<u8>,
    pub credentialid_length: u16,
    pub credentialid: Vec<u8>,
    /// The rest of the buffer: the COSE_Key map, then any extension data.
    pub credential_public_key: Vec<u8>,
}

pub struct AttestedCredentialDataView {
    pub aaguid: Seq<u8>,
    pub credentialid_length: nat,
    pub credentialid: Seq<u8>,
    pub credential_public_key: Seq<u8>,
}

impl View for AttestedCredentialData {
    type V = AttestedCredentialDataView;

    open spec fn view(&self) -> AttestedCredentialDataView {
        AttestedCredentialDataView {
            aaguid: self.aaguid@,
            credentialid_length: self.credentialid_length as nat,
            credentialid: self.credentialid@,
            credential_public_key: self.credential_public_key@,
        }
    }
}

/// Authenticator data as parsed from its binary form.
#[derive(Debug, Clone)]
pub struct DecodedAuthData {
    pub rpid_hash: Vec<u8>,
    pub user_present: bool,
    pub user_verified: bool,
    pub attested_credential_data_included: bool,
    pub extension_data_included: bool,
    pub counter: u32,
    pub attested_credential_data: Option<AttestedCredentialData>,
}

pub struct DecodedAuthDataView {
    pub rpid_hash: Seq<u8>,
    pub user_present: bool,
    pub user_verified: bool,
    pub attested_credential_data_included: bool,
    pub extension_data_included: bool,
    pub counter: nat,
    pub attested_credential_data: Option<AttestedCredentialDataView>,
}

impl View for DecodedAuthData {
    type V = DecodedAuthDataView;

    open spec fn view(&self) -> DecodedAuthDataView {
        DecodedAuthDataView {
            rpid_hash: self.rpid_hash@,
            user_present: self.user_present,
            user_verified: self.user_verified,
            attested_credential_data_included: self.attested_credential_data_included,
            extension_data_included: self.extension_data_included,
            counter: self.counter as nat,
            attested_credential_data: match self.attested_credential_data {
                Some(a) => Some(a@),
                None => None,
            },
        }
    }
}

/// Whether bit `k` of the flags byte is set.
pub open spec fn flag(flags: u8, k: u8) -> bool {
    flags & (1u8 << k) != 0
}

/// The attested credential data laid out in `v`, if its declared credential
/// ID length fits.
pub open spec fn attested_spec(v: Seq<u8>) -> Option<AttestedCredentialDataView> {
    if v.len() < 18 {
        None
    } else {
        let l = be_u16(v, 16);
        if 18 + l > v.len() {
            None
        } else {
            Some(
                AttestedCredentialDataView {
                    aaguid: v.subrange(0, 16),
                    credentialid_length: l as nat,
                    credentialid: v.subrange(18, 18 + l),
                    credential_public_key: v.subrange(18 + l, v.len() as int),
                },
            )
        }
    }
}

/// What authenticator data bytes decode to: the header, and the attested
/// credential data when its flag is set.
pub open spec fn auth_data_spec(v: Seq<u8>) -> Result<DecodedAuthDataView, WebAuthnError> {
    if v.len() < 37 {
        Err(WebAuthnError::MalformedInput)
    } else {
        let flags = v[32];
        let attested = flag(flags, 6);
        let acd = attested_spec(v.subrange(37, v.len() as int));
        if attested && acd.is_none() {
            Err(WebAuthnError::MalformedInput)
        } else {
            Ok(
                DecodedAuthDataView {
                    rpid_hash: v.subrange(0, 32),
                    user_present: flag(flags, 0),
                    user_verified: flag(flags, 2),
                    attested_credential_data_included: attested,
                    extension_data_included: flag(flags, 7),
                    counter: be_u32(v, 33) as nat,
                    attested_credential_data: if attested {
                        acd
                    } else {
                        None
                    },
                },
            )
        }
    }
}

/// Copies `v[from..to]` into a new vector.
pub fn copy_range(v: &[u8], from: usize, to: usize) -> (r: Vec<u8>)
    requires
        from <= to <= v@.len(),
    ensures
        r@ == v@.subrange(from as int, to as int),
{
    let mut r: Vec<u8> = Vec::new();
    let mut i: usize = from;
    while i < to
        invariant
            from <= i <= to <= v@.len(),
            r@ == v@.subrange(from as int, i as int),
        decreases to - i,
    {
        r.push(v[i]);
        assert(v@.subrange(from as int, i + 1) =~= v@.subrange(from as int, i as int).push(v@[i as int]));
        i = i + 1;
    }
    r
}

impl AttestedCredentialData {
    /// Parses the attested credential data that starts at `start` of `v`.
    pub fn parse(v: &[u8], start: usize) -> (r: Option<AttestedCredentialData>)
        requires
            start <= v@.len(),
        ensures
            match r {
                Some(a) => attested_spec(v@.subrange(start as int, v@.len() as int)) == Some(a@),
                None => attested_spec(v@.subrange(start as int, v@.len() as int)).is_none(),
            },
    {
        let ghost w = v@.subrange(start as int, v@.len() as int);
        if v.len() - start < ATTESTED_PREFIX_LEN {
            return None;
        }
        let l = read_be_u16(v, start + 16);
        assert(be_u16(v@, start + 16) == be_u16(w, 16));
        if v.len() - start - ATTESTED_PREFIX_LEN < l as usize {
            return None;
        }
        let id_end = start + ATTESTED_PREFIX_LEN + l as usize;
        let a = AttestedCredentialData {
            aaguid: copy_range(v, start, start + 16),
            credentialid_length: l,
            credentialid: copy_range(v, start + ATTESTED_PREFIX_LEN, id_end),
            credential_public_key: copy_range(v, id_end, v.len()),
        };
        assert(a@.aaguid =~= w.subrange(0, 16));
        assert(a@.credentialid =~= w.subrange(18, 18 + l));
        assert(a@.credential_public_key =~= w.subrange(18 + l, w.len() as int));
        Some(a)
    }
}

impl DecodedAuthData {
    /// Parses authenticator data. Inputs shorter than the 37-byte header, and
    /// attested credential data whose declared length overruns the buffer,
    /// are malformed.
    pub fn parse(v: &[u8]) -> (r: Result<DecodedAuthData, WebAuthnError>)
        ensures
            match r {
                Ok(d) => auth_data_spec(v@) == Ok::<_, WebAuthnError>(d@),
                Err(e) => auth_data_spec(v@) == Err::<DecodedAuthDataView, _>(e),
            },
    {
        if v.len() < AUTH_DATA_HEADER_LEN {
            return Err(WebAuthnError::MalformedInput);
        }
        let flags = v[32];
        let attested = flags & (1u8 << 6u8) != 0;
        let acd = if attested {
            let a = AttestedCredentialData::parse(v, AUTH_DATA_HEADER_LEN);
            if a.is_none() {
                return Err(WebAuthnError::MalformedInput);
            }
            a
        } else {
            None
        };
        let d = DecodedAuthData {
            rpid_hash: copy_range(v, 0, 32),
            user_present: flags & (1u8 << 0u8) != 0,
            user_verified: flags & (1u8 << 2u8) != 0,
            attested_credential_data_included: attested,
            extension_data_included: flags & (1u8 << 7u8) != 0,
            counter: read_be_u32(v, 33),
            attested_credential_data: acd,
        };
        proof {
            let s = auth_data_spec(v@);
            assert(s.is_ok());
            assert(d@.rpid_hash =~= s.unwrap().rpid_hash);
            assert(d@ == s.unwrap());
        }
        Ok(d)
    }
}

/// Parsing is total and deterministic: input shorter than the header is
/// always malformed, and two parses of the same input give the same result.
pub proof fn lemma_parse_total_and_deterministic(v: Seq<u8>, w: Seq<u8>)
    ensures
        v.len() < 37 ==> auth_data_spec(v) == Err::<DecodedAuthDataView, _>(WebAuthnError::MalformedInput),
        v == w ==> auth_data_spec(v) == auth_data_spec(w),
{
}

} // verus!
