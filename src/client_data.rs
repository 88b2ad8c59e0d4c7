//! Parsing and validation of the client data JSON a browser produces for a
//! ceremony.
use vstd::prelude::*;
use crate::codec::{base64url_decode, base64url_decode_of, constant_time_eq};
use crate::error::WebAuthnError;
use crate::structured::{json_lookup, json_lookup_of, JsonLookup, JsonLookupView};

verus! {

/// Ceremony type of a registration.
pub const TYPE_CREATE: &'static str = "webauthn.create";
/// Ceremony type of a login.
pub const TYPE_GET: &'static str = "webauthn.get";

/// The fields of the client data that the relying party checks.
#[derive(Debug, Clone)]
pub struct ClientData {
    pub type_: String,
    pub challenge: String,
    pub origin: String,
}

pub struct ClientDataView {
    pub type_: Seq<char>,
    pub challenge: Seq<char>,
    pub origin: Seq<char>,
}

impl View for ClientData {
    type V = ClientDataView;

    open spec fn view(&self) -> ClientDataView {
        ClientDataView { type_: self.type_@, challenge: self.challenge@, origin: self.origin@ }
    }
}

/// What the client data JSON decodes to: a JSON object whose "type",
/// "challenge" and "origin" members are strings.
pub open spec fn client_data_spec(doc: Seq<u8>) -> Result<ClientDataView, WebAuthnError> {
    let t = json_lookup_of(doc, "type"@);
    let c = json_lookup_of(doc, "challenge"@);
    let o = json_lookup_of(doc, "origin"@);
    if (t is Text) && (c is Text) && (o is Text) {
        Ok(ClientDataView { type_: t->Text_0, challenge: c->Text_0, origin: o->Text_0 })
    } else {
        Err(WebAuthnError::MalformedInput)
    }
}

/// The outcome of checking parsed client data, in order: ceremony type,
/// challenge, origin.
pub open spec fn check_client_data_spec(
    cd: ClientDataView,
    expected_type: Seq<char>,
    expected_origin: Seq<char>,
    expected_challenge: Seq<u8>,
) -> Result<(), WebAuthnError> {
    if cd.type_ != expected_type {
        Err(WebAuthnError::TypeMismatch)
    } else if base64url_decode_of(cd.challenge) != Some(expected_challenge) {
        Err(WebAuthnError::ChallengeMismatch)
    } else if cd.origin != expected_origin {
        Err(WebAuthnError::OriginMismatch)
    } else {
        Ok(())
    }
}

/// The outcome of validating client data JSON bytes.
pub open spec fn validate_client_data_spec(
    doc: Seq<u8>,
    expected_type: Seq<char>,
    expected_origin: Seq<char>,
    expected_challenge: Seq<u8>,
) -> Result<(), WebAuthnError> {
    match client_data_spec(doc) {
        Err(e) => Err(e),
        Ok(cd) => check_client_data_spec(cd, expected_type, expected_origin, expected_challenge),
    }
}

fn json_text(doc: &[u8], key: &str) -> (r: Option<String>)
    ensures
        r.is_some() == (json_lookup_of(doc@, key@) is Text),
        r.is_some() ==> r.unwrap()@ == json_lookup_of(doc@, key@)->Text_0,
{
    match json_lookup(doc, key) {
        JsonLookup::Text(t) => Some(t),
        _ => None,
    }
}

fn str_eq(a: &str, b: &str) -> (r: bool)
    ensures
        r == (a@ == b@),
{
    a.to_owned() == b.to_owned()
}

impl ClientData {
    /// Parses client data JSON bytes.
    pub fn parse(doc: &[u8]) -> (r: Result<ClientData, WebAuthnError>)
        ensures
            match r {
                Ok(cd) => client_data_spec(doc@) == Ok::<_, WebAuthnError>(cd@),
                Err(e) => client_data_spec(doc@) == Err::<ClientDataView, _>(e),
            },
    {
        proof {
            reveal_strlit("type");
            reveal_strlit("challenge");
            reveal_strlit("origin");
        }
        let t = json_text(doc, "type");
        let c = json_text(doc, "challenge");
        let o = json_text(doc, "origin");
        match (t, c, o) {
            (Some(type_), Some(challenge), Some(origin)) => Ok(ClientData { type_, challenge, origin }),
            _ => Err(WebAuthnError::MalformedInput),
        }
    }

    /// Checks the ceremony type, the challenge (decoded from base64url and
    /// compared in constant time) and the origin, in that order.
    pub fn check(
        &self,
        expected_type: &str,
        expected_origin: &str,
        expected_challenge: &[u8],
    ) -> (r: Result<(), WebAuthnError>)
        ensures
            r == check_client_data_spec(self@, expected_type@, expected_origin@, expected_challenge@),
    {
        if !str_eq(self.type_.as_str(), expected_type) {
            return Err(WebAuthnError::TypeMismatch);
        }
        let matches = match base64url_decode(self.challenge.as_str()) {
            Some(b) => constant_time_eq(b.as_slice(), expected_challenge),
            None => false,
        };
        if !matches {
            return Err(WebAuthnError::ChallengeMismatch);
        }
        if !str_eq(self.origin.as_str(), expected_origin) {
            return Err(WebAuthnError::OriginMismatch);
        }
        Ok(())
    }
}

/// Parses client data JSON and checks it against the expected ceremony type,
/// origin and challenge.
pub fn validate_client_data(
    doc: &[u8],
    expected_type: &str,
    expected_origin: &str,
    expected_challenge: &[u8],
) -> (r: Result<(), WebAuthnError>)
    ensures
        r == validate_client_data_spec(doc@, expected_type@, expected_origin@, expected_challenge@),
{
    match ClientData::parse(doc) {
        Err(e) => Err(e),
        Ok(cd) => cd.check(expected_type, expected_origin, expected_challenge),
    }
}

/// Client data that names another origin fails with `OriginMismatch` even
/// when its type and challenge are right.
pub proof fn lemma_foreign_origin_rejected(
    cd: ClientDataView,
    expected_type: Seq<char>,
    expected_origin: Seq<char>,
    expected_challenge: Seq<u8>,
)
    requires
        cd.type_ == expected_type,
        base64url_decode_of(cd.challenge) == Some(expected_challenge),
        cd.origin != expected_origin,
    ensures
        check_client_data_spec(cd, expected_type, expected_origin, expected_challenge)
            == Err::<(), _>(WebAuthnError::OriginMismatch),
{
}

} // verus!
