//! The relying party: issues challenges, registers credentials from
//! attestations, and verifies login assertions.
use vstd::prelude::*;
use vstd::utf8::encode_utf8;
use crate::authdata::{auth_data_spec, copy_range, DecodedAuthData};
use crate::challenge::{consume_spec, take_live_spec, Challenge, ChallengeStore, ChallengeView};
use crate::client_data::{validate_client_data, validate_client_data_spec, TYPE_CREATE, TYPE_GET};
use crate::codec::{base64url_decode, base64url_decode_of, constant_time_eq, sha256, sha256_of};
use crate::cose::{append_bytes, signature_valid, verify_signature, cose_key_spec, CoseKey, CoseKeyView};
use crate::error::WebAuthnError;
use crate::structured::{cbor_lookup, cbor_lookup_of, CborKey, CborKeyView, CborLookup};

verus! {

/// Number of random bytes in an issued challenge.
pub const CHALLENGE_SIZE_BYTES: usize = 32;

/// Default time to live of a challenge, in seconds.
pub const DEFAULT_CHALLENGE_TTL: u64 = 300;

/// The attestation format that carries no attestation statement.
pub const FMT_NONE: &'static str = "none";

/// Relies on rand's `random`, drawn from the thread-local generator; nothing
/// is known of the value.
pub assume_specification<T>[ rand::random::<T> ]() -> (r: T)
    where
        rand::distributions::Standard: rand::distributions::Distribution<T>,
;

/// A registered authenticator of a user.
#[derive(Debug)]
pub struct Credential {
    pub id: Vec<u8>,
    pub username: String,
    pub public_key: CoseKey,
    pub counter: u32,
}

pub struct CredentialView {
    pub id: Seq<u8>,
    pub username: Seq<char>,
    pub public_key: CoseKeyView,
    pub counter: nat,
}

impl View for Credential {
    type V = CredentialView;

    open spec fn view(&self) -> CredentialView {
        CredentialView {
            id: self.id@,
            username: self.username@,
            public_key: self.public_key@,
            counter: self.counter as nat,
        }
    }
}

fn copy_key(k: &CoseKey) -> (r: CoseKey)
    ensures
        r@ == k@,
{
    match k {
        CoseKey::Es256 { x, y } => {
            assert(x@.subrange(0, x@.len() as int) =~= x@);
            assert(y@.subrange(0, y@.len() as int) =~= y@);
            CoseKey::Es256 {
            x: copy_range(x.as_slice(), 0, x.len()),
            y: copy_range(y.as_slice(), 0, y.len()),
            }
        },
        CoseKey::Ed25519 { x } => {
            assert(x@.subrange(0, x@.len() as int) =~= x@);
            CoseKey::Ed25519 { x: copy_range(x.as_slice(), 0, x.len()) }
        },
    }
}

impl Credential {
    /// A copy of this credential.
    pub fn duplicate(&self) -> (r: Credential)
        ensures
            r@ == self@,
    {
        assert(self.id@.subrange(0, self.id@.len() as int) =~= self.id@);
        Credential {
            id: copy_range(self.id.as_slice(), 0, self.id.len()),
            username: self.username.clone(),
            public_key: copy_key(&self.public_key),
            counter: self.counter,
        }
    }
}

/// The base64url payloads of a registration ceremony.
#[derive(Debug, Clone)]
pub struct CredentialsResponse {
    pub attestation_object: String,
    pub client_data_json: String,
}

/// A registration request as the transport layer hands it over.
#[derive(Debug, Clone)]
pub struct RegisterRequest {
    pub id: String,
    pub raw_id: String,
    pub response: CredentialsResponse,
    pub type_: String,
}

/// The base64url payloads of a login ceremony.
#[derive(Debug, Clone)]
pub struct AuthenticatorAssertionResponse {
    pub authenticator_data: String,
    pub client_data_json: String,
    pub signature: String,
}

/// A login request as the transport layer hands it over.
#[derive(Debug, Clone)]
pub struct LoginRequest {
    pub credential_id: String,
    pub response: AuthenticatorAssertionResponse,
}

/// The decoded attestation object: its format and authenticator data.
#[derive(Debug, Clone)]
pub struct Attestation {
    pub fmt: String,
    pub auth_data: Vec<u8>,
}

pub struct AttestationView {
    pub fmt: Seq<char>,
    pub auth_data: Seq<u8>,
}

impl View for Attestation {
    type V = AttestationView;

    open spec fn view(&self) -> AttestationView {
        AttestationView { fmt: self.fmt@, auth_data: self.auth_data@ }
    }
}

/// What an attestation object decodes to: a CBOR map with a text "fmt" and
/// a byte-string "authData".
pub open spec fn attestation_spec(doc: Seq<u8>) -> Result<AttestationView, WebAuthnError> {
    let f = cbor_lookup_of(doc, CborKeyView::Text("fmt"@));
    let a = cbor_lookup_of(doc, CborKeyView::Text("authData"@));
    if (f is Text) && (a is Bytes) {
        Ok(AttestationView { fmt: f->Text_0, auth_data: a->Bytes_0 })
    } else {
        Err(WebAuthnError::MalformedInput)
    }
}

impl Attestation {
    /// Decodes an attestation object.
    pub fn decode(doc: &[u8]) -> (r: Result<Attestation, WebAuthnError>)
        ensures
            match r {
                Ok(a) => attestation_spec(doc@) == Ok::<_, WebAuthnError>(a@),
                Err(e) => attestation_spec(doc@) == Err::<AttestationView, _>(e),
            },
    {
        proof {
            reveal_strlit("fmt");
            reveal_strlit("authData");
        }
        let f = cbor_lookup(doc, &CborKey::Text("fmt".to_owned()));
        let a = cbor_lookup(doc, &CborKey::Text("authData".to_owned()));
        match (f, a) {
            (CborLookup::Text(fmt), CborLookup::Bytes(auth_data)) => Ok(Attestation { fmt, auth_data }),
            _ => Err(WebAuthnError::MalformedInput),
        }
    }
}

/// The key and counter that a registration yields from a decoded attestation:
/// the authenticator data must carry attested credential data, be bound to
/// the relying party, come in the "none" format, and hold a supported key.
pub open spec fn registered_key_spec(att: AttestationView, rp_hash: Seq<u8>) -> Result<
    (CoseKeyView, nat),
    WebAuthnError,
> {
    match auth_data_spec(att.auth_data) {
        Err(e) => Err(e),
        Ok(d) => if !d.attested_credential_data_included {
            Err(WebAuthnError::MalformedInput)
        } else if d.rpid_hash != rp_hash {
            Err(WebAuthnError::OriginMismatch)
        } else if att.fmt != "none"@ {
            Err(WebAuthnError::UnsupportedAlgorithm)
        } else {
            match cose_key_spec(d.attested_credential_data->Some_0.credential_public_key) {
                Err(e) => Err(e),
                Ok(k) => Ok((k, d.counter)),
            }
        },
    }
}

/// Whether a presented counter passes the anti-replay check against the
/// stored one: zero on either side disables the check; otherwise it must
/// increase.
pub open spec fn counter_accepted(stored: nat, presented: nat) -> bool {
    stored == 0 || presented == 0 || presented > stored
}

/// The anti-replay check on signature counters.
pub fn check_counter(stored: u32, presented: u32) -> (r: Result<(), WebAuthnError>)
    ensures
        r is Ok <==> counter_accepted(stored as nat, presented as nat),
        r is Err ==> r == Err::<(), _>(WebAuthnError::CounterReplay),
{
    if stored != 0 && presented != 0 && presented <= stored {
        Err(WebAuthnError::CounterReplay)
    } else {
        Ok(())
    }
}

/// The new counter that a login assertion yields for a stored credential:
/// the authenticator data must be bound to the relying party, show user
/// presence (and verification when required), carry a valid signature over
/// `authData || SHA-256(clientDataJSON)`, and pass the counter check. The
/// counter to store is the presented one when it is greater, else the stored
/// one is kept.
pub open spec fn assertion_spec(
    cred: CredentialView,
    auth: Seq<u8>,
    cdj: Seq<u8>,
    sig: Seq<u8>,
    rp_hash: Seq<u8>,
    require_uv: bool,
) -> Result<nat, WebAuthnError> {
    match auth_data_spec(auth) {
        Err(e) => Err(e),
        Ok(d) => if d.rpid_hash != rp_hash {
            Err(WebAuthnError::OriginMismatch)
        } else if !d.user_present || (require_uv && !d.user_verified) {
            Err(WebAuthnError::PolicyViolation)
        } else if !signature_valid(cred.public_key, auth + sha256_of(cdj), sig) {
            Err(WebAuthnError::SignatureInvalid)
        } else if !counter_accepted(cred.counter, d.counter) {
            Err(WebAuthnError::CounterReplay)
        } else {
            Ok(stored_counter_after(cred.counter, d.counter))
        },
    }
}

/// The counter kept after an accepted login: the store only ever increases it.
pub open spec fn stored_counter_after(stored: nat, presented: nat) -> nat {
    if presented > stored {
        presented
    } else {
        stored
    }
}

/// Index of the first credential of `username` with ID `id`.
pub open spec fn find_credential(s: Seq<CredentialView>, username: Seq<char>, id: Seq<u8>) -> Option<int>
    decreases s.len(),
{
    if s.len() == 0 {
        None
    } else {
        match find_credential(s.drop_last(), username, id) {
            Some(i) => Some(i),
            None => if s.last().username == username && s.last().id == id {
                Some(s.len() - 1)
            } else {
                None
            },
        }
    }
}

/// The credentials of `username`, in registration order.
pub open spec fn credentials_of(s: Seq<CredentialView>, username: Seq<char>) -> Seq<CredentialView>
    decreases s.len(),
{
    if s.len() == 0 {
        Seq::empty()
    } else {
        let rest = credentials_of(s.drop_last(), username);
        if s.last().username == username {
            rest.push(s.last())
        } else {
            rest
        }
    }
}

/// The decoded inputs of a registration: raw ID, client data JSON, and the
/// decoded attestation object. The base64url fields and the attestation
/// object's CBOR are decoded before any challenge is consumed.
pub open spec fn registration_inputs_spec(
    raw_id: Seq<char>,
    cdj: Seq<char>,
    att: Seq<char>,
) -> Result<(Seq<u8>, Seq<u8>, AttestationView), WebAuthnError> {
    let r = base64url_decode_of(raw_id);
    let c = base64url_decode_of(cdj);
    let a = base64url_decode_of(att);
    if r.is_none() || c.is_none() || a.is_none() {
        Err(WebAuthnError::MalformedInput)
    } else {
        match attestation_spec(a.unwrap()) {
            Err(e) => Err(e),
            Ok(at) => Ok((r.unwrap(), c.unwrap(), at)),
        }
    }
}

/// The state of the relying party: its configuration, the pending challenges
/// and the registered credentials.
pub struct WebAuthn {
    relying_party: String,
    origin: String,
    require_user_verification: bool,
    challenges: ChallengeStore,
    credentials: Vec<Credential>,
}

/// The outcome of a registration: the credential it yields, or the first
/// failing step.
pub open spec fn registration_spec(
    pending: Map<Seq<char>, ChallengeView>,
    ttl: nat,
    rp: Seq<char>,
    origin: Seq<char>,
    username: Seq<char>,
    raw_id: Seq<char>,
    cdj: Seq<char>,
    att: Seq<char>,
    now: nat,
) -> Result<CredentialView, WebAuthnError> {
    match registration_inputs_spec(raw_id, cdj, att) {
        Err(e) => Err(e),
        Ok((id, c, at)) => match take_live_spec(pending, ttl, username, now) {
            Err(e) => Err(e),
            Ok(ch) => match validate_client_data_spec(c, "webauthn.create"@, origin, ch.bytes) {
                Err(e) => Err(e),
                Ok(_) => match registered_key_spec(at, sha256_of(encode_utf8(rp))) {
                    Err(e) => Err(e),
                    Ok((k, ctr)) => Ok(CredentialView { id, username, public_key: k, counter: ctr }),
                },
            },
        },
    }
}

/// The decoded inputs of a login: the index of the stored credential, the
/// authenticator data, the client data JSON, and the signature.
pub open spec fn login_inputs_spec(
    creds: Seq<CredentialView>,
    username: Seq<char>,
    credential_id: Seq<char>,
    auth: Seq<char>,
    cdj: Seq<char>,
    sig: Seq<char>,
) -> Result<(int, Seq<u8>, Seq<u8>, Seq<u8>), WebAuthnError> {
    let id = base64url_decode_of(credential_id);
    if id.is_none() {
        Err(WebAuthnError::MalformedInput)
    } else {
        match find_credential(creds, username, id.unwrap()) {
            None => Err(WebAuthnError::UnknownCredential),
            Some(i) => {
                let a = base64url_decode_of(auth);
                let c = base64url_decode_of(cdj);
                let s = base64url_decode_of(sig);
                if a.is_none() || c.is_none() || s.is_none() {
                    Err(WebAuthnError::MalformedInput)
                } else {
                    Ok((i, a.unwrap(), c.unwrap(), s.unwrap()))
                }
            },
        }
    }
}

/// The outcome of a login: the index of the credential and its new counter,
/// or the first failing step.
pub open spec fn login_spec(
    creds: Seq<CredentialView>,
    pending: Map<Seq<char>, ChallengeView>,
    ttl: nat,
    rp: Seq<char>,
    origin: Seq<char>,
    require_uv: bool,
    username: Seq<char>,
    credential_id: Seq<char>,
    auth: Seq<char>,
    cdj: Seq<char>,
    sig: Seq<char>,
    now: nat,
) -> Result<(int, nat), WebAuthnError> {
    match login_inputs_spec(creds, username, credential_id, auth, cdj, sig) {
        Err(e) => Err(e),
        Ok((i, a, c, s)) => match take_live_spec(pending, ttl, username, now) {
            Err(e) => Err(e),
            Ok(ch) => match validate_client_data_spec(c, "webauthn.get"@, origin, ch.bytes) {
                Err(e) => Err(e),
                Ok(_) => match assertion_spec(creds[i], a, c, s, sha256_of(encode_utf8(rp)), require_uv) {
                    Err(e) => Err(e),
                    Ok(n) => Ok((i, n)),
                },
            },
        },
    }
}

/// A stored credential with its counter replaced.
pub open spec fn with_counter(c: CredentialView, counter: nat) -> CredentialView {
    CredentialView { counter, ..c }
}

proof fn lemma_find_prefix(s: Seq<CredentialView>, k: int, username: Seq<char>, id: Seq<u8>)
    requires
        0 <= k <= s.len(),
        find_credential(s.take(k), username, id) is Some,
    ensures
        find_credential(s, username, id) == find_credential(s.take(k), username, id),
    decreases s.len(),
{
    if k == s.len() {
        assert(s.take(k) =~= s);
    } else {
        assert(s.drop_last().take(k) =~= s.take(k));
        lemma_find_prefix(s.drop_last(), k, username, id);
    }
}

proof fn lemma_find_in_range(s: Seq<CredentialView>, username: Seq<char>, id: Seq<u8>)
    ensures
        match find_credential(s, username, id) {
            Some(i) => 0 <= i < s.len() && s[i].username == username && s[i].id == id,
            None => true,
        },
    decreases s.len(),
{
    if s.len() > 0 {
        lemma_find_in_range(s.drop_last(), username, id);
    }
}

impl WebAuthn {
    /// The pending challenge of each user.
    pub closed spec fn pending(&self) -> Map<Seq<char>, ChallengeView> {
        self.challenges.view()
    }

    /// How long a challenge stays valid.
    pub closed spec fn challenge_ttl(&self) -> nat {
        self.challenges.ttl_spec()
    }

    /// The registered credentials, in registration order.
    pub closed spec fn credentials_view(&self) -> Seq<CredentialView> {
        self.credentials@.map_values(|c: Credential| c@)
    }

    /// The relying-party identifier.
    pub closed spec fn rp_id(&self) -> Seq<char> {
        self.relying_party@
    }

    /// The origin that client data must name.
    pub closed spec fn origin_spec(&self) -> Seq<char> {
        self.origin@
    }

    /// Whether logins must show user verification.
    pub closed spec fn requires_uv(&self) -> bool {
        self.require_user_verification
    }

    pub closed spec fn wf(&self) -> bool {
        self.challenges.wf()
    }

    /// The configuration is the same in both states.
    pub open spec fn same_config(&self, other: &WebAuthn) -> bool {
        &&& self.rp_id() == other.rp_id()
        &&& self.origin_spec() == other.origin_spec()
        &&& self.requires_uv() == other.requires_uv()
        &&& self.challenge_ttl() == other.challenge_ttl()
    }

    /// A relying party with an explicit origin, challenge time to live, and
    /// user-verification policy.
    pub fn with_config(
        relying_party: String,
        origin: String,
        challenge_ttl: u64,
        require_user_verification: bool,
    ) -> (r: WebAuthn)
        ensures
            r.wf(),
            r.rp_id() == relying_party@,
            r.origin_spec() == origin@,
            r.challenge_ttl() == challenge_ttl,
            r.requires_uv() == require_user_verification,
            r.pending() == Map::<Seq<char>, ChallengeView>::empty(),
            r.credentials_view() == Seq::<CredentialView>::empty(),
    {
        let r = WebAuthn {
            relying_party,
            origin,
            require_user_verification,
            challenges: ChallengeStore::new(challenge_ttl),
            credentials: Vec::new(),
        };
        assert(r.credentials_view() =~= Seq::<CredentialView>::empty());
        r
    }

    /// A relying party for `relying_party`, whose origin is
    /// `https://<relying_party>`, with the default challenge time to live and
    /// user verification not required.
    pub fn new(relying_party: String) -> (r: WebAuthn)
        ensures
            r.wf(),
            r.rp_id() == relying_party@,
            r.origin_spec() == "https://"@ + relying_party@,
            r.challenge_ttl() == DEFAULT_CHALLENGE_TTL,
            !r.requires_uv(),
            r.pending() == Map::<Seq<char>, ChallengeView>::empty(),
            r.credentials_view() == Seq::<CredentialView>::empty(),
    {
        let mut origin = "https://".to_owned();
        origin.append(relying_party.as_str());
        proof {
            reveal_strlit("https://");
        }
        WebAuthn::with_config(relying_party, origin, DEFAULT_CHALLENGE_TTL, false)
    }

    /// The relying-party identifier.
    pub fn relying_party(&self) -> (r: String)
        ensures
            r@ == self.rp_id(),
    {
        self.relying_party.clone()
    }

    /// The origin that client data must name.
    pub fn origin(&self) -> (r: String)
        ensures
            r@ == self.origin_spec(),
    {
        self.origin.clone()
    }

    /// Makes `bytes`, issued at `now`, the sole pending challenge of `username`.
    pub fn issue_challenge(&mut self, username: String, bytes: Vec<u8>, now: u64) -> (r: Challenge)
        requires
            old(self).wf(),
        ensures
            final(self).wf(),
            final(self).same_config(old(self)),
            r@ == (ChallengeView { bytes: bytes@, issued_at: now as nat }),
            final(self).pending() == old(self).pending().insert(username@, r@),
            final(self).credentials_view() == old(self).credentials_view(),
    {
        assert(bytes@.subrange(0, bytes@.len() as int) =~= bytes@);
        let kept = Challenge { bytes: copy_range(bytes.as_slice(), 0, bytes.len()), issued_at: now };
        self.challenges.put(username, Challenge { bytes, issued_at: now });
        kept
    }

    /// Issues a fresh challenge of random bytes to `username` at time `now`,
    /// replacing any challenge pending for that user.
    pub fn generate_challenge(&mut self, username: String, now: u64) -> (r: Challenge)
        requires
            old(self).wf(),
        ensures
            final(self).wf(),
            final(self).same_config(old(self)),
            r.bytes@.len() == CHALLENGE_SIZE_BYTES,
            r.issued_at == now,
            final(self).pending() == old(self).pending().insert(username@, r@),
            final(self).credentials_view() == old(self).credentials_view(),
    {
        let mut bytes: Vec<u8> = Vec::new();
        let mut i: usize = 0;
        while i < CHALLENGE_SIZE_BYTES
            invariant
                i <= CHALLENGE_SIZE_BYTES,
                bytes@.len() == i,
            decreases CHALLENGE_SIZE_BYTES - i,
        {
            let b: u8 = rand::random::<u8>();
            bytes.push(b);
            i = i + 1;
        }
        self.issue_challenge(username, bytes, now)
    }

    /// Removes the pending challenge of `username` and checks it against the
    /// presented bytes: fails with `ChallengeNotFound`, `ChallengeExpired` or
    /// `ChallengeMismatch`.
    pub fn consume_challenge(&mut self, username: &String, presented: &[u8], now: u64) -> (r: Result<(), WebAuthnError>)
        requires
            old(self).wf(),
        ensures
            final(self).wf(),
            final(self).same_config(old(self)),
            r == consume_spec(old(self).pending(), old(self).challenge_ttl(), username@, presented@, now as nat),
            final(self).pending() == old(self).pending().remove(username@),
            final(self).credentials_view() == old(self).credentials_view(),
    {
        self.challenges.consume(username, presented, now)
    }

    /// Copies of the credentials of `username`, in registration order.
    pub fn get_credentials(&self, username: String) -> (r: Vec<Credential>)
        ensures
            r@.map_values(|c: Credential| c@) == credentials_of(self.credentials_view(), username@),
    {
        let ghost all = self.credentials_view();
        let mut r: Vec<Credential> = Vec::new();
        let mut i: usize = 0;
        while i < self.credentials.len()
            invariant
                i <= self.credentials@.len(),
                all == self.credentials_view(),
                r@.map_values(|c: Credential| c@) == credentials_of(all.take(i as int), username@),
            decreases self.credentials@.len() - i,
        {
            assert(all.take(i + 1).drop_last() =~= all.take(i as int));
            if self.credentials[i].username == username {
                let c = self.credentials[i].duplicate();
                let ghost before = r@;
                r.push(c);
                assert(r@.map_values(|c: Credential| c@) =~= before.map_values(|c: Credential| c@).push(c@));
            }
            i = i + 1;
        }
        assert(all.take(all.len() as int) =~= all);
        r
    }

    fn find_credential_index(&self, username: &String, id: &[u8]) -> (r: Option<usize>)
        ensures
            match r {
                Some(i) => find_credential(self.credentials_view(), username@, id@) == Some(i as int),
                None => find_credential(self.credentials_view(), username@, id@) is None,
            },
    {
        let ghost all = self.credentials_view();
        let mut i: usize = 0;
        while i < self.credentials.len()
            invariant
                i <= self.credentials@.len(),
                all == self.credentials_view(),
                find_credential(all.take(i as int), username@, id@) is None,
            decreases self.credentials@.len() - i,
        {
            assert(all.take(i + 1).drop_last() =~= all.take(i as int));
            if self.credentials[i].username == *username && constant_time_eq(self.credentials[i].id.as_slice(), id) {
                proof {
                    lemma_find_prefix(all, i + 1, username@, id@);
                }
                return Some(i);
            }
            i = i + 1;
        }
        assert(all.take(all.len() as int) =~= all);
        None
    }

    /// Verifies a registration ceremony for `username` at time `now` and, on
    /// success, stores the new credential and returns a copy of it. The
    /// pending challenge is consumed once the request's fields and its
    /// attestation object decode, whether or not the later steps pass;
    /// nothing else changes on failure.
    pub fn register(&mut self, username: &String, req: &RegisterRequest, now: u64) -> (r: Result<Credential, WebAuthnError>)
        requires
            old(self).wf(),
        ensures
            final(self).wf(),
            final(self).same_config(old(self)),
            registration_inputs_spec(req.raw_id@, req.response.client_data_json@, req.response.attestation_object@) is Err
                ==> final(self).pending() == old(self).pending(),
            registration_inputs_spec(req.raw_id@, req.response.client_data_json@, req.response.attestation_object@) is Ok
                ==> final(self).pending() == old(self).pending().remove(username@),
            match registration_spec(
                old(self).pending(),
                old(self).challenge_ttl(),
                old(self).rp_id(),
                old(self).origin_spec(),
                username@,
                req.raw_id@,
                req.response.client_data_json@,
                req.response.attestation_object@,
                now as nat,
            ) {
                Ok(c) => r is Ok && r->Ok_0@ == c
                    && final(self).credentials_view() == old(self).credentials_view().push(c),
                Err(e) => r == Err::<Credential, _>(e)
                    && final(self).credentials_view() == old(self).credentials_view(),
            },
    {
        proof {
            reveal_strlit("webauthn.create");
            reveal_strlit("none");
        }
        let raw_id = base64url_decode(req.raw_id.as_str());
        let cdj = base64url_decode(req.response.client_data_json.as_str());
        let att = base64url_decode(req.response.attestation_object.as_str());
        let (raw_id, cdj, att) = match (raw_id, cdj, att) {
            (Some(r), Some(c), Some(a)) => (r, c, a),
            _ => {
                return Err(WebAuthnError::MalformedInput);
            },
        };
        let a = match Attestation::decode(att.as_slice()) {
            Ok(a) => a,
            Err(e) => {
                return Err(e);
            },
        };
        let ch = match self.challenges.take_live(username, now) {
            Ok(c) => c,
            Err(e) => {
                return Err(e);
            },
        };
        match validate_client_data(cdj.as_slice(), TYPE_CREATE, self.origin.as_str(), ch.bytes.as_slice()) {
            Ok(_) => {},
            Err(e) => {
                return Err(e);
            },
        }
        let d = match DecodedAuthData::parse(a.auth_data.as_slice()) {
            Ok(d) => d,
            Err(e) => {
                return Err(e);
            },
        };
        if !d.attested_credential_data_included {
            return Err(WebAuthnError::MalformedInput);
        }
        let rp_hash = sha256(self.relying_party.as_str().as_bytes());
        if !constant_time_eq(d.rpid_hash.as_slice(), rp_hash.as_slice()) {
            return Err(WebAuthnError::OriginMismatch);
        }
        if a.fmt.as_str().to_owned() != FMT_NONE.to_owned() {
            return Err(WebAuthnError::UnsupportedAlgorithm);
        }
        let acd = match d.attested_credential_data {
            Some(acd) => acd,
            None => {
                return Err(WebAuthnError::MalformedInput);
            },
        };
        let key = match CoseKey::decode(acd.credential_public_key.as_slice()) {
            Ok(k) => k,
            Err(e) => {
                return Err(e);
            },
        };
        let cred = Credential { id: raw_id, username: username.clone(), public_key: key, counter: d.counter };
        let out = cred.duplicate();
        self.credentials.push(cred);
        assert(self.credentials_view() =~= old(self).credentials_view().push(out@));
        Ok(out)
    }

    /// Verifies a login assertion of `username` at time `now` and, on success,
    /// raises the credential's stored counter to the presented one when that
    /// is greater. The pending
    /// challenge is consumed once the credential is found and the request's
    /// fields decode; nothing else changes on failure.
    pub fn verify(&mut self, username: &String, req: &LoginRequest, now: u64) -> (r: Result<(), WebAuthnError>)
        requires
            old(self).wf(),
        ensures
            final(self).wf(),
            final(self).same_config(old(self)),
            login_inputs_spec(
                old(self).credentials_view(),
                username@,
                req.credential_id@,
                req.response.authenticator_data@,
                req.response.client_data_json@,
                req.response.signature@,
            ) is Err ==> final(self).pending() == old(self).pending(),
            login_inputs_spec(
                old(self).credentials_view(),
                username@,
                req.credential_id@,
                req.response.authenticator_data@,
                req.response.client_data_json@,
                req.response.signature@,
            ) is Ok ==> final(self).pending() == old(self).pending().remove(username@),
            match login_spec(
                old(self).credentials_view(),
                old(self).pending(),
                old(self).challenge_ttl(),
                old(self).rp_id(),
                old(self).origin_spec(),
                old(self).requires_uv(),
                username@,
                req.credential_id@,
                req.response.authenticator_data@,
                req.response.client_data_json@,
                req.response.signature@,
                now as nat,
            ) {
                Ok((i, n)) => r is Ok && final(self).credentials_view() == old(self).credentials_view().update(
                    i,
                    with_counter(old(self).credentials_view()[i], n),
                ),
                Err(e) => r == Err::<(), _>(e) && final(self).credentials_view() == old(self).credentials_view(),
            },
    {
        proof {
            reveal_strlit("webauthn.get");
        }
        let cid = match base64url_decode(req.credential_id.as_str()) {
            Some(c) => c,
            None => {
                return Err(WebAuthnError::MalformedInput);
            },
        };
        let idx = match self.find_credential_index(username, cid.as_slice()) {
            Some(i) => i,
            None => {
                return Err(WebAuthnError::UnknownCredential);
            },
        };
        proof {
            lemma_find_in_range(self.credentials_view(), username@, cid@);
        }
        let auth = base64url_decode(req.response.authenticator_data.as_str());
        let cdj = base64url_decode(req.response.client_data_json.as_str());
        let sig = base64url_decode(req.response.signature.as_str());
        let (auth, cdj, sig) = match (auth, cdj, sig) {
            (Some(a), Some(c), Some(s)) => (a, c, s),
            _ => {
                return Err(WebAuthnError::MalformedInput);
            },
        };
        let ch = match self.challenges.take_live(username, now) {
            Ok(c) => c,
            Err(e) => {
                return Err(e);
            },
        };
        match validate_client_data(cdj.as_slice(), TYPE_GET, self.origin.as_str(), ch.bytes.as_slice()) {
            Ok(_) => {},
            Err(e) => {
                return Err(e);
            },
        }
        let d = match DecodedAuthData::parse(auth.as_slice()) {
            Ok(d) => d,
            Err(e) => {
                return Err(e);
            },
        };
        let rp_hash = sha256(self.relying_party.as_str().as_bytes());
        if !constant_time_eq(d.rpid_hash.as_slice(), rp_hash.as_slice()) {
            return Err(WebAuthnError::OriginMismatch);
        }
        if !d.user_present || (self.require_user_verification && !d.user_verified) {
            return Err(WebAuthnError::PolicyViolation);
        }
        let client_hash = sha256(cdj.as_slice());
        let mut msg = copy_range(auth.as_slice(), 0, auth.len());
        append_bytes(&mut msg, client_hash.as_slice());
        assert(auth@.subrange(0, auth@.len() as int) =~= auth@);
        if !verify_signature(&self.credentials[idx].public_key, msg.as_slice(), sig.as_slice()) {
            return Err(WebAuthnError::SignatureInvalid);
        }
        match check_counter(self.credentials[idx].counter, d.counter) {
            Ok(_) => {},
            Err(e) => {
                return Err(e);
            },
        }
        let ghost before = self.credentials_view();
        if d.counter > self.credentials[idx].counter {
            self.credentials[idx].counter = d.counter;
        }
        assert(self.credentials_view() =~= before.update(
            idx as int,
            with_counter(before[idx as int], stored_counter_after(before[idx as int].counter, d.counter as nat)),
        ));
        Ok(())
    }
}

/// With a nonzero stored counter, an otherwise valid assertion whose nonzero
/// counter does not exceed it fails with `CounterReplay`, and one whose
/// counter exceeds it succeeds with that counter.
pub proof fn lemma_counter_monotonic(
    cred: CredentialView,
    auth: Seq<u8>,
    cdj: Seq<u8>,
    sig: Seq<u8>,
    rp_hash: Seq<u8>,
    require_uv: bool,
)
    requires
        cred.counter != 0,
        auth_data_spec(auth) is Ok,
        auth_data_spec(auth)->Ok_0.rpid_hash == rp_hash,
        auth_data_spec(auth)->Ok_0.user_present,
        !require_uv || auth_data_spec(auth)->Ok_0.user_verified,
        signature_valid(cred.public_key, auth + sha256_of(cdj), sig),
    ensures
        ({
            let n = auth_data_spec(auth)->Ok_0.counter;
            &&& (n != 0 && n <= cred.counter) ==> assertion_spec(cred, auth, cdj, sig, rp_hash, require_uv)
                == Err::<nat, _>(WebAuthnError::CounterReplay)
            &&& n > cred.counter ==> assertion_spec(cred, auth, cdj, sig, rp_hash, require_uv)
                == Ok::<_, WebAuthnError>(n)
        }),
{
}

} // verus!
