use vstd::prelude::*;

verus! {

/// The kinds of failure a ceremony can end in.
#[derive(Debug, Clone, Copy, PartialEq, Eq, Structural)]
pub enum WebAuthnError {
    /// Structurally invalid binary, JSON, CBOR or base64url input.
    MalformedInput,
    /// No challenge is pending for the user.
    ChallengeNotFound,
    /// The pending challenge outlived its time to live.
    ChallengeExpired,
    /// The presented challenge differs from the pending one.
    ChallengeMismatch,
    /// The client data names another ceremony type.
    TypeMismatch,
    /// The client data or authenticator data is bound to another relying party.
    OriginMismatch,
    /// Unknown COSE key type or algorithm, or unknown attestation format.
    UnsupportedAlgorithm,
    /// The assertion signature does not verify.
    SignatureInvalid,
    /// The signature counter did not increase.
    CounterReplay,
    /// No stored credential matches the user and credential ID.
    UnknownCredential,
    /// A required authenticator flag is absent.
    PolicyViolation,
}

} // verus!
