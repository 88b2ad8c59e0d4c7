//! Relying-party core of the WebAuthn protocol: challenge issuance, decoding of
//! authenticator data and client data, registration and login verification.
pub mod authdata;
pub mod challenge;
pub mod client_data;
pub mod codec;
pub mod cose;
pub mod engine;
pub mod error;
pub mod structured;

pub use authdata::{AttestedCredentialData, DecodedAuthData};
pub use challenge::{Challenge, ChallengeStore};
pub use client_data::{validate_client_data, ClientData};
pub use codec::{decode_base64url, encode_base64url};
pub use cose::CoseKey;
pub use engine::{
    check_counter, Attestation, AuthenticatorAssertionResponse, Credential, CredentialsResponse,
    LoginRequest, RegisterRequest, WebAuthn,
};
pub use error::WebAuthnError;
