//! Content-addressed references handed to the credential issuer in place of
//! the raw campaign and proof ids.
use vstd::prelude::*;
use soroban_sdk::{Bytes, Env};
use crate::contract::Issuance;

verus! {

#[verifier::external_type_specification]
#[verifier::external_body]
pub struct ExEnv(Env);

/// The SHA-256 digest of the UTF-8 encoding of `text`.
pub uninterp spec fn sha256_of(text: Seq<char>) -> Seq<u8>;

/// Relies on soroban_sdk's `Crypto::sha256` (with `Bytes::from_slice` on the
/// text's UTF-8 bytes): the 32-byte SHA-256 digest, which depends on the
/// bytes alone. Like every host function, it aborts the call when the host's
/// resource budget runs out.
#[verifier::external_body]
fn sha256_text(env: &Env, text: &str) -> (r: [u8; 32])
    ensures
        r@ == sha256_of(text@),
{
    env.crypto().sha256(&Bytes::from_slice(env, text.as_bytes())).to_array()
}

/// A request to the credential issuer: the digests of the campaign and
/// proof ids, the proof's metadata, and the recipient.
#[derive(Clone, Debug)]
pub struct CredentialRequest {
    pub campaign_ref: [u8; 32],
    pub proof_ref: [u8; 32],
    pub uri: String,
    pub description: String,
    pub recipient: String,
}

/// Turns a validation's issuance into a request to the credential issuer,
/// with the ids replaced by their SHA-256 digests.
pub fn credential_request(env: &Env, issuance: &Issuance) -> (r: CredentialRequest)
    ensures
        r.campaign_ref@ == sha256_of(issuance.campaign_id@),
        r.proof_ref@ == sha256_of(issuance.proof_id@),
        r.uri == issuance.uri,
        r.description == issuance.description,
        r.recipient == issuance.recipient,
{
    CredentialRequest {
        campaign_ref: sha256_text(env, issuance.campaign_id.as_str()),
        proof_ref: sha256_text(env, issuance.proof_id.as_str()),
        uri: issuance.uri.clone(),
        description: issuance.description.clone(),
        recipient: issuance.recipient.clone(),
    }
}

} // verus!
