//! Ed25519 signature checks, computed by the `ed25519-dalek` crate.
use vstd::prelude::*;
use ed25519_dalek::{Signature, Verifier, VerifyingKey};

verus! {

/// Whether the 32 bytes `pk` decode to an Ed25519 public key, as
/// `ed25519_dalek::VerifyingKey::from_bytes` decides it.
pub uninterp spec fn ed25519_key_valid(pk: Seq<u8>) -> bool;

/// Whether `sig` is a valid Ed25519 signature of `msg` under key `pk`, as
/// `ed25519_dalek::VerifyingKey::verify` decides it.
pub uninterp spec fn ed25519_verifies(pk: Seq<u8>, msg: Seq<u8>, sig: Seq<u8>) -> bool;

/// The outcome of an Ed25519 check.
#[derive(Clone, Copy, Debug, PartialEq, Eq, Structural)]
pub enum Ed25519Check {
    /// The signature verifies.
    Valid,
    /// The public key does not decode.
    InvalidKey,
    /// The signature does not verify.
    InvalidSignature,
}

/// Decodes `pk` with `VerifyingKey::from_bytes` and checks `sig` (read with
/// `Signature::from_bytes`) on `msg` with `Verifier::verify`. Whether each
/// step succeeds is named, not stated.
#[verifier::external_body]
pub(crate) fn ed25519_check(pk: &[u8; 32], msg: &[u8], sig: &[u8; 64]) -> (r: Ed25519Check)
    ensures
        (r == Ed25519Check::InvalidKey) <==> !ed25519_key_valid(pk@),
        (r == Ed25519Check::Valid) <==> (ed25519_key_valid(pk@) && ed25519_verifies(pk@, msg@, sig@)),
{
    let key = match VerifyingKey::from_bytes(pk) {
        Ok(k) => k,
        Err(_) => return Ed25519Check::InvalidKey,
    };
    match key.verify(msg, &Signature::from_bytes(sig)) {
        Ok(()) => Ed25519Check::Valid,
        Err(_) => Ed25519Check::InvalidSignature,
    }
}

} // verus!
