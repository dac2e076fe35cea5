//! Ed25519 signatures carried as hex text.

use ed25519_dalek::{Signature, Signer, SigningKey, VerifyingKey};
use vstd::prelude::*;
use vstd::string::StringSliceAdditionalSpecFns;
use vstd::utf8::encode_utf8;
use crate::crypto::hash::{hex_decode, hex_decoded, hex_encode, hex_lower, lemma_hex_roundtrip};

verus! {

/// The 64-byte Ed25519 signature of `message` under the 32-byte secret key `secret`.
pub uninterp spec fn ed25519_signature(secret: Seq<u8>, message: Seq<u8>) -> Seq<u8>;

/// Whether the 32 bytes `public_key` decode to a point of the curve.
pub uninterp spec fn ed25519_key_decodes(public_key: Seq<u8>) -> bool;

/// Whether `public_key` decodes to an Ed25519 point and the strict Ed25519
/// check accepts `signature` of `message` under it.
pub uninterp spec fn ed25519_verifies(public_key: Seq<u8>, message: Seq<u8>, signature: Seq<u8>) -> bool;

/// Signs with `SigningKey::sign` the key made by `SigningKey::from_bytes`
/// from `secret`; the contract claims the result is the signature of
/// `message` under `secret` and is 64 bytes long.
#[verifier::external_body]
fn ed25519_sign(secret: &[u8], message: &[u8]) -> (sig: Vec<u8>)
    requires
        secret@.len() == 32,
    ensures
        sig@ == ed25519_signature(secret@, message@),
        sig@.len() == 64,
{
    let key = SigningKey::from_bytes(&secret.try_into().unwrap());
    key.sign(message).to_bytes().to_vec()
}

/// Runs `VerifyingKey::verify_strict` on the key that
/// `VerifyingKey::from_bytes` makes of `public_key`, and is false when that
/// decoding fails; the contract names the result [`ed25519_verifies`] and
/// claims that it is false unless the key bytes decode to a curve point
/// (named [`ed25519_key_decodes`]).
#[verifier::external_body]
fn ed25519_verify_strict(public_key: &[u8], message: &[u8], signature: &[u8]) -> (ok: bool)
    requires
        public_key@.len() == 32,
        signature@.len() == 64,
    ensures
        ok == ed25519_verifies(public_key@, message@, signature@),
        ok ==> ed25519_key_decodes(public_key@),
{
    match VerifyingKey::from_bytes(&public_key.try_into().unwrap()) {
        Ok(key) => key.verify_strict(message, &Signature::from_bytes(&signature.try_into().unwrap())).is_ok(),
        Err(_) => false,
    }
}

/// Signs `data` with the Ed25519 secret key `private_key` (its 32 secret
/// bytes) and writes the signature as lowercase hex.
pub fn sign_data(private_key: &[u8; 32], data: &[u8]) -> (sig: String)
    ensures
        sig@ == hex_lower(ed25519_signature(private_key@, data@)),
        sig@.len() == 128,
{
    let raw = ed25519_sign(private_key.as_slice(), data);
    hex_encode(raw.as_slice())
}

/// What checking a hex signature against a hex public key gives: both texts
/// must be hex, of 32 and 64 bytes, the key must decode to a curve point, and
/// the strict Ed25519 check must accept.
pub open spec fn signature_accepted(public_key: Seq<u8>, signature: Seq<u8>, data: Seq<u8>) -> bool {
    match (hex_decoded(public_key), hex_decoded(signature)) {
        (Some(pk), Some(sig)) => pk.len() == 32 && sig.len() == 64 && ed25519_key_decodes(pk)
            && ed25519_verifies(pk, data, sig),
        _ => false,
    }
}

/// What [`sign_data`] writes, [`verify_signature`] reads back: for a hex
/// public key and a hex signature, the check comes down to the Ed25519 check
/// on the bytes.
pub proof fn lemma_signature_text_roundtrip(public_key: Seq<u8>, signature: Seq<u8>, data: Seq<u8>)
    requires
        public_key.len() == 32,
        signature.len() == 64,
    ensures
        signature_accepted(encode_utf8(hex_lower(public_key)), encode_utf8(hex_lower(signature)), data)
            == (ed25519_key_decodes(public_key) && ed25519_verifies(public_key, data, signature)),
{
    lemma_hex_roundtrip(public_key);
    lemma_hex_roundtrip(signature);
}

/// Checks a hex signature of `data` against a hex public key.
pub fn verify_signature(public_key: &str, signature_hex: &str, data: &[u8]) -> (ok: bool)
    ensures
        ok == signature_accepted(public_key.spec_bytes(), signature_hex.spec_bytes(), data@),
{
    let pub_bytes = match hex_decode(public_key) {
        Some(b) => b,
        None => return false,
    };
    if pub_bytes.len() != 32 {
        return false;
    }
    let sig_bytes = match hex_decode(signature_hex) {
        Some(b) => b,
        None => return false,
    };
    if sig_bytes.len() != 64 {
        return false;
    }
    ed25519_verify_strict(pub_bytes.as_slice(), data, sig_bytes.as_slice())
}

} // verus!
