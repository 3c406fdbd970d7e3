//! The signature envelope: a payload is signed, and checked, together with
//! the tag of the message that carries it.
use crate::keys::{
    ecdsa_signature, ecdsa_verifies, secp_sign, secp_verify, sha256, sha256_digest, PublicKey,
    SecretKey, Signature, HASH_INPUT_LIMIT,
};
use crate::wire::put_bytes;
use vstd::prelude::*;

verus! {

/// What is hashed for a signature: the tag byte, then the payload as it
/// goes over the wire.
pub open spec fn signed_bytes(tag: u8, payload: Seq<u8>) -> Seq<u8> {
    seq![tag] + payload
}

/// The digest that a signature over `payload` under `tag` is made of.
pub open spec fn signed_digest(tag: u8, payload: Seq<u8>) -> Seq<u8> {
    sha256_digest(signed_bytes(tag, payload))
}

/// Whether `payload` is short enough to be hashed together with its tag.
pub open spec fn hashable(payload: Seq<u8>) -> bool {
    payload.len() + 1 < HASH_INPUT_LIMIT
}

/// Whether `signature` signs `payload` under `tag` for the holder of `key`.
/// Nothing signs a payload that is too long to be hashed.
pub open spec fn signature_valid(
    key: Seq<u8>,
    tag: u8,
    payload: Seq<u8>,
    signature: Seq<u8>,
) -> bool {
    hashable(payload) && ecdsa_verifies(key, signed_digest(tag, payload), signature)
}

/// The signature that `key` puts under `payload` and `tag`, if `key` is a
/// usable key and the payload can be hashed.
pub open spec fn signature_of(key: Seq<u8>, tag: u8, payload: Seq<u8>) -> Option<Seq<u8>> {
    if hashable(payload) {
        ecdsa_signature(key, signed_digest(tag, payload))
    } else {
        None
    }
}

/// Whether `payload` is short enough to be hashed together with its tag.
pub fn is_hashable(payload: &[u8]) -> (ok: bool)
    ensures
        ok == hashable(payload@),
{
    let n: usize = payload.len();
    (n as u64) < HASH_INPUT_LIMIT - 1
}

/// The digest that a signature over `payload` under `tag` is made of.
pub fn digest_for(tag: u8, payload: &[u8]) -> (digest: [u8; 32])
    requires
        hashable(payload@),
    ensures
        digest@ == signed_digest(tag, payload@),
{
    let mut signed: Vec<u8> = Vec::new();
    signed.push(tag);
    put_bytes(&mut signed, payload);
    assert(signed@ =~= signed_bytes(tag, payload@));
    sha256(signed.as_slice())
}

/// Whether `signature` signs `payload` under `tag` for the holder of `key`.
pub fn verify(key: &PublicKey, tag: u8, payload: &[u8], signature: &Signature) -> (ok: bool)
    ensures
        ok == signature_valid(key@, tag, payload@, signature@),
{
    if !is_hashable(payload) {
        return false;
    }
    let digest: [u8; 32] = digest_for(tag, payload);
    secp_verify(&key.bytes, &digest, &signature.bytes)
}

/// Signs `payload` under `tag`; nothing where `key` is not a usable key or
/// the payload is too long to be hashed.
pub fn sign(key: &SecretKey, tag: u8, payload: &[u8]) -> (signature: Option<Signature>)
    ensures
        signature.deep_view() == signature_of(key@, tag, payload@),
{
    if !is_hashable(payload) {
        return None;
    }
    let digest: [u8; 32] = digest_for(tag, payload);
    match secp_sign(&key.bytes, &digest) {
        Some(bytes) => Some(Signature { bytes }),
        None => None,
    }
}

} // verus!
