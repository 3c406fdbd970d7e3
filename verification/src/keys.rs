//! Keys, signatures and digests as the bytes that go over the wire, and the
//! curve and hash operations on them.
use vstd::prelude::*;

verus! {

/// A public key in its 33-byte compressed SEC1 form.
#[derive(Clone, Copy, Debug, PartialEq, Eq)]
pub struct PublicKey {
    pub bytes: [u8; 33],
}

/// An ECDSA signature in its 64-byte compact form, `r` then `s`.
#[derive(Clone, Copy, Debug, PartialEq, Eq)]
pub struct Signature {
    pub bytes: [u8; 64],
}

/// A secret key: 32 bytes, most significant first.
#[derive(Clone, Copy)]
pub struct SecretKey {
    pub bytes: [u8; 32],
}

impl View for PublicKey {
    type V = Seq<u8>;

    open spec fn view(&self) -> Seq<u8> {
        self.bytes@
    }
}

impl DeepView for PublicKey {
    type V = Seq<u8>;

    open spec fn deep_view(&self) -> Seq<u8> {
        self@
    }
}

impl View for Signature {
    type V = Seq<u8>;

    open spec fn view(&self) -> Seq<u8> {
        self.bytes@
    }
}

impl DeepView for Signature {
    type V = Seq<u8>;

    open spec fn deep_view(&self) -> Seq<u8> {
        self@
    }
}

impl View for SecretKey {
    type V = Seq<u8>;

    open spec fn view(&self) -> Seq<u8> {
        self.bytes@
    }
}

impl DeepView for SecretKey {
    type V = Seq<u8>;

    open spec fn deep_view(&self) -> Seq<u8> {
        self@
    }
}

/// Whether `bytes` is the encoding of a point on the curve.
pub uninterp spec fn pubkey_parses(bytes: Seq<u8>) -> bool;

/// The number that the bytes of `s` spell, most significant byte first.
pub open spec fn be_value(s: Seq<u8>) -> nat
    decreases s.len(),
{
    if s.len() == 0 {
        0
    } else {
        256 * be_value(s.drop_last()) + s.last() as nat
    }
}

/// The order of the group that the curve's points form.
pub open spec fn group_order() -> nat {
    0xFFFFFFFFFFFFFFFFFFFFFFFFFFFFFFFEBAAEDCE6AF48A03BBFD25E8CD0364141nat
}

/// Whether `bytes` is a compact signature: 64 bytes whose two halves, each
/// read as a number, most significant byte first, are below the order of
/// the group.
#[verifier::opaque]
pub open spec fn signature_parses(bytes: Seq<u8>) -> bool {
    &&& bytes.len() == 64
    &&& be_value(bytes.subrange(0, 32)) < group_order()
    &&& be_value(bytes.subrange(32, 64)) < group_order()
}

/// Whether `signature` is a valid ECDSA signature of `digest` under `pubkey`.
pub uninterp spec fn ecdsa_verifies(pubkey: Seq<u8>, digest: Seq<u8>, signature: Seq<u8>) -> bool;

/// The deterministic ECDSA signature of `digest` under `seckey`, if `seckey`
/// is a usable key.
pub uninterp spec fn ecdsa_signature(seckey: Seq<u8>, digest: Seq<u8>) -> Option<Seq<u8>>;

/// The compressed public key that belongs to `seckey`, if `seckey` is a
/// usable key.
pub uninterp spec fn pubkey_of(seckey: Seq<u8>) -> Option<Seq<u8>>;

/// The SHA-256 digest of `data`.
pub uninterp spec fn sha256_digest(data: Seq<u8>) -> Seq<u8>;

/// `PublicKey::from_slice` of secp256k1: whether the bytes parse as a key.
#[verifier::external_body]
pub(crate) fn secp_pubkey_parses(bytes: &[u8]) -> (ok: bool)
    ensures
        ok == pubkey_parses(bytes@),
{
    let ctx = secp256k1::Secp256k1::without_caps();
    secp256k1::key::PublicKey::from_slice(&ctx, bytes).is_ok()
}

/// `Signature::from_compact` of secp256k1: whether the bytes parse as a
/// compact signature. It takes 64 bytes, reads each half as a number, most
/// significant byte first, and refuses a half that is not below the order of
/// the group.
#[verifier::external_body]
pub(crate) fn secp_signature_parses(bytes: &[u8]) -> (ok: bool)
    ensures
        ok == signature_parses(bytes@),
{
    let ctx = secp256k1::Secp256k1::without_caps();
    secp256k1::Signature::from_compact(&ctx, bytes).is_ok()
}

/// `Secp256k1::verify`: parses the key, the digest and the signature and
/// checks the signature. Anything that fails to parse counts as not verified.
#[verifier::external_body]
pub(crate) fn secp_verify(pubkey: &[u8; 33], digest: &[u8; 32], signature: &[u8; 64]) -> (ok: bool)
    ensures
        ok == ecdsa_verifies(pubkey@, digest@, signature@),
{
    let ctx = secp256k1::Secp256k1::with_caps(secp256k1::ContextFlag::VerifyOnly);
    match (
        secp256k1::key::PublicKey::from_slice(&ctx, pubkey),
        secp256k1::Message::from_slice(digest),
        secp256k1::Signature::from_compact(&ctx, signature),
    ) {
        (Ok(key), Ok(msg), Ok(sig)) => ctx.verify(&msg, &sig, &key).is_ok(),
        _ => false,
    }
}

/// `Secp256k1::sign`: signs the digest with the nonce of RFC 6979 and gives
/// the signature in compact form; nothing where the key does not parse.
#[verifier::external_body]
pub(crate) fn secp_sign(seckey: &[u8; 32], digest: &[u8; 32]) -> (sig: Option<[u8; 64]>)
    ensures
        sig is Some <==> ecdsa_signature(seckey@, digest@) is Some,
        sig is Some ==> sig.unwrap()@ == ecdsa_signature(seckey@, digest@).unwrap(),
{
    let ctx = secp256k1::Secp256k1::with_caps(secp256k1::ContextFlag::SignOnly);
    match (
        secp256k1::key::SecretKey::from_slice(&ctx, seckey),
        secp256k1::Message::from_slice(digest),
    ) {
        (Ok(key), Ok(msg)) => match ctx.sign(&msg, &key) {
            Ok(sig) => Some(sig.serialize_compact(&ctx)),
            Err(_) => None,
        },
        _ => None,
    }
}

/// `PublicKey::from_secret_key` of secp256k1, serialised in compressed form;
/// nothing where the secret key does not parse.
#[verifier::external_body]
pub(crate) fn secp_pubkey_of(seckey: &[u8; 32]) -> (key: Option<[u8; 33]>)
    ensures
        key is Some <==> pubkey_of(seckey@) is Some,
        key is Some ==> key.unwrap()@ == pubkey_of(seckey@).unwrap(),
{
    let ctx = secp256k1::Secp256k1::with_caps(secp256k1::ContextFlag::SignOnly);
    match secp256k1::key::SecretKey::from_slice(&ctx, seckey) {
        Ok(key) => match secp256k1::key::PublicKey::from_secret_key(&ctx, &key) {
            Ok(public) => Some(public.serialize()),
            Err(_) => None,
        },
        Err(_) => None,
    }
}

/// The length from which on a byte string is too long to be hashed: its
/// length in bits no longer fits 64 bits.
pub const HASH_INPUT_LIMIT: u64 = 0x2000_0000_0000_0000;

/// `Sha256` of rust-crypto, fed once and finished: the digest of `data`.
/// The hasher counts its input in bits in a `u64` and panics where the count
/// overflows, which the precondition rules out.
#[verifier::external_body]
pub(crate) fn sha256(data: &[u8]) -> (digest: [u8; 32])
    requires
        data@.len() < HASH_INPUT_LIMIT,
    ensures
        digest@ == sha256_digest(data@),
{
    let mut hasher = crypto::sha2::Sha256::new();
    let mut digest = [0u8; 32];
    crypto::digest::Digest::input(&mut hasher, data);
    crypto::digest::Digest::result(&mut hasher, &mut digest);
    digest
}

/// Whether two byte strings are the same.
pub fn bytes_equal(a: &[u8], b: &[u8]) -> (same: bool)
    ensures
        same == (a@ == b@),
{
    let n: usize = a.len();
    if n != b.len() {
        return false;
    }
    let mut i: usize = 0;
    while i < n
        invariant
            i <= n,
            n == a@.len(),
            n == b@.len(),
            forall|j: int| 0 <= j < i ==> a@[j] == b@[j],
        decreases n - i,
    {
        if a[i] != b[i] {
            return false;
        }
        i += 1;
    }
    assert(a@ =~= b@);
    true
}

impl PublicKey {
    /// The key that `bytes` encodes: 33 bytes that name a point on the curve.
    pub fn from_slice(bytes: &[u8]) -> (key: Option<PublicKey>)
        ensures
            key is Some <==> bytes@.len() == 33 && pubkey_parses(bytes@),
            key is Some ==> key.unwrap()@ == bytes@,
    {
        if bytes.len() == 33 && secp_pubkey_parses(bytes) {
            let key = PublicKey { bytes: crate::wire::array_at::<33>(bytes, 0) };
            assert(key@ =~= bytes@);
            Some(key)
        } else {
            None
        }
    }

    /// The key that belongs to `secret`, if `secret` is a usable key.
    pub fn from_secret_key(secret: &SecretKey) -> (key: Option<PublicKey>)
        ensures
            key is Some <==> pubkey_of(secret@) is Some,
            key is Some ==> key.unwrap()@ == pubkey_of(secret@).unwrap(),
    {
        match secp_pubkey_of(&secret.bytes) {
            Some(bytes) => Some(PublicKey { bytes }),
            None => None,
        }
    }

    /// Whether the two keys are the same point.
    pub fn same_as(&self, other: &PublicKey) -> (same: bool)
        ensures
            same == (self@ == other@),
    {
        bytes_equal(self.bytes.as_slice(), other.bytes.as_slice())
    }
}

impl Signature {
    /// The signature that `bytes` encodes: 64 bytes whose halves are in range.
    pub fn from_compact(bytes: &[u8]) -> (sig: Option<Signature>)
        ensures
            sig is Some <==> bytes@.len() == 64 && signature_parses(bytes@),
            sig is Some ==> sig.unwrap()@ == bytes@,
    {
        if bytes.len() == 64 && secp_signature_parses(bytes) {
            let sig = Signature { bytes: crate::wire::array_at::<64>(bytes, 0) };
            assert(sig@ =~= bytes@);
            Some(sig)
        } else {
            None
        }
    }
}

} // verus!
