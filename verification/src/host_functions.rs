//! The host functions of a Tendermint light client: SHA-256, the hashes of a Merkle tree
//! as RFC 6962 defines them, and the verification of ed25519 signatures.

use crate::primitives::append_bytes;
use crate::primitives::H256;
use vstd::prelude::*;

verus! {

/// The SHA-256 digest of a byte string.
pub uninterp spec fn sha256(message: Seq<u8>) -> Seq<u8>;

/// Whether 32 bytes encode a point of the curve, so that they are a verification key.
pub uninterp spec fn ed25519_key_valid(key: Seq<u8>) -> bool;

/// Whether `signature` is a signature of `message` under the verification key `key`.
pub uninterp spec fn ed25519_verifies(key: Seq<u8>, signature: Seq<u8>, message: Seq<u8>) -> bool;

/// Computes a digest with `Sha256` of `sha2`: `update` with the message, then
/// `finalize`. The digest is 32 bytes long and depends on the message alone.
#[verifier::external_body]
fn sha256_digest(message: &[u8]) -> (digest: H256)
    ensures
        digest@ == sha256(message@),
{
    let mut hasher = <sha2::Sha256 as sha2::Digest>::new();
    sha2::Digest::update(&mut hasher, message);
    sha2::Digest::finalize(hasher).into()
}

/// Asks `VerificationKey::try_from` of `ed25519_consensus` whether the bytes are a key:
/// they are if there are 32 of them and they encode a point of the curve.
#[verifier::external_body]
fn is_verification_key(key: &[u8]) -> (ok: bool)
    ensures
        ok == (key@.len() == 32 && ed25519_key_valid(key@)),
{
    ed25519_consensus::VerificationKey::try_from(key).is_ok()
}

/// Asks `Signature::try_from` of `ed25519_consensus` whether the bytes are a signature:
/// they are if there are 64 of them.
#[verifier::external_body]
fn is_signature(signature: &[u8]) -> (ok: bool)
    ensures
        ok == (signature@.len() == 64),
{
    ed25519_consensus::Signature::try_from(signature).is_ok()
}

/// Verifies a signature with `VerificationKey::verify` of `ed25519_consensus`. The
/// answer depends on the key, the signature and the message alone.
#[verifier::external_body]
fn signature_verifies(key: &[u8], signature: &[u8], message: &[u8]) -> (ok: bool)
    requires
        key@.len() == 32,
        ed25519_key_valid(key@),
        signature@.len() == 64,
    ensures
        ok == ed25519_verifies(key@, signature@, message@),
{
    let vk = ed25519_consensus::VerificationKey::try_from(key).unwrap();
    let sig = ed25519_consensus::Signature::try_from(signature).unwrap();
    vk.verify(&sig, message).is_ok()
}

/// Why a signature was not accepted.
#[derive(Clone, Copy, Debug, PartialEq, Eq, Structural)]
pub enum SignatureError {
    /// The public key is not 32 bytes that encode a point of the curve.
    MalformedPublicKey,
    /// The signature is not 64 bytes long.
    MalformedSignature,
    /// The signature is not one of the message under the key.
    VerificationFailed,
}

/// The hash of a leaf of a Merkle tree: the digest of a zero byte and the leaf.
pub open spec fn leaf_hash_of(bytes: Seq<u8>) -> Seq<u8> {
    sha256(seq![0u8] + bytes)
}

/// The hash of an inner node of a Merkle tree: the digest of a one byte and the hashes
/// of the two children.
pub open spec fn inner_hash_of(left: Seq<u8>, right: Seq<u8>) -> Seq<u8> {
    sha256(seq![1u8] + left + right)
}

/// What `verify` answers for a key, a message and a signature.
pub open spec fn verify_outcome(pubkey: Seq<u8>, msg: Seq<u8>, signature: Seq<u8>) -> Result<
    (),
    SignatureError,
> {
    if !(pubkey.len() == 32 && ed25519_key_valid(pubkey)) {
        Err(SignatureError::MalformedPublicKey)
    } else if signature.len() != 64 {
        Err(SignatureError::MalformedSignature)
    } else if !ed25519_verifies(pubkey, signature, msg) {
        Err(SignatureError::VerificationFailed)
    } else {
        Ok(())
    }
}

/// The host functions.
#[derive(Clone, Copy, Debug, PartialEq, Eq, Default)]
pub struct HostFunctions;

impl HostFunctions {
    /// The SHA-256 digest of `message`.
    pub fn sha2_256(message: &[u8]) -> (digest: H256)
        ensures
            digest@ == sha256(message@),
    {
        sha256_digest(message)
    }

    /// The SHA-256 digest of `data`.
    pub fn digest(data: &[u8]) -> (digest: H256)
        ensures
            digest@ == sha256(data@),
    {
        Self::sha2_256(data)
    }

    /// The hash of the empty Merkle tree: the digest of the empty string.
    pub fn empty_hash(&mut self) -> (hash: H256)
        ensures
            hash@ == sha256(Seq::<u8>::empty()),
    {
        let nothing: Vec<u8> = Vec::new();
        assert(nothing@ =~= Seq::<u8>::empty());
        Self::sha2_256(nothing.as_slice())
    }

    /// The hash of a leaf of a Merkle tree.
    pub fn leaf_hash(&mut self, bytes: &[u8]) -> (hash: H256)
        ensures
            hash@ == leaf_hash_of(bytes@),
    {
        let mut buf: Vec<u8> = Vec::new();
        buf.push(0u8);
        append_bytes(&mut buf, bytes);
        assert(buf@ =~= seq![0u8] + bytes@);
        Self::sha2_256(buf.as_slice())
    }

    /// The hash of an inner node of a Merkle tree.
    pub fn inner_hash(&mut self, left: H256, right: H256) -> (hash: H256)
        ensures
            hash@ == inner_hash_of(left@, right@),
    {
        let mut buf: Vec<u8> = Vec::new();
        buf.push(1u8);
        append_bytes(&mut buf, left.as_slice());
        append_bytes(&mut buf, right.as_slice());
        assert(buf@ =~= seq![1u8] + left@ + right@);
        Self::sha2_256(buf.as_slice())
    }

    /// Verifies that `signature` is an ed25519 signature of `msg` under `pubkey`.
    pub fn verify(pubkey: &[u8], msg: &[u8], signature: &[u8]) -> (r: Result<(), SignatureError>)
        ensures
            r == verify_outcome(pubkey@, msg@, signature@),
    {
        if !is_verification_key(pubkey) {
            return Err(SignatureError::MalformedPublicKey);
        }
        if !is_signature(signature) {
            return Err(SignatureError::MalformedSignature);
        }
        if signature_verifies(pubkey, signature, msg) {
            Ok(())
        } else {
            Err(SignatureError::VerificationFailed)
        }
    }
}

} // verus!
