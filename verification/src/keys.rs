//! Signatures and public keys as the codec sees them: byte strings of fixed
//! length whose form `ed25519_dalek` has accepted. Nothing here verifies a
//! signature.

use crate::cursor::array_from_slice;
use crate::error::CodecError;
use ed25519_dalek::SignatureError;
use vstd::prelude::*;

verus! {

/// `ed25519_dalek::SignatureError`: why `ed25519_dalek` refused some bytes.
/// It is carried, never looked into.
#[verifier::external_type_specification]
#[verifier::external_body]
pub struct ExSignatureError(ed25519_dalek::SignatureError);

/// The form of a signature: 64 bytes, of which the last has its three highest
/// bits clear.
pub open spec fn signature_wellformed(s: Seq<u8>) -> bool {
    s.len() == 64 && s[63] & 0xe0 == 0
}

/// The form of a public key: 32 bytes, whatever they hold.
pub open spec fn public_key_wellformed(s: Seq<u8>) -> bool {
    s.len() == 32
}

/// `ed25519_dalek::Signature::from_bytes`: succeeds exactly on 64 bytes of
/// which the last has its three highest bits clear. Only the verdict is
/// kept.
#[verifier::external_body]
fn check_signature(bytes: &[u8]) -> (r: Result<(), SignatureError>)
    ensures
        r is Ok <==> signature_wellformed(bytes@),
{
    match ed25519_dalek::Signature::from_bytes(bytes) {
        Ok(_) => Ok(()),
        Err(e) => Err(e),
    }
}

/// `ed25519_dalek::PublicKey::from_bytes`: succeeds exactly on 32 bytes. Only
/// the verdict is kept.
#[verifier::external_body]
fn check_public_key(bytes: &[u8]) -> (r: Result<(), SignatureError>)
    ensures
        r is Ok <==> public_key_wellformed(bytes@),
{
    match ed25519_dalek::PublicKey::from_bytes(bytes) {
        Ok(_) => Ok(()),
        Err(e) => Err(e),
    }
}

/// A signature: 64 bytes in the form that [`signature_wellformed`] describes.
#[derive(Clone, Copy, Debug, PartialEq, Eq)]
pub struct Signature {
    bytes: [u8; 64],
}

impl View for Signature {
    type V = Seq<u8>;

    closed spec fn view(&self) -> Seq<u8> {
        self.bytes@
    }
}

impl Signature {
    #[verifier::type_invariant]
    closed spec fn inv(&self) -> bool {
        signature_wellformed(self.bytes@)
    }

    /// Whether the bytes have the form of a signature. Every `Signature` that
    /// executable code holds does.
    pub open spec fn wf(&self) -> bool {
        signature_wellformed(self@)
    }

    /// The signature that `bytes` spell, where they have the form of one.
    pub fn from_bytes(bytes: &[u8]) -> (r: Result<Signature, CodecError>)
        ensures
            r is Ok <==> signature_wellformed(bytes@),
            r matches Ok(s) ==> s@ == bytes@ && s.wf(),
            r matches Err(e) ==> e == CodecError::MalformedSignature,
    {
        match check_signature(bytes) {
            Ok(_) => Ok(Signature { bytes: array_from_slice::<64>(bytes, 0) }),
            Err(_) => Err(CodecError::MalformedSignature),
        }
    }

    /// The 64 bytes of the signature.
    pub fn to_bytes(&self) -> (r: [u8; 64])
        ensures
            r@ == self@,
            self.wf(),
    {
        proof {
            use_type_invariant(self);
        }
        self.bytes
    }

    /// The view of a signature has 64 bytes.
    pub proof fn lemma_len(self)
        ensures
            self@.len() == 64,
    {
    }

    /// A signature is its bytes: two with the same bytes are equal.
    pub proof fn lemma_eq(a: Signature, b: Signature)
        requires
            a@ == b@,
        ensures
            a == b,
    {
        assert(a.bytes =~= b.bytes);
    }
}

/// A public key: 32 bytes.
#[derive(Clone, Copy, Debug, PartialEq, Eq)]
pub struct PublicKey {
    bytes: [u8; 32],
}

impl View for PublicKey {
    type V = Seq<u8>;

    closed spec fn view(&self) -> Seq<u8> {
        self.bytes@
    }
}

impl PublicKey {
    /// The public key that `bytes` spell, where they have the form of one.
    pub fn from_bytes(bytes: &[u8]) -> (r: Result<PublicKey, CodecError>)
        ensures
            r is Ok <==> public_key_wellformed(bytes@),
            r matches Ok(k) ==> k@ == bytes@,
            r matches Err(e) ==> e == CodecError::MalformedPublicKey,
    {
        match check_public_key(bytes) {
            Ok(_) => Ok(PublicKey { bytes: array_from_slice::<32>(bytes, 0) }),
            Err(_) => Err(CodecError::MalformedPublicKey),
        }
    }

    /// The 32 bytes of the key.
    pub fn to_bytes(&self) -> (r: [u8; 32])
        ensures
            r@ == self@,
    {
        self.bytes
    }

    /// A public key is its bytes: two with the same bytes are equal.
    pub proof fn lemma_eq(a: PublicKey, b: PublicKey)
        requires
            a@ == b@,
        ensures
            a == b,
    {
        assert(a.bytes =~= b.bytes);
    }

    /// The view of a public key has 32 bytes.
    pub proof fn lemma_len(self)
        ensures
            self@.len() == 32,
    {
    }
}

} // verus!
