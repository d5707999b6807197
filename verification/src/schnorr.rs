//! The signature scheme: Schnorr signatures over Ristretto, made and checked
//! by `schnorrkel`.
//!
//! Nothing of the scheme is computed here. Each call has a name for what it
//! returns, so that the rest of the library can say exactly which calls decide
//! whether a license verifies.

use vstd::prelude::*;

verus! {

/// The length of an encoded signature, in bytes.
pub const SIGNATURE_LENGTH: usize = 64;

/// The length of an encoded public key, in bytes.
pub const PUBLIC_KEY_LENGTH: usize = 32;

/// The longest context or message, in bytes, that a signing transcript takes:
/// it records each length in 32 bits.
pub const MAX_TRANSCRIPT_ITEM: usize = 0xffff_ffff;

/// Whether `schnorrkel` reads the bytes as a signature.
pub uninterp spec fn signature_decodes(bytes: Seq<u8>) -> bool;

/// Whether `schnorrkel` reads the bytes as a public key.
pub uninterp spec fn public_key_decodes(bytes: Seq<u8>) -> bool;

/// Whether `schnorrkel` accepts the signature for the message in the
/// context, under the public key, all four as bytes.
pub uninterp spec fn signature_accepted(
    public_key: Seq<u8>,
    context: Seq<u8>,
    message: Seq<u8>,
    signature: Seq<u8>,
) -> bool;

/// Whether the bytes are an encoded signature.
///
/// Trusted: stands for `schnorrkel::Signature::from_bytes`, whose verdict is
/// named `signature_decodes`. Its source refuses every length but 64 before
/// it looks at a byte.
#[verifier::external_body]
pub(crate) fn signature_is_well_formed(bytes: &[u8]) -> (r: bool)
    ensures
        r == signature_decodes(bytes@),
        r ==> bytes@.len() == SIGNATURE_LENGTH,
{
    schnorrkel::Signature::from_bytes(bytes).is_ok()
}

/// Whether the bytes are an encoded public key.
///
/// Trusted: stands for `schnorrkel::PublicKey::from_bytes`, whose verdict is
/// named `public_key_decodes`. Its source refuses every length but 32 before
/// it looks at a byte.
#[verifier::external_body]
pub(crate) fn public_key_is_well_formed(bytes: &[u8]) -> (r: bool)
    ensures
        r == public_key_decodes(bytes@),
        r ==> bytes@.len() == PUBLIC_KEY_LENGTH,
{
    schnorrkel::PublicKey::from_bytes(bytes).is_ok()
}

/// Whether the signature is valid for the message in the context, under the
/// public key.
///
/// Trusted: stands for `schnorrkel::PublicKey::verify` on the transcript that
/// `signing_context(context).bytes(message)` makes, whose verdict is named
/// `signature_accepted`. The key and the signature must decode, and neither
/// the context nor the message may be longer than a transcript takes.
#[verifier::external_body]
pub(crate) fn signature_verifies(
    public_key: &[u8],
    context: &[u8],
    message: &[u8],
    signature: &[u8],
) -> (r: bool)
    requires
        public_key_decodes(public_key@),
        signature_decodes(signature@),
        context@.len() <= MAX_TRANSCRIPT_ITEM,
        message@.len() <= MAX_TRANSCRIPT_ITEM,
    ensures
        r == signature_accepted(public_key@, context@, message@, signature@),
{
    let key = schnorrkel::PublicKey::from_bytes(public_key).unwrap();
    let signature = schnorrkel::Signature::from_bytes(signature).unwrap();
    key.verify(schnorrkel::signing_context(context).bytes(message), &signature).is_ok()
}

/// Signs the message in the context with a key pair made for this one
/// signature, and hands out the signature and the public key. The secret key
/// is dropped.
///
/// Trusted: stands for `schnorrkel::Keypair::generate_with` on the operating
/// system's random source and `Keypair::sign`. Which key and which signature
/// come back is not said. What is said holds of every pair: both have their
/// fixed length and decode again, and the signature is accepted for this
/// message in this context under this key, as `schnorrkel` documents of
/// `sign` and `verify`.
#[verifier::external_body]
pub(crate) fn sign_with_fresh_key(context: &[u8], message: &[u8]) -> (r: (Vec<u8>, Vec<u8>))
    requires
        context@.len() <= MAX_TRANSCRIPT_ITEM,
        message@.len() <= MAX_TRANSCRIPT_ITEM,
    ensures
        r.0@.len() == SIGNATURE_LENGTH,
        r.1@.len() == PUBLIC_KEY_LENGTH,
        signature_decodes(r.0@),
        public_key_decodes(r.1@),
        signature_accepted(r.1@, context@, message@, r.0@),
{
    let keypair = schnorrkel::Keypair::generate_with(rand::rngs::OsRng);
    let signature = keypair.sign(schnorrkel::signing_context(context).bytes(message));
    (signature.to_bytes().to_vec(), keypair.public.to_bytes().to_vec())
}

} // verus!
