//! Signature checking of witness proofs (sr25519 over the event id bytes).
use vstd::prelude::*;

verus! {

/// Byte length of an sr25519 signature.
pub const SIGNATURE_LEN: usize = 64;

/// Byte length of an sr25519 public key.
pub const PUBLIC_KEY_LEN: usize = 32;

/// The verdict of a verification: sufficient or not, or why it could not be made.
pub type VerifyResult = Result<bool, VerifyError>;

/// Why a proof bundle could not be checked at all (as opposed to being insufficient).
#[derive(Clone, Copy, Debug, PartialEq, Eq)]
pub enum VerifyError {
    /// The bundle is not a map: an event has two entries, or a validator signs one
    /// event twice.
    DuplicateEntry,
    /// A signature is not a valid sr25519 signature encoding.
    BadSignature,
    /// A validator key is not a valid sr25519 public key encoding.
    BadPublicKey,
}

/// Whether sr25519 verification accepts `signature` on `message` under `public`
/// (all three given by their byte encodings).
pub uninterp spec fn sr25519_accepts(public: Seq<u8>, message: Seq<u8>, signature: Seq<u8>) -> bool;

/// Relies on `sp_core::ByteArray::from_slice` for `sp_core::sr25519::Signature` and
/// `sp_core::sr25519::Public` (which fail exactly when the slice is not 64, resp. 32,
/// bytes long) and on `<sp_core::sr25519::Pair as sp_core::Pair>::verify`, whose
/// answer depends on the three byte strings alone.
#[verifier::external_body]
pub(crate) fn sr25519_check(public: &Vec<u8>, signature: &Vec<u8>, message: &Vec<u8>) -> (r: VerifyResult)
    ensures
        signature@.len() != SIGNATURE_LEN ==> r == VerifyResult::Err(VerifyError::BadSignature),
        signature@.len() == SIGNATURE_LEN && public@.len() != PUBLIC_KEY_LEN ==> r == VerifyResult::Err(VerifyError::BadPublicKey),
        signature@.len() == SIGNATURE_LEN && public@.len() == PUBLIC_KEY_LEN ==> r == VerifyResult::Ok(sr25519_accepts(public@, message@, signature@)),
{
    let sig = match <sp_core::sr25519::Signature as sp_core::ByteArray>::from_slice(signature) {
        Ok(s) => s,
        Err(_) => return Err(VerifyError::BadSignature),
    };
    let key = match <sp_core::sr25519::Public as sp_core::ByteArray>::from_slice(public) {
        Ok(k) => k,
        Err(_) => return Err(VerifyError::BadPublicKey),
    };
    Ok(<sp_core::sr25519::Pair as sp_core::Pair>::verify(&sig, message.as_slice(), &key))
}

} // verus!
