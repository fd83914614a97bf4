//! Records that carry their signer's key and a signature over their digest.

use vstd::prelude::*;
use vstd::utf8::encode_utf8;
use crate::api::digestible::Digestible;
use crate::ed25519::{Signature, SigningKey, VerifyingKey, public_key_of, signature_checks, signature_of};

verus! {

/// A record that names its signer and holds a signature.
pub trait Signable: Digestible + Sized {
    /// The bytes of the key that the record names as its signer.
    spec fn signer(&self) -> Seq<u8>;

    /// The bytes of the signature that the record holds.
    spec fn seal(&self) -> Seq<u8>;

    /// The key that the record names as its signer.
    fn public_key(&self) -> (r: VerifyingKey)
        ensures
            r@ == self.signer(),
    ;

    /// The signature that the record holds.
    fn signature(&self) -> (r: Signature)
        ensures
            r@ == self.seal(),
    ;

    /// Makes `kp` the signer of the record and signs its digest. The other fields stay.
    fn sign(&mut self, kp: &SigningKey)
        ensures
            final(self).signer() == public_key_of(kp@),
            final(self).seal() == signature_of(kp@, message(final(self))),
    ;
}

/// The bytes that are signed: the digest in UTF-8.
pub open spec fn message<T: Digestible>(record: &T) -> Seq<u8> {
    encode_utf8(record.digest_text())
}

/// Whether the record's signature is accepted under the key it names.
pub open spec fn sealed<T: Signable>(record: &T) -> bool {
    signature_checks(record.signer(), message(record), record.seal())
}

/// Whether the record's signature over its digest is accepted under its key.
pub fn check<T: Signable>(record: &T) -> (ok: bool)
    ensures
        ok == sealed(record),
{
    let text = record.digest();
    let key = record.public_key();
    let signature = record.signature();
    key.verify(text.as_str().as_bytes(), &signature)
}

} // verus!
