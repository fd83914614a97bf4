//! Ed25519 keys and signatures as byte values. Signing and verifying are done by
//! the `ed25519-dalek` crate; what it returns is named here and not restated.

use vstd::prelude::*;
use crate::b64e::Encodable;

verus! {

/// Whether `ed25519-dalek` accepts these 32 bytes as a verifying key, that is
/// whether they decompress to a curve point.
pub uninterp spec fn is_public_key(bytes: Seq<u8>) -> bool;

/// The verifying key that `ed25519-dalek` derives from a 32-byte secret.
pub uninterp spec fn public_key_of(secret: Seq<u8>) -> Seq<u8>;

/// The signature that `ed25519-dalek` makes of a message with a 32-byte secret.
pub uninterp spec fn signature_of(secret: Seq<u8>, message: Seq<u8>) -> Seq<u8>;

/// Whether `ed25519-dalek` accepts the signature of the message under the key.
pub uninterp spec fn signature_checks(key: Seq<u8>, message: Seq<u8>, signature: Seq<u8>) -> bool;

/// A public key: 32 bytes that `ed25519-dalek` has accepted.
#[derive(Clone, Copy, Debug)]
pub struct VerifyingKey {
    bytes: [u8; 32],
}

/// A detached signature: 64 bytes.
#[derive(Clone, Copy, Debug)]
pub struct Signature {
    bytes: [u8; 64],
}

/// A signing key: the 32-byte secret.
#[derive(Clone, Copy)]
pub struct SigningKey {
    secret: [u8; 32],
}

/// A signing key together with the verifying key it is kept with.
#[derive(Clone, Copy)]
pub struct Keypair {
    pub secret: SigningKey,
    pub public: VerifyingKey,
}

/// Whether two byte strings are the same.
pub fn same_bytes(a: &[u8], b: &[u8]) -> (r: bool)
    ensures
        r == (a@ == b@),
{
    if a.len() != b.len() {
        return false;
    }
    let mut i: usize = 0;
    while i < a.len()
        invariant
            i <= a.len(),
            a.len() == b.len(),
            forall|j: int| 0 <= j < i ==> a@[j] == b@[j],
        decreases a.len() - i,
    {
        if a[i] != b[i] {
            return false;
        }
        i = i + 1;
    }
    assert(a@ =~= b@);
    true
}

/// A copy of a byte string.
pub fn copy_bytes(a: &[u8]) -> (r: Vec<u8>)
    ensures
        r@ == a@,
{
    let mut out: Vec<u8> = Vec::new();
    let mut i: usize = 0;
    while i < a.len()
        invariant
            i <= a.len(),
            out@ == a@.take(i as int),
        decreases a.len() - i,
    {
        out.push(a[i]);
        i = i + 1;
    }
    assert(a@.take(a.len() as int) == a@);
    out
}

fn take_32(bytes: &[u8]) -> (r: [u8; 32])
    requires
        bytes@.len() == 32,
    ensures
        r@ == bytes@,
{
    let mut out = [0u8; 32];
    let mut i: usize = 0;
    while i < 32
        invariant
            i <= 32,
            bytes@.len() == 32,
            forall|j: int| 0 <= j < i ==> out@[j] == bytes@[j],
        decreases 32 - i,
    {
        out[i] = bytes[i];
        i = i + 1;
    }
    assert(out@ =~= bytes@);
    out
}

fn take_64(bytes: &[u8]) -> (r: [u8; 64])
    requires
        bytes@.len() == 64,
    ensures
        r@ == bytes@,
{
    let mut out = [0u8; 64];
    let mut i: usize = 0;
    while i < 64
        invariant
            i <= 64,
            bytes@.len() == 64,
            forall|j: int| 0 <= j < i ==> out@[j] == bytes@[j],
        decreases 64 - i,
    {
        out[i] = bytes[i];
        i = i + 1;
    }
    assert(out@ =~= bytes@);
    out
}

/// `ed25519_dalek::VerifyingKey::from_bytes`: whether the bytes are a verifying key.
#[verifier::external_body]
fn accepts_outside(bytes: &[u8; 32]) -> (ok: bool)
    ensures
        ok == is_public_key(bytes@),
{
    ed25519_dalek::VerifyingKey::from_bytes(bytes).is_ok()
}

/// `ed25519_dalek::SigningKey::verifying_key`, on the key made of the secret: the
/// bytes of the public half, which the crate accepts as a verifying key.
#[verifier::external_body]
fn public_outside(secret: &[u8; 32]) -> (key: [u8; 32])
    ensures
        key@ == public_key_of(secret@),
        is_public_key(key@),
{
    ed25519_dalek::SigningKey::from_bytes(secret).verifying_key().to_bytes()
}

/// `ed25519_dalek::Signer::sign`, on the key made of the secret: the 64 bytes of the
/// signature. Ed25519 signing uses no randomness, so the result is named.
#[verifier::external_body]
fn sign_outside(secret: &[u8; 32], message: &[u8]) -> (signature: [u8; 64])
    ensures
        signature@ == signature_of(secret@, message@),
{
    ed25519_dalek::Signer::sign(&ed25519_dalek::SigningKey::from_bytes(secret), message).to_bytes()
}

/// `ed25519_dalek::Verifier::verify`: whether the signature of the message is
/// accepted under the key. Bytes that are no key give `false`.
#[verifier::external_body]
fn verify_outside(key: &[u8; 32], message: &[u8], signature: &[u8; 64]) -> (ok: bool)
    ensures
        ok == signature_checks(key@, message@, signature@),
{
    match ed25519_dalek::VerifyingKey::from_bytes(key) {
        Ok(k) => ed25519_dalek::Verifier::verify(
            &k,
            message,
            &ed25519_dalek::Signature::from_bytes(signature),
        ).is_ok(),
        Err(_) => false,
    }
}

impl VerifyingKey {
    #[verifier::type_invariant]
    spec fn accepted(self) -> bool {
        is_public_key(self.bytes@)
    }

    /// The 32 bytes of the key.
    pub closed spec fn view(&self) -> Seq<u8> {
        self.bytes@
    }

    /// The key held in 32 bytes, where they are one.
    pub fn from_bytes(bytes: &[u8; 32]) -> (r: Option<VerifyingKey>)
        ensures
            r is Some <==> is_public_key(bytes@),
            r matches Some(k) ==> k@ == bytes@,
    {
        if accepts_outside(bytes) {
            Some(VerifyingKey { bytes: *bytes })
        } else {
            None
        }
    }

    /// The 32 bytes of the key.
    pub fn as_bytes(&self) -> (r: &[u8; 32])
        ensures
            r@ == self@,
            is_public_key(r@),
    {
        proof {
            use_type_invariant(self);
        }
        &self.bytes
    }

    /// Whether `signature` is a signature of `message` under this key.
    pub fn verify(&self, message: &[u8], signature: &Signature) -> (ok: bool)
        ensures
            ok == signature_checks(self@, message@, signature@),
    {
        verify_outside(&self.bytes, message, &signature.bytes)
    }

    /// Whether two keys are the same.
    pub fn same(&self, other: &VerifyingKey) -> (r: bool)
        ensures
            r == (self@ == other@),
    {
        same_bytes(self.bytes.as_slice(), other.bytes.as_slice())
    }
}

impl Signature {
    /// The 64 bytes of the signature.
    pub closed spec fn view(&self) -> Seq<u8> {
        self.bytes@
    }

    /// The signature held in 64 bytes.
    pub fn from_bytes(bytes: &[u8; 64]) -> (r: Signature)
        ensures
            r@ == bytes@,
    {
        Signature { bytes: *bytes }
    }

    /// The 64 bytes of the signature.
    pub fn to_bytes(&self) -> (r: [u8; 64])
        ensures
            r@ == self@,
    {
        self.bytes
    }
}

impl SigningKey {
    /// The 32 bytes of the secret.
    pub closed spec fn view(&self) -> Seq<u8> {
        self.secret@
    }

    /// The signing key with the given secret.
    pub fn from_bytes(secret: &[u8; 32]) -> (r: SigningKey)
        ensures
            r@ == secret@,
    {
        SigningKey { secret: *secret }
    }

    /// The public half of the key.
    pub fn verifying_key(&self) -> (r: VerifyingKey)
        ensures
            r@ == public_key_of(self@),
    {
        VerifyingKey { bytes: public_outside(&self.secret) }
    }

    /// The signature of `message`.
    pub fn sign(&self, message: &[u8]) -> (r: Signature)
        ensures
            r@ == signature_of(self@, message@),
    {
        Signature { bytes: sign_outside(&self.secret, message) }
    }
}

impl Encodable for VerifyingKey {
    open spec fn bytes(&self) -> Seq<u8> {
        self@
    }

    open spec fn accepts(bytes: Seq<u8>) -> bool {
        bytes.len() == 32 && is_public_key(bytes)
    }

    fn to_bytes(&self) -> (r: Vec<u8>) {
        proof {
            use_type_invariant(self);
        }
        copy_bytes(self.bytes.as_slice())
    }

    fn from_slice(bytes: &[u8]) -> (r: Option<VerifyingKey>) {
        if bytes.len() != 32 {
            return None;
        }
        let held = take_32(bytes);
        VerifyingKey::from_bytes(&held)
    }
}

impl Encodable for Signature {
    open spec fn bytes(&self) -> Seq<u8> {
        self@
    }

    open spec fn accepts(bytes: Seq<u8>) -> bool {
        bytes.len() == 64
    }

    fn to_bytes(&self) -> (r: Vec<u8>) {
        copy_bytes(self.bytes.as_slice())
    }

    fn from_slice(bytes: &[u8]) -> (r: Option<Signature>) {
        if bytes.len() != 64 {
            return None;
        }
        Some(Signature { bytes: take_64(bytes) })
    }
}

impl Encodable for SigningKey {
    open spec fn bytes(&self) -> Seq<u8> {
        self@
    }

    open spec fn accepts(bytes: Seq<u8>) -> bool {
        bytes.len() == 32
    }

    fn to_bytes(&self) -> (r: Vec<u8>) {
        copy_bytes(self.secret.as_slice())
    }

    fn from_slice(bytes: &[u8]) -> (r: Option<SigningKey>) {
        if bytes.len() != 32 {
            return None;
        }
        Some(SigningKey { secret: take_32(bytes) })
    }
}

} // verus!
