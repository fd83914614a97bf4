//! Base64 text, URL-safe and unpadded, of keys and signatures: the form they have
//! on the wire, on disk and in digests. The `base64` crate encodes and decodes.

use vstd::prelude::*;

verus! {

/// The URL-safe unpadded base64 text that the `base64` crate gives for the bytes.
pub uninterp spec fn base64_text(bytes: Seq<u8>) -> Seq<char>;

/// The bytes that the `base64` crate decodes from URL-safe unpadded text; `None`
/// where it refuses the text.
pub uninterp spec fn base64_bytes(text: Seq<char>) -> Option<Seq<u8>>;

/// Why a text is no encoded value.
#[derive(Clone, Copy, Debug, PartialEq, Eq, Structural)]
pub enum DecodeError {
    /// The text is not URL-safe unpadded base64.
    Encoding,
    /// The text decodes, but the bytes are not a value of the wanted kind.
    Content,
}

/// A value with a byte form: a key or a signature.
pub trait Encodable: Sized {
    /// The byte form of the value.
    spec fn bytes(&self) -> Seq<u8>;

    /// Whether the bytes are the byte form of some value.
    spec fn accepts(bytes: Seq<u8>) -> bool;

    /// The byte form of the value: at most 64 bytes.
    fn to_bytes(&self) -> (r: Vec<u8>)
        ensures
            r@ == self.bytes(),
            Self::accepts(r@),
            r@.len() <= 64,
    ;

    /// The value with the given byte form, where there is one.
    fn from_slice(bytes: &[u8]) -> (r: Option<Self>)
        ensures
            r is Some <==> Self::accepts(bytes@),
            r matches Some(v) ==> v.bytes() == bytes@,
    ;
}

/// A value that is written as base64 text.
#[derive(Debug)]
pub struct Base64<T>(pub T);

impl<T: Copy> Clone for Base64<T> {
    fn clone(&self) -> (r: Self)
        ensures
            r == *self,
    {
        *self
    }
}

impl<T: Copy> Copy for Base64<T> {

}

/// `base64::Engine::encode` of the URL-safe unpadded engine: the text of the bytes.
/// Decoding that text gives the bytes back. The crate computes the length of the
/// text first, which fits for every input of at most `isize::MAX` bytes.
#[verifier::external_body]
fn encode_outside(bytes: &[u8]) -> (text: String)
    requires
        bytes@.len() <= isize::MAX,
    ensures
        text@ == base64_text(bytes@),
        base64_bytes(text@) == Some(bytes@),
{
    base64::Engine::encode(&base64::engine::general_purpose::URL_SAFE_NO_PAD, bytes)
}

/// `base64::Engine::decode` of the URL-safe unpadded engine: the bytes of the text,
/// or `None` where the crate returns an error.
#[verifier::external_body]
fn decode_outside(text: &str) -> (r: Option<Vec<u8>>)
    ensures
        r matches Some(b) ==> base64_bytes(text@) == Some(b@),
        r is None ==> base64_bytes(text@) is None,
{
    match base64::Engine::decode(&base64::engine::general_purpose::URL_SAFE_NO_PAD, text) {
        Ok(b) => Some(b),
        Err(_) => None,
    }
}

/// The base64 text of a byte string, which is no longer than a slice can be.
pub fn encode(bytes: &[u8]) -> (text: String)
    requires
        bytes@.len() <= isize::MAX,
    ensures
        text@ == base64_text(bytes@),
        base64_bytes(text@) == Some(bytes@),
{
    encode_outside(bytes)
}

/// The bytes of a base64 text, or `None` where the text is not base64.
pub fn decode(text: &str) -> (r: Option<Vec<u8>>)
    ensures
        r matches Some(b) ==> base64_bytes(text@) == Some(b@),
        r is None ==> base64_bytes(text@) is None,
{
    decode_outside(text)
}

/// The bytes that a base64 text holds for a value of kind `T`, or why it holds
/// none.
pub open spec fn decoded<T: Encodable>(text: Seq<char>) -> Result<Seq<u8>, DecodeError> {
    match base64_bytes(text) {
        None => Err(DecodeError::Encoding),
        Some(b) => if T::accepts(b) {
            Ok(b)
        } else {
            Err(DecodeError::Content)
        },
    }
}

impl<T: Encodable> Base64<T> {
    /// The base64 text of the value.
    pub open spec fn text(&self) -> Seq<char> {
        base64_text(self.0.bytes())
    }

    /// Whether `r` is what `parse` returns for a text: the value with the bytes that
    /// the text holds, or why it holds none.
    pub open spec fn parsed(text: Seq<char>, r: Result<Base64<T>, DecodeError>) -> bool {
        match decoded::<T>(text) {
            Ok(b) => r is Ok && r->Ok_0.0.bytes() == b,
            Err(e) => r == Err::<Base64<T>, DecodeError>(e),
        }
    }

    /// The base64 text of the value.
    pub fn to_string(&self) -> (r: String)
        ensures
            r@ == self.text(),
            base64_bytes(r@) == Some(self.0.bytes()),
            T::accepts(self.0.bytes()),
    {
        let bytes = self.0.to_bytes();
        encode_outside(bytes.as_slice())
    }

    /// Whether two values have the same byte form, and so the same text.
    pub fn same(&self, other: &Base64<T>) -> (r: bool)
        ensures
            r == (self.0.bytes() == other.0.bytes()),
    {
        let a = self.0.to_bytes();
        let b = other.0.to_bytes();
        crate::ed25519::same_bytes(a.as_slice(), b.as_slice())
    }

    /// The value that a base64 text holds.
    pub fn parse(text: &str) -> (r: Result<Base64<T>, DecodeError>)
        ensures
            Self::parsed(text@, r),
    {
        match decode_outside(text) {
            None => Err(DecodeError::Encoding),
            Some(bytes) => match T::from_slice(bytes.as_slice()) {
                Some(v) => Ok(Base64(v)),
                None => Err(DecodeError::Content),
            },
        }
    }
}

/// A field of a key pair as it is written.
#[derive(Clone, Copy, Debug, PartialEq, Eq, Structural)]
pub enum KeypairField {
    Secret,
    Public,
}

/// Why the fields of an object do not make a key pair.
#[derive(Clone, Copy, Debug, PartialEq, Eq, Structural)]
pub enum KeypairError {
    /// A field that is neither `secret` nor `public`.
    UnknownField,
    /// A field that occurs twice.
    DuplicateField(KeypairField),
    /// A field that does not occur.
    MissingField(KeypairField),
    /// A field whose value is not base64 text of a key.
    BadValue(KeypairField, DecodeError),
}

/// The field of a key pair with the given name.
pub open spec fn field_named(name: Seq<char>) -> Option<KeypairField> {
    if name == "secret"@ {
        Some(KeypairField::Secret)
    } else if name == "public"@ {
        Some(KeypairField::Public)
    } else {
        None
    }
}

/// The bytes of the secret and of the public key that the fields of an object
/// give, read in order after `secret` and `public` have been read, or the first
/// fault: an unknown field, a field that was read before, a value that holds no
/// key, and at the end a field that never came.
pub open spec fn read_fields(
    fields: Seq<(Seq<char>, Seq<char>)>,
    secret: Option<Seq<u8>>,
    public: Option<Seq<u8>>,
) -> Result<(Seq<u8>, Seq<u8>), KeypairError>
    decreases fields.len(),
{
    if fields.len() == 0 {
        match (secret, public) {
            (None, _) => Err(KeypairError::MissingField(KeypairField::Secret)),
            (Some(_), None) => Err(KeypairError::MissingField(KeypairField::Public)),
            (Some(s), Some(p)) => Ok((s, p)),
        }
    } else {
        match field_named(fields[0].0) {
            None => Err(KeypairError::UnknownField),
            Some(KeypairField::Secret) => if secret is Some {
                Err(KeypairError::DuplicateField(KeypairField::Secret))
            } else {
                match decoded::<crate::ed25519::SigningKey>(fields[0].1) {
                    Err(e) => Err(KeypairError::BadValue(KeypairField::Secret, e)),
                    Ok(b) => read_fields(fields.drop_first(), Some(b), public),
                }
            },
            Some(KeypairField::Public) => if public is Some {
                Err(KeypairError::DuplicateField(KeypairField::Public))
            } else {
                match decoded::<crate::ed25519::VerifyingKey>(fields[0].1) {
                    Err(e) => Err(KeypairError::BadValue(KeypairField::Public, e)),
                    Ok(b) => read_fields(fields.drop_first(), secret, Some(b)),
                }
            },
        }
    }
}

/// The fields of an object with their names and values as text.
pub open spec fn field_views(fields: Seq<(String, String)>) -> Seq<(Seq<char>, Seq<char>)> {
    fields.map_values(|f: (String, String)| (f.0@, f.1@))
}

impl Base64<crate::ed25519::Keypair> {
    /// The key pair that the fields of an object give: `secret` and `public`, each
    /// once, each the base64 text of a key, and nothing else.
    pub fn from_fields(fields: &Vec<(String, String)>) -> (r: Result<
        Base64<crate::ed25519::Keypair>,
        KeypairError,
    >)
        ensures
            match read_fields(field_views(fields@), None, None) {
                Ok((s, p)) => r matches Ok(kp) && kp.0.secret@ == s && kp.0.public@ == p,
                Err(e) => r == Err::<Base64<crate::ed25519::Keypair>, KeypairError>(e),
            },
    {
        let mut secret: Option<Base64<crate::ed25519::SigningKey>> = None;
        let mut public: Option<Base64<crate::ed25519::VerifyingKey>> = None;
        let ghost all = field_views(fields@);
        let mut i: usize = 0;
        proof {
            assert(all.skip(0) =~= all);
        }
        while i < fields.len()
            invariant
                i <= fields@.len(),
                all == field_views(fields@),
                read_fields(all, None, None) == read_fields(
                    all.skip(i as int),
                    match secret {
                        Some(s) => Some(s.0@),
                        None => None,
                    },
                    match public {
                        Some(p) => Some(p.0@),
                        None => None,
                    },
                ),
            decreases fields.len() - i,
        {
            proof {
                let rest = all.skip(i as int);
                assert(rest[0] == (fields@[i as int].0@, fields@[i as int].1@));
                assert(rest.drop_first() =~= all.skip(i + 1));
            }
            let name = fields[i].0.as_str();
            let value = fields[i].1.as_str();
            if crate::text::same_text(name, "secret") {
                if secret.is_some() {
                    return Err(KeypairError::DuplicateField(KeypairField::Secret));
                }
                match Base64::<crate::ed25519::SigningKey>::parse(value) {
                    Ok(s) => {
                        secret = Some(s);
                    },
                    Err(e) => {
                        return Err(KeypairError::BadValue(KeypairField::Secret, e));
                    },
                }
            } else if crate::text::same_text(name, "public") {
                if public.is_some() {
                    return Err(KeypairError::DuplicateField(KeypairField::Public));
                }
                match Base64::<crate::ed25519::VerifyingKey>::parse(value) {
                    Ok(p) => {
                        public = Some(p);
                    },
                    Err(e) => {
                        return Err(KeypairError::BadValue(KeypairField::Public, e));
                    },
                }
            } else {
                return Err(KeypairError::UnknownField);
            }
            i = i + 1;
        }
        proof {
            assert(all.skip(fields@.len() as int).len() == 0);
        }
        match (secret, public) {
            (None, _) => Err(KeypairError::MissingField(KeypairField::Secret)),
            (Some(_), None) => Err(KeypairError::MissingField(KeypairField::Public)),
            (Some(s), Some(p)) => Ok(Base64(crate::ed25519::Keypair { secret: s.0, public: p.0 })),
        }
    }

    /// The fields under which the key pair is written: `secret`, then `public`,
    /// each as base64 text.
    pub fn to_fields(&self) -> (r: Vec<(String, String)>)
        ensures
            field_views(r@) == seq![
                ("secret"@, base64_text(self.0.secret@)),
                ("public"@, base64_text(self.0.public@)),
            ],
            read_fields(field_views(r@), None, None) == Ok::<(Seq<u8>, Seq<u8>), KeypairError>(
                (self.0.secret@, self.0.public@),
            ),
    {
        let secret = Base64(self.0.secret).to_string();
        let public = Base64(self.0.public).to_string();
        let mut r: Vec<(String, String)> = Vec::new();
        r.push((String::from_str("secret"), secret));
        r.push((String::from_str("public"), public));
        proof {
            reveal_strlit("secret");
            reveal_strlit("public");
            let v = field_views(r@);
            assert(v =~= seq![
                ("secret"@, base64_text(self.0.secret@)),
                ("public"@, base64_text(self.0.public@)),
            ]);
            assert("secret"@ != "public"@) by {
                assert("secret"@[0] != "public"@[0]);
            }
            let rest = v.drop_first();
            assert(rest[0] == v[1]);
            assert(rest.drop_first().len() == 0);
            assert(field_named(v[0].0) == Some(KeypairField::Secret));
            assert(field_named(rest[0].0) == Some(KeypairField::Public));
            reveal_with_fuel(read_fields, 3);
        }
        r
    }
}

} // verus!
