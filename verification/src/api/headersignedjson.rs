//! Requests that are signed in their headers.
//!
//! The signer puts its key and its signature over the raw body into two headers,
//! `wireleap-<signatory>-pubkey` and `wireleap-<signatory>-signature`. A request is
//! admitted where exactly one such pair is present and the signature is one of the
//! body under the key.

use vstd::prelude::*;
use crate::api::Status;
use crate::b64e::{Base64, DecodeError, Encodable, decoded};
use crate::ed25519::{Signature, VerifyingKey, signature_checks};
use crate::text::same_text;

verus! {

/// Who signs a request.
#[derive(Clone, Copy, Debug, PartialEq, Eq, Structural)]
pub enum Signatory {
    Auth,
    Relay,
    Client,
    Contract,
    Directory,
}

/// What a signing header holds.
#[derive(Clone, Copy, Debug, PartialEq, Eq, Structural)]
pub enum Field {
    Pubkey,
    Signature,
}

impl Signatory {
    /// The signatory's name in a header, in lower case.
    pub open spec fn word(self) -> Seq<char> {
        match self {
            Signatory::Auth => "auth"@,
            Signatory::Relay => "relay"@,
            Signatory::Client => "client"@,
            Signatory::Contract => "contract"@,
            Signatory::Directory => "directory"@,
        }
    }

    /// The signatory's name in a header.
    pub fn name(self) -> (r: &'static str)
        ensures
            r@ == self.word(),
    {
        match self {
            Signatory::Auth => "auth",
            Signatory::Relay => "relay",
            Signatory::Client => "client",
            Signatory::Contract => "contract",
            Signatory::Directory => "directory",
        }
    }

    /// The signatory with the given name.
    pub fn from_str(s: &str) -> (r: Option<Signatory>)
        ensures
            r matches Some(who) ==> s@ == who.word(),
            r is None ==> forall|who: Signatory| s@ != who.word(),
    {
        if same_text(s, "auth") {
            Some(Signatory::Auth)
        } else if same_text(s, "relay") {
            Some(Signatory::Relay)
        } else if same_text(s, "client") {
            Some(Signatory::Client)
        } else if same_text(s, "contract") {
            Some(Signatory::Contract)
        } else if same_text(s, "directory") {
            Some(Signatory::Directory)
        } else {
            None
        }
    }
}

impl Field {
    /// The field's name in a header, in lower case.
    pub open spec fn word(self) -> Seq<char> {
        match self {
            Field::Pubkey => "pubkey"@,
            Field::Signature => "signature"@,
        }
    }

    /// The field's name in a header.
    pub fn name(self) -> (r: &'static str)
        ensures
            r@ == self.word(),
    {
        match self {
            Field::Pubkey => "pubkey",
            Field::Signature => "signature",
        }
    }

    /// The field with the given name.
    pub fn from_str(s: &str) -> (r: Option<Field>)
        ensures
            r matches Some(what) ==> s@ == what.word(),
            r is None ==> forall|what: Field| s@ != what.word(),
    {
        if same_text(s, "pubkey") {
            Some(Field::Pubkey)
        } else if same_text(s, "signature") {
            Some(Field::Signature)
        } else {
            None
        }
    }
}

/// The name of the header in which a signatory puts a field.
pub open spec fn header_name(who: Signatory, what: Field) -> Seq<char> {
    "wireleap-"@ + who.word() + "-"@ + what.word()
}

/// A header of a request: its name in lower case and its value, where the value
/// is text.
#[derive(Debug)]
pub struct Header {
    pub name: String,
    pub value: Option<String>,
}

/// A header with its name and value as text.
pub struct HeaderView {
    pub name: Seq<char>,
    pub value: Option<Seq<char>>,
}

impl View for Header {
    type V = HeaderView;

    open spec fn view(&self) -> HeaderView {
        HeaderView {
            name: self.name@,
            value: match self.value {
                Some(v) => Some(v@),
                None => None,
            },
        }
    }
}

/// The headers of a request with their names and values as text.
pub open spec fn header_views(headers: Seq<Header>) -> Seq<HeaderView> {
    headers.map_values(|h: Header| h@)
}

/// Whether a header is the one in which some signatory puts the field.
pub open spec fn holds(h: HeaderView, what: Field) -> bool {
    exists|who: Signatory| h.name == header_name(who, what)
}

/// How many of the headers hold the field for some signatory.
pub open spec fn count_of(headers: Seq<HeaderView>, what: Field) -> nat
    decreases headers.len(),
{
    if headers.len() == 0 {
        0
    } else {
        count_of(headers.drop_last(), what) + if holds(headers.last(), what) {
            1nat
        } else {
            0nat
        }
    }
}

/// Whether the headers hold exactly one signing pair: one key and one signature,
/// of the same signatory, both with a value that is text. Then `who`, `key` and
/// `signature` are that signatory and those values.
pub open spec fn pair_is(
    headers: Seq<HeaderView>,
    who: Signatory,
    key: Seq<char>,
    signature: Seq<char>,
) -> bool {
    &&& count_of(headers, Field::Pubkey) == 1
    &&& count_of(headers, Field::Signature) == 1
    &&& exists|i: int, j: int|
        {
            &&& 0 <= i < headers.len()
            &&& 0 <= j < headers.len()
            &&& (#[trigger] headers[i]).name == header_name(who, Field::Pubkey)
            &&& (#[trigger] headers[j]).name == header_name(who, Field::Signature)
            &&& headers[i].value == Some(key)
            &&& headers[j].value == Some(signature)
        }
}

/// Whether the headers hold exactly one signing pair.
pub open spec fn has_pair(headers: Seq<HeaderView>) -> bool {
    exists|who: Signatory, key: Seq<char>, signature: Seq<char>|
        pair_is(headers, who, key, signature)
}

/// Why a request is not admitted. Each is answered with status 400.
#[derive(Debug)]
pub enum HeaderError {
    /// The headers do not hold exactly one signing pair.
    MissingHeaders,
    /// The key is not base64 text of a verifying key.
    BadKey(DecodeError),
    /// The signature is not base64 text of 64 bytes.
    BadSignature(DecodeError),
    /// The signature is not one of the body under the key.
    InvalidSignature,
    /// The body is not the payload that was expected; the text says why.
    BadBody(String),
}

/// A payload that came with a signature over the raw body, checked.
pub struct HeaderSignedJson<T> {
    pub signatory: Signatory,
    pub public_key: Base64<VerifyingKey>,
    pub signature: Base64<Signature>,
    pub data: T,
}

/// The signatory that puts the field into a header of this name, if there is one.
pub fn header_kind(name: &str, what: Field) -> (r: Option<Signatory>)
    ensures
        r matches Some(who) ==> name@ == header_name(who, what),
        r is None ==> !holds(HeaderView { name: name@, value: None }, what),
{
    let all = [
        Signatory::Auth,
        Signatory::Relay,
        Signatory::Client,
        Signatory::Contract,
        Signatory::Directory,
    ];
    let mut i: usize = 0;
    while i < 5
        invariant
            i <= 5,
            all@ == seq![
                Signatory::Auth,
                Signatory::Relay,
                Signatory::Client,
                Signatory::Contract,
                Signatory::Directory,
            ],
            forall|j: int| 0 <= j < i ==> name@ != header_name(#[trigger] all@[j], what),
        decreases 5 - i,
    {
        let who = all[i];
        let mut candidate = String::from_str("wireleap-");
        candidate.append(who.name());
        candidate.append("-");
        candidate.append(what.name());
        if same_text(name, candidate.as_str()) {
            return Some(who);
        }
        i = i + 1;
    }
    proof {
        assert forall|who: Signatory| name@ != header_name(who, what) by {
            match who {
                Signatory::Auth => assert(all@[0] == who),
                Signatory::Relay => assert(all@[1] == who),
                Signatory::Client => assert(all@[2] == who),
                Signatory::Contract => assert(all@[3] == who),
                Signatory::Directory => assert(all@[4] == who),
            }
        }
    }
    None
}

/// No two signatories put a field into a header of the same name.
pub proof fn header_names_differ(a: Signatory, b: Signatory, what: Field)
    requires
        header_name(a, what) == header_name(b, what),
    ensures
        a == b,
{
    reveal_strlit("auth");
    reveal_strlit("relay");
    reveal_strlit("client");
    reveal_strlit("contract");
    reveal_strlit("directory");
    assert(header_name(a, what).len() == "wireleap-"@.len() + a.word().len() + "-"@.len()
        + what.word().len());
    assert(header_name(b, what).len() == "wireleap-"@.len() + b.word().len() + "-"@.len()
        + what.word().len());
}

/// Where two different headers hold a field there are at least two that hold it,
/// and where one does there is at least one.
pub proof fn count_of_bounds(headers: Seq<HeaderView>, what: Field, i: int, j: int)
    requires
        0 <= i <= j < headers.len(),
        holds(headers[i], what),
        holds(headers[j], what),
    ensures
        count_of(headers, what) >= 1,
        i < j ==> count_of(headers, what) >= 2,
    decreases headers.len(),
{
    let before = headers.drop_last();
    if j < headers.len() - 1 {
        assert(before[i] == headers[i]);
        assert(before[j] == headers[j]);
        count_of_bounds(before, what, i, j);
    } else if i < j {
        assert(before[i] == headers[i]);
        count_of_bounds(before, what, i, i);
    }
}

/// The headers hold at most one signing pair: its signatory, key and signature are
/// determined.
pub proof fn pair_is_unique(
    headers: Seq<HeaderView>,
    who: Signatory,
    key: Seq<char>,
    signature: Seq<char>,
    who2: Signatory,
    key2: Seq<char>,
    signature2: Seq<char>,
)
    requires
        pair_is(headers, who, key, signature),
        pair_is(headers, who2, key2, signature2),
    ensures
        who == who2,
        key == key2,
        signature == signature2,
{
    let (i, j) = choose|i: int, j: int|
        {
            &&& 0 <= i < headers.len()
            &&& 0 <= j < headers.len()
            &&& (#[trigger] headers[i]).name == header_name(who, Field::Pubkey)
            &&& (#[trigger] headers[j]).name == header_name(who, Field::Signature)
            &&& headers[i].value == Some(key)
            &&& headers[j].value == Some(signature)
        };
    let (i2, j2) = choose|i: int, j: int|
        {
            &&& 0 <= i < headers.len()
            &&& 0 <= j < headers.len()
            &&& (#[trigger] headers[i]).name == header_name(who2, Field::Pubkey)
            &&& (#[trigger] headers[j]).name == header_name(who2, Field::Signature)
            &&& headers[i].value == Some(key2)
            &&& headers[j].value == Some(signature2)
        };
    assert(holds(headers[i], Field::Pubkey));
    assert(holds(headers[i2], Field::Pubkey));
    assert(holds(headers[j], Field::Signature));
    assert(holds(headers[j2], Field::Signature));
    if i < i2 {
        count_of_bounds(headers, Field::Pubkey, i, i2);
    } else if i2 < i {
        count_of_bounds(headers, Field::Pubkey, i2, i);
    }
    if j < j2 {
        count_of_bounds(headers, Field::Signature, j, j2);
    } else if j2 < j {
        count_of_bounds(headers, Field::Signature, j2, j);
    }
    header_names_differ(who, who2, Field::Pubkey);
}

/// The signing pair among the headers: its signatory, key and signature.
pub fn signing_pair(headers: &Vec<Header>) -> (r: Option<(Signatory, String, String)>)
    ensures
        r matches Some((who, key, signature)) ==> pair_is(
            header_views(headers@),
            who,
            key@,
            signature@,
        ),
        r is None ==> !has_pair(header_views(headers@)),
{
    let ghost all = header_views(headers@);
    let mut keys: usize = 0;
    let mut signatures: usize = 0;
    let mut key_at: Option<(usize, Signatory)> = None;
    let mut signature_at: Option<(usize, Signatory)> = None;
    let mut i: usize = 0;
    while i < headers.len()
        invariant
            i <= headers.len(),
            all == header_views(headers@),
            keys == count_of(all.take(i as int), Field::Pubkey),
            signatures == count_of(all.take(i as int), Field::Signature),
            keys <= i,
            signatures <= i,
            keys > 0 ==> key_at is Some,
            signatures > 0 ==> signature_at is Some,
            key_at matches Some((at, who)) ==> at < i && all[at as int].name == header_name(
                who,
                Field::Pubkey,
            ),
            signature_at matches Some((at, who)) ==> at < i && all[at as int].name == header_name(
                who,
                Field::Signature,
            ),
        decreases headers.len() - i,
    {
        proof {
            let next = all.take(i + 1);
            assert(next.drop_last() == all.take(i as int));
            assert(next.last() == all[i as int]);
            assert(all[i as int].name == headers@[i as int].name@);
        }
        match header_kind(headers[i].name.as_str(), Field::Pubkey) {
            Some(who) => {
                assert(holds(all[i as int], Field::Pubkey));
                keys = keys + 1;
                key_at = Some((i, who));
            },
            None => {
                assert(!holds(all[i as int], Field::Pubkey));
            },
        }
        match header_kind(headers[i].name.as_str(), Field::Signature) {
            Some(who) => {
                assert(holds(all[i as int], Field::Signature));
                signatures = signatures + 1;
                signature_at = Some((i, who));
            },
            None => {
                assert(!holds(all[i as int], Field::Signature));
            },
        }
        i = i + 1;
    }
    proof {
        assert(all.take(headers.len() as int) == all);
    }
    if keys != 1 || signatures != 1 {
        return None;
    }
    match (key_at, signature_at) {
        (Some((ka, kw)), Some((sa, sw))) => {
            let found = match (&headers[ka].value, &headers[sa].value) {
                (Some(key), Some(signature)) => if kw == sw {
                    Some((kw, key.clone(), signature.clone()))
                } else {
                    None
                },
                _ => None,
            };
            proof {
                assert(all[ka as int].value == headers@[ka as int]@.value);
                assert(all[sa as int].value == headers@[sa as int]@.value);
                if found is None {
                    assert forall|who: Signatory, key: Seq<char>, signature: Seq<char>|
                        !pair_is(all, who, key, signature) by {
                        if pair_is(all, who, key, signature) {
                            let (i, j) = choose|i: int, j: int|
                                {
                                    &&& 0 <= i < all.len()
                                    &&& 0 <= j < all.len()
                                    &&& (#[trigger] all[i]).name == header_name(who, Field::Pubkey)
                                    &&& (#[trigger] all[j]).name == header_name(
                                        who,
                                        Field::Signature,
                                    )
                                    &&& all[i].value == Some(key)
                                    &&& all[j].value == Some(signature)
                                };
                            assert(holds(all[i], Field::Pubkey));
                            assert(holds(all[ka as int], Field::Pubkey));
                            assert(holds(all[j], Field::Signature));
                            assert(holds(all[sa as int], Field::Signature));
                            if i < ka {
                                count_of_bounds(all, Field::Pubkey, i, ka as int);
                            } else if ka < i {
                                count_of_bounds(all, Field::Pubkey, ka as int, i);
                            }
                            if j < sa {
                                count_of_bounds(all, Field::Signature, j, sa as int);
                            } else if sa < j {
                                count_of_bounds(all, Field::Signature, sa as int, j);
                            }
                            header_names_differ(who, kw, Field::Pubkey);
                            header_names_differ(who, sw, Field::Signature);
                        }
                    }
                }
            }
            found
        },
        _ => None,
    }
}

/// What becomes of a request with the signing pair `who`, `key`, `signature`: the
/// key is decoded, then the signature, then the signature is checked over the raw
/// body, then the payload is looked at. The first of these that fails gives the
/// error.
pub open spec fn verdict_is<T>(
    who: Signatory,
    key: Seq<char>,
    signature: Seq<char>,
    body: Seq<u8>,
    data: Result<T, String>,
    r: Result<HeaderSignedJson<T>, HeaderError>,
) -> bool {
    match decoded::<VerifyingKey>(key) {
        Err(e) => r matches Err(HeaderError::BadKey(why)) && why == e,
        Ok(k) => match decoded::<Signature>(signature) {
            Err(e) => r matches Err(HeaderError::BadSignature(why)) && why == e,
            Ok(s) => if !signature_checks(k, body, s) {
                r matches Err(HeaderError::InvalidSignature)
            } else {
                match data {
                    Err(text) => r matches Err(HeaderError::BadBody(why)) && why@ == text@,
                    Ok(payload) => {
                        &&& r matches Ok(admitted)
                        &&& admitted.signatory == who
                        &&& admitted.public_key.0.bytes() == k
                        &&& admitted.signature.0.bytes() == s
                        &&& admitted.data == payload
                    },
                }
            },
        },
    }
}

impl<T> HeaderSignedJson<T> {
    /// Admits a request that is signed in its headers.
    ///
    /// `headers` are the headers of the request, `body` its raw bytes, and `data`
    /// the payload read from the body, or the reason why it could not be read. The
    /// signature is checked over the raw bytes, not over the payload.
    pub fn from_request(headers: &Vec<Header>, body: &[u8], data: Result<T, String>) -> (r:
        Result<HeaderSignedJson<T>, HeaderError>)
        ensures
            !has_pair(header_views(headers@)) ==> r matches Err(HeaderError::MissingHeaders),
            has_pair(header_views(headers@)) ==> exists|
                who: Signatory,
                key: Seq<char>,
                signature: Seq<char>,
            |
                pair_is(header_views(headers@), who, key, signature) && verdict_is(
                    who,
                    key,
                    signature,
                    body@,
                    data,
                    r,
                ),
    {
        let (who, key, signature) = match signing_pair(headers) {
            Some(found) => found,
            None => {
                return Err(HeaderError::MissingHeaders);
            },
        };
        assert(has_pair(header_views(headers@)));
        let r = Self::accept(who, key.as_str(), signature.as_str(), body, data);
        r
    }

    /// Admits a request whose signing pair is known.
    pub fn accept(
        who: Signatory,
        key: &str,
        signature: &str,
        body: &[u8],
        data: Result<T, String>,
    ) -> (r: Result<HeaderSignedJson<T>, HeaderError>)
        ensures
            verdict_is(who, key@, signature@, body@, data, r),
    {
        let public_key = match Base64::<VerifyingKey>::parse(key) {
            Ok(k) => k,
            Err(e) => {
                return Err(HeaderError::BadKey(e));
            },
        };
        let held = match Base64::<Signature>::parse(signature) {
            Ok(s) => s,
            Err(e) => {
                return Err(HeaderError::BadSignature(e));
            },
        };
        if !public_key.0.verify(body, &held.0) {
            return Err(HeaderError::InvalidSignature);
        }
        match data {
            Err(text) => Err(HeaderError::BadBody(text)),
            Ok(payload) => Ok(
                HeaderSignedJson { signatory: who, public_key, signature: held, data: payload },
            ),
        }
    }
}

impl HeaderError {
    /// What the error says.
    pub open spec fn text(&self) -> Seq<char> {
        match *self {
            HeaderError::MissingHeaders => "missing headers"@,
            HeaderError::BadKey(DecodeError::Encoding) => "public key is not base64"@,
            HeaderError::BadKey(DecodeError::Content) => "public key is not a key"@,
            HeaderError::BadSignature(DecodeError::Encoding) => "signature is not base64"@,
            HeaderError::BadSignature(DecodeError::Content) => "signature is not 64 bytes"@,
            HeaderError::InvalidSignature => "invalid signature"@,
            HeaderError::BadBody(why) => why@,
        }
    }

    /// The answer to the request: status 400 with what the error says.
    pub fn status(&self) -> (r: Status)
        ensures
            r.code == 400,
            r.desc@ == self.text(),
    {
        let desc = match self {
            HeaderError::MissingHeaders => String::from_str("missing headers"),
            HeaderError::BadKey(DecodeError::Encoding) => String::from_str(
                "public key is not base64",
            ),
            HeaderError::BadKey(DecodeError::Content) => String::from_str(
                "public key is not a key",
            ),
            HeaderError::BadSignature(DecodeError::Encoding) => String::from_str(
                "signature is not base64",
            ),
            HeaderError::BadSignature(DecodeError::Content) => String::from_str(
                "signature is not 64 bytes",
            ),
            HeaderError::InvalidSignature => String::from_str("invalid signature"),
            HeaderError::BadBody(why) => why.clone(),
        };
        Status { code: 400, desc }
    }
}

} // verus!
