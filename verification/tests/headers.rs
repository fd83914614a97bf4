use ws_contract::api::headersignedjson::{
    header_kind, signing_pair, Field, Header, HeaderError, HeaderSignedJson, Signatory,
};
use ws_contract::b64e::{Base64, DecodeError};
use ws_contract::ed25519::SigningKey;

fn header(name: &str, value: &str) -> Header {
    Header {
        name: name.to_string(),
        value: Some(value.to_string()),
    }
}

fn signed(kp: &SigningKey, who: &str, body: &[u8]) -> Vec<Header> {
    vec![
        header("content-type", "application/json"),
        header(
            &format!("wireleap-{}-pubkey", who),
            &Base64(kp.verifying_key()).to_string(),
        ),
        header(
            &format!("wireleap-{}-signature", who),
            &Base64(kp.sign(body)).to_string(),
        ),
    ]
}

#[test]
fn names_of_signatories_and_fields() {
    assert_eq!(Signatory::Auth.name(), "auth");
    assert_eq!(Signatory::Relay.name(), "relay");
    assert_eq!(Signatory::Client.name(), "client");
    assert_eq!(Signatory::Contract.name(), "contract");
    assert_eq!(Signatory::Directory.name(), "directory");
    assert_eq!(Field::Pubkey.name(), "pubkey");
    assert_eq!(Field::Signature.name(), "signature");
    assert_eq!(Signatory::from_str("relay"), Some(Signatory::Relay));
    assert_eq!(Signatory::from_str("directory"), Some(Signatory::Directory));
    assert_eq!(Signatory::from_str("Relay"), None);
    assert_eq!(Signatory::from_str(""), None);
    assert_eq!(Field::from_str("pubkey"), Some(Field::Pubkey));
    assert_eq!(Field::from_str("signature"), Some(Field::Signature));
    assert_eq!(Field::from_str("key"), None);
}

#[test]
fn signing_headers_are_recognised_by_name() {
    assert_eq!(
        header_kind("wireleap-relay-pubkey", Field::Pubkey),
        Some(Signatory::Relay)
    );
    assert_eq!(
        header_kind("wireleap-auth-signature", Field::Signature),
        Some(Signatory::Auth)
    );
    assert_eq!(header_kind("wireleap-relay-pubkey", Field::Signature), None);
    assert_eq!(header_kind("wireleap-relay", Field::Pubkey), None);
    assert_eq!(header_kind("wireleap-relay-pubkey-x", Field::Pubkey), None);
    assert_eq!(header_kind("wireleap-nobody-pubkey", Field::Pubkey), None);
    assert_eq!(header_kind("x-wireleap-relay-pubkey", Field::Pubkey), None);
    assert_eq!(header_kind("content-type", Field::Pubkey), None);
}

#[test]
fn a_signed_request_is_admitted() {
    let kp = SigningKey::from_bytes(&[8u8; 32]);
    let body = br#"{"type":"dummy","amount":40,"destination":"x"}"#;
    let headers = signed(&kp, "relay", body);
    let r = HeaderSignedJson::from_request(&headers, body, Ok::<u32, String>(40));
    let h = r.ok().unwrap();
    assert_eq!(h.signatory, Signatory::Relay);
    assert!(h.public_key.same(&Base64(kp.verifying_key())));
    assert_eq!(h.signature.0.to_bytes(), kp.sign(body).to_bytes());
    assert_eq!(h.data, 40);
}

#[test]
fn the_signature_is_over_the_raw_body() {
    let kp = SigningKey::from_bytes(&[8u8; 32]);
    let headers = signed(&kp, "relay", b"{\"amount\":40}");
    // the same payload, written otherwise
    let r = HeaderSignedJson::from_request(&headers, b"{ \"amount\": 40 }", Ok::<u32, String>(40));
    assert!(matches!(r, Err(HeaderError::InvalidSignature)));
    assert_eq!(
        HeaderError::InvalidSignature.status().desc,
        "invalid signature"
    );
    assert_eq!(HeaderError::InvalidSignature.status().code, 400);
}

#[test]
fn a_request_without_the_pair_is_refused() {
    let kp = SigningKey::from_bytes(&[8u8; 32]);
    let body = b"{}";
    let full = signed(&kp, "relay", body);
    let cases: Vec<Vec<Header>> = vec![
        vec![],
        vec![header("content-type", "application/json")],
        // the key alone, the signature alone
        vec![header("wireleap-relay-pubkey", full[1].value.as_ref().unwrap())],
        vec![header("wireleap-relay-signature", full[2].value.as_ref().unwrap())],
        // key and signature of different signatories
        vec![
            header("wireleap-relay-pubkey", full[1].value.as_ref().unwrap()),
            header("wireleap-client-signature", full[2].value.as_ref().unwrap()),
        ],
        // the key twice
        vec![
            header("wireleap-relay-pubkey", full[1].value.as_ref().unwrap()),
            header("wireleap-relay-pubkey", full[1].value.as_ref().unwrap()),
            header("wireleap-relay-signature", full[2].value.as_ref().unwrap()),
        ],
        // a second pair
        vec![
            header("wireleap-relay-pubkey", full[1].value.as_ref().unwrap()),
            header("wireleap-relay-signature", full[2].value.as_ref().unwrap()),
            header("wireleap-client-pubkey", full[1].value.as_ref().unwrap()),
            header("wireleap-client-signature", full[2].value.as_ref().unwrap()),
        ],
        // a value that is no text
        vec![
            header("wireleap-relay-pubkey", full[1].value.as_ref().unwrap()),
            Header {
                name: "wireleap-relay-signature".to_string(),
                value: None,
            },
        ],
    ];
    for headers in cases {
        assert!(signing_pair(&headers).is_none());
        let r = HeaderSignedJson::from_request(&headers, body, Ok::<u32, String>(1));
        assert!(matches!(r, Err(HeaderError::MissingHeaders)));
    }
    let status = HeaderError::MissingHeaders.status();
    assert_eq!((status.code, status.desc.as_str()), (400, "missing headers"));
}

#[test]
fn the_pair_is_found_wherever_it_stands() {
    let kp = SigningKey::from_bytes(&[8u8; 32]);
    let mut headers = signed(&kp, "directory", b"[]");
    headers.reverse();
    headers.push(header("accept", "*/*"));
    let (who, key, signature) = signing_pair(&headers).unwrap();
    assert_eq!(who, Signatory::Directory);
    assert_eq!(key, Base64(kp.verifying_key()).to_string());
    assert_eq!(signature, Base64(kp.sign(b"[]")).to_string());
}

#[test]
fn key_and_signature_must_decode() {
    let kp = SigningKey::from_bytes(&[8u8; 32]);
    let body = b"{}";
    let good = signed(&kp, "relay", body);
    let key = good[1].value.clone().unwrap();
    let signature = good[2].value.clone().unwrap();

    let r = HeaderSignedJson::accept(Signatory::Relay, "!!", &signature, body, Ok::<u32, String>(1));
    assert!(matches!(r, Err(HeaderError::BadKey(DecodeError::Encoding))));
    let r = HeaderSignedJson::accept(Signatory::Relay, "aGVsbG8", &signature, body, Ok::<u32, String>(1));
    assert!(matches!(r, Err(HeaderError::BadKey(DecodeError::Content))));
    let r = HeaderSignedJson::accept(Signatory::Relay, &key, "!!", body, Ok::<u32, String>(1));
    assert!(matches!(r, Err(HeaderError::BadSignature(DecodeError::Encoding))));
    let r = HeaderSignedJson::accept(Signatory::Relay, &key, &key, body, Ok::<u32, String>(1));
    assert!(matches!(r, Err(HeaderError::BadSignature(DecodeError::Content))));
    // the key is looked at before the signature
    let r = HeaderSignedJson::accept(Signatory::Relay, "!!", "!!", body, Ok::<u32, String>(1));
    assert!(matches!(r, Err(HeaderError::BadKey(_))));
    for e in [
        HeaderError::BadKey(DecodeError::Encoding),
        HeaderError::BadKey(DecodeError::Content),
        HeaderError::BadSignature(DecodeError::Encoding),
        HeaderError::BadSignature(DecodeError::Content),
    ] {
        let s = e.status();
        assert_eq!(s.code, 400);
        assert!(!s.desc.is_empty());
    }
}

#[test]
fn a_body_that_is_not_the_payload_is_refused_after_the_signature() {
    let kp = SigningKey::from_bytes(&[8u8; 32]);
    let body = b"not json";
    let headers = signed(&kp, "relay", body);
    let r = HeaderSignedJson::from_request(
        &headers,
        body,
        Err::<u32, String>("expected value at line 1 column 1".to_string()),
    );
    match r {
        Err(e) => {
            assert!(matches!(e, HeaderError::BadBody(_)));
            let s = e.status();
            assert_eq!(s.code, 400);
            assert_eq!(s.desc, "expected value at line 1 column 1");
        }
        Ok(_) => panic!("admitted"),
    }
    // with a wrong signature the signature is what is reported
    let r = HeaderSignedJson::from_request(
        &headers,
        b"other",
        Err::<u32, String>("bad".to_string()),
    );
    assert!(matches!(r, Err(HeaderError::InvalidSignature)));
}
