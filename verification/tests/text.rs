use ws_contract::api::digestible::Digestible;
use ws_contract::b64e::{decode, encode, Base64, DecodeError, KeypairError, KeypairField};
use ws_contract::ed25519::{same_bytes, Keypair, Signature, SigningKey, VerifyingKey};
use ws_contract::text::{i64_text, join, quote, u64_text};

#[test]
fn integers_are_written_in_decimal() {
    assert_eq!(u64_text(0), "0");
    assert_eq!(u64_text(7), "7");
    assert_eq!(u64_text(1234567890), "1234567890");
    assert_eq!(u64_text(u64::MAX), "18446744073709551615");
    assert_eq!(i64_text(0), "0");
    assert_eq!(i64_text(-1), "-1");
    assert_eq!(i64_text(100), "100");
    assert_eq!(i64_text(i64::MAX), "9223372036854775807");
    assert_eq!(i64_text(i64::MIN), "-9223372036854775808");
}

#[test]
fn parts_are_joined_by_the_separator() {
    assert_eq!(join(&vec![], ":"), "");
    assert_eq!(join(&vec!["a".to_string()], ":"), "a");
    assert_eq!(
        join(&vec!["a".to_string(), "".to_string(), "c".to_string()], ":"),
        "a::c"
    );
}

#[test]
fn quote_puts_the_text_between_double_quotes() {
    assert_eq!(quote("abc"), "\"abc\"");
    assert_eq!(quote(""), "\"\"");
}

#[test]
fn plain_values_digest_to_their_text() {
    assert_eq!(42i64.digest(), "42");
    assert_eq!((-42i64).digest(), "-42");
    assert_eq!(7u8.digest(), "7");
    assert_eq!(9u64.digest_with_sig(), "9");
    assert_eq!("nonce".to_string().digest(), "nonce");
    assert_eq!("".to_string().digest(), "");
}

#[test]
fn base64_is_url_safe_and_unpadded() {
    assert_eq!(encode(b"hello"), "aGVsbG8");
    assert_eq!(encode(&[0xfb, 0xff]), "-_8");
    assert_eq!(encode(&[]), "");
    assert_eq!(decode("aGVsbG8"), Some(b"hello".to_vec()));
    assert_eq!(decode("-_8"), Some(vec![0xfb, 0xff]));
    assert_eq!(decode("aGVsbG8="), None);
    assert_eq!(decode("+/8"), None);
    assert_eq!(decode("not base64!"), None);
}

#[test]
fn keys_and_signatures_round_trip_through_their_text() {
    let kp = SigningKey::from_bytes(&[7u8; 32]);
    let pk = Base64(kp.verifying_key());
    let text = pk.to_string();
    assert_eq!(text.len(), 43);
    let back = Base64::<VerifyingKey>::parse(&text).unwrap();
    assert!(back.same(&pk));
    assert_eq!(back.to_string(), text);

    let sig = Base64(kp.sign(b"message"));
    let text = sig.to_string();
    assert_eq!(text.len(), 86);
    let back = Base64::<Signature>::parse(&text).unwrap();
    assert!(back.same(&sig));
    assert_eq!(back.0.to_bytes(), sig.0.to_bytes());

    let secret = Base64(kp);
    let back = Base64::<SigningKey>::parse(&secret.to_string()).unwrap();
    assert!(back.same(&secret));
}

#[test]
fn text_that_holds_no_value_is_refused() {
    assert!(matches!(
        Base64::<VerifyingKey>::parse("*"),
        Err(DecodeError::Encoding)
    ));
    // decodes, but to 5 bytes
    assert!(matches!(
        Base64::<VerifyingKey>::parse("aGVsbG8"),
        Err(DecodeError::Content)
    ));
    assert!(matches!(
        Base64::<Signature>::parse("aGVsbG8"),
        Err(DecodeError::Content)
    ));
    // 32 bytes that are no point of the curve
    let mut no_point = [0xffu8; 32];
    no_point[0] = 0xee;
    let mut found = false;
    for b in 0..=255u8 {
        no_point[1] = b;
        if VerifyingKey::from_bytes(&no_point).is_none() {
            found = true;
            break;
        }
    }
    assert!(found);
    assert!(matches!(
        Base64::<VerifyingKey>::parse(&encode(&no_point)),
        Err(DecodeError::Content)
    ));
}

#[test]
fn same_bytes_compares_contents() {
    assert!(same_bytes(&[1, 2, 3], &[1, 2, 3]));
    assert!(!same_bytes(&[1, 2, 3], &[1, 2, 4]));
    assert!(!same_bytes(&[1, 2, 3], &[1, 2]));
    assert!(same_bytes(&[], &[]));
}

fn fields(list: &[(&str, &str)]) -> Vec<(String, String)> {
    list.iter()
        .map(|(k, v)| (k.to_string(), v.to_string()))
        .collect()
}

#[test]
fn a_key_pair_is_written_as_secret_and_public() {
    let kp = SigningKey::from_bytes(&[7u8; 32]);
    let pair = Base64(Keypair {
        secret: kp,
        public: kp.verifying_key(),
    });
    let written = pair.to_fields();
    assert_eq!(
        written,
        vec![
            ("secret".to_string(), Base64(kp).to_string()),
            ("public".to_string(), Base64(kp.verifying_key()).to_string()),
        ]
    );
    let back = Base64::<Keypair>::from_fields(&written).unwrap();
    assert!(Base64(back.0.secret).same(&Base64(kp)));
    assert!(back.0.public.same(&kp.verifying_key()));
    // the order of the fields does not matter
    let mut turned = written.clone();
    turned.reverse();
    assert!(Base64::<Keypair>::from_fields(&turned).is_ok());
}

#[test]
fn fields_that_make_no_key_pair_are_refused() {
    let kp = SigningKey::from_bytes(&[7u8; 32]);
    let s = Base64(kp).to_string();
    let p = Base64(kp.verifying_key()).to_string();
    let read = |list: &[(&str, &str)]| Base64::<Keypair>::from_fields(&fields(list)).err();
    assert_eq!(
        read(&[]),
        Some(KeypairError::MissingField(KeypairField::Secret))
    );
    assert_eq!(
        read(&[("public", &p)]),
        Some(KeypairError::MissingField(KeypairField::Secret))
    );
    assert_eq!(
        read(&[("secret", &s)]),
        Some(KeypairError::MissingField(KeypairField::Public))
    );
    assert_eq!(
        read(&[("secret", &s), ("secret", &s)]),
        Some(KeypairError::DuplicateField(KeypairField::Secret))
    );
    assert_eq!(
        read(&[("public", &p), ("secret", &s), ("public", &p)]),
        Some(KeypairError::DuplicateField(KeypairField::Public))
    );
    assert_eq!(
        read(&[("secret", &s), ("other", "x")]),
        Some(KeypairError::UnknownField)
    );
    assert_eq!(
        read(&[("secret", "!"), ("public", &p)]),
        Some(KeypairError::BadValue(
            KeypairField::Secret,
            DecodeError::Encoding
        ))
    );
    assert_eq!(
        read(&[("secret", &s), ("public", "aGVsbG8")]),
        Some(KeypairError::BadValue(
            KeypairField::Public,
            DecodeError::Content
        ))
    );
    // the first fault is the one reported
    assert_eq!(
        read(&[("secret", "!"), ("other", "x")]),
        Some(KeypairError::BadValue(
            KeypairField::Secret,
            DecodeError::Encoding
        ))
    );
}
