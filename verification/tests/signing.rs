use ws_contract::api::digestible::Digestible;
use ws_contract::api::signable::{check, Signable};
use ws_contract::api::signed::{SignatureError, Signed};
use ws_contract::api::timestamp::Timestamped;
use ws_contract::api::{SKContract, Sharetoken};
use ws_contract::b64e::Base64;
use ws_contract::ed25519::{Signature, SigningKey, VerifyingKey};

fn hex(s: &str) -> Vec<u8> {
    (0..s.len() / 2)
        .map(|i| u8::from_str_radix(&s[2 * i..2 * i + 2], 16).unwrap())
        .collect()
}

fn contract(server: &SigningKey, open: i64, close: i64) -> SKContract {
    let mut c = SKContract {
        public_key: Base64(server.verifying_key()),
        signature: Base64(Signature::from_bytes(&[0u8; 64])),
        settlement_open: open,
        settlement_close: close,
    };
    c.sign(server);
    c
}

fn token(server: &SigningKey, sk: &SigningKey, relay: &SigningKey, close: i64) -> Sharetoken {
    let mut st = Sharetoken {
        version: 1,
        public_key: Base64(sk.verifying_key()),
        timestamp: 50,
        relay_pubkey: Base64(relay.verifying_key()),
        share_key: String::new(),
        nonce: "n1".to_string(),
        signature: Base64(Signature::from_bytes(&[0u8; 64])),
        contract: contract(server, 10, close),
    };
    st.sign(sk);
    st
}

#[test]
fn signing_follows_the_known_vector() {
    let secret: [u8; 32] = hex("9d61b19deffd5a60ba844af492ec2cc44449c5697b326919703bac031cae7f60")
        .try_into()
        .unwrap();
    let kp = SigningKey::from_bytes(&secret);
    let pk = kp.verifying_key();
    assert_eq!(
        pk.as_bytes().to_vec(),
        hex("d75a980182b10ab7d54bfed3c964073a0ee172f3daa62325af021a68f707511a")
    );
    let sig = kp.sign(b"");
    assert_eq!(
        sig.to_bytes().to_vec(),
        hex(
            "e5564300c360ac729086e2cc806e828a84877f1eb8e5d974d873e06522490155\
             5fb8821590a33bacc61e39701cf9b46bd25bf5f0595bbe24655141438e7a100b"
        )
    );
    assert!(pk.verify(b"", &sig));
    assert!(!pk.verify(b"x", &sig));
}

#[test]
fn a_key_is_the_same_as_itself_only() {
    let a = SigningKey::from_bytes(&[1u8; 32]).verifying_key();
    let b = SigningKey::from_bytes(&[2u8; 32]).verifying_key();
    assert!(a.same(&a));
    assert!(!a.same(&b));
    let again = VerifyingKey::from_bytes(a.as_bytes()).unwrap();
    assert!(again.same(&a));
}

#[test]
fn contract_digest_leaves_the_signature_out() {
    let server = SigningKey::from_bytes(&[3u8; 32]);
    let c = contract(&server, 1000, 4600);
    let pk = c.public_key.to_string();
    let sig = c.signature.to_string();
    assert_eq!(c.digest(), format!("{}:1000:4600", pk));
    assert_eq!(c.digest_with_sig(), format!("{}:{}:1000:4600", pk, sig));
}

#[test]
fn token_digest_holds_the_contract_with_its_signature() {
    let server = SigningKey::from_bytes(&[3u8; 32]);
    let sk = SigningKey::from_bytes(&[4u8; 32]);
    let relay = SigningKey::from_bytes(&[5u8; 32]);
    let st = token(&server, &sk, &relay, 100);
    let expected = format!(
        "1:{}:50:{}::n1:{}",
        st.public_key.to_string(),
        st.relay_pubkey.to_string(),
        st.contract.digest_with_sig()
    );
    assert_eq!(st.digest(), expected);
    let with_sig = format!(
        "1:{}:50:{}::n1:{}:{}",
        st.public_key.to_string(),
        st.relay_pubkey.to_string(),
        st.signature.to_string(),
        st.contract.digest_with_sig()
    );
    assert_eq!(st.digest_with_sig(), with_sig);
}

#[test]
fn digest_is_the_same_each_time() {
    let server = SigningKey::from_bytes(&[3u8; 32]);
    let sk = SigningKey::from_bytes(&[4u8; 32]);
    let relay = SigningKey::from_bytes(&[5u8; 32]);
    let a = token(&server, &sk, &relay, 100);
    let b = token(&server, &sk, &relay, 100);
    assert_eq!(a.digest(), b.digest());
    assert_eq!(a.digest(), a.digest());
    assert_eq!(a.signature.to_string(), b.signature.to_string());
}

#[test]
fn sign_sets_key_and_signature_and_keeps_the_rest() {
    let server = SigningKey::from_bytes(&[3u8; 32]);
    let other = SigningKey::from_bytes(&[9u8; 32]);
    let mut c = contract(&server, 10, 20);
    assert!(check(&c));
    c.sign(&other);
    assert!(c.public_key.same(&Base64(other.verifying_key())));
    assert!(c.public_key().same(&other.verifying_key()));
    assert_eq!(c.settlement_open, 10);
    assert_eq!(c.settlement_close, 20);
    assert!(check(&c));
    assert_eq!(
        c.signature().to_bytes(),
        other.sign(c.digest().as_bytes()).to_bytes()
    );
}

#[test]
fn signed_admits_a_record_that_checks() {
    let server = SigningKey::from_bytes(&[3u8; 32]);
    let sk = SigningKey::from_bytes(&[4u8; 32]);
    let relay = SigningKey::from_bytes(&[5u8; 32]);
    let st = token(&server, &sk, &relay, 100);
    let digest = st.digest();
    let signed = Signed::new(st).ok().unwrap();
    assert_eq!(signed.get().digest(), digest);
    assert_eq!(signed.get().nonce, "n1");
    let back = signed.into_inner();
    assert_eq!(back.digest(), digest);
}

#[test]
fn signed_refuses_a_flipped_signature() {
    let server = SigningKey::from_bytes(&[3u8; 32]);
    let sk = SigningKey::from_bytes(&[4u8; 32]);
    let relay = SigningKey::from_bytes(&[5u8; 32]);
    let mut st = token(&server, &sk, &relay, 100);
    let mut bytes = st.signature.0.to_bytes();
    bytes[0] ^= 1;
    st.signature = Base64(Signature::from_bytes(&bytes));
    assert!(!check(&st));
    assert!(matches!(
        Signed::new(st),
        Err(SignatureError::InvalidSignature)
    ));
}

#[test]
fn signed_refuses_a_changed_payload() {
    let server = SigningKey::from_bytes(&[3u8; 32]);
    let sk = SigningKey::from_bytes(&[4u8; 32]);
    let relay = SigningKey::from_bytes(&[5u8; 32]);
    let mut st = token(&server, &sk, &relay, 100);
    st.nonce = "n2".to_string();
    assert!(matches!(
        Signed::new(st),
        Err(SignatureError::InvalidSignature)
    ));
}

#[test]
fn a_token_is_stamped_with_its_settlement_close() {
    let server = SigningKey::from_bytes(&[3u8; 32]);
    let sk = SigningKey::from_bytes(&[4u8; 32]);
    let relay = SigningKey::from_bytes(&[5u8; 32]);
    let st = token(&server, &sk, &relay, 777);
    assert_eq!(st.timestamp(), 777);
}

#[test]
fn a_token_is_stored_under_servicekey_relay_and_signature() {
    let server = SigningKey::from_bytes(&[3u8; 32]);
    let sk = SigningKey::from_bytes(&[4u8; 32]);
    let relay = SigningKey::from_bytes(&[5u8; 32]);
    let st = token(&server, &sk, &relay, 100);
    let (a, b) = st.subdir();
    assert_eq!(a, Base64(sk.verifying_key()).to_string());
    assert_eq!(b, Base64(relay.verifying_key()).to_string());
    assert_eq!(st.filename(), st.signature.to_string());
    assert_eq!(st.path(), vec![a, b, st.filename()]);
}
