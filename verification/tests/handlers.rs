use std::time::{Duration, UNIX_EPOCH};
use ws_contract::api::headersignedjson::{Header, HeaderError, HeaderSignedJson, Signatory};
use ws_contract::api::signable::{check, Signable};
use ws_contract::api::{
    AccesskeyRequest, ActivationRequest, Enrollment, Pof, Relay, Role, RoleInfo, SKContract,
    Sharetoken, Status, Versions, WithdrawalRequest, WithdrawalState,
};
use ws_contract::auth::{
    issue_accesskeys_post_handler, mk_pof, verify_withdrawal_request_post_handler,
};
use ws_contract::b64e::Base64;
use ws_contract::cfg::{mkpublic, Cfg};
use ws_contract::contract::calc::DefaultShareCalc;
use ws_contract::contract::ledger::{Action, BalanceUpdate};
use ws_contract::contract::tracker::Tracker;
use ws_contract::contract::{
    activate_post_handler, balance_get_handler, submit_post_handler, withdraw_post_handler,
    withdrawal_outcome, Routing,
};
use ws_contract::decimal::Decimal;
use ws_contract::directory::{
    info_get_handler, relays_delete_handler, relays_get_handler, relays_post_handler, RelayTable,
};
use ws_contract::ed25519::{Signature, SigningKey};
use ws_contract::ps::{buy_get_handler, withdrawals_get_handler, withdrawals_post_handler};
use ws_contract::state::Custom;
use ws_contract::time::{try_utime, utime};

fn key(n: u8) -> SigningKey {
    SigningKey::from_bytes(&[n; 32])
}

fn text(k: &SigningKey) -> String {
    Base64(k.verifying_key()).to_string()
}

fn state() -> Custom<DefaultShareCalc> {
    let server = key(1);
    let cfg = Cfg::default();
    let calc = DefaultShareCalc::from_percent(
        cfg.pubdef.servicekey.value,
        cfg.pubdef.settlement.fee_percent,
    )
    .unwrap();
    Custom {
        relays: RelayTable::new(),
        public: mkpublic(cfg.pubdef, server.verifying_key(), "1.2.3".to_string()),
        tracker: Tracker::new(calc, 5, None, 0),
        signer: server,
    }
}

fn contract(server: &SigningKey, close: i64) -> SKContract {
    let mut c = SKContract {
        public_key: Base64(server.verifying_key()),
        signature: Base64(Signature::from_bytes(&[0u8; 64])),
        settlement_open: close - 10,
        settlement_close: close,
    };
    c.sign(server);
    c
}

fn token(server: &SigningKey, sk: &SigningKey, relay: &SigningKey, close: i64) -> Sharetoken {
    let mut st = Sharetoken {
        version: 1,
        public_key: Base64(sk.verifying_key()),
        timestamp: close - 20,
        relay_pubkey: Base64(relay.verifying_key()),
        share_key: String::new(),
        nonce: "nonce".to_string(),
        signature: Base64(Signature::from_bytes(&[0u8; 64])),
        contract: contract(server, close),
    };
    st.sign(sk);
    st
}

fn relay(k: &SigningKey, role: Role, address: &str) -> Relay {
    let v = "0.1.0".to_string();
    Relay {
        public_key: Base64(k.verifying_key()),
        role,
        address: address.to_string(),
        versions: Versions {
            software: v.clone(),
            client_relay: v.clone(),
            relay_relay: v.clone(),
            relay_dir: v.clone(),
            relay_contract: v,
        },
    }
}

fn withdrawal(kp: &SigningKey, amount: u64, w_type: &str) -> Result<HeaderSignedJson<WithdrawalRequest>, Status> {
    let body = format!("{{\"type\":\"{}\",\"amount\":{}}}", w_type, amount);
    let headers = vec![
        Header {
            name: "wireleap-relay-pubkey".to_string(),
            value: Some(Base64(kp.verifying_key()).to_string()),
        },
        Header {
            name: "wireleap-relay-signature".to_string(),
            value: Some(Base64(kp.sign(body.as_bytes())).to_string()),
        },
    ];
    let data = WithdrawalRequest {
        w_type: w_type.to_string(),
        amount,
        destination: "somewhere".to_string(),
    };
    HeaderSignedJson::from_request(&headers, body.as_bytes(), Ok(data)).map_err(|e| e.status())
}

#[test]
fn default_configuration() {
    let cfg = Cfg::default();
    assert_eq!(cfg.address, "127.0.0.1:8081");
    assert!(cfg.keypair.is_none());
    assert_eq!(cfg.pubdef.endpoint, "http://127.0.0.1:8081");
    assert!(cfg.pubdef.servicekey.value.eq_value(Decimal::from_u64(100)));
    assert_eq!(cfg.pubdef.servicekey.currency, "USD");
    assert_eq!(cfg.pubdef.servicekey.duration, 600);
    assert!(cfg.pubdef.settlement.fee_percent.eq_value(Decimal::from_u64(5)));
    assert_eq!(cfg.pubdef.settlement.submission_window, 3600);
    assert_eq!(cfg.pubdef.payout.ps_type, "dummy");
    assert_eq!(cfg.pubdef.payout.endpoint, "http://127.0.0.1:8081");
    assert_eq!(cfg.pubdef.payout.check_period, 5);
    assert_eq!(cfg.pubdef.payout.min_withdrawal, Some(0));
    assert_eq!(cfg.pubdef.payout.max_withdrawal, Some(u64::MAX));
    assert_eq!(cfg.pubdef.payout.info.as_deref(), Some("http://127.0.0.1:8081"));
    let md = cfg.pubdef.metadata.unwrap();
    assert_eq!(md.name.as_deref(), Some("PLEASE CONFIGURE ME"));
    assert_eq!(md.operator.as_deref(), Some("TEST CONTRACT WITH DEFAULT CONFIG"));
    assert!(md.operator_url.is_none());
}

#[test]
fn mkpublic_fills_out_the_derived_fields() {
    let st = state();
    let pk = Base64(key(1).verifying_key());
    assert!(st.public.derived.public_key.same(&pk));
    assert!(st.public.derived.pubkey.same(&pk));
    assert!(st.public.derived.directory.public_key.same(&pk));
    assert_eq!(st.public.derived.directory.endpoint, "http://127.0.0.1:8081");
    assert_eq!(st.public.derived.version, "1.2.3");
    assert_eq!(st.public.derived.enrollment.fronting.count, 0);
    assert_eq!(info_get_handler(&st).defined.endpoint, "http://127.0.0.1:8081");
}

#[test]
fn utime_counts_seconds_from_the_epoch() {
    assert_eq!(utime(UNIX_EPOCH), 0);
    assert_eq!(utime(UNIX_EPOCH + Duration::from_millis(1_700_000_000_999)), 1_700_000_000);
    assert_eq!(try_utime(UNIX_EPOCH + Duration::from_secs(5)), Some(5));
    assert_eq!(try_utime(UNIX_EPOCH - Duration::from_secs(1)), None);
}

#[test]
fn activate_signs_the_settlement_envelope() {
    let st = state();
    let request = ActivationRequest {
        public_key: Base64(key(9).verifying_key()),
        pof: mk_pof(&key(1), "test".to_string(), "n".to_string(), 0, 600),
    };
    let skc = activate_post_handler(&st, Ok(request), 1000).ok().unwrap();
    assert_eq!(skc.settlement_open, 1600);
    assert_eq!(skc.settlement_close, 5200);
    assert!(skc.public_key.same(&st.public.derived.public_key));
    assert!(check(&skc));
    assert_eq!(
        skc.signature.0.to_bytes(),
        key(1)
            .sign(format!("{}:1600:5200", text(&key(1))).as_bytes())
            .to_bytes()
    );
    let refused = activate_post_handler(&st, Err("no body".to_string()), 1000)
        .err()
        .unwrap();
    assert_eq!((refused.code, refused.desc.as_str()), (400, "no body"));
}

#[test]
fn submit_enqueues_a_token_of_this_contract() {
    let mut st = state();
    let r = submit_post_handler(&mut st, Ok(token(&key(1), &key(10), &key(20), 100)), 90);
    assert_eq!((r.code, r.desc.as_str()), (200, "OK"));
    assert_eq!(st.tracker.sts.len(), 1);
    assert_eq!(st.tracker.log.events.len(), 1);
    let r = submit_post_handler(&mut st, Err("malformed".to_string()), 90);
    assert_eq!((r.code, r.desc.as_str()), (400, "malformed"));
    assert_eq!(st.tracker.sts.len(), 1);
}

#[test]
fn bad_signature() {
    let mut st = state();
    let mut bad = token(&key(1), &key(10), &key(20), 100);
    let mut bytes = bad.signature.0.to_bytes();
    bytes[63] ^= 0x80;
    bad.signature = Base64(Signature::from_bytes(&bytes));
    let r = submit_post_handler(&mut st, Ok(bad), 90);
    assert_eq!((r.code, r.desc.as_str()), (400, "invalid signature"));
    assert_eq!(st.tracker.sts.len(), 0);
    assert!(st.tracker.log.events.is_empty());
}

#[test]
fn wrong_contract() {
    let mut st = state();
    let elsewhere = key(2);
    let r = submit_post_handler(&mut st, Ok(token(&elsewhere, &key(10), &key(20), 100)), 90);
    assert_eq!(
        (r.code, r.desc.as_str()),
        (400, "Sharetoken is not for this contract")
    );
    assert_eq!(st.tracker.sts.len(), 0);
}

#[test]
fn withdrawal_draft_exclusivity() {
    let mut st = state();
    let r = key(20);
    let rk = text(&r);
    st.tracker.balances.draft(&rk, Decimal::from_u64(100)).unwrap();
    st.tracker.balances.commit(&rk, Action::Apply);

    let forwarded = withdraw_post_handler(&mut st, withdrawal(&r, 40, "dummy"), 10)
        .ok()
        .unwrap();
    assert_eq!(forwarded.amount, 40);
    assert_eq!(st.tracker.balances.get(&rk).unwrap().pending, -40);
    assert!(matches!(
        withdrawal_outcome(&rk, WithdrawalState::Pending),
        Routing::Watch
    ));

    let second = withdraw_post_handler(&mut st, withdrawal(&r, 10, "dummy"), 11)
        .err()
        .unwrap();
    assert_eq!(second.code, 500);
    assert!(second.desc.contains("already pending"));
    assert_eq!(st.tracker.balances.get(&rk).unwrap().pending, -40);

    let update = match withdrawal_outcome(&rk, WithdrawalState::Complete) {
        Routing::Update(u) => u,
        Routing::Watch => panic!("a complete withdrawal is not watched"),
    };
    assert_eq!(update.relay, rk);
    assert_eq!(update.action, Action::Apply);
    st.tracker.txn_tick(vec![update], 12);
    let v = st.tracker.balances.get(&rk).unwrap();
    assert_eq!((v.available, v.pending), (60, 0));
}

#[test]
fn a_failed_withdrawal_is_aborted() {
    let mut st = state();
    let r = key(20);
    let rk = text(&r);
    st.tracker.balances.draft(&rk, Decimal::from_u64(100)).unwrap();
    st.tracker.balances.commit(&rk, Action::Apply);
    withdraw_post_handler(&mut st, withdrawal(&r, 40, "dummy"), 10)
        .ok()
        .unwrap();
    match withdrawal_outcome(&rk, WithdrawalState::Error) {
        Routing::Update(BalanceUpdate { relay, action }) => {
            assert_eq!(relay, rk);
            assert_eq!(action, Action::Abort);
            st.tracker.txn_tick(vec![BalanceUpdate { relay, action }], 12);
        }
        Routing::Watch => panic!("a failed withdrawal is not watched"),
    }
    let v = st.tracker.balances.get(&rk).unwrap();
    assert_eq!((v.available, v.pending), (100, 0));
}

#[test]
fn a_withdrawal_is_refused_for_want_of_a_payout_method_or_funds() {
    let mut st = state();
    let r = key(20);
    let e = withdraw_post_handler(&mut st, withdrawal(&r, 40, "bank"), 10)
        .err()
        .unwrap();
    assert_eq!(
        (e.code, e.desc.as_str()),
        (500, "no payout methods fits withdrawal")
    );
    assert_eq!(st.tracker.balances.len(), 0);
    let e = withdraw_post_handler(&mut st, withdrawal(&r, 40, "dummy"), 10)
        .err()
        .unwrap();
    assert_eq!((e.code, e.desc.as_str()), (500, "you got zero cash!"));
    let e = withdraw_post_handler(&mut st, Err(HeaderError::MissingHeaders.status()), 10)
        .err()
        .unwrap();
    assert_eq!((e.code, e.desc.as_str()), (400, "missing headers"));
    assert!(st.tracker.log.events.is_empty());
}

#[test]
fn a_relay_is_shown_its_balance() {
    let mut st = state();
    let r = key(20);
    let rk = text(&r);
    st.tracker.balances.draft(&rk, Decimal::new(675, 1).unwrap()).unwrap();
    st.tracker.balances.commit(&rk, Action::Apply);
    let v = balance_get_handler(&st, withdrawal(&r, 0, "dummy")).ok().unwrap();
    assert_eq!((v.currency.as_str(), v.available, v.pending), ("USD", 67, 0));
    let e = balance_get_handler(&st, withdrawal(&key(21), 0, "dummy"))
        .err()
        .unwrap();
    assert_eq!((e.code, e.desc.as_str()), (404, "No such balance"));
    let refused: Result<HeaderSignedJson<WithdrawalRequest>, Status> =
        Err(HeaderError::InvalidSignature.status());
    let e = balance_get_handler(&st, refused).err().unwrap();
    assert_eq!((e.code, e.desc.as_str()), (400, "invalid signature"));
}

#[test]
fn relays_enroll_and_leave() {
    let mut st = state();
    let a = relay(&key(20), Role::Fronting, "wss://a");
    let b = relay(&key(21), Role::Backing, "wss://b");
    let r = relays_post_handler(&mut st, Ok(a.clone()));
    assert_eq!((r.code, r.desc.as_str()), (200, "OK"));
    relays_post_handler(&mut st, Ok(b.clone()));
    assert_eq!(st.relays.list().len(), 2);
    assert_eq!(st.public.derived.enrollment.fronting.count, 1);
    assert_eq!(st.public.derived.enrollment.backing.count, 1);
    assert_eq!(st.public.derived.enrollment.entropic.count, 0);
    assert!(st.relays.contains_key("wss://a"));
    // the same address again takes the place of the first
    relays_post_handler(&mut st, Ok(relay(&key(22), Role::Fronting, "wss://a")));
    assert_eq!(st.relays.list().len(), 2);
    assert!(st.relays.list()[0].public_key.same(&Base64(key(22).verifying_key())));
    assert_eq!(st.public.derived.enrollment.fronting.count, 2);

    let r = relays_delete_handler(&mut st, Ok(relay(&key(20), Role::Fronting, "wss://nowhere")));
    assert_eq!((r.code, r.desc.as_str()), (404, "No such relay"));
    let r = relays_delete_handler(&mut st, Ok(b));
    assert_eq!((r.code, r.desc.as_str()), (200, "OK"));
    assert_eq!(st.relays.list().len(), 1);
    assert!(!st.relays.contains_key("wss://b"));
    assert_eq!(st.public.derived.enrollment.backing.count, 0);
    let r = relays_delete_handler(&mut st, Err("bad".to_string()));
    assert_eq!((r.code, r.desc.as_str()), (400, "bad"));
    let r = relays_post_handler(&mut st, Err("worse".to_string()));
    assert_eq!((r.code, r.desc.as_str()), (400, "worse"));
}

#[test]
fn a_full_role_takes_no_more_relays() {
    let mut st = state();
    st.public.derived.enrollment.entropic.count = u32::MAX;
    let r = relays_post_handler(&mut st, Ok(relay(&key(20), Role::Entropic, "wss://a")));
    assert_eq!((r.code, r.desc.as_str()), (500, "Too many relays!"));
    assert!(st.relays.list().is_empty());
    assert_eq!(st.public.derived.enrollment.entropic.count, u32::MAX);
}

#[test]
fn role_counts_are_recorded() {
    let mut info = RoleInfo {
        count: 0,
        restricted: true,
    };
    assert!(!info.record(-1));
    assert_eq!(info.count, 0);
    assert!(info.record(127));
    assert!(info.record(-128 + 1));
    assert_eq!(info.count, 0);
    assert!(info.restricted);
    let mut e = Enrollment::new();
    e.role(Role::Backing).record(3);
    assert_eq!((e.fronting.count, e.entropic.count, e.backing.count), (0, 0, 3));
    e.role(Role::Fronting).count = 9;
    assert_eq!(e.fronting.count, 9);
}

#[test]
fn the_relay_list_is_signed_by_the_directory() {
    let st = state();
    let body = "{\"wss://a\":{}}";
    let (k, s) = relays_get_handler(&st, body);
    assert_eq!(k.name, "wireleap-directory-pubkey");
    assert_eq!(k.value.as_deref(), Some(text(&key(1)).as_str()));
    assert_eq!(s.name, "wireleap-directory-signature");
    assert_eq!(
        s.value.clone().unwrap(),
        Base64(key(1).sign(body.as_bytes())).to_string()
    );
    // what the directory signs, a client admits
    let got = HeaderSignedJson::from_request(&vec![k, s], body.as_bytes(), Ok::<u8, String>(0))
        .ok()
        .unwrap();
    assert_eq!(got.signatory, Signatory::Directory);
}

#[test]
fn a_proof_of_funding_is_signed_over_type_expiration_and_nonce() {
    let kp = key(1);
    let pof: Pof = mk_pof(&kp, "test".to_string(), "abc123".to_string(), 1000, 600);
    assert_eq!(pof.pof_type, "test");
    assert_eq!(pof.nonce, "abc123");
    assert_eq!(pof.expiration, 1600);
    assert_eq!(
        pof.signature.0.to_bytes(),
        kp.sign(b"test:1600:abc123").to_bytes()
    );
}

#[test]
fn accesskeys_hold_one_proof_for_each_nonce() {
    let st = state();
    let request = AccesskeyRequest {
        pof_type: "test".to_string(),
        quantity: 3,
        duration: 600,
    };
    let nonces: Vec<String> = ["a", "b", "c"].iter().map(|s| s.to_string()).collect();
    let ak = issue_accesskeys_post_handler(&st, Ok(request), nonces, 1000)
        .ok()
        .unwrap();
    assert_eq!(ak.version, "1.2.3");
    assert_eq!(ak.contract.endpoint, "http://127.0.0.1:8081");
    assert!(ak.contract.public_key.same(&st.public.derived.public_key));
    assert_eq!(ak.pofs.len(), 3);
    for (pof, nonce) in ak.pofs.iter().zip(["a", "b", "c"]) {
        assert_eq!(pof.nonce, nonce);
        assert_eq!(pof.expiration, 1600);
        assert_eq!(
            pof.signature.0.to_bytes(),
            key(1).sign(format!("test:1600:{}", nonce).as_bytes()).to_bytes()
        );
    }
    let e = issue_accesskeys_post_handler(&st, Err("bad".to_string()), vec![], 1000)
        .err()
        .unwrap();
    assert_eq!((e.code, e.desc.as_str()), (400, "bad"));
}

#[test]
fn withdrawal_requests_that_can_be_read_are_in_order() {
    let wr = WithdrawalRequest {
        w_type: "dummy".to_string(),
        amount: 1,
        destination: "x".to_string(),
    };
    let r = verify_withdrawal_request_post_handler(Ok(wr));
    assert_eq!((r.code, r.desc.as_str()), (200, "OK"));
    let r = verify_withdrawal_request_post_handler(Err("bad".to_string()));
    assert_eq!((r.code, r.desc.as_str()), (400, "bad"));
}

#[test]
fn the_trial_payment_system_decides_by_destination() {
    let wr = |d: &str| WithdrawalRequest {
        w_type: "dummy".to_string(),
        amount: 1,
        destination: d.to_string(),
    };
    let w = withdrawals_post_handler(Ok(wr("wallet")), "id1".to_string(), 77)
        .ok()
        .unwrap();
    assert_eq!(w.id, "id1");
    assert_eq!(w.state_data.state, WithdrawalState::Complete);
    assert_eq!(w.state_data.state_changed, 77);
    assert_eq!(w.receipt, "RECEIPT");
    assert_eq!(w.withdrawal_request.destination, "wallet");
    let w = withdrawals_post_handler(Ok(wr("want_pending")), "id2".to_string(), 78)
        .ok()
        .unwrap();
    assert_eq!(w.state_data.state, WithdrawalState::Pending);
    let e = withdrawals_post_handler(Ok(wr("want_error")), "id3".to_string(), 79)
        .err()
        .unwrap();
    assert_eq!(
        (e.code, e.desc.as_str()),
        (400, "as requested, withdrawal failed with error!")
    );
    let e = withdrawals_post_handler(Err("bad".to_string()), "id4".to_string(), 80)
        .err()
        .unwrap();
    assert_eq!((e.code, e.desc.as_str()), (400, "bad"));
    let s = withdrawals_get_handler(81);
    assert_eq!(s.state, WithdrawalState::Complete);
    assert_eq!(s.state_changed, 81);
    let req = buy_get_handler(4);
    assert_eq!((req.quantity, req.pof_type.as_str(), req.duration), (4, "test", 600));
}
