use ws_contract::api::signable::Signable;
use ws_contract::api::{SKContract, Sharetoken};
use ws_contract::b64e::Base64;
use ws_contract::contract::calc::{DefaultShareCalc, ShareCalc};
use ws_contract::contract::ledger::{Action, BalanceUpdate, DraftError};
use ws_contract::contract::queue::DueQueue;
use ws_contract::contract::shares::tally;
use ws_contract::contract::tracker::{Event, SettleError, Tracker};
use ws_contract::contract::pause;
use ws_contract::decimal::Decimal;
use ws_contract::ed25519::{Signature, SigningKey};

fn dec(m: i128, e: u32) -> Decimal {
    Decimal::new(m, e).unwrap()
}

fn key(n: u8) -> SigningKey {
    SigningKey::from_bytes(&[n; 32])
}

fn text(k: &SigningKey) -> String {
    Base64(k.verifying_key()).to_string()
}

fn token(sk: &SigningKey, relay: &SigningKey, close: i64, nonce: &str) -> Sharetoken {
    let server = key(1);
    let mut contract = SKContract {
        public_key: Base64(server.verifying_key()),
        signature: Base64(Signature::from_bytes(&[0u8; 64])),
        settlement_open: close - 10,
        settlement_close: close,
    };
    contract.sign(&server);
    let mut st = Sharetoken {
        version: 1,
        public_key: Base64(sk.verifying_key()),
        timestamp: close - 20,
        relay_pubkey: Base64(relay.verifying_key()),
        share_key: String::new(),
        nonce: nonce.to_string(),
        signature: Base64(Signature::from_bytes(&[0u8; 64])),
        contract,
    };
    st.sign(sk);
    st
}

fn calc() -> DefaultShareCalc {
    DefaultShareCalc::from_percent(Decimal::from_u64(100), Decimal::from_u64(5)).unwrap()
}

fn tracker() -> Tracker<DefaultShareCalc> {
    Tracker::new(calc(), 5, None, 0)
}

fn available(t: &Tracker<DefaultShareCalc>, rk: &str) -> Decimal {
    let all = t.balances.export();
    all.iter().find(|e| e.0 == rk).unwrap().1
}

struct Negative;

impl ShareCalc for Negative {
    // stands for the rule in contracts only; nothing calls it
    fn reward_of(&self, _share: Decimal) -> Option<Decimal> {
        unreachable!()
    }

    fn reward(&self, _share: Decimal) -> Option<Decimal> {
        Some(Decimal::from_i64(-1))
    }
}

struct Nothing;

impl ShareCalc for Nothing {
    fn reward_of(&self, _share: Decimal) -> Option<Decimal> {
        unreachable!()
    }

    fn reward(&self, _share: Decimal) -> Option<Decimal> {
        None
    }
}

#[test]
fn reward_of_the_linear_rule() {
    let c = calc();
    assert!(c.fee_frac.eq_value(dec(5, 2)));
    assert!(c.rsh_frac.eq_value(dec(5, 2)));
    assert!(c.net().unwrap().eq_value(Decimal::from_u64(90)));
    assert!(c.reward(Decimal::one()).unwrap().eq_value(Decimal::from_u64(90)));
    assert!(c.reward(dec(75, 2)).unwrap().eq_value(dec(675, 1)));
    assert!(c.reward(dec(25, 2)).unwrap().eq_value(dec(225, 1)));
    assert!(c.reward(Decimal::zero()).unwrap().is_zero());
}

#[test]
fn reward_that_overflows_is_none() {
    let c = DefaultShareCalc {
        value: Decimal::max_value(),
        fee_frac: Decimal::from_u64(2),
        rsh_frac: Decimal::zero(),
    };
    assert!(c.net().is_none());
    assert!(c.reward(Decimal::one()).is_none());
}

#[test]
fn single_relay_single_servicekey() {
    let (k, r) = (key(10), key(20));
    let mut t = tracker();
    for n in ["a", "b", "c"] {
        t.push(token(&k, &r, 100, n), 90);
    }
    assert_eq!(t.sts.len(), 3);
    let next = t.tick(100).unwrap();
    assert_eq!(next, 105);
    assert_eq!(t.sts.len(), 0);
    assert!(available(&t, &text(&r)).eq_value(Decimal::from_u64(90)));
    let view = t.balances.get(&text(&r)).unwrap();
    assert_eq!(view.available, 90);
    assert_eq!(view.pending, 0);
    assert_eq!(t.balances.len(), 1);
    assert_eq!(t.archive_q.len(), 3);
}

#[test]
fn split_pool() {
    let (k, r1, r2) = (key(10), key(20), key(21));
    let mut t = tracker();
    t.push(token(&k, &r1, 100, "a"), 90);
    t.push(token(&k, &r2, 100, "b"), 90);
    t.push(token(&k, &r1, 100, "c"), 90);
    t.push(token(&k, &r1, 100, "d"), 90);
    t.tick(100).unwrap();
    assert!(available(&t, &text(&r1)).eq_value(dec(675, 1)));
    assert!(available(&t, &text(&r2)).eq_value(dec(225, 1)));
    assert_eq!(t.balances.len(), 2);
}

#[test]
fn future_tokens_are_deferred() {
    let (k, r) = (key(10), key(20));
    let mut t = tracker();
    t.push(token(&k, &r, 200, "a"), 90);
    assert_eq!(t.tick(100).unwrap(), 200);
    assert_eq!(t.balances.len(), 0);
    assert_eq!(t.sts.len(), 1);
    assert!(t.archive_q.is_empty());
    assert_eq!(t.tick(200).unwrap(), 205);
    assert_eq!(t.sts.len(), 0);
    assert!(available(&t, &text(&r)).eq_value(Decimal::from_u64(90)));
}

#[test]
fn a_second_tick_at_the_same_time_settles_nothing() {
    let (k, r) = (key(10), key(20));
    let mut t = tracker();
    t.push(token(&k, &r, 100, "a"), 90);
    t.push(token(&k, &r, 300, "b"), 90);
    assert_eq!(t.tick(100).unwrap(), 300);
    let events = t.log.events.len();
    let before = t.balances.export();
    assert_eq!(t.tick(100).unwrap(), 300);
    let after = t.balances.export();
    assert_eq!(before.len(), after.len());
    for (x, y) in before.iter().zip(after.iter()) {
        assert_eq!(x.0, y.0);
        assert_eq!((x.1.mantissa(), x.1.scale()), (y.1.mantissa(), y.1.scale()));
        assert_eq!((x.2.mantissa(), x.2.scale()), (y.2.mantissa(), y.2.scale()));
    }
    assert_eq!(t.log.events.len(), events);
    assert_eq!(t.sts.len(), 1);
    assert_eq!(t.archive_q.len(), 1);
    // with nothing left, the next tick is an interval away
    assert_eq!(t.tick(300).unwrap(), 305);
    assert_eq!(t.tick(300).unwrap(), 305);
    assert!(available(&t, &text(&r)).eq_value(Decimal::from_u64(180)));
}

#[test]
fn an_empty_queue_ticks_after_the_interval() {
    let mut t = tracker();
    assert_eq!(t.tick(1000).unwrap(), 1005);
    assert!(t.log.events.is_empty());
    assert_eq!(t.balances.len(), 0);
}

#[test]
fn two_servicekeys_are_settled_apart() {
    let (k1, k2, r1, r2) = (key(10), key(11), key(20), key(21));
    let mut t = tracker();
    t.push(token(&k1, &r1, 100, "a"), 90);
    t.push(token(&k2, &r1, 100, "b"), 90);
    t.push(token(&k2, &r2, 100, "c"), 90);
    t.push(token(&k1, &r1, 300, "later"), 90);
    assert_eq!(t.tick(150).unwrap(), 300);
    // r1: all of k1 and half of k2; r2: half of k2
    assert!(available(&t, &text(&r1)).eq_value(Decimal::from_u64(135)));
    assert!(available(&t, &text(&r2)).eq_value(Decimal::from_u64(45)));
    assert_eq!(t.sts.len(), 1);
    assert_eq!(t.archive_q.len(), 3);
}

#[test]
fn tokens_leave_in_the_order_of_their_settlement_close() {
    let (k, r) = (key(10), key(20));
    let mut q: DueQueue<Sharetoken> = DueQueue::new();
    for (close, nonce) in [(300, "a"), (100, "b"), (200, "c"), (100, "d"), (50, "e")] {
        q.push(token(&k, &r, close, nonce));
    }
    assert_eq!(q.len(), 5);
    assert_eq!(q.peek().unwrap().nonce, "e");
    let mut order = vec![];
    while let Some(st) = q.pop() {
        order.push((st.contract.settlement_close, st.nonce));
    }
    let expected: Vec<(i64, String)> = [(50, "e"), (100, "b"), (100, "d"), (200, "c"), (300, "a")]
        .iter()
        .map(|(c, n)| (*c, n.to_string()))
        .collect();
    assert_eq!(order, expected);
    assert!(q.peek().is_none());
    assert!(q.pop().is_none());
}

#[test]
fn the_archive_queue_holds_the_settled_tokens_in_order() {
    let (k, r) = (key(10), key(20));
    let mut t = tracker();
    t.push(token(&k, &r, 120, "late"), 90);
    t.push(token(&k, &r, 100, "early"), 90);
    t.push(token(&k, &r, 500, "future"), 90);
    t.tick(130).unwrap();
    let nonces: Vec<&str> = t.archive_q.iter().map(|s| s.nonce.as_str()).collect();
    assert_eq!(nonces, vec!["early", "late"]);
    let batch = t.take_archive();
    assert_eq!(batch.len(), 2);
    assert!(t.archive_q.is_empty());
    t.defer_archive(batch.into_iter().next().unwrap());
    assert_eq!(t.archive_q.len(), 1);
    assert_eq!(t.archive_q[0].nonce, "early");
}

#[test]
fn tally_counts_shares_servicekey_by_servicekey() {
    let (k1, k2, r1, r2) = (key(10), key(11), key(20), key(21));
    let due = vec![
        token(&k1, &r1, 100, "a"),
        token(&k2, &r2, 100, "b"),
        token(&k1, &r2, 100, "c"),
        token(&k1, &r1, 100, "d"),
    ];
    let shares = tally(&due);
    let got: Vec<(String, String, u64, u64)> = shares
        .iter()
        .map(|s| (s.sk.clone(), s.rk.clone(), s.count, s.total))
        .collect();
    assert_eq!(
        got,
        vec![
            (text(&k1), text(&r1), 2, 3),
            (text(&k1), text(&r2), 1, 3),
            (text(&k2), text(&r2), 1, 1),
        ]
    );
    assert!(tally(&vec![]).is_empty());
}

#[test]
fn the_log_records_what_the_tracker_did() {
    let (k, r1, r2) = (key(10), key(20), key(21));
    let mut t = Tracker::new(calc(), 5, None, 42);
    assert_eq!(t.log.start, 42);
    t.push(token(&k, &r1, 100, "a"), 90);
    t.push(token(&k, &r2, 100, "b"), 91);
    t.tick(100).unwrap();
    assert_eq!(t.log.events.len(), 5);
    assert!(matches!(&t.log.events[0], (90, Event::Submission(s, r)) if *s == text(&k) && *r == text(&r1)));
    assert!(matches!(&t.log.events[1], (91, Event::Submission(s, r)) if *s == text(&k) && *r == text(&r2)));
    assert!(matches!(&t.log.events[2], (100, Event::Distribution(s, r, d))
        if *s == text(&k) && *r == text(&r1) && d.eq_value(Decimal::from_u64(45))));
    assert!(matches!(&t.log.events[3], (100, Event::Distribution(s, r, d))
        if *s == text(&k) && *r == text(&r2) && d.eq_value(Decimal::from_u64(45))));
    assert!(matches!(&t.log.events[4], (100, Event::Settlement(s)) if *s == text(&k)));
}

#[test]
fn distributions_of_a_servicekey_are_recorded_together() {
    let (k1, k2, r1, r2, r3) = (key(10), key(11), key(20), key(21), key(22));
    let mut t = tracker();
    for (sk, rk, nonce) in [
        (&k1, &r1, "a"),
        (&k2, &r1, "b"),
        (&k1, &r2, "c"),
        (&k2, &r3, "d"),
        (&k1, &r1, "e"),
        (&k1, &r1, "f"),
    ] {
        t.push(token(sk, rk, 100, nonce), 90);
    }
    t.tick(100).unwrap();
    let recorded: Vec<(String, String)> = t
        .log
        .events
        .iter()
        .filter_map(|(_, e)| match e {
            Event::Distribution(sk, rk, _) => Some((sk.clone(), rk.clone())),
            _ => None,
        })
        .collect();
    assert_eq!(
        recorded,
        vec![
            (text(&k1), text(&r1)),
            (text(&k1), text(&r2)),
            (text(&k2), text(&r1)),
            (text(&k2), text(&r3)),
        ]
    );
    let n = t.log.events.len();
    assert!(matches!(&t.log.events[n - 2], (100, Event::Settlement(s)) if *s == text(&k1)));
    assert!(matches!(&t.log.events[n - 1], (100, Event::Settlement(s)) if *s == text(&k2)));
    // r1 holds three of four tokens of k1 and one of two of k2
    assert!(available(&t, &text(&r1)).eq_value(dec(1125, 1)));
    assert!(available(&t, &text(&r2)).eq_value(dec(225, 1)));
    assert!(available(&t, &text(&r3)).eq_value(Decimal::from_u64(45)));
}

#[test]
fn a_withdrawal_is_drafted_and_then_committed() {
    let (k, r) = (key(10), key(20));
    let rk = text(&r);
    let mut t = tracker();
    t.push(token(&k, &r, 100, "a"), 90);
    t.tick(100).unwrap();
    assert!(t.draft_withdrawal(&rk, 40, 110).is_ok());
    assert_eq!(t.balances.get(&rk).unwrap().pending, -40);
    assert!(matches!(
        t.draft_withdrawal(&rk, 10, 111),
        Err(DraftError::AlreadyPending)
    ));
    t.txn_tick(vec![], 112);
    assert_eq!(t.balances.get(&rk).unwrap().pending, -40);
    t.txn_tick(
        vec![BalanceUpdate {
            relay: rk.clone(),
            action: Action::Apply,
        }],
        113,
    );
    let v = t.balances.get(&rk).unwrap();
    assert_eq!((v.available, v.pending), (50, 0));
    let n = t.log.events.len();
    assert!(matches!(&t.log.events[n - 2], (110, Event::WithdrawalPending(r, d))
        if *r == rk && d.eq_value(Decimal::from_i64(-40))));
    assert!(matches!(&t.log.events[n - 1], (113, Event::WithdrawalFinal(r, Action::Apply)) if *r == rk));
}

#[test]
fn balance_updates_are_committed_in_the_order_in_which_they_came() {
    let mut t = tracker();
    t.balances.draft("a", Decimal::from_u64(10)).unwrap();
    t.balances.draft("b", Decimal::from_u64(20)).unwrap();
    let update = |relay: &str, action| BalanceUpdate {
        relay: relay.to_string(),
        action,
    };
    t.txn_tick(
        vec![
            update("a", Action::Apply),
            update("b", Action::Abort),
            update("a", Action::Apply),
        ],
        9,
    );
    let a = t.balances.get("a").unwrap();
    let b = t.balances.get("b").unwrap();
    assert_eq!((a.available, a.pending), (10, 0));
    assert_eq!((b.available, b.pending), (0, 0));
    assert_eq!(t.log.events.len(), 3);
    assert!(matches!(&t.log.events[1], (9, Event::WithdrawalFinal(r, Action::Abort)) if r == "b"));
}

#[test]
fn a_settlement_stops_where_the_ledger_refuses() {
    let (k, r1, r2) = (key(10), key(20), key(21));
    let mut t = tracker();
    t.push(token(&k, &r1, 100, "a"), 90);
    t.tick(100).unwrap();
    // a withdrawal of r1 is in flight when its next reward falls due
    t.draft_withdrawal(&text(&r1), 10, 101).unwrap();
    t.push(token(&k, &r2, 200, "b"), 150);
    t.push(token(&k, &r1, 200, "c"), 150);
    let events = t.log.events.len();
    let r = t.tick(200);
    assert!(matches!(
        r,
        Err(SettleError::Refused(DraftError::AlreadyPending))
    ));
    // r2 came first and was credited, r1 was not
    assert!(available(&t, &text(&r2)).eq_value(Decimal::from_u64(45)));
    assert!(available(&t, &text(&r1)).eq_value(Decimal::from_u64(90)));
    assert_eq!(t.balances.get(&text(&r1)).unwrap().pending, -10);
    // one distribution, no settlement
    assert_eq!(t.log.events.len(), events + 1);
    assert!(matches!(&t.log.events[events], (200, Event::Distribution(..))));
    // the tokens have left the queue all the same
    assert_eq!(t.sts.len(), 0);
    assert_eq!(t.archive_q.len(), 3);
}

#[test]
fn a_negative_reward_stops_the_settlement() {
    let (k, r) = (key(10), key(20));
    let mut t = Tracker::new(Negative, 5, None, 0);
    t.push(token(&k, &r, 100, "a"), 90);
    assert!(matches!(t.tick(100), Err(SettleError::NegativeReward)));
    assert_eq!(t.balances.len(), 0);
    assert_eq!(t.archive_q.len(), 1);
}

#[test]
fn a_reward_that_cannot_be_computed_stops_the_settlement() {
    let (k, r) = (key(10), key(20));
    let mut t = Tracker::new(Nothing, 5, None, 0);
    t.push(token(&k, &r, 100, "a"), 90);
    assert!(matches!(t.tick(100), Err(SettleError::NoReward)));
    assert_eq!(t.balances.len(), 0);
}

#[test]
fn shutdown_hands_over_what_is_to_be_saved() {
    let (k, r) = (key(10), key(20));
    let mut t = tracker();
    t.push(token(&k, &r, 100, "settled"), 90);
    t.push(token(&k, &r, 300, "waits"), 90);
    t.push(token(&k, &r, 200, "waits first"), 90);
    t.tick(100).unwrap();
    let rest = t.shutdown();
    let unsettled: Vec<&str> = rest.unsettled.iter().map(|s| s.nonce.as_str()).collect();
    assert_eq!(unsettled, vec!["waits first", "waits"]);
    assert_eq!(rest.archive.len(), 1);
    assert_eq!(rest.archive[0].nonce, "settled");
    assert_eq!(rest.balances.len(), 1);
    assert_eq!(rest.balances[0].0, text(&r));
    assert!(rest.balances[0].1.eq_value(Decimal::from_u64(90)));
    assert_eq!(rest.log.events.len(), 5);
}

#[test]
fn a_tracker_starts_from_a_snapshot() {
    let snapshot = vec![("r".to_string(), Decimal::from_u64(60), Decimal::zero())];
    let t = Tracker::new(calc(), 5, Some(snapshot), 7);
    assert_eq!(t.balances.len(), 1);
    assert_eq!(t.balances.get("r").unwrap().available, 60);
    assert_eq!(t.interval, 5);
}

#[test]
fn pause_is_the_time_to_the_next_tick() {
    assert_eq!(pause(100, 105), Some(5));
    assert_eq!(pause(100, 100), Some(0));
    assert_eq!(pause(100, 99), None);
    assert_eq!(pause(i64::MIN, i64::MAX), Some(u64::MAX));
}
