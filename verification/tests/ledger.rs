use ws_contract::contract::ledger::{decide, Action, Balances, DraftError};
use ws_contract::decimal::Decimal;

fn dec(m: i128, e: u32) -> Decimal {
    Decimal::new(m, e).unwrap()
}

fn funded(rk: &str, amount: u64) -> Balances {
    let mut b = Balances::new();
    b.draft(rk, Decimal::from_u64(amount)).unwrap();
    b.commit(rk, Action::Apply);
    b
}

fn entry(b: &Balances, rk: &str) -> (Decimal, Decimal) {
    let all = b.export();
    let e = all.iter().find(|e| e.0 == rk).unwrap();
    (e.1, e.2)
}

#[test]
fn a_new_ledger_is_empty() {
    let b = Balances::new();
    assert_eq!(b.len(), 0);
    assert!(b.get("r").is_none());
    assert!(b.export().is_empty());
}

#[test]
fn a_reward_is_pending_until_it_is_applied() {
    let mut b = Balances::new();
    assert!(b.draft("r", dec(675, 1)).is_ok());
    let (a, p) = entry(&b, "r");
    assert!(a.is_zero());
    assert!(p.eq_value(dec(675, 1)));
    b.commit("r", Action::Apply);
    let (a, p) = entry(&b, "r");
    assert!(a.eq_value(dec(675, 1)));
    assert!(p.is_zero());
    assert_eq!(b.len(), 1);
}

#[test]
fn an_aborted_change_is_discarded() {
    let mut b = funded("r", 100);
    assert!(b.draft("r", Decimal::from_i64(-40)).is_ok());
    b.commit("r", Action::Abort);
    let (a, p) = entry(&b, "r");
    assert!(a.eq_value(Decimal::from_u64(100)));
    assert!(p.is_zero());
}

#[test]
fn a_second_draft_is_refused_while_one_is_pending() {
    let mut b = funded("r", 100);
    assert!(b.draft("r", Decimal::from_i64(-40)).is_ok());
    let second = b.draft("r", Decimal::from_i64(-10));
    assert!(matches!(second, Err(DraftError::AlreadyPending)));
    assert_eq!(
        second.unwrap_err().message(),
        "balance change already pending!"
    );
    // the first draft stands
    let (a, p) = entry(&b, "r");
    assert!(a.eq_value(Decimal::from_u64(100)));
    assert!(p.eq_value(Decimal::from_i64(-40)));
    // a reward is refused too
    assert!(matches!(
        b.draft("r", Decimal::from_u64(1)),
        Err(DraftError::AlreadyPending)
    ));
    // after the commit the relay can draft again
    b.commit("r", Action::Apply);
    assert!(b.draft("r", Decimal::from_i64(-10)).is_ok());
}

#[test]
fn drafts_for_different_relays_are_independent() {
    let mut b = funded("r1", 100);
    b.draft("r2", Decimal::from_u64(5)).unwrap();
    assert!(b.draft("r1", Decimal::from_i64(-1)).is_ok());
    let (a, p) = entry(&b, "r2");
    assert!(a.is_zero());
    assert!(p.eq_value(Decimal::from_u64(5)));
    b.commit("r1", Action::Apply);
    let (_, p) = entry(&b, "r2");
    assert!(p.eq_value(Decimal::from_u64(5)));
}

#[test]
fn a_withdrawal_needs_funds() {
    let mut b = Balances::new();
    let r = b.draft("r", Decimal::from_i64(-1));
    assert!(matches!(r, Err(DraftError::NoFunds)));
    assert_eq!(r.unwrap_err().message(), "you got zero cash!");
    // the relay has an entry now, with nothing in it
    assert_eq!(b.len(), 1);
    let (a, p) = entry(&b, "r");
    assert!(a.is_zero() && p.is_zero());
}

#[test]
fn a_withdrawal_must_leave_something() {
    let mut b = funded("r", 100);
    let r = b.draft("r", Decimal::from_i64(-100));
    assert!(matches!(r, Err(DraftError::Insufficient { .. })));
    assert_eq!(
        r.unwrap_err().message(),
        "insufficient balance: -100 requested, 100 available"
    );
    assert!(matches!(
        b.draft("r", Decimal::from_i64(-101)),
        Err(DraftError::Insufficient { .. })
    ));
    assert!(b.draft("r", dec(-999, 1)).is_ok());
}

#[test]
fn a_reward_must_not_overflow() {
    let mut b = Balances::new();
    let r = b.draft("r", Decimal::max_value());
    assert!(matches!(r, Err(DraftError::Overflow)));
    assert_eq!(r.unwrap_err().message(), "balance overflow!!!");
    let mut b = funded("r", 1);
    assert!(matches!(
        b.draft("r", Decimal::max_value()),
        Err(DraftError::Overflow)
    ));
    let almost = Decimal::max_value()
        .checked_sub(Decimal::from_u64(2))
        .unwrap();
    assert!(b.draft("r", almost).is_ok());
}

#[test]
fn decide_judges_a_draft_without_making_it() {
    let zero = Decimal::zero();
    let hundred = Decimal::from_u64(100);
    assert!(decide(hundred, zero, Decimal::from_i64(-40)).is_ok());
    assert!(decide(zero, zero, Decimal::from_u64(90)).is_ok());
    assert!(decide(zero, zero, zero).is_ok());
    assert!(matches!(
        decide(hundred, Decimal::from_i64(-40), Decimal::from_i64(-10)),
        Err(DraftError::AlreadyPending)
    ));
    assert!(matches!(
        decide(zero, zero, Decimal::from_i64(-1)),
        Err(DraftError::NoFunds)
    ));
    assert!(matches!(
        decide(Decimal::from_i64(-5), zero, Decimal::from_i64(-1)),
        Err(DraftError::NoFunds)
    ));
    assert!(matches!(
        decide(hundred, zero, Decimal::from_i64(-100)),
        Err(DraftError::Insufficient { .. })
    ));
    assert!(matches!(
        decide(hundred, zero, Decimal::max_value()),
        Err(DraftError::Overflow)
    ));
}

#[test]
fn a_zero_draft_leaves_nothing_pending() {
    // the one draft after which a second is still granted
    let mut b = funded("r", 100);
    assert!(b.draft("r", Decimal::zero()).is_ok());
    assert!(b.draft("r", Decimal::from_i64(-10)).is_ok());
}

#[test]
fn commit_without_a_pending_change_changes_nothing() {
    let mut b = funded("r", 100);
    b.commit("r", Action::Apply);
    b.commit("r", Action::Abort);
    let (a, p) = entry(&b, "r");
    assert!(a.eq_value(Decimal::from_u64(100)));
    assert_eq!(a.scale(), 0);
    assert!(p.is_zero());
    // a commit for a relay not yet seen gives it an empty entry
    b.commit("new", Action::Apply);
    assert_eq!(b.len(), 2);
}

#[test]
fn get_shows_whole_units() {
    let mut b = Balances::new();
    b.draft("r", dec(675, 1)).unwrap();
    b.commit("r", Action::Apply);
    b.draft("r", dec(-105, 1)).unwrap();
    let v = b.get("r").unwrap();
    assert_eq!(v.currency, "USD");
    assert_eq!(v.available, 67);
    assert_eq!(v.pending, -10);
    assert!(b.get("other").is_none());
}

#[test]
fn balances_are_shown_in_the_currency_that_is_set() {
    let mut b = funded("r", 5);
    assert_eq!(b.get("r").unwrap().currency, "USD");
    b.set_currency("EUR".to_string());
    let v = b.get("r").unwrap();
    assert_eq!((v.currency.as_str(), v.available, v.pending), ("EUR", 5, 0));
    b.draft("r", Decimal::from_i64(-1)).unwrap();
    assert_eq!(b.get("r").unwrap().currency, "EUR");
}

#[test]
fn get_gives_nothing_where_an_amount_does_not_fit() {
    let big = Decimal::max_value()
        .checked_sub(Decimal::from_u64(2))
        .unwrap();
    let mut b = Balances::new();
    b.draft("r", big).unwrap();
    assert!(b.get("r").is_none());
    b.commit("r", Action::Apply);
    assert!(b.get("r").is_none());
}

#[test]
fn restart_from_a_snapshot_keeps_the_balances() {
    let mut b = funded("r1", 100);
    b.draft("r2", dec(225, 1)).unwrap();
    b.commit("r2", Action::Apply);
    b.draft("r1", Decimal::from_i64(-40)).unwrap();
    let snapshot = b.export();
    assert_eq!(snapshot.len(), 2);
    let again = Balances::from(snapshot);
    assert_eq!(again.len(), 2);
    for rk in ["r1", "r2"] {
        let (a1, p1) = entry(&b, rk);
        let (a2, p2) = entry(&again, rk);
        assert_eq!((a1.mantissa(), a1.scale()), (a2.mantissa(), a2.scale()));
        assert_eq!((p1.mantissa(), p1.scale()), (p2.mantissa(), p2.scale()));
    }
    let (a, p) = entry(&again, "r1");
    assert!(a.eq_value(Decimal::from_u64(100)));
    assert!(p.eq_value(Decimal::from_i64(-40)));
}

#[test]
fn a_snapshot_is_read_in_order() {
    let snapshot = vec![
        ("r".to_string(), Decimal::from_u64(1), Decimal::zero()),
        ("s".to_string(), Decimal::from_u64(2), Decimal::zero()),
        ("r".to_string(), Decimal::from_u64(3), Decimal::from_i64(-1)),
    ];
    let b = Balances::from(snapshot);
    assert_eq!(b.len(), 2);
    let (a, p) = entry(&b, "r");
    assert!(a.eq_value(Decimal::from_u64(3)));
    assert!(p.eq_value(Decimal::from_i64(-1)));
}

#[test]
fn every_entry_of_a_snapshot_is_restored_as_it_was_saved() {
    let snapshot = vec![
        ("a".to_string(), Decimal::max_value(), Decimal::max_value()),
        ("b".to_string(), dec(-15, 1), dec(100, 2)),
        ("c".to_string(), Decimal::zero(), Decimal::min_value()),
        ("d".to_string(), dec(5, 28), Decimal::zero()),
    ];
    let b = Balances::from(snapshot.clone());
    assert_eq!(b.len(), snapshot.len());
    let mut out = b.export();
    out.sort_by(|x, y| x.0.cmp(&y.0));
    assert_eq!(out.len(), snapshot.len());
    for (got, saved) in out.iter().zip(snapshot.iter()) {
        assert_eq!(got.0, saved.0);
        assert_eq!((got.1.mantissa(), got.1.scale()), (saved.1.mantissa(), saved.1.scale()));
        assert_eq!((got.2.mantissa(), got.2.scale()), (saved.2.mantissa(), saved.2.scale()));
    }
}

#[test]
fn a_pending_change_whose_sum_cannot_be_computed_is_dropped_when_applied() {
    let snapshot = vec![(
        "r".to_string(),
        Decimal::max_value(),
        Decimal::max_value(),
    )];
    let mut b = Balances::from(snapshot);
    let (a, p) = entry(&b, "r");
    assert!(a.eq_value(Decimal::max_value()));
    assert!(p.eq_value(Decimal::max_value()));
    // while it is pending nothing else can be drafted
    assert!(matches!(
        b.draft("r", Decimal::from_i64(-1)),
        Err(DraftError::AlreadyPending)
    ));
    b.commit("r", Action::Apply);
    let (a, p) = entry(&b, "r");
    assert!(a.eq_value(Decimal::max_value()));
    assert!(p.is_zero());
}
