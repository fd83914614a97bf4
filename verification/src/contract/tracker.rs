//! The settlement tracker. It takes in share tokens, keeps them until they fall
//! due, and on each tick turns those that are due into rewards on the relays'
//! balances. What it did is recorded in its log.

use vstd::prelude::*;
use crate::api::chronosort::ChronoSort;
use crate::api::timestamp::Timestamped;
use crate::api::Sharetoken;
use crate::contract::calc::ShareCalc;
pub use crate::contract::ledger::{Action, BalanceUpdate, BalanceView, Balances};
use crate::contract::ledger::{
    DraftError, Ledger, applied, commit_restores_quiescence, committed, default_currency,
    drafted, entry, lists, quiescent, restored, snapshot_view, updated, verdict,
};
use crate::contract::queue::{
    DueQueue, due_count, due_count_is, due_count_parts, due_count_splits, in_order,
    nothing_due_stays, place,
};
use crate::contract::shares::{
    Share, ShareView, count_for_pair, counted_pair_occurs, every_token_is_counted_once, find_key,
    pairs, servicekeys, settled_pairs, settled_pairs_are_orderly, share_of, share_views, shares,
    sum_counts, tally,
};
use crate::decimal::Decimal;

verus! {

/// An event of the tracker log.
#[derive(Debug)]
pub enum Event {
    /// A share token was submitted: servicekey, relay.
    Submission(String, String),
    /// A relay's balance changed on settlement: servicekey, relay, amount.
    Distribution(String, String, Decimal),
    /// A withdrawal was drafted: relay, change.
    WithdrawalPending(String, Decimal),
    /// A withdrawal ended: relay, what was done with the change.
    WithdrawalFinal(String, Action),
    /// A servicekey was settled: servicekey.
    Settlement(String),
}

/// An event with its keys as text.
pub enum EventView {
    Submission(Seq<char>, Seq<char>),
    Distribution(Seq<char>, Seq<char>, Decimal),
    WithdrawalPending(Seq<char>, Decimal),
    WithdrawalFinal(Seq<char>, Action),
    Settlement(Seq<char>),
}

impl View for Event {
    type V = EventView;

    open spec fn view(&self) -> EventView {
        match *self {
            Event::Submission(sk, rk) => EventView::Submission(sk@, rk@),
            Event::Distribution(sk, rk, amount) => EventView::Distribution(sk@, rk@, amount),
            Event::WithdrawalPending(rk, delta) => EventView::WithdrawalPending(rk@, delta),
            Event::WithdrawalFinal(rk, action) => EventView::WithdrawalFinal(rk@, action),
            Event::Settlement(sk) => EventView::Settlement(sk@),
        }
    }
}

/// The tracker log: when the tracker started, and its events with their times.
#[derive(Debug)]
pub struct TrackerLog {
    pub start: i64,
    pub events: Vec<(i64, Event)>,
}

/// Events with the time at which each was recorded.
pub type Record = Seq<(i64, EventView)>;

/// The events, all recorded at the same time.
pub open spec fn stamped(now: i64, events: Seq<EventView>) -> Record {
    events.map_values(|e: EventView| (now, e))
}

impl TrackerLog {
    /// The events of the log in the order in which they were recorded.
    pub open spec fn record(&self) -> Record {
        self.events@.map_values(|e: (i64, Event)| (e.0, e.1@))
    }

    /// An empty log of a tracker that starts at `start`.
    pub fn new(start: i64) -> (r: TrackerLog)
        ensures
            r.start == start,
            r.record() == Seq::<(i64, EventView)>::empty(),
    {
        let r = TrackerLog { start, events: Vec::new() };
        assert(r.record() =~= Seq::<(i64, EventView)>::empty());
        r
    }

    /// Records an event.
    pub fn add(&mut self, now: i64, e: Event)
        ensures
            final(self).start == old(self).start,
            final(self).record() == old(self).record().push((now, e@)),
    {
        self.events.push((now, e));
        assert(self.record() =~= old(self).record().push((now, e@)));
    }
}

/// Why a settlement stopped.
#[derive(Clone, Copy, Debug)]
pub enum SettleError {
    /// The reward of a share could not be computed.
    NoReward,
    /// The reward of a share is below zero.
    NegativeReward,
    /// The ledger refused the reward.
    Refused(DraftError),
}

/// The reward that a share earns: the reward rule applied to `count / total`.
pub open spec fn reward_for<C: ShareCalc>(calc: &C, share: ShareView) -> Option<Decimal> {
    match Decimal::of_parts((share.count as int, 0)).over(
        Decimal::of_parts((share.total as int, 0)),
    ) {
        Some(ratio) => calc.reward_of(ratio),
        None => None,
    }
}

/// The reward that the ledger grants for a share, or why it is not credited.
pub open spec fn grant<C: ShareCalc>(calc: &C, m: Ledger, share: ShareView) -> Result<
    Decimal,
    SettleError,
> {
    match reward_for(calc, share) {
        None => Err(SettleError::NoReward),
        Some(reward) => if reward.m() < 0 {
            Err(SettleError::NegativeReward)
        } else {
            match verdict(entry(m, share.rk).0, entry(m, share.rk).1, reward) {
                Ok(()) => Ok(reward),
                Err(e) => Err(SettleError::Refused(e)),
            }
        },
    }
}

/// The ledger once a share has been handled: where its reward is granted it has
/// been drafted and applied for the relay; where the ledger refuses it the draft
/// has left its trace; where there is no reward to draft the ledger is as it was.
pub open spec fn credited<C: ShareCalc>(calc: &C, m: Ledger, share: ShareView) -> Ledger {
    match grant(calc, m, share) {
        Ok(reward) => committed(drafted(m, share.rk, reward), share.rk, Action::Apply),
        Err(SettleError::Refused(_)) => drafted(m, share.rk, reward_for(calc, share)->Some_0),
        Err(_) => m,
    }
}

/// Whether every share is credited: `Ok`, or the reason for which the first share
/// that is not credited stops the settlement.
pub open spec fn settlement<C: ShareCalc>(calc: &C, m: Ledger, list: Seq<ShareView>) -> Result<
    (),
    SettleError,
>
    decreases list.len(),
{
    if list.len() == 0 {
        Ok(())
    } else {
        match grant(calc, m, list[0]) {
            Err(e) => Err(e),
            Ok(_) => settlement(calc, credited(calc, m, list[0]), list.drop_first()),
        }
    }
}

/// The ledger after a settlement: the shares credited one after the other, up to
/// and with the first that is not.
pub open spec fn settled<C: ShareCalc>(calc: &C, m: Ledger, list: Seq<ShareView>) -> Ledger
    decreases list.len(),
{
    if list.len() == 0 {
        m
    } else if grant(calc, m, list[0]) is Err {
        credited(calc, m, list[0])
    } else {
        settled(calc, credited(calc, m, list[0]), list.drop_first())
    }
}

/// The distributions that a settlement records: one for each share credited, in
/// order, up to the first that is not.
pub open spec fn distributions<C: ShareCalc>(calc: &C, m: Ledger, list: Seq<ShareView>) -> Seq<
    EventView,
>
    decreases list.len(),
{
    if list.len() == 0 {
        Seq::empty()
    } else {
        match grant(calc, m, list[0]) {
            Err(_) => Seq::empty(),
            Ok(reward) => seq![EventView::Distribution(list[0].sk, list[0].rk, reward)]
                + distributions(calc, credited(calc, m, list[0]), list.drop_first()),
        }
    }
}

/// The settlements that are recorded once every share is credited: one for each
/// servicekey.
pub open spec fn settlements(sks: Seq<Seq<char>>) -> Seq<EventView> {
    sks.map_values(|sk: Seq<char>| EventView::Settlement(sk))
}

/// The records of the withdrawals that a list of balance updates ends.
pub open spec fn finals(now: i64, updates: Seq<BalanceUpdate>) -> Record {
    updates.map_values(|u: BalanceUpdate| (now, EventView::WithdrawalFinal(u.relay@, u.action)))
}

/// The tokens that the items of a queue wrap.
pub open spec fn tokens(items: Seq<ChronoSort<Sharetoken>>) -> Seq<Sharetoken> {
    items.map_values(|c: ChronoSort<Sharetoken>| c.0)
}

/// The tokens that are due at `now`: those at the head of the queue whose
/// settlement close is not after it.
pub open spec fn due_tokens(queue: Seq<ChronoSort<Sharetoken>>, now: int) -> Seq<Sharetoken> {
    tokens(queue.take(due_count(queue, now) as int))
}

/// When to tick next: when the first token that is not yet due falls due, or after
/// the interval where none waits.
pub open spec fn next_tick(queue: Seq<ChronoSort<Sharetoken>>, now: int, interval: int) -> int {
    if due_count(queue, now) < queue.len() {
        queue[due_count(queue, now) as int].0.stamp()
    } else {
        now + interval
    }
}

/// The tracker keeps track of share tokens, of shares during settlement, and of
/// the resulting balances.
pub struct Tracker<C: ShareCalc> {
    /// The rule that turns a share into a reward.
    pub calc: C,
    /// How long to wait for the next tick, in seconds, where no token waits.
    pub interval: i64,
    /// The share tokens that wait for settlement, earliest due first.
    pub sts: DueQueue<Sharetoken>,
    /// The balances table with available and pending relay balances.
    pub balances: Balances,
    /// Settled share tokens that are still to be written to the archive.
    pub archive_q: Vec<Sharetoken>,
    /// Log of this tracker.
    pub log: TrackerLog,
}

/// What a tracker hands over when it shuts down.
pub struct Remains {
    /// The share tokens that were not settled.
    pub unsettled: Vec<Sharetoken>,
    /// The settled share tokens that were not archived.
    pub archive: Vec<Sharetoken>,
    /// The snapshot of the balances.
    pub balances: Vec<(String, Decimal, Decimal)>,
    /// The log.
    pub log: TrackerLog,
}

impl<C: ShareCalc> Tracker<C> {
    /// A tracker with the given reward rule and tick interval, that starts at
    /// `start` with the balances of a snapshot, or with none.
    pub fn new(
        calc: C,
        interval: i64,
        saved: Option<Vec<(String, Decimal, Decimal)>>,
        start: i64,
    ) -> (r: Tracker<C>)
        ensures
            r.calc == calc,
            r.interval == interval,
            r.sts@ == Seq::<ChronoSort<Sharetoken>>::empty(),
            r.archive_q@ == Seq::<Sharetoken>::empty(),
            r.log.start == start,
            r.log.record() == Seq::<(i64, EventView)>::empty(),
            r.balances@ == match saved {
                Some(snapshot) => restored(snapshot_view(snapshot@)),
                None => Map::<Seq<char>, (Decimal, Decimal)>::empty(),
            },
            r.balances.currency() == default_currency(),
    {
        let balances = match saved {
            Some(snapshot) => Balances::from(snapshot),
            None => Balances::new(),
        };
        Tracker {
            calc,
            interval,
            sts: DueQueue::new(),
            balances,
            archive_q: Vec::new(),
            log: TrackerLog::new(start),
        }
    }

    /// Enqueues a share token for settlement and records its submission.
    pub fn push(&mut self, st: Sharetoken, now: i64)
        ensures
            final(self).sts@ == old(self).sts@.insert(
                place(old(self).sts@, st.stamp()) as int,
                ChronoSort(st),
            ),
            final(self).log.record() == old(self).log.record().push(
                (now, EventView::Submission(st.servicekey_text(), st.relay_text())),
            ),
            final(self).log.start == old(self).log.start,
            final(self).balances == old(self).balances,
            final(self).archive_q == old(self).archive_q,
            final(self).calc == old(self).calc,
            final(self).interval == old(self).interval,
    {
        let sk = st.public_key.to_string();
        let rk = st.relay_pubkey.to_string();
        self.log.add(now, Event::Submission(sk, rk));
        self.sts.push(st);
    }

    /// Takes the balance updates that have come, in the order in which they came,
    /// commits each relay's pending change as its update says, and records it.
    pub fn txn_tick(&mut self, updates: Vec<BalanceUpdate>, now: i64)
        ensures
            final(self).balances@ == updated(old(self).balances@, updates@),
            final(self).balances.currency() == old(self).balances.currency(),
            final(self).log.record() == old(self).log.record() + finals(now, updates@),
            final(self).log.start == old(self).log.start,
            final(self).sts == old(self).sts,
            final(self).archive_q == old(self).archive_q,
            final(self).calc == old(self).calc,
            final(self).interval == old(self).interval,
    {
        let mut i: usize = 0;
        proof {
            assert(finals(now, updates@.take(0)) =~= Seq::<(i64, EventView)>::empty());
            assert(old(self).log.record() + finals(now, updates@.take(0)) =~= old(
                self,
            ).log.record());
        }
        while i < updates.len()
            invariant
                i <= updates@.len(),
                self.balances@ == updated(old(self).balances@, updates@.take(i as int)),
                self.balances.currency() == old(self).balances.currency(),
                self.log.record() == old(self).log.record() + finals(now, updates@.take(i as int)),
                self.log.start == old(self).log.start,
                self.sts == old(self).sts,
                self.archive_q == old(self).archive_q,
                self.calc == old(self).calc,
                self.interval == old(self).interval,
            decreases updates.len() - i,
        {
            proof {
                let next = updates@.take(i + 1);
                assert(next.drop_last() == updates@.take(i as int));
                assert(next.last() == updates@[i as int]);
                assert(finals(now, next) =~= finals(now, updates@.take(i as int)).push(
                    (now, EventView::WithdrawalFinal(updates@[i as int].relay@, updates@[i as int].action)),
                ));
            }
            let u = &updates[i];
            self.balances.commit(u.relay.as_str(), u.action);
            self.log.add(now, Event::WithdrawalFinal(u.relay.clone(), u.action));
            i = i + 1;
        }
        proof {
            assert(updates@.take(updates.len() as int) == updates@);
        }
    }

    /// Drafts a withdrawal of `amount` from a relay's balance and, where the ledger
    /// grants it, records it as pending.
    pub fn draft_withdrawal(&mut self, rk: &str, amount: u64, now: i64) -> (r: Result<
        (),
        DraftError,
    >)
        ensures
            r == verdict(
                entry(old(self).balances@, rk@).0,
                entry(old(self).balances@, rk@).1,
                withdrawal(amount),
            ),
            final(self).balances@ == drafted(old(self).balances@, rk@, withdrawal(amount)),
            final(self).balances.currency() == old(self).balances.currency(),
            final(self).log.record() == if r is Ok {
                old(self).log.record().push(
                    (now, EventView::WithdrawalPending(rk@, withdrawal(amount))),
                )
            } else {
                old(self).log.record()
            },
            final(self).log.start == old(self).log.start,
            final(self).sts == old(self).sts,
            final(self).archive_q == old(self).archive_q,
            final(self).calc == old(self).calc,
            final(self).interval == old(self).interval,
    {
        let delta = Decimal::from_u64(amount).neg();
        proof {
            Decimal::parts_of(-(amount as int), 0);
            Decimal::same_parts(delta, withdrawal(amount));
        }
        let r = self.balances.draft(rk, delta);
        if r.is_ok() {
            self.log.add(now, Event::WithdrawalPending(String::from_str(rk), delta));
        }
        r
    }

    /// Takes out of the queue the share tokens that are due at `t`, in the order in
    /// which they fall due, and says when to tick next.
    fn drain(&mut self, t: i64) -> (r: (Vec<Sharetoken>, i64))
        requires
            i64::MIN <= t + old(self).interval <= i64::MAX,
        ensures
            r.0@ == due_tokens(old(self).sts@, t as int),
            r.1 == next_tick(old(self).sts@, t as int, old(self).interval as int),
            final(self).sts@ == old(self).sts@.skip(due_count(old(self).sts@, t as int) as int),
            due_count(old(self).sts@, t as int) <= old(self).sts@.len(),
            in_order(old(self).sts@),
            final(self).balances == old(self).balances,
            final(self).log == old(self).log,
            final(self).archive_q == old(self).archive_q,
            final(self).calc == old(self).calc,
            final(self).interval == old(self).interval,
    {
        let ghost queue = self.sts@;
        let mut due: Vec<Sharetoken> = Vec::new();
        let mut next: i64 = t + self.interval;
        let waiting = self.sts.len();
        loop
            invariant_except_break
                next == t + self.interval,
            invariant
                waiting == queue.len(),
                queue == old(self).sts@,
                in_order(queue),
                due@.len() <= queue.len(),
                self.sts@ == queue.skip(due@.len() as int),
                due@ == tokens(queue.take(due@.len() as int)),
                forall|i: int| 0 <= i < due@.len() ==> (#[trigger] queue[i]).0.stamp() <= t,
                self.balances == old(self).balances,
                self.log == old(self).log,
                self.archive_q == old(self).archive_q,
                self.calc == old(self).calc,
                self.interval == old(self).interval,
            ensures
                due@.len() < queue.len() ==> queue[due@.len() as int].0.stamp() > t && next
                    == queue[due@.len() as int].0.stamp(),
                due@.len() == queue.len() ==> next == t + self.interval,
            decreases waiting - due.len(),
        {
            let head: Option<i64> = match self.sts.peek() {
                Some(st) => Some(st.timestamp()),
                None => None,
            };
            match head {
                None => {
                    break ;
                },
                Some(close) => {
                    assert(self.sts@[0] == queue[due@.len() as int]);
                    if close <= t {
                        let ghost n = due@.len() as int;
                        match self.sts.pop() {
                            Some(st) => {
                                due.push(st);
                            },
                            None => {},
                        }
                        proof {
                            assert(queue.skip(n).drop_first() =~= queue.skip(n + 1));
                            assert(tokens(queue.take(n + 1)) =~= tokens(queue.take(n)).push(
                                queue[n].0,
                            ));
                        }
                    } else {
                        next = close;
                        break ;
                    }
                },
            }
        }
        proof {
            due_count_is(queue, t as int, due@.len() as int);
        }
        (due, next)
    }

    /// Credits the shares to the relays, one after the other, and records each
    /// distribution. Stops at the first share that cannot be credited.
    fn distribute(&mut self, list: &Vec<Share>, now: i64) -> (r: Result<(), SettleError>)
        ensures
            r == settlement(&old(self).calc, old(self).balances@, share_views(list@)),
            final(self).balances@ == settled(
                &old(self).calc,
                old(self).balances@,
                share_views(list@),
            ),
            final(self).balances.currency() == old(self).balances.currency(),
            final(self).log.record() == old(self).log.record() + stamped(
                now,
                distributions(&old(self).calc, old(self).balances@, share_views(list@)),
            ),
            final(self).log.start == old(self).log.start,
            final(self).sts == old(self).sts,
            final(self).archive_q == old(self).archive_q,
            final(self).calc == old(self).calc,
            final(self).interval == old(self).interval,
    {
        let ghost all = share_views(list@);
        let ghost start = self.balances@;
        let ghost written: Seq<EventView> = Seq::empty();
        let mut j: usize = 0;
        proof {
            assert(all.skip(0) =~= all);
            assert(stamped(now, written) =~= Seq::<(i64, EventView)>::empty());
        }
        while j < list.len()
            invariant
                j <= list.len(),
                all == share_views(list@),
                start == old(self).balances@,
                settlement(&self.calc, start, all) == settlement(
                    &self.calc,
                    self.balances@,
                    all.skip(j as int),
                ),
                settled(&self.calc, start, all) == settled(
                    &self.calc,
                    self.balances@,
                    all.skip(j as int),
                ),
                distributions(&self.calc, start, all) == written + distributions(
                    &self.calc,
                    self.balances@,
                    all.skip(j as int),
                ),
                self.log.record() == old(self).log.record() + stamped(now, written),
                self.balances.currency() == old(self).balances.currency(),
                self.log.start == old(self).log.start,
                self.sts == old(self).sts,
                self.archive_q == old(self).archive_q,
                self.calc == old(self).calc,
                self.interval == old(self).interval,
            decreases list.len() - j,
        {
            let ghost rest = all.skip(j as int);
            let ghost m = self.balances@;
            proof {
                assert(rest[0] == list@[j as int]@);
                assert(rest.drop_first() =~= all.skip(j + 1));
            }
            let share = &list[j];
            let count = Decimal::from_u64(share.count);
            let total = Decimal::from_u64(share.total);
            proof {
                Decimal::parts_of(share.count as int, 0);
                Decimal::parts_of(share.total as int, 0);
                Decimal::same_parts(count, Decimal::of_parts((share.count as int, 0)));
                Decimal::same_parts(total, Decimal::of_parts((share.total as int, 0)));
            }
            let reward = match count.checked_div(total) {
                Some(ratio) => self.calc.reward(ratio),
                None => None,
            };
            assert(reward == reward_for(&self.calc, rest[0]));
            let reward = match reward {
                Some(reward) => reward,
                None => {
                    proof {
                        assert(written + Seq::<EventView>::empty() =~= written);
                    }
                    return Err(SettleError::NoReward);
                },
            };
            if reward.is_sign_negative() {
                proof {
                    assert(written + Seq::<EventView>::empty() =~= written);
                }
                return Err(SettleError::NegativeReward);
            }
            match self.balances.draft(share.rk.as_str(), reward) {
                Err(e) => {
                    proof {
                        assert(written + Seq::<EventView>::empty() =~= written);
                    }
                    return Err(SettleError::Refused(e));
                },
                Ok(()) => {},
            }
            self.balances.commit(share.rk.as_str(), Action::Apply);
            self.log.add(now, Event::Distribution(share.sk.clone(), share.rk.clone(), reward));
            proof {
                let event = EventView::Distribution(rest[0].sk, rest[0].rk, reward);
                assert(stamped(now, written.push(event)) =~= stamped(now, written).push(
                    (now, event),
                ));
                assert(written + (seq![event] + distributions(
                    &self.calc,
                    self.balances@,
                    all.skip(j + 1),
                )) =~= written.push(event) + distributions(
                    &self.calc,
                    self.balances@,
                    all.skip(j + 1),
                ));
                written = written.push(event);
            }
            j = j + 1;
        }
        proof {
            assert(written + Seq::<EventView>::empty() =~= written);
        }
        Ok(())
    }

    /// Records the settlement of each servicekey among the tokens.
    fn record_settlements(&mut self, due: &Vec<Sharetoken>, now: i64)
        ensures
            final(self).log.record() == old(self).log.record() + stamped(
                now,
                settlements(servicekeys(due@)),
            ),
            final(self).log.start == old(self).log.start,
            final(self).balances == old(self).balances,
            final(self).sts == old(self).sts,
            final(self).archive_q == old(self).archive_q,
            final(self).calc == old(self).calc,
            final(self).interval == old(self).interval,
    {
        let mut seen: Vec<String> = Vec::new();
        let mut i: usize = 0;
        proof {
            assert(stamped(now, settlements(servicekeys(due@.take(0)))) =~= Seq::<
                (i64, EventView),
            >::empty());
        }
        while i < due.len()
            invariant
                i <= due.len(),
                seen@.len() == servicekeys(due@.take(i as int)).len(),
                forall|j: int|
                    0 <= j < seen@.len() ==> (#[trigger] seen@[j])@ == servicekeys(
                        due@.take(i as int),
                    )[j],
                self.log.record() == old(self).log.record() + stamped(
                    now,
                    settlements(servicekeys(due@.take(i as int))),
                ),
                self.log.start == old(self).log.start,
                self.balances == old(self).balances,
                self.sts == old(self).sts,
                self.archive_q == old(self).archive_q,
                self.calc == old(self).calc,
                self.interval == old(self).interval,
            decreases due.len() - i,
        {
            let ghost before = servicekeys(due@.take(i as int));
            let sk = due[i].public_key.to_string();
            proof {
                let next = due@.take(i + 1);
                assert(next.drop_last() == due@.take(i as int));
                assert(next.last() == due@[i as int]);
            }
            match find_key(&seen, sk.as_str()) {
                Some(j) => {
                    proof {
                        assert(before[j as int] == sk@);
                        assert(before.contains(sk@));
                    }
                },
                None => {
                    proof {
                        if before.contains(sk@) {
                            let l = choose|l: int| 0 <= l < before.len() && before[l] == sk@;
                            assert(seen@[l]@ == sk@);
                        }
                        assert(stamped(now, settlements(before.push(sk@))) =~= stamped(
                            now,
                            settlements(before),
                        ).push((now, EventView::Settlement(sk@))));
                    }
                    seen.push(sk.clone());
                    self.log.add(now, Event::Settlement(sk));
                },
            }
            i = i + 1;
        }
        proof {
            assert(due@.take(due.len() as int) == due@);
        }
    }

    /// Settles the share tokens that are due at `t`.
    ///
    /// The tokens whose settlement close is not after `t` leave the queue, in the
    /// order in which they fall due, and go to the archive queue. Each relay's share
    /// of each servicekey among them, the number of the servicekey's tokens that
    /// the relay holds over the number of all of them, is turned into a reward and
    /// credited to the relay, once, and the distribution is recorded; this goes
    /// servicekey by servicekey, once all the tokens are counted. Once every
    /// share is credited the settlement of each servicekey is recorded. The result
    /// is the time of the next tick: the settlement close of the first token that
    /// still waits, or `t` plus the interval where none does.
    ///
    /// Where a share cannot be credited the settlement stops there, and the result
    /// says why.
    pub fn tick(&mut self, t: i64) -> (r: Result<i64, SettleError>)
        requires
            i64::MIN <= t + old(self).interval <= i64::MAX,
        ensures
            final(self).sts@ == old(self).sts@.skip(due_count(old(self).sts@, t as int) as int),
            final(self).archive_q@ == old(self).archive_q@ + due_tokens(old(self).sts@, t as int),
            final(self).balances@ == settled(
                &old(self).calc,
                old(self).balances@,
                shares(due_tokens(old(self).sts@, t as int)),
            ),
            final(self).balances.currency() == old(self).balances.currency(),
            r == match settlement(
                &old(self).calc,
                old(self).balances@,
                shares(due_tokens(old(self).sts@, t as int)),
            ) {
                Ok(()) => Ok::<i64, SettleError>(
                    next_tick(old(self).sts@, t as int, old(self).interval as int) as i64,
                ),
                Err(e) => Err(e),
            },
            final(self).log.record() == old(self).log.record() + stamped(
                t,
                distributions(
                    &old(self).calc,
                    old(self).balances@,
                    shares(due_tokens(old(self).sts@, t as int)),
                ),
            ) + if r is Ok {
                stamped(t, settlements(servicekeys(due_tokens(old(self).sts@, t as int))))
            } else {
                Seq::<(i64, EventView)>::empty()
            },
            in_order(old(self).sts@),
            final(self).sts@ == old(self).sts@.filter(crate::contract::queue::later(t as int)),
            due_tokens(old(self).sts@, t as int) == tokens(
                old(self).sts@.filter(crate::contract::queue::due(t as int)),
            ),
            forall|i: int, j: int|
                0 <= i <= j < due_tokens(old(self).sts@, t as int).len() ==> due_tokens(
                    old(self).sts@,
                    t as int,
                )[i].stamp() <= due_tokens(old(self).sts@, t as int)[j].stamp(),
            quiescent(old(self).balances@)
                ==> quiescent(final(self).balances@),
            final(self).log.start == old(self).log.start,
            final(self).calc == old(self).calc,
            final(self).interval == old(self).interval,
    {
        let (due, next) = self.drain(t);
        proof {
            due_count_parts(old(self).sts@, t as int);
            due_tokens_are_ordered(old(self).sts@, t as int);
            if quiescent(old(self).balances@) {
                settlement_keeps_quiescence(
                    &old(self).calc,
                    old(self).balances@,
                    shares(due_tokens(old(self).sts@, t as int)),
                );
            }
        }
        let list = tally(&due);
        let outcome = self.distribute(&list, t);
        if outcome.is_ok() {
            self.record_settlements(&due, t);
        }
        let mut due = due;
        self.archive_q.append(&mut due);
        match outcome {
            Ok(()) => Ok(next),
            Err(e) => {
                proof {
                    let written = old(self).log.record() + stamped(
                        t,
                        distributions(
                            &old(self).calc,
                            old(self).balances@,
                            shares(due_tokens(old(self).sts@, t as int)),
                        ),
                    );
                    assert(written + Seq::<(i64, EventView)>::empty() =~= written);
                }
                Err(e)
            },
        }
    }

    /// Ends the tracker and hands over what is to be saved: the share tokens that
    /// still wait, those that are settled but not archived, a snapshot of the
    /// balances, and the log.
    pub fn shutdown(self) -> (r: Remains)
        ensures
            r.unsettled@ == tokens(self.sts@),
            r.archive == self.archive_q,
            lists(snapshot_view(r.balances@), self.balances@),
            r.log == self.log,
    {
        let Tracker { calc: _, interval: _, sts, balances, archive_q, log } = self;
        let mut sts = sts;
        let ghost queue = sts@;
        let mut unsettled: Vec<Sharetoken> = Vec::new();
        let waiting = sts.len();
        while unsettled.len() < waiting
            invariant
                waiting == queue.len(),
                unsettled@.len() <= queue.len(),
                sts@ == queue.skip(unsettled@.len() as int),
                unsettled@ == tokens(queue.take(unsettled@.len() as int)),
            decreases waiting - unsettled.len(),
        {
            let ghost n = unsettled@.len() as int;
            match sts.pop() {
                Some(st) => {
                    unsettled.push(st);
                },
                None => {},
            }
            proof {
                assert(queue.skip(n).drop_first() =~= queue.skip(n + 1));
                assert(tokens(queue.take(n + 1)) =~= tokens(queue.take(n)).push(queue[n].0));
            }
        }
        proof {
            assert(queue.take(queue.len() as int) == queue);
        }
        Remains { unsettled, archive: archive_q, balances: balances.export(), log }
    }

    /// Takes the settled share tokens that are to be archived.
    pub fn take_archive(&mut self) -> (r: Vec<Sharetoken>)
        ensures
            r@ == old(self).archive_q@,
            final(self).archive_q@ == Seq::<Sharetoken>::empty(),
            final(self).balances == old(self).balances,
            final(self).log == old(self).log,
            final(self).sts == old(self).sts,
            final(self).calc == old(self).calc,
            final(self).interval == old(self).interval,
    {
        let mut taken: Vec<Sharetoken> = Vec::new();
        core::mem::swap(&mut self.archive_q, &mut taken);
        taken
    }

    /// Puts back a settled share token that could not be archived, to be tried
    /// again after the next tick.
    pub fn defer_archive(&mut self, st: Sharetoken)
        ensures
            final(self).archive_q@ == old(self).archive_q@.push(st),
            final(self).balances == old(self).balances,
            final(self).log == old(self).log,
            final(self).sts == old(self).sts,
            final(self).calc == old(self).calc,
            final(self).interval == old(self).interval,
    {
        self.archive_q.push(st);
    }
}

/// Settlement order: the tokens that a tick settles leave the queue in the order
/// of their settlement close, none of them is due after the tick's time, and every
/// token that stays is.
pub proof fn due_tokens_are_ordered(queue: Seq<ChronoSort<Sharetoken>>, now: int)
    requires
        in_order(queue),
    ensures
        due_tokens(queue, now).len() == due_count(queue, now) <= queue.len(),
        forall|i: int, j: int|
            0 <= i <= j < due_tokens(queue, now).len() ==> due_tokens(queue, now)[i].stamp()
                <= due_tokens(queue, now)[j].stamp(),
        forall|i: int|
            0 <= i < due_tokens(queue, now).len() ==> (#[trigger] due_tokens(queue, now)[i]).stamp()
                <= now,
        forall|i: int|
            0 <= i < queue.skip(due_count(queue, now) as int).len() ==> (#[trigger] queue.skip(
                due_count(queue, now) as int,
            )[i]).0.stamp() > now,
{
    due_count_splits(queue, now);
    let n = due_count(queue, now) as int;
    let due = due_tokens(queue, now);
    assert forall|i: int| 0 <= i < due.len() implies (#[trigger] due[i]) == queue[i].0 by {
        assert(queue.take(n)[i] == queue[i]);
    }
    assert forall|i: int, j: int| 0 <= i <= j < due.len() implies due[i].stamp()
        <= due[j].stamp() by {
        assert(due[i] == queue[i].0);
        assert(due[j] == queue[j].0);
    }
    assert forall|i: int| 0 <= i < due.len() implies (#[trigger] due[i]).stamp() <= now by {
        assert(due[i] == queue[i].0);
    }
    assert forall|i: int| 0 <= i < queue.skip(n).len() implies (#[trigger] queue.skip(
        n,
    )[i]).0.stamp() > now by {
        assert(queue.skip(n)[i] == queue[n + i]);
    }
}

/// A share that is granted is credited in full and once: the relay's available
/// balance grows by the reward, nothing stays pending for it, and no other relay's
/// entry changes.
pub proof fn granted_share_is_credited<C: ShareCalc>(
    calc: &C,
    m: Ledger,
    share: ShareView,
    other: Seq<char>,
)
    requires
        grant(calc, m, share) is Ok,
        other != share.rk,
    ensures
        entry(credited(calc, m, share), share.rk) == (
            applied(entry(m, share.rk).0, grant(calc, m, share)->Ok_0),
            Decimal::zero_value(),
        ),
        entry(credited(calc, m, share), other) == entry(m, other),
        settled(calc, m, seq![share]) == credited(calc, m, share),
        settlement(calc, m, seq![share]) is Ok,
        distributions(calc, m, seq![share]) == seq![
            EventView::Distribution(share.sk, share.rk, grant(calc, m, share)->Ok_0),
        ],
{
    let one = seq![share];
    assert(one[0] == share);
    assert(one.drop_first() =~= Seq::<ShareView>::empty());
    let after = credited(calc, m, share);
    assert(settled(calc, after, one.drop_first()) == after);
    assert(settlement(calc, after, one.drop_first()) is Ok);
    assert(distributions(calc, after, one.drop_first()) =~= Seq::<EventView>::empty());
    assert(distributions(calc, m, one) =~= seq![
        EventView::Distribution(share.sk, share.rk, grant(calc, m, share)->Ok_0),
    ]);
}

/// A settlement leaves the relays that have no share among the tokens as they
/// were.
pub proof fn settlement_leaves_others<C: ShareCalc>(
    calc: &C,
    m: Ledger,
    list: Seq<ShareView>,
    other: Seq<char>,
)
    requires
        forall|i: int| 0 <= i < list.len() ==> (#[trigger] list[i]).rk != other,
    ensures
        entry(settled(calc, m, list), other) == entry(m, other),
    decreases list.len(),
{
    if list.len() > 0 {
        let after = credited(calc, m, list[0]);
        assert(list[0].rk != other);
        assert(entry(after, other) == entry(m, other));
        if grant(calc, m, list[0]) is Ok {
            let rest = list.drop_first();
            assert forall|i: int| 0 <= i < rest.len() implies (#[trigger] rest[i]).rk != other by {
                assert(rest[i] == list[i + 1]);
            }
            settlement_leaves_others(calc, after, rest, other);
        }
    }
}

/// The rewards of the shares that a relay has in a list, in the order of the list.
pub open spec fn rewards_of<C: ShareCalc>(calc: &C, list: Seq<ShareView>, rk: Seq<char>) -> Seq<
    Decimal,
>
    decreases list.len(),
{
    if list.len() == 0 {
        Seq::empty()
    } else if list[0].rk == rk {
        seq![reward_for(calc, list[0])->Some_0] + rewards_of(calc, list.drop_first(), rk)
    } else {
        rewards_of(calc, list.drop_first(), rk)
    }
}

/// A balance to which rewards have been applied, one after the other.
pub open spec fn raised(available: Decimal, rewards: Seq<Decimal>) -> Decimal
    decreases rewards.len(),
{
    if rewards.len() == 0 {
        available
    } else {
        raised(applied(available, rewards[0]), rewards.drop_first())
    }
}

/// What a settlement credits to a relay: where every share is granted, a relay
/// with nothing pending ends with its balance raised by the rewards of its shares,
/// each applied once and in order, and with nothing pending.
pub proof fn settlement_adds_up<C: ShareCalc>(
    calc: &C,
    m: Ledger,
    list: Seq<ShareView>,
    rk: Seq<char>,
)
    requires
        settlement(calc, m, list) is Ok,
        entry(m, rk).1.m() == 0,
    ensures
        entry(settled(calc, m, list), rk).0 == raised(entry(m, rk).0, rewards_of(calc, list, rk)),
        entry(settled(calc, m, list), rk).1.m() == 0,
    decreases list.len(),
{
    if list.len() > 0 {
        let share = list[0];
        let rest = list.drop_first();
        let after = credited(calc, m, share);
        let reward = grant(calc, m, share)->Ok_0;
        assert(reward_for(calc, share) == Some(reward));
        Decimal::parts_of(0, 0);
        if share.rk == rk {
            let given = seq![reward] + rewards_of(calc, rest, rk);
            assert(given[0] == reward);
            assert(given.drop_first() =~= rewards_of(calc, rest, rk));
            assert(entry(after, rk).0 == applied(entry(m, rk).0, reward));
        } else {
            assert(entry(after, rk) == entry(m, rk));
        }
        settlement_adds_up(calc, after, rest, rk);
    }
}

/// What a tick credits. Of the tokens that are due every one is counted once, in
/// the share of its servicekey and its relay; each pair of servicekey and relay
/// that holds a token has one share, and no other pair has one. Where every share
/// is granted, a relay with nothing pending ends with its balance raised by the
/// reward of each of its shares, `reward(count / total)`, applied once, and with
/// nothing pending.
pub proof fn tick_credits_shares<C: ShareCalc>(
    calc: &C,
    m: Ledger,
    due: Seq<Sharetoken>,
    rk: Seq<char>,
)
    requires
        settlement(calc, m, shares(due)) is Ok,
        entry(m, rk).1.m() == 0,
    ensures
        entry(settled(calc, m, shares(due)), rk).0 == raised(
            entry(m, rk).0,
            rewards_of(calc, shares(due), rk),
        ),
        entry(settled(calc, m, shares(due)), rk).1.m() == 0,
        sum_counts(due, settled_pairs(due))
            == due.len(),
        forall|sk: Seq<char>, other: Seq<char>| #[trigger]
            settled_pairs(due).contains((sk, other))
                <==> count_for_pair(due, sk, other) > 0,
        forall|i: int, j: int|
            0 <= i < j < settled_pairs(due).len()
                ==> settled_pairs(due)[i]
                != settled_pairs(due)[j],
        forall|i: int|
            0 <= i < shares(due).len() ==> #[trigger] shares(due)[i]
                == share_of(
                due,
                settled_pairs(due)[i],
            ),
{
    settlement_adds_up(calc, m, shares(due), rk);
    every_token_is_counted_once(due);
    settled_pairs_are_orderly(due);
}

/// A relay that holds none of the tokens keeps its balance through their
/// settlement, whether the settlement ends or stops.
pub proof fn relay_without_tokens_keeps_balance<C: ShareCalc>(
    calc: &C,
    m: Ledger,
    due: Seq<Sharetoken>,
    rk: Seq<char>,
)
    requires
        forall|i: int| 0 <= i < due.len() ==> (#[trigger] due[i]).relay_text() != rk,
    ensures
        entry(settled(calc, m, shares(due)), rk) == entry(m, rk),
{
    let list = shares(due);
    settled_pairs_are_orderly(due);
    assert forall|i: int| 0 <= i < list.len() implies (#[trigger] list[i]).rk != rk by {
        let pair = settled_pairs(due)[i];
        assert(list[i].rk == pair.1);
        if pair.1 == rk {
            assert(settled_pairs(due).contains(pair));
            assert(settled_pairs(due).contains((pair.0, pair.1)));
            counted_pair_occurs(due, pair.0, pair.1);
        }
    }
    settlement_leaves_others(calc, m, list, rk);
}

/// A tick that follows a tick at the same time, with nothing pushed between them,
/// settles nothing: no token is due, so the ledger stays as it is and nothing is
/// recorded; and the next tick is due when the first token that waits falls due,
/// or after the interval where none waits.
pub proof fn second_tick_settles_nothing<C: ShareCalc>(
    calc: &C,
    m: Ledger,
    queue: Seq<ChronoSort<Sharetoken>>,
    now: int,
    interval: int,
)
    requires
        in_order(queue),
    ensures
        ({
            let rest = queue.skip(due_count(queue, now) as int);
            &&& due_count(rest, now) == 0
            &&& rest.skip(due_count(rest, now) as int) == rest
            &&& due_tokens(rest, now) == Seq::<Sharetoken>::empty()
            &&& shares(due_tokens(rest, now)) == Seq::<ShareView>::empty()
            &&& settled(calc, m, shares(due_tokens(rest, now))) == m
            &&& settlement(calc, m, shares(due_tokens(rest, now))) is Ok
            &&& distributions(calc, m, shares(due_tokens(rest, now))) == Seq::<EventView>::empty()
            &&& next_tick(rest, now, interval) == if rest.len() == 0 {
                now + interval
            } else {
                rest[0].0.stamp()
            }
        }),
{
    nothing_due_stays(queue, now);
    let rest = queue.skip(due_count(queue, now) as int);
    assert(rest.skip(0) =~= rest);
    assert(due_tokens(rest, now) =~= Seq::<Sharetoken>::empty());
    nothing_to_settle();
}

/// No token, no share.
pub proof fn nothing_to_settle()
    ensures
        shares(Seq::<Sharetoken>::empty()) == Seq::<ShareView>::empty(),
{
    let none = Seq::<Sharetoken>::empty();
    assert(pairs(none) =~= Seq::empty());
    assert(servicekeys(none) =~= Seq::empty());
    assert(settled_pairs(none) =~= Seq::empty());
    assert(shares(none) =~= Seq::<ShareView>::empty());
}

/// A settlement leaves nothing pending: in a ledger with nothing pending, every
/// reward that is drafted is applied at once, and a reward that is not granted
/// leaves no change behind.
pub proof fn settlement_keeps_quiescence<C: ShareCalc>(calc: &C, m: Ledger, list: Seq<ShareView>)
    requires
        quiescent(m),
    ensures
        quiescent(settled(calc, m, list)),
    decreases list.len(),
{
    if list.len() > 0 {
        let share = list[0];
        let after = credited(calc, m, share);
        Decimal::parts_of(0, 0);
        assert(quiescent(after)) by {
            match grant(calc, m, share) {
                Ok(reward) => {
                    commit_restores_quiescence(
                        m,
                        share.rk,
                        reward,
                        Action::Apply,
                    );
                },
                Err(SettleError::Refused(_)) => {
                    let reward = reward_for(calc, share)->Some_0;
                    assert forall|k: Seq<char>| after.contains_key(k) implies (
                    #[trigger] after[k]).1.m() == 0 by {
                        if k != share.rk {
                            assert(m.contains_key(k));
                        }
                    }
                },
                Err(_) => {},
            }
        }
        if grant(calc, m, share) is Ok {
            settlement_keeps_quiescence(calc, after, list.drop_first());
        }
    }
}

/// The change that a withdrawal of `amount` drafts: `-amount`.
pub open spec fn withdrawal(amount: u64) -> Decimal {
    Decimal::of_parts((-(amount as int), 0))
}

} // verus!
