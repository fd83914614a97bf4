//! The balance ledger: for each relay what it has available and one change that
//! is pending. A change is drafted, then applied or aborted; while one is pending
//! no other can be drafted for the same relay.

use vstd::prelude::*;
use vstd::hash_map::StringHashMap;
use crate::decimal::Decimal;

verus! {

/// What is done with a pending change.
#[derive(Clone, Copy, Debug, PartialEq, Eq, Structural)]
pub enum Action {
    /// The change is added to the available balance.
    Apply,
    /// The change is discarded.
    Abort,
}

/// The outcome of a withdrawal, sent to the tracker: what to do with the relay's
/// pending change.
#[derive(Clone, Debug)]
pub struct BalanceUpdate {
    pub relay: String,
    pub action: Action,
}

/// A relay's balance in whole units of the currency.
#[derive(Clone, Debug)]
pub struct BalanceView {
    pub currency: String,
    pub available: i64,
    pub pending: i64,
}

/// Why a change cannot be drafted.
#[derive(Clone, Copy, Debug)]
pub enum DraftError {
    /// Another change is pending for the relay.
    AlreadyPending,
    /// A withdrawal from a balance that is not above zero.
    NoFunds,
    /// A withdrawal that would not leave the balance above zero.
    Insufficient { requested: Decimal, available: Decimal },
    /// The change would take the balance out of the range of a decimal.
    Overflow,
}

impl DraftError {
    /// What the error says.
    pub open spec fn text(&self) -> Seq<char> {
        match *self {
            DraftError::AlreadyPending => "balance change already pending!"@,
            DraftError::NoFunds => "you got zero cash!"@,
            DraftError::Insufficient { requested, available } => "insufficient balance: "@
                + requested.text() + " requested, "@ + available.text() + " available"@,
            DraftError::Overflow => "balance overflow!!!"@,
        }
    }

    /// What the error says.
    pub fn message(&self) -> (r: String)
        ensures
            r@ == self.text(),
    {
        match self {
            DraftError::AlreadyPending => String::from_str("balance change already pending!"),
            DraftError::NoFunds => String::from_str("you got zero cash!"),
            DraftError::Insufficient { requested, available } => {
                let mut s = String::from_str("insufficient balance: ");
                s.append(requested.to_string().as_str());
                s.append(" requested, ");
                s.append(available.to_string().as_str());
                s.append(" available");
                s
            },
            DraftError::Overflow => String::from_str("balance overflow!!!"),
        }
    }
}

/// The ledger as a map: relay key, as text, to available and pending.
pub type Ledger = Map<Seq<char>, (Decimal, Decimal)>;

/// The entry of a relay; a relay not yet seen has nothing available and nothing
/// pending.
pub open spec fn entry(m: Ledger, rk: Seq<char>) -> (Decimal, Decimal) {
    if m.contains_key(rk) {
        m[rk]
    } else {
        (Decimal::zero_value(), Decimal::zero_value())
    }
}

/// The largest decimal.
pub open spec fn ceiling() -> Decimal {
    Decimal::of_parts((crate::decimal::MAX_MANTISSA as int, 0))
}

/// The smallest decimal.
pub open spec fn floor() -> Decimal {
    Decimal::of_parts((-(crate::decimal::MAX_MANTISSA as int), 0))
}

/// Whether a change `delta` may be drafted on a balance.
///
/// With a change pending, none. A withdrawal (`delta < 0`) needs a balance above
/// zero that stays above zero, and `MIN - delta < available`. A reward
/// (`delta >= 0`) needs `MAX - delta > available`. Sums and differences that
/// cannot be computed count as overflow.
pub open spec fn verdict(available: Decimal, pending: Decimal, delta: Decimal) -> Result<
    (),
    DraftError,
> {
    if pending.m() != 0 {
        Err(DraftError::AlreadyPending)
    } else if delta.m() < 0 {
        if available.m() <= 0 {
            Err(DraftError::NoFunds)
        } else {
            match (available.plus(delta), floor().minus(delta)) {
                (Some(left), Some(bound)) => if left.m() <= 0 {
                    Err(DraftError::Insufficient { requested: delta, available })
                } else if !bound.less(available) {
                    Err(DraftError::Overflow)
                } else {
                    Ok(())
                },
                (Some(left), None) => if left.m() <= 0 {
                    Err(DraftError::Insufficient { requested: delta, available })
                } else {
                    Err(DraftError::Overflow)
                },
                (None, _) => Err(DraftError::Overflow),
            }
        }
    } else {
        match (ceiling().minus(delta), available.plus(delta)) {
            (Some(bound), Some(_)) => if !available.less(bound) {
                Err(DraftError::Overflow)
            } else {
                Ok(())
            },
            _ => Err(DraftError::Overflow),
        }
    }
}

/// The ledger after a draft for `rk`: the relay has an entry, and where the draft
/// is granted, `delta` is pending in it.
pub open spec fn drafted(m: Ledger, rk: Seq<char>, delta: Decimal) -> Ledger {
    let e = entry(m, rk);
    if verdict(e.0, e.1, delta) is Ok {
        m.insert(rk, (e.0, delta))
    } else {
        m.insert(rk, e)
    }
}

/// The available balance once a pending change is applied to it: their sum. A
/// change of zero, and a change whose sum with the balance cannot be computed,
/// leave the balance as it is.
pub open spec fn applied(available: Decimal, pending: Decimal) -> Decimal {
    if pending.m() == 0 {
        available
    } else {
        match available.plus(pending) {
            Some(sum) => sum,
            None => available,
        }
    }
}

/// The ledger after a commit for `rk`: nothing is pending, and with `Apply` what
/// was pending has been added to the available balance.
pub open spec fn committed(m: Ledger, rk: Seq<char>, action: Action) -> Ledger {
    let e = entry(m, rk);
    match action {
        Action::Apply => m.insert(rk, (applied(e.0, e.1), Decimal::zero_value())),
        Action::Abort => m.insert(rk, (e.0, Decimal::zero_value())),
    }
}

/// Whether the pending change of an entry, if there is one, can be applied.
pub open spec fn appliable(e: (Decimal, Decimal)) -> bool {
    e.1.m() != 0 ==> e.0.plus(e.1) is Some
}

/// The ledger after the commits that a list of balance updates asks for, one
/// after the other.
pub open spec fn updated(m: Ledger, updates: Seq<BalanceUpdate>) -> Ledger
    decreases updates.len(),
{
    if updates.len() == 0 {
        m
    } else {
        committed(
            updated(m, updates.drop_last()),
            updates.last().relay@,
            updates.last().action,
        )
    }
}

/// Whether nothing is pending in the ledger.
pub open spec fn quiescent(m: Ledger) -> bool {
    forall|k: Seq<char>| m.contains_key(k) ==> (#[trigger] m[k]).1.m() == 0
}

/// The ledger that a snapshot describes: every entry as it was saved. Where a
/// relay is named more than once the later entry stands.
pub open spec fn restored(snapshot: Seq<(Seq<char>, Decimal, Decimal)>) -> Ledger
    decreases snapshot.len(),
{
    if snapshot.len() == 0 {
        Map::empty()
    } else {
        let last = snapshot.last();
        restored(snapshot.drop_last()).insert(last.0, (last.1, last.2))
    }
}

/// Whether a snapshot names no relay twice.
pub open spec fn names_once(snapshot: Seq<(Seq<char>, Decimal, Decimal)>) -> bool {
    forall|i: int, j: int|
        0 <= i < j < snapshot.len() ==> #[trigger] snapshot[i].0 != #[trigger] snapshot[j].0
}

/// Whether a snapshot lists a ledger: each relay of the ledger once, with its
/// entry, and nothing else.
pub open spec fn lists(snapshot: Seq<(Seq<char>, Decimal, Decimal)>, m: Ledger) -> bool {
    &&& forall|i: int|
        0 <= i < snapshot.len() ==> m.contains_key(#[trigger] snapshot[i].0) && m[snapshot[i].0]
            == (snapshot[i].1, snapshot[i].2)
    &&& forall|k: Seq<char>| #[trigger]
        m.contains_key(k) ==> exists|i: int| 0 <= i < snapshot.len() && #[trigger] snapshot[i].0 == k
    &&& forall|i: int, j: int|
        0 <= i < j < snapshot.len() ==> #[trigger] snapshot[i].0 != #[trigger] snapshot[j].0
}

/// The view of a snapshot's entries: keys as text.
pub open spec fn snapshot_view(entries: Seq<(String, Decimal, Decimal)>) -> Seq<
    (Seq<char>, Decimal, Decimal),
> {
    entries.map_values(|e: (String, Decimal, Decimal)| (e.0@, e.1, e.2))
}

/// The balances table with available and pending relay balances.
pub struct Balances {
    h: StringHashMap<(Decimal, Decimal)>,
    keys: Vec<String>,
    currency: String,
}

impl Balances {
    #[verifier::type_invariant]
    spec fn consistent(self) -> bool {
        &&& forall|i: int| 0 <= i < self.keys@.len() ==> self.h@.contains_key(#[trigger] self.keys@[i]@)
        &&& forall|k: Seq<char>| #[trigger]
            self.h@.contains_key(k) ==> exists|i: int|
                0 <= i < self.keys@.len() && #[trigger] self.keys@[i]@ == k
        &&& forall|i: int, j: int|
            0 <= i < j < self.keys@.len() ==> #[trigger] self.keys@[i]@ != #[trigger] self.keys@[j]@
    }

    /// The ledger as a map.
    pub closed spec fn view(&self) -> Ledger {
        self.h@
    }

    /// The currency in which the balances are kept.
    pub closed spec fn currency(&self) -> Seq<char> {
        self.currency@
    }

    /// An empty ledger, in the default currency.
    pub fn new() -> (r: Balances)
        ensures
            r@ == Map::<Seq<char>, (Decimal, Decimal)>::empty(),
            r.currency() == default_currency(),
    {
        Balances { h: StringHashMap::new(), keys: Vec::new(), currency: String::from_str("USD") }
    }

    /// Sets the currency in which the balances are shown. No amount changes.
    pub fn set_currency(&mut self, currency: String)
        ensures
            final(self).currency() == currency@,
            final(self)@ == old(self)@,
    {
        proof {
            use_type_invariant(&*self);
        }
        let mut taken = Balances::new();
        core::mem::swap(self, &mut taken);
        proof {
            use_type_invariant(&taken);
        }
        let ghost before = taken;
        let Balances { h, keys, currency: _ } = taken;
        proof {
            let next = Balances { h, keys, currency };
            assert forall|k: Seq<char>| #[trigger] next.h@.contains_key(k) implies exists|i: int|
                0 <= i < next.keys@.len() && #[trigger] next.keys@[i]@ == k by {
                assert(before.h@.contains_key(k));
                let i = choose|i: int| 0 <= i < before.keys@.len() && #[trigger] before.keys@[i]@ == k;
                assert(next.keys@[i]@ == k);
            }
            assert(next.consistent());
        }
        *self = Balances { h, keys, currency };
    }

    /// Writes the entry of `rk`, which is new where `fresh` says so.
    fn store(&mut self, rk: &str, fresh: bool, available: Decimal, pending: Decimal)
        requires
            fresh == !old(self)@.contains_key(rk@),
        ensures
            final(self)@ == old(self)@.insert(rk@, (available, pending)),
            final(self).currency() == old(self).currency(),
    {
        proof {
            use_type_invariant(&*self);
        }
        let mut taken = Balances::new();
        core::mem::swap(self, &mut taken);
        proof {
            use_type_invariant(&taken);
        }
        let Balances { h, keys, currency } = taken;
        let mut h = h;
        let mut keys = keys;
        let ghost before = h@;
        let ghost listed = keys@;
        h.insert(String::from_str(rk), (available, pending));
        if fresh {
            keys.push(String::from_str(rk));
        }
        proof {
            let next = Balances { h, keys, currency };
            assert forall|i: int| 0 <= i < next.keys@.len() implies next.h@.contains_key(
                #[trigger] next.keys@[i]@,
            ) by {
                if i < listed.len() {
                    assert(before.contains_key(listed[i]@));
                }
            }
            assert forall|k: Seq<char>| #[trigger] next.h@.contains_key(k) implies exists|i: int|
                0 <= i < next.keys@.len() && #[trigger] next.keys@[i]@ == k by {
                if k == rk@ && fresh {
                    assert(next.keys@[next.keys@.len() - 1]@ == k);
                } else {
                    assert(before.contains_key(k));
                    let i = choose|i: int| 0 <= i < listed.len() && #[trigger] listed[i]@ == k;
                    assert(next.keys@[i]@ == k);
                }
            }
            assert forall|i: int, j: int| 0 <= i < j < next.keys@.len() implies #[trigger] next.keys@[i]@
                != #[trigger] next.keys@[j]@ by {
                if fresh && j == next.keys@.len() - 1 {
                    assert(before.contains_key(listed[i]@));
                }
            }
            assert(next.consistent());
        }
        *self = Balances { h, keys, currency };
    }

    /// The entry of `rk`.
    fn read(&self, rk: &str) -> (r: (bool, Decimal, Decimal))
        ensures
            r.0 == !self@.contains_key(rk@),
            (r.1, r.2) == entry(self@, rk@),
    {
        match self.h.get(rk) {
            Some(e) => (false, e.0, e.1),
            None => (true, Decimal::zero(), Decimal::zero()),
        }
    }

    /// Drafts a pending change for a relay. While it is pending no other change can
    /// be drafted for that relay; the next commit applies or aborts it.
    pub fn draft(&mut self, rk: &str, delta: Decimal) -> (r: Result<(), DraftError>)
        ensures
            r == verdict(entry(old(self)@, rk@).0, entry(old(self)@, rk@).1, delta),
            final(self)@ == drafted(old(self)@, rk@, delta),
            final(self).currency() == old(self).currency(),
    {
        let (fresh, available, pending) = self.read(rk);
        let r = decide(available, pending, delta);
        match r {
            Ok(()) => {
                self.store(rk, fresh, available, delta);
            },
            Err(_) => {
                self.store(rk, fresh, available, pending);
            },
        }
        r
    }

    /// Applies or aborts the pending change of a relay. It cannot fail: a change
    /// that cannot be added to the balance is dropped.
    pub fn commit(&mut self, rk: &str, action: Action)
        ensures
            final(self)@ == committed(old(self)@, rk@, action),
            entry(final(self)@, rk@).1.m() == 0,
            final(self).currency() == old(self).currency(),
    {
        let (fresh, available, pending) = self.read(rk);
        let zero = Decimal::zero();
        match action {
            Action::Apply => {
                let sum = if pending.is_zero() {
                    available
                } else {
                    match available.checked_add(pending) {
                        Some(sum) => sum,
                        None => available,
                    }
                };
                self.store(rk, fresh, sum, zero);
            },
            Action::Abort => {
                self.store(rk, fresh, available, zero);
            },
        }
    }

    /// The balance of a relay in whole units, rounded toward zero; `None` for a
    /// relay without an entry and where an amount does not fit.
    pub fn get(&self, rk: &str) -> (r: Option<BalanceView>)
        ensures
            r is Some <==> self@.contains_key(rk@) && in_i64(self@[rk@].0) && in_i64(self@[rk@].1),
            r matches Some(v) ==> {
                &&& v.currency@ == self.currency()
                &&& v.available == crate::decimal::truncated(self@[rk@].0.m(), self@[rk@].0.e())
                &&& v.pending == crate::decimal::truncated(self@[rk@].1.m(), self@[rk@].1.e())
            },
    {
        match self.h.get(rk) {
            None => None,
            Some(e) => match (e.0.to_i64(), e.1.to_i64()) {
                (Some(available), Some(pending)) => Some(
                    BalanceView { currency: self.currency.clone(), available, pending },
                ),
                _ => None,
            },
        }
    }

    /// The ledger that a snapshot describes: every entry as it was saved, what is
    /// available and what is pending. Entries are taken in order; where a relay is
    /// named more than once the later entry stands.
    pub fn from(src: Vec<(String, Decimal, Decimal)>) -> (r: Balances)
        ensures
            r@ == restored(snapshot_view(src@)),
            names_once(snapshot_view(src@)) ==> lists(snapshot_view(src@), r@) && r@.dom().len()
                == src@.len(),
            r.currency() == default_currency(),
    {
        proof {
            if names_once(snapshot_view(src@)) {
                snapshot_is_restored_whole(snapshot_view(src@));
            }
        }
        let mut b = Balances::new();
        let mut i: usize = 0;
        while i < src.len()
            invariant
                i <= src.len(),
                b@ == restored(snapshot_view(src@).take(i as int)),
                b.currency() == default_currency(),
            decreases src.len() - i,
        {
            let available = src[i].1;
            let pending = src[i].2;
            let (fresh, _, _) = b.read(src[i].0.as_str());
            proof {
                let next = snapshot_view(src@).take(i + 1);
                assert(next.drop_last() == snapshot_view(src@).take(i as int));
                assert(next.last() == (src@[i as int].0@, available, pending));
            }
            b.store(src[i].0.as_str(), fresh, available, pending);
            i = i + 1;
        }
        proof {
            assert(snapshot_view(src@).take(src.len() as int) == snapshot_view(src@));
        }
        b
    }

    /// A snapshot of the ledger: every relay once, with what it has available and
    /// pending.
    pub fn export(&self) -> (r: Vec<(String, Decimal, Decimal)>)
        ensures
            lists(snapshot_view(r@), self@),
    {
        proof {
            use_type_invariant(self);
        }
        let mut out: Vec<(String, Decimal, Decimal)> = Vec::new();
        let mut i: usize = 0;
        while i < self.keys.len()
            invariant
                i <= self.keys.len(),
                out@.len() == i,
                self.consistent(),
                forall|j: int|
                    0 <= j < i ==> (#[trigger] out@[j]).0@ == self.keys@[j]@ && self.h@[self.keys@[j]@]
                        == (out@[j].1, out@[j].2),
            decreases self.keys.len() - i,
        {
            let key = self.keys[i].clone();
            match self.h.get(key.as_str()) {
                Some(e) => {
                    out.push((key, e.0, e.1));
                },
                None => {
                    assert(self.h@.contains_key(self.keys@[i as int]@));
                    out.push((key, Decimal::zero(), Decimal::zero()));
                },
            }
            i = i + 1;
        }
        proof {
            let s = snapshot_view(out@);
            assert forall|j: int| 0 <= j < s.len() implies self@.contains_key(#[trigger] s[j].0)
                && self@[s[j].0] == (s[j].1, s[j].2) by {
                assert(out@[j].0@ == self.keys@[j]@);
            }
            assert forall|k: Seq<char>| #[trigger] self@.contains_key(k) implies exists|j: int|
                0 <= j < s.len() && #[trigger] s[j].0 == k by {
                let j = choose|j: int| 0 <= j < self.keys@.len() && #[trigger] self.keys@[j]@ == k;
                assert(out@[j].0@ == self.keys@[j]@);
                assert(s[j].0 == k);
            }
            assert forall|a: int, b: int| 0 <= a < b < s.len() implies #[trigger] s[a].0
                != #[trigger] s[b].0 by {
                assert(out@[a].0@ == self.keys@[a]@);
                assert(out@[b].0@ == self.keys@[b]@);
            }
        }
        out
    }

    /// How many relays have an entry.
    pub fn len(&self) -> (n: usize)
        ensures
            n == self@.dom().len(),
    {
        broadcast use vstd::hash_map::group_hash_map_axioms;

        self.h.len()
    }
}

/// Draft exclusivity: once a change other than zero has been drafted for a relay,
/// a second draft for the same relay is refused as already pending, whatever it
/// asks for.
pub proof fn second_draft_is_refused(m: Ledger, rk: Seq<char>, first: Decimal, second: Decimal)
    requires
        first.m() != 0,
        verdict(entry(m, rk).0, entry(m, rk).1, first) is Ok,
    ensures
        verdict(entry(drafted(m, rk, first), rk).0, entry(drafted(m, rk, first), rk).1, second)
            == Err::<(), DraftError>(DraftError::AlreadyPending),
        drafted(drafted(m, rk, first), rk, second) == drafted(m, rk, first),
{
    let after = drafted(m, rk, first);
    assert(after[rk] == (entry(m, rk).0, first));
    assert(after.insert(rk, after[rk]) =~= after);
}

/// A withdrawal never takes a balance to zero or below: where a withdrawal is
/// granted and then applied, what is available afterwards is above zero, and is
/// the sum that the draft looked at.
pub proof fn withdrawal_leaves_funds(m: Ledger, rk: Seq<char>, delta: Decimal)
    requires
        delta.m() < 0,
        verdict(entry(m, rk).0, entry(m, rk).1, delta) is Ok,
    ensures
        entry(m, rk).0.plus(delta) is Some,
        entry(committed(drafted(m, rk, delta), rk, Action::Apply), rk).0 == entry(m, rk).0.plus(
            delta,
        )->Some_0,
        entry(committed(drafted(m, rk, delta), rk, Action::Apply), rk).0.m() > 0,
        entry(committed(drafted(m, rk, delta), rk, Action::Abort), rk).0 == entry(m, rk).0,
{
}

/// Drafts for different relays are independent: a draft or a commit for one relay
/// leaves the entry of every other relay as it was.
pub proof fn other_relays_untouched(
    m: Ledger,
    rk: Seq<char>,
    other: Seq<char>,
    delta: Decimal,
    action: Action,
)
    requires
        rk != other,
    ensures
        entry(drafted(m, rk, delta), other) == entry(m, other),
        entry(committed(m, rk, action), other) == entry(m, other),
{
}

/// A commit ends what a draft began: in a ledger with nothing pending, a draft for
/// a relay followed by a commit for it, applied or aborted, leaves nothing pending.
pub proof fn commit_restores_quiescence(m: Ledger, rk: Seq<char>, delta: Decimal, action: Action)
    requires
        quiescent(m),
    ensures
        quiescent(committed(drafted(m, rk, delta), rk, action)),
        quiescent(committed(m, rk, action)),
{
    Decimal::parts_of(0, 0);
    let d = drafted(m, rk, delta);
    let c = committed(d, rk, action);
    assert forall|k: Seq<char>| c.contains_key(k) implies (#[trigger] c[k]).1.m() == 0 by {
        if k != rk {
            assert(m.contains_key(k));
            assert(c[k] == m[k]);
        }
    }
    let c2 = committed(m, rk, action);
    assert forall|k: Seq<char>| c2.contains_key(k) implies (#[trigger] c2[k]).1.m() == 0 by {
        if k != rk {
            assert(m.contains_key(k));
            assert(c2[k] == m[k]);
        }
    }
}

/// A ledger is restored from its snapshot as it was: restarting from what was
/// saved changes no balance, available or pending.
pub proof fn restart_keeps_balances(m: Ledger, snapshot: Seq<(Seq<char>, Decimal, Decimal)>)
    requires
        lists(snapshot, m),
    ensures
        restored(snapshot) == m,
{
    restored_prefix(m, snapshot, snapshot.len() as int);
    assert(snapshot.take(snapshot.len() as int) == snapshot);
    let r = restored(snapshot);
    assert forall|k: Seq<char>| r.contains_key(k) <==> m.contains_key(k) by {
        if m.contains_key(k) {
            let i = choose|i: int| 0 <= i < snapshot.len() && #[trigger] snapshot[i].0 == k;
            assert(snapshot[i].0 == k);
        }
    }
    assert(r =~= m);
}

/// A snapshot that names no relay twice is restored whole: the ledger has one entry
/// for each entry of the snapshot, with what was available and what was pending
/// as they were saved, and no other entry.
pub proof fn snapshot_is_restored_whole(snapshot: Seq<(Seq<char>, Decimal, Decimal)>)
    requires
        names_once(snapshot),
    ensures
        lists(snapshot, restored(snapshot)),
        restored(snapshot).dom().finite(),
        restored(snapshot).dom().len() == snapshot.len(),
    decreases snapshot.len(),
{
    let m = restored(snapshot);
    if snapshot.len() == 0 {
        assert(m.dom() =~= Set::<Seq<char>>::empty());
    } else {
        let before = snapshot.drop_last();
        let last = snapshot.last();
        assert forall|i: int, j: int| 0 <= i < j < before.len() implies #[trigger] before[i].0
            != #[trigger] before[j].0 by {
            assert(before[i] == snapshot[i]);
            assert(before[j] == snapshot[j]);
        }
        snapshot_is_restored_whole(before);
        let prev = restored(before);
        assert(m == prev.insert(last.0, (last.1, last.2)));
        assert(!prev.contains_key(last.0)) by {
            if prev.contains_key(last.0) {
                let i = choose|i: int| 0 <= i < before.len() && #[trigger] before[i].0 == last.0;
                assert(snapshot[i].0 == snapshot[snapshot.len() - 1].0);
            }
        }
        assert(m.dom() =~= prev.dom().insert(last.0));
        assert forall|i: int| 0 <= i < snapshot.len() implies m.contains_key(
            #[trigger] snapshot[i].0,
        ) && m[snapshot[i].0] == (snapshot[i].1, snapshot[i].2) by {
            if i < before.len() {
                assert(before[i] == snapshot[i]);
                assert(prev.contains_key(before[i].0));
                assert(snapshot[i].0 != snapshot[snapshot.len() - 1].0);
            }
        }
        assert forall|k: Seq<char>| #[trigger] m.contains_key(k) implies exists|i: int|
            0 <= i < snapshot.len() && #[trigger] snapshot[i].0 == k by {
            if k == last.0 {
                assert(snapshot[snapshot.len() - 1].0 == k);
            } else {
                assert(prev.contains_key(k));
                let i = choose|i: int| 0 <= i < before.len() && #[trigger] before[i].0 == k;
                assert(snapshot[i].0 == k);
            }
        }
    }
}

/// What a prefix of a listing restores: the entries of the relays it names.
proof fn restored_prefix(m: Ledger, snapshot: Seq<(Seq<char>, Decimal, Decimal)>, n: int)
    requires
        lists(snapshot, m),
        0 <= n <= snapshot.len(),
    ensures
        forall|k: Seq<char>| #[trigger]
            restored(snapshot.take(n)).contains_key(k) <==> exists|i: int|
                0 <= i < n && #[trigger] snapshot[i].0 == k,
        forall|k: Seq<char>| #[trigger]
            restored(snapshot.take(n)).contains_key(k) ==> restored(snapshot.take(n))[k] == m[k],
    decreases n,
{
    if n == 0 {
    } else {
        restored_prefix(m, snapshot, n - 1);
        let s = snapshot.take(n);
        assert(s.drop_last() == snapshot.take(n - 1));
        assert(s.last() == snapshot[n - 1]);
        let last = snapshot[n - 1];
        assert(m.contains_key(last.0) && m[last.0] == (last.1, last.2));
        let prev = restored(snapshot.take(n - 1));
        let cur = restored(s);
        assert(cur == prev.insert(last.0, (last.1, last.2)));
        assert forall|k: Seq<char>| #[trigger] cur.contains_key(k) <==> exists|i: int|
            0 <= i < n && #[trigger] snapshot[i].0 == k by {
            if cur.contains_key(k) {
                if k == last.0 {
                    assert(snapshot[n - 1].0 == k);
                } else {
                    assert(prev.contains_key(k));
                    let i = choose|i: int| 0 <= i < n - 1 && #[trigger] snapshot[i].0 == k;
                    assert(snapshot[i].0 == k);
                }
            }
            if exists|i: int| 0 <= i < n && #[trigger] snapshot[i].0 == k {
                let i = choose|i: int| 0 <= i < n && #[trigger] snapshot[i].0 == k;
                if i < n - 1 {
                    assert(snapshot[i].0 == k);
                    assert(prev.contains_key(k));
                }
            }
        }
    }
}

/// The currency in which balances are shown unless another is set.
pub open spec fn default_currency() -> Seq<char> {
    "USD"@
}

/// Whether the integer part of a decimal fits in an `i64`.
pub open spec fn in_i64(d: Decimal) -> bool {
    i64::MIN <= crate::decimal::truncated(d.m(), d.e()) <= i64::MAX
}

/// Whether a change may be drafted on a balance.
pub fn decide(available: Decimal, pending: Decimal, delta: Decimal) -> (r: Result<(), DraftError>)
    ensures
        r == verdict(available, pending, delta),
        r is Ok ==> appliable((available, delta)),
{
    if !pending.is_zero() {
        return Err(DraftError::AlreadyPending);
    }
    if delta.is_sign_negative() {
        if !available.is_positive() {
            return Err(DraftError::NoFunds);
        }
        let left = available.checked_add(delta);
        let bound = Decimal::min_value().checked_sub(delta);
        match left {
            None => Err(DraftError::Overflow),
            Some(left) => {
                if !left.is_positive() {
                    Err(DraftError::Insufficient { requested: delta, available })
                } else {
                    match bound {
                        None => Err(DraftError::Overflow),
                        Some(bound) => if bound.lt(available) {
                            Ok(())
                        } else {
                            Err(DraftError::Overflow)
                        },
                    }
                }
            },
        }
    } else {
        let bound = Decimal::max_value().checked_sub(delta);
        let sum = available.checked_add(delta);
        match (bound, sum) {
            (Some(bound), Some(_)) => if available.lt(bound) {
                Ok(())
            } else {
                Err(DraftError::Overflow)
            },
            _ => Err(DraftError::Overflow),
        }
    }
}

} // verus!
