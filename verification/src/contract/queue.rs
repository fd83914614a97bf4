//! The queue of share tokens that wait for settlement, earliest due first.

use std::collections::VecDeque;
use vstd::prelude::*;
use crate::api::chronosort::{ChronoSort, no_later_than};
use crate::api::timestamp::Timestamped;

verus! {

/// Whether the items are in order of their timestamps, sooner before later.
pub open spec fn in_order<T: Timestamped>(items: Seq<ChronoSort<T>>) -> bool {
    forall|i: int, j: int| 0 <= i <= j < items.len() ==> items[i].0.stamp() <= items[j].0.stamp()
}

/// How many items at the head of the queue are due at `now`: those whose
/// timestamp is not after it.
pub open spec fn due_count<T: Timestamped>(items: Seq<ChronoSort<T>>, now: int) -> nat
    decreases items.len(),
{
    if items.len() == 0 || items[0].0.stamp() > now {
        0
    } else {
        1 + due_count(items.drop_first(), now)
    }
}

/// Where a new item with timestamp `stamp` goes: behind every item that is not
/// later than it.
pub open spec fn place<T: Timestamped>(items: Seq<ChronoSort<T>>, stamp: int) -> nat {
    due_count(items, stamp)
}

/// In an ordered queue the due items are exactly the first `due_count` ones.
pub proof fn due_count_splits<T: Timestamped>(items: Seq<ChronoSort<T>>, now: int)
    requires
        in_order(items),
    ensures
        due_count(items, now) <= items.len(),
        forall|i: int| 0 <= i < due_count(items, now) ==> (#[trigger] items[i]).0.stamp() <= now,
        forall|i: int|
            due_count(items, now) <= i < items.len() ==> (#[trigger] items[i]).0.stamp() > now,
    decreases items.len(),
{
    if items.len() == 0 || items[0].0.stamp() > now {
    } else {
        let rest = items.drop_first();
        assert forall|i: int, j: int| 0 <= i <= j < rest.len() implies rest[i].0.stamp()
            <= rest[j].0.stamp() by {
            assert(rest[i] == items[i + 1]);
            assert(rest[j] == items[j + 1]);
        }
        due_count_splits(rest, now);
        assert forall|i: int| 0 <= i < due_count(items, now) implies (#[trigger] items[i]).0.stamp()
            <= now by {
            if i > 0 {
                assert(items[i] == rest[i - 1]);
            }
        }
        assert forall|i: int| due_count(items, now) <= i < items.len() implies (
        #[trigger] items[i]).0.stamp() > now by {
            assert(items[i] == rest[i - 1]);
        }
    }
}

/// The number of due items is the only index that parts an ordered queue into what
/// is due and what is not.
pub proof fn due_count_is<T: Timestamped>(items: Seq<ChronoSort<T>>, now: int, n: int)
    requires
        0 <= n <= items.len(),
        forall|i: int| 0 <= i < n ==> (#[trigger] items[i]).0.stamp() <= now,
        n < items.len() ==> items[n].0.stamp() > now,
    ensures
        due_count(items, now) == n,
    decreases items.len(),
{
    if n == 0 {
    } else {
        let rest = items.drop_first();
        assert(items[0].0.stamp() <= now);
        assert forall|i: int| 0 <= i < n - 1 implies (#[trigger] rest[i]).0.stamp() <= now by {
            assert(rest[i] == items[i + 1]);
        }
        if n - 1 < rest.len() {
            assert(rest[n - 1] == items[n]);
        }
        due_count_is(rest, now, n - 1);
    }
}

/// Whether an item is still to come at `now`: its timestamp is after it.
pub open spec fn later<T: Timestamped>(now: int) -> spec_fn(ChronoSort<T>) -> bool {
    |c: ChronoSort<T>| c.0.stamp() > now
}

/// Whether an item is due at `now`: its timestamp is not after it.
pub open spec fn due<T: Timestamped>(now: int) -> spec_fn(ChronoSort<T>) -> bool {
    |c: ChronoSort<T>| c.0.stamp() <= now
}

/// Where a list parts into items that fail a test and, behind them, items that
/// pass it, those that pass are the part behind.
proof fn filter_is_back<A>(s: Seq<A>, n: int, p: spec_fn(A) -> bool)
    requires
        0 <= n <= s.len(),
        forall|i: int| 0 <= i < n ==> !p(#[trigger] s[i]),
        forall|i: int| n <= i < s.len() ==> p(#[trigger] s[i]),
    ensures
        s.filter(p) == s.skip(n),
    decreases s.len(),
{
    reveal(Seq::filter);
    if s.len() > 0 {
        let d = s.drop_last();
        if n == s.len() {
            filter_is_back(d, n - 1, p);
            assert(!p(s[s.len() - 1]));
            assert(d.skip(n - 1) =~= s.skip(n));
        } else {
            filter_is_back(d, n, p);
            assert(p(s[s.len() - 1]));
            assert(d.skip(n).push(s.last()) =~= s.skip(n));
        }
    } else {
        assert(s.skip(n) =~= s);
    }
}

/// Where a list parts into items that pass a test and, behind them, items that
/// fail it, those that pass are the part in front.
proof fn filter_is_front<A>(s: Seq<A>, n: int, p: spec_fn(A) -> bool)
    requires
        0 <= n <= s.len(),
        forall|i: int| 0 <= i < n ==> p(#[trigger] s[i]),
        forall|i: int| n <= i < s.len() ==> !p(#[trigger] s[i]),
    ensures
        s.filter(p) == s.take(n),
    decreases s.len(),
{
    reveal(Seq::filter);
    if s.len() > 0 {
        let d = s.drop_last();
        if n == s.len() {
            filter_is_front(d, n - 1, p);
            assert(p(s[s.len() - 1]));
            assert(d.take(n - 1).push(s.last()) =~= s.take(n));
        } else {
            filter_is_front(d, n, p);
            assert(!p(s[s.len() - 1]));
            assert(d.take(n) =~= s.take(n));
        }
    } else {
        assert(s.take(n) =~= s);
    }
}

/// Taking the due items off an ordered queue parts it in two: what leaves is
/// exactly the items that are due, what stays is exactly the items that are
/// still to come, each in the order it had.
pub proof fn due_count_parts<T: Timestamped>(items: Seq<ChronoSort<T>>, now: int)
    requires
        in_order(items),
    ensures
        due_count(items, now) <= items.len(),
        items.take(due_count(items, now) as int) == items.filter(due::<T>(now)),
        items.skip(due_count(items, now) as int) == items.filter(later::<T>(now)),
{
    due_count_splits(items, now);
    parted(items, now, due_count(items, now) as int);
}

/// A queue whose first `n` items are due and whose other items are not parts there
/// into the items that are due and the items that are still to come.
proof fn parted<T: Timestamped>(items: Seq<ChronoSort<T>>, now: int, n: int)
    requires
        0 <= n <= items.len(),
        forall|i: int| 0 <= i < n ==> (#[trigger] items[i]).0.stamp() <= now,
        forall|i: int| n <= i < items.len() ==> (#[trigger] items[i]).0.stamp() > now,
    ensures
        items.take(n) == items.filter(due::<T>(now)),
        items.skip(n) == items.filter(later::<T>(now)),
{
    assert(items.take(n) == items.filter(due::<T>(now))) by {
        let p = due::<T>(now);
        assert forall|i: int| 0 <= i < n implies p(#[trigger] items[i]) by {
            assert(items[i].0.stamp() <= now);
        }
        assert forall|i: int| n <= i < items.len() implies !p(#[trigger] items[i]) by {
            assert(items[i].0.stamp() > now);
        }
        filter_is_front(items, n, p);
    }
    assert(items.skip(n) == items.filter(later::<T>(now))) by {
        let p = later::<T>(now);
        assert forall|i: int| 0 <= i < n implies !p(#[trigger] items[i]) by {
            assert(items[i].0.stamp() <= now);
        }
        assert forall|i: int| n <= i < items.len() implies p(#[trigger] items[i]) by {
            assert(items[i].0.stamp() > now);
        }
        filter_is_back(items, n, p);
    }
}

/// Parting a queue adds nothing and loses nothing: the queue is what leaves
/// followed by what stays, and holds each item as often as the two together.
pub proof fn parting_keeps_all<T: Timestamped>(items: Seq<ChronoSort<T>>, n: int)
    requires
        0 <= n <= items.len(),
    ensures
        items == items.take(n) + items.skip(n),
        items.to_multiset() == items.take(n).to_multiset().add(items.skip(n).to_multiset()),
{
    let front = items.take(n);
    let back = items.skip(n);
    assert(items =~= front + back);
    vstd::seq_lib::lemma_multiset_commutative(front, back);
}

/// Once the due items are off an ordered queue none of what stays is due: the
/// first item that waits, if any does, is still to come.
pub proof fn nothing_due_stays<T: Timestamped>(items: Seq<ChronoSort<T>>, now: int)
    requires
        in_order(items),
    ensures
        due_count(items.skip(due_count(items, now) as int), now) == 0,
        in_order(items.skip(due_count(items, now) as int)),
{
    due_count_splits(items, now);
    let n = due_count(items, now) as int;
    let rest = items.skip(n);
    if rest.len() > 0 {
        assert(rest[0] == items[n]);
    }
    assert forall|i: int, j: int| 0 <= i <= j < rest.len() implies rest[i].0.stamp()
        <= rest[j].0.stamp() by {
        assert(rest[i] == items[n + i]);
        assert(rest[j] == items[n + j]);
    }
}

/// A queue of timestamped items that hands them out sooner before later, and items
/// of the same timestamp in the order in which they came.
pub struct DueQueue<T: Timestamped> {
    items: VecDeque<ChronoSort<T>>,
}

impl<T: Timestamped> DueQueue<T> {
    #[verifier::type_invariant]
    spec fn ordered(self) -> bool {
        in_order(self.items@)
    }

    /// The items, the next to leave first.
    pub closed spec fn view(&self) -> Seq<ChronoSort<T>> {
        self.items@
    }

    /// An empty queue.
    pub fn new() -> (r: DueQueue<T>)
        ensures
            r@ == Seq::<ChronoSort<T>>::empty(),
    {
        DueQueue { items: VecDeque::new() }
    }

    /// The number of items that wait.
    pub fn len(&self) -> (n: usize)
        ensures
            n == self@.len(),
            in_order(self@),
    {
        proof {
            use_type_invariant(self);
        }
        self.items.len()
    }

    /// Adds an item, behind every item that is not later than it.
    pub fn push(&mut self, item: T)
        ensures
            final(self)@ == old(self)@.insert(place(old(self)@, item.stamp()) as int, ChronoSort(item)),
            place(old(self)@, item.stamp()) <= old(self)@.len(),
            in_order(final(self)@),
    {
        proof {
            use_type_invariant(&*self);
        }
        let wrapped = ChronoSort(item);
        // Most items come later than all that wait: search from the back.
        let mut at: usize = self.items.len();
        while at > 0 && !no_later_than(&self.items[at - 1], &wrapped)
            invariant
                at <= self.items@.len(),
                self.items@ == old(self).items@,
                in_order(self.items@),
                wrapped.0 == item,
                forall|i: int| at <= i < self.items@.len() ==> (#[trigger] self.items@[i]).0.stamp()
                    > item.stamp(),
            decreases at,
        {
            at = at - 1;
        }
        proof {
            let items = self.items@;
            assert forall|i: int| 0 <= i < at implies (#[trigger] items[i]).0.stamp()
                <= item.stamp() by {
                assert(items[at - 1].0.stamp() <= item.stamp());
            }
            due_count_is(items, item.stamp(), at as int);
            let next = items.insert(at as int, wrapped);
            assert forall|i: int, j: int| 0 <= i <= j < next.len() implies next[i].0.stamp()
                <= next[j].0.stamp() by {
                if i < at {
                    assert(next[i] == items[i]);
                } else if i > at {
                    assert(next[i] == items[i - 1]);
                }
                if j < at {
                    assert(next[j] == items[j]);
                } else if j > at {
                    assert(next[j] == items[j - 1]);
                }
            }
        }
        let mut taken = DueQueue::new();
        core::mem::swap(self, &mut taken);
        let DueQueue { items } = taken;
        let mut items = items;
        items.insert(at, wrapped);
        *self = DueQueue { items };
    }

    /// The next item to leave, if any waits.
    pub fn peek(&self) -> (r: Option<&T>)
        ensures
            self@.len() == 0 ==> r is None,
            self@.len() > 0 ==> r == Some(&self@[0].0),
            in_order(self@),
    {
        proof {
            use_type_invariant(self);
        }
        if self.items.len() == 0 {
            None
        } else {
            Some(&self.items[0].0)
        }
    }

    /// Takes the next item out, if any waits.
    pub fn pop(&mut self) -> (r: Option<T>)
        ensures
            old(self)@.len() == 0 ==> r is None && final(self)@ == old(self)@,
            old(self)@.len() > 0 ==> r == Some(old(self)@[0].0) && final(self)@ == old(self)@.drop_first(),
            in_order(final(self)@),
    {
        proof {
            use_type_invariant(&*self);
            let items = self.items@;
            if items.len() > 0 {
                let rest = items.drop_first();
                assert(rest == items.subrange(1, items.len() as int));
                assert forall|i: int, j: int| 0 <= i <= j < rest.len() implies rest[i].0.stamp()
                    <= rest[j].0.stamp() by {
                    assert(rest[i] == items[i + 1]);
                    assert(rest[j] == items[j + 1]);
                }
            }
        }
        let mut taken = DueQueue::new();
        core::mem::swap(self, &mut taken);
        let DueQueue { items } = taken;
        let mut items = items;
        let first = items.pop_front();
        *self = DueQueue { items };
        match first {
            Some(wrapped) => Some(wrapped.0),
            None => None,
        }
    }
}

} // verus!
