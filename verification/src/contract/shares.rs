//! How the share tokens that fall due together are counted: for every servicekey
//! how many tokens it has, and for every pair of servicekey and relay how many of
//! them the relay holds.

use vstd::prelude::*;
use crate::api::Sharetoken;
use crate::text::same_text;

verus! {

/// How many of the tokens belong to the servicekey.
pub open spec fn count_for_sk(due: Seq<Sharetoken>, sk: Seq<char>) -> nat
    decreases due.len(),
{
    if due.len() == 0 {
        0
    } else {
        count_for_sk(due.drop_last(), sk) + if due.last().servicekey_text() == sk {
            1nat
        } else {
            0nat
        }
    }
}

/// How many of the tokens belong to the servicekey and were collected by the relay.
pub open spec fn count_for_pair(due: Seq<Sharetoken>, sk: Seq<char>, rk: Seq<char>) -> nat
    decreases due.len(),
{
    if due.len() == 0 {
        0
    } else {
        count_for_pair(due.drop_last(), sk, rk) + if due.last().servicekey_text() == sk
            && due.last().relay_text() == rk {
            1nat
        } else {
            0nat
        }
    }
}

/// The pairs of servicekey and relay that occur among the tokens, each once, in
/// the order in which they first occur.
pub open spec fn pairs(due: Seq<Sharetoken>) -> Seq<(Seq<char>, Seq<char>)>
    decreases due.len(),
{
    if due.len() == 0 {
        Seq::empty()
    } else {
        let before = pairs(due.drop_last());
        let pair = (due.last().servicekey_text(), due.last().relay_text());
        if before.contains(pair) {
            before
        } else {
            before.push(pair)
        }
    }
}

/// The servicekeys that occur among the tokens, each once, in the order in which
/// they first occur.
pub open spec fn servicekeys(due: Seq<Sharetoken>) -> Seq<Seq<char>>
    decreases due.len(),
{
    if due.len() == 0 {
        Seq::empty()
    } else {
        let before = servicekeys(due.drop_last());
        let sk = due.last().servicekey_text();
        if before.contains(sk) {
            before
        } else {
            before.push(sk)
        }
    }
}

/// A relay's part in a servicekey: `count` of the servicekey's `total` tokens.
pub struct Share {
    /// The servicekey, as text.
    pub sk: String,
    /// The relay, as text.
    pub rk: String,
    /// How many of the servicekey's tokens the relay holds.
    pub count: u64,
    /// How many tokens the servicekey has.
    pub total: u64,
}

/// A share with its keys as text.
pub struct ShareView {
    pub sk: Seq<char>,
    pub rk: Seq<char>,
    pub count: nat,
    pub total: nat,
}

impl View for Share {
    type V = ShareView;

    open spec fn view(&self) -> ShareView {
        ShareView { sk: self.sk@, rk: self.rk@, count: self.count as nat, total: self.total as nat }
    }
}

/// The pairs of a list that belong to a servicekey, in the order of the list.
pub open spec fn group(list: Seq<(Seq<char>, Seq<char>)>, sk: Seq<char>) -> Seq<
    (Seq<char>, Seq<char>),
>
    decreases list.len(),
{
    if list.len() == 0 {
        Seq::empty()
    } else {
        group(list.drop_last(), sk) + if list.last().0 == sk {
            seq![list.last()]
        } else {
            Seq::empty()
        }
    }
}

/// The pairs of a list by servicekey: first those of the first servicekey, then
/// those of the second, and so on.
pub open spec fn grouped(list: Seq<(Seq<char>, Seq<char>)>, sks: Seq<Seq<char>>) -> Seq<
    (Seq<char>, Seq<char>),
>
    decreases sks.len(),
{
    if sks.len() == 0 {
        Seq::empty()
    } else {
        grouped(list, sks.drop_last()) + group(list, sks.last())
    }
}

/// The pairs of servicekey and relay among the tokens in the order in which they
/// are settled: servicekey by servicekey, the servicekeys and within each of them
/// the relays in the order in which they first occur.
pub open spec fn settled_pairs(due: Seq<Sharetoken>) -> Seq<(Seq<char>, Seq<char>)> {
    grouped(pairs(due), servicekeys(due))
}

/// The share of a pair of servicekey and relay in the tokens: how many of the
/// servicekey's tokens the relay holds, and how many the servicekey has.
pub open spec fn share_of(due: Seq<Sharetoken>, pair: (Seq<char>, Seq<char>)) -> ShareView {
    ShareView {
        sk: pair.0,
        rk: pair.1,
        count: count_for_pair(due, pair.0, pair.1),
        total: count_for_sk(due, pair.0),
    }
}

/// The shares of a list of pairs in the tokens.
pub open spec fn shares_of(due: Seq<Sharetoken>, list: Seq<(Seq<char>, Seq<char>)>) -> Seq<
    ShareView,
> {
    list.map_values(|pair: (Seq<char>, Seq<char>)| share_of(due, pair))
}

/// The shares in the tokens: one for each pair of servicekey and relay, servicekey
/// by servicekey.
pub open spec fn shares(due: Seq<Sharetoken>) -> Seq<ShareView> {
    shares_of(due, settled_pairs(due))
}

/// The views of a list of shares.
pub open spec fn share_views(list: Seq<Share>) -> Seq<ShareView> {
    list.map_values(|s: Share| s@)
}

/// No count is larger than the number of tokens.
pub proof fn counts_are_bounded(due: Seq<Sharetoken>, sk: Seq<char>, rk: Seq<char>)
    ensures
        count_for_pair(due, sk, rk) <= count_for_sk(due, sk) <= due.len(),
    decreases due.len(),
{
    if due.len() > 0 {
        counts_are_bounded(due.drop_last(), sk, rk);
    }
}

/// A pair is listed exactly where a token has it.
pub proof fn pairs_are_those_counted(due: Seq<Sharetoken>, sk: Seq<char>, rk: Seq<char>)
    ensures
        pairs(due).contains((sk, rk)) <==> count_for_pair(due, sk, rk) > 0,
    decreases due.len(),
{
    if due.len() > 0 {
        pairs_are_those_counted(due.drop_last(), sk, rk);
        let before = pairs(due.drop_last());
        let pair = (due.last().servicekey_text(), due.last().relay_text());
        if before.contains(pair) {
        } else {
            let after = before.push(pair);
            assert(after[before.len() as int] == pair);
            if before.contains((sk, rk)) {
                let i = choose|i: int| 0 <= i < before.len() && before[i] == (sk, rk);
                assert(after[i] == (sk, rk));
            }
            if after.contains((sk, rk)) && (sk, rk) != pair {
                let i = choose|i: int| 0 <= i < after.len() && after[i] == (sk, rk);
                assert(before[i] == (sk, rk));
            }
        }
    }
}

/// A servicekey is listed exactly where a token has it.
pub proof fn servicekeys_are_those_counted(due: Seq<Sharetoken>, sk: Seq<char>)
    ensures
        servicekeys(due).contains(sk) <==> count_for_sk(due, sk) > 0,
    decreases due.len(),
{
    if due.len() > 0 {
        servicekeys_are_those_counted(due.drop_last(), sk);
        let before = servicekeys(due.drop_last());
        let last = due.last().servicekey_text();
        if before.contains(last) {
        } else {
            let after = before.push(last);
            assert(after[before.len() as int] == last);
            if before.contains(sk) {
                let i = choose|i: int| 0 <= i < before.len() && before[i] == sk;
                assert(after[i] == sk);
            }
            if after.contains(sk) && sk != last {
                let i = choose|i: int| 0 <= i < after.len() && after[i] == sk;
                assert(before[i] == sk);
            }
        }
    }
}

/// Every token counts: the pair of its servicekey and its relay is counted at
/// least once, and so is listed and has a share.
pub proof fn each_token_has_its_share(due: Seq<Sharetoken>, i: int)
    requires
        0 <= i < due.len(),
    ensures
        count_for_pair(due, due[i].servicekey_text(), due[i].relay_text()) >= 1,
        count_for_sk(due, due[i].servicekey_text()) >= count_for_pair(
            due,
            due[i].servicekey_text(),
            due[i].relay_text(),
        ),
        pairs(due).contains((due[i].servicekey_text(), due[i].relay_text())),
        servicekeys(due).contains(due[i].servicekey_text()),
        settled_pairs(due).contains((due[i].servicekey_text(), due[i].relay_text())),
    decreases due.len(),
{
    let sk = due[i].servicekey_text();
    let rk = due[i].relay_text();
    if i < due.len() - 1 {
        assert(due.drop_last()[i] == due[i]);
        each_token_has_its_share(due.drop_last(), i);
    }
    counts_are_bounded(due, sk, rk);
    pairs_are_those_counted(due, sk, rk);
    servicekeys_are_those_counted(due, sk);
    grouped_members(pairs(due), servicekeys(due), (sk, rk));
}

/// No pair is listed twice: each pair of servicekey and relay has one share.
pub proof fn pairs_are_distinct(due: Seq<Sharetoken>)
    ensures
        forall|i: int, j: int| 0 <= i < j < pairs(due).len() ==> pairs(due)[i] != pairs(due)[j],
        pairs(due).len() <= due.len(),
    decreases due.len(),
{
    if due.len() > 0 {
        pairs_are_distinct(due.drop_last());
        let before = pairs(due.drop_last());
        let pair = (due.last().servicekey_text(), due.last().relay_text());
        if !before.contains(pair) {
            let after = before.push(pair);
            assert forall|i: int, j: int| 0 <= i < j < after.len() implies after[i] != after[j] by {
                if j == before.len() {
                    assert(before[i] == after[i]);
                    assert(before.contains(before[i]));
                }
            }
        }
    }
}

/// No servicekey is listed twice.
pub proof fn servicekeys_are_distinct(due: Seq<Sharetoken>)
    ensures
        forall|i: int, j: int|
            0 <= i < j < servicekeys(due).len() ==> servicekeys(due)[i] != servicekeys(due)[j],
        servicekeys(due).len() <= due.len(),
    decreases due.len(),
{
    if due.len() > 0 {
        servicekeys_are_distinct(due.drop_last());
        let before = servicekeys(due.drop_last());
        let last = due.last().servicekey_text();
        if !before.contains(last) {
            let after = before.push(last);
            assert forall|i: int, j: int| 0 <= i < j < after.len() implies after[i] != after[j] by {
                if j == before.len() {
                    assert(before[i] == after[i]);
                    assert(before.contains(before[i]));
                }
            }
        }
    }
}

/// What is in two lists put together is what is in one of them.
proof fn joined_contains<A>(a: Seq<A>, b: Seq<A>, x: A)
    ensures
        (a + b).contains(x) <==> a.contains(x) || b.contains(x),
{
    let ab = a + b;
    if a.contains(x) {
        let i = choose|i: int| 0 <= i < a.len() && a[i] == x;
        assert(ab[i] == x);
    }
    if b.contains(x) {
        let i = choose|i: int| 0 <= i < b.len() && b[i] == x;
        assert(ab[a.len() + i] == x);
    }
    if ab.contains(x) {
        let i = choose|i: int| 0 <= i < ab.len() && ab[i] == x;
        if i < a.len() {
            assert(a[i] == x);
        } else {
            assert(b[i - a.len()] == x);
        }
    }
}

/// The group of a servicekey holds the pairs of the list that belong to it.
pub proof fn group_members(
    list: Seq<(Seq<char>, Seq<char>)>,
    sk: Seq<char>,
    pair: (Seq<char>, Seq<char>),
)
    ensures
        group(list, sk).contains(pair) <==> list.contains(pair) && pair.0 == sk,
    decreases list.len(),
{
    if list.len() > 0 {
        let before = list.drop_last();
        let last = list.last();
        group_members(before, sk, pair);
        let tail = if last.0 == sk {
            seq![last]
        } else {
            Seq::empty()
        };
        joined_contains(group(before, sk), tail, pair);
        if tail.contains(pair) {
            assert(pair == last);
        }
        if last.0 == sk && pair == last {
            assert(tail[0] == pair);
        }
        if list.contains(pair) {
            let i = choose|i: int| 0 <= i < list.len() && list[i] == pair;
            if i < before.len() {
                assert(before[i] == pair);
            }
        }
        if before.contains(pair) {
            let i = choose|i: int| 0 <= i < before.len() && before[i] == pair;
            assert(list[i] == pair);
        }
        assert(list[list.len() - 1] == last);
    }
}

/// The pairs by servicekey are the pairs of the list whose servicekey is among
/// the servicekeys.
pub proof fn grouped_members(
    list: Seq<(Seq<char>, Seq<char>)>,
    sks: Seq<Seq<char>>,
    pair: (Seq<char>, Seq<char>),
)
    ensures
        grouped(list, sks).contains(pair) <==> list.contains(pair) && sks.contains(pair.0),
    decreases sks.len(),
{
    if sks.len() > 0 {
        let before = sks.drop_last();
        grouped_members(list, before, pair);
        group_members(list, sks.last(), pair);
        joined_contains(grouped(list, before), group(list, sks.last()), pair);
        if sks.contains(pair.0) {
            let i = choose|i: int| 0 <= i < sks.len() && sks[i] == pair.0;
            if i < before.len() {
                assert(before[i] == pair.0);
            }
        }
        if before.contains(pair.0) {
            let i = choose|i: int| 0 <= i < before.len() && before[i] == pair.0;
            assert(sks[i] == pair.0);
        }
        assert(sks[sks.len() - 1] == sks.last());
    }
}

/// A group of a list without repetition is without repetition.
proof fn group_is_distinct(list: Seq<(Seq<char>, Seq<char>)>, sk: Seq<char>)
    requires
        forall|i: int, j: int| 0 <= i < j < list.len() ==> list[i] != list[j],
    ensures
        forall|i: int, j: int|
            0 <= i < j < group(list, sk).len() ==> group(list, sk)[i] != group(list, sk)[j],
    decreases list.len(),
{
    if list.len() > 0 {
        let before = list.drop_last();
        let last = list.last();
        assert forall|i: int, j: int| 0 <= i < j < before.len() implies before[i] != before[j] by {
            assert(before[i] == list[i]);
            assert(before[j] == list[j]);
        }
        group_is_distinct(before, sk);
        let g = group(list, sk);
        let gb = group(before, sk);
        assert forall|i: int, j: int| 0 <= i < j < g.len() implies g[i] != g[j] by {
            if j < gb.len() {
                assert(g[i] == gb[i]);
                assert(g[j] == gb[j]);
            } else {
                assert(g[j] == last);
                assert(g[i] == gb[i]);
                assert(gb.contains(gb[i]));
                group_members(before, sk, gb[i]);
                if gb[i] == last {
                    let l = choose|l: int| 0 <= l < before.len() && before[l] == last;
                    assert(list[l] == list[list.len() - 1]);
                }
            }
        }
    }
}

/// The pairs by servicekey, of a list and of servicekeys without repetition: no
/// pair stands twice, and the pairs of a servicekey stand together.
pub proof fn grouped_is_orderly(list: Seq<(Seq<char>, Seq<char>)>, sks: Seq<Seq<char>>)
    requires
        forall|i: int, j: int| 0 <= i < j < list.len() ==> list[i] != list[j],
        forall|i: int, j: int| 0 <= i < j < sks.len() ==> sks[i] != sks[j],
    ensures
        forall|i: int, j: int|
            0 <= i < j < grouped(list, sks).len() ==> grouped(list, sks)[i] != grouped(
                list,
                sks,
            )[j],
        forall|i: int, j: int, k: int|
            0 <= i <= j <= k < grouped(list, sks).len() && grouped(list, sks)[i].0 == grouped(
                list,
                sks,
            )[k].0 ==> grouped(list, sks)[j].0 == grouped(list, sks)[i].0,
    decreases sks.len(),
{
    if sks.len() > 0 {
        let before = sks.drop_last();
        let last = sks.last();
        assert forall|i: int, j: int| 0 <= i < j < before.len() implies before[i] != before[j] by {
            assert(before[i] == sks[i]);
            assert(before[j] == sks[j]);
        }
        grouped_is_orderly(list, before);
        group_is_distinct(list, last);
        let a = grouped(list, before);
        let b = group(list, last);
        let g = grouped(list, sks);
        assert(g == a + b);
        // what stands in the first part belongs to an earlier servicekey
        assert forall|i: int| 0 <= i < a.len() implies (#[trigger] a[i]).0 != last by {
            assert(a.contains(a[i]));
            grouped_members(list, before, a[i]);
            if a[i].0 == last {
                let l = choose|l: int| 0 <= l < before.len() && before[l] == last;
                assert(sks[l] == sks[sks.len() - 1]);
            }
        }
        assert forall|i: int| 0 <= i < b.len() implies (#[trigger] b[i]).0 == last by {
            assert(b.contains(b[i]));
            group_members(list, last, b[i]);
        }
        assert forall|i: int, j: int| 0 <= i < j < g.len() implies g[i] != g[j] by {
            if j < a.len() {
                assert(g[i] == a[i] && g[j] == a[j]);
            } else if i >= a.len() {
                assert(g[i] == b[i - a.len()] && g[j] == b[j - a.len()]);
            } else {
                assert(g[i] == a[i] && g[j] == b[j - a.len()]);
            }
        }
        assert forall|i: int, j: int, k: int|
            0 <= i <= j <= k < g.len() && g[i].0 == g[k].0 implies g[j].0 == g[i].0 by {
            if k < a.len() {
                assert(g[i] == a[i] && g[j] == a[j] && g[k] == a[k]);
            } else if i >= a.len() {
                assert(g[i] == b[i - a.len()] && g[j] == b[j - a.len()]);
            } else {
                assert(g[i] == a[i] && g[k] == b[k - a.len()]);
            }
        }
    }
}

/// Every pair of servicekey and relay that occurs among the tokens is settled
/// once, and no other; and the pairs of a servicekey are settled together, not
/// mixed with those of another.
pub proof fn settled_pairs_are_orderly(due: Seq<Sharetoken>)
    ensures
        forall|sk: Seq<char>, rk: Seq<char>| #[trigger]
            settled_pairs(due).contains((sk, rk)) <==> count_for_pair(due, sk, rk) > 0,
        forall|i: int, j: int|
            0 <= i < j < settled_pairs(due).len() ==> settled_pairs(due)[i] != settled_pairs(
                due,
            )[j],
        forall|i: int, j: int, k: int|
            0 <= i <= j <= k < settled_pairs(due).len() && settled_pairs(due)[i].0
                == settled_pairs(due)[k].0 ==> settled_pairs(due)[j].0 == settled_pairs(due)[i].0,
{
    pairs_are_distinct(due);
    servicekeys_are_distinct(due);
    grouped_is_orderly(pairs(due), servicekeys(due));
    assert forall|sk: Seq<char>, rk: Seq<char>| #[trigger]
        settled_pairs(due).contains((sk, rk)) <==> count_for_pair(due, sk, rk) > 0 by {
        grouped_members(pairs(due), servicekeys(due), (sk, rk));
        pairs_are_those_counted(due, sk, rk);
        servicekeys_are_those_counted(due, sk);
        counts_are_bounded(due, sk, rk);
    }
}

/// A pair that is counted is the pair of some token.
pub proof fn counted_pair_occurs(due: Seq<Sharetoken>, sk: Seq<char>, rk: Seq<char>)
    requires
        count_for_pair(due, sk, rk) > 0,
    ensures
        exists|i: int|
            0 <= i < due.len() && (#[trigger] due[i]).servicekey_text() == sk && due[i].relay_text()
                == rk,
    decreases due.len(),
{
    if due.len() > 0 {
        let last = due.last();
        if last.servicekey_text() == sk && last.relay_text() == rk {
            assert(due[due.len() - 1] == last);
        } else {
            counted_pair_occurs(due.drop_last(), sk, rk);
            let i = choose|i: int|
                0 <= i < due.len() - 1 && (#[trigger] due.drop_last()[i]).servicekey_text() == sk
                    && due.drop_last()[i].relay_text() == rk;
            assert(due[i] == due.drop_last()[i]);
        }
    }
}

/// How many tokens the pairs of a list count together.
pub open spec fn sum_counts(due: Seq<Sharetoken>, list: Seq<(Seq<char>, Seq<char>)>) -> nat
    decreases list.len(),
{
    if list.len() == 0 {
        0
    } else {
        sum_counts(due, list.drop_last()) + count_for_pair(due, list.last().0, list.last().1)
    }
}

/// How often a pair stands in a list.
spec fn occurrences(list: Seq<(Seq<char>, Seq<char>)>, pair: (Seq<char>, Seq<char>)) -> nat
    decreases list.len(),
{
    if list.len() == 0 {
        0
    } else {
        occurrences(list.drop_last(), pair) + if list.last() == pair {
            1nat
        } else {
            0nat
        }
    }
}

/// In a list without repetition a pair stands once if it stands in it, and else
/// not at all.
proof fn occurs_once(list: Seq<(Seq<char>, Seq<char>)>, pair: (Seq<char>, Seq<char>))
    requires
        forall|i: int, j: int| 0 <= i < j < list.len() ==> list[i] != list[j],
    ensures
        occurrences(list, pair) == if list.contains(pair) {
            1nat
        } else {
            0nat
        },
    decreases list.len(),
{
    if list.len() > 0 {
        let before = list.drop_last();
        assert forall|i: int, j: int| 0 <= i < j < before.len() implies before[i] != before[j] by {
            assert(before[i] == list[i]);
            assert(before[j] == list[j]);
        }
        occurs_once(before, pair);
        if before.contains(pair) {
            let i = choose|i: int| 0 <= i < before.len() && before[i] == pair;
            assert(list[i] == pair);
            assert(list[i] != list[list.len() - 1]);
        } else if list.contains(pair) {
            let i = choose|i: int| 0 <= i < list.len() && list[i] == pair;
            if i < before.len() {
                assert(before[i] == pair);
            }
        }
        if list.last() == pair {
            assert(list[list.len() - 1] == pair);
        }
    }
}

/// One token more adds one to the count of every place where its pair stands.
proof fn one_more_token(due: Seq<Sharetoken>, list: Seq<(Seq<char>, Seq<char>)>)
    requires
        due.len() > 0,
    ensures
        sum_counts(due, list) == sum_counts(due.drop_last(), list) + occurrences(
            list,
            (due.last().servicekey_text(), due.last().relay_text()),
        ),
    decreases list.len(),
{
    if list.len() > 0 {
        one_more_token(due, list.drop_last());
    }
}

/// No token, nothing counted.
proof fn no_token_no_count(due: Seq<Sharetoken>, list: Seq<(Seq<char>, Seq<char>)>)
    requires
        due.len() == 0,
    ensures
        sum_counts(due, list) == 0,
    decreases list.len(),
{
    if list.len() > 0 {
        no_token_no_count(due, list.drop_last());
    }
}

/// Pairs without repetition, among which the pair of every token stands, count
/// every token once.
proof fn counts_cover(due: Seq<Sharetoken>, list: Seq<(Seq<char>, Seq<char>)>)
    requires
        forall|i: int, j: int| 0 <= i < j < list.len() ==> list[i] != list[j],
        forall|t: int|
            0 <= t < due.len() ==> list.contains(
                ((#[trigger] due[t]).servicekey_text(), due[t].relay_text()),
            ),
    ensures
        sum_counts(due, list) == due.len(),
    decreases due.len(),
{
    if due.len() == 0 {
        no_token_no_count(due, list);
    } else {
        let before = due.drop_last();
        let pair = (due.last().servicekey_text(), due.last().relay_text());
        assert forall|t: int| 0 <= t < before.len() implies list.contains(
            ((#[trigger] before[t]).servicekey_text(), before[t].relay_text()),
        ) by {
            assert(before[t] == due[t]);
        }
        counts_cover(before, list);
        one_more_token(due, list);
        assert(due[due.len() - 1] == due.last());
        occurs_once(list, pair);
    }
}

/// Every token is counted exactly once: the shares of the pairs that are settled
/// count together as many tokens as there are.
pub proof fn every_token_is_counted_once(due: Seq<Sharetoken>)
    ensures
        sum_counts(due, settled_pairs(due)) == due.len(),
{
    settled_pairs_are_orderly(due);
    assert forall|t: int| 0 <= t < due.len() implies settled_pairs(due).contains(
        ((#[trigger] due[t]).servicekey_text(), due[t].relay_text()),
    ) by {
        each_token_has_its_share(due, t);
    }
    counts_cover(due, settled_pairs(due));
}

/// Where a pair of keys stands in a list, if it does.
fn find_pair_key(list: &Vec<(String, String)>, sk: &str, rk: &str) -> (r: Option<usize>)
    ensures
        r matches Some(i) ==> i < list.len() && list[i as int].0@ == sk@ && list[i as int].1@
            == rk@,
        r is None ==> forall|i: int|
            0 <= i < list.len() ==> !((#[trigger] list[i]).0@ == sk@ && list[i].1@ == rk@),
{
    let mut i: usize = 0;
    while i < list.len()
        invariant
            i <= list.len(),
            forall|j: int| 0 <= j < i ==> !((#[trigger] list[j]).0@ == sk@ && list[j].1@ == rk@),
        decreases list.len() - i,
    {
        if same_text(list[i].0.as_str(), sk) && same_text(list[i].1.as_str(), rk) {
            return Some(i);
        }
        i = i + 1;
    }
    None
}

/// Where a key stands in a list, if it does.
pub fn find_key(list: &Vec<String>, key: &str) -> (r: Option<usize>)
    ensures
        r matches Some(i) ==> i < list.len() && list[i as int]@ == key@,
        r is None ==> forall|i: int| 0 <= i < list.len() ==> (#[trigger] list[i])@ != key@,
{
    let mut i: usize = 0;
    while i < list.len()
        invariant
            i <= list.len(),
            forall|j: int| 0 <= j < i ==> (#[trigger] list[j])@ != key@,
        decreases list.len() - i,
    {
        if same_text(list[i].as_str(), key) {
            return Some(i);
        }
        i = i + 1;
    }
    None
}

/// Counts the tokens: the share of every pair of servicekey and relay among them,
/// servicekey by servicekey.
pub fn tally(due: &Vec<Sharetoken>) -> (r: Vec<Share>)
    ensures
        share_views(r@) == shares(due@),
{
    let mut keys: Vec<(String, String)> = Vec::new();
    let mut counts: Vec<u64> = Vec::new();
    let mut sks: Vec<String> = Vec::new();
    let mut totals: Vec<u64> = Vec::new();
    let mut i: usize = 0;
    while i < due.len()
        invariant
            i <= due.len(),
            keys@.len() == pairs(due@.take(i as int)).len(),
            counts@.len() == keys@.len(),
            forall|j: int|
                0 <= j < keys@.len() ==> {
                    &&& (#[trigger] keys@[j]).0@ == pairs(due@.take(i as int))[j].0
                    &&& keys@[j].1@ == pairs(due@.take(i as int))[j].1
                },
            forall|j: int|
                0 <= j < counts@.len() ==> (#[trigger] counts@[j]) == count_for_pair(
                    due@.take(i as int),
                    pairs(due@.take(i as int))[j].0,
                    pairs(due@.take(i as int))[j].1,
                ),
            sks@.len() == servicekeys(due@.take(i as int)).len(),
            totals@.len() == sks@.len(),
            forall|j: int|
                0 <= j < sks@.len() ==> (#[trigger] sks@[j])@ == servicekeys(due@.take(i as int))[j],
            forall|j: int|
                0 <= j < totals@.len() ==> (#[trigger] totals@[j]) == count_for_sk(
                    due@.take(i as int),
                    servicekeys(due@.take(i as int))[j],
                ),
        decreases due.len() - i,
    {
        let ghost seen = due@.take(i as int);
        let ghost next = due@.take(i + 1);
        let sk = due[i].public_key.to_string();
        let rk = due[i].relay_pubkey.to_string();
        let ghost pair = (sk@, rk@);
        proof {
            assert(next.drop_last() == seen);
            assert(next.last() == due@[i as int]);
            assert(pair == (next.last().servicekey_text(), next.last().relay_text()));
            pairs_are_distinct(seen);
            servicekeys_are_distinct(seen);
            pairs_are_those_counted(seen, sk@, rk@);
            servicekeys_are_those_counted(seen, sk@);
            assert forall|j: int| 0 <= j < pairs(seen).len() implies count_for_pair(
                seen,
                pairs(seen)[j].0,
                pairs(seen)[j].1,
            ) <= i by {
                counts_are_bounded(seen, pairs(seen)[j].0, pairs(seen)[j].1);
            }
            assert forall|j: int| 0 <= j < servicekeys(seen).len() implies count_for_sk(
                seen,
                servicekeys(seen)[j],
            ) <= i by {
                counts_are_bounded(seen, servicekeys(seen)[j], rk@);
            }
        }
        match find_pair_key(&keys, sk.as_str(), rk.as_str()) {
            Some(j) => {
                proof {
                    assert(pairs(seen)[j as int] == pair);
                    assert(pairs(seen).contains(pair));
                }
                let bumped: u64 = counts[j] + 1;
                counts[j] = bumped;
            },
            None => {
                proof {
                    if pairs(seen).contains(pair) {
                        let l = choose|l: int| 0 <= l < pairs(seen).len() && pairs(seen)[l] == pair;
                        assert(keys@[l].0@ == sk@ && keys@[l].1@ == rk@);
                    }
                }
                keys.push((sk.clone(), rk));
                counts.push(1);
            },
        }
        match find_key(&sks, sk.as_str()) {
            Some(j) => {
                proof {
                    assert(servicekeys(seen)[j as int] == sk@);
                    assert(servicekeys(seen).contains(sk@));
                }
                let bumped: u64 = totals[j] + 1;
                totals[j] = bumped;
            },
            None => {
                proof {
                    if servicekeys(seen).contains(sk@) {
                        let l = choose|l: int|
                            0 <= l < servicekeys(seen).len() && servicekeys(seen)[l] == sk@;
                        assert(sks@[l]@ == sk@);
                    }
                }
                sks.push(sk);
                totals.push(1);
            },
        }
        i = i + 1;
    }
    proof {
        assert(due@.take(due.len() as int) == due@);
    }
    let ghost listed = pairs(due@);
    let ghost names = servicekeys(due@);
    let mut out: Vec<Share> = Vec::new();
    let mut t: usize = 0;
    proof {
        assert(grouped(listed, names.take(0)) =~= Seq::<(Seq<char>, Seq<char>)>::empty());
        assert(share_views(out@) =~= shares_of(due@, grouped(listed, names.take(0))));
    }
    while t < sks.len()
        invariant
            t <= sks@.len(),
            listed == pairs(due@),
            names == servicekeys(due@),
            keys@.len() == listed.len(),
            counts@.len() == keys@.len(),
            forall|l: int|
                0 <= l < keys@.len() ==> {
                    &&& (#[trigger] keys@[l]).0@ == listed[l].0
                    &&& keys@[l].1@ == listed[l].1
                },
            forall|l: int|
                0 <= l < counts@.len() ==> (#[trigger] counts@[l]) == count_for_pair(
                    due@,
                    listed[l].0,
                    listed[l].1,
                ),
            sks@.len() == names.len(),
            totals@.len() == sks@.len(),
            forall|l: int| 0 <= l < sks@.len() ==> (#[trigger] sks@[l])@ == names[l],
            forall|l: int|
                0 <= l < totals@.len() ==> (#[trigger] totals@[l]) == count_for_sk(due@, names[l]),
            share_views(out@) == shares_of(due@, grouped(listed, names.take(t as int))),
        decreases sks.len() - t,
    {
        let ghost before = grouped(listed, names.take(t as int));
        let total: u64 = totals[t];
        let mut j: usize = 0;
        proof {
            assert(listed.take(0) =~= Seq::<(Seq<char>, Seq<char>)>::empty());
            assert(before + group(listed.take(0), names[t as int]) =~= before);
        }
        while j < keys.len()
            invariant
                j <= keys@.len(),
                t < sks@.len(),
                before == grouped(listed, names.take(t as int)),
                total == count_for_sk(due@, names[t as int]),
                keys@.len() == listed.len(),
                counts@.len() == keys@.len(),
                forall|l: int|
                    0 <= l < keys@.len() ==> {
                        &&& (#[trigger] keys@[l]).0@ == listed[l].0
                        &&& keys@[l].1@ == listed[l].1
                    },
                forall|l: int|
                    0 <= l < counts@.len() ==> (#[trigger] counts@[l]) == count_for_pair(
                        due@,
                        listed[l].0,
                        listed[l].1,
                    ),
                sks@.len() == names.len(),
                sks@[t as int]@ == names[t as int],
                share_views(out@) == shares_of(
                    due@,
                    before + group(listed.take(j as int), names[t as int]),
                ),
            decreases keys.len() - j,
        {
            let ghost so_far = before + group(listed.take(j as int), names[t as int]);
            proof {
                let next = listed.take(j + 1);
                assert(next.drop_last() == listed.take(j as int));
                assert(next.last() == listed[j as int]);
            }
            let ghost prior = out@;
            if same_text(keys[j].0.as_str(), sks[t].as_str()) {
                out.push(
                    Share {
                        sk: keys[j].0.clone(),
                        rk: keys[j].1.clone(),
                        count: counts[j],
                        total,
                    },
                );
                proof {
                    let pair = listed[j as int];
                    assert(before + group(listed.take(j + 1), names[t as int]) =~= so_far.push(
                        pair,
                    ));
                    assert(out@ == prior.push(out@[prior.len() as int]));
                    assert(out@[prior.len() as int]@ == share_of(due@, pair));
                    assert(share_views(out@) =~= share_views(prior).push(share_of(due@, pair)));
                    assert(shares_of(due@, so_far.push(pair)) =~= shares_of(due@, so_far).push(
                        share_of(due@, pair),
                    ));
                }
            } else {
                proof {
                    assert(before + group(listed.take(j + 1), names[t as int]) =~= so_far);
                }
            }
            j = j + 1;
        }
        proof {
            assert(listed.take(keys@.len() as int) == listed);
            let next = names.take(t + 1);
            assert(next.drop_last() == names.take(t as int));
            assert(next.last() == names[t as int]);
        }
        t = t + 1;
    }
    proof {
        assert(names.take(sks@.len() as int) == names);
    }
    out
}

} // verus!
