//! Settlement: the reward rule, the balance ledger and the share-token tracker.

pub mod calc;
pub mod ledger;
pub mod queue;
pub mod shares;
pub mod tracker;

use vstd::prelude::*;
use crate::api::digestible::Digestible;
use crate::api::headersignedjson::HeaderSignedJson;
use crate::api::signable::{Signable, message, sealed};
use crate::api::signed::Signed;
use crate::api::timestamp::Timestamped;
use crate::api::chronosort::ChronoSort;
use crate::api::{
    ActivationRequest, SKContract, Sharetoken, Status, WithdrawalRequest, WithdrawalState,
};
use crate::b64e::{Base64, Encodable};
use crate::contract::calc::ShareCalc;
use crate::contract::ledger::{
    Action, BalanceUpdate, BalanceView, drafted, entry, in_i64, verdict,
};
use crate::decimal::truncated;
use crate::contract::queue::place;
use crate::contract::tracker::{EventView, withdrawal};
use crate::ed25519::{Signature, signature_of};
use crate::state::Custom;

verus! {

/// Activates a servicekey: makes and signs its settlement envelope.
///
/// The settlement window opens `servicekey.duration` seconds after `now` and
/// closes `settlement.submission_window` seconds later. The envelope names the
/// contract's public key and holds the signer's signature over its digest. A body
/// that could not be read is answered with status 400 and the reason.
pub fn activate_post_handler<C: ShareCalc>(
    st: &Custom<C>,
    body: Result<ActivationRequest, String>,
    now: i64,
) -> (r: Result<SKContract, Status>)
    requires
        now + st.public.defined.servicekey.duration + st.public.defined.settlement.submission_window
            <= i64::MAX,
    ensures
        match body {
            Err(e) => r matches Err(s) && s.is(400, e@),
            Ok(_) => {
                &&& r matches Ok(skc)
                &&& skc.public_key == st.public.derived.public_key
                &&& skc.settlement_open == now + st.public.defined.servicekey.duration
                &&& skc.settlement_close == skc.settlement_open
                    + st.public.defined.settlement.submission_window
                &&& skc.seal() == signature_of(st.signer@, message(&skc))
            },
        },
{
    match body {
        Ok(_) => {
            let open: i64 = (now as i128 + st.public.defined.servicekey.duration as i128) as i64;
            let close: i64 = (open as i128 + st.public.defined.settlement.submission_window as i128)
                as i64;
            let mut skc = SKContract {
                public_key: st.public.derived.public_key,
                signature: Base64(Signature::from_bytes(&[0u8;64])),
                settlement_open: open,
                settlement_close: close,
            };
            let text = skc.digest();
            let ghost before = skc;
            skc.signature = Base64(st.signer.sign(text.as_str().as_bytes()));
            proof {
                assert(skc.digest_text() == before.digest_text());
            }
            Ok(skc)
        },
        Err(e) => Err(Status { code: 400, desc: e }),
    }
}

/// Takes in a share token.
///
/// A body that could not be read is answered with status 400 and the reason; a
/// token whose signature is not one of its digest under its key with status 400,
/// "invalid signature"; a token whose envelope names another contract with status
/// 400, "Sharetoken is not for this contract". Any other token is enqueued for
/// settlement, and the answer is 200.
pub fn submit_post_handler<C: ShareCalc>(
    st: &mut Custom<C>,
    body: Result<Sharetoken, String>,
    now: i64,
) -> (r: Status)
    ensures
        final(st).relays == old(st).relays,
        final(st).public == old(st).public,
        final(st).signer == old(st).signer,
        match body {
            Err(e) => r.is(400, e@) && final(st).tracker == old(st).tracker,
            Ok(token) => if !sealed(&token) {
                r.is(400, "invalid signature"@) && final(st).tracker == old(st).tracker
            } else if token.contract.public_key.0.bytes() != old(
                st,
            ).public.derived.public_key.0.bytes() {
                r.is(400, "Sharetoken is not for this contract"@) && final(st).tracker == old(
                    st,
                ).tracker
            } else {
                &&& r.is(200, "OK"@)
                &&& final(st).tracker.sts@ == old(st).tracker.sts@.insert(
                    place(old(st).tracker.sts@, token.stamp()) as int,
                    ChronoSort(token),
                )
                &&& final(st).tracker.log.record() == old(st).tracker.log.record().push(
                    (now, EventView::Submission(token.servicekey_text(), token.relay_text())),
                )
                &&& final(st).tracker.log.start == old(st).tracker.log.start
                &&& final(st).tracker.balances == old(st).tracker.balances
                &&& final(st).tracker.archive_q == old(st).tracker.archive_q
                &&& final(st).tracker.calc == old(st).tracker.calc
                &&& final(st).tracker.interval == old(st).tracker.interval
            },
        },
{
    match body {
        Ok(token) => match Signed::new(token) {
            Err(_) => Status::new(400, "invalid signature"),
            Ok(payload) => {
                if !payload.get().contract.public_key.same(&st.public.derived.public_key) {
                    Status::new(400, "Sharetoken is not for this contract")
                } else {
                    st.tracker.push(payload.into_inner(), now);
                    Status::new(200, "OK")
                }
            },
        },
        Err(e) => Status { code: 400, desc: e },
    }
}

/// Begins a withdrawal: the steps before the payment system is asked.
///
/// A request that was not admitted is answered as it was refused. A request for a
/// payment system of another type than the configured one is answered with status
/// 500, "no payout methods fits withdrawal". Otherwise a change of `-amount` is
/// drafted on the balance of the relay that signed; where the ledger refuses it
/// the answer is status 500 with the ledger's reason. Where it grants it the
/// withdrawal is recorded as pending and the request is handed back, to be sent to
/// the payment system.
pub fn withdraw_post_handler<C: ShareCalc>(
    st: &mut Custom<C>,
    rbody: Result<HeaderSignedJson<WithdrawalRequest>, Status>,
    now: i64,
) -> (r: Result<WithdrawalRequest, Status>)
    ensures
        final(st).relays == old(st).relays,
        final(st).public == old(st).public,
        final(st).signer == old(st).signer,
        final(st).tracker.sts == old(st).tracker.sts,
        final(st).tracker.archive_q == old(st).tracker.archive_q,
        final(st).tracker.calc == old(st).tracker.calc,
        final(st).tracker.interval == old(st).tracker.interval,
        final(st).tracker.log.start == old(st).tracker.log.start,
        final(st).tracker.balances.currency() == old(st).tracker.balances.currency(),
        match rbody {
            Err(e) => r == Err::<WithdrawalRequest, Status>(e) && final(st).tracker == old(
                st,
            ).tracker,
            Ok(hsj) => if old(st).public.defined.payout.ps_type@ != hsj.data.w_type@ {
                &&& r matches Err(s)
                &&& s.is(500, "no payout methods fits withdrawal"@)
                &&& final(st).tracker == old(st).tracker
            } else {
                let rk = hsj.public_key.text();
                let before = old(st).tracker.balances@;
                let delta = withdrawal(hsj.data.amount);
                &&& final(st).tracker.balances@ == drafted(before, rk, delta)
                &&& match verdict(entry(before, rk).0, entry(before, rk).1, delta) {
                    Ok(()) => {
                        &&& r == Ok::<WithdrawalRequest, Status>(hsj.data)
                        &&& final(st).tracker.log.record() == old(st).tracker.log.record().push(
                            (now, EventView::WithdrawalPending(rk, delta)),
                        )
                    },
                    Err(e) => {
                        &&& r matches Err(s)
                        &&& s.is(500, e.text())
                        &&& final(st).tracker.log.record() == old(st).tracker.log.record()
                    },
                }
            },
        },
{
    match rbody {
        Ok(hsj) => {
            if crate::text::same_text(
                st.public.defined.payout.ps_type.as_str(),
                hsj.data.w_type.as_str(),
            ) {
                let rk = hsj.public_key.to_string();
                match st.tracker.draft_withdrawal(rk.as_str(), hsj.data.amount, now) {
                    Ok(()) => Ok(hsj.data),
                    Err(e) => Err(Status { code: 500, desc: e.message() }),
                }
            } else {
                Err(Status::new(500, "no payout methods fits withdrawal"))
            }
        },
        Err(e) => Err(e),
    }
}

/// Shows the balance of the relay that signed the request.
///
/// A request that was not admitted is answered as it was refused, a relay without
/// a balance that can be shown with status 404. Otherwise the answer is the
/// relay's balance in whole units of the ledger's currency.
pub fn balance_get_handler<C: ShareCalc, T>(
    st: &Custom<C>,
    rbody: Result<HeaderSignedJson<T>, Status>,
) -> (r: Result<BalanceView, Status>)
    ensures
        match rbody {
            Err(e) => r == Err::<BalanceView, Status>(e),
            Ok(hsj) => {
                let rk = hsj.public_key.text();
                let m = st.tracker.balances@;
                if m.contains_key(rk) && in_i64(m[rk].0) && in_i64(m[rk].1) {
                    &&& r matches Ok(v)
                    &&& v.currency@ == st.tracker.balances.currency()
                    &&& v.available == truncated(m[rk].0.m(), m[rk].0.e())
                    &&& v.pending == truncated(m[rk].1.m(), m[rk].1.e())
                } else {
                    r matches Err(s) && s.is(404, "No such balance"@)
                }
            },
        },
{
    match rbody {
        Ok(hsj) => {
            let rk = hsj.public_key.to_string();
            match st.tracker.balances.get(rk.as_str()) {
                Some(v) => Ok(v),
                None => Err(Status::new(404, "No such balance")),
            }
        },
        Err(e) => Err(e),
    }
}

/// Where a withdrawal goes once the payment system has answered.
#[derive(Debug)]
pub enum Routing {
    /// The withdrawal is pending: it goes to the watcher, which asks again.
    Watch,
    /// The withdrawal has ended: the tracker is told what to do with the relay's
    /// pending change.
    Update(BalanceUpdate),
}

/// What is to be done with a withdrawal of `relay` in the state that the payment
/// system reports: a pending one is watched, a complete one applies the pending
/// change, a failed one aborts it.
pub fn withdrawal_outcome(relay: &str, state: WithdrawalState) -> (r: Routing)
    ensures
        match state {
            WithdrawalState::Pending => r is Watch,
            WithdrawalState::Complete => r matches Routing::Update(u) && u.relay@ == relay@ && u.action
                == Action::Apply,
            WithdrawalState::Error => r matches Routing::Update(u) && u.relay@ == relay@ && u.action
                == Action::Abort,
        },
{
    match state {
        WithdrawalState::Pending => Routing::Watch,
        WithdrawalState::Complete => Routing::Update(
            BalanceUpdate { relay: String::from_str(relay), action: Action::Apply },
        ),
        WithdrawalState::Error => Routing::Update(
            BalanceUpdate { relay: String::from_str(relay), action: Action::Abort },
        ),
    }
}

/// How long to wait from `now` to the next tick at `next`, in seconds; `None`
/// where the next tick does not lie ahead.
pub fn pause(now: i64, next: i64) -> (r: Option<u64>)
    ensures
        r == if next >= now {
            Some((next - now) as u64)
        } else {
            None::<u64>
        },
{
    if next >= now {
        Some((next as i128 - now as i128) as u64)
    } else {
        None
    }
}

} // verus!
