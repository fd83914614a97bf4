//! A payment system for trials: it decides the fate of a withdrawal by where the
//! withdrawal is to go.

use vstd::prelude::*;
use crate::api::{
    AccesskeyRequest, Status, Withdrawal, WithdrawalRequest, WithdrawalState, WithdrawalStateData,
};
use crate::text::same_text;

verus! {

/// The request for proofs of funding that a purchase of `quantity` makes: proofs
/// of the type "test", good for ten minutes.
pub fn buy_get_handler(quantity: u64) -> (r: AccesskeyRequest)
    ensures
        r.quantity == quantity,
        r.pof_type@ == "test"@,
        r.duration == 600,
{
    AccesskeyRequest { quantity, pof_type: String::from_str("test"), duration: 600 }
}

/// The state in which the trial payment system leaves a withdrawal to the given
/// destination; `None` where it fails the withdrawal outright.
pub open spec fn fate(destination: Seq<char>) -> Option<WithdrawalState> {
    if destination == "want_error"@ {
        None
    } else if destination == "want_pending"@ {
        Some(WithdrawalState::Pending)
    } else {
        Some(WithdrawalState::Complete)
    }
}

/// Takes a withdrawal request.
///
/// A body that could not be read is answered with status 400 and the reason, a
/// withdrawal to "want_error" with status 400. A withdrawal to "want_pending" is
/// left pending, any other is complete. The withdrawal gets the given identifier
/// and the receipt "RECEIPT", and its state changed at `now`.
pub fn withdrawals_post_handler(body: Result<WithdrawalRequest, String>, id: String, now: i64) -> (r:
    Result<Withdrawal, Status>)
    ensures
        match body {
            Err(e) => r matches Err(s) && s.is(400, e@),
            Ok(wr) => match fate(wr.destination@) {
                None => r matches Err(s) && s.is(
                    400,
                    "as requested, withdrawal failed with error!"@,
                ),
                Some(state) => {
                    &&& r matches Ok(w)
                    &&& w.id == id
                    &&& w.state_data.state == state
                    &&& w.state_data.state_changed == now
                    &&& w.withdrawal_request == wr
                    &&& w.receipt@ == "RECEIPT"@
                },
            },
        },
{
    match body {
        Ok(wr) => {
            let state = if same_text(wr.destination.as_str(), "want_error") {
                return Err(Status::new(400, "as requested, withdrawal failed with error!"));
            } else if same_text(wr.destination.as_str(), "want_pending") {
                WithdrawalState::Pending
            } else {
                WithdrawalState::Complete
            };
            Ok(
                Withdrawal {
                    id,
                    state_data: WithdrawalStateData { state, state_changed: now },
                    withdrawal_request: wr,
                    receipt: String::from_str("RECEIPT"),
                },
            )
        },
        Err(e) => Err(Status { code: 400, desc: e }),
    }
}

/// The state of any withdrawal that is asked for: complete, as of `now`.
pub fn withdrawals_get_handler(now: i64) -> (r: WithdrawalStateData)
    ensures
        r.state == WithdrawalState::Complete,
        r.state_changed == now,
{
    WithdrawalStateData { state: WithdrawalState::Complete, state_changed: now }
}

} // verus!
