//! The reward that a share of a servicekey's tokens earns.

use vstd::prelude::*;
use crate::decimal::Decimal;

verus! {

/// A rule that turns a relay's share of a servicekey, a ratio of at most one, into
/// the amount credited to the relay.
pub trait ShareCalc {
    /// The reward for a share; `None` where it cannot be computed.
    spec fn reward_of(&self, share: Decimal) -> Option<Decimal>;

    /// The reward for a share; `None` where it cannot be computed.
    fn reward(&self, share: Decimal) -> (r: Option<Decimal>)
        ensures
            r == self.reward_of(share),
    ;
}

/// The linear rule: a servicekey's value, less the fee and the revenue share, is
/// split among the relays by their shares.
pub struct DefaultShareCalc {
    /// The value of a servicekey.
    pub value: Decimal,
    /// The fee, as a fraction of the value.
    pub fee_frac: Decimal,
    /// The revenue share, as a fraction of the value.
    pub rsh_frac: Decimal,
}

/// The revenue share, in percent of a servicekey's value.
pub const REVENUE_SHARE_PERCENT: u64 = 5;

impl DefaultShareCalc {
    /// The fractions of the linear rule for a fee given in percent:
    /// `fee_percent / 100` and the revenue share of `5 / 100`.
    pub open spec fn fractions(fee_percent: Decimal) -> Option<(Decimal, Decimal)> {
        match (
            fee_percent.over(Decimal::of_parts((100, 0))),
            Decimal::of_parts((REVENUE_SHARE_PERCENT as int, 0)).over(Decimal::of_parts((100, 0))),
        ) {
            (Some(fee), Some(rsh)) => Some((fee, rsh)),
            _ => None,
        }
    }

    /// The linear rule for a servicekey value and a fee in percent; `None` where
    /// the fractions cannot be computed.
    pub fn from_percent(value: Decimal, fee_percent: Decimal) -> (r: Option<DefaultShareCalc>)
        ensures
            match Self::fractions(fee_percent) {
                Some((fee, rsh)) => r == Some(
                    DefaultShareCalc { value, fee_frac: fee, rsh_frac: rsh },
                ),
                None => r is None,
            },
    {
        let hundred = Decimal::from_u64(100);
        let five = Decimal::from_u64(REVENUE_SHARE_PERCENT);
        proof {
            Decimal::parts_of(100, 0);
            Decimal::parts_of(REVENUE_SHARE_PERCENT as int, 0);
            Decimal::same_parts(hundred, Decimal::of_parts((100, 0)));
            Decimal::same_parts(five, Decimal::of_parts((REVENUE_SHARE_PERCENT as int, 0)));
        }
        match (fee_percent.checked_div(hundred), five.checked_div(hundred)) {
            (Some(fee), Some(rsh)) => Some(DefaultShareCalc { value, fee_frac: fee, rsh_frac: rsh }),
            _ => None,
        }
    }

    /// What is left of a servicekey's value for the relays:
    /// `value - fee_frac * value - rsh_frac * value`.
    pub open spec fn net_value(&self) -> Option<Decimal> {
        match (self.fee_frac.times(self.value), self.rsh_frac.times(self.value)) {
            (Some(fee), Some(rsh)) => match self.value.minus(fee) {
                Some(rest) => rest.minus(rsh),
                None => None,
            },
            _ => None,
        }
    }

    /// What is left of a servicekey's value for the relays.
    pub fn net(&self) -> (r: Option<Decimal>)
        ensures
            r == self.net_value(),
    {
        let fee = self.fee_frac.checked_mul(self.value);
        let rsh = self.rsh_frac.checked_mul(self.value);
        match (fee, rsh) {
            (Some(fee), Some(rsh)) => match self.value.checked_sub(fee) {
                Some(rest) => rest.checked_sub(rsh),
                None => None,
            },
            _ => None,
        }
    }
}

impl ShareCalc for DefaultShareCalc {
    /// `share * (value - fee_frac * value - rsh_frac * value)`.
    open spec fn reward_of(&self, share: Decimal) -> Option<Decimal> {
        match self.net_value() {
            Some(net) => share.times(net),
            None => None,
        }
    }

    fn reward(&self, share: Decimal) -> (r: Option<Decimal>) {
        match self.net() {
            Some(net) => share.checked_mul(net),
            None => None,
        }
    }
}

} // verus!
