//! The state that the request handlers share.

use vstd::prelude::*;
use crate::api::Public;
use crate::contract::calc::ShareCalc;
use crate::contract::tracker::Tracker;
use crate::directory::RelayTable;
use crate::ed25519::SigningKey;

verus! {

/// The state of the contract server: the enrolled relays, what the contract says
/// of itself, the settlement tracker, and the key with which the contract signs.
pub struct Custom<C: ShareCalc> {
    pub relays: RelayTable,
    pub public: Public,
    pub tracker: Tracker<C>,
    pub signer: SigningKey,
}

} // verus!
