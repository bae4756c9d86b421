//! Messages that this parachain sends to the relay chain.

use vstd::prelude::*;

use crate::{AccountId, Balance};

verus! {

/// A request to the relay chain: pay `amount` of its currency from this
/// parachain's account there to `dest`.
#[derive(Clone, Copy, Debug, PartialEq, Eq)]
pub struct UpwardMessage {
    pub dest: AccountId,
    pub amount: Balance,
}

impl UpwardMessage {
    /// The message that asks the relay chain to pay `amount` to `dest`.
    pub fn transfer(dest: AccountId, amount: Balance) -> (r: UpwardMessage)
        ensures
            r == (UpwardMessage { dest, amount }),
    {
        UpwardMessage { dest, amount }
    }
}

} // verus!
