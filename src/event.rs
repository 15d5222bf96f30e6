use vstd::prelude::*;

use crate::account::{AccountId, Balance};

verus! {

/// Notice that `value` moved from `from` to `to`; a `from` of `None` marks the supply created
/// with the ledger.
#[derive(Clone, Copy, Debug, PartialEq, Eq)]
pub struct Transfer {
    pub from: Option<AccountId>,
    pub to: Option<AccountId>,
    pub value: Balance,
}

/// Notice that `owner` let `spender` move up to `value` of its balance.
#[derive(Clone, Copy, Debug, PartialEq, Eq)]
pub struct Approval {
    pub owner: AccountId,
    pub spender: AccountId,
    pub value: Balance,
}

/// A notification that the ledger emits when its state changes.
#[derive(Clone, Copy, Debug, PartialEq, Eq)]
pub enum Event {
    Transfer(Transfer),
    Approval(Approval),
}

} // verus!
