use vstd::prelude::*;

use crate::account::{AccountId, Balance};

verus! {

/// The largest number of keys that a storage hash map can count.
pub const MAX_KEYS: u32 = 4294967295;

/// The balance of each account, kept in a storage hash map of ink!.
#[verifier::external_body]
pub struct BalanceTable {
    map: ink_storage::collections::HashMap<AccountId, Balance>,
}

/// What a balance table holds.
pub uninterp spec fn balance_entries(t: BalanceTable) -> Map<AccountId, Balance>;

impl BalanceTable {
    /// Relies on `ink_storage::collections::HashMap::new`: the new map holds nothing.
    #[verifier::external_body]
    pub(crate) fn new() -> (r: BalanceTable)
        ensures
            balance_entries(r).dom().finite(),
            forall|a: AccountId| !balance_entries(r).dom().contains(a),
    {
        BalanceTable { map: ink_storage::collections::HashMap::new() }
    }

    /// Relies on `ink_storage::collections::HashMap::get`: the value stored under the key, if any.
    #[verifier::external_body]
    pub(crate) fn get(&self, key: &AccountId) -> (r: Option<Balance>)
        ensures
            r == (if balance_entries(*self).dom().contains(*key) {
                Some(balance_entries(*self)[*key])
            } else {
                None::<Balance>
            }),
    {
        self.map.get(key).copied()
    }

    /// Relies on `ink_storage::collections::HashMap::insert`: the key now maps to the value and
    /// nothing else changes. A new key is counted in a `u32`, which must not overflow.
    #[verifier::external_body]
    pub(crate) fn insert(&mut self, key: AccountId, value: Balance)
        requires
            balance_entries(*old(self)).dom().contains(key)
                || balance_entries(*old(self)).dom().len() < MAX_KEYS,
        ensures
            balance_entries(*final(self)) == balance_entries(*old(self)).insert(key, value),
    {
        self.map.insert(key, value);
    }

    /// Relies on `ink_storage::collections::HashMap::len`: the number of keys stored.
    #[verifier::external_body]
    pub(crate) fn len(&self) -> (r: u32)
        ensures
            r == balance_entries(*self).dom().len(),
    {
        self.map.len()
    }
}

/// The amount that each owner lets each spender move, kept in a storage hash map of ink!.
#[verifier::external_body]
pub struct AllowanceTable {
    map: ink_storage::collections::HashMap<(AccountId, AccountId), Balance>,
}

/// What an allowance table holds.
pub uninterp spec fn allowance_entries(t: AllowanceTable) -> Map<(AccountId, AccountId), Balance>;

impl AllowanceTable {
    /// Relies on `ink_storage::collections::HashMap::new`: the new map holds nothing.
    #[verifier::external_body]
    pub(crate) fn new() -> (r: AllowanceTable)
        ensures
            allowance_entries(r).dom().finite(),
            forall|k: (AccountId, AccountId)| !allowance_entries(r).dom().contains(k),
    {
        AllowanceTable { map: ink_storage::collections::HashMap::new() }
    }

    /// Relies on `ink_storage::collections::HashMap::get`: the value stored under the key, if any.
    #[verifier::external_body]
    pub(crate) fn get(&self, key: &(AccountId, AccountId)) -> (r: Option<Balance>)
        ensures
            r == (if allowance_entries(*self).dom().contains(*key) {
                Some(allowance_entries(*self)[*key])
            } else {
                None::<Balance>
            }),
    {
        self.map.get(key).copied()
    }

    /// Relies on `ink_storage::collections::HashMap::insert`: the key now maps to the value and
    /// nothing else changes. A new key is counted in a `u32`, which must not overflow.
    #[verifier::external_body]
    pub(crate) fn insert(&mut self, key: (AccountId, AccountId), value: Balance)
        requires
            allowance_entries(*old(self)).dom().contains(key)
                || allowance_entries(*old(self)).dom().len() < MAX_KEYS,
        ensures
            allowance_entries(*final(self)) == allowance_entries(*old(self)).insert(key, value),
    {
        self.map.insert(key, value);
    }

    /// Relies on `ink_storage::collections::HashMap::len`: the number of keys stored.
    #[verifier::external_body]
    pub(crate) fn len(&self) -> (r: u32)
        ensures
            r == allowance_entries(*self).dom().len(),
    {
        self.map.len()
    }
}

} // verus!
