use vstd::prelude::*;

use crate::account::{same_account, AccountId, Balance};
use crate::event::{Approval, Event, Transfer};
use crate::storage::{allowance_entries, balance_entries, AllowanceTable, BalanceTable, MAX_KEYS};
use crate::sum::{
    amount_in, lemma_amount_le_total, lemma_sum_frame, lemma_total_insert, lemma_total_move,
    lemma_total_single, total_of,
};

verus! {

/// A fungible token: a fixed supply spread over account balances, and the allowances that
/// owners grant to spenders.
pub struct Erc20 {
    total_supply: Balance,
    balances: BalanceTable,
    allowances: AllowanceTable,
    events: Vec<Event>,
}

impl Erc20 {
    /// The supply fixed when the ledger was made.
    pub closed spec fn supply(self) -> Balance {
        self.total_supply
    }

    /// The stored balances.
    pub closed spec fn balance_map(self) -> Map<AccountId, Balance> {
        balance_entries(self.balances)
    }

    /// The stored allowances.
    pub closed spec fn allowance_map(self) -> Map<(AccountId, AccountId), Balance> {
        allowance_entries(self.allowances)
    }

    /// The notifications emitted so far, oldest first.
    pub closed spec fn event_log(self) -> Seq<Event> {
        self.events@
    }

    /// The balance of `a`: zero where nothing is stored.
    pub open spec fn balance(self, a: AccountId) -> Balance {
        amount_in(self.balance_map(), a)
    }

    /// The amount `spender` may still move out of `owner`'s balance: zero where nothing is stored.
    pub open spec fn allowance_of(self, owner: AccountId, spender: AccountId) -> Balance {
        if self.allowance_map().dom().contains((owner, spender)) {
            self.allowance_map()[(owner, spender)]
        } else {
            0
        }
    }

    /// The sum of all balances.
    pub open spec fn sum_of_balances(self) -> int {
        total_of(self.balance_map())
    }

    /// The tables are finite and the balances add up to the supply.
    pub open spec fn wf(self) -> bool {
        &&& self.balance_map().dom().finite()
        &&& self.allowance_map().dom().finite()
        &&& self.sum_of_balances() == self.supply()
    }

    /// Both tables can take the new keys of one more operation.
    pub open spec fn has_room_spec(self) -> bool {
        &&& self.balance_map().dom().len() + 1 < MAX_KEYS
        &&& self.allowance_map().dom().len() < MAX_KEYS
    }

    /// `after` holds the balances of `self` with `value` moved from `from` to `to`; moving
    /// from an account to itself changes nothing.
    pub open spec fn moved(self, after: Self, from: AccountId, to: AccountId, value: Balance) -> bool {
        forall|a: AccountId|
            #[trigger] after.balance(a) as int == if from == to {
                self.balance(a) as int
            } else if a == from {
                self.balance(a) - value
            } else if a == to {
                self.balance(a) + value
            } else {
                self.balance(a) as int
            }
    }

    /// The outcome of a direct transfer of `value` from `from` to `to` that answered `r`: it
    /// succeeds exactly when `from` holds `value`, then moves it and records it; a failure
    /// leaves the ledger as it was. The allowances stay as they were either way.
    pub open spec fn transferred(self, after: Self, from: AccountId, to: AccountId, value: Balance, r: bool) -> bool {
        &&& r == (self.balance(from) >= value)
        &&& after.supply() == self.supply()
        &&& after.allowance_map() == self.allowance_map()
        &&& r ==> self.moved(after, from, to, value)
        &&& r ==> after.event_log() == self.event_log().push(
            Event::Transfer(Transfer { from: Some(from), to: Some(to), value }),
        )
        &&& !r ==> after == self
    }

    /// The outcome of `caller` moving `value` from `from` to `to` on `from`'s allowance, which
    /// answered `r`: it succeeds exactly when the allowance and the balance of `from` both
    /// cover `value`, then moves it, lowers that allowance by `value` and records the transfer;
    /// a failure leaves the ledger as it was.
    pub open spec fn transferred_from(
        self,
        after: Self,
        caller: AccountId,
        from: AccountId,
        to: AccountId,
        value: Balance,
        r: bool,
    ) -> bool {
        &&& r == (self.allowance_of(from, caller) >= value && self.balance(from) >= value)
        &&& after.supply() == self.supply()
        &&& r ==> self.moved(after, from, to, value)
        &&& r ==> forall|o: AccountId, s: AccountId| #[trigger] after.allowance_of(o, s)
            == if o == from && s == caller {
                (self.allowance_of(o, s) - value) as Balance
            } else {
                self.allowance_of(o, s)
            }
        &&& r ==> after.event_log() == self.event_log().push(
            Event::Transfer(Transfer { from: Some(from), to: Some(to), value }),
        )
        &&& !r ==> after == self
    }

    /// The outcome of `owner` approving `spender` for `value`: that allowance becomes `value`,
    /// the others and the balances stay, and the approval is recorded.
    pub open spec fn approved(self, after: Self, owner: AccountId, spender: AccountId, value: Balance) -> bool {
        &&& after.supply() == self.supply()
        &&& after.balance_map() == self.balance_map()
        &&& forall|o: AccountId, s: AccountId| #[trigger] after.allowance_of(o, s)
            == if o == owner && s == spender { value } else { self.allowance_of(o, s) }
        &&& after.event_log() == self.event_log().push(
            Event::Approval(Approval { owner, spender, value }),
        )
    }

    /// Creates the ledger with `initial_supply`, all of it held by `creator`, and records the
    /// minting transfer.
    pub fn new(initial_supply: Balance, creator: AccountId) -> (r: Self)
        ensures
            r.wf(),
            r.supply() == initial_supply,
            forall|a: AccountId| #[trigger] r.balance(a) == if a == creator { initial_supply } else { 0 },
            forall|o: AccountId, s: AccountId| #[trigger] r.allowance_of(o, s) == 0,
            r.event_log() == seq![
                Event::Transfer(Transfer { from: None, to: Some(creator), value: initial_supply }),
            ],
    {
        let mut balances = BalanceTable::new();
        proof {
            assert(balance_entries(balances).dom() =~= Set::empty());
        }
        balances.insert(creator, initial_supply);
        proof {
            assert(balance_entries(balances) =~= Map::empty().insert(creator, initial_supply));
            lemma_total_single(creator, initial_supply);
        }
        let allowances = AllowanceTable::new();
        let mut events: Vec<Event> = Vec::new();
        events.push(Event::Transfer(Transfer { from: None, to: Some(creator), value: initial_supply }));
        Erc20 { total_supply: initial_supply, balances, allowances, events }
    }

    /// The fixed total supply.
    pub fn total_supply(&self) -> (r: Balance)
        ensures
            r == self.supply(),
    {
        self.total_supply
    }

    /// The balance of `owner`.
    pub fn balance_of(&self, owner: AccountId) -> (r: Balance)
        ensures
            r == self.balance(owner),
    {
        self.balance_of_or_zero(&owner)
    }

    /// The allowance that `owner` grants `spender`.
    pub fn allowance(&self, owner: AccountId, spender: AccountId) -> (r: Balance)
        ensures
            r == self.allowance_of(owner, spender),
    {
        self.allowance_of_or_zero(&owner, &spender)
    }

    /// Whether both tables can take the new keys of one more operation.
    pub fn has_room(&self) -> (r: bool)
        ensures
            r == self.has_room_spec(),
    {
        self.balances.len() < MAX_KEYS - 1 && self.allowances.len() < MAX_KEYS
    }

    /// The notifications emitted so far, oldest first.
    pub fn events(&self) -> (r: &Vec<Event>)
        ensures
            r@ == self.event_log(),
    {
        &self.events
    }

    /// Hands out the notifications emitted so far and forgets them.
    pub fn take_events(&mut self) -> (r: Vec<Event>)
        ensures
            r@ == old(self).event_log(),
            final(self).event_log() == Seq::<Event>::empty(),
            final(self).supply() == old(self).supply(),
            final(self).balance_map() == old(self).balance_map(),
            final(self).allowance_map() == old(self).allowance_map(),
    {
        let mut r: Vec<Event> = Vec::new();
        std::mem::swap(&mut r, &mut self.events);
        r
    }

    /// Sets the allowance of `caller` for `spender` to `value`, whatever it was, and records the
    /// approval. Always succeeds.
    pub fn approve(&mut self, caller: AccountId, spender: AccountId, value: Balance) -> (r: bool)
        requires
            old(self).wf(),
            old(self).has_room_spec(),
        ensures
            r,
            final(self).wf(),
            old(self).approved(*final(self), caller, spender, value),
    {
        self.allowances.insert((caller, spender), value);
        self.events.push(Event::Approval(Approval { owner: caller, spender, value }));
        true
    }

    /// Moves `value` from `caller` to `to`, as `transfer_from_to` does.
    pub fn transfer(&mut self, caller: AccountId, to: AccountId, value: Balance) -> (r: bool)
        requires
            old(self).wf(),
            old(self).has_room_spec(),
        ensures
            r == (old(self).balance(caller) >= value),
            final(self).wf(),
            old(self).transferred(*final(self), caller, to, value, r),
    {
        self.transfer_from_to(caller, to, value)
    }

    /// Lets `caller` move `value` from `from` to `to` within the allowance that `from` granted
    /// it. On success the allowance drops by `value`; on failure nothing changes.
    pub fn transfer_from(&mut self, caller: AccountId, from: AccountId, to: AccountId, value: Balance) -> (r: bool)
        requires
            old(self).wf(),
            old(self).has_room_spec(),
        ensures
            r == (old(self).allowance_of(from, caller) >= value && old(self).balance(from) >= value),
            final(self).wf(),
            old(self).transferred_from(*final(self), caller, from, to, value, r),
    {
        let allowance = self.allowance_of_or_zero(&from, &caller);
        if allowance < value {
            return false;
        }
        let transferred = self.transfer_from_to(from, to, value);
        if !transferred {
            return false;
        }
        let ghost moved_state = *self;
        self.allowances.insert((from, caller), allowance - value);
        proof {
            assert(self.balance_map() == moved_state.balance_map());
            assert forall|a: AccountId| #[trigger] self.balance(a) == moved_state.balance(a) by {}
        }
        true
    }

    /// Moves `value` from `from` to `to` when `from` holds at least `value`, and records the
    /// transfer; otherwise changes nothing. Both new balances are computed from the balances
    /// read before either is written, and a move to the same account leaves it as it was.
    fn transfer_from_to(&mut self, from: AccountId, to: AccountId, value: Balance) -> (r: bool)
        requires
            old(self).wf(),
            old(self).has_room_spec(),
        ensures
            r == (old(self).balance(from) >= value),
            final(self).wf(),
            old(self).transferred(*final(self), from, to, value, r),
    {
        let from_balance = self.balance_of_or_zero(&from);
        let to_balance = self.balance_of_or_zero(&to);
        if from_balance < value {
            return false;
        }
        if !same_account(&from, &to) {
            let ghost m0 = balance_entries(self.balances);
            proof {
                lemma_total_insert(m0, from, (from_balance - value) as Balance);
                let m1 = m0.insert(from, (from_balance - value) as Balance);
                assert(amount_in(m1, to) == to_balance);
                lemma_amount_le_total(m1, to);
                lemma_total_insert(m1, to, (to_balance + value) as Balance);
            }
            self.balances.insert(from, from_balance - value);
            self.balances.insert(to, to_balance + value);
        }
        self.events.push(Event::Transfer(Transfer { from: Some(from), to: Some(to), value }));
        true
    }

    /// The stored balance of `owner`, or zero.
    fn balance_of_or_zero(&self, owner: &AccountId) -> (r: Balance)
        ensures
            r == self.balance(*owner),
    {
        self.balances.get(owner).unwrap_or(0)
    }

    /// The stored allowance of `owner` for `spender`, or zero.
    fn allowance_of_or_zero(&self, owner: &AccountId, spender: &AccountId) -> (r: Balance)
        ensures
            r == self.allowance_of(*owner, *spender),
    {
        self.allowances.get(&(*owner, *spender)).unwrap_or(0)
    }
}

/// Moving value between balances, as a successful transfer does, keeps the sum of all balances.
pub proof fn lemma_move_conserves(before: Erc20, after: Erc20, from: AccountId, to: AccountId, value: Balance)
    requires
        before.balance_map().dom().finite(),
        after.balance_map().dom().finite(),
        before.moved(after, from, to, value),
    ensures
        after.sum_of_balances() == before.sum_of_balances(),
{
    if from == to {
        assert forall|a: AccountId| #[trigger] amount_in(after.balance_map(), a) == amount_in(
            before.balance_map(),
            a,
        ) by {
            assert(after.balance(a) as int == before.balance(a) as int);
        }
        crate::sum::lemma_sum_superset(
            after.balance_map().dom().union(before.balance_map().dom()),
            after.balance_map(),
        );
        crate::sum::lemma_sum_superset(
            after.balance_map().dom().union(before.balance_map().dom()),
            before.balance_map(),
        );
        lemma_sum_frame(
            after.balance_map().dom().union(before.balance_map().dom()),
            after.balance_map(),
            before.balance_map(),
        );
    } else {
        assert(after.balance(from) as int == before.balance(from) - value);
        assert(after.balance(to) as int == before.balance(to) + value);
        assert forall|a: AccountId| a != from && a != to implies amount_in(before.balance_map(), a)
            == amount_in(after.balance_map(), a) by {
            assert(after.balance(a) as int == before.balance(a) as int);
        }
        lemma_total_move(before.balance_map(), after.balance_map(), from, to);
    }
}

/// A step of a run: `after` follows `before` by a successful transfer, direct when `step.0` is
/// `None`, else delegated with `step.0` as the caller; `step` gives then `from`, `to` and `value`.
pub open spec fn successful_transfer(
    before: Erc20,
    after: Erc20,
    step: (Option<AccountId>, AccountId, AccountId, Balance),
) -> bool {
    match step.0 {
        None => before.transferred(after, step.1, step.2, step.3, true),
        Some(caller) => before.transferred_from(after, caller, step.1, step.2, step.3, true),
    }
}

/// Over any run of successful transfers, direct or delegated, the balances always add up to
/// the total supply fixed at the start: `steps[i]` leads from `states[i]` to `states[i + 1]`.
pub proof fn lemma_conservation(
    states: Seq<Erc20>,
    steps: Seq<(Option<AccountId>, AccountId, AccountId, Balance)>,
)
    requires
        states.len() == steps.len() + 1,
        states[0].wf(),
        forall|i: int| 0 <= i < states.len() ==> #[trigger] states[i].balance_map().dom().finite(),
        forall|i: int|
            0 <= i < steps.len() ==> successful_transfer(#[trigger] states[i], states[i + 1], steps[i]),
    ensures
        forall|i: int| 0 <= i < states.len() ==> #[trigger] states[i].sum_of_balances() == states[0].supply(),
        forall|i: int| 0 <= i < states.len() ==> #[trigger] states[i].supply() == states[0].supply(),
    decreases steps.len(),
{
    if steps.len() > 0 {
        let n = steps.len() - 1;
        lemma_conservation(states.drop_last(), steps.drop_last());
        assert(states.drop_last()[n] == states[n]);
        assert(successful_transfer(states[n], states[n + 1], steps[n]));
        lemma_move_conserves(states[n], states[n + 1], steps[n].1, steps[n].2, steps[n].3);
        assert forall|i: int| 0 <= i < states.len() - 1 implies #[trigger] states.drop_last()[i]
            == states[i] by {}
        assert forall|i: int| 0 <= i < states.len() implies #[trigger] states[i].supply()
            == states[0].supply() by {
            if i < states.len() - 1 {
                assert(states.drop_last()[i] == states[i]);
            }
        }
        assert forall|i: int| 0 <= i < states.len() implies #[trigger] states[i].sum_of_balances()
            == states[0].supply() by {
            if i < states.len() - 1 {
                assert(states.drop_last()[i] == states[i]);
            }
        }
    }
}

/// A transfer from an account to itself that the balance covers succeeds and leaves that
/// balance as it was.
pub proof fn lemma_self_transfer(before: Erc20, after: Erc20, a: AccountId, value: Balance, r: bool)
    requires
        before.transferred(after, a, a, value, r),
        before.balance(a) >= value,
    ensures
        r,
        after.balance(a) == before.balance(a),
{
    assert(after.balance(a) as int == before.balance(a) as int);
}

/// A transfer that the balance does not cover fails and changes nothing.
pub proof fn lemma_insufficient_funds(
    before: Erc20,
    after: Erc20,
    from: AccountId,
    to: AccountId,
    value: Balance,
    r: bool,
)
    requires
        before.transferred(after, from, to, value, r),
        before.balance(from) < value,
    ensures
        !r,
        after == before,
        after.balance(from) == before.balance(from),
        after.balance(to) == before.balance(to),
{
}

/// Approving again overwrites the earlier allowance rather than adding to it.
pub proof fn lemma_approve_overwrites(
    s0: Erc20,
    s1: Erc20,
    s2: Erc20,
    owner: AccountId,
    spender: AccountId,
    first: Balance,
    second: Balance,
)
    requires
        s0.approved(s1, owner, spender, first),
        s1.approved(s2, owner, spender, second),
    ensures
        s1.allowance_of(owner, spender) == first,
        s2.allowance_of(owner, spender) == second,
{
    assert(s1.allowance_of(owner, spender) == first);
    assert(s2.allowance_of(owner, spender) == second);
}

/// A delegated transfer that succeeds lowers the allowance by the amount moved; one that
/// fails leaves both the allowance and the balances as they were.
pub proof fn lemma_delegated_transfer(
    before: Erc20,
    after: Erc20,
    caller: AccountId,
    from: AccountId,
    to: AccountId,
    value: Balance,
    r: bool,
)
    requires
        before.transferred_from(after, caller, from, to, value, r),
    ensures
        r ==> after.allowance_of(from, caller) == before.allowance_of(from, caller) - value,
        r && from != to ==> after.balance(to) == before.balance(to) + value,
        !r ==> after.allowance_of(from, caller) == before.allowance_of(from, caller),
        !r ==> forall|a: AccountId| after.balance(a) == before.balance(a),
{
    if r {
        assert(after.allowance_of(from, caller) == (before.allowance_of(from, caller) - value) as Balance);
        if from != to {
            assert(after.balance(to) as int == before.balance(to) + value);
        }
    }
}

} // verus!
