use vstd::prelude::*;

use crate::events::Approval;
use crate::events::Event;
use crate::events::Transfer;
use crate::table;
use crate::types::AccountId;
use crate::types::Balance;
use crate::types::Error;

verus! {

/// True when every account holds the same balance in `post` as in `pre`.
pub open spec fn same_balances(pre: Erc20, post: Erc20) -> bool {
    forall|a: AccountId| post.spec_balance_of(a) == pre.spec_balance_of(a)
}

/// True when every ordered (owner, spender) pair holds the same allowance in
/// `post` as in `pre`.
pub open spec fn same_allowances(pre: Erc20, post: Erc20) -> bool {
    forall|o: AccountId, s: AccountId| post.spec_allowance(o, s) == pre.spec_allowance(o, s)
}

/// True when `post`'s balances are `pre`'s after moving `value` units out of
/// `from` into `to`: a net no-op when `from == to`, otherwise a decrement of
/// `from` and an increment of `to`, every other account untouched.
pub open spec fn balances_moved(
    pre: Erc20,
    post: Erc20,
    from: AccountId,
    to: AccountId,
    value: Balance,
) -> bool {
    if from == to {
        same_balances(pre, post)
    } else {
        &&& post.spec_balance_of(from) == pre.spec_balance_of(from) - value
        &&& post.spec_balance_of(to) == pre.spec_balance_of(to) + value
        &&& forall|a: AccountId|
            a != from && a != to ==> post.spec_balance_of(a) == pre.spec_balance_of(a)
    }
}

/// The fungible-token ledger: a total supply fixed at construction, a balance
/// per account, an allowance per ordered (owner, spender) pair, and the log of
/// events emitted so far, oldest first. An account or pair without an entry
/// holds 0. The host environment that persists the ledger, serializes calls
/// to it and supplies the caller identity passes that identity into every
/// operation as the explicit `caller` argument; the host's event transport
/// reads the log through [`Erc20::events`].
pub struct Erc20 {
    total_supply: Balance,
    balances: Vec<(AccountId, Balance)>,
    allowances: Vec<((AccountId, AccountId), Balance)>,
    events: Vec<Event>,
}

impl Erc20 {
    /// The ledger's internal invariant: each table keys every account (or
    /// pair) at most once, and the balances sum to the total supply.
    pub closed spec fn wf(self) -> bool {
        &&& table::distinct_keys(self.balances@)
        &&& table::distinct_keys(self.allowances@)
        &&& table::amounts_sum(self.balances@) == self.total_supply as int
    }

    /// The supply fixed at construction.
    pub closed spec fn spec_total_supply(self) -> Balance {
        self.total_supply
    }

    /// The balance held by `account`; 0 when it holds no entry.
    pub closed spec fn spec_balance_of(self, account: AccountId) -> Balance {
        table::entry_lookup(self.balances@, account)
    }

    /// The amount `spender` is still authorized to move out of `owner`'s
    /// balance; 0 when the pair holds no entry.
    pub closed spec fn spec_allowance(self, owner: AccountId, spender: AccountId) -> Balance {
        table::entry_lookup(self.allowances@, (owner, spender))
    }

    /// The events emitted so far, oldest first.
    pub closed spec fn spec_events(self) -> Seq<Event> {
        self.events@
    }

    /// The sum of all balances, over every account holding an entry.
    pub closed spec fn spec_sum_of_balances(self) -> int {
        table::amounts_sum(self.balances@)
    }

    /// Creates the ledger, crediting the whole supply to `caller` and
    /// emitting the mint event: a transfer from no account to `caller`.
    pub fn new(caller: AccountId, total_supply: Balance) -> (r: Erc20)
        ensures
            r.wf(),
            r.spec_total_supply() == total_supply,
            r.spec_balance_of(caller) == total_supply,
            forall|a: AccountId| a != caller ==> r.spec_balance_of(a) == 0,
            forall|o: AccountId, s: AccountId| r.spec_allowance(o, s) == 0,
            r.spec_events() =~= seq![
                Event::Transfer(
                    (Transfer { from: None, to: Some(caller), value: total_supply }),
                ),
            ],
    {
        let mut balances: Vec<(AccountId, Balance)> = Vec::new();
        let ghost s0 = balances@;
        balances.push((caller, total_supply));
        proof {
            table::lemma_sum_push(s0, (caller, total_supply));
            table::lemma_lookup_push_fresh(s0, (caller, total_supply));
            assert forall|a: AccountId| a != caller implies table::entry_lookup(balances@, a)
                == 0 by {
                table::lemma_lookup_push_other(s0, (caller, total_supply), a);
                table::lemma_lookup_absent(s0, a);
            }
        }
        let allowances: Vec<((AccountId, AccountId), Balance)> = Vec::new();
        proof {
            assert forall|o: AccountId, s: AccountId|
                table::entry_lookup(allowances@, (o, s)) == 0 by {
                table::lemma_lookup_absent(allowances@, (o, s));
            }
        }
        let mut events: Vec<Event> = Vec::new();
        events.push(Event::Transfer(Transfer { from: None, to: Some(caller), value: total_supply }));
        Erc20 { total_supply, balances, allowances, events }
    }

    /// Returns the fixed total supply. Pure: the result is a function of the
    /// ledger state alone, so repeated calls agree.
    pub fn total_supply(&self) -> (r: Balance)
        ensures
            r == self.spec_total_supply(),
    {
        self.total_supply
    }

    /// Returns `who`'s balance, 0 for an account without an entry. Pure: the
    /// result is a function of the ledger state alone, so repeated calls
    /// agree.
    pub fn balance_of(&self, who: AccountId) -> (r: Balance)
        ensures
            r == self.spec_balance_of(who),
    {
        table::amount_get(&self.balances, who)
    }

    /// Returns what `spender` may still move out of `owner`'s balance, 0 for
    /// a pair without an entry. Pure: the result is a function of the ledger
    /// state alone, so repeated calls agree.
    pub fn allowance(&self, owner: AccountId, spender: AccountId) -> (r: Balance)
        ensures
            r == self.spec_allowance(owner, spender),
    {
        table::pair_get(&self.allowances, owner, spender)
    }

    /// Returns the events emitted so far, oldest first.
    pub fn events(&self) -> (r: &Vec<Event>)
        ensures
            r@ == self.spec_events(),
    {
        &self.events
    }

    /// Moves `value` units out of `caller`'s balance into `to`'s balance and
    /// emits the transfer event. Fails with `BalanceTooLow`, touching
    /// nothing, exactly when `caller`'s balance does not cover `value`.
    pub fn transfer(&mut self, caller: AccountId, to: AccountId, value: Balance) -> (r: Result<
        (),
        Error,
    >)
        requires
            old(self).wf(),
        ensures
            final(self).wf(),
            final(self).spec_total_supply() == old(self).spec_total_supply(),
            same_allowances(*old(self), *final(self)),
            r is Ok <==> value <= old(self).spec_balance_of(caller),
            r is Err ==> r == Err::<(), Error>(Error::BalanceTooLow) && *final(self) == *old(self),
            r is Ok ==> balances_moved(*old(self), *final(self), caller, to, value),
            r is Ok ==> final(self).spec_events() == old(self).spec_events().push(
                Event::Transfer((Transfer { from: Some(caller), to: Some(to), value })),
            ),
    {
        self.transfer_helper(&caller, &to, value)
    }

    /// The balance movement shared by [`Erc20::transfer`] and
    /// [`Erc20::transfer_from`]: moves `value` units out of `from`'s balance
    /// into `to`'s balance and emits the transfer event, without consulting
    /// any allowance. Fails with `BalanceTooLow`, touching nothing, exactly
    /// when `from`'s balance does not cover `value`.
    pub fn transfer_helper(&mut self, from: &AccountId, to: &AccountId, value: Balance) -> (r:
        Result<(), Error>)
        requires
            old(self).wf(),
        ensures
            final(self).wf(),
            final(self).spec_total_supply() == old(self).spec_total_supply(),
            same_allowances(*old(self), *final(self)),
            r is Ok <==> value <= old(self).spec_balance_of(*from),
            r is Err ==> r == Err::<(), Error>(Error::BalanceTooLow) && *final(self) == *old(self),
            r is Ok ==> balances_moved(*old(self), *final(self), *from, *to, value),
            r is Ok ==> final(self).spec_events() == old(self).spec_events().push(
                Event::Transfer((Transfer { from: Some(*from), to: Some(*to), value })),
            ),
    {
        let balance_from = table::amount_get(&self.balances, *from);
        if value > balance_from {
            return Err(Error::BalanceTooLow);
        }
        if *from != *to {
            let balance_to = table::amount_get(&self.balances, *to);
            proof {
                table::lemma_two_lookups_le_sum(self.balances@, *from, *to);
            }
            table::amount_set(&mut self.balances, *from, balance_from - value);
            table::amount_set(&mut self.balances, *to, balance_to + value);
        }
        self.events.push(Event::Transfer(Transfer { from: Some(*from), to: Some(*to), value }));
        Ok(())
    }

    /// Overwrites — never accumulates — the allowance of the ordered pair
    /// `(caller, spender)` with `value` and emits the approval event. Always
    /// succeeds: an allowance is a permission ceiling, not a reservation, so
    /// `value` may exceed `caller`'s balance.
    pub fn approve(&mut self, caller: AccountId, spender: AccountId, value: Balance) -> (r: Result<
        (),
        Error,
    >)
        requires
            old(self).wf(),
        ensures
            final(self).wf(),
            r == Ok::<(), Error>(()),
            final(self).spec_total_supply() == old(self).spec_total_supply(),
            same_balances(*old(self), *final(self)),
            final(self).spec_allowance(caller, spender) == value,
            forall|o: AccountId, s: AccountId|
                !(o == caller && s == spender) ==> final(self).spec_allowance(o, s) == old(
                    self,
                ).spec_allowance(o, s),
            final(self).spec_events() == old(self).spec_events().push(
                Event::Approval((Approval { from: caller, to: spender, value })),
            ),
    {
        table::pair_set(&mut self.allowances, caller, spender, value);
        self.events.push(Event::Approval(Approval { from: caller, to: spender, value }));
        Ok(())
    }

    /// Lets `caller` act as the spender: moves `value` units out of `from`'s
    /// balance into `to`'s balance, consumes that much of the allowance of
    /// `(from, caller)`, and emits the transfer event. Checked in this order:
    /// fails with `AllowanceTooLow` exactly when the allowance does not cover
    /// `value`, else with `BalanceTooLow` exactly when `from`'s balance does
    /// not cover it; either failure leaves the ledger untouched — in
    /// particular, a failed call never leaves the allowance decremented.
    pub fn transfer_from(
        &mut self,
        caller: AccountId,
        from: AccountId,
        to: AccountId,
        value: Balance,
    ) -> (r: Result<(), Error>)
        requires
            old(self).wf(),
        ensures
            final(self).wf(),
            final(self).spec_total_supply() == old(self).spec_total_supply(),
            r is Ok <==> (value <= old(self).spec_allowance(from, caller) && value <= old(
                self,
            ).spec_balance_of(from)),
            r == Err::<(), Error>(Error::AllowanceTooLow) <==> value > old(self).spec_allowance(
                from,
                caller,
            ),
            r == Err::<(), Error>(Error::BalanceTooLow) <==> (value <= old(self).spec_allowance(
                from,
                caller,
            ) && value > old(self).spec_balance_of(from)),
            r is Err ==> *final(self) == *old(self),
            r is Ok ==> final(self).spec_allowance(from, caller) == old(self).spec_allowance(
                from,
                caller,
            ) - value,
            r is Ok ==> forall|o: AccountId, s: AccountId|
                !(o == from && s == caller) ==> final(self).spec_allowance(o, s) == old(
                    self,
                ).spec_allowance(o, s),
            r is Ok ==> balances_moved(*old(self), *final(self), from, to, value),
            r is Ok ==> final(self).spec_events() == old(self).spec_events().push(
                Event::Transfer((Transfer { from: Some(from), to: Some(to), value })),
            ),
    {
        let allowance = table::pair_get(&self.allowances, from, caller);
        if allowance < value {
            return Err(Error::AllowanceTooLow);
        }
        match self.transfer_helper(&from, &to, value) {
            Ok(()) => {
                table::pair_set(&mut self.allowances, from, caller, allowance - value);
                Ok(())
            },
            Err(e) => Err(e),
        }
    }
}

/// Law: in every well-formed ledger — and every operation both requires and
/// re-establishes well-formedness, so in every reachable state — the balances
/// sum to the fixed total supply.
pub proof fn lemma_supply_conserved(l: Erc20)
    requires
        l.wf(),
    ensures
        l.spec_sum_of_balances() == l.spec_total_supply() as int,
{
}

/// Law: no balance and no allowance is ever negative — the amount type has no
/// negative representation, and every operation rejects a transition that
/// would need one instead of wrapping.
pub proof fn lemma_amounts_nonnegative(l: Erc20, a: AccountId, owner: AccountId, spender: AccountId)
    ensures
        l.spec_balance_of(a) >= 0,
        l.spec_allowance(owner, spender) >= 0,
{
}

/// Law: no single account's balance ever exceeds the total supply of a
/// well-formed ledger.
pub proof fn lemma_balance_le_supply(l: Erc20, a: AccountId)
    requires
        l.wf(),
    ensures
        l.spec_balance_of(a) <= l.spec_total_supply(),
{
    table::lemma_lookup_le_sum(l.balances@, a);
}

/// Law: two different accounts' balances never exceed the total supply
/// together; this is what makes the increment in a transfer free of overflow.
pub proof fn lemma_two_balances_le_supply(l: Erc20, a: AccountId, b: AccountId)
    requires
        l.wf(),
        a != b,
    ensures
        l.spec_balance_of(a) + l.spec_balance_of(b) <= l.spec_total_supply(),
{
    table::lemma_two_lookups_le_sum(l.balances@, a, b);
}

} // verus!
