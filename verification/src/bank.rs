//! A subject for the harness: a ledger of accounts and balances.

use std::collections::BTreeMap;
use vstd::prelude::*;
use vstd::std_specs::btree::{increasing_seq, spec_keys_iter};
use vstd::std_specs::cmp::OrdSpec;
use vstd::std_specs::iter::IteratorSpec;

verus! {

/// Accounts are numbered in the order in which they are opened.
pub type AccountId = u64;

/// What an account holds.
pub type Balance = u128;

/// What the treasury holds when a bank opens.
pub const TREASURY_OPENING_BALANCE: Balance = 1_000_000;

/// A bank: a treasury and the accounts opened since, each with its balance.
pub struct Bank {
    account_id_next: AccountId,
    balances: BTreeMap<AccountId, Balance>,
}

/// The ledger after `amount` has gone from `dr` to `cr`, or the ledger as it
/// was where the two are one account, where `dr` holds less than `amount`, or
/// where `cr` would hold more than a balance can.
pub open spec fn transferred(
    ledger: Map<AccountId, Balance>,
    dr: AccountId,
    cr: AccountId,
    amount: Balance,
) -> Map<AccountId, Balance> {
    if dr == cr || ledger[dr] < amount || ledger[cr] + amount > Balance::MAX {
        ledger
    } else {
        ledger.insert(dr, (ledger[dr] - amount) as Balance).insert(
            cr,
            (ledger[cr] + amount) as Balance,
        )
    }
}

/// Adds the balance that `ledger` has for an account to a sum.
pub open spec fn add_balance(ledger: Map<AccountId, Balance>) -> spec_fn(int, AccountId) -> int {
    |sum: int, id: AccountId| sum + ledger[id]
}

/// All that the accounts of `ledger` hold together.
pub open spec fn total(ledger: Map<AccountId, Balance>) -> int {
    ledger.dom().fold(0int, add_balance(ledger))
}

proof fn lemma_add_balance_commutes(ledger: Map<AccountId, Balance>)
    ensures
        vstd::set::fold::is_fun_commutative(add_balance(ledger)),
{
    let f = add_balance(ledger);
    assert forall|a1: AccountId, a2: AccountId, b: int| #[trigger]
        f(f(b, a2), a1) == f(f(b, a1), a2) by {}
}

/// Two ledgers that agree on a set of accounts give those accounts the same
/// sum.
proof fn lemma_sum_agrees(
    accounts: Set<AccountId>,
    one: Map<AccountId, Balance>,
    other: Map<AccountId, Balance>,
)
    requires
        accounts.finite(),
        forall|id: AccountId| accounts.contains(id) ==> one[id] == other[id],
    ensures
        accounts.fold(0int, add_balance(one)) == accounts.fold(0int, add_balance(other)),
    decreases accounts.len(),
{
    lemma_add_balance_commutes(one);
    lemma_add_balance_commutes(other);
    if accounts.len() == 0 {
        assert(accounts =~= Set::<AccountId>::empty());
        vstd::set::fold::lemma_fold_empty::<AccountId, int>(0int, add_balance(one));
        vstd::set::fold::lemma_fold_empty::<AccountId, int>(0int, add_balance(other));
    } else {
        let id = accounts.choose();
        let rest = accounts.remove(id);
        assert(rest.insert(id) =~= accounts);
        lemma_sum_agrees(rest, one, other);
        vstd::set::fold::lemma_fold_insert(rest, 0int, add_balance(one), id);
        vstd::set::fold::lemma_fold_insert(rest, 0int, add_balance(other), id);
    }
}

/// A new account adds what it holds to the total.
pub proof fn lemma_total_of_new_account(
    ledger: Map<AccountId, Balance>,
    id: AccountId,
    balance: Balance,
)
    requires
        ledger.dom().finite(),
        !ledger.contains_key(id),
    ensures
        total(ledger.insert(id, balance)) == total(ledger) + balance,
{
    let after = ledger.insert(id, balance);
    lemma_add_balance_commutes(after);
    assert(after.dom() =~= ledger.dom().insert(id));
    vstd::set::fold::lemma_fold_insert(ledger.dom(), 0int, add_balance(after), id);
    lemma_sum_agrees(ledger.dom(), after, ledger);
}

/// A closed account takes what it held out of the total.
pub proof fn lemma_total_of_closed_account(ledger: Map<AccountId, Balance>, id: AccountId)
    requires
        ledger.dom().finite(),
        ledger.contains_key(id),
    ensures
        total(ledger.remove(id)) == total(ledger) - ledger[id],
{
    assert(ledger.remove(id).insert(id, ledger[id]) =~= ledger);
    lemma_total_of_new_account(ledger.remove(id), id, ledger[id]);
}

/// A new balance for an account changes the total by as much as it differs
/// from the old one.
pub proof fn lemma_total_of_new_balance(
    ledger: Map<AccountId, Balance>,
    id: AccountId,
    balance: Balance,
)
    requires
        ledger.dom().finite(),
        ledger.contains_key(id),
    ensures
        total(ledger.insert(id, balance)) == total(ledger) - ledger[id] + balance,
{
    assert(ledger.insert(id, balance).remove(id) =~= ledger.remove(id));
    lemma_total_of_closed_account(ledger, id);
    lemma_total_of_new_account(ledger.remove(id), id, balance);
    assert(ledger.remove(id).insert(id, balance) =~= ledger.insert(id, balance));
}

/// A transfer between open accounts leaves the total as it was.
pub proof fn lemma_transfer_keeps_total(
    ledger: Map<AccountId, Balance>,
    dr: AccountId,
    cr: AccountId,
    amount: Balance,
)
    requires
        ledger.dom().finite(),
        dr != cr ==> ledger.contains_key(dr) && ledger.contains_key(cr),
    ensures
        total(transferred(ledger, dr, cr, amount)) == total(ledger),
        transferred(ledger, dr, cr, amount).dom() == ledger.dom(),
{
    if !(dr == cr || ledger[dr] < amount || ledger[cr] + amount > Balance::MAX) {
        let debited = ledger.insert(dr, (ledger[dr] - amount) as Balance);
        lemma_total_of_new_balance(ledger, dr, (ledger[dr] - amount) as Balance);
        lemma_total_of_new_balance(debited, cr, (ledger[cr] + amount) as Balance);
        assert(transferred(ledger, dr, cr, amount).dom() =~= ledger.dom());
    }
}

impl Bank {
    /// The account that a bank opens with and never closes.
    pub const TREASURY: AccountId = 0;

    /// The balance of every open account.
    pub closed spec fn ledger(&self) -> Map<AccountId, Balance> {
        self.balances@
    }

    /// The id that the next account will get.
    pub closed spec fn next_id(&self) -> AccountId {
        self.account_id_next
    }

    /// The treasury is open, and the open accounts are finitely many, each
    /// with an id that has been given out.
    pub open spec fn wf(&self) -> bool {
        &&& self.ledger().dom().finite()
        &&& self.ledger().contains_key(Bank::TREASURY)
        &&& forall|id: AccountId| self.ledger().contains_key(id) ==> id < self.next_id()
    }

    /// A bank with a funded treasury and no other account.
    pub fn new() -> (bank: Bank)
        ensures
            bank.wf(),
            bank.next_id() == 1,
            bank.ledger() == Map::<AccountId, Balance>::empty().insert(
                Bank::TREASURY,
                TREASURY_OPENING_BALANCE,
            ),
            total(bank.ledger()) == TREASURY_OPENING_BALANCE,
    {
        let mut result = Bank { account_id_next: 0, balances: BTreeMap::new() };
        result.create_treasury(TREASURY_OPENING_BALANCE);
        proof {
            let empty = Map::<AccountId, Balance>::empty();
            assert(empty.dom() =~= Set::<AccountId>::empty());
            vstd::set::fold::lemma_fold_empty::<AccountId, int>(0int, add_balance(empty));
            lemma_total_of_new_account(empty, Bank::TREASURY, TREASURY_OPENING_BALANCE);
        }
        result
    }

    fn create_treasury(&mut self, treasury_balance: Balance)
        requires
            old(self).next_id() == 0,
            old(self).ledger() == Map::<AccountId, Balance>::empty(),
        ensures
            final(self).next_id() == 1,
            final(self).ledger() == Map::<AccountId, Balance>::empty().insert(
                Bank::TREASURY,
                treasury_balance,
            ),
    {
        let treasury_account = self.create_account();
        assert(treasury_account == Bank::TREASURY);
        assert(self.ledger().len() == 1);
        self.balances.insert(treasury_account, treasury_balance);
    }

    /// Opens an account with nothing in it and returns its id.
    pub fn create_account(&mut self) -> (id: AccountId)
        requires
            old(self).next_id() < AccountId::MAX,
        ensures
            id == old(self).next_id(),
            final(self).next_id() == id + 1,
            final(self).ledger() == old(self).ledger().insert(id, 0),
            old(self).wf() ==> {
                &&& final(self).wf()
                &&& !old(self).ledger().contains_key(id)
                &&& total(final(self).ledger()) == total(old(self).ledger())
            },
    {
        let result = self.account_id_next;
        self.account_id_next += 1;
        self.balances.insert(result, 0);
        proof {
            if old(self).wf() {
                lemma_total_of_new_account(old(self).ledger(), result, 0);
            }
        }
        result
    }

    /// Closes an account, with whatever it holds.
    pub fn delete_account(&mut self, account_id: AccountId)
        requires
            account_id != Bank::TREASURY,
        ensures
            final(self).next_id() == old(self).next_id(),
            final(self).ledger() == old(self).ledger().remove(account_id),
            old(self).wf() ==> final(self).wf(),
            old(self).wf() && old(self).ledger().contains_key(account_id) ==> total(
                final(self).ledger(),
            ) == total(old(self).ledger()) - old(self).ledger()[account_id],
    {
        self.balances.remove(&account_id);
        proof {
            if old(self).wf() && old(self).ledger().contains_key(account_id) {
                lemma_total_of_closed_account(old(self).ledger(), account_id);
            }
        }
    }

    /// The ids of the open accounts, smallest first.
    pub fn get_accounts(&self) -> (accounts: Vec<AccountId>)
        ensures
            accounts@.to_set() == self.ledger().dom(),
            forall|i: int, j: int| 0 <= i < j < accounts.len() ==> accounts[i] < accounts[j],
    {
        let mut accounts: Vec<AccountId> = Vec::new();
        let ghost keys = spec_keys_iter(&self.balances).remaining();
        for id in it: self.balances.keys()
            invariant
                it.seq() == keys,
                accounts@ == keys.unref().take(it.index()),
        {
            accounts.push(*id);
        }
        proof {
            broadcast use vstd::laws_cmp::group_laws_cmp;

            assert(accounts@ == keys.unref());
            assert(increasing_seq(keys));
            assert(vstd::laws_cmp::obeys_cmp::<&AccountId>());
            assert forall|i: int, j: int| 0 <= i < j < accounts.len() implies accounts[i]
                < accounts[j] by {
                assert(OrdSpec::cmp_spec(&keys[i], &keys[j]) is Less);
            }
        }
        accounts
    }

    /// What an open account holds.
    pub fn lookup_balance(&self, account_id: AccountId) -> (balance: Balance)
        requires
            self.ledger().contains_key(account_id),
        ensures
            balance == self.ledger()[account_id],
    {
        *self.balances.get(&account_id).unwrap()
    }

    /// Moves `amount` from `dr` to `cr`, or nothing at all.
    pub fn transfer(&mut self, dr: AccountId, cr: AccountId, amount: Balance)
        requires
            dr != cr ==> old(self).ledger().contains_key(dr) && old(self).ledger().contains_key(
                cr,
            ),
        ensures
            final(self).next_id() == old(self).next_id(),
            final(self).ledger() == transferred(old(self).ledger(), dr, cr, amount),
            old(self).wf() ==> final(self).wf() && total(final(self).ledger()) == total(
                old(self).ledger(),
            ),
    {
        proof {
            if old(self).wf() {
                lemma_transfer_keeps_total(old(self).ledger(), dr, cr, amount);
            }
        }
        if dr == cr {
            return ;
        }
        let dr_balance = *self.balances.get(&dr).unwrap();
        let cr_balance = *self.balances.get(&cr).unwrap();
        match (dr_balance.checked_sub(amount), cr_balance.checked_add(amount)) {
            (Some(dr_balance_new), Some(cr_balance_new)) => {
                self.balances.insert(dr, dr_balance_new);
                self.balances.insert(cr, cr_balance_new);
            },
            _ => (),
        }
    }
}

} // verus!
