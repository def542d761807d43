//! The whole vault: the vault record, the pooled holding, and the ledger
//! entries of all depositors, keyed by their owners.
//!
//! The pooled holding always holds at least as many units as all ledger
//! entries together promise: `LedgerView::solvent`.

use crate::address::Address;
use crate::derivation::{program_id, vault_authority, Capability};
use crate::error::VaultError;
use crate::instructions::{Deposit, Withdraw};
use crate::state::{address_view, TokenAccount, Transfer, UserAccount, Vault};
use vstd::prelude::*;

verus! {

/// The units that the entries promise together.
pub open spec fn total(entries: Seq<UserAccount>) -> nat
    decreases entries.len(),
{
    if entries.len() == 0 {
        0
    } else {
        total(entries.drop_last()) + entries.last().balance as nat
    }
}

/// No two entries have the same owner.
pub open spec fn distinct(entries: Seq<UserAccount>) -> bool {
    forall|i: int, j: int|
        #![trigger entries[i], entries[j]]
        0 <= i < j < entries.len() ==> entries[i].user != entries[j].user
}

/// Some entry belongs to `owner`.
pub open spec fn holds(entries: Seq<UserAccount>, owner: Address) -> bool {
    exists|i: int| 0 <= i < entries.len() && (#[trigger] entries[i]).user == owner
}

/// Where the entry of `owner` stands, if there is one.
pub open spec fn position(entries: Seq<UserAccount>, owner: Address) -> int {
    choose|i: int| 0 <= i < entries.len() && (#[trigger] entries[i]).user == owner
}

/// The entry of `owner`, if there is one.
pub open spec fn entry_of(entries: Seq<UserAccount>, owner: Address) -> Option<UserAccount> {
    if holds(entries, owner) {
        Some(entries[position(entries, owner)])
    } else {
        None
    }
}

/// The entries after `entry` is stored: it takes the place of its owner's
/// entry, or comes last where its owner had none.
pub open spec fn store(entries: Seq<UserAccount>, entry: UserAccount) -> Seq<UserAccount> {
    if holds(entries, entry.user) {
        entries.update(position(entries, entry.user), entry)
    } else {
        entries.push(entry)
    }
}

/// What the vault holds as a whole.
pub struct LedgerView {
    pub vault: Vault,
    pub pool: TokenAccount,
    pub entries: Seq<UserAccount>,
}

impl LedgerView {
    /// Every owner has at most one entry.
    pub open spec fn wf(self) -> bool {
        distinct(self.entries)
    }

    /// The pooled holding covers what the entries promise together.
    pub open spec fn solvent(self) -> bool {
        self.pool.amount >= total(self.entries)
    }

    /// The units that `owner` may withdraw, if it has an entry.
    pub open spec fn balance_of(self, owner: Address) -> Option<u64> {
        match entry_of(self.entries, owner) {
            Some(entry) => Some(entry.balance),
            None => None,
        }
    }

    /// What a deposit by `user` from the holding `holding` works on.
    pub open spec fn deposit_context(self, user: Address, holding: TokenAccount) -> Deposit {
        Deposit {
            user,
            user_token_account: holding,
            vault_token_account: self.pool,
            user_account: entry_of(self.entries, user),
            vault: self.vault,
        }
    }

    /// What a withdrawal by `user` works on, which claims `entry` and is to
    /// be paid to the holding `holding`.
    pub open spec fn withdraw_context(
        self,
        user: Address,
        entry: UserAccount,
        holding: TokenAccount,
    ) -> Withdraw {
        Withdraw {
            user,
            user_token_account: holding,
            vault_token_account: self.pool,
            user_account: entry,
            vault: self.vault,
        }
    }

    /// The vault after a transition has left the pooled holding as `pool`
    /// and the entry it worked on as `entry`.
    pub open spec fn committed(self, pool: TokenAccount, entry: UserAccount) -> LedgerView {
        LedgerView { vault: self.vault, pool, entries: store(self.entries, entry) }
    }

    /// Why a deposit of `amount` by `user` from `holding` is refused, if it
    /// is, where `authority` is the address that the recorded bump derives.
    pub open spec fn deposit_refusal(
        self,
        user: Address,
        holding: TokenAccount,
        amount: u64,
        authority: Option<Seq<u8>>,
    ) -> Option<VaultError> {
        self.deposit_context(user, holding).refusal(amount, authority)
    }

    /// The vault after a deposit of `amount` by `user` from `holding` that
    /// is not refused.
    pub open spec fn deposited(self, user: Address, holding: TokenAccount, amount: u64) -> LedgerView {
        let after = self.deposit_context(user, holding).effect(amount);
        self.committed(after.vault_token_account, after.user_account->0)
    }

    /// Why a withdrawal of `amount` by `user` against the entry of `owner`
    /// is refused, if it is, where `authority` is the address that the
    /// recorded bump derives. An owner without an entry has nothing that
    /// the caller could own.
    pub open spec fn withdraw_refusal(
        self,
        user: Address,
        owner: Address,
        holding: TokenAccount,
        amount: u64,
        authority: Option<Seq<u8>>,
    ) -> Option<VaultError> {
        match entry_of(self.entries, owner) {
            Some(entry) => self.withdraw_context(user, entry, holding).refusal(amount, authority),
            None => Some(VaultError::Unauthorized),
        }
    }

    /// The vault after a withdrawal of `amount` by `user` against the entry
    /// of `owner` that is not refused.
    pub open spec fn withdrawn(
        self,
        user: Address,
        owner: Address,
        holding: TokenAccount,
        amount: u64,
    ) -> LedgerView {
        let after = self.withdraw_context(user, entry_of(self.entries, owner)->0, holding).effect(
            amount,
        );
        self.committed(after.vault_token_account, after.user_account)
    }
}

/// Where entries have distinct owners, the entry of an owner stands where
/// any entry of that owner stands.
pub proof fn lemma_position_unique(entries: Seq<UserAccount>, i: int)
    requires
        distinct(entries),
        0 <= i < entries.len(),
    ensures
        holds(entries, entries[i].user),
        position(entries, entries[i].user) == i,
        entry_of(entries, entries[i].user) == Some(entries[i]),
{
    let owner = entries[i].user;
    let p = position(entries, owner);
    assert(0 <= p < entries.len() && entries[p].user == owner);
    if p < i {
        assert(entries[p].user != entries[i].user);
    } else if i < p {
        assert(entries[i].user != entries[p].user);
    }
}

/// An entry at the end adds its balance to the total.
pub proof fn lemma_total_push(entries: Seq<UserAccount>, entry: UserAccount)
    ensures
        total(entries.push(entry)) == total(entries) + entry.balance,
{
    assert(entries.push(entry).drop_last() =~= entries);
}

/// An entry in the place of another changes the total by the difference of
/// their balances.
pub proof fn lemma_total_update(entries: Seq<UserAccount>, i: int, entry: UserAccount)
    requires
        0 <= i < entries.len(),
    ensures
        total(entries.update(i, entry)) == total(entries) - entries[i].balance + entry.balance,
        total(entries) >= entries[i].balance,
    decreases entries.len(),
{
    let updated = entries.update(i, entry);
    if i == entries.len() - 1 {
        assert(updated.drop_last() =~= entries.drop_last());
    } else {
        assert(updated.drop_last() =~= entries.drop_last().update(i, entry));
        lemma_total_update(entries.drop_last(), i, entry);
    }
}

/// Storing an entry keeps the owners distinct, leaves every other owner's
/// entry as it was, and makes the entry the one of its owner.
pub proof fn lemma_store(entries: Seq<UserAccount>, entry: UserAccount)
    requires
        distinct(entries),
    ensures
        distinct(store(entries, entry)),
        entry_of(store(entries, entry), entry.user) == Some(entry),
        forall|other: Address|
            other != entry.user ==> #[trigger] entry_of(store(entries, entry), other) == entry_of(
                entries,
                other,
            ),
        total(store(entries, entry)) == total(entries) + entry.balance - (match entry_of(
            entries,
            entry.user,
        ) {
            Some(before) => before.balance as int,
            None => 0,
        }),
{
    let stored = store(entries, entry);
    if holds(entries, entry.user) {
        let p = position(entries, entry.user);
        assert(0 <= p < entries.len() && entries[p].user == entry.user);
        lemma_total_update(entries, p, entry);
        assert(distinct(stored)) by {
            assert forall|i: int, j: int| 0 <= i < j < stored.len() implies stored[i].user
                != stored[j].user by {
                assert(entries[i].user != entries[j].user);
            }
        }
        assert(stored[p] == entry);
        lemma_position_unique(stored, p);
        assert forall|other: Address| other != entry.user implies #[trigger] entry_of(
            stored,
            other,
        ) == entry_of(entries, other) by {
            if holds(entries, other) {
                let q = position(entries, other);
                assert(0 <= q < entries.len() && entries[q].user == other);
                assert(stored[q] == entries[q]);
                lemma_position_unique(entries, q);
                lemma_position_unique(stored, q);
            } else {
                if holds(stored, other) {
                    let q = position(stored, other);
                    assert(0 <= q < stored.len() && stored[q].user == other);
                    assert(entries[q].user == other);
                }
            }
        }
    } else {
        let n = entries.len() as int;
        lemma_total_push(entries, entry);
        assert(distinct(stored)) by {
            assert forall|i: int, j: int| 0 <= i < j < stored.len() implies stored[i].user
                != stored[j].user by {
                if j < n {
                    assert(entries[i].user != entries[j].user);
                } else {
                    assert(stored[i] == entries[i]);
                    assert(entries[i].user != entry.user);
                }
            }
        }
        assert(stored[n] == entry);
        lemma_position_unique(stored, n);
        assert forall|other: Address| other != entry.user implies #[trigger] entry_of(
            stored,
            other,
        ) == entry_of(entries, other) by {
            if holds(entries, other) {
                let q = position(entries, other);
                assert(0 <= q < entries.len() && entries[q].user == other);
                assert(stored[q] == entries[q]);
                lemma_position_unique(entries, q);
                lemma_position_unique(stored, q);
            } else {
                if holds(stored, other) {
                    let q = position(stored, other);
                    assert(0 <= q < stored.len() && stored[q].user == other);
                    assert(q < n);
                    assert(entries[q].user == other);
                }
            }
        }
    }
}

/// The vault as a whole: the vault record, the pooled holding, and one
/// ledger entry for each owner that ever deposited, oldest first.
#[derive(Clone, Debug, PartialEq, Eq)]
pub struct Ledger {
    vault: Vault,
    vault_token_account: TokenAccount,
    user_accounts: Vec<UserAccount>,
}

impl View for Ledger {
    type V = LedgerView;

    closed spec fn view(&self) -> LedgerView {
        LedgerView {
            vault: self.vault,
            pool: self.vault_token_account,
            entries: self.user_accounts@,
        }
    }
}

impl Ledger {
    /// The vault with the given record and pooled holding, and no ledger
    /// entry yet.
    pub fn new(vault: Vault, vault_token_account: TokenAccount) -> (ledger: Ledger)
        ensures
            ledger@ == (LedgerView {
                vault,
                pool: vault_token_account,
                entries: Seq::<UserAccount>::empty(),
            }),
            ledger@.wf(),
            ledger@.solvent(),
    {
        Ledger { vault, vault_token_account, user_accounts: Vec::new() }
    }

    /// The vault record.
    pub fn vault(&self) -> (vault: Vault)
        ensures
            vault == self@.vault,
    {
        self.vault
    }

    /// The pooled holding.
    pub fn vault_token_account(&self) -> (pool: TokenAccount)
        ensures
            pool == self@.pool,
    {
        self.vault_token_account
    }

    /// The number of ledger entries.
    pub fn len(&self) -> (n: usize)
        ensures
            n == self@.entries.len(),
    {
        self.user_accounts.len()
    }

    /// The ledger entry at the given place, oldest first.
    pub fn user_account(&self, index: usize) -> (entry: Option<UserAccount>)
        ensures
            entry == (if index < self@.entries.len() {
                Some(self@.entries[index as int])
            } else {
                None
            }),
    {
        if index < self.user_accounts.len() {
            Some(self.user_accounts[index])
        } else {
            None
        }
    }

    /// Where the entry of `owner` stands, if it has one.
    fn find(&self, owner: &Address) -> (found: Option<usize>)
        requires
            self@.wf(),
        ensures
            match found {
                Some(i) => {
                    &&& i < self@.entries.len()
                    &&& holds(self@.entries, *owner)
                    &&& position(self@.entries, *owner) == i
                    &&& entry_of(self@.entries, *owner) == Some(self@.entries[i as int])
                },
                None => !holds(self@.entries, *owner),
            },
    {
        let mut i: usize = 0;
        while i < self.user_accounts.len()
            invariant
                self@.wf(),
                i <= self.user_accounts.len(),
                forall|k: int| 0 <= k < i ==> (#[trigger] self.user_accounts@[k]).user != *owner,
            decreases self.user_accounts.len() - i,
        {
            if self.user_accounts[i].user == *owner {
                proof {
                    lemma_position_unique(self@.entries, i as int);
                }
                return Some(i);
            }
            i += 1;
        }
        None
    }

    /// The units that `owner` may withdraw, if it has an entry.
    pub fn balance_of(&self, owner: &Address) -> (balance: Option<u64>)
        requires
            self@.wf(),
        ensures
            balance == self@.balance_of(*owner),
    {
        match self.find(owner) {
            Some(i) => Some(self.user_accounts[i].balance),
            None => None,
        }
    }

    /// The units that all entries promise together, or `None` where the
    /// sum does not fit the integer width.
    pub fn total(&self) -> (sum: Option<u64>)
        ensures
            match sum {
                Some(units) => units == total(self@.entries),
                None => total(self@.entries) > u64::MAX,
            },
    {
        let mut sum: u64 = 0;
        let mut i: usize = 0;
        while i < self.user_accounts.len()
            invariant
                i <= self.user_accounts.len(),
                sum == total(self.user_accounts@.subrange(0, i as int)),
            decreases self.user_accounts.len() - i,
        {
            proof {
                let next = self.user_accounts@.subrange(0, i + 1);
                assert(next.drop_last() =~= self.user_accounts@.subrange(0, i as int));
                assert(next.last() == self.user_accounts@[i as int]);
                lemma_total_prefix(self.user_accounts@, i + 1);
            }
            sum = match sum.checked_add(self.user_accounts[i].balance) {
                Some(more) => more,
                None => {
                    return None;
                },
            };
            i += 1;
        }
        assert(self.user_accounts@.subrange(0, i as int) =~= self.user_accounts@);
        Some(sum)
    }

    /// Stores `entry` where `found` says its owner's entry stands, or at the
    /// end where it has none, and leaves the pooled holding as `pool`.
    fn commit(&mut self, found: Option<usize>, pool: TokenAccount, entry: UserAccount)
        requires
            old(self)@.wf(),
            match found {
                Some(i) => {
                    &&& i < old(self)@.entries.len()
                    &&& holds(old(self)@.entries, entry.user)
                    &&& position(old(self)@.entries, entry.user) == i
                },
                None => !holds(old(self)@.entries, entry.user),
            },
        ensures
            final(self)@ == old(self)@.committed(pool, entry),
            final(self)@.wf(),
    {
        proof {
            lemma_store(self@.entries, entry);
        }
        self.vault_token_account = pool;
        match found {
            Some(i) => {
                self.user_accounts[i] = entry;
            },
            None => {
                self.user_accounts.push(entry);
            },
        }
    }

    /// Deposits `amount` units for `user` from its holding, where `derived`
    /// is the address that the vault's recorded bump derives. The deposit
    /// works on the caller's own entry, which is created if need be. It is
    /// refused for the first reason that `Deposit::refusal` finds, and then
    /// changes nothing; else it takes effect on the holding, the pooled
    /// holding and the caller's entry, and on no other entry.
    pub fn apply_deposit(
        &mut self,
        user: &Address,
        user_token_account: &mut TokenAccount,
        amount: u64,
        derived: &Option<Address>,
    ) -> (result: Result<Transfer, VaultError>)
        requires
            old(self)@.wf(),
        ensures
            final(self)@.wf(),
            old(self)@.solvent() ==> final(self)@.solvent(),
            forall|other: Address|
                other != *user ==> #[trigger] final(self)@.balance_of(other) == old(
                    self,
                )@.balance_of(other),
            match old(self)@.deposit_refusal(
                *user,
                *old(user_token_account),
                amount,
                address_view(*derived),
            ) {
                Some(e) => {
                    &&& result == Err::<Transfer, VaultError>(e)
                    &&& final(self)@ == old(self)@
                    &&& *final(user_token_account) == *old(user_token_account)
                },
                None => {
                    let ctx = old(self)@.deposit_context(*user, *old(user_token_account));
                    &&& result matches Ok(t)
                    &&& t@ == ctx.transfer(amount)
                    &&& *final(user_token_account) == ctx.effect(amount).user_token_account
                    &&& final(self)@ == old(self)@.deposited(
                        *user,
                        *old(user_token_account),
                        amount,
                    )
                },
            },
    {
        let found = self.find(user);
        let entry = match found {
            Some(i) => Some(self.user_accounts[i]),
            None => None,
        };
        let mut ctx = Deposit {
            user: *user,
            user_token_account: *user_token_account,
            vault_token_account: self.vault_token_account,
            user_account: entry,
            vault: self.vault,
        };
        let transfer = match crate::instructions::apply_deposit(&mut ctx, amount, derived) {
            Ok(transfer) => transfer,
            Err(e) => {
                return Err(e);
            },
        };
        let credited = ctx.user_account.unwrap();
        proof {
            lemma_store(self@.entries, credited);
        }
        *user_token_account = ctx.user_token_account;
        self.commit(found, ctx.vault_token_account, credited);
        Ok(transfer)
    }

    /// Deposits `amount` units for `user` from its holding. The address
    /// that the vault's recorded bump derives is computed first; the rest
    /// is `Ledger::apply_deposit`.
    pub fn deposit(&mut self, user: &Address, user_token_account: &mut TokenAccount, amount: u64) -> (result:
        Result<Transfer, VaultError>)
        requires
            old(self)@.wf(),
        ensures
            final(self)@.wf(),
            old(self)@.solvent() ==> final(self)@.solvent(),
            forall|other: Address|
                other != *user ==> #[trigger] final(self)@.balance_of(other) == old(
                    self,
                )@.balance_of(other),
            match old(self)@.deposit_refusal(
                *user,
                *old(user_token_account),
                amount,
                vault_authority(old(self)@.vault.bump),
            ) {
                Some(e) => {
                    &&& result == Err::<Transfer, VaultError>(e)
                    &&& final(self)@ == old(self)@
                    &&& *final(user_token_account) == *old(user_token_account)
                },
                None => {
                    let ctx = old(self)@.deposit_context(*user, *old(user_token_account));
                    &&& result matches Ok(t)
                    &&& t@ == ctx.transfer(amount)
                    &&& *final(user_token_account) == ctx.effect(amount).user_token_account
                    &&& final(self)@ == old(self)@.deposited(
                        *user,
                        *old(user_token_account),
                        amount,
                    )
                },
            },
    {
        let derived = Capability::vault(self.vault.bump).address(&program_id());
        self.apply_deposit(user, user_token_account, amount, &derived)
    }

    /// Withdraws `amount` units for `user` against the entry of `owner`, to
    /// be paid to the given holding, where `derived` is the address that the
    /// vault's recorded bump derives. It is refused as `Unauthorized` where
    /// `owner` has no entry, else for the first reason that
    /// `Withdraw::refusal` finds, and then changes nothing; else it takes
    /// effect on the holding, the pooled holding and that entry, and on no
    /// other entry.
    pub fn apply_withdraw(
        &mut self,
        user: &Address,
        owner: &Address,
        user_token_account: &mut TokenAccount,
        amount: u64,
        derived: &Option<Address>,
    ) -> (result: Result<Transfer, VaultError>)
        requires
            old(self)@.wf(),
        ensures
            final(self)@.wf(),
            old(self)@.solvent() ==> final(self)@.solvent(),
            forall|other: Address|
                other != *owner ==> #[trigger] final(self)@.balance_of(other) == old(
                    self,
                )@.balance_of(other),
            match old(self)@.withdraw_refusal(
                *user,
                *owner,
                *old(user_token_account),
                amount,
                address_view(*derived),
            ) {
                Some(e) => {
                    &&& result == Err::<Transfer, VaultError>(e)
                    &&& final(self)@ == old(self)@
                    &&& *final(user_token_account) == *old(user_token_account)
                },
                None => {
                    let ctx = old(self)@.withdraw_context(
                        *user,
                        entry_of(old(self)@.entries, *owner)->0,
                        *old(user_token_account),
                    );
                    &&& result matches Ok(t)
                    &&& t@ == ctx.transfer(amount)
                    &&& *final(user_token_account) == ctx.effect(amount).user_token_account
                    &&& final(self)@ == old(self)@.withdrawn(
                        *user,
                        *owner,
                        *old(user_token_account),
                        amount,
                    )
                },
            },
    {
        let found = self.find(owner);
        let i = match found {
            Some(i) => i,
            None => {
                return Err(VaultError::Unauthorized);
            },
        };
        let mut ctx = Withdraw {
            user: *user,
            user_token_account: *user_token_account,
            vault_token_account: self.vault_token_account,
            user_account: self.user_accounts[i],
            vault: self.vault,
        };
        let transfer = match crate::instructions::apply_withdraw(&mut ctx, amount, derived) {
            Ok(transfer) => transfer,
            Err(e) => {
                return Err(e);
            },
        };
        proof {
            lemma_store(self@.entries, ctx.user_account);
        }
        *user_token_account = ctx.user_token_account;
        self.commit(found, ctx.vault_token_account, ctx.user_account);
        Ok(transfer)
    }

    /// Withdraws `amount` units for `user` against the entry of `owner`, to
    /// be paid to the given holding. The address that the vault's recorded
    /// bump derives is computed first; the rest is `Ledger::apply_withdraw`.
    pub fn withdraw(
        &mut self,
        user: &Address,
        owner: &Address,
        user_token_account: &mut TokenAccount,
        amount: u64,
    ) -> (result: Result<Transfer, VaultError>)
        requires
            old(self)@.wf(),
        ensures
            final(self)@.wf(),
            old(self)@.solvent() ==> final(self)@.solvent(),
            forall|other: Address|
                other != *owner ==> #[trigger] final(self)@.balance_of(other) == old(
                    self,
                )@.balance_of(other),
            match old(self)@.withdraw_refusal(
                *user,
                *owner,
                *old(user_token_account),
                amount,
                vault_authority(old(self)@.vault.bump),
            ) {
                Some(e) => {
                    &&& result == Err::<Transfer, VaultError>(e)
                    &&& final(self)@ == old(self)@
                    &&& *final(user_token_account) == *old(user_token_account)
                },
                None => {
                    let ctx = old(self)@.withdraw_context(
                        *user,
                        entry_of(old(self)@.entries, *owner)->0,
                        *old(user_token_account),
                    );
                    &&& result matches Ok(t)
                    &&& t@ == ctx.transfer(amount)
                    &&& *final(user_token_account) == ctx.effect(amount).user_token_account
                    &&& final(self)@ == old(self)@.withdrawn(
                        *user,
                        *owner,
                        *old(user_token_account),
                        amount,
                    )
                },
            },
    {
        let derived = Capability::vault(self.vault.bump).address(&program_id());
        self.apply_withdraw(user, owner, user_token_account, amount, &derived)
    }
}

/// The total of a prefix is the total of the shorter prefix and the
/// balance of the entry that follows it.
proof fn lemma_total_prefix(entries: Seq<UserAccount>, n: int)
    requires
        0 < n <= entries.len(),
    ensures
        total(entries.subrange(0, n)) == total(entries.subrange(0, n - 1)) + entries[n
            - 1].balance,
        total(entries.subrange(0, n)) <= total(entries),
    decreases entries.len() - n,
{
    let prefix = entries.subrange(0, n);
    assert(prefix.drop_last() =~= entries.subrange(0, n - 1));
    assert(prefix.last() == entries[n - 1]);
    if n < entries.len() {
        lemma_total_prefix(entries, n + 1);
    } else {
        assert(prefix =~= entries);
    }
}

impl LedgerView {
    /// One transition that takes effect leads from `self` to `next`: a
    /// deposit or a withdrawal, by any caller, of any amount, with any
    /// holding, whatever address the recorded bump derives.
    pub open spec fn steps_to(self, next: LedgerView) -> bool {
        ||| exists|user: Address, holding: TokenAccount, amount: u64, authority: Option<Seq<u8>>|
            (#[trigger] self.deposit_refusal(user, holding, amount, authority)) is None && next
                == self.deposited(user, holding, amount)
        ||| exists|
            user: Address,
            owner: Address,
            holding: TokenAccount,
            amount: u64,
            authority: Option<Seq<u8>>,
        |
            (#[trigger] self.withdraw_refusal(user, owner, holding, amount, authority)) is None
                && next == self.withdrawn(user, owner, holding, amount)
    }

    /// The units in the pooled holding beyond what the entries promise.
    pub open spec fn surplus(self) -> int {
        self.pool.amount - total(self.entries)
    }
}

/// A deposit that takes effect keeps every owner's entry single, adds the
/// amount to the pooled holding and to what the entries promise, and leaves
/// the entries of all other owners as they were.
pub proof fn lemma_deposited(
    s: LedgerView,
    user: Address,
    holding: TokenAccount,
    amount: u64,
    authority: Option<Seq<u8>>,
)
    requires
        s.wf(),
        s.deposit_refusal(user, holding, amount, authority) is None,
    ensures
        s.deposited(user, holding, amount).wf(),
        s.deposited(user, holding, amount).vault == s.vault,
        s.deposited(user, holding, amount).pool.amount == s.pool.amount + amount,
        total(s.deposited(user, holding, amount).entries) == total(s.entries) + amount,
        s.deposited(user, holding, amount).surplus() == s.surplus(),
        s.deposited(user, holding, amount).balance_of(user) == Some(
            (s.deposit_context(user, holding).balance() + amount) as u64,
        ),
        forall|other: Address|
            other != user ==> #[trigger] entry_of(
                s.deposited(user, holding, amount).entries,
                other,
            ) == entry_of(s.entries, other),
{
    let after = s.deposit_context(user, holding).effect(amount);
    lemma_store(s.entries, after.user_account->0);
}

/// A withdrawal that takes effect was submitted by the owner of the entry.
/// It keeps every owner's entry single, takes the amount from the pooled
/// holding and from what the entries promise, and leaves the entries of all
/// other owners as they were.
pub proof fn lemma_withdrawn(
    s: LedgerView,
    user: Address,
    owner: Address,
    holding: TokenAccount,
    amount: u64,
    authority: Option<Seq<u8>>,
)
    requires
        s.wf(),
        s.withdraw_refusal(user, owner, holding, amount, authority) is None,
    ensures
        user == owner,
        s.balance_of(owner) matches Some(balance) && balance >= amount,
        s.withdrawn(user, owner, holding, amount).wf(),
        s.withdrawn(user, owner, holding, amount).vault == s.vault,
        s.withdrawn(user, owner, holding, amount).pool.amount == s.pool.amount - amount,
        total(s.withdrawn(user, owner, holding, amount).entries) == total(s.entries) - amount,
        s.withdrawn(user, owner, holding, amount).surplus() == s.surplus(),
        s.withdrawn(user, owner, holding, amount).balance_of(owner) == Some(
            (s.balance_of(owner)->0 - amount) as u64,
        ),
        forall|other: Address|
            other != owner ==> #[trigger] entry_of(
                s.withdrawn(user, owner, holding, amount).entries,
                other,
            ) == entry_of(s.entries, other),
{
    let entry = entry_of(s.entries, owner)->0;
    let p = position(s.entries, owner);
    assert(0 <= p < s.entries.len() && s.entries[p].user == owner);
    let after = s.withdraw_context(user, entry, holding).effect(amount);
    lemma_store(s.entries, after.user_account);
}

/// Solvency is kept by every transition, and so holds of every state that
/// can be reached from a solvent one: the pooled holding covers what the
/// entries promise together. More than that, the surplus never changes.
pub proof fn lemma_solvency_is_invariant(s: LedgerView, next: LedgerView)
    requires
        s.wf(),
        s.solvent(),
        s.steps_to(next),
    ensures
        next.wf(),
        next.solvent(),
        next.surplus() == s.surplus(),
{
    if exists|user: Address, holding: TokenAccount, amount: u64, authority: Option<Seq<u8>>|
        (#[trigger] s.deposit_refusal(user, holding, amount, authority)) is None && next
            == s.deposited(user, holding, amount) {
        let (user, holding, amount, authority) = choose|
            user: Address,
            holding: TokenAccount,
            amount: u64,
            authority: Option<Seq<u8>>,
        |
            (#[trigger] s.deposit_refusal(user, holding, amount, authority)) is None && next
                == s.deposited(user, holding, amount);
        lemma_deposited(s, user, holding, amount, authority);
    } else {
        let (user, owner, holding, amount, authority) = choose|
            user: Address,
            owner: Address,
            holding: TokenAccount,
            amount: u64,
            authority: Option<Seq<u8>>,
        |
            (#[trigger] s.withdraw_refusal(user, owner, holding, amount, authority)) is None
                && next == s.withdrawn(user, owner, holding, amount);
        lemma_withdrawn(s, user, owner, holding, amount, authority);
    }
}

/// A vault without entries is solvent, whatever its pooled holding holds.
pub proof fn lemma_empty_ledger_is_solvent(vault: Vault, pool: TokenAccount)
    ensures
        (LedgerView { vault, pool, entries: Seq::empty() }).wf(),
        (LedgerView { vault, pool, entries: Seq::empty() }).solvent(),
{
}

/// A deposit that takes effect can be undone: the withdrawal of the same
/// amount by the same caller, paid to the holding it deposited from, is not
/// refused, and it returns the caller's balance, the pooled holding and the
/// caller's holding to what they were before the deposit. The entries of
/// all other owners are as they were.
pub proof fn lemma_ledger_round_trip(
    s: LedgerView,
    user: Address,
    holding: TokenAccount,
    amount: u64,
    authority: Option<Seq<u8>>,
)
    requires
        s.wf(),
        s.deposit_refusal(user, holding, amount, authority) is None,
    ensures
        ({
            let before = s.deposit_context(user, holding);
            let mid = s.deposited(user, holding, amount);
            let paid = before.effect(amount).user_token_account;
            let end = mid.withdrawn(user, user, paid, amount);
            &&& mid.withdraw_refusal(user, user, paid, amount, authority) is None
            &&& end.pool == s.pool
            &&& end.vault == s.vault
            &&& end.balance_of(user) == Some(before.balance())
            &&& mid.withdraw_context(user, entry_of(mid.entries, user)->0, paid).effect(
                amount,
            ).user_token_account == holding
            &&& forall|other: Address|
                other != user ==> #[trigger] entry_of(end.entries, other) == entry_of(
                    s.entries,
                    other,
                )
        }),
{
    let before = s.deposit_context(user, holding);
    let mid = s.deposited(user, holding, amount);
    let paid = before.effect(amount).user_token_account;
    lemma_deposited(s, user, holding, amount, authority);
    lemma_store(s.entries, before.effect(amount).user_account->0);
    crate::instructions::lemma_deposit_then_withdraw(before, amount, authority);
    assert(mid.withdraw_context(user, entry_of(mid.entries, user)->0, paid)
        == crate::instructions::withdrawal_after(before.effect(amount)));
    lemma_withdrawn(mid, user, user, paid, amount, authority);
    let end = mid.withdrawn(user, user, paid, amount);
    assert forall|other: Address| other != user implies #[trigger] entry_of(end.entries, other)
        == entry_of(s.entries, other) by {
        assert(entry_of(mid.entries, other) == entry_of(s.entries, other));
    }
}

/// A withdrawal against the entry of another owner than the caller is
/// refused as `Unauthorized`, whether that owner has an entry or not.
pub proof fn lemma_foreign_entry_is_refused(
    s: LedgerView,
    user: Address,
    owner: Address,
    holding: TokenAccount,
    amount: u64,
    authority: Option<Seq<u8>>,
)
    requires
        s.wf(),
        user != owner,
    ensures
        s.withdraw_refusal(user, owner, holding, amount, authority) == Some(
            VaultError::Unauthorized,
        ),
{
    if holds(s.entries, owner) {
        let p = position(s.entries, owner);
        assert(0 <= p < s.entries.len() && s.entries[p].user == owner);
    }
}

} // verus!
