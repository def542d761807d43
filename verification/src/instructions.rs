//! The three transitions of the vault: initialize, deposit and withdraw.
//!
//! A transition works on the records and holdings that are handed to it. It
//! either is refused and changes nothing, or takes effect as a whole and
//! returns the request that goes to the asset ledger with it.

use crate::address::{lemma_address_ext, Address};
use crate::derivation::{
    check_authority, find_vault, found_address, program, program_id, seeds_of, vault_authority,
    vault_capability, vault_label, Capability,
};
use crate::error::VaultError;
use crate::state::{address_view, TokenAccount, Transfer, TransferView, UserAccount, Vault};
use vstd::prelude::*;

verus! {

/// What a deposit works on: the caller, its holding, the pooled holding, the
/// caller's ledger entry if it has one, and the vault record.
#[derive(Clone, Copy, Debug, PartialEq, Eq)]
pub struct Deposit {
    pub user: Address,
    pub user_token_account: TokenAccount,
    pub vault_token_account: TokenAccount,
    pub user_account: Option<UserAccount>,
    pub vault: Vault,
}

impl Deposit {
    /// The units that the caller may withdraw before the deposit: those of
    /// its ledger entry, or none where it has no entry yet.
    pub open spec fn balance(self) -> u64 {
        match self.user_account {
            Some(entry) => entry.balance,
            None => 0,
        }
    }

    /// Why a deposit of `amount` is refused, if it is. `authority` is the
    /// address that the vault's recorded bump derives. The conditions are
    /// tested in this order.
    pub open spec fn refusal(self, amount: u64, authority: Option<Seq<u8>>) -> Option<VaultError> {
        if self.user_token_account.mint != self.vault.mint {
            Some(VaultError::InvalidToken)
        } else if self.vault_token_account.mint != self.vault.mint {
            Some(VaultError::InvalidToken)
        } else if authority != Some(self.vault_token_account.owner@) {
            Some(VaultError::DerivationMismatch)
        } else if self.user_account matches Some(entry) && entry.user != self.user {
            Some(VaultError::Unauthorized)
        } else if self.user_token_account.owner != self.user {
            Some(VaultError::Unauthorized)
        } else if self.user_token_account.amount < amount {
            Some(VaultError::InsufficientFunds)
        } else if self.vault_token_account.amount + amount > u64::MAX {
            Some(VaultError::MathOverflow)
        } else if self.balance() + amount > u64::MAX {
            Some(VaultError::MathOverflow)
        } else {
            None
        }
    }

    /// What a deposit of `amount` that is not refused leaves: the units have
    /// moved from the caller's holding to the pooled holding, and the
    /// caller's ledger entry, created if need be, is credited with them.
    pub open spec fn effect(self, amount: u64) -> Deposit {
        Deposit {
            user: self.user,
            user_token_account: TokenAccount {
                amount: (self.user_token_account.amount - amount) as u64,
                ..self.user_token_account
            },
            vault_token_account: TokenAccount {
                amount: (self.vault_token_account.amount + amount) as u64,
                ..self.vault_token_account
            },
            user_account: Some(
                UserAccount { user: self.user, balance: (self.balance() + amount) as u64 },
            ),
            vault: self.vault,
        }
    }

    /// The request that goes to the asset ledger with a deposit of `amount`:
    /// the caller itself authorizes it.
    pub open spec fn transfer(self, amount: u64) -> TransferView {
        TransferView { authority: self.user, amount, signer: None }
    }
}

/// Deposits `amount` units, where `derived` is the address that the vault's
/// recorded bump derives. The deposit is refused for the first reason that
/// `Deposit::refusal` finds, and then changes nothing; else it takes effect.
pub fn apply_deposit(ctx: &mut Deposit, amount: u64, derived: &Option<Address>) -> (result: Result<
    Transfer,
    VaultError,
>)
    ensures
        match old(ctx).refusal(amount, address_view(*derived)) {
            Some(e) => result == Err::<Transfer, VaultError>(e) && *final(ctx) == *old(ctx),
            None => {
                &&& result matches Ok(t)
                &&& t@ == old(ctx).transfer(amount)
                &&& *final(ctx) == old(ctx).effect(amount)
            },
        },
{
    if ctx.user_token_account.mint != ctx.vault.mint {
        return Err(VaultError::InvalidToken);
    }
    if ctx.vault_token_account.mint != ctx.vault.mint {
        return Err(VaultError::InvalidToken);
    }
    proof {
        if derived is Some && derived->0@ == ctx.vault_token_account.owner@ {
            lemma_address_ext(derived->0, ctx.vault_token_account.owner);
        }
    }
    match check_authority(derived, &ctx.vault_token_account.owner) {
        Ok(()) => {},
        Err(e) => {
            return Err(e);
        },
    }
    let balance: u64 = match ctx.user_account {
        Some(entry) => {
            if entry.user != ctx.user {
                return Err(VaultError::Unauthorized);
            }
            entry.balance
        },
        None => 0,
    };
    if ctx.user_token_account.owner != ctx.user {
        return Err(VaultError::Unauthorized);
    }
    if ctx.user_token_account.amount < amount {
        return Err(VaultError::InsufficientFunds);
    }
    let pooled: u64 = match ctx.vault_token_account.amount.checked_add(amount) {
        Some(sum) => sum,
        None => {
            return Err(VaultError::MathOverflow);
        },
    };
    let credited: u64 = match balance.checked_add(amount) {
        Some(sum) => sum,
        None => {
            return Err(VaultError::MathOverflow);
        },
    };
    ctx.user_token_account.amount = ctx.user_token_account.amount - amount;
    ctx.vault_token_account.amount = pooled;
    ctx.user_account = Some(UserAccount { user: ctx.user, balance: credited });
    Ok(Transfer { authority: ctx.user, amount, signer: None })
}

/// Deposits `amount` units from the caller's holding into the pooled
/// holding, and credits the caller's ledger entry with them. The address
/// that the vault's recorded bump derives is computed first; the rest is
/// `apply_deposit`.
pub fn deposit(ctx: &mut Deposit, amount: u64) -> (result: Result<Transfer, VaultError>)
    ensures
        match old(ctx).refusal(amount, vault_authority(old(ctx).vault.bump)) {
            Some(e) => result == Err::<Transfer, VaultError>(e) && *final(ctx) == *old(ctx),
            None => {
                &&& result matches Ok(t)
                &&& t@ == old(ctx).transfer(amount)
                &&& *final(ctx) == old(ctx).effect(amount)
            },
        },
{
    let derived = Capability::vault(ctx.vault.bump).address(&program_id());
    apply_deposit(ctx, amount, &derived)
}

/// What a withdrawal works on: the caller, the holding that receives the
/// units, the pooled holding, the ledger entry that the caller claims, and
/// the vault record.
#[derive(Clone, Copy, Debug, PartialEq, Eq)]
pub struct Withdraw {
    pub user: Address,
    pub user_token_account: TokenAccount,
    pub vault_token_account: TokenAccount,
    pub user_account: UserAccount,
    pub vault: Vault,
}

impl Withdraw {
    /// Why a withdrawal of `amount` is refused, if it is. `authority` is the
    /// address that the vault's recorded bump derives. The conditions are
    /// tested in this order.
    pub open spec fn refusal(self, amount: u64, authority: Option<Seq<u8>>) -> Option<VaultError> {
        if self.user_account.user != self.user {
            Some(VaultError::Unauthorized)
        } else if self.user_account.balance < amount {
            Some(VaultError::InsufficientBalance)
        } else if self.vault_token_account.amount < amount {
            Some(VaultError::InsufficientVaultBalance)
        } else if self.user_token_account.mint != self.vault.mint {
            Some(VaultError::InvalidToken)
        } else if self.vault_token_account.mint != self.vault.mint {
            Some(VaultError::InvalidToken)
        } else if authority != Some(self.vault_token_account.owner@) {
            Some(VaultError::DerivationMismatch)
        } else if self.user_token_account.amount + amount > u64::MAX {
            Some(VaultError::MathOverflow)
        } else {
            None
        }
    }

    /// What a withdrawal of `amount` that is not refused leaves: the units
    /// have moved from the pooled holding to the caller's holding, and the
    /// ledger entry is debited with them.
    pub open spec fn effect(self, amount: u64) -> Withdraw {
        Withdraw {
            user: self.user,
            user_token_account: TokenAccount {
                amount: (self.user_token_account.amount + amount) as u64,
                ..self.user_token_account
            },
            vault_token_account: TokenAccount {
                amount: (self.vault_token_account.amount - amount) as u64,
                ..self.vault_token_account
            },
            user_account: UserAccount {
                user: self.user_account.user,
                balance: (self.user_account.balance - amount) as u64,
            },
            vault: self.vault,
        }
    }

    /// The request that goes to the asset ledger with a withdrawal of
    /// `amount`: the vault's capability address authorizes it, and the
    /// vault's descriptor is presented for it.
    pub open spec fn transfer(self, amount: u64) -> TransferView {
        TransferView {
            authority: self.vault_token_account.owner,
            amount,
            signer: Some(vault_capability(self.vault.bump)),
        }
    }
}

/// Withdraws `amount` units, where `derived` is the address that the vault's
/// recorded bump derives. The withdrawal is refused for the first reason
/// that `Withdraw::refusal` finds, and then changes nothing; else it takes
/// effect. The debit is a checked subtraction, which cannot fail once the
/// balance was found sufficient: `MathUnderflow` is never returned.
pub fn apply_withdraw(ctx: &mut Withdraw, amount: u64, derived: &Option<Address>) -> (result:
    Result<Transfer, VaultError>)
    ensures
        match old(ctx).refusal(amount, address_view(*derived)) {
            Some(e) => result == Err::<Transfer, VaultError>(e) && *final(ctx) == *old(ctx),
            None => {
                &&& result matches Ok(t)
                &&& t@ == old(ctx).transfer(amount)
                &&& *final(ctx) == old(ctx).effect(amount)
            },
        },
        result != Err::<Transfer, VaultError>(VaultError::MathUnderflow),
{
    if ctx.user_account.user != ctx.user {
        return Err(VaultError::Unauthorized);
    }
    if ctx.user_account.balance < amount {
        return Err(VaultError::InsufficientBalance);
    }
    if ctx.vault_token_account.amount < amount {
        return Err(VaultError::InsufficientVaultBalance);
    }
    if ctx.user_token_account.mint != ctx.vault.mint {
        return Err(VaultError::InvalidToken);
    }
    if ctx.vault_token_account.mint != ctx.vault.mint {
        return Err(VaultError::InvalidToken);
    }
    proof {
        if derived is Some && derived->0@ == ctx.vault_token_account.owner@ {
            lemma_address_ext(derived->0, ctx.vault_token_account.owner);
        }
    }
    match check_authority(derived, &ctx.vault_token_account.owner) {
        Ok(()) => {},
        Err(e) => {
            return Err(e);
        },
    }
    let received: u64 = match ctx.user_token_account.amount.checked_add(amount) {
        Some(sum) => sum,
        None => {
            return Err(VaultError::MathOverflow);
        },
    };
    let remaining: u64 = match ctx.user_account.balance.checked_sub(amount) {
        Some(difference) => difference,
        None => {
            return Err(VaultError::MathUnderflow);
        },
    };
    ctx.user_token_account.amount = received;
    ctx.vault_token_account.amount = ctx.vault_token_account.amount - amount;
    ctx.user_account.balance = remaining;
    Ok(
        Transfer {
            authority: ctx.vault_token_account.owner,
            amount,
            signer: Some(Capability::vault(ctx.vault.bump)),
        },
    )
}

/// Withdraws `amount` units from the pooled holding to the caller's holding,
/// and debits the ledger entry with them. The address that the vault's
/// recorded bump derives is computed first; the rest is `apply_withdraw`.
pub fn withdraw(ctx: &mut Withdraw, amount: u64) -> (result: Result<Transfer, VaultError>)
    ensures
        match old(ctx).refusal(amount, vault_authority(old(ctx).vault.bump)) {
            Some(e) => result == Err::<Transfer, VaultError>(e) && *final(ctx) == *old(ctx),
            None => {
                &&& result matches Ok(t)
                &&& t@ == old(ctx).transfer(amount)
                &&& *final(ctx) == old(ctx).effect(amount)
            },
        },
        result != Err::<Transfer, VaultError>(VaultError::MathUnderflow),
{
    let derived = Capability::vault(ctx.vault.bump).address(&program_id());
    apply_withdraw(ctx, amount, &derived)
}

/// What an initialization works on: the identity that submits it and pays
/// for the record, and the vault record if one exists already.
#[derive(Clone, Copy, Debug, PartialEq, Eq)]
pub struct Initialize {
    pub authority: Address,
    pub vault: Option<Vault>,
}

/// The address and bump that the search finds for the vault's label.
pub open spec fn found_vault_address() -> Option<(Seq<u8>, u8)> {
    found_address(seeds_of(vault_label(), Seq::empty()), program()@)
}

impl Initialize {
    /// Why an initialization is refused, if it is. `found` is what the
    /// search for the vault's capability address gave.
    pub open spec fn refusal(self, found: Option<(Seq<u8>, u8)>) -> Option<VaultError> {
        if self.vault is Some {
            Some(VaultError::AlreadyInitialized)
        } else if found is None {
            Some(VaultError::MissingBump)
        } else {
            None
        }
    }

    /// What an initialization that is not refused leaves: the vault record
    /// with the accepted asset and the bump that was found.
    pub open spec fn effect(self, mint: Address, bump: u8) -> Initialize {
        Initialize { authority: self.authority, vault: Some(Vault { mint, bump }) }
    }
}

/// The address and the bump of a search result, by their views.
pub open spec fn found_view(found: Option<(Address, u8)>) -> Option<(Seq<u8>, u8)> {
    match found {
        Some((a, bump)) => Some((a@, bump)),
        None => None,
    }
}

/// Creates the vault record for the asset `mint`, where `found` is what the
/// search for the vault's capability address gave. It is refused where a
/// record exists already or no address was found, and then changes
/// nothing; else the record holds `mint` and the bump that was found, and
/// the address that was found is returned.
pub fn apply_initialize(ctx: &mut Initialize, mint: Address, found: &Option<(Address, u8)>) -> (result:
    Result<Address, VaultError>)
    ensures
        match old(ctx).refusal(found_view(*found)) {
            Some(e) => result == Err::<Address, VaultError>(e) && *final(ctx) == *old(ctx),
            None => {
                &&& *found matches Some((a, bump))
                &&& result == Ok::<Address, VaultError>(a)
                &&& *final(ctx) == old(ctx).effect(mint, bump)
            },
        },
{
    if ctx.vault.is_some() {
        return Err(VaultError::AlreadyInitialized);
    }
    match found {
        Some((a, bump)) => {
            ctx.vault = Some(Vault { mint, bump: *bump });
            Ok(*a)
        },
        None => Err(VaultError::MissingBump),
    }
}

/// Creates the vault record for the asset `mint`: searches for the vault's
/// capability address and records the bump that gives it. The rest is
/// `apply_initialize`. The address that is returned is the one which the
/// recorded bump derives from then on.
pub fn initialize(ctx: &mut Initialize, mint: Address) -> (result: Result<Address, VaultError>)
    ensures
        match old(ctx).refusal(found_vault_address()) {
            Some(e) => result == Err::<Address, VaultError>(e) && *final(ctx) == *old(ctx),
            None => {
                &&& result matches Ok(a)
                &&& found_vault_address() matches Some((found, bump))
                &&& a@ == found
                &&& *final(ctx) == old(ctx).effect(mint, bump)
                &&& vault_authority(bump) == Some(a@)
            },
        },
{
    let found = match find_vault() {
        Some((a, c)) => Some((a, c.bump)),
        None => None,
    };
    apply_initialize(ctx, mint, &found)
}

/// The withdrawal that `user` submits right after its deposit left `after`:
/// against its own entry, to be paid to the holding it deposited from.
pub open spec fn withdrawal_after(after: Deposit) -> Withdraw {
    Withdraw {
        user: after.user,
        user_token_account: after.user_token_account,
        vault_token_account: after.vault_token_account,
        user_account: after.user_account->0,
        vault: after.vault,
    }
}

/// A deposit that takes effect can be undone: the withdrawal of the same
/// amount that follows it is not refused, and it returns the balance of the
/// ledger entry, the pooled holding and the caller's holding to what they
/// were before the deposit.
pub proof fn lemma_deposit_then_withdraw(ctx: Deposit, amount: u64, authority: Option<Seq<u8>>)
    requires
        ctx.refusal(amount, authority) is None,
    ensures
        withdrawal_after(ctx.effect(amount)).refusal(amount, authority) is None,
        withdrawal_after(ctx.effect(amount)).effect(amount).user_account.balance == ctx.balance(),
        withdrawal_after(ctx.effect(amount)).effect(amount).user_account.user == ctx.user,
        withdrawal_after(ctx.effect(amount)).effect(amount).vault_token_account
            == ctx.vault_token_account,
        withdrawal_after(ctx.effect(amount)).effect(amount).user_token_account
            == ctx.user_token_account,
{
}

/// A ledger entry whose balance is the largest that can be represented
/// takes no further units: a deposit of any positive amount is refused.
pub proof fn lemma_full_entry_refuses_deposit(ctx: Deposit, amount: u64, authority: Option<Seq<u8>>)
    requires
        ctx.balance() == u64::MAX,
        amount > 0,
    ensures
        ctx.refusal(amount, authority) is Some,
{
}

/// The deposit into a full ledger entry is refused as `MathOverflow`, where
/// nothing else is wrong with it: the holdings are of the accepted asset,
/// the pooled holding belongs to the vault's capability address, the caller
/// owns its entry and its holding, and the holding has the units.
pub proof fn lemma_overflow_guard(ctx: Deposit, amount: u64, authority: Option<Seq<u8>>)
    requires
        ctx.balance() == u64::MAX,
        amount > 0,
        ctx.user_token_account.mint == ctx.vault.mint,
        ctx.vault_token_account.mint == ctx.vault.mint,
        authority == Some(ctx.vault_token_account.owner@),
        ctx.user_account matches Some(entry) ==> entry.user == ctx.user,
        ctx.user_token_account.owner == ctx.user,
        ctx.user_token_account.amount >= amount,
    ensures
        ctx.refusal(amount, authority) == Some(VaultError::MathOverflow),
{
}

/// A withdrawal by the owner of the entry of more than the entry holds is
/// refused as `InsufficientBalance`. One of no more than the entry holds,
/// but of more than the pooled holding holds, is refused as
/// `InsufficientVaultBalance`.
pub proof fn lemma_insufficiency_guard(ctx: Withdraw, amount: u64, authority: Option<Seq<u8>>)
    requires
        ctx.user_account.user == ctx.user,
    ensures
        amount > ctx.user_account.balance ==> ctx.refusal(amount, authority) == Some(
            VaultError::InsufficientBalance,
        ),
        amount <= ctx.user_account.balance && amount > ctx.vault_token_account.amount
            ==> ctx.refusal(amount, authority) == Some(VaultError::InsufficientVaultBalance),
{
}

/// A deposit with a holding of another asset than the accepted one is
/// refused as `InvalidToken`, whatever else holds of it.
pub proof fn lemma_deposit_asset_isolation(ctx: Deposit, amount: u64, authority: Option<Seq<u8>>)
    requires
        ctx.user_token_account.mint != ctx.vault.mint || ctx.vault_token_account.mint
            != ctx.vault.mint,
    ensures
        ctx.refusal(amount, authority) == Some(VaultError::InvalidToken),
{
}

/// A withdrawal with a holding of another asset than the accepted one is
/// refused. The reason is `InvalidToken` where the caller owns the entry
/// and both the entry and the pooled holding have the units, because those
/// conditions are tested first.
pub proof fn lemma_withdraw_asset_isolation(ctx: Withdraw, amount: u64, authority: Option<Seq<u8>>)
    requires
        ctx.user_token_account.mint != ctx.vault.mint || ctx.vault_token_account.mint
            != ctx.vault.mint,
    ensures
        ctx.refusal(amount, authority) is Some,
        ctx.user_account.user == ctx.user && amount <= ctx.user_account.balance && amount
            <= ctx.vault_token_account.amount ==> ctx.refusal(amount, authority) == Some(
            VaultError::InvalidToken,
        ),
{
}

/// A withdrawal against a ledger entry that the caller does not own is
/// refused as `Unauthorized`, whatever else holds of it.
pub proof fn lemma_withdraw_authorization(ctx: Withdraw, amount: u64, authority: Option<Seq<u8>>)
    requires
        ctx.user_account.user != ctx.user,
    ensures
        ctx.refusal(amount, authority) == Some(VaultError::Unauthorized),
{
}

/// A ledger entry is only ever changed for its owner: a deposit or a
/// withdrawal that takes effect leaves an entry of the caller.
pub proof fn lemma_entry_changes_for_owner_only(
    deposit: Deposit,
    withdraw: Withdraw,
    amount: u64,
    authority: Option<Seq<u8>>,
)
    ensures
        deposit.refusal(amount, authority) is None ==> (deposit.effect(amount).user_account
            matches Some(entry) && entry.user == deposit.user),
        withdraw.refusal(amount, authority) is None ==> withdraw.effect(amount).user_account.user
            == withdraw.user,
{
}

/// A deposit of nothing that is not refused moves no unit: the holdings and
/// the balance stay as they are, and an entry exists afterwards.
pub proof fn lemma_deposit_of_nothing(ctx: Deposit, authority: Option<Seq<u8>>)
    requires
        ctx.refusal(0, authority) is None,
    ensures
        ctx.effect(0).user_token_account == ctx.user_token_account,
        ctx.effect(0).vault_token_account == ctx.vault_token_account,
        ctx.effect(0).user_account == Some(UserAccount { user: ctx.user, balance: ctx.balance() }),
{
}

} // verus!
