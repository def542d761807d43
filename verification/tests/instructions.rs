use vault::address::Address;
use vault::derivation::{program_id, Capability};
use vault::error::VaultError;
use vault::instructions::{
    apply_deposit, apply_initialize, apply_withdraw, deposit, initialize, withdraw, Deposit,
    Initialize, Withdraw,
};
use vault::state::{TokenAccount, Transfer, UserAccount, Vault};

fn asset_x() -> Address {
    Address::new([0xAAu8; 32])
}

fn asset_y() -> Address {
    Address::new([0xBBu8; 32])
}

fn alice() -> Address {
    Address::new([1u8; 32])
}

fn bob() -> Address {
    Address::new([2u8; 32])
}

fn authority() -> Address {
    Address::new([9u8; 32])
}

fn deposit_of(balance: Option<u64>, held: u64, pooled: u64) -> Deposit {
    Deposit {
        user: alice(),
        user_token_account: TokenAccount { mint: asset_x(), owner: alice(), amount: held },
        vault_token_account: TokenAccount { mint: asset_x(), owner: authority(), amount: pooled },
        user_account: balance.map(|balance| UserAccount { user: alice(), balance }),
        vault: Vault { mint: asset_x(), bump: 254 },
    }
}

fn withdrawal_of(balance: u64, held: u64, pooled: u64) -> Withdraw {
    Withdraw {
        user: alice(),
        user_token_account: TokenAccount { mint: asset_x(), owner: alice(), amount: held },
        vault_token_account: TokenAccount { mint: asset_x(), owner: authority(), amount: pooled },
        user_account: UserAccount { user: alice(), balance },
        vault: Vault { mint: asset_x(), bump: 254 },
    }
}

#[test]
fn initialize_records_asset_and_found_bump() {
    let mut ctx = Initialize { authority: alice(), vault: None };
    let address = initialize(&mut ctx, asset_x()).unwrap();
    let (found, capability) =
        Capability::find(b"vault".to_vec(), Vec::new(), &program_id()).unwrap();
    assert_eq!(address, found);
    assert_eq!(ctx.vault, Some(Vault { mint: asset_x(), bump: capability.bump }));
    assert_eq!(ctx.authority, alice());
    assert_eq!(Capability::vault(capability.bump).address(&program_id()), Some(address));
}

#[test]
fn initialize_twice_is_refused() {
    let mut ctx = Initialize { authority: alice(), vault: None };
    initialize(&mut ctx, asset_x()).unwrap();
    let before = ctx;
    assert_eq!(initialize(&mut ctx, asset_y()), Err(VaultError::AlreadyInitialized));
    assert_eq!(ctx, before);
    assert_eq!(ctx.vault.unwrap().mint, asset_x());
}

#[test]
fn initialize_without_a_bump_is_refused() {
    let mut ctx = Initialize { authority: alice(), vault: None };
    assert_eq!(apply_initialize(&mut ctx, asset_x(), &None), Err(VaultError::MissingBump));
    assert_eq!(ctx, Initialize { authority: alice(), vault: None });
}

#[test]
fn apply_initialize_records_the_given_bump() {
    let mut ctx = Initialize { authority: alice(), vault: None };
    let result = apply_initialize(&mut ctx, asset_x(), &Some((authority(), 251)));
    assert_eq!(result, Ok(authority()));
    assert_eq!(ctx.vault, Some(Vault { mint: asset_x(), bump: 251 }));
    let again = apply_initialize(&mut ctx, asset_x(), &Some((authority(), 250)));
    assert_eq!(again, Err(VaultError::AlreadyInitialized));
    assert_eq!(ctx.vault, Some(Vault { mint: asset_x(), bump: 251 }));
}

#[test]
fn first_deposit_creates_the_entry() {
    let mut ctx = deposit_of(None, 500, 0);
    let transfer = apply_deposit(&mut ctx, 100, &Some(authority())).unwrap();
    assert_eq!(transfer, Transfer { authority: alice(), amount: 100, signer: None });
    assert_eq!(ctx.user_account, Some(UserAccount { user: alice(), balance: 100 }));
    assert_eq!(ctx.user_token_account.amount, 400);
    assert_eq!(ctx.vault_token_account.amount, 100);
}

#[test]
fn later_deposit_adds_to_the_entry() {
    let mut ctx = deposit_of(Some(70), 500, 120);
    apply_deposit(&mut ctx, 30, &Some(authority())).unwrap();
    assert_eq!(ctx.user_account, Some(UserAccount { user: alice(), balance: 100 }));
    assert_eq!(ctx.user_token_account.amount, 470);
    assert_eq!(ctx.vault_token_account.amount, 150);
}

#[test]
fn deposit_of_nothing_moves_nothing() {
    let mut ctx = deposit_of(None, 5, 7);
    let transfer = apply_deposit(&mut ctx, 0, &Some(authority())).unwrap();
    assert_eq!(transfer.amount, 0);
    assert_eq!(ctx.user_account, Some(UserAccount { user: alice(), balance: 0 }));
    assert_eq!(ctx.user_token_account.amount, 5);
    assert_eq!(ctx.vault_token_account.amount, 7);
}

#[test]
fn deposit_of_another_asset_is_refused() {
    let mut ctx = deposit_of(Some(10), 500, 10);
    ctx.user_token_account.mint = asset_y();
    let before = ctx;
    assert_eq!(apply_deposit(&mut ctx, 1, &Some(authority())), Err(VaultError::InvalidToken));
    assert_eq!(ctx, before);
    let mut ctx = deposit_of(Some(10), 500, 10);
    ctx.vault_token_account.mint = asset_y();
    let before = ctx;
    assert_eq!(apply_deposit(&mut ctx, 1, &Some(authority())), Err(VaultError::InvalidToken));
    assert_eq!(ctx, before);
}

#[test]
fn deposit_asset_check_comes_first() {
    let mut ctx = deposit_of(Some(u64::MAX), 0, u64::MAX);
    ctx.user_token_account.mint = asset_y();
    ctx.user_token_account.owner = bob();
    assert_eq!(apply_deposit(&mut ctx, 1, &None), Err(VaultError::InvalidToken));
}

#[test]
fn deposit_into_a_full_entry_overflows() {
    let mut ctx = deposit_of(Some(u64::MAX), 500, 0);
    let before = ctx;
    assert_eq!(apply_deposit(&mut ctx, 1, &Some(authority())), Err(VaultError::MathOverflow));
    assert_eq!(ctx, before);
    assert_eq!(apply_deposit(&mut ctx, 500, &Some(authority())), Err(VaultError::MathOverflow));
    assert_eq!(ctx, before);
    assert!(apply_deposit(&mut ctx, 0, &Some(authority())).is_ok());
    assert_eq!(ctx.user_account.unwrap().balance, u64::MAX);
}

#[test]
fn deposit_into_a_full_pool_overflows() {
    let mut ctx = deposit_of(Some(3), 500, u64::MAX - 4);
    let before = ctx;
    assert_eq!(apply_deposit(&mut ctx, 5, &Some(authority())), Err(VaultError::MathOverflow));
    assert_eq!(ctx, before);
    apply_deposit(&mut ctx, 4, &Some(authority())).unwrap();
    assert_eq!(ctx.vault_token_account.amount, u64::MAX);
    assert_eq!(ctx.user_account.unwrap().balance, 7);
}

#[test]
fn deposit_of_more_than_held_is_refused() {
    let mut ctx = deposit_of(None, 99, 0);
    let before = ctx;
    assert_eq!(apply_deposit(&mut ctx, 100, &Some(authority())), Err(VaultError::InsufficientFunds));
    assert_eq!(ctx, before);
    apply_deposit(&mut ctx, 99, &Some(authority())).unwrap();
    assert_eq!(ctx.user_token_account.amount, 0);
}

#[test]
fn deposit_from_a_foreign_holding_is_refused() {
    let mut ctx = deposit_of(None, 500, 0);
    ctx.user_token_account.owner = bob();
    let before = ctx;
    assert_eq!(apply_deposit(&mut ctx, 1, &Some(authority())), Err(VaultError::Unauthorized));
    assert_eq!(ctx, before);
}

#[test]
fn deposit_into_a_foreign_entry_is_refused() {
    let mut ctx = deposit_of(None, 500, 0);
    ctx.user_account = Some(UserAccount { user: bob(), balance: 5 });
    let before = ctx;
    assert_eq!(apply_deposit(&mut ctx, 1, &Some(authority())), Err(VaultError::Unauthorized));
    assert_eq!(ctx, before);
}

#[test]
fn deposit_into_a_pool_of_another_owner_is_refused() {
    let mut ctx = deposit_of(None, 500, 0);
    let before = ctx;
    assert_eq!(apply_deposit(&mut ctx, 1, &Some(bob())), Err(VaultError::DerivationMismatch));
    assert_eq!(apply_deposit(&mut ctx, 1, &None), Err(VaultError::DerivationMismatch));
    assert_eq!(ctx, before);
}

#[test]
fn withdraw_moves_units_back() {
    let mut ctx = withdrawal_of(100, 400, 150);
    let transfer = apply_withdraw(&mut ctx, 30, &Some(authority())).unwrap();
    assert_eq!(
        transfer,
        Transfer { authority: authority(), amount: 30, signer: Some(Capability::vault(254)) }
    );
    assert_eq!(ctx.user_account, UserAccount { user: alice(), balance: 70 });
    assert_eq!(ctx.user_token_account.amount, 430);
    assert_eq!(ctx.vault_token_account.amount, 120);
}

#[test]
fn withdraw_of_everything_leaves_an_empty_entry() {
    let mut ctx = withdrawal_of(100, 0, 100);
    apply_withdraw(&mut ctx, 100, &Some(authority())).unwrap();
    assert_eq!(ctx.user_account, UserAccount { user: alice(), balance: 0 });
    assert_eq!(ctx.vault_token_account.amount, 0);
    assert_eq!(ctx.user_token_account.amount, 100);
}

#[test]
fn withdraw_of_more_than_the_balance_is_refused() {
    let mut ctx = withdrawal_of(70, 0, 120);
    let before = ctx;
    assert_eq!(
        apply_withdraw(&mut ctx, 1000, &Some(authority())),
        Err(VaultError::InsufficientBalance)
    );
    assert_eq!(apply_withdraw(&mut ctx, 71, &Some(authority())), Err(VaultError::InsufficientBalance));
    assert_eq!(ctx, before);
}

#[test]
fn withdraw_of_more_than_the_pool_is_refused() {
    let mut ctx = withdrawal_of(70, 0, 50);
    let before = ctx;
    assert_eq!(
        apply_withdraw(&mut ctx, 60, &Some(authority())),
        Err(VaultError::InsufficientVaultBalance)
    );
    assert_eq!(ctx, before);
    assert!(apply_withdraw(&mut ctx, 50, &Some(authority())).is_ok());
}

#[test]
fn withdraw_checks_come_in_order() {
    let mut ctx = withdrawal_of(70, 0, 50);
    ctx.user_token_account.mint = asset_y();
    assert_eq!(apply_withdraw(&mut ctx, 71, &None), Err(VaultError::InsufficientBalance));
    assert_eq!(apply_withdraw(&mut ctx, 60, &None), Err(VaultError::InsufficientVaultBalance));
    assert_eq!(apply_withdraw(&mut ctx, 50, &None), Err(VaultError::InvalidToken));
    ctx.user_account.user = bob();
    assert_eq!(apply_withdraw(&mut ctx, 71, &None), Err(VaultError::Unauthorized));
}

#[test]
fn withdraw_to_another_asset_is_refused() {
    let mut ctx = withdrawal_of(70, 0, 120);
    ctx.user_token_account.mint = asset_y();
    let before = ctx;
    assert_eq!(apply_withdraw(&mut ctx, 10, &Some(authority())), Err(VaultError::InvalidToken));
    assert_eq!(ctx, before);
    let mut ctx = withdrawal_of(70, 0, 120);
    ctx.vault_token_account.mint = asset_y();
    let before = ctx;
    assert_eq!(apply_withdraw(&mut ctx, 10, &Some(authority())), Err(VaultError::InvalidToken));
    assert_eq!(ctx, before);
}

#[test]
fn withdraw_against_a_foreign_entry_is_refused() {
    let mut ctx = withdrawal_of(70, 0, 120);
    ctx.user = bob();
    let before = ctx;
    assert_eq!(apply_withdraw(&mut ctx, 10, &Some(authority())), Err(VaultError::Unauthorized));
    assert_eq!(ctx, before);
}

#[test]
fn withdraw_with_a_wrong_derivation_is_refused() {
    let mut ctx = withdrawal_of(70, 0, 120);
    let before = ctx;
    assert_eq!(apply_withdraw(&mut ctx, 10, &Some(bob())), Err(VaultError::DerivationMismatch));
    assert_eq!(apply_withdraw(&mut ctx, 10, &None), Err(VaultError::DerivationMismatch));
    assert_eq!(ctx, before);
}

#[test]
fn withdraw_into_a_full_holding_overflows() {
    let mut ctx = withdrawal_of(70, u64::MAX - 5, 120);
    let before = ctx;
    assert_eq!(apply_withdraw(&mut ctx, 6, &Some(authority())), Err(VaultError::MathOverflow));
    assert_eq!(ctx, before);
    apply_withdraw(&mut ctx, 5, &Some(authority())).unwrap();
    assert_eq!(ctx.user_token_account.amount, u64::MAX);
}

#[test]
fn deposit_then_withdraw_restores_everything() {
    let mut ctx = deposit_of(Some(70), 500, 120);
    let before = ctx;
    apply_deposit(&mut ctx, 55, &Some(authority())).unwrap();
    let mut back = Withdraw {
        user: ctx.user,
        user_token_account: ctx.user_token_account,
        vault_token_account: ctx.vault_token_account,
        user_account: ctx.user_account.unwrap(),
        vault: ctx.vault,
    };
    apply_withdraw(&mut back, 55, &Some(authority())).unwrap();
    assert_eq!(Some(back.user_account), before.user_account);
    assert_eq!(back.vault_token_account, before.vault_token_account);
    assert_eq!(back.user_token_account, before.user_token_account);
}

#[test]
fn deposit_and_withdraw_derive_the_vault_address() {
    let mut init = Initialize { authority: alice(), vault: None };
    let address = initialize(&mut init, asset_x()).unwrap();
    let record = init.vault.unwrap();
    let mut ctx = Deposit {
        user: alice(),
        user_token_account: TokenAccount { mint: asset_x(), owner: alice(), amount: 500 },
        vault_token_account: TokenAccount { mint: asset_x(), owner: address, amount: 0 },
        user_account: None,
        vault: record,
    };
    let transfer = deposit(&mut ctx, 100).unwrap();
    assert_eq!(transfer, Transfer { authority: alice(), amount: 100, signer: None });
    assert_eq!(ctx.vault_token_account.amount, 100);
    let mut back = Withdraw {
        user: alice(),
        user_token_account: ctx.user_token_account,
        vault_token_account: ctx.vault_token_account,
        user_account: ctx.user_account.unwrap(),
        vault: record,
    };
    let transfer = withdraw(&mut back, 30).unwrap();
    assert_eq!(transfer.authority, address);
    assert_eq!(transfer.signer, Some(Capability::vault(record.bump)));
    assert_eq!(back.user_account.balance, 70);
    assert_eq!(back.vault_token_account.amount, 70);
}

#[test]
fn corrupted_bump_is_a_derivation_mismatch() {
    let mut init = Initialize { authority: alice(), vault: None };
    let address = initialize(&mut init, asset_x()).unwrap();
    let record = init.vault.unwrap();
    let corrupted = Vault { mint: record.mint, bump: record.bump.wrapping_sub(1) };
    let mut ctx = Withdraw {
        user: alice(),
        user_token_account: TokenAccount { mint: asset_x(), owner: alice(), amount: 0 },
        vault_token_account: TokenAccount { mint: asset_x(), owner: address, amount: 100 },
        user_account: UserAccount { user: alice(), balance: 100 },
        vault: corrupted,
    };
    let before = ctx;
    assert_eq!(withdraw(&mut ctx, 10), Err(VaultError::DerivationMismatch));
    assert_eq!(ctx, before);
    let mut ctx = Deposit {
        user: alice(),
        user_token_account: TokenAccount { mint: asset_x(), owner: alice(), amount: 10 },
        vault_token_account: TokenAccount { mint: asset_x(), owner: address, amount: 100 },
        user_account: None,
        vault: corrupted,
    };
    assert_eq!(deposit(&mut ctx, 10), Err(VaultError::DerivationMismatch));
}
