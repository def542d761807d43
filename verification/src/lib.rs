//! A custodial token vault: many depositors share one pooled holding, and a
//! per-depositor ledger entry records what each of them may redeem.

pub mod address;
pub mod derivation;
pub mod error;
pub mod instructions;
pub mod layout;
pub mod ledger;
pub mod state;

pub use crate::address::Address;
pub use crate::error::VaultError;
pub use crate::instructions::{deposit, initialize, withdraw, Deposit, Initialize, Withdraw};
pub use crate::ledger::Ledger;
pub use crate::state::{TokenAccount, Transfer, UserAccount, Vault};
