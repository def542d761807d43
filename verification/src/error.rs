//! The conditions on which a transition is refused.

use vstd::prelude::*;

verus! {

/// Why a transition was refused. A refused transition changes nothing.
#[derive(Clone, Copy, Debug, PartialEq, Eq, Structural)]
pub enum VaultError {
    /// The ledger entry holds fewer units than the amount asked for.
    InsufficientBalance,
    /// A holding is of another asset than the one the vault accepts.
    InvalidToken,
    /// The pooled holding holds fewer units than the amount asked for.
    InsufficientVaultBalance,
    /// A sum does not fit the integer width.
    MathOverflow,
    /// A difference would be negative.
    MathUnderflow,
    /// No bump gives the fixed label a keyless address.
    MissingBump,
    /// The caller does not own the ledger entry or the holding it claims.
    Unauthorized,
    /// A vault record already exists.
    AlreadyInitialized,
    /// The recorded bump does not derive the address that was expected.
    DerivationMismatch,
    /// The holding that units are taken from holds fewer than the amount.
    InsufficientFunds,
}

/// The first of the codes under which the errors are reported.
pub const ERROR_CODE_OFFSET: u32 = 6000;

impl VaultError {
    /// The position of the error in the list of all errors.
    pub open spec fn ordinal(self) -> nat {
        match self {
            VaultError::InsufficientBalance => 0,
            VaultError::InvalidToken => 1,
            VaultError::InsufficientVaultBalance => 2,
            VaultError::MathOverflow => 3,
            VaultError::MathUnderflow => 4,
            VaultError::MissingBump => 5,
            VaultError::Unauthorized => 6,
            VaultError::AlreadyInitialized => 7,
            VaultError::DerivationMismatch => 8,
            VaultError::InsufficientFunds => 9,
        }
    }

    /// The text that goes with the error.
    pub open spec fn text(self) -> Seq<char> {
        match self {
            VaultError::InsufficientBalance => "Insufficient balance to withdraw"@,
            VaultError::InvalidToken => "Invalid token mint"@,
            VaultError::InsufficientVaultBalance => "Vault does not have enough tokens"@,
            VaultError::MathOverflow => "Math overflow occurred"@,
            VaultError::MathUnderflow => "Math underflow occurred"@,
            VaultError::MissingBump => "Missing bump seed"@,
            VaultError::Unauthorized => "Caller does not own the account"@,
            VaultError::AlreadyInitialized => "Vault is already initialized"@,
            VaultError::DerivationMismatch => "Bump does not derive the expected address"@,
            VaultError::InsufficientFunds => "Source holding does not have enough tokens"@,
        }
    }

    /// The stable code under which the error is reported to the submitter.
    pub fn code(&self) -> (c: u32)
        ensures
            c == ERROR_CODE_OFFSET + self.ordinal(),
    {
        match self {
            VaultError::InsufficientBalance => 6000,
            VaultError::InvalidToken => 6001,
            VaultError::InsufficientVaultBalance => 6002,
            VaultError::MathOverflow => 6003,
            VaultError::MathUnderflow => 6004,
            VaultError::MissingBump => 6005,
            VaultError::Unauthorized => 6006,
            VaultError::AlreadyInitialized => 6007,
            VaultError::DerivationMismatch => 6008,
            VaultError::InsufficientFunds => 6009,
        }
    }

    /// The error that is reported under the given code, if there is one.
    pub fn from_code(code: u32) -> (e: Option<VaultError>)
        ensures
            match e {
                Some(err) => code == ERROR_CODE_OFFSET + err.ordinal(),
                None => forall|err: VaultError| code != ERROR_CODE_OFFSET + #[trigger] err.ordinal(),
            },
    {
        if code == 6000 {
            Some(VaultError::InsufficientBalance)
        } else if code == 6001 {
            Some(VaultError::InvalidToken)
        } else if code == 6002 {
            Some(VaultError::InsufficientVaultBalance)
        } else if code == 6003 {
            Some(VaultError::MathOverflow)
        } else if code == 6004 {
            Some(VaultError::MathUnderflow)
        } else if code == 6005 {
            Some(VaultError::MissingBump)
        } else if code == 6006 {
            Some(VaultError::Unauthorized)
        } else if code == 6007 {
            Some(VaultError::AlreadyInitialized)
        } else if code == 6008 {
            Some(VaultError::DerivationMismatch)
        } else if code == 6009 {
            Some(VaultError::InsufficientFunds)
        } else {
            None
        }
    }

    /// The text that goes with the error.
    pub fn message(&self) -> (m: &'static str)
        ensures
            m@ == self.text(),
    {
        match self {
            VaultError::InsufficientBalance => "Insufficient balance to withdraw",
            VaultError::InvalidToken => "Invalid token mint",
            VaultError::InsufficientVaultBalance => "Vault does not have enough tokens",
            VaultError::MathOverflow => "Math overflow occurred",
            VaultError::MathUnderflow => "Math underflow occurred",
            VaultError::MissingBump => "Missing bump seed",
            VaultError::Unauthorized => "Caller does not own the account",
            VaultError::AlreadyInitialized => "Vault is already initialized",
            VaultError::DerivationMismatch => "Bump does not derive the expected address",
            VaultError::InsufficientFunds => "Source holding does not have enough tokens",
        }
    }
}

/// Distinct errors are reported under distinct codes.
pub proof fn lemma_codes_distinct(a: VaultError, b: VaultError)
    requires
        a.ordinal() == b.ordinal(),
    ensures
        a == b,
{
}

} // verus!
