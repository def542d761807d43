//! The records that the vault keeps, and the holdings it moves units between.

use crate::address::Address;
use crate::derivation::{Capability, CapabilityView};
use vstd::prelude::*;

verus! {

/// The vault record: the one asset that the vault accepts, and the bump with
/// which its capability address is derived.
#[derive(Clone, Copy, Debug, PartialEq, Eq)]
pub struct Vault {
    pub mint: Address,
    pub bump: u8,
}

/// A ledger entry: the units that `user` may withdraw.
#[derive(Clone, Copy, Debug, PartialEq, Eq)]
pub struct UserAccount {
    pub user: Address,
    pub balance: u64,
}

/// A holding of the asset ledger: `amount` units of the asset `mint`, which
/// `owner` may move.
#[derive(Clone, Copy, Debug, PartialEq, Eq)]
pub struct TokenAccount {
    pub mint: Address,
    pub owner: Address,
    pub amount: u64,
}

/// What a transfer request holds.
pub struct TransferView {
    pub authority: Address,
    pub amount: u64,
    pub signer: Option<CapabilityView>,
}

/// The request that goes to the asset ledger with a transition: move
/// `amount` units, authorized by `authority`. Where the authority is a
/// capability address, `signer` is the descriptor to present for it.
#[derive(Clone, Debug, PartialEq, Eq)]
pub struct Transfer {
    pub authority: Address,
    pub amount: u64,
    pub signer: Option<Capability>,
}

impl View for Transfer {
    type V = TransferView;

    open spec fn view(&self) -> TransferView {
        TransferView {
            authority: self.authority,
            amount: self.amount,
            signer: match self.signer {
                Some(c) => Some(c@),
                None => None,
            },
        }
    }
}

/// The bytes of an address that may be missing.
pub open spec fn address_view(a: Option<Address>) -> Option<Seq<u8>> {
    match a {
        Some(a) => Some(a@),
        None => None,
    }
}

} // verus!
