//! The persisted layout of the records.
//!
//! A vault record is the 32 bytes of the accepted asset, then the bump. A
//! ledger entry is the 32 bytes of its owner, then the balance as 8 bytes,
//! least significant first.

use crate::address::{lemma_address_ext, Address};
use crate::state::{UserAccount, Vault};
use vstd::bytes::{
    lemma_auto_spec_u64_to_from_le_bytes, spec_u64_from_le_bytes, spec_u64_to_le_bytes,
    u64_from_le_bytes, u64_to_le_bytes,
};
use vstd::prelude::*;
use vstd::slice::slice_subrange;

verus! {

/// The number of bytes of a persisted vault record.
pub const VAULT_LEN: usize = 33;

/// The number of bytes of a persisted ledger entry.
pub const USER_ACCOUNT_LEN: usize = 40;

/// The bytes of a vault record.
pub open spec fn vault_bytes(vault: Vault) -> Seq<u8> {
    vault.mint@.push(vault.bump)
}

/// The bytes of a ledger entry.
pub open spec fn user_account_bytes(entry: UserAccount) -> Seq<u8> {
    entry.user@ + spec_u64_to_le_bytes(entry.balance)
}

/// The address that 32 bytes starting at `start` hold.
fn read_address(bytes: &[u8], start: usize) -> (a: Address)
    requires
        start + 32 <= bytes@.len(),
    ensures
        a@ == bytes@.subrange(start as int, start + 32),
{
    let mut held = [0u8; 32];
    let len: usize = bytes.len();
    let mut i: usize = 0;
    while i < 32
        invariant
            i <= 32,
            len == bytes@.len(),
            start + 32 <= len,
            forall|k: int| 0 <= k < i ==> held@[k] == bytes@[start + k],
        decreases 32 - i,
    {
        held[i] = bytes[start + i];
        i += 1;
    }
    let a = Address::new(held);
    assert(a@ =~= bytes@.subrange(start as int, start + 32));
    a
}

/// Appends the bytes of `more` to `bytes`.
fn append(bytes: &mut Vec<u8>, more: &Vec<u8>)
    ensures
        final(bytes)@ == old(bytes)@ + more@,
{
    let mut i: usize = 0;
    while i < more.len()
        invariant
            i <= more.len(),
            bytes@ == old(bytes)@ + more@.subrange(0, i as int),
        decreases more.len() - i,
    {
        bytes.push(more[i]);
        assert(bytes@ =~= old(bytes)@ + more@.subrange(0, i + 1));
        i += 1;
    }
    assert(more@.subrange(0, i as int) =~= more@);
}

/// The bytes under which the vault record is persisted.
pub fn encode_vault(vault: &Vault) -> (bytes: Vec<u8>)
    ensures
        bytes@ == vault_bytes(*vault),
        bytes@.len() == VAULT_LEN,
{
    let mut bytes = vault.mint.to_vec();
    bytes.push(vault.bump);
    bytes
}

/// The vault record that the bytes persist: there is one when there are as
/// many bytes as a record takes.
pub fn decode_vault(bytes: &[u8]) -> (r: Option<Vault>)
    ensures
        match r {
            Some(vault) => vault_bytes(vault) == bytes@,
            None => bytes@.len() != VAULT_LEN,
        },
{
    if bytes.len() != 33 {
        return None;
    }
    let mint = read_address(bytes, 0);
    let vault = Vault { mint, bump: bytes[32] };
    assert(vault_bytes(vault) =~= bytes@);
    Some(vault)
}

/// The bytes under which the ledger entry is persisted.
pub fn encode_user_account(entry: &UserAccount) -> (bytes: Vec<u8>)
    ensures
        bytes@ == user_account_bytes(*entry),
        bytes@.len() == USER_ACCOUNT_LEN,
{
    let mut bytes = entry.user.to_vec();
    let balance = u64_to_le_bytes(entry.balance);
    append(&mut bytes, &balance);
    bytes
}

/// The ledger entry that the bytes persist: there is one when there are as
/// many bytes as an entry takes.
pub fn decode_user_account(bytes: &[u8]) -> (r: Option<UserAccount>)
    ensures
        match r {
            Some(entry) => user_account_bytes(entry) == bytes@,
            None => bytes@.len() != USER_ACCOUNT_LEN,
        },
{
    if bytes.len() != 40 {
        return None;
    }
    let user = read_address(bytes, 0);
    let balance = u64_from_le_bytes(slice_subrange(bytes, 32, 40));
    let entry = UserAccount { user, balance };
    proof {
        lemma_auto_spec_u64_to_from_le_bytes();
        assert(spec_u64_to_le_bytes(balance) == bytes@.subrange(32, 40));
        assert(user_account_bytes(entry) =~= bytes@);
    }
    Some(entry)
}

/// A vault record takes 33 bytes, and no two records have the same bytes:
/// what was persisted is what is read back.
pub proof fn lemma_vault_bytes(a: Vault, b: Vault)
    ensures
        vault_bytes(a).len() == VAULT_LEN,
        vault_bytes(a) == vault_bytes(b) ==> a == b,
{
    if vault_bytes(a) == vault_bytes(b) {
        assert(a.bump == vault_bytes(a)[32]);
        assert(b.bump == vault_bytes(b)[32]);
        assert(a.mint@ =~= vault_bytes(a).subrange(0, 32));
        assert(b.mint@ =~= vault_bytes(b).subrange(0, 32));
        lemma_address_ext(a.mint, b.mint);
    }
}

/// A ledger entry takes 40 bytes, and no two entries have the same bytes:
/// what was persisted is what is read back.
pub proof fn lemma_user_account_bytes(a: UserAccount, b: UserAccount)
    ensures
        user_account_bytes(a).len() == USER_ACCOUNT_LEN,
        user_account_bytes(a) == user_account_bytes(b) ==> a == b,
{
    lemma_auto_spec_u64_to_from_le_bytes();
    if user_account_bytes(a) == user_account_bytes(b) {
        assert(a.user@ =~= user_account_bytes(a).subrange(0, 32));
        assert(b.user@ =~= user_account_bytes(b).subrange(0, 32));
        lemma_address_ext(a.user, b.user);
        assert(spec_u64_to_le_bytes(a.balance) =~= user_account_bytes(a).subrange(32, 40));
        assert(spec_u64_to_le_bytes(b.balance) =~= user_account_bytes(b).subrange(32, 40));
        assert(spec_u64_from_le_bytes(spec_u64_to_le_bytes(a.balance)) == a.balance);
        assert(spec_u64_from_le_bytes(spec_u64_to_le_bytes(b.balance)) == b.balance);
    }
}

} // verus!
