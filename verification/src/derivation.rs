//! Deterministic derivation of capability addresses.
//!
//! A capability address is computed from a fixed label, optional further
//! bytes, a one-byte bump and the program's own address. No private key
//! belongs to it, so only the program can authorize with it: it presents the
//! descriptor, and the address is derived again and compared.

use crate::address::Address;
use crate::error::VaultError;
use anchor_lang::prelude::Pubkey;
use vstd::prelude::*;

verus! {

/// The address that `Pubkey::create_program_address` derives from the seeds
/// and the program's address, or `None` where it reports an error.
pub uninterp spec fn derived_address(seeds: Seq<Seq<u8>>, program_id: Seq<u8>) -> Option<Seq<u8>>;

/// The address and bump that `Pubkey::try_find_program_address` finds for
/// the seeds and the program's address, or `None` where it finds none.
pub uninterp spec fn found_address(seeds: Seq<Seq<u8>>, program_id: Seq<u8>) -> Option<
    (Seq<u8>, u8),
>;

/// The bytes of the address under which the vault program runs.
pub const PROGRAM_ID: [u8; 32] = [
    184, 183, 115, 238, 168, 18, 15, 131, 236, 70, 108, 63, 237, 190, 255, 233,
    124, 219, 217, 158, 242, 72, 24, 109, 138, 198, 149, 123, 233, 122, 101, 72,
];

/// The address under which the vault program runs.
pub open spec fn program() -> Address {
    Address { bytes: PROGRAM_ID }
}

/// The label from which the vault's own capability address is derived: `vault`.
pub open spec fn vault_label() -> Seq<u8> {
    seq![118u8, 97u8, 117u8, 108u8, 116u8]
}

/// The label from which the address of a ledger entry is derived: `user_account`.
pub open spec fn user_account_label() -> Seq<u8> {
    seq![117u8, 115u8, 101u8, 114u8, 95u8, 97u8, 99u8, 99u8, 111u8, 117u8, 110u8, 116u8]
}

/// The seeds that a label and further bytes stand for: the label, then the
/// further bytes if there are any.
pub open spec fn seeds_of(label: Seq<u8>, seed: Seq<u8>) -> Seq<Seq<u8>> {
    if seed.len() == 0 {
        seq![label]
    } else {
        seq![label, seed]
    }
}

/// The seeds that the vectors hold, each as a sequence of bytes.
pub open spec fn seeds_view(seeds: &Vec<Vec<u8>>) -> Seq<Seq<u8>> {
    Seq::new(seeds@.len(), |i: int| seeds@[i]@)
}

/// What a capability descriptor holds.
pub struct CapabilityView {
    pub label: Seq<u8>,
    pub seed: Seq<u8>,
    pub bump: u8,
}

impl CapabilityView {
    /// The seeds without the bump.
    pub open spec fn seeds(self) -> Seq<Seq<u8>> {
        seeds_of(self.label, self.seed)
    }

    /// The seeds that are presented for signing: the bump comes last, as a
    /// seed of one byte.
    pub open spec fn signer_seeds(self) -> Seq<Seq<u8>> {
        self.seeds().push(seq![self.bump])
    }

    /// The address that the descriptor derives under the program.
    pub open spec fn address(self, program_id: Address) -> Option<Seq<u8>> {
        derived_address(self.signer_seeds(), program_id@)
    }
}

/// The descriptor of the vault's own capability with the given bump.
pub open spec fn vault_capability(bump: u8) -> CapabilityView {
    CapabilityView { label: vault_label(), seed: Seq::empty(), bump }
}

/// The descriptor under which the ledger entry of `owner` is addressed.
pub open spec fn user_account_capability(owner: Address, bump: u8) -> CapabilityView {
    CapabilityView { label: user_account_label(), seed: owner@, bump }
}

/// The address that the vault's capability derives with the given bump.
pub open spec fn vault_authority(bump: u8) -> Option<Seq<u8>> {
    vault_capability(bump).address(program())
}

/// A capability descriptor: what must be presented to have an address
/// derived again.
#[derive(Clone, Debug, PartialEq, Eq)]
pub struct Capability {
    pub label: Vec<u8>,
    pub seed: Vec<u8>,
    pub bump: u8,
}

impl View for Capability {
    type V = CapabilityView;

    open spec fn view(&self) -> CapabilityView {
        CapabilityView { label: self.label@, seed: self.seed@, bump: self.bump }
    }
}

/// Calls `Pubkey::create_program_address`. The result is the address that
/// the outside function derives, by its name `derived_address`, and `None`
/// where it reports an error (seeds that are too many or too long, or a
/// derived address that lies on the curve).
#[verifier::external_body]
fn create_program_address(seeds: &Vec<Vec<u8>>, program_id: &Address) -> (r: Option<Address>)
    ensures
        match r {
            Some(a) => derived_address(seeds_view(seeds), program_id@) == Some(a@),
            None => derived_address(seeds_view(seeds), program_id@) is None,
        },
{
    let parts: Vec<&[u8]> = seeds.iter().map(|s| s.as_slice()).collect();
    match Pubkey::create_program_address(&parts, &Pubkey::new_from_array(program_id.bytes)) {
        Ok(key) => Some(Address { bytes: key.to_bytes() }),
        Err(_) => None,
    }
}

/// Calls `Pubkey::try_find_program_address`. The result is what the outside
/// function finds, by its name `found_address`. Where it finds an address
/// and a bump, that address is the one that `create_program_address` derives
/// from the same seeds followed by the bump as a seed of one byte: the
/// outside function returns the first such address it meets.
#[verifier::external_body]
fn try_find_program_address(seeds: &Vec<Vec<u8>>, program_id: &Address) -> (r: Option<
    (Address, u8),
>)
    ensures
        match r {
            Some((a, bump)) => {
                &&& found_address(seeds_view(seeds), program_id@) == Some((a@, bump))
                &&& derived_address(seeds_view(seeds).push(seq![bump]), program_id@) == Some(a@)
            },
            None => found_address(seeds_view(seeds), program_id@) is None,
        },
{
    let parts: Vec<&[u8]> = seeds.iter().map(|s| s.as_slice()).collect();
    match Pubkey::try_find_program_address(&parts, &Pubkey::new_from_array(program_id.bytes)) {
        Some((key, bump)) => Some((Address { bytes: key.to_bytes() }, bump)),
        None => None,
    }
}

/// The address under which the vault program runs.
pub fn program_id() -> (a: Address)
    ensures
        a == program(),
{
    Address::new(PROGRAM_ID)
}

/// The seeds of a label and further bytes, as owned vectors.
fn build_seeds(label: &Vec<u8>, seed: &Vec<u8>) -> (seeds: Vec<Vec<u8>>)
    ensures
        seeds_view(&seeds) == seeds_of(label@, seed@),
{
    let mut seeds: Vec<Vec<u8>> = Vec::new();
    seeds.push(copy_bytes(label));
    if seed.len() > 0 {
        seeds.push(copy_bytes(seed));
    }
    assert(seeds_view(&seeds) =~= seeds_of(label@, seed@));
    seeds
}

/// A copy of the bytes.
fn copy_bytes(bytes: &Vec<u8>) -> (copy: Vec<u8>)
    ensures
        copy@ == bytes@,
{
    let mut copy: Vec<u8> = Vec::new();
    let mut i: usize = 0;
    while i < bytes.len()
        invariant
            i <= bytes.len(),
            copy@ == bytes@.subrange(0, i as int),
        decreases bytes.len() - i,
    {
        copy.push(bytes[i]);
        assert(copy@ =~= bytes@.subrange(0, i + 1));
        i += 1;
    }
    assert(copy@ =~= bytes@);
    copy
}

impl Capability {
    /// The descriptor of the vault's own capability with the given bump.
    pub fn vault(bump: u8) -> (c: Capability)
        ensures
            c@ == vault_capability(bump),
    {
        let label: Vec<u8> = vec![118u8, 97u8, 117u8, 108u8, 116u8];
        let c = Capability { label, seed: Vec::new(), bump };
        assert(c@.label =~= vault_label());
        assert(c@.seed =~= Seq::<u8>::empty());
        c
    }

    /// The descriptor under which the ledger entry of `owner` is addressed.
    pub fn user_account(owner: &Address, bump: u8) -> (c: Capability)
        ensures
            c@ == user_account_capability(*owner, bump),
    {
        let label: Vec<u8> = vec![
            117u8, 115u8, 101u8, 114u8, 95u8, 97u8, 99u8, 99u8, 111u8, 117u8, 110u8, 116u8,
        ];
        let c = Capability { label, seed: owner.to_vec(), bump };
        assert(c@.label =~= user_account_label());
        c
    }

    /// Derives the capability address under the given program: `None` where
    /// the descriptor derives no keyless address.
    pub fn address(&self, program_id: &Address) -> (r: Option<Address>)
        ensures
            match r {
                Some(a) => self@.address(*program_id) == Some(a@),
                None => self@.address(*program_id) is None,
            },
    {
        let seeds = self.signer_seeds();
        create_program_address(&seeds, program_id)
    }

    /// The seeds that are presented for signing: the label, the further
    /// bytes if there are any, and the bump as a seed of one byte.
    pub fn signer_seeds(&self) -> (seeds: Vec<Vec<u8>>)
        ensures
            seeds_view(&seeds) == self@.signer_seeds(),
    {
        let mut seeds = build_seeds(&self.label, &self.seed);
        let mut bump: Vec<u8> = Vec::new();
        bump.push(self.bump);
        seeds.push(bump);
        assert(seeds_view(&seeds) =~= self@.signer_seeds());
        seeds
    }

    /// Searches for the bump with which the label and the further bytes
    /// derive a keyless address under the given program, and fixes it in a
    /// descriptor. The descriptor derives the address that is returned.
    pub fn find(label: Vec<u8>, seed: Vec<u8>, program_id: &Address) -> (r: Option<
        (Address, Capability),
    >)
        ensures
            match r {
                Some((a, c)) => {
                    &&& found_address(seeds_of(label@, seed@), program_id@) == Some((a@, c.bump))
                    &&& c@ == CapabilityView { label: label@, seed: seed@, bump: c.bump }
                    &&& c@.address(*program_id) == Some(a@)
                },
                None => found_address(seeds_of(label@, seed@), program_id@) is None,
            },
    {
        let seeds = build_seeds(&label, &seed);
        match try_find_program_address(&seeds, program_id) {
            Some((a, bump)) => {
                let c = Capability { label, seed, bump };
                Some((a, c))
            },
            None => None,
        }
    }
}

/// Searches for the vault's own capability address and its bump.
pub fn find_vault() -> (r: Option<(Address, Capability)>)
    ensures
        match r {
            Some((a, c)) => {
                &&& found_address(seeds_of(vault_label(), Seq::empty()), program()@) == Some(
                    (a@, c.bump),
                )
                &&& c@ == vault_capability(c.bump)
                &&& vault_authority(c.bump) == Some(a@)
            },
            None => found_address(seeds_of(vault_label(), Seq::empty()), program()@) is None,
        },
{
    let label: Vec<u8> = vec![118u8, 97u8, 117u8, 108u8, 116u8];
    assert(label@ =~= vault_label());
    Capability::find(label, Vec::new(), &program_id())
}

/// Searches for the address under which the ledger entry of `owner` is
/// kept, and its bump.
pub fn find_user_account(owner: &Address) -> (r: Option<(Address, Capability)>)
    ensures
        match r {
            Some((a, c)) => {
                &&& found_address(seeds_of(user_account_label(), owner@), program()@) == Some(
                    (a@, c.bump),
                )
                &&& c@ == user_account_capability(*owner, c.bump)
                &&& c@.address(program()) == Some(a@)
            },
            None => found_address(seeds_of(user_account_label(), owner@), program()@) is None,
        },
{
    let label: Vec<u8> = vec![
        117u8, 115u8, 101u8, 114u8, 95u8, 97u8, 99u8, 99u8, 111u8, 117u8, 110u8, 116u8,
    ];
    assert(label@ =~= user_account_label());
    Capability::find(label, owner.to_vec(), &program_id())
}

/// Decides whether a derived address authorizes for `target`: it does when
/// an address was derived and it is `target`.
pub fn check_authority(derived: &Option<Address>, target: &Address) -> (r: Result<(), VaultError>)
    ensures
        r is Ok <==> *derived == Some(*target),
        r is Err ==> r == Err::<(), VaultError>(VaultError::DerivationMismatch),
{
    match derived {
        Some(a) => {
            if *a == *target {
                Ok(())
            } else {
                Err(VaultError::DerivationMismatch)
            }
        },
        None => Err(VaultError::DerivationMismatch),
    }
}

/// Presents the descriptor for `target` under the given program: the address
/// is derived again and must be `target`.
pub fn authorize(capability: &Capability, program_id: &Address, target: &Address) -> (r: Result<
    (),
    VaultError,
>)
    ensures
        r is Ok <==> capability@.address(*program_id) == Some(target@),
        r is Err ==> r == Err::<(), VaultError>(VaultError::DerivationMismatch),
{
    let derived = capability.address(program_id);
    proof {
        if derived is Some {
            if derived->0@ == target@ {
                crate::address::lemma_address_ext(derived->0, *target);
            }
        }
    }
    check_authority(&derived, target)
}

} // verus!
