use vstd::prelude::*;

verus! {

/// The address of an escrow record.
///
/// An escrow record lives at a deterministic address derived from the maker
/// and a maker-chosen 64-bit seed, so one maker can run several escrows at
/// once and any party can re-derive — rather than look up — the address of a
/// given trade. The derivation is injective by construction: distinct
/// (maker, seed) pairs can never collide.
#[derive(Clone, Copy, Debug, PartialEq, Eq, Structural)]
pub struct EscrowAddress {
    pub maker: u64,
    pub seed: u64,
}

/// The address of the vault that holds an escrow's deposit, derived from the
/// escrow record's own address so that the vault can only be reached through
/// its escrow.
#[derive(Clone, Copy, Debug, PartialEq, Eq, Structural)]
pub struct VaultAddress {
    pub maker: u64,
    pub seed: u64,
}

/// The escrow address that (maker, seed) derives to.
pub open spec fn escrow_address_of(maker: u64, seed: u64) -> EscrowAddress {
    EscrowAddress { maker, seed }
}

/// The vault address that an escrow address derives to.
pub open spec fn vault_address_of(escrow: EscrowAddress) -> VaultAddress {
    VaultAddress { maker: escrow.maker, seed: escrow.seed }
}

/// Derives the escrow record's address for (maker, seed).
pub fn derive_escrow_address(maker: u64, seed: u64) -> (r: EscrowAddress)
    ensures
        r == escrow_address_of(maker, seed),
{
    EscrowAddress { maker, seed }
}

/// Derives the vault address belonging to an escrow address.
pub fn derive_vault_address(escrow: EscrowAddress) -> (r: VaultAddress)
    ensures
        r == vault_address_of(escrow),
{
    VaultAddress { maker: escrow.maker, seed: escrow.seed }
}

/// Distinct (maker, seed) pairs always derive distinct escrow addresses, so
/// no two escrows can ever share a record.
pub proof fn lemma_escrow_address_injective(m1: u64, s1: u64, m2: u64, s2: u64)
    ensures
        escrow_address_of(m1, s1) == escrow_address_of(m2, s2) ==> m1 == m2 && s1 == s2,
{
}

/// Distinct escrow addresses always derive distinct vault addresses, so no
/// two escrows can ever share a vault.
pub proof fn lemma_vault_address_injective(e1: EscrowAddress, e2: EscrowAddress)
    ensures
        vault_address_of(e1) == vault_address_of(e2) ==> e1 == e2,
{
}

} // verus!
