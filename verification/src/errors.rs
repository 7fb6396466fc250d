use vstd::prelude::*;

verus! {

/// The ways an escrow instruction can be rejected. Every failure aborts the
/// whole instruction: the world is left exactly as it was.
#[derive(Clone, Copy, Debug, PartialEq, Eq, Structural)]
pub enum EscrowError {
    /// A transfer would exceed the source account's balance.
    InsufficientFunds,
    /// The signer is not the party this operation is reserved for.
    Unauthorized,
    /// A supplied vault address does not match the derivation for the escrow.
    AddressMismatch,
    /// The targeted escrow and vault no longer exist, or never existed.
    AlreadyClosed,
    /// An escrow with the same (maker, seed) address was already created.
    DuplicateEscrow,
}

} // verus!
