use vstd::prelude::*;

use crate::addresses::{derive_vault_address, vault_address_of, EscrowAddress, VaultAddress};
use crate::errors::EscrowError;
use crate::state::{EscrowRecord, EscrowStatus, CANONICAL_BUMP};
use crate::world::World;

verus! {

/// The record a successful `make` stores for (maker, seed).
pub open spec fn made_record(
    maker: u64,
    seed: u64,
    mint_a: u64,
    mint_b: u64,
    receive: u64,
) -> EscrowRecord {
    EscrowRecord { maker, seed, mint_a, mint_b, receive, bump: CANONICAL_BUMP }
}

/// Everything `make` promises: exactly how a success changes the world, and
/// that each error comes on exactly the inputs it names and changes nothing.
pub open spec fn make_post(
    pre: World,
    maker: u64,
    seed: u64,
    mint_a: u64,
    mint_b: u64,
    receive: u64,
    deposit: u64,
    post: World,
    r: Result<(), EscrowError>,
) -> bool {
    match r {
        Ok(u) => {
            &&& pre.escrow(maker, seed) is Nonexistent
            &&& pre.balance(maker, mint_a) >= deposit
            &&& post.escrow(maker, seed) == EscrowStatus::Open(
                made_record(maker, seed, mint_a, mint_b, receive),
                deposit,
            )
            &&& forall|mk: u64, sd: u64| #![trigger post.escrow(mk, sd)]
                !(mk == maker && sd == seed) ==> post.escrow(mk, sd) == pre.escrow(mk, sd)
            &&& forall|o: u64, m: u64| #![trigger post.balance(o, m)]
                post.balance(o, m) as int == pre.balance(o, m) as int - (
                if o == maker && m == mint_a {
                    deposit as int
                } else {
                    0
                })
        },
        Err(e) => {
            &&& post == pre
            &&& (e == EscrowError::DuplicateEscrow <==> !(pre.escrow(maker, seed)
                is Nonexistent))
            &&& (e == EscrowError::InsufficientFunds <==> pre.escrow(maker, seed) is Nonexistent
                && pre.balance(maker, mint_a) < deposit)
            &&& (e is DuplicateEscrow || e is InsufficientFunds)
        },
    }
}

/// Opens an escrow: derives and allocates the record for (maker, seed),
/// stores the trade's terms, creates the vault under the record's own
/// authority, and moves exactly `deposit` of `mint_a` from the maker into it.
///
/// Fails with `DuplicateEscrow` if anything already lives at that address,
/// and with `InsufficientFunds` if the maker's balance is under `deposit`;
/// either failure leaves the world untouched.
pub fn make(
    w: &mut World,
    maker: u64,
    seed: u64,
    mint_a: u64,
    mint_b: u64,
    receive: u64,
    deposit: u64,
) -> (r: Result<(), EscrowError>)
    ensures
        make_post(*old(w), maker, seed, mint_a, mint_b, receive, deposit, *final(w), r),
{
    let status = w.get_escrow(maker, seed);
    match status {
        EscrowStatus::Nonexistent => {},
        _ => {
            return Err(EscrowError::DuplicateEscrow);
        },
    }
    let bal: u64 = w.get_balance(maker, mint_a);
    if bal < deposit {
        return Err(EscrowError::InsufficientFunds);
    }
    w.debit(maker, mint_a, deposit);
    let record = EscrowRecord { maker, seed, mint_a, mint_b, receive, bump: CANONICAL_BUMP };
    w.open_escrow(record, deposit);
    Ok(())
}

/// The overflow headroom `take` needs on the receiving holdings before it may
/// run: first the taker pays `receive` of `mint_b` to the maker, then the
/// vault's whole balance of `mint_a` goes to the taker. Only a success path
/// is constrained; calls that will be rejected need no headroom.
pub open spec fn take_fits(
    pre: World,
    taker: u64,
    escrow: EscrowAddress,
    vault: VaultAddress,
) -> bool {
    pre.escrow(escrow.maker, escrow.seed) matches EscrowStatus::Open(rec, v) ==> ((vault
        == vault_address_of(escrow) && pre.balance(taker, rec.mint_b) >= rec.receive) ==> (
    pre.balance(rec.maker, rec.mint_b) - (
    if rec.maker == taker {
        rec.receive as int
    } else {
        0
    }) + rec.receive <= u64::MAX && pre.balance(taker, rec.mint_a) - (
    if rec.mint_a == rec.mint_b {
        rec.receive as int
    } else {
        0
    }) + (
    if taker == rec.maker && rec.mint_a == rec.mint_b {
        rec.receive as int
    } else {
        0
    }) + v <= u64::MAX))
}

/// Everything `take` promises: exactly how a settlement changes the world,
/// and that each error comes on exactly the inputs it names and changes
/// nothing.
pub open spec fn take_post(
    pre: World,
    taker: u64,
    escrow: EscrowAddress,
    vault: VaultAddress,
    post: World,
    r: Result<(), EscrowError>,
) -> bool {
    let st = pre.escrow(escrow.maker, escrow.seed);
    match r {
        Ok(u) => st matches EscrowStatus::Open(rec, v) && {
            &&& vault == vault_address_of(escrow)
            &&& pre.balance(taker, rec.mint_b) >= rec.receive
            &&& post.escrow(escrow.maker, escrow.seed) is Closed
            &&& forall|mk: u64, sd: u64| #![trigger post.escrow(mk, sd)]
                !(mk == escrow.maker && sd == escrow.seed) ==> post.escrow(mk, sd) == pre.escrow(
                    mk,
                    sd,
                )
            &&& forall|o: u64, m: u64| #![trigger post.balance(o, m)]
                post.balance(o, m) as int == pre.balance(o, m) as int - (
                if o == taker && m == rec.mint_b {
                    rec.receive as int
                } else {
                    0
                }) + (
                if o == rec.maker && m == rec.mint_b {
                    rec.receive as int
                } else {
                    0
                }) + (
                if o == taker && m == rec.mint_a {
                    v as int
                } else {
                    0
                })
        },
        Err(e) => {
            &&& post == pre
            &&& (e == EscrowError::AlreadyClosed <==> !(st is Open))
            &&& (e == EscrowError::AddressMismatch <==> st is Open && vault != vault_address_of(
                escrow,
            ))
            &&& (e == EscrowError::InsufficientFunds <==> (st matches EscrowStatus::Open(rec, v)
                && vault == vault_address_of(escrow) && pre.balance(taker, rec.mint_b)
                < rec.receive))
            &&& (e is AlreadyClosed || e is AddressMismatch || e is InsufficientFunds)
        },
    }
}

/// Settles an open escrow. The maker is paid first: exactly `receive` of
/// `mint_b` moves from the taker to the maker; then the vault's entire
/// balance of `mint_a` moves to the taker, and vault and escrow record are
/// closed together.
///
/// Fails with `AlreadyClosed` if nothing open lives at the supplied address,
/// with `AddressMismatch` if the supplied vault is not the one derived from
/// the escrow's address (no substitute vault can be smuggled in), and with
/// `InsufficientFunds` if the taker cannot pay `receive`; either failure
/// leaves the world untouched.
pub fn take(w: &mut World, taker: u64, escrow: EscrowAddress, vault: VaultAddress) -> (r: Result<
    (),
    EscrowError,
>)
    requires
        take_fits(*old(w), taker, escrow, vault),
    ensures
        take_post(*old(w), taker, escrow, vault, *final(w), r),
{
    let status = w.get_escrow(escrow.maker, escrow.seed);
    proof {
        w.lemma_open_record(escrow.maker, escrow.seed);
    }
    let (rec, vault_amount): (EscrowRecord, u64) = match status {
        EscrowStatus::Open(rec, v) => (rec, v),
        _ => {
            return Err(EscrowError::AlreadyClosed);
        },
    };
    let expected = derive_vault_address(escrow);
    if vault != expected {
        return Err(EscrowError::AddressMismatch);
    }
    let taker_funds: u64 = w.get_balance(taker, rec.mint_b);
    if taker_funds < rec.receive {
        return Err(EscrowError::InsufficientFunds);
    }
    w.debit(taker, rec.mint_b, rec.receive);
    w.credit(rec.maker, rec.mint_b, rec.receive);
    w.credit(taker, rec.mint_a, vault_amount);
    w.close_escrow(escrow.maker, escrow.seed);
    Ok(())
}

/// The overflow headroom `refund_and_close_vault` needs: the vault's whole
/// balance returns to the maker's `mint_a` holding. Only a success path is
/// constrained.
pub open spec fn refund_fits(
    pre: World,
    signer: u64,
    escrow: EscrowAddress,
    vault: VaultAddress,
) -> bool {
    pre.escrow(escrow.maker, escrow.seed) matches EscrowStatus::Open(rec, v) ==> ((signer
        == rec.maker && vault == vault_address_of(escrow)) ==> pre.balance(rec.maker, rec.mint_a)
        + v <= u64::MAX)
}

/// Everything `refund_and_close_vault` promises: exactly how a refund changes
/// the world, and that each error comes on exactly the inputs it names and
/// changes nothing.
pub open spec fn refund_post(
    pre: World,
    signer: u64,
    escrow: EscrowAddress,
    vault: VaultAddress,
    post: World,
    r: Result<(), EscrowError>,
) -> bool {
    let st = pre.escrow(escrow.maker, escrow.seed);
    match r {
        Ok(u) => st matches EscrowStatus::Open(rec, v) && {
            &&& signer == rec.maker
            &&& vault == vault_address_of(escrow)
            &&& post.escrow(escrow.maker, escrow.seed) is Closed
            &&& forall|mk: u64, sd: u64| #![trigger post.escrow(mk, sd)]
                !(mk == escrow.maker && sd == escrow.seed) ==> post.escrow(mk, sd) == pre.escrow(
                    mk,
                    sd,
                )
            &&& forall|o: u64, m: u64| #![trigger post.balance(o, m)]
                post.balance(o, m) as int == pre.balance(o, m) as int + (
                if o == rec.maker && m == rec.mint_a {
                    v as int
                } else {
                    0
                })
        },
        Err(e) => {
            &&& post == pre
            &&& (e == EscrowError::AlreadyClosed <==> !(st is Open))
            &&& (e == EscrowError::Unauthorized <==> (st matches EscrowStatus::Open(rec, v)
                && signer != rec.maker))
            &&& (e == EscrowError::AddressMismatch <==> (st matches EscrowStatus::Open(rec, v)
                && signer == rec.maker && vault != vault_address_of(escrow)))
            &&& (e is AlreadyClosed || e is Unauthorized || e is AddressMismatch)
        },
    }
}

/// Cancels an open escrow: only the stored maker may invoke it. The vault's
/// entire balance of `mint_a` returns to the maker, and vault and escrow
/// record are closed together. There is no partial refund: a refund always
/// empties and closes.
///
/// Fails with `AlreadyClosed` if nothing open lives at the supplied address,
/// with `Unauthorized` if the signer is not the stored maker, and with
/// `AddressMismatch` if the supplied vault is not the derived one; either
/// failure leaves the world untouched.
pub fn refund_and_close_vault(
    w: &mut World,
    signer: u64,
    escrow: EscrowAddress,
    vault: VaultAddress,
) -> (r: Result<(), EscrowError>)
    requires
        refund_fits(*old(w), signer, escrow, vault),
    ensures
        refund_post(*old(w), signer, escrow, vault, *final(w), r),
{
    let status = w.get_escrow(escrow.maker, escrow.seed);
    proof {
        w.lemma_open_record(escrow.maker, escrow.seed);
    }
    let (rec, vault_amount): (EscrowRecord, u64) = match status {
        EscrowStatus::Open(rec, v) => (rec, v),
        _ => {
            return Err(EscrowError::AlreadyClosed);
        },
    };
    if signer != rec.maker {
        return Err(EscrowError::Unauthorized);
    }
    let expected = derive_vault_address(escrow);
    if vault != expected {
        return Err(EscrowError::AddressMismatch);
    }
    w.credit(rec.maker, rec.mint_a, vault_amount);
    w.close_escrow(escrow.maker, escrow.seed);
    Ok(())
}

} // verus!
