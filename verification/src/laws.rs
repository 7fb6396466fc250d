use vstd::prelude::*;

use crate::addresses::{EscrowAddress, VaultAddress};
use crate::errors::EscrowError;
use crate::ops::{made_record, make_post, refund_post, take_post};
use crate::state::{EscrowRecord, EscrowStatus};
use crate::world::World;

verus! {

/// Law: a successful `make` leaves the vault holding exactly the deposit,
/// lowers the maker's `mint_a` balance by exactly the deposit and nothing
/// else, and stores a record whose fields match the inputs exactly.
pub proof fn lemma_make_effects(
    pre: World,
    post: World,
    maker: u64,
    seed: u64,
    mint_a: u64,
    mint_b: u64,
    receive: u64,
    deposit: u64,
)
    requires
        make_post(pre, maker, seed, mint_a, mint_b, receive, deposit, post, Ok(())),
    ensures
        post.escrow(maker, seed) == EscrowStatus::Open(
            made_record(maker, seed, mint_a, mint_b, receive),
            deposit,
        ),
        pre.balance(maker, mint_a) >= deposit,
        post.balance(maker, mint_a) == pre.balance(maker, mint_a) - deposit,
        forall|o: u64, m: u64| #![trigger post.balance(o, m)]
            !(o == maker && m == mint_a) ==> post.balance(o, m) == pre.balance(o, m),
        pre.escrow(maker, seed) is Nonexistent,
{
    assert(post.balance(maker, mint_a) as int == pre.balance(maker, mint_a) as int - (
    deposit as int));
    assert forall|o: u64, m: u64| !(o == maker && m == mint_a) implies #[trigger] post.balance(
        o,
        m,
    ) == pre.balance(o, m) by {
        assert(post.balance(o, m) as int == pre.balance(o, m) as int - 0);
    }
}

/// Law: settling an open escrow between distinct parties over distinct assets
/// strictly lowers the taker's `mint_b` balance by exactly `receive`,
/// strictly raises the taker's `mint_a` balance by exactly the vault's
/// pre-settlement balance, pays the maker exactly `receive` of `mint_b`, and
/// retires escrow and vault for good.
///
/// The strict inequalities ask that `receive` and the vault balance be
/// positive, that the taker is not the maker, and that the two assets differ:
/// a taker who settles with themself, or a trade of an asset for itself, pays
/// itself back, and a zero amount moves nothing.
pub proof fn lemma_take_effects(
    pre: World,
    post: World,
    taker: u64,
    escrow: EscrowAddress,
    vault: VaultAddress,
    rec: EscrowRecord,
    vault_amount: u64,
)
    requires
        take_post(pre, taker, escrow, vault, post, Ok(())),
        pre.escrow(escrow.maker, escrow.seed) == EscrowStatus::Open(rec, vault_amount),
        taker != rec.maker,
        rec.mint_a != rec.mint_b,
        rec.receive > 0,
        vault_amount > 0,
    ensures
        post.balance(taker, rec.mint_b) < pre.balance(taker, rec.mint_b),
        post.balance(taker, rec.mint_b) == pre.balance(taker, rec.mint_b) - rec.receive,
        post.balance(taker, rec.mint_a) > pre.balance(taker, rec.mint_a),
        post.balance(taker, rec.mint_a) == pre.balance(taker, rec.mint_a) + vault_amount,
        post.balance(rec.maker, rec.mint_b) == pre.balance(rec.maker, rec.mint_b) + rec.receive,
        post.escrow(escrow.maker, escrow.seed) is Closed,
{
}

/// Law: a successful refund restores the maker's `mint_a` balance by exactly
/// the vault's pre-refund balance, changes no other balance, and retires
/// escrow and vault for good.
pub proof fn lemma_refund_effects(
    pre: World,
    post: World,
    signer: u64,
    escrow: EscrowAddress,
    vault: VaultAddress,
    rec: EscrowRecord,
    vault_amount: u64,
)
    requires
        refund_post(pre, signer, escrow, vault, post, Ok(())),
        pre.escrow(escrow.maker, escrow.seed) == EscrowStatus::Open(rec, vault_amount),
    ensures
        post.balance(rec.maker, rec.mint_a) == pre.balance(rec.maker, rec.mint_a) + vault_amount,
        forall|o: u64, m: u64| #![trigger post.balance(o, m)]
            !(o == rec.maker && m == rec.mint_a) ==> post.balance(o, m) == pre.balance(o, m),
        post.escrow(escrow.maker, escrow.seed) is Closed,
{
    assert forall|o: u64, m: u64| !(o == rec.maker && m == rec.mint_a) implies #[trigger] post
        .balance(o, m) == pre.balance(o, m) by {
        assert(post.balance(o, m) as int == pre.balance(o, m) as int + 0);
    }
}

/// Law: a refund signed by anyone but the stored maker always fails with
/// `Unauthorized` and leaves the world exactly as it was.
pub proof fn lemma_refund_requires_maker(
    pre: World,
    post: World,
    signer: u64,
    escrow: EscrowAddress,
    vault: VaultAddress,
    rec: EscrowRecord,
    vault_amount: u64,
    r: Result<(), EscrowError>,
)
    requires
        refund_post(pre, signer, escrow, vault, post, r),
        pre.escrow(escrow.maker, escrow.seed) == EscrowStatus::Open(rec, vault_amount),
        signer != rec.maker,
    ensures
        r == Err::<(), EscrowError>(EscrowError::Unauthorized),
        post == pre,
{
    match r {
        Ok(u) => {
            assert(false);
        },
        Err(e) => {
            assert(e == EscrowError::Unauthorized);
        },
    }
}

/// Law: an escrow settles or refunds at most once. After one `take` or
/// `refund_and_close_vault` has succeeded, any further `take` or
/// `refund_and_close_vault` on the same escrow — by any party, with any
/// vault address — fails with `AlreadyClosed` and leaves the world exactly
/// as it was.
pub proof fn lemma_no_double_settlement(
    w0: World,
    w1: World,
    w2: World,
    escrow: EscrowAddress,
    taker1: u64,
    signer1: u64,
    vault1: VaultAddress,
    taker2: u64,
    signer2: u64,
    vault2: VaultAddress,
    r2: Result<(), EscrowError>,
)
    requires
        take_post(w0, taker1, escrow, vault1, w1, Ok(())) || refund_post(
            w0,
            signer1,
            escrow,
            vault1,
            w1,
            Ok(()),
        ),
        take_post(w1, taker2, escrow, vault2, w2, r2) || refund_post(
            w1,
            signer2,
            escrow,
            vault2,
            w2,
            r2,
        ),
    ensures
        r2 == Err::<(), EscrowError>(EscrowError::AlreadyClosed),
        w2 == w1,
{
    assert(w1.escrow(escrow.maker, escrow.seed) is Closed);
    match r2 {
        Ok(u) => {
            assert(false);
        },
        Err(e) => {
            assert(e == EscrowError::AlreadyClosed);
        },
    }
}

} // verus!
