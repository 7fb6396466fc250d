use escrow::addresses::{derive_escrow_address, derive_vault_address, EscrowAddress, VaultAddress};
use escrow::errors::EscrowError;
use escrow::ops::{make, refund_and_close_vault, take};
use escrow::state::{EscrowRecord, EscrowStatus, CANONICAL_BUMP};
use escrow::world::World;

const MAKER: u64 = 1;
const TAKER: u64 = 2;
const MINT_A: u64 = 10;
const MINT_B: u64 = 11;
const SEED: u64 = 7;

fn escrow_addr() -> EscrowAddress {
    derive_escrow_address(MAKER, SEED)
}

fn vault_addr() -> VaultAddress {
    derive_vault_address(derive_escrow_address(MAKER, SEED))
}

/// A world where the maker holds 100 of mint A and the taker 50 of mint B.
fn funded_world() -> World {
    let mut w = World::new();
    w.credit(MAKER, MINT_A, 100);
    w.credit(TAKER, MINT_B, 50);
    w
}

#[test]
fn new_world_is_empty() {
    let w = World::new();
    assert_eq!(w.get_balance(MAKER, MINT_A), 0);
    assert_eq!(w.get_escrow(MAKER, SEED), EscrowStatus::Nonexistent);
}

#[test]
fn credit_and_debit_track_one_holding() {
    let mut w = World::new();
    w.credit(MAKER, MINT_A, 5);
    w.credit(MAKER, MINT_A, 3);
    w.credit(MAKER, MINT_B, 9);
    assert_eq!(w.get_balance(MAKER, MINT_A), 8);
    assert_eq!(w.get_balance(MAKER, MINT_B), 9);
    w.debit(MAKER, MINT_A, 2);
    assert_eq!(w.get_balance(MAKER, MINT_A), 6);
    assert_eq!(w.get_balance(MAKER, MINT_B), 9);
    assert_eq!(w.get_balance(TAKER, MINT_A), 0);
}

#[test]
fn make_deposits_and_records_terms() {
    let mut w = funded_world();
    let r = make(&mut w, MAKER, SEED, MINT_A, MINT_B, 50, 100);
    assert_eq!(r, Ok(()));
    assert_eq!(w.get_balance(MAKER, MINT_A), 0);
    let expected = EscrowRecord {
        maker: MAKER,
        seed: SEED,
        mint_a: MINT_A,
        mint_b: MINT_B,
        receive: 50,
        bump: CANONICAL_BUMP,
    };
    assert_eq!(w.get_escrow(MAKER, SEED), EscrowStatus::Open(expected, 100));
}

#[test]
fn make_rejects_duplicate_seed() {
    let mut w = funded_world();
    w.credit(MAKER, MINT_A, 60);
    assert_eq!(make(&mut w, MAKER, SEED, MINT_A, MINT_B, 50, 100), Ok(()));
    let r = make(&mut w, MAKER, SEED, MINT_A, MINT_B, 1, 60);
    assert_eq!(r, Err(EscrowError::DuplicateEscrow));
    assert_eq!(w.get_balance(MAKER, MINT_A), 60);
}

#[test]
fn make_rejects_insufficient_deposit() {
    let mut w = World::new();
    w.credit(MAKER, MINT_A, 40);
    let r = make(&mut w, MAKER, SEED, MINT_A, MINT_B, 50, 100);
    assert_eq!(r, Err(EscrowError::InsufficientFunds));
    assert_eq!(w.get_balance(MAKER, MINT_A), 40);
    assert_eq!(w.get_escrow(MAKER, SEED), EscrowStatus::Nonexistent);
}

#[test]
fn make_distinct_seeds_open_independent_escrows() {
    let mut w = World::new();
    w.credit(MAKER, MINT_A, 30);
    assert_eq!(make(&mut w, MAKER, 1, MINT_A, MINT_B, 5, 10), Ok(()));
    assert_eq!(make(&mut w, MAKER, 2, MINT_A, MINT_B, 6, 20), Ok(()));
    assert_eq!(w.get_balance(MAKER, MINT_A), 0);
    match w.get_escrow(MAKER, 1) {
        EscrowStatus::Open(rec, vault) => {
            assert_eq!(rec.receive, 5);
            assert_eq!(vault, 10);
        }
        other => panic!("expected an open escrow, got {:?}", other),
    }
    match w.get_escrow(MAKER, 2) {
        EscrowStatus::Open(rec, vault) => {
            assert_eq!(rec.receive, 6);
            assert_eq!(vault, 20);
        }
        other => panic!("expected an open escrow, got {:?}", other),
    }
}

#[test]
fn take_settles_the_trade() {
    // The maker deposits 100 of mint A wanting 50 of mint B, seed 7; the
    // taker settles with 50 of mint B.
    let mut w = funded_world();
    assert_eq!(make(&mut w, MAKER, SEED, MINT_A, MINT_B, 50, 100), Ok(()));
    let r = take(&mut w, TAKER, escrow_addr(), vault_addr());
    assert_eq!(r, Ok(()));
    assert_eq!(w.get_balance(TAKER, MINT_B), 0);
    assert_eq!(w.get_balance(TAKER, MINT_A), 100);
    assert_eq!(w.get_balance(MAKER, MINT_B), 50);
    assert_eq!(w.get_balance(MAKER, MINT_A), 0);
    assert_eq!(w.get_escrow(MAKER, SEED), EscrowStatus::Closed);
}

#[test]
fn take_rejects_nonexistent_escrow() {
    let mut w = funded_world();
    let r = take(&mut w, TAKER, escrow_addr(), vault_addr());
    assert_eq!(r, Err(EscrowError::AlreadyClosed));
    assert_eq!(w.get_balance(TAKER, MINT_B), 50);
}

#[test]
fn take_rejects_substituted_vault() {
    let mut w = funded_world();
    assert_eq!(make(&mut w, MAKER, SEED, MINT_A, MINT_B, 50, 100), Ok(()));
    let foreign_vault = VaultAddress { maker: 99, seed: SEED };
    let r = take(&mut w, TAKER, escrow_addr(), foreign_vault);
    assert_eq!(r, Err(EscrowError::AddressMismatch));
    assert_eq!(w.get_balance(TAKER, MINT_B), 50);
    assert_eq!(w.get_balance(MAKER, MINT_B), 0);
    match w.get_escrow(MAKER, SEED) {
        EscrowStatus::Open(_, vault) => assert_eq!(vault, 100),
        other => panic!("expected the escrow to stay open, got {:?}", other),
    }
}

#[test]
fn take_rejects_underfunded_taker() {
    let mut w = World::new();
    w.credit(MAKER, MINT_A, 100);
    w.credit(TAKER, MINT_B, 49);
    assert_eq!(make(&mut w, MAKER, SEED, MINT_A, MINT_B, 50, 100), Ok(()));
    let r = take(&mut w, TAKER, escrow_addr(), vault_addr());
    assert_eq!(r, Err(EscrowError::InsufficientFunds));
    assert_eq!(w.get_balance(TAKER, MINT_B), 49);
    assert_eq!(w.get_balance(TAKER, MINT_A), 0);
    match w.get_escrow(MAKER, SEED) {
        EscrowStatus::Open(_, vault) => assert_eq!(vault, 100),
        other => panic!("expected the escrow to stay open, got {:?}", other),
    }
}

#[test]
fn maker_may_settle_own_escrow() {
    // The taker being the maker pays the `receive` amount back to themself
    // and recovers the deposit.
    let mut w = World::new();
    w.credit(MAKER, MINT_A, 100);
    w.credit(MAKER, MINT_B, 50);
    assert_eq!(make(&mut w, MAKER, SEED, MINT_A, MINT_B, 50, 100), Ok(()));
    let r = take(&mut w, MAKER, escrow_addr(), vault_addr());
    assert_eq!(r, Ok(()));
    assert_eq!(w.get_balance(MAKER, MINT_A), 100);
    assert_eq!(w.get_balance(MAKER, MINT_B), 50);
    assert_eq!(w.get_escrow(MAKER, SEED), EscrowStatus::Closed);
}

#[test]
fn refund_restores_the_deposit() {
    // Same setup as the settlement scenario, but the maker refunds before
    // any take: the 100 of mint A come back and the escrow is gone.
    let mut w = funded_world();
    assert_eq!(make(&mut w, MAKER, SEED, MINT_A, MINT_B, 50, 100), Ok(()));
    assert_eq!(w.get_balance(MAKER, MINT_A), 0);
    let r = refund_and_close_vault(&mut w, MAKER, escrow_addr(), vault_addr());
    assert_eq!(r, Ok(()));
    assert_eq!(w.get_balance(MAKER, MINT_A), 100);
    assert_eq!(w.get_balance(TAKER, MINT_B), 50);
    assert_eq!(w.get_escrow(MAKER, SEED), EscrowStatus::Closed);
    // A later take finds nothing to settle.
    let r2 = take(&mut w, TAKER, escrow_addr(), vault_addr());
    assert_eq!(r2, Err(EscrowError::AlreadyClosed));
    assert_eq!(w.get_balance(TAKER, MINT_B), 50);
    assert_eq!(w.get_balance(TAKER, MINT_A), 0);
}

#[test]
fn refund_rejects_other_signers() {
    let mut w = funded_world();
    assert_eq!(make(&mut w, MAKER, SEED, MINT_A, MINT_B, 50, 100), Ok(()));
    let r = refund_and_close_vault(&mut w, TAKER, escrow_addr(), vault_addr());
    assert_eq!(r, Err(EscrowError::Unauthorized));
    assert_eq!(w.get_balance(MAKER, MINT_A), 0);
    assert_eq!(w.get_balance(TAKER, MINT_A), 0);
    match w.get_escrow(MAKER, SEED) {
        EscrowStatus::Open(rec, vault) => {
            assert_eq!(rec.maker, MAKER);
            assert_eq!(vault, 100);
        }
        other => panic!("expected the escrow to stay open, got {:?}", other),
    }
}

#[test]
fn refund_rejects_substituted_vault() {
    let mut w = funded_world();
    assert_eq!(make(&mut w, MAKER, SEED, MINT_A, MINT_B, 50, 100), Ok(()));
    let foreign_vault = VaultAddress { maker: MAKER, seed: SEED + 1 };
    let r = refund_and_close_vault(&mut w, MAKER, escrow_addr(), foreign_vault);
    assert_eq!(r, Err(EscrowError::AddressMismatch));
    assert_eq!(w.get_balance(MAKER, MINT_A), 0);
}

#[test]
fn second_take_fails_already_closed() {
    let mut w = funded_world();
    w.credit(TAKER, MINT_B, 50);
    assert_eq!(make(&mut w, MAKER, SEED, MINT_A, MINT_B, 50, 100), Ok(()));
    assert_eq!(take(&mut w, TAKER, escrow_addr(), vault_addr()), Ok(()));
    let r = take(&mut w, TAKER, escrow_addr(), vault_addr());
    assert_eq!(r, Err(EscrowError::AlreadyClosed));
    // The failed second take moved nothing.
    assert_eq!(w.get_balance(TAKER, MINT_B), 50);
    assert_eq!(w.get_balance(TAKER, MINT_A), 100);
    assert_eq!(w.get_balance(MAKER, MINT_B), 50);
}

#[test]
fn refund_after_take_fails_already_closed() {
    let mut w = funded_world();
    assert_eq!(make(&mut w, MAKER, SEED, MINT_A, MINT_B, 50, 100), Ok(()));
    assert_eq!(take(&mut w, TAKER, escrow_addr(), vault_addr()), Ok(()));
    let r = refund_and_close_vault(&mut w, MAKER, escrow_addr(), vault_addr());
    assert_eq!(r, Err(EscrowError::AlreadyClosed));
    assert_eq!(w.get_balance(MAKER, MINT_A), 0);
    assert_eq!(w.get_balance(TAKER, MINT_A), 100);
}

#[test]
fn second_refund_fails_already_closed() {
    let mut w = funded_world();
    assert_eq!(make(&mut w, MAKER, SEED, MINT_A, MINT_B, 50, 100), Ok(()));
    assert_eq!(refund_and_close_vault(&mut w, MAKER, escrow_addr(), vault_addr()), Ok(()));
    let r = refund_and_close_vault(&mut w, MAKER, escrow_addr(), vault_addr());
    assert_eq!(r, Err(EscrowError::AlreadyClosed));
    assert_eq!(w.get_balance(MAKER, MINT_A), 100);
}

#[test]
fn addresses_derive_deterministically() {
    assert_eq!(escrow_addr(), EscrowAddress { maker: MAKER, seed: SEED });
    assert_eq!(vault_addr(), VaultAddress { maker: MAKER, seed: SEED });
    assert_eq!(derive_escrow_address(MAKER, SEED), derive_escrow_address(MAKER, SEED));
    assert_ne!(derive_escrow_address(MAKER, SEED), derive_escrow_address(MAKER, SEED + 1));
    assert_ne!(derive_escrow_address(MAKER, SEED), derive_escrow_address(TAKER, SEED));
}

#[test]
fn zero_deposit_escrow_settles_for_nothing() {
    let mut w = World::new();
    assert_eq!(make(&mut w, MAKER, SEED, MINT_A, MINT_B, 0, 0), Ok(()));
    assert_eq!(w.get_escrow(MAKER, SEED), EscrowStatus::Open(
        EscrowRecord {
            maker: MAKER,
            seed: SEED,
            mint_a: MINT_A,
            mint_b: MINT_B,
            receive: 0,
            bump: CANONICAL_BUMP,
        },
        0,
    ));
    assert_eq!(take(&mut w, TAKER, escrow_addr(), vault_addr()), Ok(()));
    assert_eq!(w.get_balance(TAKER, MINT_A), 0);
    assert_eq!(w.get_balance(MAKER, MINT_B), 0);
    assert_eq!(w.get_escrow(MAKER, SEED), EscrowStatus::Closed);
}
