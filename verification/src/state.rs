use vstd::prelude::*;

verus! {

/// The derivation nonce stored with every escrow record. This model's address
/// derivation is injective by construction, so the first candidate nonce
/// always succeeds and a single canonical value is stored.
pub const CANONICAL_BUMP: u8 = 255;

/// The persisted terms of one escrow: who made it, under which seed, which
/// asset was deposited, and which asset and amount unlock the vault.
#[derive(Clone, Copy, Debug, PartialEq, Eq, Structural)]
pub struct EscrowRecord {
    /// The depositing party; immutable after creation.
    pub maker: u64,
    /// Maker-chosen value that distinguishes this maker's escrows.
    pub seed: u64,
    /// Asset type the maker deposited into the vault.
    pub mint_a: u64,
    /// Asset type the maker wants in return.
    pub mint_b: u64,
    /// Amount of `mint_b` required to unlock the vault.
    pub receive: u64,
    /// Derivation nonce for the record's own address.
    pub bump: u8,
}

/// What exists at one escrow address: nothing yet, an open escrow together
/// with its vault's balance, or the tombstone of a settled or refunded
/// escrow. `Closed` is terminal: the address can never be reused.
#[derive(Clone, Copy, Debug, PartialEq, Eq, Structural)]
pub enum EscrowStatus {
    Nonexistent,
    Open(EscrowRecord, u64),
    Closed,
}

/// One stored escrow slot: the record, whether the escrow is still open, and
/// the balance its vault holds. Escrow and vault live in the same slot, so
/// they are created and destroyed together and neither can outlive the other.
#[derive(Clone, Copy, Debug, PartialEq, Eq, Structural)]
pub struct EscrowSlot {
    pub record: EscrowRecord,
    pub open: bool,
    pub vault: u64,
}

/// Whether a slot sits at the escrow address derived from (maker, seed).
pub open spec fn slot_matches(s: EscrowSlot, maker: u64, seed: u64) -> bool {
    s.record.maker == maker && s.record.seed == seed
}

/// The status a single slot presents.
pub open spec fn slot_status(s: EscrowSlot) -> EscrowStatus {
    if s.open {
        EscrowStatus::Open(s.record, s.vault)
    } else {
        EscrowStatus::Closed
    }
}

/// The status of the escrow at address (maker, seed) among the stored slots:
/// the first matching slot decides, and no slot at all means the escrow does
/// not exist.
pub open spec fn escrow_status_in(s: Seq<EscrowSlot>, maker: u64, seed: u64) -> EscrowStatus
    decreases s.len(),
{
    if s.len() == 0 {
        EscrowStatus::Nonexistent
    } else if slot_matches(s[0], maker, seed) {
        slot_status(s[0])
    } else {
        escrow_status_in(s.drop_first(), maker, seed)
    }
}

/// A nonexistent escrow has no slot at all.
pub proof fn lemma_escrow_absent(s: Seq<EscrowSlot>, maker: u64, seed: u64)
    requires
        escrow_status_in(s, maker, seed) is Nonexistent,
    ensures
        forall|j: int| 0 <= j < s.len() ==> !slot_matches(s[j], maker, seed),
    decreases s.len(),
{
    if s.len() > 0 {
        lemma_escrow_absent(s.drop_first(), maker, seed);
        assert forall|j: int| 0 <= j < s.len() implies !slot_matches(s[j], maker, seed) by {
            if j > 0 {
                assert(s.drop_first()[j - 1] == s[j]);
            }
        }
    }
}

/// An open escrow's stored record carries exactly the address it is stored
/// under, so the stored maker and seed can be trusted by every check.
pub proof fn lemma_open_record_matches(s: Seq<EscrowSlot>, maker: u64, seed: u64)
    ensures
        escrow_status_in(s, maker, seed) matches EscrowStatus::Open(rec, v) ==> rec.maker == maker
            && rec.seed == seed,
    decreases s.len(),
{
    if s.len() > 0 && !slot_matches(s[0], maker, seed) {
        lemma_open_record_matches(s.drop_first(), maker, seed);
    }
}

/// Skipping a prefix with no matching slot does not change an escrow's status.
pub proof fn lemma_escrow_skip(s: Seq<EscrowSlot>, n: int, maker: u64, seed: u64)
    requires
        0 <= n <= s.len(),
        forall|j: int| 0 <= j < n ==> !slot_matches(s[j], maker, seed),
    ensures
        escrow_status_in(s, maker, seed) == escrow_status_in(s.skip(n), maker, seed),
    decreases n,
{
    if n > 0 {
        lemma_escrow_skip(s.drop_first(), n - 1, maker, seed);
        assert(s.drop_first().skip(n - 1) =~= s.skip(n));
    } else {
        assert(s.skip(0) =~= s);
    }
}

/// Replacing the first matching slot with another slot for the same address
/// changes that address's status to the new slot's and no other address's.
pub proof fn lemma_escrow_update(s: Seq<EscrowSlot>, i: int, slot: EscrowSlot, maker: u64, seed: u64)
    requires
        0 <= i < s.len(),
        slot_matches(s[i], maker, seed),
        slot_matches(slot, maker, seed),
        forall|j: int| 0 <= j < i ==> !slot_matches(s[j], maker, seed),
    ensures
        escrow_status_in(s.update(i, slot), maker, seed) == slot_status(slot),
        forall|mk: u64, sd: u64|
            !(mk == maker && sd == seed) ==> escrow_status_in(s.update(i, slot), mk, sd)
                == escrow_status_in(s, mk, sd),
    decreases i,
{
    let t = s.update(i, slot);
    if i == 0 {
        assert(t[0] == slot);
        assert(t.drop_first() =~= s.drop_first());
        assert forall|mk: u64, sd: u64| !(mk == maker && sd == seed) implies escrow_status_in(
            t,
            mk,
            sd,
        ) == escrow_status_in(s, mk, sd) by {
            assert(!slot_matches(slot, mk, sd));
            assert(!slot_matches(s[0], mk, sd));
        }
    } else {
        assert(t[0] == s[0]);
        assert(t.drop_first() =~= s.drop_first().update(i - 1, slot));
        lemma_escrow_update(s.drop_first(), i - 1, slot, maker, seed);
        assert(escrow_status_in(t, maker, seed) == escrow_status_in(t.drop_first(), maker, seed));
        assert forall|mk: u64, sd: u64| !(mk == maker && sd == seed) implies escrow_status_in(
            t,
            mk,
            sd,
        ) == escrow_status_in(s, mk, sd) by {
            if slot_matches(s[0], mk, sd) {
                assert(escrow_status_in(t, mk, sd) == slot_status(t[0]));
                assert(escrow_status_in(s, mk, sd) == slot_status(s[0]));
            } else {
                assert(escrow_status_in(t, mk, sd) == escrow_status_in(t.drop_first(), mk, sd));
                assert(escrow_status_in(s, mk, sd) == escrow_status_in(s.drop_first(), mk, sd));
            }
        }
    }
}

/// Appending a slot for an address that has no slot yet gives that address
/// the new slot's status and changes no other address's.
pub proof fn lemma_escrow_push(s: Seq<EscrowSlot>, slot: EscrowSlot)
    requires
        forall|j: int| 0 <= j < s.len() ==> !slot_matches(s[j], slot.record.maker, slot.record.seed),
    ensures
        escrow_status_in(s.push(slot), slot.record.maker, slot.record.seed) == slot_status(slot),
        forall|mk: u64, sd: u64|
            !(mk == slot.record.maker && sd == slot.record.seed) ==> escrow_status_in(
                s.push(slot),
                mk,
                sd,
            ) == escrow_status_in(s, mk, sd),
    decreases s.len(),
{
    let t = s.push(slot);
    if s.len() == 0 {
        assert(t[0] == slot);
        assert(slot_matches(slot, slot.record.maker, slot.record.seed));
        assert(t.drop_first() =~= Seq::<EscrowSlot>::empty());
        assert forall|mk: u64, sd: u64|
            !(mk == slot.record.maker && sd == slot.record.seed) implies escrow_status_in(
            t,
            mk,
            sd,
        ) == escrow_status_in(s, mk, sd) by {
            assert(!slot_matches(slot, mk, sd));
            assert(escrow_status_in(t, mk, sd) == escrow_status_in(t.drop_first(), mk, sd));
        }
    } else {
        assert(t[0] == s[0]);
        assert(t.drop_first() =~= s.drop_first().push(slot));
        lemma_escrow_push(s.drop_first(), slot);
        assert(!slot_matches(s[0], slot.record.maker, slot.record.seed));
        assert forall|mk: u64, sd: u64|
            !(mk == slot.record.maker && sd == slot.record.seed) implies escrow_status_in(
            t,
            mk,
            sd,
        ) == escrow_status_in(s, mk, sd) by {
            if slot_matches(s[0], mk, sd) {
                assert(escrow_status_in(t, mk, sd) == slot_status(t[0]));
                assert(escrow_status_in(s, mk, sd) == slot_status(s[0]));
            } else {
                assert(escrow_status_in(t, mk, sd) == escrow_status_in(t.drop_first(), mk, sd));
                assert(escrow_status_in(s, mk, sd) == escrow_status_in(s.drop_first(), mk, sd));
            }
        }
    }
}

} // verus!
