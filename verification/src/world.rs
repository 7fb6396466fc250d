use vstd::prelude::*;

use crate::ledger::{
    balance_in, entry_matches, lemma_balance_push, lemma_balance_skip, lemma_balance_update,
    BalanceEntry,
};
use crate::state::{
    escrow_status_in, lemma_escrow_absent, lemma_escrow_push, lemma_escrow_skip,
    lemma_escrow_update, lemma_open_record_matches, slot_matches, slot_status, EscrowRecord,
    EscrowSlot, EscrowStatus,
};

verus! {

/// The portion of the ledger the escrow program acts on: every party's token
/// balances and every escrow slot, each slot holding an escrow record
/// together with its vault. Each instruction mutates a `World` in place and
/// either applies completely or, on an error, not at all, mirroring the
/// all-or-nothing execution the surrounding runtime guarantees.
pub struct World {
    pub balances: Vec<BalanceEntry>,
    pub escrows: Vec<EscrowSlot>,
}

impl World {
    /// The balance of `owner` in asset `mint`; zero for accounts never seen.
    pub open spec fn balance(self, owner: u64, mint: u64) -> u64 {
        balance_in(self.balances@, owner, mint)
    }

    /// The status of the escrow at the address derived from (maker, seed).
    pub open spec fn escrow(self, maker: u64, seed: u64) -> EscrowStatus {
        escrow_status_in(self.escrows@, maker, seed)
    }

    /// A world with no token balances and no escrows.
    pub fn new() -> (w: World)
        ensures
            forall|o: u64, m: u64| #![trigger w.balance(o, m)] w.balance(o, m) == 0,
            forall|mk: u64, sd: u64| #![trigger w.escrow(mk, sd)] w.escrow(mk, sd)
                is Nonexistent,
    {
        World { balances: Vec::new(), escrows: Vec::new() }
    }

    /// The index of the entry holding `owner`'s balance in `mint`, if any.
    fn find_balance(&self, owner: u64, mint: u64) -> (r: Option<usize>)
        ensures
            match r {
                Some(i) => i < self.balances@.len() && entry_matches(
                    self.balances@[i as int],
                    owner,
                    mint,
                ) && self.balances@[i as int].amount == self.balance(owner, mint) && (forall|
                    j: int,
                |
                    0 <= j < i as int ==> !entry_matches(self.balances@[j], owner, mint)),
                None => self.balance(owner, mint) == 0 && (forall|j: int|
                    0 <= j < self.balances@.len() ==> !entry_matches(
                        self.balances@[j],
                        owner,
                        mint,
                    )),
            },
    {
        let n: usize = self.balances.len();
        let mut i: usize = 0;
        while i < n
            invariant
                i <= n,
                n == self.balances@.len(),
                forall|j: int| 0 <= j < i as int ==> !entry_matches(self.balances@[j], owner, mint),
            decreases n - i,
        {
            let e = self.balances[i];
            if e.owner == owner && e.mint == mint {
                proof {
                    lemma_balance_skip(self.balances@, i as int, owner, mint);
                    assert(self.balances@.skip(i as int)[0] == self.balances@[i as int]);
                }
                return Some(i);
            }
            i = i + 1;
        }
        proof {
            lemma_balance_skip(self.balances@, n as int, owner, mint);
            assert(self.balances@.skip(n as int) =~= Seq::<BalanceEntry>::empty());
        }
        None
    }

    /// Reads the balance of `owner` in asset `mint`.
    pub fn get_balance(&self, owner: u64, mint: u64) -> (r: u64)
        ensures
            r == self.balance(owner, mint),
    {
        match self.find_balance(owner, mint) {
            Some(i) => self.balances[i].amount,
            None => 0,
        }
    }

    /// Adds `amount` to one holding and touches nothing else. This is the
    /// receiving half of a transfer, and on its own it models tokens arriving
    /// from outside the escrow program, such as an initial funding.
    pub fn credit(&mut self, owner: u64, mint: u64, amount: u64)
        requires
            old(self).balance(owner, mint) + amount <= u64::MAX,
        ensures
            final(self).balance(owner, mint) == old(self).balance(owner, mint) + amount,
            forall|o: u64, m: u64| #![trigger final(self).balance(o, m)]
                !(o == owner && m == mint) ==> final(self).balance(o, m) == old(self).balance(
                    o,
                    m,
                ),
            forall|mk: u64, sd: u64| #![trigger final(self).escrow(mk, sd)]
                final(self).escrow(mk, sd) == old(self).escrow(mk, sd),
    {
        match self.find_balance(owner, mint) {
            Some(i) => {
                let e = self.balances[i];
                let updated = BalanceEntry { owner: e.owner, mint: e.mint, amount: e.amount + amount };
                self.balances[i] = updated;
                proof {
                    lemma_balance_update(old(self).balances@, i as int, updated, owner, mint);
                }
            },
            None => {
                let entry = BalanceEntry { owner, mint, amount };
                self.balances.push(entry);
                proof {
                    lemma_balance_push(old(self).balances@, entry);
                }
            },
        }
    }

    /// Removes `amount` from one holding and touches nothing else. This is
    /// the paying half of a transfer; the caller must have checked the
    /// balance first.
    pub fn debit(&mut self, owner: u64, mint: u64, amount: u64)
        requires
            amount <= old(self).balance(owner, mint),
        ensures
            final(self).balance(owner, mint) == old(self).balance(owner, mint) - amount,
            forall|o: u64, m: u64| #![trigger final(self).balance(o, m)]
                !(o == owner && m == mint) ==> final(self).balance(o, m) == old(self).balance(
                    o,
                    m,
                ),
            forall|mk: u64, sd: u64| #![trigger final(self).escrow(mk, sd)]
                final(self).escrow(mk, sd) == old(self).escrow(mk, sd),
    {
        match self.find_balance(owner, mint) {
            Some(i) => {
                let e = self.balances[i];
                let updated = BalanceEntry { owner: e.owner, mint: e.mint, amount: e.amount - amount };
                self.balances[i] = updated;
                proof {
                    lemma_balance_update(old(self).balances@, i as int, updated, owner, mint);
                }
            },
            None => {
                // The balance is zero, so the debit can only be of zero.
            },
        }
    }

    /// The index of the slot for the escrow at (maker, seed), if any.
    fn find_slot(&self, maker: u64, seed: u64) -> (r: Option<usize>)
        ensures
            match r {
                Some(i) => i < self.escrows@.len() && slot_matches(
                    self.escrows@[i as int],
                    maker,
                    seed,
                ) && slot_status(self.escrows@[i as int]) == self.escrow(maker, seed) && (forall|
                    j: int,
                |
                    0 <= j < i as int ==> !slot_matches(self.escrows@[j], maker, seed)),
                None => self.escrow(maker, seed) is Nonexistent && (forall|j: int|
                    0 <= j < self.escrows@.len() ==> !slot_matches(self.escrows@[j], maker, seed)),
            },
    {
        let n: usize = self.escrows.len();
        let mut i: usize = 0;
        while i < n
            invariant
                i <= n,
                n == self.escrows@.len(),
                forall|j: int| 0 <= j < i as int ==> !slot_matches(self.escrows@[j], maker, seed),
            decreases n - i,
        {
            let s = self.escrows[i];
            if s.record.maker == maker && s.record.seed == seed {
                proof {
                    lemma_escrow_skip(self.escrows@, i as int, maker, seed);
                    assert(self.escrows@.skip(i as int)[0] == self.escrows@[i as int]);
                }
                return Some(i);
            }
            i = i + 1;
        }
        proof {
            lemma_escrow_skip(self.escrows@, n as int, maker, seed);
            assert(self.escrows@.skip(n as int) =~= Seq::<EscrowSlot>::empty());
        }
        None
    }

    /// Reads the status of the escrow at the address derived from
    /// (maker, seed).
    pub fn get_escrow(&self, maker: u64, seed: u64) -> (r: EscrowStatus)
        ensures
            r == self.escrow(maker, seed),
    {
        match self.find_slot(maker, seed) {
            Some(i) => {
                let s = self.escrows[i];
                if s.open {
                    EscrowStatus::Open(s.record, s.vault)
                } else {
                    EscrowStatus::Closed
                }
            },
            None => EscrowStatus::Nonexistent,
        }
    }

    /// Allocates the escrow record and its vault in one step: the two share
    /// one slot, so neither can exist without the other.
    pub(crate) fn open_escrow(&mut self, record: EscrowRecord, vault: u64)
        requires
            old(self).escrow(record.maker, record.seed) is Nonexistent,
        ensures
            final(self).escrow(record.maker, record.seed) == EscrowStatus::Open(record, vault),
            forall|mk: u64, sd: u64| #![trigger final(self).escrow(mk, sd)]
                !(mk == record.maker && sd == record.seed) ==> final(self).escrow(mk, sd) == old(
                    self,
                ).escrow(mk, sd),
            forall|o: u64, m: u64| #![trigger final(self).balance(o, m)]
                final(self).balance(o, m) == old(self).balance(o, m),
    {
        let slot = EscrowSlot { record, open: true, vault };
        proof {
            lemma_escrow_absent(self.escrows@, record.maker, record.seed);
            lemma_escrow_push(self.escrows@, slot);
        }
        self.escrows.push(slot);
    }

    /// Retires the escrow at (maker, seed) together with its vault. The slot
    /// stays behind as a tombstone, so the address can never be reused.
    pub(crate) fn close_escrow(&mut self, maker: u64, seed: u64)
        requires
            old(self).escrow(maker, seed) is Open,
        ensures
            final(self).escrow(maker, seed) is Closed,
            forall|mk: u64, sd: u64| #![trigger final(self).escrow(mk, sd)]
                !(mk == maker && sd == seed) ==> final(self).escrow(mk, sd) == old(self).escrow(
                    mk,
                    sd,
                ),
            forall|o: u64, m: u64| #![trigger final(self).balance(o, m)]
                final(self).balance(o, m) == old(self).balance(o, m),
    {
        match self.find_slot(maker, seed) {
            Some(i) => {
                let s = self.escrows[i];
                let closed = EscrowSlot { record: s.record, open: false, vault: 0 };
                self.escrows[i] = closed;
                proof {
                    lemma_escrow_update(old(self).escrows@, i as int, closed, maker, seed);
                }
            },
            None => {
                proof {
                    assert(false);
                }
            },
        }
    }

    /// An open escrow's stored record carries the address it is stored under.
    pub proof fn lemma_open_record(self, maker: u64, seed: u64)
        ensures
            self.escrow(maker, seed) matches EscrowStatus::Open(rec, v) ==> rec.maker == maker
                && rec.seed == seed,
    {
        lemma_open_record_matches(self.escrows@, maker, seed);
    }
}

} // verus!
