use vstd::prelude::*;

verus! {

/// One token holding: how much of asset `mint` the account `owner` holds.
#[derive(Clone, Copy, Debug, PartialEq, Eq, Structural)]
pub struct BalanceEntry {
    pub owner: u64,
    pub mint: u64,
    pub amount: u64,
}

/// Whether an entry records the holding of `owner` in asset `mint`.
pub open spec fn entry_matches(e: BalanceEntry, owner: u64, mint: u64) -> bool {
    e.owner == owner && e.mint == mint
}

/// The balance of `owner` in asset `mint` among the stored entries: the first
/// matching entry decides, and no entry at all means a balance of zero.
pub open spec fn balance_in(s: Seq<BalanceEntry>, owner: u64, mint: u64) -> u64
    decreases s.len(),
{
    if s.len() == 0 {
        0u64
    } else if entry_matches(s[0], owner, mint) {
        s[0].amount
    } else {
        balance_in(s.drop_first(), owner, mint)
    }
}

/// Skipping a prefix with no matching entry does not change a balance.
pub proof fn lemma_balance_skip(s: Seq<BalanceEntry>, n: int, owner: u64, mint: u64)
    requires
        0 <= n <= s.len(),
        forall|j: int| 0 <= j < n ==> !entry_matches(s[j], owner, mint),
    ensures
        balance_in(s, owner, mint) == balance_in(s.skip(n), owner, mint),
    decreases n,
{
    if n > 0 {
        lemma_balance_skip(s.drop_first(), n - 1, owner, mint);
        assert(s.drop_first().skip(n - 1) =~= s.skip(n));
    } else {
        assert(s.skip(0) =~= s);
    }
}

/// Replacing the first matching entry with another entry for the same holding
/// sets that holding's balance to the new amount and changes no other.
pub proof fn lemma_balance_update(s: Seq<BalanceEntry>, i: int, e: BalanceEntry, owner: u64, mint: u64)
    requires
        0 <= i < s.len(),
        entry_matches(s[i], owner, mint),
        entry_matches(e, owner, mint),
        forall|j: int| 0 <= j < i ==> !entry_matches(s[j], owner, mint),
    ensures
        balance_in(s.update(i, e), owner, mint) == e.amount,
        forall|o: u64, m: u64|
            !(o == owner && m == mint) ==> balance_in(s.update(i, e), o, m) == balance_in(s, o, m),
    decreases i,
{
    let t = s.update(i, e);
    if i == 0 {
        assert(t[0] == e);
        assert(t.drop_first() =~= s.drop_first());
        assert forall|o: u64, m: u64| !(o == owner && m == mint) implies balance_in(t, o, m)
            == balance_in(s, o, m) by {
            assert(!entry_matches(e, o, m));
            assert(!entry_matches(s[0], o, m));
        }
    } else {
        assert(t[0] == s[0]);
        assert(t.drop_first() =~= s.drop_first().update(i - 1, e));
        lemma_balance_update(s.drop_first(), i - 1, e, owner, mint);
        assert(balance_in(t, owner, mint) == balance_in(t.drop_first(), owner, mint));
        assert forall|o: u64, m: u64| !(o == owner && m == mint) implies balance_in(t, o, m)
            == balance_in(s, o, m) by {
            if entry_matches(s[0], o, m) {
                assert(balance_in(t, o, m) == t[0].amount);
                assert(balance_in(s, o, m) == s[0].amount);
            } else {
                assert(balance_in(t, o, m) == balance_in(t.drop_first(), o, m));
                assert(balance_in(s, o, m) == balance_in(s.drop_first(), o, m));
            }
        }
    }
}

/// Appending an entry for a holding that has no entry yet gives that holding
/// the new amount and changes no other.
pub proof fn lemma_balance_push(s: Seq<BalanceEntry>, e: BalanceEntry)
    requires
        forall|j: int| 0 <= j < s.len() ==> !entry_matches(s[j], e.owner, e.mint),
    ensures
        balance_in(s.push(e), e.owner, e.mint) == e.amount,
        forall|o: u64, m: u64|
            !(o == e.owner && m == e.mint) ==> balance_in(s.push(e), o, m) == balance_in(s, o, m),
    decreases s.len(),
{
    let t = s.push(e);
    if s.len() == 0 {
        assert(t[0] == e);
        assert(entry_matches(e, e.owner, e.mint));
        assert(t.drop_first() =~= Seq::<BalanceEntry>::empty());
        assert forall|o: u64, m: u64| !(o == e.owner && m == e.mint) implies balance_in(t, o, m)
            == balance_in(s, o, m) by {
            assert(!entry_matches(e, o, m));
            assert(balance_in(t, o, m) == balance_in(t.drop_first(), o, m));
        }
    } else {
        assert(t[0] == s[0]);
        assert(t.drop_first() =~= s.drop_first().push(e));
        lemma_balance_push(s.drop_first(), e);
        assert(!entry_matches(s[0], e.owner, e.mint));
        assert forall|o: u64, m: u64| !(o == e.owner && m == e.mint) implies balance_in(t, o, m)
            == balance_in(s, o, m) by {
            if entry_matches(s[0], o, m) {
                assert(balance_in(t, o, m) == t[0].amount);
                assert(balance_in(s, o, m) == s[0].amount);
            } else {
                assert(balance_in(t, o, m) == balance_in(t.drop_first(), o, m));
                assert(balance_in(s, o, m) == balance_in(s.drop_first(), o, m));
            }
        }
    }
}

} // verus!
