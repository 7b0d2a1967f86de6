//! Counting and summing over the ledger's vote and investment sequences.

use vstd::prelude::*;

verus! {

/// The number of vote records cast for the founder `f`: entries of `s`
/// whose key is `(voter, f)` for some voter. With unique keys this is the
/// number of distinct voters who voted on `f`'s project.
pub open spec fn vote_count(s: Seq<((u64, u64), bool)>, f: u64) -> int
    decreases s.len(),
{
    if s.len() == 0 {
        0
    } else {
        vote_count(s.drop_last(), f) + if s.last().0.1 == f {
            1int
        } else {
            0int
        }
    }
}

/// Appending one vote record raises the count for its founder by one and
/// leaves every other founder's count unchanged.
pub proof fn lemma_vote_count_push(s: Seq<((u64, u64), bool)>, voter: u64, f: u64, b: bool)
    ensures
        vote_count(s.push(((voter, f), b)), f) == vote_count(s, f) + 1,
        forall|g: u64| g != f ==> vote_count(s.push(((voter, f), b)), g) == vote_count(s, g),
{
    let t = s.push(((voter, f), b));
    assert(t.drop_last() =~= s);
}

/// A founder no vote record mentions has a count of zero.
pub proof fn lemma_vote_count_absent(s: Seq<((u64, u64), bool)>, f: u64)
    requires
        forall|i: int| 0 <= i < s.len() ==> (#[trigger] s[i]).0.1 != f,
    ensures
        vote_count(s, f) == 0,
    decreases s.len(),
{
    if s.len() > 0 {
        let t = s.drop_last();
        assert(forall|i: int| 0 <= i < t.len() ==> #[trigger] t[i] == s[i]);
        lemma_vote_count_absent(t, f);
    }
}

/// The sum of the investment records whose key names the VC `vc`.
pub open spec fn invested_sum(s: Seq<((u64, u64), i128)>, vc: u64) -> int
    decreases s.len(),
{
    if s.len() == 0 {
        0
    } else {
        invested_sum(s.drop_last(), vc) + if s.last().0.0 == vc {
            s.last().1 as int
        } else {
            0int
        }
    }
}

/// A sum over nonnegative investment records is nonnegative.
pub proof fn lemma_invested_sum_nonneg(s: Seq<((u64, u64), i128)>, vc: u64)
    requires
        forall|i: int| 0 <= i < s.len() ==> (#[trigger] s[i]).1 >= 0,
    ensures
        invested_sum(s, vc) >= 0,
    decreases s.len(),
{
    if s.len() > 0 {
        let t = s.drop_last();
        assert(forall|i: int| 0 <= i < t.len() ==> #[trigger] t[i] == s[i]);
        lemma_invested_sum_nonneg(t, vc);
    }
}

/// Appending one investment record raises its VC's sum by the recorded
/// amount and leaves every other VC's sum unchanged.
pub proof fn lemma_invested_sum_push(s: Seq<((u64, u64), i128)>, k: (u64, u64), v: i128)
    ensures
        invested_sum(s.push((k, v)), k.0) == invested_sum(s, k.0) + v,
        forall|g: u64| g != k.0 ==> invested_sum(s.push((k, v)), g) == invested_sum(s, g),
{
    let t = s.push((k, v));
    assert(t.drop_last() =~= s);
}

/// Replacing the amount of the record at index `i`, keeping its key,
/// shifts its VC's sum by the difference and leaves every other VC's sum
/// unchanged.
pub proof fn lemma_invested_sum_update(s: Seq<((u64, u64), i128)>, i: int, v: i128, vc: u64)
    requires
        0 <= i < s.len(),
    ensures
        invested_sum(s.update(i, (s[i].0, v)), vc) == invested_sum(s, vc) + if s[i].0.0 == vc {
            v - s[i].1
        } else {
            0int
        },
    decreases s.len(),
{
    let t = s.update(i, (s[i].0, v));
    if i == s.len() - 1 {
        assert(t.drop_last() =~= s.drop_last());
        assert(t.last() == (s[i].0, v));
    } else {
        assert(t.drop_last() =~= s.drop_last().update(i, (s[i].0, v)));
        assert(t.last() == s.last());
        lemma_invested_sum_update(s.drop_last(), i, v, vc);
    }
}

} // verus!
