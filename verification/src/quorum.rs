//! Majorities among the nodes.

use vstd::prelude::*;

verus! {

/// The least number of nodes that is more than half of `n`.
pub open spec fn quorum_of(n: nat) -> nat {
    n / 2 + 1
}

/// How many entries of `flags` are set.
pub open spec fn count_set(flags: Seq<bool>) -> nat
    decreases flags.len(),
{
    if flags.len() == 0 {
        0
    } else {
        count_set(flags.drop_last()) + if flags.last() {
            1nat
        } else {
            0nat
        }
    }
}

/// No more entries are set than there are entries.
pub proof fn lemma_count_set_bound(flags: Seq<bool>)
    ensures
        count_set(flags) <= flags.len(),
    decreases flags.len(),
{
    if flags.len() > 0 {
        lemma_count_set_bound(flags.drop_last());
    }
}

/// Appending one entry adds it to the count.
pub proof fn lemma_count_set_push(flags: Seq<bool>, flag: bool)
    ensures
        count_set(flags.push(flag)) == count_set(flags) + if flag {
            1nat
        } else {
            0nat
        },
{
    assert(flags.push(flag).drop_last() =~= flags);
}

/// A row of flags that are all set has as many set as it is long.
pub proof fn lemma_all_set(flags: Seq<bool>)
    requires
        forall|i: int| 0 <= i < flags.len() ==> flags[i],
    ensures
        count_set(flags) == flags.len(),
    decreases flags.len(),
{
    if flags.len() > 0 {
        lemma_all_set(flags.drop_last());
    }
}

/// The quorum for `n` nodes.
pub fn quorum(n: usize) -> (q: usize)
    ensures
        q == quorum_of(n as nat),
{
    n / 2 + 1
}

/// The number of nodes that granted, given one flag per node.
pub fn count_granted(flags: &Vec<bool>) -> (n: usize)
    ensures
        n == count_set(flags@),
{
    let mut n: usize = 0;
    let mut i: usize = 0;
    while i < flags.len()
        invariant
            i <= flags.len(),
            n == count_set(flags@.take(i as int)),
            n <= i,
        decreases flags.len() - i,
    {
        proof {
            lemma_count_set_push(flags@.take(i as int), flags@[i as int]);
            assert(flags@.take(i as int).push(flags@[i as int]) =~= flags@.take(i + 1));
        }
        if flags[i] {
            n = n + 1;
        }
        i = i + 1;
    }
    proof {
        assert(flags@.take(flags.len() as int) =~= flags@);
    }
    n
}

/// Two majorities among the same nodes share a node: where two rows of
/// flags over `n` nodes each have a quorum of entries set, some node is set
/// in both.
pub proof fn lemma_quorums_intersect(a: Seq<bool>, b: Seq<bool>)
    requires
        a.len() == b.len(),
        count_set(a) >= quorum_of(a.len()),
        count_set(b) >= quorum_of(b.len()),
    ensures
        exists|i: int| 0 <= i < a.len() && #[trigger] a[i] && b[i],
{
    lemma_overfull_rows_meet(a, b);
}

/// Where two rows of equal length have more entries set together than the
/// rows are long, some position is set in both.
pub proof fn lemma_overfull_rows_meet(a: Seq<bool>, b: Seq<bool>)
    requires
        a.len() == b.len(),
        count_set(a) + count_set(b) > a.len(),
    ensures
        exists|i: int| 0 <= i < a.len() && #[trigger] a[i] && b[i],
    decreases a.len(),
{
    if a.len() == 0 {
    } else if a.last() && b.last() {
        let k = a.len() - 1;
        assert(a[k] && b[k]);
    } else {
        lemma_overfull_rows_meet(a.drop_last(), b.drop_last());
        let i = choose|i: int| 0 <= i < a.len() - 1 && #[trigger] a.drop_last()[i] && b.drop_last()[i];
        assert(a[i] && b[i]);
    }
}

} // verus!
