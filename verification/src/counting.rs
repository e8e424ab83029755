use vstd::prelude::*;

verus! {

/// Number of `true` entries in a sequence of bits.
pub open spec fn count_true(s: Seq<bool>) -> nat
    decreases s.len(),
{
    if s.len() == 0 {
        0
    } else {
        count_true(s.drop_last()) + if s.last() {
            1nat
        } else {
            0nat
        }
    }
}

pub proof fn lemma_count_true_le_len(s: Seq<bool>)
    ensures
        count_true(s) <= s.len(),
    decreases s.len(),
{
    if s.len() > 0 {
        lemma_count_true_le_len(s.drop_last());
    }
}

/// Writing one bit moves the count by the difference of new and old bit.
pub proof fn lemma_count_true_update(s: Seq<bool>, i: int, v: bool)
    requires
        0 <= i < s.len(),
    ensures
        count_true(s.update(i, v)) == count_true(s) - (if s[i] {
            1int
        } else {
            0int
        }) + (if v {
            1int
        } else {
            0int
        }),
    decreases s.len(),
{
    let t = s.update(i, v);
    if i == s.len() - 1 {
        assert(t.drop_last() =~= s.drop_last());
    } else {
        assert(t.drop_last() =~= s.drop_last().update(i, v));
        lemma_count_true_update(s.drop_last(), i, v);
    }
}

/// A `false` entry keeps the count strictly below the length.
pub proof fn lemma_count_true_below_len(s: Seq<bool>, i: int)
    requires
        0 <= i < s.len(),
        !s[i],
    ensures
        count_true(s) < s.len(),
{
    lemma_count_true_update(s, i, true);
    lemma_count_true_le_len(s.update(i, true));
}

/// Extending a sequence with `false` entries leaves the count unchanged.
pub proof fn lemma_count_true_false_extension(s1: Seq<bool>, s2: Seq<bool>)
    requires
        s1.len() <= s2.len(),
        forall|i: int| 0 <= i < s1.len() ==> s2[i] == s1[i],
        forall|i: int| s1.len() <= i < s2.len() ==> !s2[i],
    ensures
        count_true(s2) == count_true(s1),
    decreases s2.len(),
{
    if s2.len() > s1.len() {
        lemma_count_true_false_extension(s1, s2.drop_last());
    } else {
        assert(s2 =~= s1);
    }
}

} // verus!
