//! The incremental running-maximum algorithm with tie accumulation.
//!
//! Walking a performance sequence in order, the algorithm keeps the highest
//! value seen so far and the set of indices tied for it: a strictly higher
//! value resets the set to that index alone, an exactly equal value appends
//! the index, anything lower changes nothing. An index that enters the set
//! under an old maximum and later loses to a strictly higher value is
//! removed with the reset; one that ties the current maximum stays. The
//! final set is therefore a property of the whole pass, not a post-hoc
//! argmax.

use vstd::prelude::*;

use crate::ratio::{
    lemma_ratio_eq_ge_trans, lemma_ratio_ge_trans, ratio_val_eq, ratio_val_ge, ratio_val_gt,
    spec_zero_ratio, Ratio,
};

verus! {

/// The running maximum and tie-index set after a full pass over `perfs`,
/// starting from a maximum of zero and an empty set.
pub open spec fn spec_run_max(perfs: Seq<Ratio>) -> (Ratio, Seq<int>)
    decreases perfs.len(),
{
    if perfs.len() == 0 {
        (spec_zero_ratio(), Seq::empty())
    } else {
        let prev = spec_run_max(perfs.drop_last());
        let p = perfs.last();
        let i = perfs.len() - 1;
        if ratio_val_gt(p, prev.0) {
            (p, seq![i as int])
        } else if ratio_val_eq(p, prev.0) {
            (prev.0, prev.1.push(i as int))
        } else {
            prev
        }
    }
}

/// Structural facts about one pass: the running maximum is well formed and
/// dominates every element (and zero), the tie set is non-empty whenever the
/// sequence is, its entries are in-range, strictly increasing indices, and
/// each of them holds exactly the maximum value.
pub proof fn lemma_run_max_props(perfs: Seq<Ratio>)
    requires
        forall|i: int| 0 <= i < perfs.len() ==> perfs[i].wf(),
    ensures
        spec_run_max(perfs).0.wf(),
        ratio_val_ge(spec_run_max(perfs).0, spec_zero_ratio()),
        forall|i: int| 0 <= i < perfs.len() ==> ratio_val_ge(spec_run_max(perfs).0, perfs[i]),
        perfs.len() > 0 ==> spec_run_max(perfs).1.len() > 0,
        forall|k: int|
            0 <= k < spec_run_max(perfs).1.len() ==> 0 <= #[trigger] spec_run_max(perfs).1[k]
                < perfs.len(),
        forall|k1: int, k2: int|
            0 <= k1 < k2 < spec_run_max(perfs).1.len() ==> spec_run_max(perfs).1[k1] < spec_run_max(
                perfs,
            ).1[k2],
        forall|k: int|
            0 <= k < spec_run_max(perfs).1.len() ==> ratio_val_eq(
                perfs[spec_run_max(perfs).1[k]],
                spec_run_max(perfs).0,
            ),
    decreases perfs.len(),
{
    if perfs.len() > 0 {
        let prefix = perfs.drop_last();
        lemma_run_max_props(prefix);
        let prev = spec_run_max(prefix);
        let p = perfs.last();
        let i = perfs.len() - 1;
        assert(forall|j: int| 0 <= j < prefix.len() ==> prefix[j] == perfs[j]);
        if ratio_val_gt(p, prev.0) {
            assert forall|j: int| 0 <= j < perfs.len() implies ratio_val_ge(
                spec_run_max(perfs).0,
                perfs[j],
            ) by {
                if j < i {
                    lemma_ratio_ge_trans(p, prev.0, perfs[j]);
                }
            }
        } else if ratio_val_eq(p, prev.0) {
            assert(ratio_val_ge(prev.0, p));
        } else {
            // a lower value: the previous pass carries over, and since every
            // well-formed ratio is at least zero the sequence cannot have
            // been empty before this element
            assert(ratio_val_ge(p, spec_zero_ratio()));
            assert(prefix.len() > 0);
        }
    }
}

/// The tie sets are never empty for a non-empty sequence: the first element
/// already matches or exceeds the starting maximum of zero.
pub proof fn lemma_maxima_nonempty(perfs: Seq<Ratio>)
    requires
        forall|i: int| 0 <= i < perfs.len() ==> perfs[i].wf(),
        perfs.len() > 0,
    ensures
        spec_run_max(perfs).1.len() > 0,
{
    lemma_run_max_props(perfs);
}

/// Every index in the tie set held the highest value seen up to and
/// including itself at the moment it was inserted: it dominates every
/// earlier element of the sequence.
pub proof fn lemma_maxima_running_max(perfs: Seq<Ratio>)
    requires
        forall|i: int| 0 <= i < perfs.len() ==> perfs[i].wf(),
    ensures
        forall|k: int, j: int|
            0 <= k < spec_run_max(perfs).1.len() && 0 <= j <= spec_run_max(perfs).1[k]
                ==> ratio_val_ge(perfs[spec_run_max(perfs).1[k]], perfs[j]),
    decreases perfs.len(),
{
    if perfs.len() > 0 {
        let prefix = perfs.drop_last();
        lemma_maxima_running_max(prefix);
        lemma_run_max_props(prefix);
        lemma_run_max_props(perfs);
        let prev = spec_run_max(prefix);
        let p = perfs.last();
        let i = perfs.len() - 1;
        assert(forall|j: int| 0 <= j < prefix.len() ==> prefix[j] == perfs[j]);
        let s = spec_run_max(perfs).1;
        assert forall|k: int, j: int| 0 <= k < s.len() && 0 <= j <= s[k] implies ratio_val_ge(
            perfs[s[k]],
            perfs[j],
        ) by {
            if ratio_val_gt(p, prev.0) {
                // the set is exactly {i}; p beats the old maximum, which
                // dominated everything before
                if j < i {
                    lemma_ratio_ge_trans(p, prev.0, perfs[j]);
                }
            } else if ratio_val_eq(p, prev.0) {
                if s[k] == i {
                    if j < i {
                        lemma_ratio_eq_ge_trans(p, prev.0, perfs[j]);
                    }
                } else {
                    assert(prev.1[k] == s[k]);
                }
            }
        }
    }
}

/// One step of the running-maximum pass: feeds the next performance value
/// and its index to the tracker.
pub fn run_max_step(m: &mut Ratio, idxs: &mut Vec<usize>, p: Ratio, i: usize, Ghost(perfs): Ghost<
    Seq<Ratio>,
>)
    requires
        (*old(m), old(idxs)@.map_values(|u: usize| u as int)) == spec_run_max(perfs),
        i == perfs.len(),
        i < usize::MAX,
    ensures
        (*final(m), final(idxs)@.map_values(|u: usize| u as int)) == spec_run_max(perfs.push(p)),
{
    let ghost perfs2 = perfs.push(p);
    proof {
        assert(perfs2.drop_last() == perfs);
        assert(perfs2.last() == p);
    }
    if crate::ratio::ratio_gt(&p, m) {
        *m = p;
        let mut fresh: Vec<usize> = Vec::new();
        fresh.push(i);
        *idxs = fresh;
        proof {
            assert(idxs@.map_values(|u: usize| u as int) =~= seq![i as int]);
        }
    } else if crate::ratio::ratio_eq(&p, m) {
        idxs.push(i);
        proof {
            assert(idxs@.map_values(|u: usize| u as int) =~= old(idxs)@.map_values(
                |u: usize| u as int,
            ).push(i as int));
        }
    }
}

} // verus!
