//! The record builder: a single forward pass over parsed rows that yields
//! the normalized records together with both maxima tie sets.

use vstd::prelude::*;

use crate::maxima::{run_max_step, spec_run_max};
use crate::ratio::Ratio;
use crate::records::{
    lemma_fold_error_prefix, spec_cumulative_perfs, spec_fold_error, spec_local_perfs,
    spec_record_at, spec_sum_interest, spec_sum_principal, ExtractionError, ExtractionResult,
    ParsedRow, PaymentRecord, RowField,
};

verus! {

/// Folds the parsed rows, in order, into payment records with running sums,
/// tracking the local and the cumulative performance maxima incrementally.
///
/// Succeeds exactly when no row has a zero principal and every running sum
/// fits the cent representation; the first offending row otherwise gives the
/// error, as `spec_fold_error` describes. On success, record `i` is exactly
/// `spec_record_at(rows, i)` — its cumulative fields are the sums of the
/// local fields of rows 0 to `i` — and the two index sets are exactly what
/// the incremental running-maximum pass (`spec_run_max`) leaves behind.
pub fn fold_records(rows: &Vec<ParsedRow>) -> (r: Result<ExtractionResult, ExtractionError>)
    ensures
        match r {
            Ok(res) => {
                &&& spec_fold_error(rows@) is None
                &&& res.records@.len() == rows@.len()
                &&& forall|i: int|
                    0 <= i < rows@.len() ==> res.records@[i] == spec_record_at(rows@, i)
                &&& forall|i: int| 0 <= i < rows@.len() ==> (#[trigger] res.records@[i]).wf()
                &&& res.local_maxima@.map_values(|u: usize| u as int) == spec_run_max(
                    spec_local_perfs(rows@),
                ).1
                &&& res.global_maxima@.map_values(|u: usize| u as int) == spec_run_max(
                    spec_cumulative_perfs(rows@),
                ).1
            },
            Err(e) => {
                &&& spec_fold_error(rows@) is Some
                &&& e == ExtractionError::FieldParseFailure {
                    row: spec_fold_error(rows@)->Some_0.0 as usize,
                    field: spec_fold_error(rows@)->Some_0.1,
                }
            },
        },
{
    let mut records: Vec<PaymentRecord> = Vec::new();
    let mut cp: u64 = 0;
    let mut ci: u64 = 0;
    let mut local_max: Ratio = Ratio { num: 0, den: 1 };
    let mut local_idxs: Vec<usize> = Vec::new();
    let mut global_max: Ratio = Ratio { num: 0, den: 1 };
    let mut global_idxs: Vec<usize> = Vec::new();
    let mut i: usize = 0;
    proof {
        assert(spec_local_perfs(rows@.take(0)) =~= Seq::<Ratio>::empty());
        assert(spec_cumulative_perfs(rows@.take(0)) =~= Seq::<Ratio>::empty());
        assert(local_idxs@.map_values(|u: usize| u as int) =~= Seq::<int>::empty());
    }
    while i < rows.len()
        invariant
            0 <= i <= rows@.len(),
            spec_fold_error(rows@.take(i as int)) is None,
            cp == spec_sum_principal(rows@.take(i as int)),
            ci == spec_sum_interest(rows@.take(i as int)),
            records@.len() == i,
            forall|j: int| 0 <= j < i ==> records@[j] == spec_record_at(rows@, j),
            forall|j: int| 0 <= j < i ==> (#[trigger] records@[j]).wf(),
            (local_max, local_idxs@.map_values(|u: usize| u as int)) == spec_run_max(
                spec_local_perfs(rows@.take(i as int)),
            ),
            (global_max, global_idxs@.map_values(|u: usize| u as int)) == spec_run_max(
                spec_cumulative_perfs(rows@.take(i as int)),
            ),
        decreases rows@.len() - i,
    {
        let row = rows[i];
        let ghost pre = rows@.take(i as int);
        let ghost cur = rows@.take(i + 1 as int);
        proof {
            assert(cur.drop_last() == pre);
            assert(cur.last() == rows@[i as int]);
        }
        if row.principal == 0 {
            proof {
                assert(spec_fold_error(cur) == Some((i as int, RowField::Principal)));
                lemma_fold_error_prefix(rows@, i + 1);
            }
            return Err(ExtractionError::FieldParseFailure { row: i, field: RowField::Principal });
        }
        let cp2 = match cp.checked_add(row.principal) {
            Some(v) => v,
            None => {
                proof {
                    assert(spec_fold_error(cur) == Some((i as int, RowField::Principal)));
                    lemma_fold_error_prefix(rows@, i + 1);
                }
                return Err(
                    ExtractionError::FieldParseFailure { row: i, field: RowField::Principal },
                );
            },
        };
        let ci2 = match ci.checked_add(row.interest) {
            Some(v) => v,
            None => {
                proof {
                    assert(spec_fold_error(cur) == Some((i as int, RowField::Interest)));
                    lemma_fold_error_prefix(rows@, i + 1);
                }
                return Err(
                    ExtractionError::FieldParseFailure { row: i, field: RowField::Interest },
                );
            },
        };
        cp = cp2;
        ci = ci2;
        let local_perf = Ratio { num: row.interest, den: row.principal };
        let global_perf = Ratio { num: ci, den: cp };
        proof {
            assert(spec_local_perfs(cur) =~= spec_local_perfs(pre).push(local_perf)) by {
                assert(forall|j: int| 0 <= j < pre.len() ==> #[trigger] cur.take(j + 1) == pre.take(j + 1));
                assert(cur.take(i + 1 as int) == cur);
            }
            assert(spec_cumulative_perfs(cur) =~= spec_cumulative_perfs(pre).push(global_perf))
                by {
                assert(forall|j: int| 0 <= j < pre.len() ==> #[trigger] cur.take(j + 1) == pre.take(j + 1));
                assert(cur.take(i + 1 as int) == cur);
            }
            assert(spec_local_perfs(pre).len() == i);
            assert(spec_cumulative_perfs(pre).len() == i);
        }
        run_max_step(
            &mut local_max,
            &mut local_idxs,
            local_perf,
            i,
            Ghost(spec_local_perfs(rows@.take(i as int))),
        );
        run_max_step(
            &mut global_max,
            &mut global_idxs,
            global_perf,
            i,
            Ghost(spec_cumulative_perfs(rows@.take(i as int))),
        );
        let rec = PaymentRecord {
            due_date: row.due_date,
            local_principal: row.principal,
            local_interest: row.interest,
            local_performance: local_perf,
            cumulative_principal: cp,
            cumulative_interest: ci,
            cumulative_performance: global_perf,
        };
        records.push(rec);
        proof {
            assert(spec_fold_error(cur) is None);
            assert(rec == spec_record_at(rows@, i as int));
            assert(rec.wf());
        }
        i = i + 1;
    }
    proof {
        assert(rows@.take(rows@.len() as int) == rows@);
    }
    Ok(
        ExtractionResult {
            records,
            local_maxima: local_idxs,
            global_maxima: global_idxs,
        },
    )
}

} // verus!
