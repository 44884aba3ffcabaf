//! The normalized payment records and the extraction error taxonomy.

use vstd::prelude::*;

use crate::date::Date;
use crate::ratio::Ratio;

verus! {

/// One logical row after field extraction: the due date and the two
/// monetary amounts of the period, in cents.
#[derive(Clone, Copy, PartialEq, Eq, Structural, Debug)]
pub struct ParsedRow {
    pub due_date: Date,
    pub principal: u64,
    pub interest: u64,
}

/// One normalized payment period with its running aggregates. Amounts are
/// in cents; the performance fields are exact interest-to-principal ratios
/// (their percentage value is 100 times the ratio).
#[derive(Clone, Copy, PartialEq, Eq, Structural, Debug)]
pub struct PaymentRecord {
    pub due_date: Date,
    pub local_principal: u64,
    pub local_interest: u64,
    pub local_performance: Ratio,
    pub cumulative_principal: u64,
    pub cumulative_interest: u64,
    pub cumulative_performance: Ratio,
}

impl PaymentRecord {
    /// Principals are positive (so the performance ratios are defined), and
    /// the performance fields hold exactly the ratios of the amount fields.
    pub open spec fn wf(self) -> bool {
        &&& self.local_principal > 0
        &&& self.cumulative_principal > 0
        &&& self.local_performance == Ratio { num: self.local_interest, den: self.local_principal }
        &&& self.cumulative_performance == Ratio {
            num: self.cumulative_interest,
            den: self.cumulative_principal,
        }
    }
}

/// The field of a row on which an extraction failed.
#[derive(Clone, Copy, PartialEq, Eq, Structural, Debug)]
pub enum RowField {
    DueDate,
    Principal,
    Interest,
}

/// Why an extraction failed. Every failure is terminal for the statement:
/// no partial result is produced.
#[derive(Clone, Copy, PartialEq, Eq, Structural, Debug)]
pub enum ExtractionError {
    /// The text source could not be decoded at all.
    UnreadableSource,
    /// No row survived the grammar's structural filter: most likely the
    /// wrong grammar was chosen for this statement.
    StructuralMismatch,
    /// A row that passed the structural filter has a date or amount field
    /// that does not parse, a zero principal, or an amount that does not fit
    /// the cent representation.
    FieldParseFailure { row: usize, field: RowField },
}

/// A full extraction: the record sequence in parse order and the two
/// maxima tie-index sets (indices into `records`, strictly increasing).
#[derive(Debug)]
pub struct ExtractionResult {
    pub records: Vec<PaymentRecord>,
    pub local_maxima: Vec<usize>,
    pub global_maxima: Vec<usize>,
}

/// Sum of the principal amounts of `rows`, in cents.
pub open spec fn spec_sum_principal(rows: Seq<ParsedRow>) -> int
    decreases rows.len(),
{
    if rows.len() == 0 {
        0
    } else {
        spec_sum_principal(rows.drop_last()) + rows.last().principal
    }
}

/// Sum of the interest amounts of `rows`, in cents.
pub open spec fn spec_sum_interest(rows: Seq<ParsedRow>) -> int
    decreases rows.len(),
{
    if rows.len() == 0 {
        0
    } else {
        spec_sum_interest(rows.drop_last()) + rows.last().interest
    }
}

/// The record produced for row `i`: the row's own fields, the running sums
/// over rows 0 to `i`, and the two performance ratios.
pub open spec fn spec_record_at(rows: Seq<ParsedRow>, i: int) -> PaymentRecord {
    let cp = spec_sum_principal(rows.take(i + 1));
    let ci = spec_sum_interest(rows.take(i + 1));
    PaymentRecord {
        due_date: rows[i].due_date,
        local_principal: rows[i].principal,
        local_interest: rows[i].interest,
        local_performance: Ratio { num: rows[i].interest, den: rows[i].principal },
        cumulative_principal: cp as u64,
        cumulative_interest: ci as u64,
        cumulative_performance: Ratio { num: ci as u64, den: cp as u64 },
    }
}

/// The per-period performance ratios of `rows`, in order.
pub open spec fn spec_local_perfs(rows: Seq<ParsedRow>) -> Seq<Ratio> {
    Seq::new(rows.len(), |i: int| Ratio { num: rows[i].interest, den: rows[i].principal })
}

/// The cumulative performance ratios of `rows`, in order: running interest
/// over running principal after each row.
pub open spec fn spec_cumulative_perfs(rows: Seq<ParsedRow>) -> Seq<Ratio> {
    Seq::new(
        rows.len(),
        |i: int|
            Ratio {
                num: spec_sum_interest(rows.take(i + 1)) as u64,
                den: spec_sum_principal(rows.take(i + 1)) as u64,
            },
    )
}

/// The first row, if any, on which the record fold fails, with the failing
/// field: a zero principal (the performance ratio would be undefined), or a
/// running sum that no longer fits the cent representation.
pub open spec fn spec_fold_error(rows: Seq<ParsedRow>) -> Option<(int, RowField)>
    decreases rows.len(),
{
    if rows.len() == 0 {
        None
    } else {
        let prefix = rows.drop_last();
        if spec_fold_error(prefix) is Some {
            spec_fold_error(prefix)
        } else {
            let i = rows.len() - 1;
            if rows.last().principal == 0 {
                Some((i as int, RowField::Principal))
            } else if spec_sum_principal(rows) > u64::MAX {
                Some((i as int, RowField::Principal))
            } else if spec_sum_interest(rows) > u64::MAX {
                Some((i as int, RowField::Interest))
            } else {
                None
            }
        }
    }
}

/// Sum of the local principal amounts of the first `n` records.
pub open spec fn spec_prefix_principal(recs: Seq<PaymentRecord>, n: int) -> int
    decreases n,
{
    if n <= 0 {
        0
    } else {
        spec_prefix_principal(recs, n - 1) + recs[n - 1].local_principal
    }
}

/// Sum of the local interest amounts of the first `n` records.
pub open spec fn spec_prefix_interest(recs: Seq<PaymentRecord>, n: int) -> int
    decreases n,
{
    if n <= 0 {
        0
    } else {
        spec_prefix_interest(recs, n - 1) + recs[n - 1].local_interest
    }
}

/// When the fold accepts `rows`, every prefix sum fits the cent
/// representation and every principal is positive.
pub proof fn lemma_fold_ok_sums_fit(rows: Seq<ParsedRow>)
    requires
        spec_fold_error(rows) is None,
    ensures
        forall|n: int| 0 <= n <= rows.len() ==> 0 <= spec_sum_principal(#[trigger] rows.take(n)) <= u64::MAX,
        forall|n: int| 0 <= n <= rows.len() ==> 0 <= spec_sum_interest(#[trigger] rows.take(n)) <= u64::MAX,
        forall|i: int| 0 <= i < rows.len() ==> (#[trigger] rows[i]).principal > 0,
    decreases rows.len(),
{
    assert(rows.take(0) =~= Seq::<ParsedRow>::empty());
    if rows.len() > 0 {
        let prefix = rows.drop_last();
        lemma_fold_ok_sums_fit(prefix);
        assert(forall|n: int| 0 <= n < rows.len() ==> rows.take(n) == prefix.take(n));
        assert(rows.take(rows.len() as int) == rows);
    }
}

/// In the output of an accepted fold, each record's cumulative fields are
/// exactly the sums of the local fields of the records up to and including
/// it, in parse order.
pub proof fn lemma_cumulative_are_prefix_sums(rows: Seq<ParsedRow>, recs: Seq<PaymentRecord>)
    requires
        spec_fold_error(rows) is None,
        recs.len() == rows.len(),
        forall|i: int| 0 <= i < rows.len() ==> recs[i] == spec_record_at(rows, i),
    ensures
        forall|i: int|
            0 <= i < recs.len() ==> (#[trigger] recs[i]).cumulative_principal
                == spec_prefix_principal(recs, i + 1) && recs[i].cumulative_interest
                == spec_prefix_interest(recs, i + 1),
{
    lemma_fold_ok_sums_fit(rows);
    assert forall|i: int| 0 <= i < recs.len() implies (#[trigger] recs[i]).cumulative_principal
        == spec_prefix_principal(recs, i + 1) && recs[i].cumulative_interest
        == spec_prefix_interest(recs, i + 1) by {
        lemma_prefix_sums_agree(rows, recs, i + 1);
    }
}

/// The prefix sums over the produced records equal the row sums.
proof fn lemma_prefix_sums_agree(rows: Seq<ParsedRow>, recs: Seq<PaymentRecord>, n: int)
    requires
        0 <= n <= rows.len(),
        recs.len() == rows.len(),
        forall|i: int| 0 <= i < rows.len() ==> recs[i] == spec_record_at(rows, i),
    ensures
        spec_prefix_principal(recs, n) == spec_sum_principal(rows.take(n)),
        spec_prefix_interest(recs, n) == spec_sum_interest(rows.take(n)),
    decreases n,
{
    if n == 0 {
        assert(rows.take(0) =~= Seq::<ParsedRow>::empty());
    } else {
        lemma_prefix_sums_agree(rows, recs, n - 1);
        assert(rows.take(n).drop_last() == rows.take(n - 1));
        assert(rows.take(n).last() == rows[n - 1]);
    }
}

/// When the fold accepts `rows`, every performance ratio — local and
/// cumulative — has a positive denominator.
pub proof fn lemma_perfs_wf(rows: Seq<ParsedRow>)
    requires
        spec_fold_error(rows) is None,
    ensures
        forall|i: int| 0 <= i < rows.len() ==> (#[trigger] spec_local_perfs(rows)[i]).wf(),
        forall|i: int| 0 <= i < rows.len() ==> (#[trigger] spec_cumulative_perfs(rows)[i]).wf(),
{
    lemma_fold_ok_sums_fit(rows);
    assert forall|i: int| 0 <= i < rows.len() implies (#[trigger] spec_cumulative_perfs(
        rows,
    )[i]).wf() by {
        assert(rows.take(i + 1).drop_last() == rows.take(i));
        assert(rows.take(i + 1).last() == rows[i]);
        assert(spec_sum_principal(rows.take(i + 1)) == spec_sum_principal(rows.take(i))
            + rows[i].principal);
    }
}

/// An error found in a prefix is the error of the whole sequence.
pub proof fn lemma_fold_error_prefix(rows: Seq<ParsedRow>, n: int)
    requires
        0 <= n <= rows.len(),
        spec_fold_error(rows.take(n)) is Some,
    ensures
        spec_fold_error(rows) == spec_fold_error(rows.take(n)),
    decreases rows.len(),
{
    if n < rows.len() {
        let prefix = rows.drop_last();
        assert(prefix.take(n) == rows.take(n));
        lemma_fold_error_prefix(prefix, n);
    } else {
        assert(rows.take(n) == rows);
    }
}

} // verus!
