//! The extraction pipeline: statement text in, records and maxima out.

use vstd::prelude::*;

use crate::builder::fold_records;
use crate::fields::{
    parse_rows, spec_parsed_rows, spec_required_tokens, spec_rows_parse_error,
};
use crate::grammar::{grammar_rows, rows_view, spec_grammar_rows, spec_min_row_tokens, BankGrammar};
use crate::maxima::{lemma_maxima_nonempty, spec_run_max};
use crate::records::{
    lemma_perfs_wf, spec_cumulative_perfs, spec_fold_error, spec_local_perfs, spec_record_at,
    ExtractionError, ExtractionResult, ParsedRow,
};
use crate::text::{spec_lines, split_lines};

verus! {

/// What an extraction of `lines` under grammar `g` must come to: the
/// parsed rows when every stage accepts, and otherwise the first error —
/// no rows surviving the structural filter, a row whose fields do not
/// parse, or a row the record fold rejects.
pub open spec fn spec_extract_outcome(lines: Seq<Seq<u8>>, g: BankGrammar) -> Result<
    Seq<ParsedRow>,
    ExtractionError,
> {
    let rows = spec_grammar_rows(lines, g);
    if rows.len() == 0 {
        Err(ExtractionError::StructuralMismatch)
    } else if spec_rows_parse_error(rows, g) is Some {
        Err(
            ExtractionError::FieldParseFailure {
                row: spec_rows_parse_error(rows, g)->Some_0.0 as usize,
                field: spec_rows_parse_error(rows, g)->Some_0.1,
            },
        )
    } else {
        let parsed = spec_parsed_rows(rows, g);
        if spec_fold_error(parsed) is Some {
            Err(
                ExtractionError::FieldParseFailure {
                    row: spec_fold_error(parsed)->Some_0.0 as usize,
                    field: spec_fold_error(parsed)->Some_0.1,
                },
            )
        } else {
            Ok(parsed)
        }
    }
}

/// Extracts the payment records and maxima tie sets from the physical
/// lines of one statement, under grammar `g`.
///
/// Fails with exactly the error that `spec_extract_outcome` gives; on
/// success, record `i` is `spec_record_at` of the parsed rows — local
/// fields from row `i`, cumulative fields the running sums — and the two
/// maxima sets are what the incremental running-maximum pass leaves, never
/// empty here since at least one row parsed.
pub fn extract_from_lines(lines: &Vec<Vec<u8>>, g: BankGrammar) -> (r: Result<
    ExtractionResult,
    ExtractionError,
>)
    ensures
        ({
            let outcome = spec_extract_outcome(lines@.map_values(|l: Vec<u8>| l@), g);
            match r {
                Ok(res) => {
                    &&& outcome is Ok
                    &&& ({
                        let parsed = outcome->Ok_0;
                        &&& res.records@.len() == parsed.len()
                        &&& res.records@.len() > 0
                        &&& forall|i: int|
                            0 <= i < parsed.len() ==> res.records@[i] == spec_record_at(parsed, i)
                        &&& forall|i: int|
                            0 <= i < parsed.len() ==> (#[trigger] res.records@[i]).wf()
                        &&& res.local_maxima@.map_values(|u: usize| u as int) == spec_run_max(
                            spec_local_perfs(parsed),
                        ).1
                        &&& res.global_maxima@.map_values(|u: usize| u as int) == spec_run_max(
                            spec_cumulative_perfs(parsed),
                        ).1
                        &&& res.local_maxima@.len() > 0
                        &&& res.global_maxima@.len() > 0
                    })
                },
                Err(e) => outcome == Err::<Seq<ParsedRow>, ExtractionError>(e),
            }
        }),
{
    let ghost lv = lines@.map_values(|l: Vec<u8>| l@);
    let rows = grammar_rows(lines, g);
    if rows.len() == 0 {
        return Err(ExtractionError::StructuralMismatch);
    }
    proof {
        assert(spec_min_row_tokens(g) >= spec_required_tokens(g));
    }
    let parsed = match parse_rows(&rows, g) {
        Ok(p) => p,
        Err(e) => {
            return Err(e);
        },
    };
    match fold_records(&parsed) {
        Ok(res) => {
            proof {
                lemma_perfs_wf(parsed@);
                lemma_maxima_nonempty(spec_local_perfs(parsed@));
                lemma_maxima_nonempty(spec_cumulative_perfs(parsed@));
            }
            Ok(res)
        },
        Err(e) => Err(e),
    }
}

/// Extracts the payment records and maxima tie sets from the raw extracted
/// text of one statement, under grammar `g`: the text is split into
/// physical lines and handed to `extract_from_lines`.
pub fn extract_from_text(text: &[u8], g: BankGrammar) -> (r: Result<
    ExtractionResult,
    ExtractionError,
>)
    ensures
        ({
            let outcome = spec_extract_outcome(spec_lines(text@), g);
            match r {
                Ok(res) => {
                    &&& outcome is Ok
                    &&& ({
                        let parsed = outcome->Ok_0;
                        &&& res.records@.len() == parsed.len()
                        &&& res.records@.len() > 0
                        &&& forall|i: int|
                            0 <= i < parsed.len() ==> res.records@[i] == spec_record_at(parsed, i)
                        &&& forall|i: int|
                            0 <= i < parsed.len() ==> (#[trigger] res.records@[i]).wf()
                        &&& res.local_maxima@.map_values(|u: usize| u as int) == spec_run_max(
                            spec_local_perfs(parsed),
                        ).1
                        &&& res.global_maxima@.map_values(|u: usize| u as int) == spec_run_max(
                            spec_cumulative_perfs(parsed),
                        ).1
                        &&& res.local_maxima@.len() > 0
                        &&& res.global_maxima@.len() > 0
                    })
                },
                Err(e) => outcome == Err::<Seq<ParsedRow>, ExtractionError>(e),
            }
        }),
{
    let lines = split_lines(text);
    extract_from_lines(&lines, g)
}

} // verus!
