//! Field extraction: from the token row of one payment period to its
//! parsed date and amounts, under each grammar's field mapping.

use vstd::prelude::*;

use crate::amount::{parse_amount_cents, spec_amount_cents};
use crate::date::{
    date_of_dotted_form, date_of_text_form, parse_date_dotted_form, parse_date_text_form, Date,
};
use crate::grammar::{rows_view, toks_view, BankGrammar};
use crate::records::{ExtractionError, ParsedRow, RowField};
use crate::text::{join_space, spec_join_space, spec_strip_commas, strip_commas};

verus! {

/// How many tokens a row must have for the field mapping of grammar `g` to
/// be readable. Every row a grammar produces has at least this many.
pub open spec fn spec_required_tokens(g: BankGrammar) -> int {
    match g {
        BankGrammar::DateAnchored => 7,
        BankGrammar::PairedLines => 6,
        BankGrammar::FixedWidth => 6,
    }
}

/// The bytes whose date parse gives the row's due date: the first three
/// tokens joined for the date-anchored layout, a single token otherwise.
pub open spec fn spec_date_input(row: Seq<Seq<u8>>, g: BankGrammar) -> Seq<u8> {
    match g {
        BankGrammar::DateAnchored => spec_join_space(row, 0, 3),
        BankGrammar::PairedLines => row[1],
        BankGrammar::FixedWidth => row[0],
    }
}

/// The due date of the row, under the date form the layout uses.
pub open spec fn spec_row_date(row: Seq<Seq<u8>>, g: BankGrammar) -> Option<(int, int, int)> {
    match g {
        BankGrammar::DateAnchored => date_of_text_form(spec_date_input(row, g)),
        BankGrammar::PairedLines => date_of_dotted_form(spec_date_input(row, g)),
        BankGrammar::FixedWidth => date_of_dotted_form(spec_date_input(row, g)),
    }
}

/// The principal amount of the row, in cents. Only the date-anchored
/// layout writes thousands separators, so only there are commas stripped.
pub open spec fn spec_row_principal(row: Seq<Seq<u8>>, g: BankGrammar) -> Option<int> {
    match g {
        BankGrammar::DateAnchored => spec_amount_cents(spec_strip_commas(row[4])),
        BankGrammar::PairedLines => spec_amount_cents(row[4]),
        BankGrammar::FixedWidth => spec_amount_cents(row[3]),
    }
}

/// The interest amount of the row, in cents. The fixed-width layout
/// reports interest as two separate charges — pure interest and an
/// insurance component — whose sum is the period's interest.
pub open spec fn spec_row_interest(row: Seq<Seq<u8>>, g: BankGrammar) -> Option<int> {
    match g {
        BankGrammar::DateAnchored => spec_amount_cents(spec_strip_commas(row[6])),
        BankGrammar::PairedLines => spec_amount_cents(row[5]),
        BankGrammar::FixedWidth => {
            if spec_amount_cents(row[2]) is Some && spec_amount_cents(row[5]) is Some {
                Some(spec_amount_cents(row[2])->Some_0 + spec_amount_cents(row[5])->Some_0)
            } else {
                None
            }
        },
    }
}

/// The date a `(year, month, day)` triple denotes.
pub open spec fn spec_date_from_triple(t: (int, int, int)) -> Date {
    Date { year: t.0 as i32, month: t.1 as u8, day: t.2 as u8 }
}

/// The parsed fields of the row, or the first field (in date, principal,
/// interest order) that does not parse or does not fit the cent
/// representation.
pub open spec fn spec_parse_row(row: Seq<Seq<u8>>, g: BankGrammar) -> Result<ParsedRow, RowField> {
    if spec_row_date(row, g) is None {
        Err(RowField::DueDate)
    } else if !(spec_row_principal(row, g) matches Some(p) && p <= u64::MAX) {
        Err(RowField::Principal)
    } else if !(spec_row_interest(row, g) matches Some(v) && v <= u64::MAX) {
        Err(RowField::Interest)
    } else {
        Ok(
            ParsedRow {
                due_date: spec_date_from_triple(spec_row_date(row, g)->Some_0),
                principal: spec_row_principal(row, g)->Some_0 as u64,
                interest: spec_row_interest(row, g)->Some_0 as u64,
            },
        )
    }
}

/// Extracts the due date and the two amounts from one token row under
/// grammar `g`, exactly as `spec_parse_row` describes.
pub fn parse_row(row: &Vec<Vec<u8>>, g: BankGrammar) -> (r: Result<ParsedRow, RowField>)
    requires
        toks_view(*row).len() >= spec_required_tokens(g),
    ensures
        r == spec_parse_row(toks_view(*row), g),
{
    let ghost rv = toks_view(*row);
    let date_opt = match g {
        BankGrammar::DateAnchored => {
            let probe = join_space(row, 0, 3);
            parse_date_text_form(probe.as_slice())
        },
        BankGrammar::PairedLines => parse_date_dotted_form(row[1].as_slice()),
        BankGrammar::FixedWidth => parse_date_dotted_form(row[0].as_slice()),
    };
    let d = match date_opt {
        Some(d) => d,
        None => {
            return Err(RowField::DueDate);
        },
    };
    let p_opt = match g {
        BankGrammar::DateAnchored => {
            let stripped = strip_commas(row[4].as_slice());
            parse_amount_cents(stripped.as_slice())
        },
        BankGrammar::PairedLines => parse_amount_cents(row[4].as_slice()),
        BankGrammar::FixedWidth => parse_amount_cents(row[3].as_slice()),
    };
    let p = match p_opt {
        Some(p) => p,
        None => {
            return Err(RowField::Principal);
        },
    };
    let i_opt: Option<u64> = match g {
        BankGrammar::DateAnchored => {
            let stripped = strip_commas(row[6].as_slice());
            parse_amount_cents(stripped.as_slice())
        },
        BankGrammar::PairedLines => parse_amount_cents(row[5].as_slice()),
        BankGrammar::FixedWidth => {
            let pure_interest = parse_amount_cents(row[2].as_slice());
            let insurance = parse_amount_cents(row[5].as_slice());
            match (pure_interest, insurance) {
                (Some(a), Some(b)) => a.checked_add(b),
                _ => None,
            }
        },
    };
    let iv = match i_opt {
        Some(v) => v,
        None => {
            return Err(RowField::Interest);
        },
    };
    Ok(ParsedRow { due_date: d, principal: p, interest: iv })
}

/// The first row, if any, whose fields do not parse under grammar `g`,
/// with the failing field.
pub open spec fn spec_rows_parse_error(rows: Seq<Seq<Seq<u8>>>, g: BankGrammar) -> Option<
    (int, RowField),
>
    decreases rows.len(),
{
    if rows.len() == 0 {
        None
    } else {
        let prefix = rows.drop_last();
        if spec_rows_parse_error(prefix, g) is Some {
            spec_rows_parse_error(prefix, g)
        } else {
            match spec_parse_row(rows.last(), g) {
                Ok(_) => None,
                Err(f) => Some(((rows.len() - 1) as int, f)),
            }
        }
    }
}

/// The parsed rows, row by row; meaningful when no row fails.
pub open spec fn spec_parsed_rows(rows: Seq<Seq<Seq<u8>>>, g: BankGrammar) -> Seq<ParsedRow> {
    Seq::new(rows.len(), |i: int| spec_parse_row(rows[i], g)->Ok_0)
}

/// A parse error found in a prefix is the error of the whole sequence.
pub proof fn lemma_rows_parse_error_prefix(rows: Seq<Seq<Seq<u8>>>, g: BankGrammar, n: int)
    requires
        0 <= n <= rows.len(),
        spec_rows_parse_error(rows.take(n), g) is Some,
    ensures
        spec_rows_parse_error(rows, g) == spec_rows_parse_error(rows.take(n), g),
    decreases rows.len(),
{
    if n < rows.len() {
        let prefix = rows.drop_last();
        assert(prefix.take(n) == rows.take(n));
        lemma_rows_parse_error_prefix(prefix, g, n);
    } else {
        assert(rows.take(n) == rows);
    }
}

/// Parses every token row under grammar `g`, in order, stopping at the
/// first row whose fields do not parse.
pub fn parse_rows(rows: &Vec<Vec<Vec<u8>>>, g: BankGrammar) -> (r: Result<
    Vec<ParsedRow>,
    ExtractionError,
>)
    requires
        forall|k: int|
            0 <= k < rows_view(*rows).len() ==> (#[trigger] rows_view(*rows)[k]).len()
                >= spec_required_tokens(g),
    ensures
        match r {
            Ok(out) => {
                &&& spec_rows_parse_error(rows_view(*rows), g) is None
                &&& out@ == spec_parsed_rows(rows_view(*rows), g)
            },
            Err(e) => {
                &&& spec_rows_parse_error(rows_view(*rows), g) is Some
                &&& e == ExtractionError::FieldParseFailure {
                    row: spec_rows_parse_error(rows_view(*rows), g)->Some_0.0 as usize,
                    field: spec_rows_parse_error(rows_view(*rows), g)->Some_0.1,
                }
            },
        },
{
    let ghost rv = rows_view(*rows);
    let mut out: Vec<ParsedRow> = Vec::new();
    let mut i: usize = 0;
    proof {
        assert(rv.take(0) =~= Seq::<Seq<Seq<u8>>>::empty());
    }
    while i < rows.len()
        invariant
            0 <= i <= rows@.len(),
            rv == rows_view(*rows),
            rv.len() == rows@.len(),
            forall|k: int|
                0 <= k < rv.len() ==> (#[trigger] rv[k]).len() >= spec_required_tokens(g),
            spec_rows_parse_error(rv.take(i as int), g) is None,
            out@.len() == i,
            forall|j: int| 0 <= j < i ==> out@[j] == spec_parse_row(rv[j], g)->Ok_0,
            forall|j: int| 0 <= j < i ==> spec_parse_row(#[trigger] rv[j], g) is Ok,
        decreases rows@.len() - i,
    {
        let ghost cur = rv.take(i + 1 as int);
        proof {
            assert(cur.drop_last() == rv.take(i as int));
            assert(cur.last() == rv[i as int]);
            assert(toks_view(rows@[i as int]) == rv[i as int]);
        }
        match parse_row(&rows[i], g) {
            Ok(pr) => {
                out.push(pr);
            },
            Err(f) => {
                proof {
                    assert(spec_rows_parse_error(cur, g) == Some((i as int, f)));
                    lemma_rows_parse_error_prefix(rv, g, i + 1);
                }
                return Err(ExtractionError::FieldParseFailure { row: i, field: f });
            },
        }
        i = i + 1;
    }
    proof {
        assert(rv.take(rv.len() as int) == rv);
        assert(out@ =~= spec_parsed_rows(rv, g));
    }
    Ok(out)
}

} // verus!
