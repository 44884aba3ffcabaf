//! The bank statement grammars: each turns the raw line sequence of one
//! statement layout into the ordered token rows of its logical payment
//! periods, discarding headers, footers and noise.

use vstd::prelude::*;

use crate::date::{date_of_dotted_form, date_of_text_form, parse_date_dotted_form,
    parse_date_text_form};
use crate::text::{
    join_space, spec_join_space, spec_starts_with, spec_tokens, starts_with_bytes, tokens_of,
};

verus! {

/// The token sequences of a tokenized row.
pub open spec fn toks_view(r: Vec<Vec<u8>>) -> Seq<Seq<u8>> {
    r@.map_values(|t: Vec<u8>| t@)
}

/// The token-row sequences of a row list.
pub open spec fn rows_view(rs: Vec<Vec<Vec<u8>>>) -> Seq<Seq<Seq<u8>>> {
    rs@.map_values(|r: Vec<Vec<u8>>| toks_view(r))
}

/// The statement layouts this crate understands.
#[derive(Clone, Copy, PartialEq, Eq, Structural, Debug)]
pub enum BankGrammar {
    /// Rows are anchored by a textual date (`day month-name year`) at the
    /// start of a line; a logical row runs from one anchor to the next and
    /// must have at least 19 tokens.
    DateAnchored,
    /// A fixed six-line preamble and repeated header lines are dropped,
    /// whitespace is collapsed, and consecutive lines are merged two at a
    /// time; a merged row must have at least 6 tokens.
    PairedLines,
    /// A row is a single line of exactly 6 tokens whose first token is a
    /// dotted date (`day.month.year`).
    FixedWidth,
}

/// The token rows, from merged row `j` on, of the merged rows that have at
/// least `min` tokens.
pub open spec fn spec_rows_min_from(ms: Seq<Seq<u8>>, min: int, j: int) -> Seq<Seq<Seq<u8>>>
    decreases ms.len() - j,
        when 0 <= j <= ms.len()
{
    if j >= ms.len() {
        Seq::empty()
    } else {
        let toks = spec_tokens(ms[j]);
        if toks.len() >= min {
            seq![toks] + spec_rows_min_from(ms, min, j + 1)
        } else {
            spec_rows_min_from(ms, min, j + 1)
        }
    }
}

/// Every row the filter keeps has at least `min` tokens.
pub proof fn lemma_rows_min_from_len(ms: Seq<Seq<u8>>, min: int, j: int)
    requires
        0 <= j <= ms.len(),
    ensures
        forall|k: int|
            0 <= k < spec_rows_min_from(ms, min, j).len() ==> (#[trigger] spec_rows_min_from(
                ms,
                min,
                j,
            )[k]).len() >= min,
    decreases ms.len() - j,
{
    if j < ms.len() {
        lemma_rows_min_from_len(ms, min, j + 1);
        let toks = spec_tokens(ms[j]);
        assert forall|k: int| 0 <= k < spec_rows_min_from(ms, min, j).len() implies (
        #[trigger] spec_rows_min_from(ms, min, j)[k]).len() >= min by {
            if toks.len() >= min {
                if k > 0 {
                    assert(spec_rows_min_from(ms, min, j)[k] == spec_rows_min_from(
                        ms,
                        min,
                        j + 1,
                    )[k - 1]);
                }
            } else {
                assert(spec_rows_min_from(ms, min, j)[k] == spec_rows_min_from(ms, min, j + 1)[k]);
            }
        }
    }
}

/// Tokenizes the merged rows and keeps those with at least `min` tokens.
fn rows_with_min_tokens(ms: &Vec<Vec<u8>>, min: usize) -> (r: Vec<Vec<Vec<u8>>>)
    ensures
        rows_view(r) == spec_rows_min_from(ms@.map_values(|l: Vec<u8>| l@), min as int, 0),
{
    let ghost msv = ms@.map_values(|l: Vec<u8>| l@);
    let mut r: Vec<Vec<Vec<u8>>> = Vec::new();
    let mut j: usize = 0;
    proof {
        assert(rows_view(r) =~= Seq::<Seq<Seq<u8>>>::empty());
    }
    while j < ms.len()
        invariant
            0 <= j <= ms@.len(),
            msv == ms@.map_values(|l: Vec<u8>| l@),
            spec_rows_min_from(msv, min as int, 0) == rows_view(r) + spec_rows_min_from(
                msv,
                min as int,
                j as int,
            ),
        decreases ms@.len() - j,
    {
        let toks = tokens_of(ms[j].as_slice());
        if toks.len() >= min {
            let ghost toksv = toks_view(toks);
            let ghost r_old = r@;
            r.push(toks);
            proof {
                assert(rows_view(r) =~= r_old.map_values(|x: Vec<Vec<u8>>| toks_view(x)).push(
                    toksv,
                ));
            }
        }
        j = j + 1;
    }
    r
}

/// A fixed-width row line: exactly 6 tokens, the first of which is a
/// dotted date.
pub open spec fn spec_is_row_fixed(l: Seq<u8>) -> bool {
    spec_tokens(l).len() == 6 && date_of_dotted_form(spec_tokens(l)[0]) is Some
}

/// The token rows of the fixed-width layout, from line `i` on: the tokens
/// of each line that is a row line.
pub open spec fn spec_rows_fixed_from(lines: Seq<Seq<u8>>, i: int) -> Seq<Seq<Seq<u8>>>
    decreases lines.len() - i,
        when 0 <= i <= lines.len()
{
    if i >= lines.len() {
        Seq::empty()
    } else if spec_is_row_fixed(lines[i]) {
        seq![spec_tokens(lines[i])] + spec_rows_fixed_from(lines, i + 1)
    } else {
        spec_rows_fixed_from(lines, i + 1)
    }
}

/// Every kept fixed-width row has exactly 6 tokens.
pub proof fn lemma_rows_fixed_from_len(lines: Seq<Seq<u8>>, i: int)
    requires
        0 <= i <= lines.len(),
    ensures
        forall|k: int|
            0 <= k < spec_rows_fixed_from(lines, i).len() ==> (#[trigger] spec_rows_fixed_from(
                lines,
                i,
            )[k]).len() == 6,
    decreases lines.len() - i,
{
    if i < lines.len() {
        lemma_rows_fixed_from_len(lines, i + 1);
        assert forall|k: int| 0 <= k < spec_rows_fixed_from(lines, i).len() implies (
        #[trigger] spec_rows_fixed_from(lines, i)[k]).len() == 6 by {
            if spec_is_row_fixed(lines[i]) {
                if k > 0 {
                    assert(spec_rows_fixed_from(lines, i)[k] == spec_rows_fixed_from(
                        lines,
                        i + 1,
                    )[k - 1]);
                }
            } else {
                assert(spec_rows_fixed_from(lines, i)[k] == spec_rows_fixed_from(lines, i + 1)[k]);
            }
        }
    }
}

/// The fixed-width grammar: keeps the lines of exactly 6 tokens whose first
/// token parses as a dotted date, as `spec_rows_fixed_from` describes.
fn rows_fixed_width(lines: &Vec<Vec<u8>>) -> (r: Vec<Vec<Vec<u8>>>)
    ensures
        rows_view(r) == spec_rows_fixed_from(lines@.map_values(|l: Vec<u8>| l@), 0),
{
    let ghost lv = lines@.map_values(|l: Vec<u8>| l@);
    let mut r: Vec<Vec<Vec<u8>>> = Vec::new();
    let mut i: usize = 0;
    proof {
        assert(rows_view(r) =~= Seq::<Seq<Seq<u8>>>::empty());
    }
    while i < lines.len()
        invariant
            0 <= i <= lines@.len(),
            lv == lines@.map_values(|l: Vec<u8>| l@),
            spec_rows_fixed_from(lv, 0) == rows_view(r) + spec_rows_fixed_from(lv, i as int),
        decreases lines@.len() - i,
    {
        let toks = tokens_of(lines[i].as_slice());
        if toks.len() == 6 && parse_date_dotted_form(toks[0].as_slice()).is_some() {
            let ghost toksv = toks_view(toks);
            let ghost r_old = r@;
            r.push(toks);
            proof {
                assert(rows_view(r) =~= r_old.map_values(|x: Vec<Vec<u8>>| toks_view(x)).push(
                    toksv,
                ));
            }
        }
        i = i + 1;
    }
    r
}

/// The header-repeat marker `"Nr"`.
pub open spec fn spec_marker_nr() -> Seq<u8> {
    seq![0x4Eu8, 0x72u8]
}

/// The header-repeat marker `"rata"`.
pub open spec fn spec_marker_rata() -> Seq<u8> {
    seq![0x72u8, 0x61u8, 0x74u8, 0x61u8]
}

/// A line the paired-lines layout keeps: non-empty and not starting with
/// either header-repeat marker.
pub open spec fn spec_keep_paired(l: Seq<u8>) -> bool {
    l.len() > 0 && !spec_starts_with(l, spec_marker_nr()) && !spec_starts_with(
        l,
        spec_marker_rata(),
    )
}

/// A line with every run of internal whitespace collapsed to one space and
/// outer whitespace removed: its tokens joined with single spaces.
pub open spec fn spec_collapse(l: Seq<u8>) -> Seq<u8> {
    spec_join_space(spec_tokens(l), 0, spec_tokens(l).len() as int)
}

/// The kept, collapsed lines of the paired-lines layout from line `i` on.
pub open spec fn spec_kept_paired_from(lines: Seq<Seq<u8>>, i: int) -> Seq<Seq<u8>>
    decreases lines.len() - i,
        when 0 <= i <= lines.len()
{
    if i >= lines.len() {
        Seq::empty()
    } else if spec_keep_paired(lines[i]) {
        seq![spec_collapse(lines[i])] + spec_kept_paired_from(lines, i + 1)
    } else {
        spec_kept_paired_from(lines, i + 1)
    }
}

/// Consecutive lines merged two at a time, non-overlapping and in order,
/// with a single space between the two halves; a trailing odd line stands
/// alone.
pub open spec fn spec_pair_merge(ls: Seq<Seq<u8>>) -> Seq<Seq<u8>>
    decreases ls.len(),
{
    if ls.len() == 0 {
        Seq::empty()
    } else if ls.len() == 1 {
        seq![ls[0]]
    } else {
        seq![ls[0] + seq![0x20u8] + ls[1]] + spec_pair_merge(ls.skip(2))
    }
}

/// Where the paired-lines layout starts reading: after the six preamble
/// lines, or nowhere when the text is shorter than that.
pub open spec fn spec_paired_start(lines: Seq<Seq<u8>>) -> int {
    if lines.len() < 6 {
        lines.len() as int
    } else {
        6
    }
}

/// The token rows of the paired-lines layout: preamble dropped, marker and
/// empty lines dropped, whitespace collapsed, lines merged in pairs, and
/// only merged rows of at least 6 tokens kept.
pub open spec fn spec_rows_paired(lines: Seq<Seq<u8>>) -> Seq<Seq<Seq<u8>>> {
    spec_rows_min_from(
        spec_pair_merge(spec_kept_paired_from(lines, spec_paired_start(lines))),
        6,
        0,
    )
}

/// `a`, a single space, then `b`.
fn concat_with_space(a: &[u8], b: &[u8]) -> (r: Vec<u8>)
    ensures
        r@ == a@ + seq![0x20u8] + b@,
{
    let mut r: Vec<u8> = Vec::new();
    let mut i: usize = 0;
    while i < a.len()
        invariant
            0 <= i <= a@.len(),
            r@ == a@.subrange(0, i as int),
        decreases a@.len() - i,
    {
        r.push(a[i]);
        proof {
            assert(a@.subrange(0, i + 1 as int) == a@.subrange(0, i as int).push(a@[i as int]));
        }
        i = i + 1;
    }
    proof {
        assert(a@.subrange(0, a@.len() as int) == a@);
    }
    r.push(0x20);
    let ghost mid = r@;
    let mut j: usize = 0;
    while j < b.len()
        invariant
            0 <= j <= b@.len(),
            r@ == mid + b@.subrange(0, j as int),
        decreases b@.len() - j,
    {
        r.push(b[j]);
        proof {
            assert(b@.subrange(0, j + 1 as int) == b@.subrange(0, j as int).push(b@[j as int]));
        }
        j = j + 1;
    }
    proof {
        assert(b@.subrange(0, b@.len() as int) == b@);
        assert(r@ == a@ + seq![0x20u8] + b@);
    }
    r
}

/// The paired-lines grammar, as `spec_rows_paired` describes.
fn rows_paired_lines(lines: &Vec<Vec<u8>>) -> (r: Vec<Vec<Vec<u8>>>)
    ensures
        rows_view(r) == spec_rows_paired(lines@.map_values(|l: Vec<u8>| l@)),
{
    let ghost lv = lines@.map_values(|l: Vec<u8>| l@);
    let mut marker_nr: Vec<u8> = Vec::new();
    marker_nr.push(0x4E);
    marker_nr.push(0x72);
    let mut marker_rata: Vec<u8> = Vec::new();
    marker_rata.push(0x72);
    marker_rata.push(0x61);
    marker_rata.push(0x74);
    marker_rata.push(0x61);
    proof {
        assert(marker_nr@ =~= spec_marker_nr());
        assert(marker_rata@ =~= spec_marker_rata());
    }
    // drop the preamble, drop marker and empty lines, collapse whitespace
    let mut kept: Vec<Vec<u8>> = Vec::new();
    let start: usize = if lines.len() < 6 {
        lines.len()
    } else {
        6
    };
    let mut i: usize = start;
    proof {
        assert(kept@.map_values(|l: Vec<u8>| l@) =~= Seq::<Seq<u8>>::empty());
    }
    while i < lines.len()
        invariant
            spec_paired_start(lv) <= i <= lines@.len(),
            lv == lines@.map_values(|l: Vec<u8>| l@),
            marker_nr@ == spec_marker_nr(),
            marker_rata@ == spec_marker_rata(),
            spec_kept_paired_from(lv, spec_paired_start(lv)) == kept@.map_values(|l: Vec<u8>| l@)
                + spec_kept_paired_from(lv, i as int),
        decreases lines@.len() - i,
    {
        let line = lines[i].as_slice();
        if line.len() > 0 && !starts_with_bytes(line, marker_nr.as_slice())
            && !starts_with_bytes(line, marker_rata.as_slice()) {
            let toks = tokens_of(line);
            let collapsed = if toks.len() == 0 {
                Vec::new()
            } else {
                join_space(&toks, 0, toks.len())
            };
            proof {
                assert(collapsed@ == spec_collapse(lv[i as int]));
            }
            let ghost kept_old = kept@;
            kept.push(collapsed);
            proof {
                assert(kept@.map_values(|l: Vec<u8>| l@) =~= kept_old.map_values(
                    |l: Vec<u8>| l@,
                ).push(spec_collapse(lv[i as int])));
                assert(kept_old.map_values(|l: Vec<u8>| l@) + (seq![spec_collapse(lv[i as int])]
                    + spec_kept_paired_from(lv, i + 1)) =~= kept@.map_values(|l: Vec<u8>| l@)
                    + spec_kept_paired_from(lv, i + 1));
            }
        }
        i = i + 1;
    }
    // merge consecutive lines two at a time
    let ghost kv = kept@.map_values(|l: Vec<u8>| l@);
    let mut merged: Vec<Vec<u8>> = Vec::new();
    let mut j: usize = 0;
    proof {
        assert(merged@.map_values(|l: Vec<u8>| l@) =~= Seq::<Seq<u8>>::empty());
        assert(kv.skip(0) == kv);
    }
    while j < kept.len()
        invariant
            0 <= j <= kept@.len(),
            kv == kept@.map_values(|l: Vec<u8>| l@),
            spec_pair_merge(kv) == merged@.map_values(|l: Vec<u8>| l@) + spec_pair_merge(
                kv.skip(j as int),
            ),
        decreases kept@.len() - j,
    {
        let ghost merged_old = merged@;
        if j + 1 < kept.len() {
            let m = concat_with_space(kept[j].as_slice(), kept[j + 1].as_slice());
            merged.push(m);
            proof {
                assert(kv.skip(j as int).skip(2) == kv.skip(j + 2));
                assert(kv.skip(j as int)[0] == kv[j as int]);
                assert(kv.skip(j as int)[1] == kv[j + 1]);
                assert(merged@.map_values(|l: Vec<u8>| l@) =~= merged_old.map_values(
                    |l: Vec<u8>| l@,
                ).push(kv[j as int] + seq![0x20u8] + kv[j + 1]));
            }
            j = j + 2;
        } else {
            let m = kept[j].clone();
            merged.push(m);
            proof {
                assert(kv.skip(j as int).len() == 1);
                assert(kv.skip(j as int)[0] == kv[j as int]);
                assert(merged@.map_values(|l: Vec<u8>| l@) =~= merged_old.map_values(
                    |l: Vec<u8>| l@,
                ).push(kv[j as int]));
                assert(kv.skip(j + 1).len() == 0);
            }
            j = j + 1;
        }
    }
    // keep merged rows of at least 6 tokens, tokenized
    let r = rows_with_min_tokens(&merged, 6);
    proof {
        assert(kv.skip(kv.len() as int).len() == 0);
    }
    r
}

/// The byte string whose date parse decides whether a line anchors a row:
/// the line's first three tokens joined with single spaces.
pub open spec fn spec_anchor_probe(l: Seq<u8>) -> Seq<u8> {
    spec_join_space(spec_tokens(l), 0, 3)
}

/// A row-anchor line: at least three tokens, the first three of which read
/// as a textual date.
pub open spec fn spec_is_anchor(l: Seq<u8>) -> bool {
    spec_tokens(l).len() >= 3 && date_of_text_form(spec_anchor_probe(l)) is Some
}

/// The indices of the anchor lines at or after line `i`, in order.
pub open spec fn spec_anchors_from(lines: Seq<Seq<u8>>, i: int) -> Seq<int>
    decreases lines.len() - i,
        when 0 <= i <= lines.len()
{
    if i >= lines.len() {
        Seq::empty()
    } else if spec_is_anchor(lines[i]) {
        seq![i] + spec_anchors_from(lines, i + 1)
    } else {
        spec_anchors_from(lines, i + 1)
    }
}

/// Anchor indices are in range and strictly increasing.
pub proof fn lemma_anchors_from_props(lines: Seq<Seq<u8>>, i: int)
    requires
        0 <= i <= lines.len(),
    ensures
        forall|k: int|
            0 <= k < spec_anchors_from(lines, i).len() ==> i <= #[trigger] spec_anchors_from(
                lines,
                i,
            )[k] < lines.len(),
        forall|k1: int, k2: int|
            0 <= k1 < k2 < spec_anchors_from(lines, i).len() ==> spec_anchors_from(lines, i)[k1]
                < spec_anchors_from(lines, i)[k2],
    decreases lines.len() - i,
{
    if i < lines.len() {
        lemma_anchors_from_props(lines, i + 1);
        let s = spec_anchors_from(lines, i);
        let rest = spec_anchors_from(lines, i + 1);
        if spec_is_anchor(lines[i]) {
            assert(s == seq![i] + rest);
            assert forall|k: int| 0 <= k < s.len() implies i <= #[trigger] s[k] < lines.len() by {
                if k == 0 {
                    assert(s[k] == i);
                } else {
                    assert(s[k] == rest[k - 1]);
                }
            }
            assert forall|k1: int, k2: int| 0 <= k1 < k2 < s.len() implies s[k1] < s[k2] by {
                assert(s[k2] == rest[k2 - 1]);
                if k1 == 0 {
                    assert(s[k1] == i);
                } else {
                    assert(s[k1] == rest[k1 - 1]);
                }
            }
        } else {
            assert(s == rest);
        }
    }
}

/// The merged logical rows of the date-anchored layout, from anchor
/// position `j` on: the lines from one anchor up to the next (or the end of
/// the text for the last anchor), joined with single spaces.
pub open spec fn spec_merged_anchored(lines: Seq<Seq<u8>>, anchors: Seq<int>, j: int) -> Seq<
    Seq<u8>,
>
    decreases anchors.len() - j,
        when 0 <= j <= anchors.len()
{
    if j >= anchors.len() {
        Seq::empty()
    } else {
        let hi = if j + 1 < anchors.len() {
            anchors[j + 1]
        } else {
            lines.len() as int
        };
        seq![spec_join_space(lines, anchors[j], hi)] + spec_merged_anchored(lines, anchors, j + 1)
    }
}

/// The token rows of the date-anchored layout: one merged row per anchor,
/// of which only those with at least 19 tokens are payment rows.
pub open spec fn spec_rows_anchored(lines: Seq<Seq<u8>>) -> Seq<Seq<Seq<u8>>> {
    spec_rows_min_from(
        spec_merged_anchored(lines, spec_anchors_from(lines, 0), 0),
        19,
        0,
    )
}

/// Whether this line anchors a row, as `spec_is_anchor` describes.
fn check_anchor(line: &[u8]) -> (r: bool)
    ensures
        r == spec_is_anchor(line@),
{
    let toks = tokens_of(line);
    if toks.len() < 3 {
        return false;
    }
    let probe = join_space(&toks, 0, 3);
    parse_date_text_form(probe.as_slice()).is_some()
}

/// The date-anchored grammar, as `spec_rows_anchored` describes.
fn rows_date_anchored(lines: &Vec<Vec<u8>>) -> (r: Vec<Vec<Vec<u8>>>)
    ensures
        rows_view(r) == spec_rows_anchored(lines@.map_values(|l: Vec<u8>| l@)),
{
    let ghost lv = lines@.map_values(|l: Vec<u8>| l@);
    // find the anchor lines
    let mut anchors: Vec<usize> = Vec::new();
    let mut i: usize = 0;
    proof {
        assert(anchors@.map_values(|u: usize| u as int) =~= Seq::<int>::empty());
    }
    while i < lines.len()
        invariant
            0 <= i <= lines@.len(),
            lv == lines@.map_values(|l: Vec<u8>| l@),
            spec_anchors_from(lv, 0) == anchors@.map_values(|u: usize| u as int)
                + spec_anchors_from(lv, i as int),
        decreases lines@.len() - i,
    {
        if check_anchor(lines[i].as_slice()) {
            let ghost a_old = anchors@;
            anchors.push(i);
            proof {
                assert(anchors@.map_values(|u: usize| u as int) =~= a_old.map_values(
                    |u: usize| u as int,
                ).push(i as int));
                assert(a_old.map_values(|u: usize| u as int) + (seq![i as int]
                    + spec_anchors_from(lv, i + 1)) =~= anchors@.map_values(|u: usize| u as int)
                    + spec_anchors_from(lv, i + 1));
            }
        }
        i = i + 1;
    }
    let ghost av = anchors@.map_values(|u: usize| u as int);
    proof {
        assert(av == spec_anchors_from(lv, 0));
        lemma_anchors_from_props(lv, 0);
    }
    // join the lines of each anchored row
    let mut merged: Vec<Vec<u8>> = Vec::new();
    let mut j: usize = 0;
    proof {
        assert(merged@.map_values(|l: Vec<u8>| l@) =~= Seq::<Seq<u8>>::empty());
    }
    while j < anchors.len()
        invariant
            0 <= j <= anchors@.len(),
            lv == lines@.map_values(|l: Vec<u8>| l@),
            av == anchors@.map_values(|u: usize| u as int),
            av == spec_anchors_from(lv, 0),
            forall|k: int| 0 <= k < av.len() ==> 0 <= #[trigger] av[k] < lines@.len(),
            forall|k1: int, k2: int| 0 <= k1 < k2 < av.len() ==> av[k1] < av[k2],
            spec_merged_anchored(lv, av, 0) == merged@.map_values(|l: Vec<u8>| l@)
                + spec_merged_anchored(lv, av, j as int),
        decreases anchors@.len() - j,
    {
        let lo = anchors[j];
        let hi = if j + 1 < anchors.len() {
            anchors[j + 1]
        } else {
            lines.len()
        };
        let row = join_space(lines, lo, hi);
        let ghost merged_old = merged@;
        merged.push(row);
        proof {
            assert(merged@.map_values(|l: Vec<u8>| l@) =~= merged_old.map_values(
                |l: Vec<u8>| l@,
            ).push(row@));
        }
        j = j + 1;
    }
    // keep the merged rows with at least 19 tokens, tokenized
    rows_with_min_tokens(&merged, 19)
}

/// The token rows that grammar `g` reads out of `lines`.
pub open spec fn spec_grammar_rows(lines: Seq<Seq<u8>>, g: BankGrammar) -> Seq<Seq<Seq<u8>>> {
    match g {
        BankGrammar::DateAnchored => spec_rows_anchored(lines),
        BankGrammar::PairedLines => spec_rows_paired(lines),
        BankGrammar::FixedWidth => spec_rows_fixed_from(lines, 0),
    }
}

/// The minimum token count that every row of grammar `g` is guaranteed.
pub open spec fn spec_min_row_tokens(g: BankGrammar) -> int {
    match g {
        BankGrammar::DateAnchored => 19,
        BankGrammar::PairedLines => 6,
        BankGrammar::FixedWidth => 6,
    }
}

pub proof fn lemma_grammar_rows_len(lines: Seq<Seq<u8>>, g: BankGrammar)
    ensures
        forall|k: int|
            0 <= k < spec_grammar_rows(lines, g).len() ==> (#[trigger] spec_grammar_rows(
                lines,
                g,
            )[k]).len() >= spec_min_row_tokens(g),
{
    match g {
        BankGrammar::DateAnchored => {
            lemma_rows_min_from_len(
                spec_merged_anchored(lines, spec_anchors_from(lines, 0), 0),
                19,
                0,
            );
        },
        BankGrammar::PairedLines => {
            lemma_rows_min_from_len(
                spec_pair_merge(spec_kept_paired_from(lines, spec_paired_start(lines))),
                6,
                0,
            );
        },
        BankGrammar::FixedWidth => {
            lemma_rows_fixed_from_len(lines, 0);
        },
    }
}

/// Reads the token rows of the payment periods out of `lines` under
/// grammar `g`; every returned row has at least `spec_min_row_tokens(g)`
/// tokens.
pub fn grammar_rows(lines: &Vec<Vec<u8>>, g: BankGrammar) -> (r: Vec<Vec<Vec<u8>>>)
    ensures
        rows_view(r) == spec_grammar_rows(lines@.map_values(|l: Vec<u8>| l@), g),
        forall|k: int|
            0 <= k < rows_view(r).len() ==> (#[trigger] rows_view(r)[k]).len()
                >= spec_min_row_tokens(g),
{
    let ghost lv = lines@.map_values(|l: Vec<u8>| l@);
    proof {
        lemma_grammar_rows_len(lv, g);
    }
    let r = match g {
        BankGrammar::DateAnchored => rows_date_anchored(lines),
        BankGrammar::PairedLines => rows_paired_lines(lines),
        BankGrammar::FixedWidth => rows_fixed_width(lines),
    };
    proof {
        assert forall|k: int| 0 <= k < rows_view(r).len() implies (#[trigger] rows_view(r)[k]).len()
            >= spec_min_row_tokens(g) by {
            assert(rows_view(r)[k] == spec_grammar_rows(lv, g)[k]);
        }
    }
    r
}

} // verus!
