//! Byte-level text utilities: splitting extracted statement text into
//! physical lines, splitting a line into whitespace-delimited tokens,
//! joining, prefix tests, and ASCII case folding.
//!
//! The grammars in this crate work on bytes. In UTF-8 text every byte of a
//! multi-byte character is at least 0x80, so none of them collides with the
//! ASCII delimiters used here.

use vstd::prelude::*;

verus! {

/// A byte treated as whitespace: the ASCII whitespace characters
/// (tab, line feed, vertical tab, form feed, carriage return, space).
pub open spec fn spec_is_space(b: u8) -> bool {
    b == 0x20 || b == 0x09 || b == 0x0A || b == 0x0B || b == 0x0C || b == 0x0D
}

pub fn is_space(b: u8) -> (r: bool)
    ensures
        r == spec_is_space(b),
{
    b == 0x20 || b == 0x09 || b == 0x0A || b == 0x0B || b == 0x0C || b == 0x0D
}

/// Index of the first line feed in `t` at or after `i`, or `t.len()` if none.
pub open spec fn line_break_from(t: Seq<u8>, i: int) -> int
    decreases t.len() - i,
        when 0 <= i <= t.len()
{
    if i >= t.len() {
        i
    } else if t[i] == 0x0A {
        i
    } else {
        line_break_from(t, i + 1)
    }
}

pub proof fn lemma_line_break_from(t: Seq<u8>, i: int)
    requires
        0 <= i <= t.len(),
    ensures
        i <= line_break_from(t, i) <= t.len(),
        forall|j: int| i <= j < line_break_from(t, i) ==> t[j] != 0x0A,
        line_break_from(t, i) < t.len() ==> t[line_break_from(t, i)] == 0x0A,
    decreases t.len() - i,
{
    if i < t.len() && t[i] != 0x0A {
        lemma_line_break_from(t, i + 1);
    }
}

/// One trailing carriage return is removed from a line-feed-terminated
/// line, so that a `"\r\n"` ending leaves the line bare.
pub open spec fn spec_strip_cr(l: Seq<u8>) -> Seq<u8> {
    if l.len() > 0 && l[l.len() - 1] == 0x0D {
        l.drop_last()
    } else {
        l
    }
}

/// The physical lines of `t` from position `i` on: pieces separated by line
/// feeds; a piece that a line feed ends loses one carriage return before
/// it, while a final unterminated piece is kept whole; and there is no
/// final empty line when the text ends in a line feed.
pub open spec fn spec_lines_from(t: Seq<u8>, i: int) -> Seq<Seq<u8>>
    decreases t.len() - i,
        when 0 <= i <= t.len()
{
    if i >= t.len() {
        Seq::empty()
    } else {
        let k = line_break_from(t, i);
        proof {
            lemma_line_break_from(t, i);
        }
        if k >= t.len() {
            seq![t.subrange(i, t.len() as int)]
        } else {
            seq![spec_strip_cr(t.subrange(i, k))] + spec_lines_from(t, k + 1)
        }
    }
}

/// The physical lines of the whole text.
pub open spec fn spec_lines(t: Seq<u8>) -> Seq<Seq<u8>> {
    spec_lines_from(t, 0)
}

/// Index of the first whitespace byte in `l` at or after `i`, or `l.len()`.
pub open spec fn token_end_from(l: Seq<u8>, i: int) -> int
    decreases l.len() - i,
        when 0 <= i <= l.len()
{
    if i >= l.len() {
        i
    } else if spec_is_space(l[i]) {
        i
    } else {
        token_end_from(l, i + 1)
    }
}

pub proof fn lemma_token_end_from(l: Seq<u8>, i: int)
    requires
        0 <= i <= l.len(),
    ensures
        i <= token_end_from(l, i) <= l.len(),
        forall|j: int| i <= j < token_end_from(l, i) ==> !spec_is_space(l[j]),
        token_end_from(l, i) < l.len() ==> spec_is_space(l[token_end_from(l, i)]),
    decreases l.len() - i,
{
    if i < l.len() && !spec_is_space(l[i]) {
        lemma_token_end_from(l, i + 1);
    }
}

/// The whitespace-delimited tokens of `l` from position `i` on: the maximal
/// runs of non-whitespace bytes, in order.
pub open spec fn spec_tokens_from(l: Seq<u8>, i: int) -> Seq<Seq<u8>>
    decreases l.len() - i,
        when 0 <= i <= l.len()
{
    if i >= l.len() {
        Seq::empty()
    } else if spec_is_space(l[i]) {
        spec_tokens_from(l, i + 1)
    } else {
        let e = token_end_from(l, i);
        proof {
            lemma_token_end_from(l, i);
        }
        seq![l.subrange(i, e)] + spec_tokens_from(l, e)
    }
}

/// The whitespace-delimited tokens of the whole line.
pub open spec fn spec_tokens(l: Seq<u8>) -> Seq<Seq<u8>> {
    spec_tokens_from(l, 0)
}

/// Copies `s[a..b]` into a fresh vector.
pub fn subrange_vec(s: &[u8], a: usize, b: usize) -> (r: Vec<u8>)
    requires
        a <= b <= s@.len(),
    ensures
        r@ == s@.subrange(a as int, b as int),
{
    let mut r: Vec<u8> = Vec::new();
    let mut j: usize = a;
    while j < b
        invariant
            a <= j <= b <= s@.len(),
            r@ == s@.subrange(a as int, j as int),
        decreases b - j,
    {
        r.push(s[j]);
        proof {
            assert(s@.subrange(a as int, j + 1 as int) == s@.subrange(a as int, j as int).push(
                s@[j as int],
            ));
        }
        j = j + 1;
    }
    r
}

/// Splits extracted text into physical lines, as `spec_lines` describes.
pub fn split_lines(t: &[u8]) -> (r: Vec<Vec<u8>>)
    ensures
        r@.map_values(|l: Vec<u8>| l@) == spec_lines(t@),
{
    let mut r: Vec<Vec<u8>> = Vec::new();
    let mut i: usize = 0;
    while i < t.len()
        invariant
            0 <= i <= t@.len(),
            spec_lines(t@) == r@.map_values(|l: Vec<u8>| l@) + spec_lines_from(t@, i as int),
        decreases t@.len() - i,
    {
        let ghost i0 = i as int;
        // find the next line feed
        let mut k: usize = i;
        while k < t.len() && t[k] != 0x0A
            invariant
                i <= k <= t@.len(),
                forall|j: int| i0 <= j < k ==> t@[j] != 0x0A,
            decreases t@.len() - k,
        {
            k = k + 1;
        }
        proof {
            lemma_line_break_from(t@, i0);
            // both are the first line feed at or after i, so they agree
            assert(line_break_from(t@, i0) == k as int);
        }
        // only a line-feed-terminated line loses a carriage return
        let line = if k < t.len() && k > i && t[k - 1] == 0x0D {
            subrange_vec(t, i, k - 1)
        } else {
            subrange_vec(t, i, k)
        };
        proof {
            if k < t@.len() {
                assert(line@ == spec_strip_cr(t@.subrange(i0, k as int))) by {
                    if k > i0 && t@[k - 1] == 0x0D {
                        assert(t@.subrange(i0, k as int).drop_last() == t@.subrange(i0, k - 1));
                    }
                }
            } else {
                assert(line@ == t@.subrange(i0, t@.len() as int));
            }
        }
        r.push(line);
        proof {
            let lines_view = |l: Vec<u8>| l@;
            assert(r@.map_values(lines_view) == r@.drop_last().map_values(lines_view).push(line@));
        }
        if k < t.len() {
            i = k + 1;
        } else {
            i = k;
            proof {
                assert(spec_lines_from(t@, i as int) == Seq::<Seq<u8>>::empty());
            }
        }
    }
    proof {
        assert(r@.map_values(|l: Vec<u8>| l@) + spec_lines_from(t@, i as int) == r@.map_values(
            |l: Vec<u8>| l@,
        ));
    }
    r
}

/// The lines `ls[a..b]` joined into one, with a single space between
/// consecutive lines.
pub open spec fn spec_join_space(ls: Seq<Seq<u8>>, a: int, b: int) -> Seq<u8>
    decreases b - a,
{
    if b <= a {
        Seq::empty()
    } else if b == a + 1 {
        ls[a]
    } else {
        ls[a] + seq![0x20u8] + spec_join_space(ls, a + 1, b)
    }
}

pub proof fn lemma_join_space_snoc(ls: Seq<Seq<u8>>, a: int, b: int)
    requires
        a < b,
    ensures
        spec_join_space(ls, a, b + 1) == spec_join_space(ls, a, b) + seq![0x20u8] + ls[b],
    decreases b - a,
{
    if b > a + 1 {
        lemma_join_space_snoc(ls, a + 1, b);
        assert(spec_join_space(ls, a, b + 1) == ls[a] + seq![0x20u8] + spec_join_space(
            ls,
            a + 1,
            b + 1,
        ));
        assert(ls[a] + seq![0x20u8] + (spec_join_space(ls, a + 1, b) + seq![0x20u8] + ls[b])
            == (ls[a] + seq![0x20u8] + spec_join_space(ls, a + 1, b)) + seq![0x20u8] + ls[b]);
    } else {
        assert(spec_join_space(ls, a, a + 2) == ls[a] + seq![0x20u8] + spec_join_space(
            ls,
            a + 1,
            a + 2,
        ));
    }
}

/// Joins `ls[a..b]` with single spaces, as `spec_join_space` describes.
pub fn join_space(ls: &Vec<Vec<u8>>, a: usize, b: usize) -> (r: Vec<u8>)
    requires
        a < b <= ls@.len(),
    ensures
        r@ == spec_join_space(ls@.map_values(|l: Vec<u8>| l@), a as int, b as int),
{
    let ghost lsv = ls@.map_values(|l: Vec<u8>| l@);
    let mut r: Vec<u8> = Vec::new();
    let mut j: usize = a;
    // first line, then ' ' + line for each following line
    while j < b
        invariant
            a <= j <= b <= ls@.len(),
            lsv == ls@.map_values(|l: Vec<u8>| l@),
            j == a ==> r@ == Seq::<u8>::empty(),
            j > a ==> r@ == spec_join_space(lsv, a as int, j as int),
        decreases b - j,
    {
        if j > a {
            r.push(0x20);
        }
        let ghost r_before = r@;
        let mut k: usize = 0;
        let line = &ls[j];
        while k < line.len()
            invariant
                0 <= k <= line@.len(),
                r@ == r_before + line@.subrange(0, k as int),
            decreases line@.len() - k,
        {
            r.push(line[k]);
            proof {
                assert(line@.subrange(0, k + 1 as int) == line@.subrange(0, k as int).push(
                    line@[k as int],
                ));
            }
            k = k + 1;
        }
        proof {
            assert(line@.subrange(0, line@.len() as int) == line@);
            assert(lsv[j as int] == line@);
            if j == a {
                assert(r@ == lsv[a as int]);
                assert(spec_join_space(lsv, a as int, a + 1) == lsv[a as int]);
            } else {
                lemma_join_space_snoc(lsv, a as int, j as int);
                assert(r@ == spec_join_space(lsv, a as int, j as int) + seq![0x20u8]
                    + lsv[j as int]);
            }
        }
        j = j + 1;
    }
    r
}

/// `s` with every comma removed; thousands separators are stripped this way
/// before a numeric parse.
pub open spec fn spec_strip_commas(s: Seq<u8>) -> Seq<u8>
    decreases s.len(),
{
    if s.len() == 0 {
        Seq::empty()
    } else if s.last() == 0x2C {
        spec_strip_commas(s.drop_last())
    } else {
        spec_strip_commas(s.drop_last()).push(s.last())
    }
}

/// Removes every comma from `s`, as `spec_strip_commas` describes.
pub fn strip_commas(s: &[u8]) -> (r: Vec<u8>)
    ensures
        r@ == spec_strip_commas(s@),
{
    let mut r: Vec<u8> = Vec::new();
    let mut i: usize = 0;
    while i < s.len()
        invariant
            0 <= i <= s@.len(),
            r@ == spec_strip_commas(s@.subrange(0, i as int)),
        decreases s@.len() - i,
    {
        if s[i] != 0x2C {
            r.push(s[i]);
        }
        proof {
            assert(s@.subrange(0, i + 1 as int).drop_last() == s@.subrange(0, i as int));
        }
        i = i + 1;
    }
    proof {
        assert(s@.subrange(0, s@.len() as int) == s@);
    }
    r
}

/// ASCII case folding of one byte: the uppercase letters become lowercase,
/// everything else is unchanged.
pub open spec fn spec_lower(b: u8) -> u8 {
    if 0x41 <= b && b <= 0x5A {
        (b + 0x20) as u8
    } else {
        b
    }
}

/// `s` folded to ASCII lowercase, byte by byte.
pub open spec fn spec_lower_seq(s: Seq<u8>) -> Seq<u8> {
    s.map_values(|b: u8| spec_lower(b))
}

/// Whether `p` is a prefix of `s`.
pub open spec fn spec_starts_with(s: Seq<u8>, p: Seq<u8>) -> bool {
    p.len() <= s.len() && s.subrange(0, p.len() as int) == p
}

/// Whether `s`, folded to ASCII lowercase, starts with `p`.
pub fn lower_starts_with(s: &[u8], p: &[u8]) -> (r: bool)
    ensures
        r == spec_starts_with(spec_lower_seq(s@), p@),
{
    let ghost ls = spec_lower_seq(s@);
    if p.len() > s.len() {
        return false;
    }
    let mut i: usize = 0;
    while i < p.len()
        invariant
            0 <= i <= p@.len() <= s@.len(),
            ls == spec_lower_seq(s@),
            forall|j: int| 0 <= j < i ==> ls[j] == p@[j],
        decreases p@.len() - i,
    {
        let b = s[i];
        let lb = if 0x41 <= b && b <= 0x5A {
            b + 0x20
        } else {
            b
        };
        if lb != p[i] {
            proof {
                assert(ls[i as int] == spec_lower(s@[i as int]));
                assert(ls.subrange(0, p@.len() as int) =~= p@ ==> ls[i as int] == p@[i as int]);
            }
            return false;
        }
        i = i + 1;
    }
    proof {
        assert(ls.subrange(0, p@.len() as int) =~= p@);
    }
    true
}

/// Whether `p` is a prefix of `s`, byte for byte.
pub fn starts_with_bytes(s: &[u8], p: &[u8]) -> (r: bool)
    ensures
        r == spec_starts_with(s@, p@),
{
    if p.len() > s.len() {
        return false;
    }
    let mut i: usize = 0;
    while i < p.len()
        invariant
            0 <= i <= p@.len() <= s@.len(),
            forall|j: int| 0 <= j < i ==> s@[j] == p@[j],
        decreases p@.len() - i,
    {
        if s[i] != p[i] {
            proof {
                assert(s@.subrange(0, p@.len() as int) =~= p@ ==> s@[i as int] == p@[i as int]);
            }
            return false;
        }
        i = i + 1;
    }
    proof {
        assert(s@.subrange(0, p@.len() as int) =~= p@);
    }
    true
}

/// Splits a line into whitespace-delimited tokens, as `spec_tokens` describes.
pub fn tokens_of(l: &[u8]) -> (r: Vec<Vec<u8>>)
    ensures
        r@.map_values(|w: Vec<u8>| w@) == spec_tokens(l@),
{
    let mut r: Vec<Vec<u8>> = Vec::new();
    let mut i: usize = 0;
    while i < l.len()
        invariant
            0 <= i <= l@.len(),
            spec_tokens(l@) == r@.map_values(|w: Vec<u8>| w@) + spec_tokens_from(l@, i as int),
        decreases l@.len() - i,
    {
        let ghost i0 = i as int;
        if is_space(l[i]) {
            i = i + 1;
        } else {
            let mut e: usize = i;
            while e < l.len() && !is_space(l[e])
                invariant
                    i <= e <= l@.len(),
                    forall|j: int| i0 <= j < e ==> !spec_is_space(l@[j]),
                decreases l@.len() - e,
            {
                e = e + 1;
            }
            proof {
                lemma_token_end_from(l@, i0);
                assert(token_end_from(l@, i0) == e as int);
            }
            let word = subrange_vec(l, i, e);
            r.push(word);
            proof {
                let words_view = |w: Vec<u8>| w@;
                assert(r@.map_values(words_view) == r@.drop_last().map_values(words_view).push(
                    word@,
                ));
            }
            i = e;
        }
    }
    proof {
        assert(r@.map_values(|w: Vec<u8>| w@) + spec_tokens_from(l@, i as int) == r@.map_values(
            |w: Vec<u8>| w@,
        ));
    }
    r
}

} // verus!
