use vstd::prelude::*;

verus! {

/// Escape sequence that switches the terminal to bold red.
pub const RED: &'static str = "\x1b[1;31m";

/// Escape sequence that resets the terminal's colours.
pub const NORMAL: &'static str = "\x1b[0m";

/// `q` occurs in `t` starting at position `i`.
pub open spec fn occurs_at(t: Seq<char>, q: Seq<char>, i: int) -> bool {
    0 <= i && i + q.len() <= t.len() && t.subrange(i, i + q.len()) == q
}

/// `q` is a substring of `t`.
#[verifier::opaque]
pub open spec fn has_substring(t: Seq<char>, q: Seq<char>) -> bool {
    exists|i: int| occurs_at(t, q, i)
}

/// The position of the first occurrence of `q` in `t` (meaningful when there is one).
#[verifier::opaque]
pub open spec fn first_occurrence(t: Seq<char>, q: Seq<char>) -> int {
    choose|i: int| occurs_at(t, q, i) && forall|j: int| 0 <= j < i ==> !occurs_at(t, q, j)
}

/// The lower-case form of a text, as the standard library's Unicode lowercasing gives it.
pub uninterp spec fn lower_of(s: Seq<char>) -> Seq<char>;

/// Number of characters before the first line feed of `s` (all of `s` if it has none).
pub open spec fn line_len(s: Seq<char>) -> nat
    decreases s.len(),
{
    if s.len() == 0 || s[0] == '\n' {
        0
    } else {
        1 + line_len(s.drop_first())
    }
}

/// A line that ended with a line feed loses one carriage return before it.
pub open spec fn trim_cr(l: Seq<char>) -> Seq<char> {
    if l.len() > 0 && l.last() == '\r' {
        l.drop_last()
    } else {
        l
    }
}

/// The lines of a document: split at each line feed, a carriage return just before a
/// line feed is dropped, and a final line feed opens no empty line.
pub open spec fn lines_of(s: Seq<char>) -> Seq<Seq<char>>
    decreases s.len(),
{
    if s.len() == 0 {
        Seq::empty()
    } else {
        let k = line_len(s) as int;
        if k < s.len() {
            seq![trim_cr(s.subrange(0, k))] + lines_of(s.subrange(k + 1, s.len() as int))
        } else {
            seq![s]
        }
    }
}

/// `line` with the highlight start marker inserted at `a` and the end marker at `b`.
#[verifier::opaque]
pub open spec fn decorate(line: Seq<char>, a: int, b: int) -> Seq<char> {
    line.subrange(0, a) + RED@ + line.subrange(a, b) + NORMAL@ + line.subrange(b, line.len() as int)
}

/// `line` with the first occurrence of `q` highlighted, if `q` occurs in it.
#[verifier::opaque]
pub open spec fn highlight(line: Seq<char>, q: Seq<char>) -> Option<Seq<char>> {
    if has_substring(line, q) {
        let i = first_occurrence(line, q);
        Some(decorate(line, i, i + q.len()))
    } else {
        None
    }
}

/// Smaller of two integers.
pub open spec fn min_int(a: int, b: int) -> int {
    if a <= b {
        a
    } else {
        b
    }
}

/// `line` highlighted by a match of `folded_query` in `folded_line`, its folded form: the
/// match's position and length in the folded line are used on `line`, cut at its end.
#[verifier::opaque]
pub open spec fn highlight_folded(
    line: Seq<char>,
    folded_line: Seq<char>,
    folded_query: Seq<char>,
) -> Option<Seq<char>> {
    if has_substring(folded_line, folded_query) {
        let i = first_occurrence(folded_line, folded_query);
        let n = line.len() as int;
        Some(decorate(line, min_int(i, n), min_int(i + folded_query.len(), n)))
    } else {
        None
    }
}

/// The per-line step of the case-sensitive search.
pub open spec fn marker(q: Seq<char>) -> spec_fn(Seq<char>) -> Option<Seq<char>> {
    |l: Seq<char>| highlight(l, q)
}

/// The per-line step of the case-insensitive search.
pub open spec fn folded_marker(q: Seq<char>) -> spec_fn(Seq<char>) -> Option<Seq<char>> {
    |l: Seq<char>| highlight_folded(l, lower_of(l), lower_of(q))
}

/// Result of the case-sensitive search: each line of `d` holding `q`, highlighted, in order.
pub open spec fn matching_lines(q: Seq<char>, d: Seq<char>) -> Seq<Seq<char>> {
    lines_of(d).filter_map(marker(q))
}

/// Result of the case-insensitive search: each line of `d` whose lower-case form holds
/// the lower-case form of `q`, highlighted, in order.
pub open spec fn matching_lines_folded(q: Seq<char>, d: Seq<char>) -> Seq<Seq<char>> {
    lines_of(d).filter_map(folded_marker(q))
}

} // verus!
