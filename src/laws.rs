use vstd::prelude::*;
use crate::text::{
    lower_of, occurs_at, has_substring, first_occurrence, decorate, highlight, highlight_folded,
    min_int, marker, folded_marker, matching_lines, matching_lines_folded, lines_of,
};

verus! {

/// `idx` tells, for each result, the line of `lines` it was made from: the positions
/// strictly increase, each line that `f` keeps is among them, and each result is what
/// `f` makes of its line.
pub open spec fn drawn_in_order(
    lines: Seq<Seq<char>>,
    results: Seq<Seq<char>>,
    idx: Seq<int>,
    f: spec_fn(Seq<char>) -> Option<Seq<char>>,
) -> bool {
    &&& idx.len() == results.len()
    &&& forall|k: int| 0 <= k < idx.len() ==> 0 <= #[trigger] idx[k] < lines.len()
        && f(lines[idx[k]]) == Some(results[k])
    &&& forall|k1: int, k2: int| 0 <= k1 < k2 < idx.len() ==> #[trigger] idx[k1] < #[trigger] idx[k2]
    &&& forall|j: int| 0 <= j < lines.len() && (#[trigger] f(lines[j])) is Some
        ==> exists|k: int| 0 <= k < idx.len() && idx[k] == j
}

/// `d` is `line` with the two highlight markers inserted, start before end.
pub open spec fn strips_to(d: Seq<char>, line: Seq<char>) -> bool {
    exists|a: int, b: int| 0 <= a <= b <= line.len() && d == decorate(line, a, b)
}

proof fn lemma_filter_map_positions(
    s: Seq<Seq<char>>,
    f: spec_fn(Seq<char>) -> Option<Seq<char>>,
) -> (idx: Seq<int>)
    ensures
        drawn_in_order(s, s.filter_map(f), idx, f),
    decreases s.len(),
{
    if s.len() == 0 {
        Seq::empty()
    } else {
        let rest = s.drop_last();
        let ir = lemma_filter_map_positions(rest, f);
        let last = s.len() - 1;
        assert(s.last() == s[last]);
        assert forall|j: int| 0 <= j < rest.len() implies rest[j] == s[j] by {}
        match f(s.last()) {
            Some(x) => {
                let idx = ir.push(last);
                assert(s.filter_map(f) == rest.filter_map(f) + seq![x]);
                assert forall|j: int| 0 <= j < s.len() && (#[trigger] f(s[j])) is Some
                    implies exists|k: int| 0 <= k < idx.len() && idx[k] == j by {
                    if j == last {
                        assert(idx[ir.len() as int] == j);
                    } else {
                        assert(f(rest[j]) is Some);
                        let k = choose|k: int| 0 <= k < ir.len() && ir[k] == j;
                        assert(idx[k] == j);
                    }
                }
                idx
            },
            None => {
                assert(s.filter_map(f) == rest.filter_map(f));
                assert forall|j: int| 0 <= j < s.len() && (#[trigger] f(s[j])) is Some
                    implies exists|k: int| 0 <= k < ir.len() && ir[k] == j by {
                    assert(f(rest[j]) is Some);
                }
                ir
            },
        }
    }
}

proof fn lemma_first_is_first(t: Seq<char>, q: Seq<char>, w: int)
    requires
        occurs_at(t, q, w),
    ensures
        has_substring(t, q),
        occurs_at(t, q, first_occurrence(t, q)),
        forall|j: int| 0 <= j < first_occurrence(t, q) ==> !occurs_at(t, q, j),
    decreases w,
{
    reveal(has_substring);
    reveal(first_occurrence);
    if exists|j: int| 0 <= j < w && occurs_at(t, q, j) {
        let j = choose|j: int| 0 <= j < w && occurs_at(t, q, j);
        lemma_first_is_first(t, q, j);
    } else {
        assert(occurs_at(t, q, w) && forall|j: int| 0 <= j < w ==> !occurs_at(t, q, j));
    }
}

/// Both searches report lines in document order: the k-th result comes from the line at
/// the k-th of a strictly increasing list of positions, and every line that matches is
/// reported.
pub proof fn lemma_results_in_document_order(q: Seq<char>, d: Seq<char>)
    ensures
        exists|idx: Seq<int>| drawn_in_order(lines_of(d), matching_lines(q, d), idx, marker(q)),
        exists|idx: Seq<int>|
            drawn_in_order(lines_of(d), matching_lines_folded(q, d), idx, folded_marker(q)),
{
    let i1 = lemma_filter_map_positions(lines_of(d), marker(q));
    let i2 = lemma_filter_map_positions(lines_of(d), folded_marker(q));
    assert(drawn_in_order(lines_of(d), matching_lines(q, d), i1, marker(q)));
    assert(drawn_in_order(lines_of(d), matching_lines_folded(q, d), i2, folded_marker(q)));
}

/// Removing the highlight markers from a result of the case-sensitive search gives a line
/// of the document that contains the query.
pub proof fn lemma_case_sensitive_results_contain_query(q: Seq<char>, d: Seq<char>, k: int)
    requires
        0 <= k < matching_lines(q, d).len(),
    ensures
        exists|line: Seq<char>|
            lines_of(d).contains(line) && has_substring(line, q)
                && strips_to(#[trigger] matching_lines(q, d)[k], line),
{
    let idx = lemma_filter_map_positions(lines_of(d), marker(q));
    let line = lines_of(d)[idx[k]];
    assert(marker(q)(line) == Some(matching_lines(q, d)[k]));
    reveal(highlight);
    reveal(has_substring);
    let w = choose|i: int| occurs_at(line, q, i);
    lemma_first_is_first(line, q, w);
    let i = first_occurrence(line, q);
    assert(matching_lines(q, d)[k] == decorate(line, i, i + q.len()));
    assert(strips_to(matching_lines(q, d)[k], line));
    assert(lines_of(d).contains(line));
}

/// Removing the highlight markers from a result of the case-insensitive search gives a
/// line of the document whose lower-case form contains the lower-case query.
pub proof fn lemma_case_insensitive_results_contain_query(q: Seq<char>, d: Seq<char>, k: int)
    requires
        0 <= k < matching_lines_folded(q, d).len(),
    ensures
        exists|line: Seq<char>|
            lines_of(d).contains(line) && has_substring(lower_of(line), lower_of(q))
                && strips_to(#[trigger] matching_lines_folded(q, d)[k], line),
{
    let idx = lemma_filter_map_positions(lines_of(d), folded_marker(q));
    let line = lines_of(d)[idx[k]];
    assert(folded_marker(q)(line) == Some(matching_lines_folded(q, d)[k]));
    reveal(highlight_folded);
    reveal(has_substring);
    let w = choose|i: int| occurs_at(lower_of(line), lower_of(q), i);
    lemma_first_is_first(lower_of(line), lower_of(q), w);
    let i = first_occurrence(lower_of(line), lower_of(q));
    let n = line.len() as int;
    let a = min_int(i, n);
    let b = min_int(i + lower_of(q).len(), n);
    assert(matching_lines_folded(q, d)[k] == decorate(line, a, b));
    assert(strips_to(matching_lines_folded(q, d)[k], line));
    assert(lines_of(d).contains(line));
}

/// A query that no line of the document contains gives no result, in either mode.
pub proof fn lemma_no_match_no_result(q: Seq<char>, d: Seq<char>)
    ensures
        (forall|j: int| 0 <= j < lines_of(d).len() ==> !has_substring(#[trigger] lines_of(d)[j], q))
            ==> matching_lines(q, d).len() == 0,
        (forall|j: int|
            0 <= j < lines_of(d).len() ==> !has_substring(lower_of(#[trigger] lines_of(d)[j]), lower_of(q)))
            ==> matching_lines_folded(q, d).len() == 0,
{
    reveal(highlight);
    reveal(highlight_folded);
    let i1 = lemma_filter_map_positions(lines_of(d), marker(q));
    let i2 = lemma_filter_map_positions(lines_of(d), folded_marker(q));
    if matching_lines(q, d).len() > 0 {
        assert(marker(q)(lines_of(d)[i1[0]]) is Some);
    }
    if matching_lines_folded(q, d).len() > 0 {
        assert(folded_marker(q)(lines_of(d)[i2[0]]) is Some);
    }
}

} // verus!
