use vstd::prelude::*;
use crate::text::{
    RED, NORMAL, lower_of, decorate, highlight, highlight_folded,
    min_int, marker, folded_marker, matching_lines, matching_lines_folded, lines_of,
};
use crate::scan::{chars_of, string_of, lowercase, find_first, split_lines, views};

verus! {

/// The views of a sequence of strings.
pub open spec fn texts(v: Seq<String>) -> Seq<Seq<char>> {
    v.map_values(|s: String| s@)
}

/// Appends the characters of `src` from `a` up to `b` to `out`.
fn push_range(out: &mut Vec<char>, src: &Vec<char>, a: usize, b: usize)
    requires
        a <= b <= src@.len(),
    ensures
        final(out)@ == old(out)@ + src@.subrange(a as int, b as int),
{
    let ghost start = out@;
    let mut k: usize = a;
    while k < b
        invariant
            a <= k <= b <= src@.len(),
            out@ == start + src@.subrange(a as int, k as int),
        decreases b - k,
    {
        out.push(src[k]);
        k += 1;
        assert(out@ =~= start + src@.subrange(a as int, k as int));
    }
}

/// `line` with the start marker inserted at `a` and the end marker at `b`.
fn decorate_chars(line: &Vec<char>, a: usize, b: usize, red: &Vec<char>, normal: &Vec<char>) -> (r: Vec<char>)
    requires
        a <= b <= line@.len(),
        red@ == RED@,
        normal@ == NORMAL@,
    ensures
        r@ == decorate(line@, a as int, b as int),
{
    let mut r: Vec<char> = Vec::new();
    push_range(&mut r, line, 0, a);
    push_range(&mut r, red, 0, red.len());
    push_range(&mut r, line, a, b);
    push_range(&mut r, normal, 0, normal.len());
    push_range(&mut r, line, b, line.len());
    reveal(decorate);
    assert(red@.subrange(0, red@.len() as int) =~= red@);
    assert(normal@.subrange(0, normal@.len() as int) =~= normal@);
    r
}

/// The case-sensitive step on one line.
fn mark_chars(line: &Vec<char>, q: &Vec<char>, red: &Vec<char>, normal: &Vec<char>) -> (r: Option<Vec<char>>)
    requires
        red@ == RED@,
        normal@ == NORMAL@,
    ensures
        match r {
            Some(d) => highlight(line@, q@) == Some(d@),
            None => highlight(line@, q@) is None,
        },
{
    reveal(highlight);
    match find_first(line, q) {
        Some(i) => {
            let n = line.len();
            assert(i + q@.len() <= n);
            let d = decorate_chars(line, i, i + q.len(), red, normal);
            assert(highlight(line@, q@) == Some(decorate(line@, i as int, i + q@.len())));
            Some(d)
        },
        None => {
            assert(highlight(line@, q@) is None);
            None
        },
    }
}

/// The case-insensitive step on one line, given its folded form and the folded query.
fn mark_folded_chars(
    line: &Vec<char>,
    folded_line: &Vec<char>,
    folded_query: &Vec<char>,
    red: &Vec<char>,
    normal: &Vec<char>,
) -> (r: Option<Vec<char>>)
    requires
        red@ == RED@,
        normal@ == NORMAL@,
    ensures
        match r {
            Some(d) => highlight_folded(line@, folded_line@, folded_query@) == Some(d@),
            None => highlight_folded(line@, folded_line@, folded_query@) is None,
        },
{
    reveal(highlight_folded);
    match find_first(folded_line, folded_query) {
        Some(i) => {

            let n = line.len();
            let a: usize = if i <= n { i } else { n };
            let b: usize = if folded_query.len() <= n - a { a + folded_query.len() } else { n };
            assert(a == min_int(i as int, n as int));
            assert(b == min_int(i + folded_query@.len(), n as int));
            Some(decorate_chars(line, a, b, red, normal))
        },
        None => None,
    }
}

/// Highlights the first match of `folded_query` in `folded_line`, the folded form of
/// `line`, on `line` itself; `None` when `folded_line` does not contain `folded_query`.
pub fn mark_folded(line: &str, folded_line: &str, folded_query: &str) -> (r: Option<String>)
    ensures
        match r {
            Some(d) => highlight_folded(line@, folded_line@, folded_query@) == Some(d@),
            None => highlight_folded(line@, folded_line@, folded_query@) is None,
        },
{
    let red = chars_of(RED);
    let normal = chars_of(NORMAL);
    let l = chars_of(line);
    let fl = chars_of(folded_line);
    let fq = chars_of(folded_query);
    match mark_folded_chars(&l, &fl, &fq, &red, &normal) {
        Some(d) => Some(string_of(&d)),
        None => None,
    }
}

/// Every line of `contents` that contains `query`, with the first occurrence of `query`
/// wrapped in the highlight markers, in document order.
pub fn search(query: &str, contents: &str) -> (r: Vec<String>)
    ensures
        texts(r@) == matching_lines(query@, contents@),
{
    let red = chars_of(RED);
    let normal = chars_of(NORMAL);
    let q = chars_of(query);
    let cs = chars_of(contents);
    let lines = split_lines(&cs);
    let ghost ls = views(lines@);
    let mut out: Vec<String> = Vec::new();
    let mut i: usize = 0;
    while i < lines.len()
        invariant
            i <= lines@.len(),
            ls == views(lines@),
            ls == lines_of(contents@),
            red@ == RED@,
            normal@ == NORMAL@,
            q@ == query@,
            texts(out@) == ls.take(i as int).filter_map(marker(q@)),
        decreases lines@.len() - i,
    {
        proof {
            ls.lemma_filter_map_take_succ(marker(q@), i as int);
        }
        match mark_chars(&lines[i], &q, &red, &normal) {
            Some(d) => {
                let s = string_of(&d);
                proof {
                    assert(texts(out@.push(s)) =~= texts(out@) + seq![s@]);
                }
                out.push(s);
            },
            None => {},
        }
        i += 1;
    }
    assert(ls.take(ls.len() as int) =~= ls);
    out
}

/// Every line of `contents` whose lower-case form contains the lower-case form of
/// `query`, with the match highlighted, in document order.
pub fn search_case_insensitive(query: &str, contents: &str) -> (r: Vec<String>)
    ensures
        texts(r@) == matching_lines_folded(query@, contents@),
{
    let red = chars_of(RED);
    let normal = chars_of(NORMAL);
    let folded_query = lowercase(query);
    let fq = chars_of(folded_query.as_str());
    let cs = chars_of(contents);
    let lines = split_lines(&cs);
    let ghost ls = views(lines@);
    let mut out: Vec<String> = Vec::new();
    let mut i: usize = 0;
    while i < lines.len()
        invariant
            i <= lines@.len(),
            ls == views(lines@),
            ls == lines_of(contents@),
            red@ == RED@,
            normal@ == NORMAL@,
            fq@ == lower_of(query@),
            texts(out@) == ls.take(i as int).filter_map(folded_marker(query@)),
        decreases lines@.len() - i,
    {
        proof {
            ls.lemma_filter_map_take_succ(folded_marker(query@), i as int);
        }
        let line_text = string_of(&lines[i]);
        let folded_line = lowercase(line_text.as_str());
        let fl = chars_of(folded_line.as_str());
        match mark_folded_chars(&lines[i], &fl, &fq, &red, &normal) {
            Some(d) => {
                let s = string_of(&d);
                proof {
                    assert(texts(out@.push(s)) =~= texts(out@) + seq![s@]);
                }
                out.push(s);
            },
            None => {},
        }
        i += 1;
    }
    assert(ls.take(ls.len() as int) =~= ls);
    out
}

} // verus!
