use vstd::prelude::*;
use crate::text::{lower_of, occurs_at, has_substring, first_occurrence, line_len, trim_cr, lines_of};

verus! {

/// Relies on `str::chars` collected into a `Vec`: the characters of `s`, in order.
#[verifier::external_body]
pub(crate) fn chars_of(s: &str) -> (r: Vec<char>)
    ensures
        r@ == s@,
{
    s.chars().collect()
}

/// Relies on collecting a `char` iterator into a `String`: the text of those characters.
#[verifier::external_body]
pub(crate) fn string_of(cs: &Vec<char>) -> (r: String)
    ensures
        r@ == cs@,
{
    cs.iter().collect()
}

/// Relies on `str::to_lowercase`: the result depends on the characters of `s` alone.
#[verifier::external_body]
pub(crate) fn lowercase(s: &str) -> (r: String)
    ensures
        r@ == lower_of(s@),
{
    s.to_lowercase()
}

/// Whether `q` occurs in `t` at position `i`.
pub(crate) fn occurs_here(t: &Vec<char>, q: &Vec<char>, i: usize) -> (r: bool)
    requires
        i <= t@.len(),
    ensures
        r == occurs_at(t@, q@, i as int),
{
    if q.len() > t.len() - i {
        return false;
    }
    let mut k: usize = 0;
    while k < q.len()
        invariant
            i + q@.len() <= t@.len(),
            t@.len() <= usize::MAX,
            k <= q@.len(),
            forall|j: int| 0 <= j < k ==> t@[i + j] == q@[j],
        decreases q@.len() - k,
    {
        if t[i + k] != q[k] {
            assert(t@.subrange(i as int, i + q@.len())[k as int] != q@[k as int]);
            return false;
        }
        k += 1;
    }
    assert(t@.subrange(i as int, i + q@.len()) =~= q@);
    true
}

/// Position of the first occurrence of `q` in `t`, if there is one.
pub fn find_first(t: &Vec<char>, q: &Vec<char>) -> (r: Option<usize>)
    ensures
        match r {
            Some(i) => has_substring(t@, q@) && i == first_occurrence(t@, q@) && occurs_at(t@, q@, i as int),
            None => !has_substring(t@, q@),
        },
{
    reveal(has_substring);
    reveal(first_occurrence);
    if q.len() > t.len() {
        return None;
    }
    let last: usize = t.len() - q.len();
    let mut i: usize = 0;
    loop
        invariant
            i <= last,
            last + q@.len() == t@.len(),
            forall|j: int| 0 <= j < i ==> !occurs_at(t@, q@, j),
        decreases last - i,
    {
        if occurs_here(t, q, i) {
            proof {
                reveal(has_substring);
                reveal(first_occurrence);
                let f = first_occurrence(t@, q@);
                assert(occurs_at(t@, q@, i as int) && forall|j: int| 0 <= j < i ==> !occurs_at(t@, q@, j));
                assert(occurs_at(t@, q@, f) && forall|j: int| 0 <= j < f ==> !occurs_at(t@, q@, j));
                if f > i {
                    assert(!occurs_at(t@, q@, i as int));
                }
            }
            return Some(i);
        }
        if i == last {
            proof {
                reveal(has_substring);
            }
            return None;
        }
        i += 1;
    }
}

/// The views of a sequence of character vectors.
pub open spec fn views(v: Seq<Vec<char>>) -> Seq<Seq<char>> {
    v.map_values(|l: Vec<char>| l@)
}

proof fn lemma_line_len(s: Seq<char>, k: int)
    requires
        0 <= k <= s.len(),
        forall|j: int| 0 <= j < k ==> s[j] != '\n',
        k == s.len() || s[k] == '\n',
    ensures
        line_len(s) == k,
    decreases k,
{
    if k > 0 {
        lemma_line_len(s.drop_first(), k - 1);
    }
}

/// A copy of the characters of `v` from `a` up to `b`.
pub(crate) fn copy_range(v: &Vec<char>, a: usize, b: usize) -> (r: Vec<char>)
    requires
        a <= b <= v@.len(),
    ensures
        r@ == v@.subrange(a as int, b as int),
{
    let mut r: Vec<char> = Vec::new();
    let mut k: usize = a;
    while k < b
        invariant
            a <= k <= b <= v@.len(),
            r@ == v@.subrange(a as int, k as int),
        decreases b - k,
    {
        r.push(v[k]);
        k += 1;
        assert(r@ =~= v@.subrange(a as int, k as int));
    }
    r
}

/// The lines of a document, in order.
pub fn split_lines(cs: &Vec<char>) -> (r: Vec<Vec<char>>)
    ensures
        views(r@) == lines_of(cs@),
{
    let n: usize = cs.len();
    let mut out: Vec<Vec<char>> = Vec::new();
    let mut start: usize = 0;
    let mut i: usize = 0;
    assert(cs@.subrange(0, n as int) =~= cs@);
    while i < n
        invariant
            n == cs@.len(),
            start <= i <= n,
            forall|j: int| start <= j < i ==> cs@[j] != '\n',
            lines_of(cs@) == views(out@) + lines_of(cs@.subrange(start as int, n as int)),
        decreases n - i,
    {
        if cs[i] == '\n' {
            let mut end: usize = i;
            if end > start && cs[end - 1] == '\r' {
                end = end - 1;
            }
            let line = copy_range(cs, start, end);
            proof {
                let rest = cs@.subrange(start as int, n as int);
                let k = i - start;
                lemma_line_len(rest, k);
                assert(rest.subrange(0, k) =~= cs@.subrange(start as int, i as int));
                assert(line@ =~= trim_cr(rest.subrange(0, k)));
                assert(rest.subrange(k + 1, rest.len() as int) =~= cs@.subrange(i + 1, n as int));
                assert(views(out@.push(line)) =~= views(out@).push(line@));
            }
            out.push(line);
            start = i + 1;
        }
        i += 1;
    }
    if start < n {
        let line = copy_range(cs, start, n);
        proof {
            let rest = cs@.subrange(start as int, n as int);
            lemma_line_len(rest, n - start);
            assert(views(out@.push(line)) =~= views(out@).push(line@));
        }
        out.push(line);
    }
    proof {
        assert(views(out@) + lines_of(cs@.subrange(n as int, n as int)) =~= views(out@));
    }
    out
}

} // verus!
