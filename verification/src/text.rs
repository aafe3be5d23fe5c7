//! Character-level helpers shared by the classifier, the locator and the normalizer.
//!
//! Lines are handled as sequences of `char`; the executable side works on a
//! `Vec<char>` obtained once per line.

use vstd::prelude::*;

verus! {

/// Whether `c` has the Unicode `White_Space` property.
pub uninterp spec fn white_space(c: char) -> bool;

/// Calls `char::is_whitespace`.
///
/// Not proved: that the answer is the `White_Space` property of `c`, which is
/// what the standard library documents for this method.
#[verifier::external_body]
pub(crate) fn is_white_space(c: char) -> (b: bool)
    ensures
        b == white_space(c),
{
    c.is_whitespace()
}

/// Length of the longest prefix of `s` whose characters all satisfy `p`.
pub open spec fn leading_run(s: Seq<char>, p: spec_fn(char) -> bool) -> nat
    decreases s.len(),
{
    if s.len() > 0 && p(s[0]) {
        1 + leading_run(s.skip(1), p)
    } else {
        0
    }
}

/// Length of the longest suffix of `s` whose characters all satisfy `p`.
pub open spec fn trailing_run(s: Seq<char>, p: spec_fn(char) -> bool) -> nat
    decreases s.len(),
{
    if s.len() > 0 && p(s.last()) {
        1 + trailing_run(s.drop_last(), p)
    } else {
        0
    }
}

/// A prefix of `n` characters satisfying `p`, followed by the end of `s` or by
/// a character that does not satisfy `p`, is the leading run.
pub proof fn lemma_leading_run(s: Seq<char>, p: spec_fn(char) -> bool, n: int)
    requires
        0 <= n <= s.len(),
        forall|j: int| 0 <= j < n ==> p(#[trigger] s[j]),
        n == s.len() || !p(s[n]),
    ensures
        leading_run(s, p) == n,
    decreases s.len(),
{
    if n > 0 {
        let t = s.skip(1);
        assert forall|j: int| 0 <= j < n - 1 implies p(#[trigger] t[j]) by {
            assert(t[j] == s[j + 1]);
        }
        if n < s.len() {
            assert(t[n - 1] == s[n]);
        }
        lemma_leading_run(t, p, n - 1);
    }
}

/// The mirror image of [`lemma_leading_run`].
pub proof fn lemma_trailing_run(s: Seq<char>, p: spec_fn(char) -> bool, n: int)
    requires
        0 <= n <= s.len(),
        forall|j: int| s.len() - n <= j < s.len() ==> p(#[trigger] s[j]),
        n == s.len() || !p(s[s.len() - n - 1]),
    ensures
        trailing_run(s, p) == n,
    decreases s.len(),
{
    if n > 0 {
        let t = s.drop_last();
        assert forall|j: int| t.len() - (n - 1) <= j < t.len() implies p(#[trigger] t[j]) by {
            assert(t[j] == s[j]);
        }
        if n < s.len() {
            assert(t[t.len() - (n - 1) - 1] == s[s.len() - n - 1]);
        }
        lemma_trailing_run(t, p, n - 1);
    }
}

/// The leading run is within the sequence, consists of characters satisfying
/// `p`, and stops at the end or at a character that does not satisfy `p`.
pub proof fn lemma_leading_run_facts(s: Seq<char>, p: spec_fn(char) -> bool)
    ensures
        leading_run(s, p) <= s.len(),
        forall|j: int| 0 <= j < leading_run(s, p) ==> p(#[trigger] s[j]),
        leading_run(s, p) == s.len() || !p(s[leading_run(s, p) as int]),
    decreases s.len(),
{
    if s.len() > 0 && p(s[0]) {
        let t = s.skip(1);
        lemma_leading_run_facts(t, p);
        assert forall|j: int| 0 <= j < leading_run(s, p) implies p(#[trigger] s[j]) by {
            if j > 0 {
                assert(s[j] == t[j - 1]);
            }
        }
        if leading_run(t, p) < t.len() {
            assert(t[leading_run(t, p) as int] == s[leading_run(s, p) as int]);
        }
    }
}

/// The predicate "is a space character".
pub open spec fn is_space() -> spec_fn(char) -> bool {
    |c: char| c == ' '
}

/// The predicate "has the `White_Space` property".
pub open spec fn is_white() -> spec_fn(char) -> bool {
    |c: char| white_space(c)
}

/// Number of space characters at the start of `line`.
pub open spec fn leading_spaces(line: Seq<char>) -> nat {
    leading_run(line, is_space())
}

/// `line` without the white space at its two ends.
pub open spec fn trimmed(line: Seq<char>) -> Seq<char> {
    let lead = leading_run(line, is_white());
    if lead == line.len() {
        Seq::empty()
    } else {
        line.subrange(lead as int, line.len() - trailing_run(line, is_white()))
    }
}

/// The characters of `s`, in order.
pub fn chars_of(s: &str) -> (v: Vec<char>)
    ensures
        v@ == s@,
{
    let mut v: Vec<char> = Vec::new();
    for c in it: s.chars()
        invariant
            it.seq() == s@,
            v@ == it.seq().take(it.index()),
    {
        v.push(c);
    }
    v
}

/// Whether two character vectors hold the same text.
pub fn same_chars(a: &Vec<char>, b: &Vec<char>) -> (r: bool)
    ensures
        r == (a@ == b@),
{
    if a.len() != b.len() {
        return false;
    }
    let mut i: usize = 0;
    while i < a.len()
        invariant
            a.len() == b.len(),
            i <= a.len(),
            a@.take(i as int) == b@.take(i as int),
        decreases a.len() - i,
    {
        if a[i] != b[i] {
            return false;
        }
        assert(a@.take(i + 1) == a@.take(i as int).push(a@[i as int]));
        assert(b@.take(i + 1) == b@.take(i as int).push(b@[i as int]));
        i = i + 1;
    }
    assert(a@ == a@.take(i as int));
    assert(b@ == b@.take(i as int));
    true
}

/// Whether two strings hold the same text.
pub fn same_text(a: &str, b: &str) -> (r: bool)
    ensures
        r == (a@ == b@),
{
    let x = chars_of(a);
    let y = chars_of(b);
    same_chars(&x, &y)
}

/// Counts the spaces at the start of `line`.
pub fn count_leading_spaces(line: &Vec<char>) -> (n: usize)
    ensures
        n == leading_spaces(line@),
{
    let mut n: usize = 0;
    while n < line.len() && line[n] == ' '
        invariant
            n <= line.len(),
            forall|j: int| 0 <= j < n ==> line@[j] == ' ',
        decreases line.len() - n,
    {
        n = n + 1;
    }
    proof {
        lemma_leading_run(line@, is_space(), n as int);
    }
    n
}

/// The bounds of `line` without the white space at its two ends.
fn trim_bounds(line: &Vec<char>) -> (b: (usize, usize))
    ensures
        b.0 <= b.1 <= line.len(),
        line@.subrange(b.0 as int, b.1 as int) == trimmed(line@),
{
    let mut lo: usize = 0;
    while lo < line.len() && is_white_space(line[lo])
        invariant
            lo <= line.len(),
            forall|j: int| 0 <= j < lo ==> white_space(#[trigger] line@[j]),
        decreases line.len() - lo,
    {
        lo = lo + 1;
    }
    proof {
        lemma_leading_run(line@, is_white(), lo as int);
    }
    if lo == line.len() {
        assert(line@.subrange(lo as int, lo as int) == Seq::<char>::empty());
        return (lo, lo);
    }
    let mut hi: usize = line.len();
    while hi > lo && is_white_space(line[hi - 1])
        invariant
            lo <= hi <= line.len(),
            lo < line.len(),
            !white_space(line@[lo as int]),
            forall|j: int| hi <= j < line.len() ==> white_space(#[trigger] line@[j]),
        decreases hi,
    {
        hi = hi - 1;
    }
    proof {
        lemma_trailing_run(line@, is_white(), line.len() - hi);
    }
    (lo, hi)
}

/// `line` without the white space at its two ends.
pub fn trim(line: &Vec<char>) -> (out: Vec<char>)
    ensures
        out@ == trimmed(line@),
{
    let (lo, hi) = trim_bounds(line);
    let mut out: Vec<char> = Vec::new();
    let mut at: usize = lo;
    while at < hi
        invariant
            lo <= at <= hi <= line.len(),
            out@ == line@.subrange(lo as int, at as int),
        decreases hi - at,
    {
        out.push(line[at]);
        assert(line@.subrange(lo as int, at + 1) == line@.subrange(lo as int, at as int).push(
            line@[at as int],
        ));
        at = at + 1;
    }
    out
}

/// Whether `mark` is not empty and `text` starts with it.
pub fn starts_with_mark(text: &Vec<char>, mark: &Vec<char>) -> (r: bool)
    ensures
        r == marks_start(text@, mark@),
{
    if mark.len() == 0 || mark.len() > text.len() {
        return false;
    }
    let mut i: usize = 0;
    while i < mark.len()
        invariant
            mark.len() <= text.len(),
            i <= mark.len(),
            forall|j: int| 0 <= j < i ==> mark@[j] == text@[j],
        decreases mark.len() - i,
    {
        if text[i] != mark[i] {
            assert(text@.subrange(0, mark.len() as int)[i as int] == text@[i as int]);
            return false;
        }
        i = i + 1;
    }
    assert(mark@ =~= text@.subrange(0, mark.len() as int));
    true
}

/// Whether `mark` is not empty and `text` ends with it.
pub fn ends_with_mark(text: &Vec<char>, mark: &Vec<char>) -> (r: bool)
    ensures
        r == marks_end(text@, mark@),
{
    if mark.len() == 0 || mark.len() > text.len() {
        return false;
    }
    let base: usize = text.len() - mark.len();
    let mut i: usize = 0;
    while i < mark.len()
        invariant
            base + mark.len() == text.len(),
            i <= mark.len(),
            forall|j: int| 0 <= j < i ==> mark@[j] == text@[base + j],
        decreases mark.len() - i,
    {
        if text[base + i] != mark[i] {
            assert(text@.subrange(base as int, text.len() as int)[i as int] == text@[base + i]);
            return false;
        }
        i = i + 1;
    }
    assert(mark@ =~= text@.subrange(base as int, text.len() as int));
    true
}

/// A comment marker opens `text`: the marker is not empty and `text` starts with it.
pub open spec fn marks_start(text: Seq<char>, mark: Seq<char>) -> bool {
    mark.len() > 0 && mark.is_prefix_of(text)
}

/// A comment marker closes `text`: the marker is not empty and `text` ends with it.
pub open spec fn marks_end(text: Seq<char>, mark: Seq<char>) -> bool {
    mark.len() > 0 && mark.is_suffix_of(text)
}

} // verus!
