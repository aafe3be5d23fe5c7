//! The locator: from the lines that declare a function to the interval of
//! lines that holds it, found by counting block delimiters.

use crate::language::Language;
use crate::rules::{declares, Rule};
use crate::text::chars_of;
use vstd::prelude::*;
use vstd::string::*;

verus! {

/// What a character adds to the depth of blocks: one for the opening
/// delimiter, minus one for the closing delimiter, nothing for any other.
pub open spec fn step(c: char, delimiter: (char, char)) -> int {
    if c == delimiter.0 {
        1
    } else if c == delimiter.1 {
        -1
    } else {
        0
    }
}

/// The sum of the steps of the characters of `text`.
pub open spec fn balance(text: Seq<char>, delimiter: (char, char)) -> int
    decreases text.len(),
{
    if text.len() == 0 {
        0
    } else {
        balance(text.drop_last(), delimiter) + step(text.last(), delimiter)
    }
}

/// The depth of blocks in front of line `at`, the count starting with line
/// `from`.
pub open spec fn depth_before(
    lines: Seq<Seq<char>>,
    delimiter: (char, char),
    from: int,
    at: int,
) -> int
    decreases at - from,
{
    if at <= from {
        0
    } else {
        depth_before(lines, delimiter, from, at - 1) + balance(lines[at - 1], delimiter)
    }
}

/// Character `k` of `line` is a delimiter, and behind it the depth, which
/// was `depth` in front of the line, is zero.
pub open spec fn closes_here(line: Seq<char>, delimiter: (char, char), depth: int, k: int) -> bool {
    step(line[k], delimiter) != 0 && depth + balance(line.take(k + 1), delimiter) == 0
}

/// The depth, counted from line `from`, comes back to zero at a delimiter
/// of line `at`.
pub open spec fn closes_at(
    lines: Seq<Seq<char>>,
    delimiter: (char, char),
    from: int,
    at: int,
) -> bool {
    exists|k: int|
        0 <= k < lines[at].len() && #[trigger] closes_here(
            lines[at],
            delimiter,
            depth_before(lines, delimiter, from, at),
            k,
        )
}

/// Line `i` is marked as a declaration of the function looked for.
pub open spec fn marked(marks: Seq<bool>, i: int) -> bool {
    0 <= i < marks.len() && marks[i]
}

/// The scan of `lines` ends with the interval from line `start` to line
/// `end` (indices, from 0), the count of delimiters having begun at line
/// `first`:
/// `first` is the first marked line; `end` is the first line from there on
/// in which the depth comes back to zero; `start` is the last marked line up
/// to `end`.
pub open spec fn located_from(
    lines: Seq<Seq<char>>,
    marks: Seq<bool>,
    delimiter: (char, char),
    first: int,
    start: int,
    end: int,
) -> bool {
    &&& 0 <= first <= start <= end < lines.len()
    &&& marked(marks, first)
    &&& forall|i: int| 0 <= i < first ==> !#[trigger] marked(marks, i)
    &&& marked(marks, start)
    &&& forall|i: int| start < i <= end ==> !#[trigger] marked(marks, i)
    &&& closes_at(lines, delimiter, first, end)
    &&& forall|j: int| first <= j < end ==> !#[trigger] closes_at(lines, delimiter, first, j)
}

/// The scan of `lines` ends with the interval from line `start` to line
/// `end` (indices, from 0).
pub open spec fn located(
    lines: Seq<Seq<char>>,
    marks: Seq<bool>,
    delimiter: (char, char),
    start: int,
    end: int,
) -> bool {
    exists|first: int| #[trigger] located_from(lines, marks, delimiter, first, start, end)
}

/// The interval of lines that holds the function, both ends counted from 1
/// and included; none where no line is marked or the depth never comes back
/// to zero.
pub open spec fn locate(lines: Seq<Seq<char>>, marks: Seq<bool>, delimiter: (char, char)) -> Option<
    (int, int),
> {
    if exists|start: int, end: int| #[trigger] located(lines, marks, delimiter, start, end) {
        let (start, end) = choose|start: int, end: int| #[trigger]
            located(lines, marks, delimiter, start, end);
        Some((start + 1, end + 1))
    } else {
        None
    }
}

/// For each line, whether it declares the function `name` in `language`.
pub open spec fn declarations(language: Language, lines: Seq<Seq<char>>, name: Seq<char>) -> Seq<
    bool,
> {
    Seq::new(lines.len(), |i: int| declares(language, lines[i], name))
}

/// A scan has at most one outcome.
pub proof fn located_is_unique(
    lines: Seq<Seq<char>>,
    marks: Seq<bool>,
    delimiter: (char, char),
    start: int,
    end: int,
    other_start: int,
    other_end: int,
)
    requires
        located(lines, marks, delimiter, start, end),
        located(lines, marks, delimiter, other_start, other_end),
    ensures
        start == other_start,
        end == other_end,
{
    let first = choose|first: int| #[trigger]
        located_from(lines, marks, delimiter, first, start, end);
    let other_first = choose|first: int| #[trigger]
        located_from(lines, marks, delimiter, first, other_start, other_end);
    if first < other_first {
        assert(!marked(marks, first));
    }
    if other_first < first {
        assert(!marked(marks, other_first));
    }
    if end < other_end {
        assert(!closes_at(lines, delimiter, first, end));
    }
    if other_end < end {
        assert(!closes_at(lines, delimiter, first, other_end));
    }
    if start < other_start {
        assert(!marked(marks, other_start));
    }
    if other_start < start {
        assert(!marked(marks, start));
    }
}

/// Where a scan has an outcome, `locate` gives it, counted from 1.
pub proof fn locate_gives_located(
    lines: Seq<Seq<char>>,
    marks: Seq<bool>,
    delimiter: (char, char),
    start: int,
    end: int,
)
    requires
        located(lines, marks, delimiter, start, end),
    ensures
        locate(lines, marks, delimiter) == Some((start + 1, end + 1)),
{
    let (s, e) = choose|s: int, e: int| #[trigger] located(lines, marks, delimiter, s, e);
    located_is_unique(lines, marks, delimiter, start, end, s, e);
}

/// The lines one behind the other, as one text.
pub open spec fn flat(lines: Seq<Seq<char>>) -> Seq<char>
    decreases lines.len(),
{
    if lines.len() == 0 {
        Seq::empty()
    } else {
        flat(lines.drop_last()) + lines.last()
    }
}

/// A text in which every closing delimiter closes a block that was opened
/// before it, and no block stays open: the balance of the text is zero and
/// that of none of its beginnings is negative.
pub open spec fn well_nested(text: Seq<char>, delimiter: (char, char)) -> bool {
    &&& balance(text, delimiter) == 0
    &&& forall|k: int| 0 <= k <= text.len() ==> balance(#[trigger] text.take(k), delimiter) >= 0
}

/// The balance of two texts, one behind the other, is the sum of their
/// balances.
pub proof fn balance_of_joined(first: Seq<char>, second: Seq<char>, delimiter: (char, char))
    ensures
        balance(first + second, delimiter) == balance(first, delimiter) + balance(
            second,
            delimiter,
        ),
    decreases second.len(),
{
    if second.len() == 0 {
        assert(first + second == first);
    } else {
        assert((first + second).drop_last() == first + second.drop_last());
        balance_of_joined(first, second.drop_last(), delimiter);
    }
}

/// The depth in front of a line is the balance of the lines before it, from
/// the line at which the count starts.
pub proof fn depth_is_balance_of_flat(
    lines: Seq<Seq<char>>,
    delimiter: (char, char),
    from: int,
    at: int,
)
    requires
        0 <= from <= at <= lines.len(),
    ensures
        depth_before(lines, delimiter, from, at) == balance(
            flat(lines.subrange(from, at)),
            delimiter,
        ),
    decreases at - from,
{
    if at > from {
        depth_is_balance_of_flat(lines, delimiter, from, at - 1);
        assert(lines.subrange(from, at).drop_last() == lines.subrange(from, at - 1));
        balance_of_joined(flat(lines.subrange(from, at - 1)), lines[at - 1], delimiter);
    }
}

/// The lines `from..at` are the beginning of the lines `from..upto`, as
/// texts.
proof fn flat_begins(lines: Seq<Seq<char>>, from: int, at: int, upto: int)
    requires
        0 <= from <= at <= upto <= lines.len(),
    ensures
        flat(lines.subrange(from, at)).len() <= flat(lines.subrange(from, upto)).len(),
        flat(lines.subrange(from, upto)).take(flat(lines.subrange(from, at)).len() as int) == flat(
            lines.subrange(from, at),
        ),
    decreases upto - at,
{
    if at < upto {
        flat_begins(lines, from, at, upto - 1);
        assert(lines.subrange(from, upto).drop_last() == lines.subrange(from, upto - 1));
        let shorter = flat(lines.subrange(from, upto - 1));
        let count = flat(lines.subrange(from, at)).len() as int;
        assert((shorter + lines[upto - 1]).take(count) == shorter.take(count));
    } else {
        let whole = flat(lines.subrange(from, at));
        assert(whole.take(whole.len() as int) == whole);
    }
}

/// A text without delimiters has the balance zero.
proof fn balance_without_delimiters(text: Seq<char>, delimiter: (char, char))
    requires
        forall|k: int| 0 <= k < text.len() ==> step(#[trigger] text[k], delimiter) == 0,
    ensures
        balance(text, delimiter) == 0,
    decreases text.len(),
{
    if text.len() > 0 {
        balance_without_delimiters(text.drop_last(), delimiter);
    }
}

/// In a text made of a head without delimiters, the opening delimiter, a
/// well-nested body and the closing delimiter, the balance behind character
/// `at` is zero at the closing delimiter and nowhere else at a delimiter.
proof fn balance_in_block(
    head: Seq<char>,
    body: Seq<char>,
    delimiter: (char, char),
    at: int,
)
    requires
        delimiter.0 != delimiter.1,
        forall|k: int| 0 <= k < head.len() ==> step(#[trigger] head[k], delimiter) == 0,
        well_nested(body, delimiter),
        0 <= at < head.len() + body.len() + 2,
    ensures
        ({
            let block = head + seq![delimiter.0] + body + seq![delimiter.1];
            (step(block[at], delimiter) != 0 && balance(block.take(at + 1), delimiter) == 0) <==> at
                == block.len() - 1
        }),
{
    let opener = seq![delimiter.0];
    let closer = seq![delimiter.1];
    let block = head + opener + body + closer;
    balance_without_delimiters(head, delimiter);
    assert(balance(opener, delimiter) == 1) by {
        assert(opener.drop_last() =~= Seq::<char>::empty());
        assert(balance(opener.drop_last(), delimiter) == 0);
    }
    assert(balance(closer, delimiter) == -1) by {
        assert(closer.drop_last() =~= Seq::<char>::empty());
        assert(balance(closer.drop_last(), delimiter) == 0);
    }
    if at < head.len() {
        assert(block[at] == head[at]);
    } else if at < block.len() - 1 {
        let inner = at - head.len();
        assert(block.take(at + 1) == head + opener + body.take(inner));
        balance_of_joined(head, opener, delimiter);
        balance_of_joined(head + opener, body.take(inner), delimiter);
        assert(balance(body.take(inner), delimiter) >= 0);
    } else {
        assert(block.take(at + 1) == block);
        balance_of_joined(head, opener, delimiter);
        balance_of_joined(head + opener, body, delimiter);
        balance_of_joined(head + opener + body, closer, delimiter);
        assert(block[at] == delimiter.1);
    }
}

/// A function whose blocks are well nested is located, however deep they
/// nest and whether or not it ends in the line in which it starts.
///
/// Line `start` is the only line up to line `end` that declares the
/// function. The text from the beginning of line `start` to character
/// `close` of line `end` is made of a head without delimiters, the opening
/// delimiter, a well-nested body, and the closing delimiter. The locator
/// then gives the lines `start` to `end` (here indices from 0, in its
/// outcome numbers from 1).
pub proof fn nested_function_is_located(
    lines: Seq<Seq<char>>,
    marks: Seq<bool>,
    delimiter: (char, char),
    start: int,
    end: int,
    close: int,
    head: Seq<char>,
    body: Seq<char>,
)
    requires
        0 <= start <= end < lines.len(),
        0 <= close < lines[end].len(),
        marked(marks, start),
        forall|i: int| 0 <= i <= end && i != start ==> !#[trigger] marked(marks, i),
        delimiter.0 != delimiter.1,
        flat(lines.subrange(start, end)) + lines[end].take(close + 1) == head + seq![delimiter.0]
            + body + seq![delimiter.1],
        forall|k: int| 0 <= k < head.len() ==> step(#[trigger] head[k], delimiter) == 0,
        well_nested(body, delimiter),
    ensures
        locate(lines, marks, delimiter) == Some((start + 1, end + 1)),
{
    let block = head + seq![delimiter.0] + body + seq![delimiter.1];
    let before_end = flat(lines.subrange(start, end));
    assert(block.len() == before_end.len() + close + 1);
    assert forall|j: int, k: int|
        start <= j <= end && 0 <= k < lines[j].len() && (j == end ==> k <= close) implies (
    #[trigger] closes_here(lines[j], delimiter, depth_before(lines, delimiter, start, j), k) <==> j
        == end && k == close) by {
        let before = flat(lines.subrange(start, j));
        let at = before.len() + k;
        depth_is_balance_of_flat(lines, delimiter, start, j);
        balance_of_joined(before, lines[j].take(k + 1), delimiter);
        if j < end {
            flat_begins(lines, start, j + 1, end);
            assert(lines.subrange(start, j + 1).drop_last() == lines.subrange(start, j));
            assert(flat(lines.subrange(start, j + 1)) == before + lines[j]);
            assert(before_end.take((before + lines[j]).len() as int) == before + lines[j]);
            assert(block.take(at + 1) == before + lines[j].take(k + 1)) by {
                assert(block.take(at + 1) =~= before_end.take(at + 1));
                assert(before_end.take(at + 1) =~= before_end.take(
                    (before + lines[j]).len() as int,
                ).take(at + 1));
                assert((before + lines[j]).take(at + 1) =~= before + lines[j].take(k + 1));
            }
            assert(block[at] == lines[j][k]) by {
                assert(block.take(at + 1)[at] == block[at]);
            }
        } else {
            assert(block.take(at + 1) =~= before + lines[j].take(k + 1));
            assert(block[at] == lines[j][k]) by {
                assert(block.take(at + 1)[at] == block[at]);
            }
        }
        balance_in_block(head, body, delimiter, at);
    }
    assert(closes_at(lines, delimiter, start, end)) by {
        assert(closes_here(
            lines[end],
            delimiter,
            depth_before(lines, delimiter, start, end),
            close,
        ));
    }
    assert forall|j: int| start <= j < end implies !#[trigger] closes_at(
        lines,
        delimiter,
        start,
        j,
    ) by {
        if closes_at(lines, delimiter, start, j) {
            let k = choose|k: int|
                0 <= k < lines[j].len() && #[trigger] closes_here(
                    lines[j],
                    delimiter,
                    depth_before(lines, delimiter, start, j),
                    k,
                );
            assert(false);
        }
    }
    assert(located_from(lines, marks, delimiter, start, start, end));
    locate_gives_located(lines, marks, delimiter, start, end);
}

/// Whether line `at` is marked; a line without a mark is not.
fn is_marked(marks: &Vec<bool>, at: usize) -> (r: bool)
    ensures
        r == marked(marks@, at as int),
{
    at < marks.len() && marks[at]
}

/// Finds the interval of lines that holds a function, given for each line
/// whether it declares the function. Both ends of the interval are counted
/// from 1 and included.
pub fn locate_marked(lines: &Vec<String>, marks: &Vec<bool>, delimiter: (char, char)) -> (r: Option<
    (usize, usize),
>)
    ensures
        match r {
            Some((start, end)) => locate(lines.deep_view(), marks@, delimiter) == Some(
                (start as int, end as int),
            ),
            None => locate(lines.deep_view(), marks@, delimiter) is None,
        },
{
    let ghost text = lines.deep_view();
    let mut first: Option<usize> = None;
    let mut start: usize = 0;
    let mut opens: u128 = 0;
    let mut closes: u128 = 0;
    let mut at: usize = 0;
    while at < lines.len()
        invariant
            text == lines.deep_view(),
            at <= lines.len(),
            opens + closes <= at * 0xFFFF_FFFF_FFFF_FFFF,
            match first {
                None => {
                    &&& opens == 0
                    &&& closes == 0
                    &&& forall|i: int| 0 <= i < at ==> !#[trigger] marked(marks@, i)
                },
                Some(f) => {
                    &&& f <= start < at
                    &&& marked(marks@, f as int)
                    &&& forall|i: int| 0 <= i < f ==> !#[trigger] marked(marks@, i)
                    &&& marked(marks@, start as int)
                    &&& forall|i: int| start < i < at ==> !#[trigger] marked(marks@, i)
                    &&& opens - closes == depth_before(text, delimiter, f as int, at as int)
                    &&& forall|j: int|
                        f <= j < at ==> !#[trigger] closes_at(text, delimiter, f as int, j)
                },
            },
        decreases lines.len() - at,
    {
        if is_marked(marks, at) {
            if first.is_none() {
                first = Some(at);
            }
            start = at;
        }
        if let Some(f) = first {
            let chars = chars_of(lines[at].as_str());
            let ghost line = text[at as int];
            let ghost depth = depth_before(text, delimiter, f as int, at as int);
            assert(line == chars@);
            let mut k: usize = 0;
            while k < chars.len()
                invariant
                    k <= chars.len(),
                    chars@ == line,
                    at < lines.len(),
                    opens + closes <= at * 0xFFFF_FFFF_FFFF_FFFF + k,
                    opens - closes == depth + balance(line.take(k as int), delimiter),
                    forall|j: int| 0 <= j < k ==> !#[trigger] closes_here(line, delimiter, depth, j),
                    text == lines.deep_view(),
                    line == text[at as int],
                    depth == depth_before(text, delimiter, f as int, at as int),
                    f <= start <= at,
                    marked(marks@, f as int),
                    forall|i: int| 0 <= i < f ==> !#[trigger] marked(marks@, i),
                    marked(marks@, start as int),
                    forall|i: int| start < i <= at ==> !#[trigger] marked(marks@, i),
                    forall|j: int|
                        f <= j < at ==> !#[trigger] closes_at(text, delimiter, f as int, j),
                decreases chars.len() - k,
            {
                let c = chars[k];
                assert(line.take(k + 1).drop_last() == line.take(k as int));
                if c == delimiter.0 {
                    opens = opens + 1;
                } else if c == delimiter.1 {
                    closes = closes + 1;
                }
                if (c == delimiter.0 || c == delimiter.1) && opens == closes {
                    proof {
                        assert(closes_here(line, delimiter, depth, k as int));
                        assert(closes_at(text, delimiter, f as int, at as int));
                        assert(located_from(
                            text,
                            marks@,
                            delimiter,
                            f as int,
                            start as int,
                            at as int,
                        ));
                        locate_gives_located(text, marks@, delimiter, start as int, at as int);
                    }
                    return Some((start + 1, at + 1));
                }
                k = k + 1;
            }
            assert(line.take(k as int) == line);
            assert(!closes_at(text, delimiter, f as int, at as int));
        }
        at = at + 1;
    }
    proof {
        assert forall|s: int, e: int| !#[trigger] located(text, marks@, delimiter, s, e) by {
            if located(text, marks@, delimiter, s, e) {
                let g = choose|g: int| #[trigger] located_from(text, marks@, delimiter, g, s, e);
                match first {
                    None => {
                        assert(!marked(marks@, g));
                    },
                    Some(f) => {
                        if g < f {
                            assert(!marked(marks@, g));
                        }
                        if f < g {
                            assert(!marked(marks@, f as int));
                        }
                        assert(!closes_at(text, delimiter, f as int, e));
                    },
                }
            }
        }
    }
    None
}

impl Rule {
    /// Marks each line that declares the function `name`.
    pub fn mark_declarations(&self, lines: &Vec<String>, name: &String) -> (marks: Vec<bool>)
        ensures
            marks@ == declarations(self.language, lines.deep_view(), name@),
    {
        let mut marks: Vec<bool> = Vec::new();
        let mut at: usize = 0;
        while at < lines.len()
            invariant
                at <= lines.len(),
                marks@.len() == at,
                forall|i: int|
                    0 <= i < at ==> #[trigger] marks@[i] == declares(
                        self.language,
                        lines@[i]@,
                        name@,
                    ),
            decreases lines.len() - at,
        {
            marks.push(self.contains_function(&lines[at], name));
            at = at + 1;
        }
        assert(marks@ =~= declarations(self.language, lines.deep_view(), name@));
        marks
    }

    /// Finds the interval of lines that holds the function `name`: from the
    /// last line that declares it to the line in which the blocks that were
    /// opened since the first such line are closed again. Both ends are
    /// counted from 1 and included.
    pub fn locate_function(&self, lines: &Vec<String>, name: &String) -> (r: Option<(usize, usize)>)
        ensures
            match r {
                Some((start, end)) => locate(
                    lines.deep_view(),
                    declarations(self.language, lines.deep_view(), name@),
                    self.delimiter,
                ) == Some((start as int, end as int)),
                None => locate(
                    lines.deep_view(),
                    declarations(self.language, lines.deep_view(), name@),
                    self.delimiter,
                ) is None,
            },
    {
        let marks = self.mark_declarations(lines, name);
        locate_marked(lines, &marks, self.delimiter)
    }
}

} // verus!
