//! The normalizer: which lines of an interval are kept, and how the kept
//! lines lose their common indentation.

use crate::rules::{classify, CommentType, Rule};
use crate::language::Language;
use crate::text::{chars_of, count_leading_spaces, leading_spaces};
use vstd::prelude::*;
use vstd::string::*;

verus! {

/// How many block comments are open behind the lines `lines[from..upto]`,
/// none being open before them. A line that opens a comment adds one; a line
/// that closes one takes one away, unless none is open.
pub open spec fn comment_depth(
    language: Language,
    lines: Seq<Seq<char>>,
    from: int,
    upto: int,
) -> nat
    decreases upto - from,
{
    if upto <= from {
        0
    } else {
        let before = comment_depth(language, lines, from, upto - 1);
        match classify(language, lines[upto - 1]) {
            Some(CommentType::MultiLineStart) => before + 1,
            Some(CommentType::MultiLineEnd) => if before > 0 {
                (before - 1) as nat
            } else {
                0
            },
            _ => before,
        }
    }
}

/// Whether line `at` is kept when the interval starts at line `from`: with
/// comments included every line is; without them, a line that is no comment
/// of any kind and stands in no open block comment.
pub open spec fn keeps(
    language: Language,
    lines: Seq<Seq<char>>,
    from: int,
    at: int,
    include_comments: bool,
) -> bool {
    include_comments || (classify(language, lines[at]) is None && comment_depth(
        language,
        lines,
        from,
        at,
    ) == 0)
}

/// The lines among `lines[from..upto]` that are kept, in their order.
pub open spec fn kept_lines(
    language: Language,
    lines: Seq<Seq<char>>,
    from: int,
    upto: int,
    include_comments: bool,
) -> Seq<Seq<char>>
    decreases upto - from,
{
    if upto <= from {
        Seq::empty()
    } else {
        let before = kept_lines(language, lines, from, upto - 1, include_comments);
        if keeps(language, lines, from, upto - 1, include_comments) {
            before.push(lines[upto - 1])
        } else {
            before
        }
    }
}

/// The least number of leading spaces over the lines that are not empty, or
/// none where every line is empty.
pub open spec fn least_indent(lines: Seq<Seq<char>>) -> Option<nat>
    decreases lines.len(),
{
    if lines.len() == 0 {
        None
    } else {
        let before = least_indent(lines.drop_last());
        let here = leading_spaces(lines.last());
        if lines.last().len() == 0 {
            before
        } else {
            match before {
                Some(least) if least <= here => before,
                _ => Some(here),
            }
        }
    }
}

/// The number of leading spaces that every line gives up: the least
/// indentation, and nothing where every line is empty.
pub open spec fn common_indent(lines: Seq<Seq<char>>) -> nat {
    match least_indent(lines) {
        Some(least) => least,
        None => 0,
    }
}

/// `line` without its leading spaces, of which at most `count` are removed.
pub open spec fn strip(line: Seq<char>, count: nat) -> Seq<char> {
    if leading_spaces(line) <= count {
        line.skip(leading_spaces(line) as int)
    } else {
        line.skip(count as int)
    }
}

/// Every line without the indentation that all lines have in common.
pub open spec fn normalized(lines: Seq<Seq<char>>) -> Seq<Seq<char>> {
    Seq::new(lines.len(), |i: int| strip(lines[i], common_indent(lines)))
}

/// The index of the first line of an interval that starts at line `start`,
/// lines being counted from 1.
pub open spec fn first_index(start: int) -> int {
    if start >= 1 {
        start - 1
    } else {
        0
    }
}

/// The index behind the last line of an interval that ends with line `end`
/// in a source of `count` lines.
pub open spec fn end_index(end: int, count: int) -> int {
    if end <= count {
        end
    } else {
        count
    }
}

/// The snippet that the lines `start` to `end` of `lines` give, both counted
/// from 1 and both included: the kept lines, normalized.
pub open spec fn snippet(
    language: Language,
    lines: Seq<Seq<char>>,
    start: int,
    end: int,
    include_comments: bool,
) -> Seq<Seq<char>> {
    normalized(
        kept_lines(
            language,
            lines,
            first_index(start),
            end_index(end, lines.len() as int),
            include_comments,
        ),
    )
}

/// With comments included, the kept lines are all lines of the interval.
pub proof fn every_line_is_kept_with_comments(
    language: Language,
    lines: Seq<Seq<char>>,
    from: int,
    upto: int,
)
    requires
        0 <= from <= upto <= lines.len(),
    ensures
        kept_lines(language, lines, from, upto, true) == lines.subrange(from, upto),
    decreases upto - from,
{
    if from < upto {
        every_line_is_kept_with_comments(language, lines, from, upto - 1);
        assert(lines.subrange(from, upto - 1).push(lines[upto - 1]) == lines.subrange(from, upto));
    } else {
        assert(lines.subrange(from, upto) == Seq::<Seq<char>>::empty());
    }
}

/// Without comments, no kept line is a comment of any kind, and no more
/// lines are kept than the interval has.
pub proof fn no_comment_is_kept(language: Language, lines: Seq<Seq<char>>, from: int, upto: int)
    requires
        0 <= from <= upto <= lines.len(),
    ensures
        kept_lines(language, lines, from, upto, false).len() <= upto - from,
        forall|k: int|
            0 <= k < kept_lines(language, lines, from, upto, false).len() ==> classify(
                language,
                #[trigger] kept_lines(language, lines, from, upto, false)[k],
            ) is None,
    decreases upto - from,
{
    if from < upto {
        no_comment_is_kept(language, lines, from, upto - 1);
    }
}

/// The common indentation is the least one: no line that is not empty has
/// fewer leading spaces, and, unless every line is empty, some line that is
/// not empty has exactly as many. Empty lines do not count.
pub proof fn common_indent_is_least(lines: Seq<Seq<char>>)
    ensures
        forall|i: int|
            0 <= i < lines.len() && (#[trigger] lines[i]).len() > 0 ==> common_indent(lines)
                <= leading_spaces(lines[i]),
        (exists|i: int| 0 <= i < lines.len() && (#[trigger] lines[i]).len() > 0) ==> exists|i: int|
            0 <= i < lines.len() && (#[trigger] lines[i]).len() > 0 && leading_spaces(lines[i])
                == common_indent(lines),
        least_indent(lines) is None <==> forall|i: int|
            0 <= i < lines.len() ==> (#[trigger] lines[i]).len() == 0,
    decreases lines.len(),
{
    if lines.len() > 0 {
        let before = lines.drop_last();
        let last = lines.len() - 1;
        common_indent_is_least(before);
        assert forall|i: int| 0 <= i < before.len() implies #[trigger] before[i] == lines[i] by {}
        assert forall|i: int| 0 <= i < lines.len() && (#[trigger] lines[i]).len() > 0 implies common_indent(
            lines,
        ) <= leading_spaces(lines[i]) by {
            if i < last {
                assert(before[i] == lines[i]);
            }
        }
        if lines[last].len() > 0 && common_indent(lines) == leading_spaces(lines[last]) {
            assert(lines[last].len() > 0 && leading_spaces(lines[last]) == common_indent(lines));
        } else if exists|i: int| 0 <= i < before.len() && (#[trigger] before[i]).len() > 0 {
            let i = choose|i: int|
                0 <= i < before.len() && (#[trigger] before[i]).len() > 0 && leading_spaces(
                    before[i],
                ) == common_indent(before);
            assert(lines[i].len() > 0 && leading_spaces(lines[i]) == common_indent(lines));
        }
        if least_indent(lines) is None {
            assert forall|i: int| 0 <= i < lines.len() implies (#[trigger] lines[i]).len() == 0 by {
                if i < last {
                    assert(before[i] == lines[i]);
                }
            }
        }
        if forall|i: int| 0 <= i < lines.len() ==> (#[trigger] lines[i]).len() == 0 {
            assert(lines[last].len() == 0);
            assert forall|i: int| 0 <= i < before.len() implies (#[trigger] before[i]).len()
                == 0 by {
                assert(before[i] == lines[i]);
            }
        }
    }
}

/// What normalizing does to each line: a line that is not empty loses
/// exactly the common indentation from its front, and an empty line stays
/// empty.
pub proof fn normalized_loses_common_indent(lines: Seq<Seq<char>>, i: int)
    requires
        0 <= i < lines.len(),
    ensures
        normalized(lines).len() == lines.len(),
        lines[i].len() > 0 ==> normalized(lines)[i] == lines[i].skip(common_indent(lines) as int),
        lines[i].len() == 0 ==> normalized(lines)[i] == lines[i],
{
    common_indent_is_least(lines);
    if lines[i].len() == 0 {
        assert(leading_spaces(lines[i]) == 0);
        assert(lines[i].skip(0) == lines[i]);
    }
}

/// Behind `count` of its leading spaces, a line has the others left.
proof fn leading_spaces_behind(line: Seq<char>, count: int)
    requires
        0 <= count <= leading_spaces(line),
    ensures
        leading_spaces(line.skip(count)) == leading_spaces(line) - count,
{
    let spaces = leading_spaces(line) as int;
    let rest = line.skip(count);
    crate::text::lemma_leading_run_facts(line, crate::text::is_space());
    assert forall|j: int| 0 <= j < spaces - count implies crate::text::is_space()(
        #[trigger] rest[j],
    ) by {
        assert(rest[j] == line[j + count]);
    }
    if spaces < line.len() {
        assert(rest[spaces - count] == line[spaces]);
    }
    crate::text::lemma_leading_run(rest, crate::text::is_space(), spaces - count);
}

/// Normalized lines have no indentation in common, where none of them is
/// made of spaces alone.
pub proof fn normalized_has_no_common_indent(lines: Seq<Seq<char>>)
    requires
        forall|i: int|
            0 <= i < lines.len() && (#[trigger] lines[i]).len() > 0 ==> leading_spaces(lines[i])
                < lines[i].len(),
    ensures
        common_indent(normalized(lines)) == 0,
{
    let after = normalized(lines);
    common_indent_is_least(lines);
    common_indent_is_least(after);
    if exists|i: int| 0 <= i < lines.len() && (#[trigger] lines[i]).len() > 0 {
        let i = choose|i: int|
            0 <= i < lines.len() && (#[trigger] lines[i]).len() > 0 && leading_spaces(lines[i])
                == common_indent(lines);
        normalized_loses_common_indent(lines, i);
        leading_spaces_behind(lines[i], common_indent(lines) as int);
        assert(after[i].len() > 0);
        assert(leading_spaces(after[i]) == 0);
    } else {
        assert forall|i: int| 0 <= i < after.len() implies (#[trigger] after[i]).len() == 0 by {
            normalized_loses_common_indent(lines, i);
            assert(lines[i].len() == 0);
        }
    }
}

/// The part of `line` from character `from` on.
fn tail_of(line: &String, from: usize) -> (tail: String)
    requires
        from <= line@.len(),
    ensures
        tail@ == line@.skip(from as int),
{
    let text = line.as_str();
    let count: usize = text.unicode_len();
    String::from_str(text.substring_char(from, count))
}

/// Extracts the lines `start` to `end` of `lines`, counted from 1 and both
/// included, as a snippet: without the comment lines unless
/// `include_comments` is set, and without the common indentation.
pub fn extract(
    rule: &Rule,
    lines: &Vec<String>,
    start: usize,
    end: usize,
    include_comments: bool,
) -> (out: Vec<String>)
    ensures
        out.deep_view() == snippet(
            rule.language,
            lines.deep_view(),
            start as int,
            end as int,
            include_comments,
        ),
{
    let ghost text = lines.deep_view();
    let from: usize = if start >= 1 {
        start - 1
    } else {
        0
    };
    let upto: usize = if end <= lines.len() {
        end
    } else {
        lines.len()
    };
    let mut kept: Vec<usize> = Vec::new();
    let mut depth: usize = 0;
    let mut least: Option<usize> = None;
    let mut at: usize = from;
    while at < upto
        invariant
            text == lines.deep_view(),
            from <= at,
            at <= upto || at == from,
            upto <= lines.len(),
            depth == if include_comments {
                0
            } else {
                comment_depth(rule.language, text, from as int, at as int)
            },
            depth <= at,
            kept@.len() == kept_lines(
                rule.language,
                text,
                from as int,
                at as int,
                include_comments,
            ).len(),
            forall|k: int|
                0 <= k < kept@.len() ==> (#[trigger] kept@[k]) < lines.len() && text[kept@[k] as int]
                    == kept_lines(rule.language, text, from as int, at as int, include_comments)[k],
            match least {
                Some(n) => least_indent(
                    kept_lines(rule.language, text, from as int, at as int, include_comments),
                ) == Some(n as nat),
                None => least_indent(
                    kept_lines(rule.language, text, from as int, at as int, include_comments),
                ) is None,
            },
        decreases upto - at,
    {
        let line = &lines[at];
        assert(text[at as int] == line@);
        let ghost before = kept_lines(
            rule.language,
            text,
            from as int,
            at as int,
            include_comments,
        );
        let mut keep = true;
        if !include_comments {
            match rule.contains_comment(line) {
                Some(CommentType::MultiLineStart) => {
                    depth = depth + 1;
                    keep = false;
                },
                Some(CommentType::MultiLineEnd) => {
                    if depth > 0 {
                        depth = depth - 1;
                    }
                    keep = false;
                },
                Some(_) => {
                    keep = false;
                },
                None => {
                    keep = depth == 0;
                },
            }
        }
        assert(keep == keeps(rule.language, text, from as int, at as int, include_comments));
        if keep {
            let chars = chars_of(line.as_str());
            if chars.len() > 0 {
                let here: usize = count_leading_spaces(&chars);
                match least {
                    Some(n) if n <= here => {},
                    _ => {
                        least = Some(here);
                    },
                }
            }
            kept.push(at);
            assert(before.push(text[at as int]).drop_last() == before);
        }
        at = at + 1;
    }
    let ghost all = kept_lines(rule.language, text, from as int, upto as int, include_comments);
    assert(kept_lines(rule.language, text, from as int, at as int, include_comments) == all);
    let indent: usize = match least {
        Some(n) => n,
        None => 0,
    };
    let mut out: Vec<String> = Vec::new();
    let mut k: usize = 0;
    while k < kept.len()
        invariant
            text == lines.deep_view(),
            k <= kept.len(),
            kept@.len() == all.len(),
            forall|j: int|
                0 <= j < kept@.len() ==> (#[trigger] kept@[j]) < lines.len() && text[kept@[j] as int]
                    == all[j],
            indent == common_indent(all),
            out@.len() == k,
            forall|j: int| 0 <= j < k ==> (#[trigger] out@[j])@ == strip(all[j], indent as nat),
        decreases kept.len() - k,
    {
        let line = &lines[kept[k]];
        assert(text[kept@[k as int] as int] == line@);
        let chars = chars_of(line.as_str());
        let here: usize = count_leading_spaces(&chars);
        proof {
            crate::text::lemma_leading_run_facts(line@, crate::text::is_space());
        }
        let cut: usize = if here <= indent {
            here
        } else {
            indent
        };
        out.push(tail_of(line, cut));
        k = k + 1;
    }
    assert(out.deep_view() =~= normalized(all));
    out
}

} // verus!
