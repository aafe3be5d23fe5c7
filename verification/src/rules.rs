//! The rule of a source file: its language, how a line of it is told to
//! declare a function, and how a line of it is told to be a comment.

use crate::language::Language;
use crate::text::{
    chars_of, ends_with_mark, marks_end, marks_start, starts_with_mark, trim, trimmed,
};
use vstd::prelude::*;
use vstd::string::*;

verus! {

/// What a line is with respect to comments.
#[derive(Clone, Copy, Debug, PartialEq, Eq, Structural)]
pub enum CommentType {
    /// The line is a comment that ends with the line.
    SingleLine,
    /// The line opens a comment that goes on below it.
    MultiLineStart,
    /// The line closes a comment that was opened above it.
    MultiLineEnd,
    /// The line opens a comment and closes it again.
    MultiLineComplete,
}

/// The language of a source file and the pair of characters that open and
/// close a block in it.
#[derive(Clone, Copy, Debug)]
pub struct Rule {
    pub language: Language,
    pub delimiter: (char, char),
}

/// What group number `group` of the regular expression `pattern` holds for
/// the leftmost match of the pattern in `text`: `None` where the pattern is
/// not a valid expression, where it matches nowhere in `text`, where it has
/// no such group, and where the group took no part in the match.
pub uninterp spec fn regex_group(pattern: Seq<char>, text: Seq<char>, group: nat) -> Option<
    Seq<char>,
>;

/// Compiles `pattern` with `regex::Regex::new`, searches `text` with
/// `Regex::captures` and reads the group with `Captures::get` and
/// `Match::as_str`.
///
/// Not proved: that the outcome depends on the three arguments alone, which
/// is what gives it the name [`regex_group`]. Nothing is claimed about which
/// texts a pattern matches.
#[verifier::external_body]
pub(crate) fn capture_group(pattern: &str, text: &str, group: usize) -> (found: Option<String>)
    ensures
        found.deep_view() == regex_group(pattern@, text@, group as nat),
{
    let expression = regex::Regex::new(pattern).ok()?;
    let groups = expression.captures(text)?;
    Some(groups.get(group)?.as_str().to_string())
}

/// A letter of the Latin alphabet, a digit or an underscore.
pub open spec fn plain_char(c: char) -> bool {
    ('a' <= c && c <= 'z') || ('A' <= c && c <= 'Z') || ('0' <= c && c <= '9') || c == '_'
}

/// A path that is one plain file name: letters, digits, underscores, dots and
/// hyphens, with neither a dot nor a hyphen at either end.
pub open spec fn plain_name(path: Seq<char>) -> bool {
    &&& path.len() > 0
    &&& plain_char(path.first())
    &&& plain_char(path.last())
    &&& forall|i: int|
        0 <= i < path.len() ==> plain_char(#[trigger] path[i]) || path[i] == '.' || path[i] == '-'
}

/// The part of `text` behind the last occurrence of `c`, if `c` occurs.
pub open spec fn text_after_last(text: Seq<char>, c: char) -> Option<Seq<char>>
    decreases text.len(),
{
    if text.len() == 0 {
        None
    } else if text.last() == c {
        Some(Seq::empty())
    } else {
        match text_after_last(text.drop_last(), c) {
            None => None,
            Some(rest) => Some(rest.push(text.last())),
        }
    }
}

/// `part` stands in `text` directly behind a dot.
pub open spec fn follows_dot(text: Seq<char>, part: Seq<char>) -> bool {
    exists|i: int|
        0 < i && i + part.len() <= text.len() && text[i - 1] == '.' && #[trigger] text.subrange(
            i,
            i + part.len(),
        ) == part
}

/// Reads the extension of a path with `std::path::Path::extension`.
///
/// Not proved, and taken from the documentation of that method: the
/// extension is the part of the file name behind its last dot, so it holds no
/// dot and stands in the path behind one; and a path that is a single plain
/// file name is its own file name, whose dots are all inside it.
/// How a path with separators is split into components depends on the
/// platform, and nothing is claimed of it.
#[verifier::external_body]
pub(crate) fn path_extension(path: &str) -> (extension: Option<String>)
    ensures
        extension matches Some(e) ==> !e@.contains('.') && follows_dot(path@, e@),
        plain_name(path@) ==> extension.deep_view() == text_after_last(path@, '.'),
{
    Some(std::path::Path::new(path).extension()?.to_str()?.to_string())
}

/// How a line that has been trimmed is classified, given the three comment
/// markers. An empty marker marks nothing. The first case that applies wins.
pub open spec fn classify_trimmed(
    text: Seq<char>,
    line_mark: Seq<char>,
    start_mark: Seq<char>,
    end_mark: Seq<char>,
) -> Option<CommentType> {
    if marks_start(text, line_mark) {
        Some(CommentType::SingleLine)
    } else if marks_start(text, start_mark) && marks_end(text, end_mark) {
        Some(CommentType::MultiLineComplete)
    } else if marks_start(text, start_mark) {
        Some(CommentType::MultiLineStart)
    } else if marks_end(text, end_mark) {
        Some(CommentType::MultiLineEnd)
    } else {
        None
    }
}

/// How a line of a file in `language` is classified: the white space around
/// it does not count.
pub open spec fn classify(language: Language, line: Seq<char>) -> Option<CommentType> {
    classify_trimmed(
        trimmed(line),
        language.line_comment(),
        language.block_comment_start(),
        language.block_comment_end(),
    )
}

/// Whether a line of a file in `language` declares the function `name`: the
/// pattern of the language matches the line, and its first group is `name`.
pub open spec fn declares(language: Language, line: Seq<char>, name: Seq<char>) -> bool {
    regex_group(language.function_pattern(), line, 1) == Some(name)
}

/// Whether the captured group is there and is exactly `name`.
pub fn group_is(found: &Option<String>, name: &str) -> (r: bool)
    ensures
        r == (found.deep_view() == Some(name@)),
{
    match found {
        Some(text) => crate::text::same_text(text.as_str(), name),
        None => false,
    }
}

impl Rule {
    /// The rule of a language: blocks are delimited by braces.
    pub open spec fn of(language: Language) -> Rule {
        Rule { language, delimiter: ('{', '}') }
    }

    /// The rule for a file whose path has the given extension, or none where
    /// the path has no extension.
    pub fn for_extension(extension: Option<&str>) -> (rule: Option<Rule>)
        ensures
            rule == match extension {
                Some(e) => Some(Rule::of(Language::resolve(e@))),
                None => None,
            },
    {
        match extension {
            Some(e) => Some(Rule { language: Language::from_extension(e), delimiter: ('{', '}') }),
            None => None,
        }
    }

    /// The rule for the file at `path`, or none where the path has no
    /// extension.
    ///
    /// The extension is read by the standard library. For a path that is a
    /// single plain file name the outcome is stated exactly; for any other
    /// path, only that the extension stands in the path behind a dot.
    pub fn new(path: &str) -> (rule: Option<Rule>)
        ensures
            plain_name(path@) ==> rule == match text_after_last(path@, '.') {
                Some(e) => Some(Rule::of(Language::resolve(e))),
                None => None,
            },
            rule matches Some(r) ==> exists|e: Seq<char>|
                #[trigger] follows_dot(path@, e) && !e.contains('.') && r == Rule::of(
                    Language::resolve(e),
                ),
            !path@.contains('.') ==> rule is None,
    {
        let extension = path_extension(path);
        match extension {
            Some(e) => {
                proof {
                    let i = choose|i: int|
                        0 < i && i + e@.len() <= path@.len() && path@[i - 1] == '.'
                            && #[trigger] path@.subrange(i, i + e@.len()) == e@;
                    assert(path@.contains('.'));
                }
                Rule::for_extension(Some(e.as_str()))
            },
            None => Rule::for_extension(None),
        }
    }

    /// Whether `line` declares the function `function_name`.
    ///
    /// The pattern is matched by the `regex` crate; see [`regex_group`].
    pub fn contains_function(&self, line: &String, function_name: &String) -> (r: bool)
        ensures
            r == declares(self.language, line@, function_name@),
    {
        let pattern = self.language.get_function_syntax();
        let found = capture_group(pattern, line.as_str(), 1);
        group_is(&found, function_name.as_str())
    }

    /// Classifies `line` by the comment markers of the language.
    ///
    /// What counts as white space around the line is decided by the
    /// standard library; see [`crate::text::white_space`].
    pub fn contains_comment(&self, line: &String) -> (kind: Option<CommentType>)
        ensures
            kind == classify(self.language, line@),
    {
        let markers = self.language.get_comment_delimiters();
        let line_mark = chars_of(markers.0.as_str());
        let start_mark = chars_of(markers.1.as_str());
        let end_mark = chars_of(markers.2.as_str());
        let text = trim(&chars_of(line.as_str()));
        classify_text(&text, &line_mark, &start_mark, &end_mark)
    }
}

/// Classifies a line that has no white space around it by the three
/// comment markers.
pub fn classify_text(
    text: &Vec<char>,
    line_mark: &Vec<char>,
    start_mark: &Vec<char>,
    end_mark: &Vec<char>,
) -> (kind: Option<CommentType>)
    ensures
        kind == classify_trimmed(text@, line_mark@, start_mark@, end_mark@),
{
    if starts_with_mark(text, line_mark) {
        Some(CommentType::SingleLine)
    } else if starts_with_mark(text, start_mark) {
        if ends_with_mark(text, end_mark) {
            Some(CommentType::MultiLineComplete)
        } else {
            Some(CommentType::MultiLineStart)
        }
    } else if ends_with_mark(text, end_mark) {
        Some(CommentType::MultiLineEnd)
    } else {
        None
    }
}

} // verus!
