//! The identifier of a snippet, derived from its lines alone.

use sha2::Digest;
use vstd::prelude::*;
use vstd::string::*;

verus! {

/// The SHA-256 digest of `text` in UTF-8, written in hexadecimal with
/// lower-case digits.
pub uninterp spec fn sha256_hex(text: Seq<char>) -> Seq<char>;

/// Hashes `text` with `sha2::Sha256::digest` and formats the digest with
/// `{:x}`.
///
/// Not proved: that the outcome depends on the text alone, which is what
/// gives it the name [`sha256_hex`]. Nothing is claimed about the digest of
/// any given text.
#[verifier::external_body]
pub(crate) fn sha256_hex_of(text: &str) -> (digest: String)
    ensures
        digest@ == sha256_hex(text@),
{
    format!("{:x}", sha2::Sha256::digest(text))
}

/// `first`, a space, and `second`.
pub open spec fn spaced(first: Seq<char>, second: Seq<char>) -> Seq<char> {
    first + seq![' '] + second
}

/// The identifier of a snippet.
///
/// It is empty for no lines and the line itself for one line. For more
/// lines it is the digest of the identifier of all lines but the first,
/// a space, and the first line.
pub open spec fn content_id(lines: Seq<Seq<char>>) -> Seq<char>
    decreases lines.len(),
{
    if lines.len() == 0 {
        Seq::empty()
    } else if lines.len() == 1 {
        lines[0]
    } else {
        sha256_hex(spaced(content_id(lines.skip(1)), lines[0]))
    }
}

/// No lines have the empty identifier, and one line is its own identifier.
pub proof fn content_id_of_short_snippets(line: Seq<char>)
    ensures
        content_id(Seq::empty()) == Seq::<char>::empty(),
        content_id(seq![line]) == line,
{
}

/// The identifier can be had by folding from the end: the last two lines
/// are replaced by the digest of the last one, a space, and the one before
/// it, until one line is left.
pub proof fn content_id_folds_from_the_end(
    lines: Seq<Seq<char>>,
    before_last: Seq<char>,
    last: Seq<char>,
)
    ensures
        content_id(lines.push(before_last).push(last)) == content_id(
            lines.push(sha256_hex(spaced(last, before_last))),
        ),
    decreases lines.len(),
{
    let long = lines.push(before_last).push(last);
    let short = lines.push(sha256_hex(spaced(last, before_last)));
    if lines.len() == 0 {
        assert(long.skip(1) == seq![last]);
        assert(content_id(long.skip(1)) == last);
    } else {
        let rest = lines.skip(1);
        assert(long.skip(1) == rest.push(before_last).push(last));
        assert(short.skip(1) == rest.push(sha256_hex(spaced(last, before_last))));
        content_id_folds_from_the_end(rest, before_last, last);
    }
}

/// Computes the identifier of a snippet from its lines.
pub fn merkle_tree_hash(lines: &Vec<String>) -> (id: String)
    ensures
        id@ == content_id(lines.deep_view()),
{
    let ghost text = lines.deep_view();
    if lines.len() == 0 {
        return String::new();
    }
    let mut at: usize = lines.len() - 1;
    let mut id = lines[at].clone();
    assert(text.skip(at as int).len() == 1);
    while at > 0
        invariant
            text == lines.deep_view(),
            at < lines.len(),
            id@ == content_id(text.skip(at as int)),
        decreases at,
    {
        at = at - 1;
        proof {
            reveal_strlit(" ");
            assert(" "@ == seq![' ']);
            assert(text.skip(at as int).skip(1) == text.skip(at + 1));
        }
        let mut joined = id;
        joined.append(" ");
        joined.append(lines[at].as_str());
        id = sha256_hex_of(joined.as_str());
    }
    assert(text.skip(0) == text);
    id
}

} // verus!
