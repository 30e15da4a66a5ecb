//! Text functions of the standard library, with what they return.

use vstd::prelude::*;

verus! {

/// `text` begins with `prefix`.
pub open spec fn starts_with(text: Seq<char>, prefix: Seq<char>) -> bool {
    prefix.len() <= text.len() && text.take(prefix.len() as int) == prefix
}

/// `part` occurs somewhere in `text`.
pub open spec fn contains_text(text: Seq<char>, part: Seq<char>) -> bool {
    exists|at: int| 0 <= at <= text.len() && #[trigger] starts_with(text.skip(at), part)
}

/// `text` without the run of `edge` characters at its end.
pub open spec fn trim_end_of(text: Seq<char>, edge: char) -> Seq<char>
    decreases text.len(),
{
    if text.len() > 0 && text.last() == edge {
        trim_end_of(text.drop_last(), edge)
    } else {
        text
    }
}

/// `text` without the run of `edge` characters at its start.
pub open spec fn trim_start_of(text: Seq<char>, edge: char) -> Seq<char>
    decreases text.len(),
{
    if text.len() > 0 && text[0] == edge {
        trim_start_of(text.skip(1), edge)
    } else {
        text
    }
}

/// `text`, read from left to right, with `with` in place of each occurrence of `part` that does
/// not overlap one already replaced.
pub open spec fn replace_all(text: Seq<char>, part: Seq<char>, with: Seq<char>) -> Seq<char>
    decreases text.len(),
{
    if text.len() == 0 || part.len() == 0 {
        text
    } else if starts_with(text, part) {
        with + replace_all(text.skip(part.len() as int), part, with)
    } else {
        seq![text[0]] + replace_all(text.skip(1), part, with)
    }
}

/// The characters with the Unicode property `White_Space`.
pub open spec fn is_white_space(c: char) -> bool {
    ||| '\u{9}' <= c <= '\u{d}'
    ||| c == '\u{20}'
    ||| c == '\u{85}'
    ||| c == '\u{a0}'
    ||| c == '\u{1680}'
    ||| '\u{2000}' <= c <= '\u{200a}'
    ||| c == '\u{2028}'
    ||| c == '\u{2029}'
    ||| c == '\u{202f}'
    ||| c == '\u{205f}'
    ||| c == '\u{3000}'
}

/// `text` without the white space at its end.
pub open spec fn trim_white_end(text: Seq<char>) -> Seq<char>
    decreases text.len(),
{
    if text.len() > 0 && is_white_space(text.last()) {
        trim_white_end(text.drop_last())
    } else {
        text
    }
}

/// `text` without the white space at its start.
pub open spec fn trim_white_start(text: Seq<char>) -> Seq<char>
    decreases text.len(),
{
    if text.len() > 0 && is_white_space(text[0]) {
        trim_white_start(text.skip(1))
    } else {
        text
    }
}

/// `text` without the white space at either end.
pub open spec fn trim_white(text: Seq<char>) -> Seq<char> {
    trim_white_end(trim_white_start(text))
}

/// Every character of `text` is an ASCII character.
pub open spec fn is_ascii_text(text: Seq<char>) -> bool {
    forall|i: int| 0 <= i < text.len() ==> #[trigger] text[i] <= '\u{7f}'
}

/// The small letter of an ASCII capital letter, and any other character itself.
pub open spec fn ascii_lower(c: char) -> char {
    if 'A' <= c <= 'Z' {
        ((c as u32) + 32) as char
    } else {
        c
    }
}

/// The part of `text` before its first `mark`; all of it where there is no `mark`.
pub open spec fn before_first(text: Seq<char>, mark: char) -> Seq<char>
    decreases text.len(),
{
    if text.len() == 0 || text[0] == mark {
        Seq::empty()
    } else {
        seq![text[0]] + before_first(text.skip(1), mark)
    }
}

/// The lower case of a text, as `str::to_lowercase` gives it.
pub uninterp spec fn lower_case(text: Seq<char>) -> Seq<char>;

/// `==` on `str`: whether the two hold the same characters.
#[verifier::external_body]
pub(crate) fn same_text(left: &str, right: &str) -> (same: bool)
    ensures
        same == (left@ == right@),
{
    left == right
}

/// `str::contains` with a text pattern: whether the pattern occurs in the text.
#[verifier::external_body]
pub(crate) fn contains_part(text: &str, part: &str) -> (found: bool)
    ensures
        found == contains_text(text@, part@),
{
    text.contains(part)
}

/// `str::trim_end_matches` with a character pattern: the text without that character at its end,
/// however often it stands there.
#[verifier::external_body]
pub(crate) fn trim_end_char(text: &str, edge: char) -> (trimmed: &str)
    ensures
        trimmed@ == trim_end_of(text@, edge),
{
    text.trim_end_matches(edge)
}

/// `str::trim_start_matches` with a character pattern: the text without that character at its
/// start, however often it stands there.
#[verifier::external_body]
pub(crate) fn trim_start_char(text: &str, edge: char) -> (trimmed: &str)
    ensures
        trimmed@ == trim_start_of(text@, edge),
{
    text.trim_start_matches(edge)
}

/// `str::replace` with a text pattern that is not empty: each occurrence is replaced, and of
/// occurrences that overlap only the first.
#[verifier::external_body]
pub(crate) fn replace_part(text: &str, part: &str, with: &str) -> (replaced: String)
    requires
        part@.len() > 0,
    ensures
        replaced@ == replace_all(text@, part@, with@),
{
    text.replace(part, with)
}

/// `str::trim`: the text without the Unicode white space at either end.
#[verifier::external_body]
pub(crate) fn trim_text(text: &str) -> (trimmed: &str)
    ensures
        trimmed@ == trim_white(text@),
{
    text.trim()
}

/// `str::to_lowercase`: the lower case of the text. Of a text of ASCII characters it is known
/// letter by letter; of any other text only that it depends on the text alone.
#[verifier::external_body]
pub(crate) fn lower_text(text: &str) -> (lowered: String)
    ensures
        lowered@ == lower_case(text@),
        is_ascii_text(text@) ==> lowered@ == text@.map_values(|c: char| ascii_lower(c)),
{
    text.to_lowercase()
}

/// `str::split_once` with a character delimiter: the parts before and after the first
/// occurrence, and `None` where the character does not occur.
#[verifier::external_body]
pub(crate) fn split_at_first(text: &str, mark: char) -> (parts: Option<(&str, &str)>)
    ensures
        match parts {
            Some((before, after)) => !before@.contains(mark) && text@ == before@ + seq![mark]
                + after@,
            None => !text@.contains(mark),
        },
{
    text.split_once(mark)
}

} // verus!
