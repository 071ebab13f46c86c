//! Cleaning of one raw line before any detector looks at it.
use vstd::prelude::*;
use crate::text::{chars_of, find_char, first_index, string_of};

verus! {

/// The character that ends a pasted line-number prefix (a rightwards arrow).
pub open spec fn line_number_marker() -> char {
    '\u{2192}'
}

/// The line without its line-number prefix: what follows the first marker, or
/// the whole line when it holds no marker.
pub open spec fn after_marker(line: Seq<char>) -> Seq<char> {
    let cut = first_index(line, line_number_marker());
    if cut < line.len() {
        line.skip(cut as int + 1)
    } else {
        line
    }
}

/// What `strip_ansi_escapes::strip_str` makes of a text: the text without its
/// terminal escape sequences and control characters.
pub uninterp spec fn ansi_stripped(text: Seq<char>) -> Seq<char>;

/// The cleaned form of a raw line: the line-number prefix goes first, the
/// escape sequences after it.
pub open spec fn sanitized(line: Seq<char>) -> Seq<char> {
    ansi_stripped(after_marker(line))
}

/// Calls `strip_ansi_escapes::strip_str`, which feeds the text to a terminal
/// parser and keeps what that parser prints. The result is a function of the
/// text alone; the contract only names it.
#[verifier::external_body]
fn strip_ansi(text: &str) -> (out: String)
    ensures
        out@ == ansi_stripped(text@),
{
    strip_ansi_escapes::strip_str(text)
}

/// Drops the line-number prefix of a raw line, if it has one.
pub fn strip_line_number(line: &str) -> (out: String)
    ensures
        out@ == after_marker(line@),
{
    let chars = chars_of(line);
    let cut = find_char(&chars, '\u{2192}');
    if cut < chars.len() {
        let out = string_of(&chars, cut + 1, chars.len());
        assert(chars@.skip(cut as int + 1) == chars@.subrange(cut + 1, chars.len() as int));
        out
    } else {
        let out = string_of(&chars, 0, chars.len());
        assert(chars@.subrange(0, chars.len() as int) == chars@);
        out
    }
}

/// Cleans one raw line.
pub fn sanitize_line(line: &str) -> (out: String)
    ensures
        out@ == sanitized(line@),
{
    let bare = strip_line_number(line);
    strip_ansi(bare.as_str())
}

} // verus!
