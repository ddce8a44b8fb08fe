//! Character classes of the source language and the runs they form.

use vstd::prelude::*;

verus! {

/// Blank characters separate tokens: space, tab, newline and form feed.
pub open spec fn whitespace_char(c: char) -> bool {
    c == ' ' || c == '\t' || c == '\n' || c == '\x0c'
}

/// Characters of an identifier: ASCII letters, `_` and `?`.
pub open spec fn identifier_char(c: char) -> bool {
    ('a' <= c && c <= 'z') || ('A' <= c && c <= 'Z') || c == '_' || c == '?'
}

/// Decimal digits.
pub open spec fn digit_char(c: char) -> bool {
    '0' <= c && c <= '9'
}

/// The two characters that open and close a string literal.
pub open spec fn quote_char(c: char) -> bool {
    c == '"' || c == '\''
}

/// Whether `c` is a blank character.
#[verifier::when_used_as_spec(whitespace_char)]
pub fn is_whitespace(c: char) -> (b: bool)
    ensures
        b == whitespace_char(c),
{
    c == ' ' || c == '\t' || c == '\n' || c == '\x0c'
}

/// Whether `c` may stand in an identifier.
#[verifier::when_used_as_spec(identifier_char)]
pub fn is_identifier_char(c: char) -> (b: bool)
    ensures
        b == identifier_char(c),
{
    ('a' <= c && c <= 'z') || ('A' <= c && c <= 'Z') || c == '_' || c == '?'
}

/// Whether `c` is a decimal digit.
#[verifier::when_used_as_spec(digit_char)]
pub fn is_digit(c: char) -> (b: bool)
    ensures
        b == digit_char(c),
{
    '0' <= c && c <= '9'
}

/// Whether `c` opens a string literal.
#[verifier::when_used_as_spec(quote_char)]
pub fn is_quote(c: char) -> (b: bool)
    ensures
        b == quote_char(c),
{
    c == '"' || c == '\''
}

/// The first position at or after `from` that holds no blank character, or
/// the length of `source` when only blanks remain.
pub open spec fn whitespace_end(source: Seq<char>, from: int) -> int
    decreases source.len() - from,
{
    if 0 <= from < source.len() && whitespace_char(source[from]) {
        whitespace_end(source, from + 1)
    } else {
        from
    }
}

/// The end of the longest run of identifier characters that starts at `from`.
pub open spec fn identifier_end(source: Seq<char>, from: int) -> int
    decreases source.len() - from,
{
    if 0 <= from < source.len() && identifier_char(source[from]) {
        identifier_end(source, from + 1)
    } else {
        from
    }
}

/// The end of the longest run of digits that starts at `from`, in which an
/// underscore may stand directly before a digit as a grouping separator.
pub open spec fn digits_end(source: Seq<char>, from: int) -> int
    decreases source.len() - from,
{
    if 0 <= from < source.len() && digit_char(source[from]) {
        digits_end(source, from + 1)
    } else if 0 <= from && from + 1 < source.len() && source[from] == '_' && digit_char(
        source[from + 1],
    ) {
        digits_end(source, from + 2)
    } else {
        from
    }
}

/// The end of the numeric literal that starts at `from`: a run of digits,
/// then, if a point and a digit follow, the point and a second run.
pub open spec fn number_end(source: Seq<char>, from: int) -> int {
    let whole = digits_end(source, from);
    if 0 <= whole && whole + 1 < source.len() && source[whole] == '.' && digit_char(
        source[whole + 1],
    ) {
        digits_end(source, whole + 1)
    } else {
        whole
    }
}

/// The position of the quote that closes a string literal whose content
/// starts at `from`, or the length of `source` if the literal is never closed.
/// A backslash takes the character after it along, so an escaped quote does
/// not close the literal.
pub open spec fn string_close(source: Seq<char>, from: int, quote: char) -> int
    decreases source.len() - from,
{
    if 0 <= from < source.len() {
        if source[from] == quote {
            from
        } else if source[from] == '\\' {
            if from + 1 < source.len() {
                string_close(source, from + 2, quote)
            } else {
                source.len() as int
            }
        } else {
            string_close(source, from + 1, quote)
        }
    } else {
        source.len() as int
    }
}

/// The characters of `text` with every underscore left out.
pub open spec fn without_underscores(text: Seq<char>) -> Seq<char>
    decreases text.len(),
{
    if text.len() == 0 {
        Seq::empty()
    } else if text.last() == '_' {
        without_underscores(text.drop_last())
    } else {
        without_underscores(text.drop_last()).push(text.last())
    }
}

/// A run of blanks ends inside the source, holds only blanks, and stops at
/// the first character that is not blank.
pub proof fn whitespace_end_bounds(source: Seq<char>, from: int)
    requires
        0 <= from <= source.len(),
    ensures
        from <= whitespace_end(source, from) <= source.len(),
        forall|i: int| from <= i < whitespace_end(source, from) ==> whitespace_char(source[i]),
        whitespace_end(source, from) < source.len() ==> !whitespace_char(
            source[whitespace_end(source, from)],
        ),
    decreases source.len() - from,
{
    if from < source.len() && whitespace_char(source[from]) {
        whitespace_end_bounds(source, from + 1);
    }
}

/// A run of identifier characters ends inside the source, holds only such
/// characters, and is as long as it can be.
pub proof fn identifier_end_bounds(source: Seq<char>, from: int)
    requires
        0 <= from <= source.len(),
    ensures
        from <= identifier_end(source, from) <= source.len(),
        forall|i: int| from <= i < identifier_end(source, from) ==> identifier_char(source[i]),
        identifier_end(source, from) < source.len() ==> !identifier_char(
            source[identifier_end(source, from)],
        ),
    decreases source.len() - from,
{
    if from < source.len() && identifier_char(source[from]) {
        identifier_end_bounds(source, from + 1);
    }
}

/// A run of digits ends inside the source and holds only digits and
/// underscores.
pub proof fn digits_end_bounds(source: Seq<char>, from: int)
    requires
        0 <= from <= source.len(),
    ensures
        from <= digits_end(source, from) <= source.len(),
        forall|i: int|
            from <= i < digits_end(source, from) ==> digit_char(source[i]) || source[i] == '_',
    decreases source.len() - from,
{
    if from < source.len() && digit_char(source[from]) {
        digits_end_bounds(source, from + 1);
    } else if from + 1 < source.len() && source[from] == '_' && digit_char(source[from + 1]) {
        digits_end_bounds(source, from + 2);
    }
}

/// A numeric literal that starts at a digit is not empty and ends inside the
/// source.
pub proof fn number_end_bounds(source: Seq<char>, from: int)
    requires
        0 <= from < source.len(),
        digit_char(source[from]),
    ensures
        from < number_end(source, from) <= source.len(),
{
    digits_end_bounds(source, from);
    digits_end_bounds(source, from + 1);
    let whole = digits_end(source, from);
    if whole + 1 < source.len() {
        digits_end_bounds(source, whole + 1);
    }
}

/// The closing quote of a string literal, where there is one, lies inside
/// the source at or after the start of the content.
pub proof fn string_close_bounds(source: Seq<char>, from: int, quote: char)
    requires
        0 <= from <= source.len(),
    ensures
        from <= string_close(source, from, quote) <= source.len(),
        string_close(source, from, quote) < source.len() ==> source[string_close(
            source,
            from,
            quote,
        )] == quote,
    decreases source.len() - from,
{
    if from < source.len() {
        if source[from] == quote {
        } else if source[from] == '\\' {
            if from + 1 < source.len() {
                string_close_bounds(source, from + 2, quote);
            }
        } else {
            string_close_bounds(source, from + 1, quote);
        }
    }
}

/// No underscore is left in a text from which the underscores were taken out,
/// and every character that is left was in the text.
pub proof fn without_underscores_has_none(text: Seq<char>)
    ensures
        forall|i: int|
            0 <= i < without_underscores(text).len() ==> without_underscores(text)[i] != '_',
        forall|i: int|
            0 <= i < without_underscores(text).len() ==> text.contains(
                #[trigger] without_underscores(text)[i],
            ),
        without_underscores(text).len() <= text.len(),
    decreases text.len(),
{
    if text.len() > 0 {
        let front = text.drop_last();
        without_underscores_has_none(front);
        assert forall|i: int| 0 <= i < without_underscores(text).len() implies text.contains(
            #[trigger] without_underscores(text)[i],
        ) by {
            if i < without_underscores(front).len() {
                let c = without_underscores(front)[i];
                assert(front.contains(c));
                let j = choose|j: int| 0 <= j < front.len() && front[j] == c;
                assert(text[j] == c);
            } else {
                assert(text[text.len() - 1] == text.last());
            }
        }
    }
}

/// A text without underscores is left as it is.
pub proof fn without_underscores_of_plain(text: Seq<char>)
    requires
        forall|i: int| 0 <= i < text.len() ==> text[i] != '_',
    ensures
        without_underscores(text) == text,
    decreases text.len(),
{
    if text.len() > 0 {
        without_underscores_of_plain(text.drop_last());
        assert(text.drop_last().push(text.last()) =~= text);
    }
}

} // verus!
