//! How tokens are written as source text, and that the lexer reads them back.

use crate::chars::{
    digit_char, digits_end, digits_end_bounds, identifier_char, identifier_end,
    identifier_end_bounds, number_end, number_end_bounds, whitespace_end, whitespace_end_bounds,
    without_underscores, without_underscores_has_none, without_underscores_of_plain,
};
use crate::lexer::{
    keyword_kind, scan, scan_advances, symbol_kind, tokenize, tokens_from, LexError, Scan,
};
use crate::token::{Lexeme, TokenKind};
use vstd::prelude::*;

verus! {

/// A numeral: digits, optionally followed by a point and more digits, and
/// nothing else.
pub open spec fn numeral(text: Seq<char>) -> bool {
    &&& text.len() > 0
    &&& digit_char(text[0])
    &&& forall|i: int| 0 <= i < text.len() ==> text[i] != '_'
    &&& number_end(text, 0) == text.len()
}

/// A proper name: identifier characters that spell no keyword.
pub open spec fn proper_name(text: Seq<char>) -> bool {
    &&& text.len() > 0
    &&& forall|i: int| 0 <= i < text.len() ==> identifier_char(text[i])
    &&& keyword_kind(text) is None
}

/// The character that spells an operator token.
pub open spec fn operator_char(kind: TokenKind) -> Option<char> {
    match kind {
        TokenKind::Plus => Some('+'),
        TokenKind::Minus => Some('-'),
        TokenKind::Asterisk => Some('*'),
        TokenKind::Slash => Some('/'),
        TokenKind::Bang => Some('!'),
        _ => None,
    }
}

/// The tokens of arithmetic that can be written down and read back: a
/// number whose text is a numeral, an identifier whose text is a proper name,
/// and the operators.
pub open spec fn writable(lexeme: Lexeme) -> bool {
    match lexeme.kind {
        TokenKind::Number => numeral(lexeme.text),
        TokenKind::Identifier => proper_name(lexeme.text),
        _ => operator_char(lexeme.kind) is Some && lexeme.text == Seq::<char>::empty(),
    }
}

/// The characters that spell a token.
pub open spec fn spell(lexeme: Lexeme) -> Seq<char> {
    match operator_char(lexeme.kind) {
        Some(c) => seq![c],
        None => lexeme.text,
    }
}

/// The source text of a token sequence: each token's spelling, followed by a
/// space.
pub open spec fn print(tokens: Seq<Lexeme>) -> Seq<char>
    decreases tokens.len(),
{
    if tokens.len() == 0 {
        Seq::empty()
    } else {
        spell(tokens[0]) + seq![' '] + print(tokens.drop_first())
    }
}

/// The source text of two token sequences in a row is the source text of the
/// first followed by that of the second.
pub proof fn print_of_concatenation(first: Seq<Lexeme>, second: Seq<Lexeme>)
    ensures
        print(first + second) == print(first) + print(second),
    decreases first.len(),
{
    if first.len() == 0 {
        assert(first + second =~= second);
        assert(print(first) + print(second) =~= print(second));
    } else {
        print_of_concatenation(first.drop_first(), second);
        assert((first + second).drop_first() =~= first.drop_first() + second);
        assert((first + second)[0] == first[0]);
        assert(print(first + second) =~= print(first) + print(second));
    }
}

/// A run of identifier characters that a character of another class follows
/// ends there.
proof fn identifier_run_ends(source: Seq<char>, from: int, end: int)
    requires
        0 <= from <= end < source.len(),
        forall|i: int| from <= i < end ==> identifier_char(source[i]),
        !identifier_char(source[end]),
    ensures
        identifier_end(source, from) == end,
    decreases end - from,
{
    if from < end {
        identifier_run_ends(source, from + 1, end);
    }
}

/// The digits of a text without underscores, written into a source and
/// followed there by a space, run in the source as they run in the text.
proof fn digits_run_alike(source: Seq<char>, at: int, text: Seq<char>, k: int)
    requires
        0 <= at,
        0 <= k <= text.len(),
        at + text.len() < source.len(),
        forall|i: int| 0 <= i < text.len() ==> source[at + i] == text[i],
        forall|i: int| 0 <= i < text.len() ==> text[i] != '_',
        source[at + text.len()] == ' ',
    ensures
        digits_end(source, at + k) == at + digits_end(text, k),
    decreases text.len() - k,
{
    if k < text.len() {
        assert(source[at + k] == text[k]);
        if digit_char(text[k]) {
            digits_run_alike(source, at, text, k + 1);
        }
    }
}

/// A writable token, written into a source at a position and followed there
/// by a space, is what a scan from that position finds, and the scan ends
/// behind the token.
pub proof fn scan_finds_written(source: Seq<char>, at: int, lexeme: Lexeme)
    requires
        writable(lexeme),
        0 <= at,
        at + spell(lexeme).len() < source.len(),
        source.subrange(at, at + spell(lexeme).len()) == spell(lexeme),
        source[at + spell(lexeme).len()] == ' ',
    ensures
        scan(source, at) == (Scan::Found { lexeme, next: at + spell(lexeme).len() }),
        spell(lexeme).len() > 0,
{
    let text = spell(lexeme);
    let end = at + text.len();
    assert(forall|i: int| 0 <= i < text.len() ==> source[at + i] == source.subrange(at, end)[i]);
    match lexeme.kind {
        TokenKind::Number => {
            assert(source[at] == text[0]);
            digits_run_alike(source, at, text, 0);
            let whole = digits_end(text, 0);
            crate::chars::digits_end_bounds(text, 0);
            if whole + 1 < text.len() {
                assert(source[at + whole] == text[whole]);
                assert(source[at + whole + 1] == text[whole + 1]);
                digits_run_alike(source, at, text, whole + 1);
            } else if whole < text.len() {
                assert(source[at + whole] == text[whole]);
            }
            assert(number_end(source, at) == end);
            without_underscores_of_plain(text);
        },
        TokenKind::Identifier => {
            assert(source[at] == text[0]);
            assert forall|i: int| at <= i < end implies identifier_char(source[i]) by {
                assert(source[at + (i - at)] == text[i - at]);
            }
            identifier_run_ends(source, at, end);
            assert(source.subrange(at, end) =~= text);
        },
        _ => {
            assert(source[at] == text[0]);
        },
    }
}

/// A space in front of the tokens changes nothing.
proof fn tokens_behind_space(source: Seq<char>, at: int)
    requires
        0 <= at < source.len(),
        source[at] == ' ',
    ensures
        tokens_from(source, at) == tokens_from(source, at + 1),
{
    scan_advances(source, at);
    scan_advances(source, at + 1);
    assert(scan(source, at) == scan(source, at + 1));
}

/// The lexer reads writable tokens back from where they are written: if the
/// source from `at` on is the source text of the tokens, the tokens from `at`
/// on are those tokens.
pub proof fn tokens_of_printed(source: Seq<char>, at: int, tokens: Seq<Lexeme>)
    requires
        0 <= at <= source.len(),
        source.subrange(at, source.len() as int) == print(tokens),
        forall|i: int| 0 <= i < tokens.len() ==> writable(tokens[i]),
    ensures
        tokens_from(source, at) == Ok::<Seq<Lexeme>, LexError>(tokens),
    decreases tokens.len(),
{
    let tail = source.subrange(at, source.len() as int);
    if tokens.len() == 0 {
        assert(tail.len() == 0);
        assert(tokens =~= Seq::<Lexeme>::empty());
    } else {
        let first = tokens[0];
        let rest = tokens.drop_first();
        let text = spell(first);
        let end = at + text.len();
        assert(writable(first));
        assert(tail.len() == text.len() + 1 + print(rest).len());
        assert(forall|i: int| 0 <= i < tail.len() ==> source[at + i] == tail[i]);
        assert(source.subrange(at, end) =~= text) by {
            assert forall|i: int| 0 <= i < text.len() implies source.subrange(at, end)[i]
                == text[i] by {
                assert(source[at + i] == tail[i]);
            }
        }
        assert(source[end] == tail[text.len() as int]);
        scan_finds_written(source, at, first);
        scan_advances(source, at);
        tokens_behind_space(source, end);
        assert(source.subrange(end + 1, source.len() as int) =~= print(rest)) by {
            assert forall|i: int| 0 <= i < print(rest).len() implies source.subrange(
                end + 1,
                source.len() as int,
            )[i] == print(rest)[i] by {
                assert(source[end + 1 + i] == tail[text.len() + 1 + i]);
            }
        }
        assert forall|i: int| 0 <= i < rest.len() implies writable(rest[i]) by {
            assert(rest[i] == tokens[i + 1]);
        }
        tokens_of_printed(source, end + 1, rest);
        assert(seq![first] + rest =~= tokens);
    }
}

/// The lexer reads the source text of writable tokens back as those tokens.
pub proof fn tokenize_printed(tokens: Seq<Lexeme>)
    requires
        forall|i: int| 0 <= i < tokens.len() ==> writable(tokens[i]),
    ensures
        tokenize(print(tokens)) == Ok::<Seq<Lexeme>, LexError>(tokens),
{
    let source = print(tokens);
    assert(source.subrange(0, source.len() as int) =~= source);
    tokens_of_printed(source, 0, tokens);
}

/// A token as the lexer makes it: the text of a number is a numeral and
/// the text of an identifier is a proper name.
pub open spec fn valid(lexeme: Lexeme) -> bool {
    &&& lexeme.kind == TokenKind::Number ==> numeral(lexeme.text)
    &&& lexeme.kind == TokenKind::Identifier ==> proper_name(lexeme.text)
}

/// Whether every character of a text is a digit.
pub open spec fn all_digits(text: Seq<char>) -> bool {
    forall|i: int| 0 <= i < text.len() ==> digit_char(text[i])
}

/// To leave the underscores out of two texts in a row is to leave them out
/// of each.
pub proof fn without_underscores_of_concatenation(first: Seq<char>, second: Seq<char>)
    ensures
        without_underscores(first + second) == without_underscores(first) + without_underscores(
            second,
        ),
    decreases second.len(),
{
    if second.len() == 0 {
        assert(first + second =~= first);
        assert(without_underscores(first) + without_underscores(second) =~= without_underscores(
            first,
        ));
    } else {
        without_underscores_of_concatenation(first, second.drop_last());
        assert((first + second).drop_last() =~= first + second.drop_last());
        assert((first + second).last() == second.last());
        assert(without_underscores(first + second) =~= without_underscores(first)
            + without_underscores(second));
    }
}

/// Of a single character nothing is left if it is an underscore, else the
/// character.
proof fn without_underscores_of_one(c: char)
    ensures
        without_underscores(seq![c]) == if c == '_' {
            Seq::<char>::empty()
        } else {
            seq![c]
        },
{
    let one = seq![c];
    assert(one.drop_last() =~= Seq::<char>::empty());
    assert(without_underscores(Seq::<char>::empty()) =~= Seq::<char>::empty());
    assert(one.last() == c);
    assert(Seq::<char>::empty().push(c) =~= one);
}

/// A run of digits with grouping underscores holds, without the
/// underscores, digits only, and at least one if it starts with a digit.
proof fn digits_run_is_all_digits(source: Seq<char>, from: int)
    requires
        0 <= from <= source.len(),
    ensures
        all_digits(without_underscores(source.subrange(from, digits_end(source, from)))),
        from < source.len() && digit_char(source[from]) ==> without_underscores(
            source.subrange(from, digits_end(source, from)),
        ).len() > 0,
    decreases source.len() - from,
{
    let end = digits_end(source, from);
    digits_end_bounds(source, from);
    let run = source.subrange(from, end);
    if from < source.len() && digit_char(source[from]) {
        digits_run_is_all_digits(source, from + 1);
        digits_end_bounds(source, from + 1);
        let head = seq![source[from]];
        let tail = source.subrange(from + 1, end);
        assert(run =~= head + tail);
        without_underscores_of_concatenation(head, tail);
        without_underscores_of_one(source[from]);
    } else if from + 1 < source.len() && source[from] == '_' && digit_char(source[from + 1]) {
        digits_run_is_all_digits(source, from + 1);
        digits_end_bounds(source, from + 1);
        assert(digits_end(source, from + 1) == end);
        let head = seq![source[from]];
        let tail = source.subrange(from + 1, end);
        assert(run =~= head + tail);
        without_underscores_of_concatenation(head, tail);
        without_underscores_of_one(source[from]);
        assert(without_underscores(run) =~= without_underscores(tail));
    } else {
        assert(run =~= Seq::<char>::empty());
    }
}

/// A run of plain digits, which neither a digit nor an underscore follows,
/// ends there.
proof fn plain_digits_end(text: Seq<char>, from: int, end: int)
    requires
        0 <= from <= end <= text.len(),
        forall|i: int| from <= i < end ==> digit_char(text[i]),
        end < text.len() ==> !digit_char(text[end]) && text[end] != '_',
    ensures
        digits_end(text, from) == end,
    decreases end - from,
{
    if from < end {
        plain_digits_end(text, from + 1, end);
    }
}

/// Digits, a point and digits are a numeral; so are digits alone.
proof fn digits_point_digits_is_numeral(whole: Seq<char>, fraction: Seq<char>)
    requires
        all_digits(whole),
        all_digits(fraction),
        whole.len() > 0,
    ensures
        numeral(whole),
        fraction.len() > 0 ==> numeral(whole + seq!['.'] + fraction),
{
    plain_digits_end(whole, 0, whole.len() as int);
    if fraction.len() > 0 {
        let text = whole + seq!['.'] + fraction;
        let point = whole.len() as int;
        assert(text[point] == '.');
        assert forall|i: int| 0 <= i < point implies digit_char(text[i]) by {
            assert(text[i] == whole[i]);
        }
        assert forall|i: int| point < i < text.len() implies digit_char(text[i]) by {
            assert(text[i] == fraction[i - point - 1]);
        }
        plain_digits_end(text, 0, point);
        plain_digits_end(text, point + 1, text.len() as int);
        assert(text[0] == whole[0]);
        assert(text[point + 1] == fraction[0]);
    }
}

/// A token that a scan finds is valid and well formed.
pub proof fn scan_finds_valid(source: Seq<char>, from: int)
    requires
        0 <= from <= source.len(),
    ensures
        scan(source, from) matches Scan::Found { lexeme, .. } ==> valid(lexeme)
            && lexeme.well_formed(),
{
    whitespace_end_bounds(source, from);
    let start = whitespace_end(source, from);
    if start < source.len() && symbol_kind(source[start]) is None {
        if identifier_char(source[start]) {
            identifier_end_bounds(source, start);
            let end = identifier_end(source, start);
            let text = source.subrange(start, end);
            assert forall|i: int| 0 <= i < text.len() implies identifier_char(text[i]) by {
                assert(text[i] == source[start + i]);
            }
        } else if digit_char(source[start]) {
            number_end_bounds(source, start);
            digits_end_bounds(source, start);
            digits_run_is_all_digits(source, start);
            let middle = digits_end(source, start);
            let end = number_end(source, start);
            let whole = without_underscores(source.subrange(start, middle));
            if end == middle {
                digits_point_digits_is_numeral(whole, Seq::empty());
            } else {
                digits_end_bounds(source, middle + 1);
                digits_run_is_all_digits(source, middle + 1);
                let fraction = without_underscores(source.subrange(middle + 1, end));
                let point = seq![source[middle]];
                assert(source.subrange(start, end) =~= source.subrange(start, middle) + point
                    + source.subrange(middle + 1, end));
                without_underscores_of_concatenation(
                    source.subrange(start, middle) + point,
                    source.subrange(middle + 1, end),
                );
                without_underscores_of_concatenation(source.subrange(start, middle), point);
                without_underscores_of_one(source[middle]);
                digits_point_digits_is_numeral(whole, fraction);
            }
        }
    }
}

/// Every token that the lexer makes of a source is valid.
pub proof fn tokens_are_valid(source: Seq<char>, from: int)
    requires
        0 <= from <= source.len(),
    ensures
        tokens_from(source, from) matches Ok(tokens) ==> forall|i: int|
            0 <= i < tokens.len() ==> valid(#[trigger] tokens[i]),
    decreases source.len() - from,
{
    scan_advances(source, from);
    scan_finds_valid(source, from);
    match scan(source, from) {
        Scan::Found { lexeme, next } => {
            tokens_are_valid(source, next);
            match tokens_from(source, next) {
                Ok(rest) => {
                    let tokens = seq![lexeme] + rest;
                    assert forall|i: int| 0 <= i < tokens.len() implies valid(
                        #[trigger] tokens[i],
                    ) by {
                        if i > 0 {
                            assert(tokens[i] == rest[i - 1]);
                        }
                    }
                },
                Err(_) => {},
            }
        },
        _ => {},
    }
}

/// A numeric literal as it is written: it starts with a digit and holds
/// digits, underscores and at most one point, where each underscore and the
/// point stand directly before a digit.
pub open spec fn grouped_numeral(literal: Seq<char>) -> bool {
    &&& literal.len() > 0
    &&& digit_char(literal[0])
    &&& forall|i: int|
        0 <= i < literal.len() ==> digit_char(literal[i]) || literal[i] == '_' || literal[i]
            == '.'
    &&& forall|i: int|
        0 <= i < literal.len() && (#[trigger] literal[i] == '_' || literal[i] == '.') ==> i + 1
            < literal.len() && digit_char(literal[i + 1])
    &&& forall|i: int, j: int|
        0 <= i < j < literal.len() ==> !(literal[i] == '.' && literal[j] == '.')
}

/// The characters that can stand in a numeric literal.
pub open spec fn numeral_char(c: char) -> bool {
    digit_char(c) || c == '_' || c == '.'
}

/// A run of digits, with underscores directly before digits, ends where
/// neither a digit nor an underscore follows.
proof fn grouped_digits_end(source: Seq<char>, from: int, end: int)
    requires
        0 <= from <= end <= source.len(),
        forall|i: int|
            from <= i < end ==> digit_char(#[trigger] source[i]) || (source[i] == '_' && i + 1
                < end && digit_char(source[i + 1])),
        end < source.len() ==> !digit_char(source[end]) && source[end] != '_',
    ensures
        digits_end(source, from) == end,
    decreases end - from,
{
    if from < end {
        if digit_char(source[from]) {
            grouped_digits_end(source, from + 1, end);
        } else {
            grouped_digits_end(source, from + 2, end);
        }
    }
}

/// A numeric literal at the cursor lexes to a number token whose text is
/// the literal without its underscores. Where blanks are passed, a numeric
/// literal follows them, and no character that can stand in a numeric literal
/// follows the literal, the scan finds a number; its text is the literal with
/// every underscore left out, so it holds none; and the scan ends just
/// behind the literal.
pub proof fn scan_reads_grouped_number(source: Seq<char>, from: int, literal: Seq<char>)
    requires
        0 <= from <= source.len(),
        grouped_numeral(literal),
        whitespace_end(source, from) + literal.len() <= source.len(),
        source.subrange(
            whitespace_end(source, from),
            whitespace_end(source, from) + literal.len(),
        ) == literal,
        whitespace_end(source, from) + literal.len() < source.len() ==> !numeral_char(
            source[whitespace_end(source, from) + literal.len()],
        ),
    ensures
        scan(source, from) == (Scan::Found {
            lexeme: Lexeme { kind: TokenKind::Number, text: without_underscores(literal) },
            next: whitespace_end(source, from) + literal.len(),
        }),
        forall|i: int|
            0 <= i < without_underscores(literal).len() ==> without_underscores(literal)[i] != '_',
        numeral(without_underscores(literal)),
{
    whitespace_end_bounds(source, from);
    without_underscores_has_none(literal);
    let at = whitespace_end(source, from);
    let end = at + literal.len();
    assert(forall|i: int| 0 <= i < literal.len() ==> source[at + i] == source.subrange(at, end)[i]);
    assert(source[at] == literal[0]);
    if exists|p: int| 0 <= p < literal.len() && literal[p] == '.' {
        let p = choose|p: int| 0 <= p < literal.len() && literal[p] == '.';
        let point = at + p;
        assert forall|i: int| at <= i < point implies digit_char(#[trigger] source[i]) || (
        source[i] == '_' && i + 1 < point && digit_char(source[i + 1])) by {
            assert(source[at + (i - at)] == literal[i - at]);
            assert(source[at + (i - at + 1)] == literal[i - at + 1]);
        }
        assert(source[at + p] == literal[p]);
        grouped_digits_end(source, at, point);
        assert(source[at + (p + 1)] == literal[p + 1]);
        assert forall|i: int| point + 1 <= i < end implies digit_char(#[trigger] source[i]) || (
        source[i] == '_' && i + 1 < end && digit_char(source[i + 1])) by {
            assert(source[at + (i - at)] == literal[i - at]);
            if i + 1 < end {
                assert(source[at + (i - at + 1)] == literal[i - at + 1]);
            }
        }
        grouped_digits_end(source, point + 1, end);
    } else {
        assert forall|i: int| at <= i < end implies digit_char(#[trigger] source[i]) || (
        source[i] == '_' && i + 1 < end && digit_char(source[i + 1])) by {
            assert(source[at + (i - at)] == literal[i - at]);
            if i + 1 < end {
                assert(source[at + (i - at + 1)] == literal[i - at + 1]);
            }
        }
        grouped_digits_end(source, at, end);
    }
    assert(number_end(source, at) == end);
    scan_finds_valid(source, from);
}

} // verus!
