//! The lexer: from source text to tokens, one at a time.

use crate::chars::{
    digit_char, digits_end, identifier_char, identifier_end, identifier_end_bounds, is_digit,
    is_identifier_char, is_quote, is_whitespace, number_end, number_end_bounds, quote_char,
    string_close, string_close_bounds, whitespace_char, whitespace_end, whitespace_end_bounds,
    without_underscores,
};
use crate::token::{lexemes, Lexeme, Token, TokenKind};
use vstd::prelude::*;

verus! {

/// `String::push` of the standard library appends one character to the end of
/// the string and leaves the characters before it as they were.
pub assume_specification[ std::string::String::push ](text: &mut std::string::String, ch: char)
    ensures
        final(text)@ == old(text)@.push(ch),
;

/// Why the lexer could not produce a token.
#[derive(Debug, Clone, Copy, PartialEq, Eq, Structural)]
pub enum LexError {
    /// A character that starts no token.
    UnrecognizedCharacter,
    /// A string literal whose closing quote is missing.
    UnterminatedString,
}

/// What the lexer finds when it looks for the next token.
pub enum Scan {
    /// Only blanks were left. `at` is the end of the source, or the cursor
    /// itself where it stood behind the end.
    End { at: int },
    /// A token, and the position just behind it.
    Found { lexeme: Lexeme, next: int },
    /// No token starts at `at`, the first position that is not blank.
    Failed { error: LexError, at: int },
}

impl Scan {
    /// Where the cursor stands after this scan.
    pub open spec fn resume(self) -> int {
        match self {
            Scan::End { at } => at,
            Scan::Found { next, .. } => next,
            Scan::Failed { at, .. } => at,
        }
    }

    /// What the scan hands to the caller: nothing at the end of the source,
    /// else a lexeme or an error.
    pub open spec fn item(self) -> Option<Result<Lexeme, LexError>> {
        match self {
            Scan::End { .. } => None,
            Scan::Found { lexeme, .. } => Some(Ok(lexeme)),
            Scan::Failed { error, .. } => Some(Err(error)),
        }
    }
}

/// The kind of the token that the single character `c` forms, if it is a symbol.
pub open spec fn symbol_kind(c: char) -> Option<TokenKind> {
    if c == '(' {
        Some(TokenKind::LeftParen)
    } else if c == ')' {
        Some(TokenKind::RightParen)
    } else if c == '{' {
        Some(TokenKind::LeftBrace)
    } else if c == '}' {
        Some(TokenKind::RightBrace)
    } else if c == '+' {
        Some(TokenKind::Plus)
    } else if c == '-' {
        Some(TokenKind::Minus)
    } else if c == '*' {
        Some(TokenKind::Asterisk)
    } else if c == '/' {
        Some(TokenKind::Slash)
    } else if c == '=' {
        Some(TokenKind::Assign)
    } else if c == ',' {
        Some(TokenKind::Comma)
    } else if c == '!' {
        Some(TokenKind::Bang)
    } else {
        None
    }
}

/// The keyword that `text` spells, if it spells one exactly.
pub open spec fn keyword_kind(text: Seq<char>) -> Option<TokenKind> {
    if text == seq!['f', 'n'] {
        Some(TokenKind::Fn)
    } else if text == seq!['l', 'e', 't'] {
        Some(TokenKind::Let)
    } else if text == seq!['i', 'f'] {
        Some(TokenKind::If)
    } else if text == seq!['e', 'l', 's', 'e'] {
        Some(TokenKind::Else)
    } else if text == seq!['w', 'h', 'i', 'l', 'e'] {
        Some(TokenKind::While)
    } else if text == seq!['t', 'r', 'u', 'e'] {
        Some(TokenKind::True)
    } else if text == seq!['f', 'a', 'l', 's', 'e'] {
        Some(TokenKind::False)
    } else {
        None
    }
}

/// The lexeme of a run of identifier characters: a keyword where the run
/// spells one, else an identifier that carries the run.
pub open spec fn word(text: Seq<char>) -> Lexeme {
    match keyword_kind(text) {
        Some(kind) => Lexeme::bare(kind),
        None => Lexeme { kind: TokenKind::Identifier, text },
    }
}

/// The scan of `source` from position `from`: blanks are passed over, and the
/// first character after them decides the token.
pub open spec fn scan(source: Seq<char>, from: int) -> Scan {
    let start = whitespace_end(source, from);
    if !(0 <= start < source.len()) {
        Scan::End { at: start }
    } else if symbol_kind(source[start]) is Some {
        Scan::Found { lexeme: Lexeme::bare(symbol_kind(source[start])->0), next: start + 1 }
    } else if identifier_char(source[start]) {
        let end = identifier_end(source, start);
        Scan::Found { lexeme: word(source.subrange(start, end)), next: end }
    } else if digit_char(source[start]) {
        let end = number_end(source, start);
        Scan::Found {
            lexeme: Lexeme {
                kind: TokenKind::Number,
                text: without_underscores(source.subrange(start, end)),
            },
            next: end,
        }
    } else if quote_char(source[start]) {
        let close = string_close(source, start + 1, source[start]);
        if close < source.len() {
            Scan::Found {
                lexeme: Lexeme { kind: TokenKind::String, text: source.subrange(start + 1, close) },
                next: close + 1,
            }
        } else {
            Scan::Failed { error: LexError::UnterminatedString, at: start }
        }
    } else {
        Scan::Failed { error: LexError::UnrecognizedCharacter, at: start }
    }
}

/// A scan never moves backwards or past the end, and a token that it finds is
/// not empty.
pub proof fn scan_advances(source: Seq<char>, from: int)
    requires
        0 <= from <= source.len(),
    ensures
        from <= scan(source, from).resume() <= source.len(),
        scan(source, from) is Found ==> from < scan(source, from).resume(),
        scan(source, from) is Found ==> scan(source, from)->lexeme.well_formed(),
{
    whitespace_end_bounds(source, from);
    let start = whitespace_end(source, from);
    if start < source.len() {
        identifier_end_bounds(source, start);
        if digit_char(source[start]) {
            number_end_bounds(source, start);
        }
        string_close_bounds(source, start + 1, source[start]);
    }
}

/// All the tokens of `source` from position `from` on, or the first error.
pub open spec fn tokens_from(source: Seq<char>, from: int) -> Result<Seq<Lexeme>, LexError>
    decreases source.len() - from,
{
    match scan(source, from) {
        Scan::End { .. } => Ok(Seq::empty()),
        Scan::Failed { error, .. } => Err(error),
        Scan::Found { lexeme, next } => {
            if from < next <= source.len() {
                match tokens_from(source, next) {
                    Ok(rest) => Ok(seq![lexeme] + rest),
                    Err(error) => Err(error),
                }
            } else {
                Ok(seq![lexeme])
            }
        },
    }
}

/// The tokens of a whole source text, or the first error in it.
pub open spec fn tokenize(source: Seq<char>) -> Result<Seq<Lexeme>, LexError> {
    tokens_from(source, 0)
}

/// A cursor over a source text that hands out its tokens one by one. The
/// cursor may stand behind the end of the source: there, as at the end, no
/// token is left.
pub struct Lexer {
    source: Vec<char>,
    current: usize,
}

impl Lexer {
    /// The text that this lexer reads.
    pub closed spec fn source(&self) -> Seq<char> {
        self.source@
    }

    /// The position of the cursor: the number of characters already passed.
    pub closed spec fn position(&self) -> int {
        self.current as int
    }

    /// What the next scan of this lexer finds.
    pub open spec fn upcoming(&self) -> Scan {
        scan(self.source(), self.position())
    }

    /// A lexer at the start of `input`.
    pub fn new(input: String) -> (lexer: Lexer)
        ensures
            lexer.source() == input@,
            lexer.position() == 0,
    {
        let text = input.as_str();
        let length = text.unicode_len();
        let mut source: Vec<char> = Vec::new();
        let mut i: usize = 0;
        while i < length
            invariant
                i <= length,
                length == text@.len(),
                source@ == text@.subrange(0, i as int),
            decreases length - i,
        {
            source.push(text.get_char(i));
            i += 1;
            assert(source@ =~= text@.subrange(0, i as int));
        }
        assert(source@ =~= input@);
        Lexer { source, current: 0 }
    }

    /// The character under the cursor; at the end of the source and behind
    /// it, the null character.
    pub fn current_char(&self) -> (c: char)
        ensures
            c == if 0 <= self.position() < self.source().len() {
                self.source()[self.position()]
            } else {
                '\0'
            },
    {
        if self.current < self.source.len() {
            self.source[self.current]
        } else {
            '\0'
        }
    }

    /// Moves the cursor one character on, wherever it stands: also from the
    /// end of the source, and from behind it.
    pub fn read(&mut self)
        requires
            old(self).position() < usize::MAX,
        ensures
            final(self).source() == old(self).source(),
            final(self).position() == old(self).position() + 1,
    {
        self.current = self.current + 1;
    }

    /// Moves the cursor over the blanks in front of it.
    pub fn skip_whitespace(&mut self)
        ensures
            final(self).source() == old(self).source(),
            final(self).position() == whitespace_end(old(self).source(), old(self).position()),
    {
        while self.current < self.source.len() && is_whitespace(self.source[self.current])
            invariant
                self.source() == old(self).source(),
                whitespace_end(self.source(), self.position()) == whitespace_end(
                    old(self).source(),
                    old(self).position(),
                ),
            decreases self.source().len() - self.position(),
        {
            self.read();
        }
    }

    /// The token that the single character `c` forms, if it is a symbol.
    fn symbol(c: char) -> (token: Option<Token>)
        ensures
            token is Some <==> symbol_kind(c) is Some,
            token is Some ==> token->0@ == Lexeme::bare(symbol_kind(c)->0),
    {
        if c == '(' {
            Some(Token::LeftParen)
        } else if c == ')' {
            Some(Token::RightParen)
        } else if c == '{' {
            Some(Token::LeftBrace)
        } else if c == '}' {
            Some(Token::RightBrace)
        } else if c == '+' {
            Some(Token::Plus)
        } else if c == '-' {
            Some(Token::Minus)
        } else if c == '*' {
            Some(Token::Asterisk)
        } else if c == '/' {
            Some(Token::Slash)
        } else if c == '=' {
            Some(Token::Assign)
        } else if c == ',' {
            Some(Token::Comma)
        } else if c == '!' {
            Some(Token::Bang)
        } else {
            None
        }
    }

    /// Whether the characters from `start` on spell `word`.
    fn spells(&self, start: usize, end: usize, word: &Vec<char>) -> (same: bool)
        requires
            start <= end <= self.source().len(),
        ensures
            same == (self.source().subrange(start as int, end as int) == word@),
    {
        let ghost text = self.source().subrange(start as int, end as int);
        if end - start != word.len() {
            return false;
        }
        let mut i: usize = 0;
        while i < word.len()
            invariant
                start <= end <= self.source().len(),
                text == self.source().subrange(start as int, end as int),
                end - start == word.len(),
                i <= word.len(),
                forall|j: int| 0 <= j < i ==> text[j] == word@[j],
            decreases word.len() - i,
        {
            if self.source[start + i] != word[i] {
                assert(text[i as int] != word@[i as int]);
                return false;
            }
            i += 1;
        }
        assert(text =~= word@);
        true
    }

    /// The keyword that the characters from `start` to `end` spell, if any.
    fn keyword(&self, start: usize, end: usize) -> (token: Option<Token>)
        requires
            start <= end <= self.source().len(),
        ensures
            token is Some <==> keyword_kind(self.source().subrange(start as int, end as int))
                is Some,
            token is Some ==> token->0@ == Lexeme::bare(
                keyword_kind(self.source().subrange(start as int, end as int))->0,
            ),
    {
        if self.spells(start, end, &vec!['f', 'n']) {
            Some(Token::Fn)
        } else if self.spells(start, end, &vec!['l', 'e', 't']) {
            Some(Token::Let)
        } else if self.spells(start, end, &vec!['i', 'f']) {
            Some(Token::If)
        } else if self.spells(start, end, &vec!['e', 'l', 's', 'e']) {
            Some(Token::Else)
        } else if self.spells(start, end, &vec!['w', 'h', 'i', 'l', 'e']) {
            Some(Token::While)
        } else if self.spells(start, end, &vec!['t', 'r', 'u', 'e']) {
            Some(Token::True)
        } else if self.spells(start, end, &vec!['f', 'a', 'l', 's', 'e']) {
            Some(Token::False)
        } else {
            None
        }
    }

    /// The characters from `start` to `end`, as a string.
    fn collect(&self, start: usize, end: usize) -> (text: String)
        requires
            start <= end <= self.source().len(),
        ensures
            text@ == self.source().subrange(start as int, end as int),
    {
        let mut text = String::new();
        let mut i: usize = start;
        while i < end
            invariant
                start <= i <= end <= self.source().len(),
                text@ == self.source().subrange(start as int, i as int),
            decreases end - i,
        {
            text.push(self.source[i]);
            i += 1;
            assert(text@ =~= self.source().subrange(start as int, i as int));
        }
        text
    }

    /// The characters from `start` to `end` but the underscores, as a string.
    fn collect_digits(&self, start: usize, end: usize) -> (text: String)
        requires
            start <= end <= self.source().len(),
        ensures
            text@ == without_underscores(self.source().subrange(start as int, end as int)),
    {
        let mut text = String::new();
        let mut i: usize = start;
        while i < end
            invariant
                start <= i <= end <= self.source().len(),
                text@ == without_underscores(self.source().subrange(start as int, i as int)),
            decreases end - i,
        {
            let c = self.source[i];
            if c != '_' {
                text.push(c);
            }
            i += 1;
            assert(self.source().subrange(start as int, i as int).drop_last()
                =~= self.source().subrange(start as int, i - 1));
        }
        text
    }

    /// Moves the cursor over a run of identifier characters.
    fn skip_identifier(&mut self)
        requires
            old(self).position() <= old(self).source().len(),
        ensures
            final(self).source() == old(self).source(),
            final(self).position() == identifier_end(old(self).source(), old(self).position()),
    {
        while self.current < self.source.len() && is_identifier_char(self.source[self.current])
            invariant
                self.source() == old(self).source(),
                self.position() <= self.source().len(),
                identifier_end(self.source(), self.position()) == identifier_end(
                    old(self).source(),
                    old(self).position(),
                ),
            decreases self.source().len() - self.position(),
        {
            self.read();
        }
    }

    /// Moves the cursor over a run of digits and the underscores inside it.
    fn skip_digits(&mut self)
        requires
            old(self).position() <= old(self).source().len(),
        ensures
            final(self).source() == old(self).source(),
            final(self).position() == digits_end(old(self).source(), old(self).position()),
    {
        loop
            invariant
                self.source() == old(self).source(),
                self.position() <= self.source().len(),
                digits_end(self.source(), self.position()) == digits_end(
                    old(self).source(),
                    old(self).position(),
                ),
            ensures
                self.source() == old(self).source(),
                self.position() == digits_end(old(self).source(), old(self).position()),
            decreases self.source().len() - self.position(),
        {
            let length = self.source.len();
            if self.current < length && is_digit(self.source[self.current]) {
                self.read();
            } else if self.current < length && self.source[self.current] == '_' && self.current
                + 1 < length && is_digit(self.source[self.current + 1]) {
                self.read();
                self.read();
            } else {
                break ;
            }
        }
    }

    /// Moves the cursor to the quote that closes a string literal, or to the
    /// end of the source if there is none.
    fn skip_string(&mut self, quote: char)
        requires
            old(self).position() <= old(self).source().len(),
        ensures
            final(self).source() == old(self).source(),
            final(self).position() == string_close(
                old(self).source(),
                old(self).position(),
                quote,
            ),
    {
        loop
            invariant
                self.source() == old(self).source(),
                self.position() <= self.source().len(),
                string_close(self.source(), self.position(), quote) == string_close(
                    old(self).source(),
                    old(self).position(),
                    quote,
                ),
            ensures
                self.source() == old(self).source(),
                self.position() == string_close(
                    old(self).source(),
                    old(self).position(),
                    quote,
                ),
            decreases self.source().len() - self.position(),
        {
            let length = self.source.len();
            if self.current >= length {
                break ;
            }
            let c = self.source[self.current];
            if c == quote {
                break ;
            } else if c == '\\' {
                if self.current + 1 < length {
                    self.read();
                    self.read();
                } else {
                    self.read();
                    break ;
                }
            } else {
                self.read();
            }
        }
    }

    /// Reads the token that starts at the cursor, which stands on a character
    /// that is not blank.
    fn match_token(&mut self) -> (result: Result<Token, LexError>)
        requires
            old(self).position() < old(self).source().len(),
            !whitespace_char(old(self).source()[old(self).position()]),
        ensures
            final(self).source() == old(self).source(),
            final(self).position() == old(self).upcoming().resume(),
            old(self).upcoming() !is End,
            match result {
                Ok(token) => old(self).upcoming().item() == Some(
                    Ok::<Lexeme, LexError>(token@),
                ),
                Err(error) => old(self).upcoming().item() == Some(
                    Err::<Lexeme, LexError>(error),
                ),
            },
    {
        let start = self.current;
        let c = self.source[start];
        assert(start < self.source.len());
        if let Some(token) = Lexer::symbol(c) {
            self.read();
            Ok(token)
        } else if is_identifier_char(c) {
            self.skip_identifier();
            proof {
                identifier_end_bounds(self.source(), start as int);
            }
            let end = self.current;
            match self.keyword(start, end) {
                Some(token) => Ok(token),
                None => Ok(Token::Identifier(self.collect(start, end))),
            }
        } else if is_digit(c) {
            self.skip_digits();
            proof {
                crate::chars::digits_end_bounds(self.source(), start as int);
            }
            if self.current < self.source.len() && self.source[self.current] == '.'
                && self.current + 1 < self.source.len() && is_digit(
                self.source[self.current + 1],
            ) {
                self.read();
                proof {
                    crate::chars::digits_end_bounds(self.source(), self.position());
                }
                self.skip_digits();
            }
            proof {
                number_end_bounds(self.source(), start as int);
            }
            let end = self.current;
            Ok(Token::Number(self.collect_digits(start, end)))
        } else if is_quote(c) {
            self.read();
            self.skip_string(c);
            proof {
                string_close_bounds(self.source(), start + 1, c);
            }
            let close = self.current;
            if close < self.source.len() {
                let text = self.collect(start + 1, close);
                self.read();
                Ok(Token::String(text))
            } else {
                self.current = start;
                Err(LexError::UnterminatedString)
            }
        } else {
            Err(LexError::UnrecognizedCharacter)
        }
    }

    /// Hands out the next token and moves the cursor behind it. At the end of
    /// the source, and behind it, there is none. Where no token starts, the
    /// error is returned and the cursor stays on the character that starts
    /// none.
    pub fn next(&mut self) -> (item: Option<Result<Token, LexError>>)
        ensures
            final(self).source() == old(self).source(),
            final(self).position() == old(self).upcoming().resume(),
            old(self).position() <= old(self).source().len() ==> final(self).position()
                <= final(self).source().len(),
            match item {
                None => old(self).upcoming().item() is None,
                Some(Ok(token)) => old(self).upcoming().item() == Some(
                    Ok::<Lexeme, LexError>(token@),
                ),
                Some(Err(error)) => old(self).upcoming().item() == Some(
                    Err::<Lexeme, LexError>(error),
                ),
            },
    {
        proof {
            if self.position() <= self.source().len() {
                whitespace_end_bounds(self.source(), self.position());
                scan_advances(self.source(), self.position());
            }
        }
        self.skip_whitespace();
        if self.current >= self.source.len() {
            None
        } else {
            Some(self.match_token())
        }
    }

    /// The token that `next` would hand out, with the cursor left where it
    /// was: the cursor is saved before the scan and put back after it.
    pub fn peek(&mut self) -> (item: Option<Result<Token, LexError>>)
        ensures
            final(self).source() == old(self).source(),
            final(self).position() == old(self).position(),
            match item {
                None => old(self).upcoming().item() is None,
                Some(Ok(token)) => old(self).upcoming().item() == Some(
                    Ok::<Lexeme, LexError>(token@),
                ),
                Some(Err(error)) => old(self).upcoming().item() == Some(
                    Err::<Lexeme, LexError>(error),
                ),
            },
    {
        let saved = self.current;
        let item = self.next();
        self.current = saved;
        item
    }
}

/// Peeking has no observable effect: a lexer in the state that `peek` leaves
/// behind, which has the source and the cursor of the state before it, hands
/// out with `next` the very item that `peek` returned. So does a second `peek`.
pub proof fn peek_then_next(before: Lexer, after: Lexer)
    requires
        after.source() == before.source(),
        after.position() == before.position(),
    ensures
        after.upcoming() == before.upcoming(),
        after.upcoming().item() == before.upcoming().item(),
{
}

/// The tokens from a position on are the token found there, if any, followed
/// by the tokens from its end on.
proof fn tokens_from_unfold(source: Seq<char>, from: int)
    requires
        0 <= from <= source.len(),
    ensures
        tokens_from(source, from) == match scan(source, from) {
            Scan::End { .. } => Ok::<Seq<Lexeme>, LexError>(Seq::empty()),
            Scan::Failed { error, .. } => Err(error),
            Scan::Found { lexeme, next } => match tokens_from(source, next) {
                Ok(rest) => Ok(seq![lexeme] + rest),
                Err(error) => Err(error),
            },
        },
{
    scan_advances(source, from);
}

/// Lexes a whole source text: all its tokens in order, or the first lexical
/// error, at which scanning stops.
pub fn generate(input: &str) -> (result: Result<Vec<Token>, LexError>)
    ensures
        match result {
            Ok(tokens) => tokenize(input@) == Ok::<Seq<Lexeme>, LexError>(lexemes(tokens@)),
            Err(error) => tokenize(input@) == Err::<Seq<Lexeme>, LexError>(error),
        },
{
    let mut lexer = Lexer::new(input.to_owned());
    let mut tokens: Vec<Token> = Vec::new();
    let ghost source = input@;
    assert(lexemes(tokens@) =~= Seq::<Lexeme>::empty());
    proof {
        match tokens_from(source, 0) {
            Ok(rest) => {
                assert(lexemes(tokens@) + rest =~= rest);
            },
            Err(_) => {},
        }
    }
    loop
        invariant
            lexer.source() == source,
            source == input@,
            0 <= lexer.position() <= source.len(),
            match tokens_from(source, lexer.position()) {
                Ok(rest) => tokenize(source) == Ok::<Seq<Lexeme>, LexError>(
                    lexemes(tokens@) + rest,
                ),
                Err(error) => tokenize(source) == Err::<Seq<Lexeme>, LexError>(error),
            },
        decreases source.len() - lexer.position(),
    {
        let ghost position = lexer.position();
        let ghost before = lexemes(tokens@);
        proof {
            tokens_from_unfold(source, position);
            scan_advances(source, position);
        }
        match lexer.next() {
            None => {
                assert(before + Seq::<Lexeme>::empty() =~= before);
                return Ok(tokens);
            },
            Some(Err(error)) => {
                return Err(error);
            },
            Some(Ok(token)) => {
                let ghost lexeme = token@;
                tokens.push(token);
                proof {
                    assert(lexemes(tokens@) =~= before.push(lexeme));
                    match tokens_from(source, lexer.position()) {
                        Ok(rest) => {
                            assert(before + (seq![lexeme] + rest) =~= before.push(lexeme) + rest);
                        },
                        Err(_) => {},
                    }
                }
            },
        }
    }
}

} // verus!
