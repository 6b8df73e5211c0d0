//! The tokenizer: one block's text, turned into tokens one by one.

use vstd::prelude::*;
use vstd::string::*;
use crate::cursor::{char_at, newline_count, Cursor};
use crate::errors::{ErrorStruct, Errorable, SyntaxError};
use crate::preprocessor::{block_close_is_brace, is_block_text};
use crate::lexical::{
    operator_pair, run_end, scan_at, scan_number, scan_string, single_kind, test_class,
    string_close, test_digit, word_kind, CharClass, Outcome, Scan,
};
use crate::text::codepoints;
use crate::tokens::{Token, TokenType};

verus! {

/// The number of codepoints of the marker that opens a block: `\%{`.
pub const MARKER_LENGTH: usize = 3;

/// Where the scanned region of a block's text begins: behind the marker.
pub open spec fn region_start(s: Seq<char>) -> int {
    if s.len() < MARKER_LENGTH {
        s.len() as int
    } else {
        MARKER_LENGTH as int
    }
}

/// Where the scanned region of a block's text ends: before the closing
/// brace, the last codepoint. A text too short to hold the marker and the
/// brace has an empty region.
pub open spec fn region_end(s: Seq<char>) -> int {
    if s.len() <= MARKER_LENGTH {
        s.len() as int
    } else {
        s.len() - 1
    }
}

/// Of a block's text the scanned region is the inside: what stands between
/// the marker and the closing brace.
pub proof fn region_of_block(t: Seq<char>)
    requires
        is_block_text(t),
    ensures
        region_start(t) == MARKER_LENGTH,
        region_end(t) == t.len() - 1,
        region_start(t) <= region_end(t),
        t[region_end(t)] == '}',
{
    block_close_is_brace(t, 3, 1);
}

/// The error that a scan stands for, on the line where its token begins;
/// none where it found a token.
pub open spec fn error_of(scan: Scan, line: usize) -> Option<SyntaxError> {
    match scan.outcome {
        Outcome::Token(_) => None,
        Outcome::UnterminatedString => Some(
            SyntaxError::UnterminatedString { line, offset: scan.start as usize },
        ),
        Outcome::InvalidDigit { digit, radix } => Some(
            SyntaxError::InvalidDigitForRadix {
                digit,
                radix: radix as u32,
                line,
                offset: scan.next as usize,
            },
        ),
        Outcome::Unexpected { character } => Some(
            SyntaxError::UnexpectedCharacter {
                character,
                line,
                start: scan.start as usize,
                end: scan.next as usize,
            },
        ),
    }
}

/// Whether `r` is what `scan` stands for in the text `t`: the token of the
/// scan's kind whose lexeme is the text between the scan's start and end, on
/// `line`; or the scan's error.
pub open spec fn agrees(
    r: Result<Token<'_>, SyntaxError>,
    scan: Scan,
    t: Seq<char>,
    line: usize,
) -> bool {
    match r {
        Ok(token) => {
            &&& scan.outcome == Outcome::Token(token.type_)
            &&& token.lexeme@ == t.subrange(scan.start, scan.next)
            &&& token.line == line
        },
        Err(e) => Some(e) == error_of(scan, line),
    }
}

/// What makes a two-codepoint operator of `c`, if anything does.
pub fn operator_pair_of(c: char) -> (pair: Option<(char, TokenType)>)
    ensures
        pair == operator_pair(c),
{
    match c {
        '-' => Some(('>', TokenType::DashArrow)),
        '=' => Some(('=', TokenType::EqualEqual)),
        '!' => Some(('=', TokenType::BangEqual)),
        '>' => Some(('=', TokenType::GreaterEqual)),
        '<' => Some(('=', TokenType::LessEqual)),
        '&' => Some(('&', TokenType::AmpersandDouble)),
        '|' => Some(('|', TokenType::PipeDouble)),
        ':' => Some((':', TokenType::DoubleColon)),
        _ => None,
    }
}

/// The kind of the token that the single codepoint `c` makes, if any.
pub fn single_kind_of(c: char) -> (kind: Option<TokenType>)
    ensures
        kind == single_kind(c),
{
    match c {
        '{' => Some(TokenType::CurlyBraceOpen),
        '}' => Some(TokenType::CurlyBraceClose),
        '[' => Some(TokenType::SquareBraceOpen),
        ']' => Some(TokenType::SquareBraceClose),
        '(' => Some(TokenType::RoundBraceOpen),
        ')' => Some(TokenType::RoundBraceClose),
        '+' => Some(TokenType::Plus),
        '-' => Some(TokenType::Minus),
        '/' => Some(TokenType::SlashForward),
        '*' => Some(TokenType::Asterisk),
        '=' => Some(TokenType::Equal),
        '!' => Some(TokenType::Bang),
        '>' => Some(TokenType::GreaterThan),
        '<' => Some(TokenType::LessThan),
        '&' => Some(TokenType::Ampersand),
        '|' => Some(TokenType::Pipe),
        '\\' => Some(TokenType::SlashBack),
        ';' => Some(TokenType::Semicolon),
        ',' => Some(TokenType::Comma),
        '.' => Some(TokenType::Dot),
        '?' => Some(TokenType::QuestionMark),
        ':' => Some(TokenType::Colon),
        _ => None,
    }
}

/// A tokenizer over the text of one block. It scans the region between the
/// marker and the closing brace; `start` is where the last token began and
/// `line` the line of that offset, counted from 0 at the region's start.
pub struct Scanner<'a> {
    pub source: &'a str,
    pub cursor: Cursor,
    pub start: usize,
    pub line: usize,
}

impl<'a> Scanner<'a> {
    /// The scanned text: the block's text up to the closing brace.
    pub open spec fn text(&self) -> Seq<char> {
        self.cursor.chars@
    }

    /// The current offset into the block's text.
    pub open spec fn current(&self) -> int {
        self.cursor.offset as int
    }

    /// The line of `offset`: the number of newlines between the region's
    /// start and `offset`.
    pub open spec fn line_of(&self, offset: int) -> nat {
        newline_count(self.text(), self.cursor.origin as int, offset)
    }

    pub open spec fn wf(&self) -> bool {
        &&& self.cursor.wf()
        &&& self.text() == self.source@.take(region_end(self.source@))
        &&& self.cursor.origin == region_start(self.source@)
        &&& self.cursor.origin <= self.start <= self.cursor.offset
        &&& self.line == self.line_of(self.start as int)
    }

    /// Whether `self` is `before` but for its offset, which has not moved
    /// back.
    pub open spec fn follows(&self, before: &Self) -> bool {
        &&& self.source == before.source
        &&& self.cursor.chars == before.cursor.chars
        &&& self.cursor.origin == before.cursor.origin
        &&& self.start == before.start
        &&& self.line == before.line
        &&& self.cursor.offset >= before.cursor.offset
    }

    /// A scanner at the start of the region of `source`, a block's text.
    pub fn new(source: &'a str) -> (scanner: Self)
        ensures
            scanner.wf(),
            scanner.source == source,
            scanner.start == region_start(source@),
            scanner.current() == region_start(source@),
            scanner.line == 0,
    {
        let mut chars = codepoints(source);
        let n = chars.len();
        let origin: usize = if n < MARKER_LENGTH {
            n
        } else {
            MARKER_LENGTH
        };
        let end: usize = if n <= MARKER_LENGTH {
            n
        } else {
            n - 1
        };
        chars.truncate(end);
        Scanner { source, cursor: Cursor::new(chars, origin), start: origin, line: 0 }
    }

    pub fn is_at_end(&self) -> (at_end: bool)
        ensures
            at_end == (self.current() >= self.text().len()),
    {
        self.cursor.is_at_end()
    }

    /// The codepoint at the current offset, or `END_OF_TEXT`.
    pub fn peek(&self) -> (c: char)
        ensures
            c == char_at(self.text(), self.current()),
    {
        self.cursor.look(0)
    }

    /// The codepoint behind the one at the current offset, or `END_OF_TEXT`.
    pub fn peek_next(&self) -> (c: char)
        ensures
            c == char_at(self.text(), self.current() + 1),
    {
        self.cursor.look(1)
    }

    /// The codepoint before the current offset, or `END_OF_TEXT`.
    pub fn peek_previous(&self) -> (c: char)
        requires
            self.wf(),
        ensures
            c == char_at(self.text(), self.current() - 1),
    {
        if self.cursor.offset == 0 {
            return '\0';
        }
        self.cursor.chars[self.cursor.offset - 1]
    }

    /// Passes one codepoint and returns it; at the end of the region nothing
    /// changes.
    pub fn advance(&mut self) -> (passed: Option<char>)
        requires
            old(self).wf(),
        ensures
            final(self).wf(),
            final(self).follows(old(self)),
            passed == if old(self).current() < old(self).text().len() {
                Some(old(self).text()[old(self).current()])
            } else {
                None
            },
            final(self).current() == if passed is Some {
                old(self).current() + 1
            } else {
                old(self).current()
            },
    {
        self.cursor.advance()
    }

    /// Passes the codepoint at the current offset if it is `expected`, and
    /// says whether it did.
    pub fn matches(&mut self, expected: char) -> (matched: bool)
        requires
            old(self).wf(),
        ensures
            final(self).wf(),
            final(self).follows(old(self)),
            matched == (old(self).current() < old(self).text().len() && old(self).text()[old(
                self,
            ).current()] == expected),
            final(self).current() == if matched {
                old(self).current() + 1
            } else {
                old(self).current()
            },
    {
        self.cursor.matches(expected)
    }

    /// Passes the maximal run of codepoints of `class` at the current offset.
    pub fn consume_run(&mut self, class: CharClass)
        requires
            old(self).wf(),
        ensures
            final(self).wf(),
            final(self).follows(old(self)),
            final(self).current() == run_end(old(self).text(), old(self).current(), class),
    {
        while !self.is_at_end() && test_class(class, self.peek())
            invariant
                self.wf(),
                self.follows(old(self)),
                run_end(self.text(), self.current(), class) == run_end(
                    old(self).text(),
                    old(self).current(),
                    class,
                ),
            decreases self.text().len() - self.current(),
        {
            self.advance();
        }
    }

    /// Passes blanks and newlines.
    pub fn skip_whitespace(&mut self)
        requires
            old(self).wf(),
        ensures
            final(self).wf(),
            final(self).follows(old(self)),
            final(self).current() == run_end(
                old(self).text(),
                old(self).current(),
                CharClass::Blank,
            ),
    {
        self.consume_run(CharClass::Blank);
    }

    /// The token of kind `type_` that spans the text from `start` to the
    /// current offset.
    pub fn make_token(&self, type_: TokenType) -> (token: Token<'a>)
        requires
            self.wf(),
        ensures
            token.type_ == type_,
            token.lexeme@ == self.text().subrange(self.start as int, self.current()),
            token.line == self.line,
    {
        let lexeme = self.source.substring_char(self.start, self.cursor.offset);
        assert(lexeme@ =~= self.text().subrange(self.start as int, self.current()));
        Token::new(type_, lexeme, self.line)
    }

    /// Whether the text from `start` to the current offset spells `word`.
    pub fn spells(&self, word: &str) -> (b: bool)
        requires
            self.wf(),
        ensures
            b == (self.text().subrange(self.start as int, self.current()) == word@),
    {
        let n = word.unicode_len();
        let ghost lexeme = self.text().subrange(self.start as int, self.current());
        if self.cursor.offset - self.start != n {
            return false;
        }
        let mut i: usize = 0;
        while i < n
            invariant
                self.wf(),
                i <= n == word@.len() == lexeme.len(),
                lexeme == self.text().subrange(self.start as int, self.current()),
                forall|j: int| 0 <= j < i ==> lexeme[j] == word@[j],
            decreases n - i,
        {
            if self.cursor.chars[self.start + i] != word.get_char(i) {
                assert(lexeme[i as int] != word@[i as int]);
                return false;
            }
            i += 1;
        }
        assert(lexeme =~= word@);
        true
    }

    /// The kind of the word from `start` to the current offset.
    pub fn identifier_type(&self) -> (kind: TokenType)
        requires
            self.wf(),
        ensures
            kind == word_kind(self.text().subrange(self.start as int, self.current())),
    {
        if self.spells("struct") {
            TokenType::Struct
        } else if self.spells("implement") {
            TokenType::Impl
        } else if self.spells("for") {
            TokenType::For
        } else if self.spells("while") {
            TokenType::While
        } else if self.spells("break") {
            TokenType::Break
        } else if self.spells("continue") {
            TokenType::Continue
        } else if self.spells("if") {
            TokenType::If
        } else if self.spells("else") {
            TokenType::Else
        } else if self.spells("def") {
            TokenType::Define
        } else if self.spells("let") {
            TokenType::Let
        } else if self.spells("true") {
            TokenType::True
        } else if self.spells("false") {
            TokenType::False
        } else if self.spells("none") {
            TokenType::NoneLiteral
        } else if self.spells("return") {
            TokenType::Return
        } else if self.spells("echo") {
            TokenType::Echo
        } else {
            TokenType::Identifier
        }
    }

    /// Scans the rest of a word whose first codepoint was passed.
    pub fn identifier(&mut self) -> (token: Token<'a>)
        requires
            old(self).wf(),
        ensures
            final(self).wf(),
            final(self).follows(old(self)),
            final(self).current() == run_end(
                old(self).text(),
                old(self).current(),
                CharClass::Word,
            ),
            token.type_ == word_kind(
                old(self).text().subrange(old(self).start as int, final(self).current()),
            ),
            token.lexeme@ == old(self).text().subrange(
                old(self).start as int,
                final(self).current(),
            ),
            token.line == old(self).line,
    {
        self.consume_run(CharClass::Word);
        self.make_token(self.identifier_type())
    }

    /// Scans the rest of a number literal whose first digit was passed.
    pub fn number(&mut self) -> (r: Result<Token<'a>, SyntaxError>)
        requires
            old(self).wf(),
            old(self).current() == old(self).start + 1,
        ensures
            final(self).wf(),
            final(self).follows(old(self)),
            final(self).current() == scan_number(old(self).text(), old(self).start as int).next,
            agrees(
                r,
                scan_number(old(self).text(), old(self).start as int),
                old(self).text(),
                old(self).line,
            ),
    {
        let mut radix: u32 = 10;
        if self.peek_previous() == '0' {
            let prefix = self.peek();
            if prefix == 'x' || prefix == 'X' {
                radix = 16;
            } else if prefix == 'o' || prefix == 'O' {
                radix = 8;
            } else if prefix == 'b' || prefix == 'B' {
                radix = 2;
            }
            if radix != 10 {
                self.advance();
            }
        }
        self.consume_run(CharClass::Digit { radix });
        let c = self.peek();
        if test_digit(c, 16) && !(radix == 10 && c == 'e' && test_digit(self.peek_next(), 10)) {
            return Err(
                SyntaxError::InvalidDigitForRadix {
                    digit: c,
                    radix,
                    line: self.line,
                    offset: self.cursor.offset,
                },
            );
        }
        if radix == 10 {
            if self.peek() == '.' && test_digit(self.peek_next(), 10) {
                self.advance();
                self.consume_run(CharClass::Digit { radix: 10 });
            }
            if self.peek() == 'e' && test_digit(self.peek_next(), 10) {
                self.advance();
                self.consume_run(CharClass::Digit { radix: 10 });
            }
        }
        Ok(self.make_token(TokenType::Number))
    }

    /// Scans the rest of a string literal whose opening quote was passed.
    pub fn string(&mut self) -> (r: Result<Token<'a>, SyntaxError>)
        requires
            old(self).wf(),
            old(self).current() == old(self).start + 1,
        ensures
            final(self).wf(),
            final(self).follows(old(self)),
            final(self).current() == scan_string(old(self).text(), old(self).start as int).next,
            agrees(
                r,
                scan_string(old(self).text(), old(self).start as int),
                old(self).text(),
                old(self).line,
            ),
    {
        while !self.is_at_end() && self.peek() != '"'
            invariant
                self.wf(),
                self.follows(old(self)),
                string_close(self.text(), self.current()) == string_close(
                    old(self).text(),
                    old(self).start + 1,
                ),
            decreases self.text().len() - self.current(),
        {
            if self.peek() == '\\' {
                self.advance();
            }
            self.advance();
        }
        if self.is_at_end() {
            return Err(SyntaxError::UnterminatedString { line: self.line, offset: self.start });
        }
        self.advance();
        Ok(self.make_token(TokenType::String))
    }

    /// Scans the next token: passes blanks, then returns the end-of-input
    /// token at the end of the region, else the token that begins there, or
    /// the error that the text holds there.
    pub fn scan_token(&mut self) -> (r: Result<Token<'a>, SyntaxError>)
        requires
            old(self).wf(),
        ensures
            final(self).wf(),
            final(self).source == old(self).source,
            final(self).text() == old(self).text(),
            final(self).start == scan_at(old(self).text(), old(self).current()).start,
            final(self).current() == scan_at(old(self).text(), old(self).current()).next,
            final(self).line == old(self).line_of(final(self).start as int),
            agrees(
                r,
                scan_at(old(self).text(), old(self).current()),
                old(self).text(),
                final(self).line,
            ),
    {
        self.skip_whitespace();
        self.start = self.cursor.offset;
        self.line = self.cursor.line;
        if self.is_at_end() {
            return Ok(self.make_token(TokenType::EndOfFile));
        }
        let c = self.peek();
        self.advance();
        if c == '"' {
            return self.string();
        }
        if let Some((second, kind)) = operator_pair_of(c) {
            if self.matches(second) {
                return Ok(self.make_token(kind));
            }
        }
        if let Some(kind) = single_kind_of(c) {
            return Ok(self.make_token(kind));
        }
        if test_digit(c, 10) {
            return self.number();
        }
        if c == '_' || c.is_alphabetic() {
            return Ok(self.identifier());
        }
        Err(
            SyntaxError::UnexpectedCharacter {
                character: c,
                line: self.line,
                start: self.start,
                end: self.cursor.offset,
            },
        )
    }
}

impl<'a> Errorable for Scanner<'a> {
    open spec fn error_text(&self) -> Seq<char> {
        self.source@
    }

    fn to_error(&self) -> (context: ErrorStruct) {
        let source = self.source.to_owned();
        let max = codepoints(self.source).len();
        ErrorStruct { source, max }
    }
}

} // verus!
