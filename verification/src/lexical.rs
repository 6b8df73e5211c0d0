//! The lexical grammar of a block's text, as functions on sequences of
//! codepoints.

use vstd::prelude::*;
use crate::cursor::char_at;
use crate::tokens::TokenType;

verus! {

/// Whether `c` has the Unicode property `Alphabetic`: what
/// `char::is_alphabetic` returns for it.
pub uninterp spec fn alphabetic(c: char) -> bool;

/// Whether `c` is alphabetic or numeric in the sense of Unicode: what
/// `char::is_alphanumeric` returns for it.
pub uninterp spec fn alphanumeric(c: char) -> bool;

/// `char::is_alphabetic` is a function of the codepoint alone, fixed by the
/// Unicode tables; its result is named, not stated.
pub assume_specification[ char::is_alphabetic ](c: char) -> (b: bool)
    ensures
        b == alphabetic(c),
;

/// `char::is_alphanumeric` is a function of the codepoint alone, fixed by
/// the Unicode tables; its result is named, not stated.
pub assume_specification[ char::is_alphanumeric ](c: char) -> (b: bool)
    ensures
        b == alphanumeric(c),
;

/// The classes of codepoints of which a token takes a maximal run.
#[derive(Debug, Clone, Copy)]
pub enum CharClass {
    /// Space, tab, carriage return and newline.
    Blank,
    /// What an identifier continues with: alphanumeric codepoints and `_`.
    Word,
    /// The digits of the given radix.
    Digit { radix: u32 },
}

pub open spec fn is_blank(c: char) -> bool {
    c == ' ' || c == '\t' || c == '\r' || c == '\n'
}

/// Whether `c` is a digit of `radix`: `0`-`9` count 0 to 9, and the letters,
/// in either case, count from 10 on.
pub open spec fn is_digit(c: char, radix: int) -> bool {
    ||| '0' <= c <= '9' && (c as int) - ('0' as int) < radix
    ||| 'a' <= c <= 'z' && (c as int) - ('a' as int) + 10 < radix
    ||| 'A' <= c <= 'Z' && (c as int) - ('A' as int) + 10 < radix
}

pub open spec fn starts_identifier(c: char) -> bool {
    c == '_' || alphabetic(c)
}

pub open spec fn in_class(class: CharClass, c: char) -> bool {
    match class {
        CharClass::Blank => is_blank(c),
        CharClass::Word => c == '_' || alphanumeric(c),
        CharClass::Digit { radix } => is_digit(c, radix as int),
    }
}

/// Whether `c` is a digit of `radix`.
pub fn test_digit(c: char, radix: u32) -> (b: bool)
    ensures
        b == is_digit(c, radix as int),
{
    let v: u32 = c as u32;
    if '0' <= c && c <= '9' {
        v - ('0' as u32) < radix
    } else if 'a' <= c && c <= 'z' {
        v - ('a' as u32) + 10 < radix
    } else if 'A' <= c && c <= 'Z' {
        v - ('A' as u32) + 10 < radix
    } else {
        false
    }
}

/// Whether `c` belongs to `class`.
pub fn test_class(class: CharClass, c: char) -> (b: bool)
    ensures
        b == in_class(class, c),
{
    match class {
        CharClass::Blank => c == ' ' || c == '\t' || c == '\r' || c == '\n',
        CharClass::Word => c == '_' || c.is_alphanumeric(),
        CharClass::Digit { radix } => test_digit(c, radix),
    }
}

/// Where the maximal run of codepoints of `class` that starts at `i` ends:
/// the first offset from `i` on that holds no codepoint of the class.
pub open spec fn run_end(t: Seq<char>, i: int, class: CharClass) -> int
    decreases t.len() - i,
{
    if 0 <= i < t.len() && in_class(class, t[i]) {
        run_end(t, i + 1, class)
    } else {
        i
    }
}

/// What makes a two-codepoint operator of `c`, if anything does: the
/// codepoint that must follow, and the kind of the two together.
pub open spec fn operator_pair(c: char) -> Option<(char, TokenType)> {
    if c == '-' {
        Some(('>', TokenType::DashArrow))
    } else if c == '=' {
        Some(('=', TokenType::EqualEqual))
    } else if c == '!' {
        Some(('=', TokenType::BangEqual))
    } else if c == '>' {
        Some(('=', TokenType::GreaterEqual))
    } else if c == '<' {
        Some(('=', TokenType::LessEqual))
    } else if c == '&' {
        Some(('&', TokenType::AmpersandDouble))
    } else if c == '|' {
        Some(('|', TokenType::PipeDouble))
    } else if c == ':' {
        Some((':', TokenType::DoubleColon))
    } else {
        None
    }
}

/// The kind of the two-codepoint operator `c d`, if it is one.
pub open spec fn double_kind(c: char, d: char) -> Option<TokenType> {
    match operator_pair(c) {
        Some((second, kind)) => if d == second {
            Some(kind)
        } else {
            None
        },
        None => None,
    }
}

/// The kind of the token that the single codepoint `c` makes, if it makes one.
pub open spec fn single_kind(c: char) -> Option<TokenType> {
    if c == '{' {
        Some(TokenType::CurlyBraceOpen)
    } else if c == '}' {
        Some(TokenType::CurlyBraceClose)
    } else if c == '[' {
        Some(TokenType::SquareBraceOpen)
    } else if c == ']' {
        Some(TokenType::SquareBraceClose)
    } else if c == '(' {
        Some(TokenType::RoundBraceOpen)
    } else if c == ')' {
        Some(TokenType::RoundBraceClose)
    } else if c == '+' {
        Some(TokenType::Plus)
    } else if c == '-' {
        Some(TokenType::Minus)
    } else if c == '/' {
        Some(TokenType::SlashForward)
    } else if c == '*' {
        Some(TokenType::Asterisk)
    } else if c == '=' {
        Some(TokenType::Equal)
    } else if c == '!' {
        Some(TokenType::Bang)
    } else if c == '>' {
        Some(TokenType::GreaterThan)
    } else if c == '<' {
        Some(TokenType::LessThan)
    } else if c == '&' {
        Some(TokenType::Ampersand)
    } else if c == '|' {
        Some(TokenType::Pipe)
    } else if c == '\\' {
        Some(TokenType::SlashBack)
    } else if c == ';' {
        Some(TokenType::Semicolon)
    } else if c == ',' {
        Some(TokenType::Comma)
    } else if c == '.' {
        Some(TokenType::Dot)
    } else if c == '?' {
        Some(TokenType::QuestionMark)
    } else if c == ':' {
        Some(TokenType::Colon)
    } else {
        None
    }
}

/// The kind of a word: that of the keyword it spells, else `Identifier`.
pub open spec fn word_kind(word: Seq<char>) -> TokenType {
    if word == "struct"@ {
        TokenType::Struct
    } else if word == "implement"@ {
        TokenType::Impl
    } else if word == "for"@ {
        TokenType::For
    } else if word == "while"@ {
        TokenType::While
    } else if word == "break"@ {
        TokenType::Break
    } else if word == "continue"@ {
        TokenType::Continue
    } else if word == "if"@ {
        TokenType::If
    } else if word == "else"@ {
        TokenType::Else
    } else if word == "def"@ {
        TokenType::Define
    } else if word == "let"@ {
        TokenType::Let
    } else if word == "true"@ {
        TokenType::True
    } else if word == "false"@ {
        TokenType::False
    } else if word == "none"@ {
        TokenType::NoneLiteral
    } else if word == "return"@ {
        TokenType::Return
    } else if word == "echo"@ {
        TokenType::Echo
    } else {
        TokenType::Identifier
    }
}

/// What one scan finds.
pub enum Outcome {
    /// A token of this kind.
    Token(TokenType),
    /// A string literal that the text ends in.
    UnterminatedString,
    /// In a number literal, a hexadecimal digit that is none of the
    /// literal's radix.
    InvalidDigit { digit: char, radix: int },
    /// A codepoint with which no token begins.
    Unexpected { character: char },
}

/// One scan: where the token begins (after the blanks), where the scan
/// leaves off, and what it found between the two.
pub struct Scan {
    pub start: int,
    pub next: int,
    pub outcome: Outcome,
}

/// The radix of the number literal that begins at `start`: what the prefix
/// `0x`, `0o` or `0b` selects, in either case, and 10 without a prefix.
pub open spec fn number_radix(t: Seq<char>, start: int) -> int {
    let p = char_at(t, start + 1);
    if char_at(t, start) != '0' {
        10
    } else if p == 'x' || p == 'X' {
        16
    } else if p == 'o' || p == 'O' {
        8
    } else if p == 'b' || p == 'B' {
        2
    } else {
        10
    }
}

/// Whether an exponent begins at `i`: an `e` with a decimal digit behind it.
pub open spec fn starts_exponent(t: Seq<char>, i: int) -> bool {
    char_at(t, i) == 'e' && is_digit(char_at(t, i + 1), 10)
}

/// Whether a fraction begins at `i`: a `.` with a decimal digit behind it.
pub open spec fn starts_fraction(t: Seq<char>, i: int) -> bool {
    char_at(t, i) == '.' && is_digit(char_at(t, i + 1), 10)
}

/// Where the digits of the literal's radix end that follow the first digit
/// or the prefix.
pub open spec fn digits_end(t: Seq<char>, start: int) -> int {
    let radix = number_radix(t, start);
    let first = if radix == 10 {
        start + 1
    } else {
        start + 2
    };
    run_end(t, first, CharClass::Digit { radix: radix as u32 })
}

/// Where a decimal literal ends whose integer digits end at `i`: behind the
/// fraction and the exponent, as far as either is there.
pub open spec fn decimal_end(t: Seq<char>, i: int) -> int {
    let fraction_end = if starts_fraction(t, i) {
        run_end(t, i + 1, CharClass::Digit { radix: 10 })
    } else {
        i
    };
    if starts_exponent(t, fraction_end) {
        run_end(t, fraction_end + 1, CharClass::Digit { radix: 10 })
    } else {
        fraction_end
    }
}

/// The scan of the number literal whose first digit stands at `start`.
///
/// The digits of the radix are followed by no hexadecimal digit, or the scan
/// fails at that digit; in a decimal literal an `e` that begins an exponent
/// is no such digit.
pub open spec fn scan_number(t: Seq<char>, start: int) -> Scan {
    let radix = number_radix(t, start);
    let end = digits_end(t, start);
    let c = char_at(t, end);
    if is_digit(c, 16) && !(radix == 10 && starts_exponent(t, end)) {
        Scan { start, next: end, outcome: Outcome::InvalidDigit { digit: c, radix } }
    } else if radix == 10 {
        Scan { start, next: decimal_end(t, end), outcome: Outcome::Token(TokenType::Number) }
    } else {
        Scan { start, next: end, outcome: Outcome::Token(TokenType::Number) }
    }
}

/// Where the string literal closes whose inside begins at `i`: the offset of
/// the first `"` from `i` on that no backslash escapes, or the length of the
/// text where there is none. A backslash escapes the codepoint behind it.
pub open spec fn string_close(t: Seq<char>, i: int) -> int
    decreases t.len() - i,
{
    if i < 0 || i >= t.len() {
        t.len() as int
    } else if t[i] == '"' {
        i
    } else if t[i] == '\\' && i + 1 < t.len() {
        string_close(t, i + 2)
    } else {
        string_close(t, i + 1)
    }
}

/// The scan of the string literal whose opening quote stands at `start`.
pub open spec fn scan_string(t: Seq<char>, start: int) -> Scan {
    let close = string_close(t, start + 1);
    if close < t.len() {
        Scan { start, next: close + 1, outcome: Outcome::Token(TokenType::String) }
    } else {
        Scan { start, next: t.len() as int, outcome: Outcome::UnterminatedString }
    }
}

/// The scan of the token that begins at `start`, where a codepoint stands
/// that is not blank.
pub open spec fn scan_from(t: Seq<char>, start: int) -> Scan {
    let c = char_at(t, start);
    let d = char_at(t, start + 1);
    if c == '"' {
        scan_string(t, start)
    } else if double_kind(c, d) is Some {
        Scan { start, next: start + 2, outcome: Outcome::Token(double_kind(c, d)->0) }
    } else if single_kind(c) is Some {
        Scan { start, next: start + 1, outcome: Outcome::Token(single_kind(c)->0) }
    } else if is_digit(c, 10) {
        scan_number(t, start)
    } else if starts_identifier(c) {
        let end = run_end(t, start + 1, CharClass::Word);
        Scan { start, next: end, outcome: Outcome::Token(word_kind(t.subrange(start, end))) }
    } else {
        Scan { start, next: start + 1, outcome: Outcome::Unexpected { character: c } }
    }
}

/// The scan that begins at `i`: blanks are passed; at the end of the text
/// stands the end-of-input token, which is empty; else the token that begins
/// there is scanned.
pub open spec fn scan_at(t: Seq<char>, i: int) -> Scan {
    let start = run_end(t, i, CharClass::Blank);
    if start >= t.len() {
        Scan { start, next: start, outcome: Outcome::Token(TokenType::EndOfFile) }
    } else {
        scan_from(t, start)
    }
}

/// A run is maximal: it lies within the text, holds only codepoints of its
/// class, and ends at the end of the text or before a codepoint that is
/// none of the class.
pub proof fn run_end_is_maximal(t: Seq<char>, i: int, class: CharClass)
    requires
        0 <= i <= t.len(),
    ensures
        i <= run_end(t, i, class) <= t.len(),
        forall|j: int| i <= j < run_end(t, i, class) ==> in_class(class, #[trigger] t[j]),
        run_end(t, i, class) == t.len() || !in_class(class, t[run_end(t, i, class)]),
    decreases t.len() - i,
{
    if i < t.len() && in_class(class, t[i]) {
        run_end_is_maximal(t, i + 1, class);
    }
}

/// A string literal closes within the text, at a quote, or not at all.
pub proof fn string_close_is_quote(t: Seq<char>, i: int)
    requires
        0 <= i <= t.len(),
    ensures
        i <= string_close(t, i) <= t.len(),
        string_close(t, i) < t.len() ==> t[string_close(t, i)] == '"',
    decreases t.len() - i,
{
    if i < t.len() && t[i] != '"' {
        if t[i] == '\\' && i + 1 < t.len() {
            string_close_is_quote(t, i + 2);
        } else {
            string_close_is_quote(t, i + 1);
        }
    }
}

/// Tokens come in the order of the text: a scan begins at or behind the
/// offset it is asked at, ends within the text, and spans at least one
/// codepoint unless it finds the end of the input.
pub proof fn scan_moves_forward(t: Seq<char>, i: int)
    requires
        0 <= i <= t.len(),
    ensures
        i <= scan_at(t, i).start <= scan_at(t, i).next <= t.len(),
        scan_at(t, i).outcome != Outcome::Token(TokenType::EndOfFile) ==> scan_at(t, i).start
            < scan_at(t, i).next,
        scan_at(t, i).outcome == Outcome::Token(TokenType::EndOfFile) <==> scan_at(t, i).start
            == t.len(),
{
    run_end_is_maximal(t, i, CharClass::Blank);
    let start = run_end(t, i, CharClass::Blank);
    if start < t.len() {
        let c = t[start];
        string_close_is_quote(t, start + 1);
        run_end_is_maximal(t, start + 1, CharClass::Word);
        if is_digit(c, 10) {
            let radix = number_radix(t, start);
            let first = if radix == 10 {
                start + 1
            } else {
                start + 2
            };
            run_end_is_maximal(t, first, CharClass::Digit { radix: radix as u32 });
            let end = digits_end(t, start);
            if starts_fraction(t, end) {
                run_end_is_maximal(t, end + 1, CharClass::Digit { radix: 10 });
            }
            let fraction_end = if starts_fraction(t, end) {
                run_end(t, end + 1, CharClass::Digit { radix: 10 })
            } else {
                end
            };
            if starts_exponent(t, fraction_end) {
                run_end_is_maximal(t, fraction_end + 1, CharClass::Digit { radix: 10 });
            }
        }
    }
}

/// The end of the input is final: the scan that finds it leaves off where
/// it is, and every scan from there finds it again.
pub proof fn end_of_input_is_final(t: Seq<char>, i: int)
    requires
        0 <= i <= t.len(),
        scan_at(t, i).outcome == Outcome::Token(TokenType::EndOfFile),
    ensures
        scan_at(t, i).next == t.len(),
        scan_at(t, scan_at(t, i).next) == scan_at(t, i),
{
    scan_moves_forward(t, i);
}

/// The longest operator wins: where the two codepoints at the start of a
/// token spell a two-codepoint operator, the scan yields that operator,
/// over both codepoints.
pub proof fn double_operator_is_one_token(t: Seq<char>, i: int)
    requires
        0 <= i <= t.len(),
        double_kind(
            char_at(t, run_end(t, i, CharClass::Blank)),
            char_at(t, run_end(t, i, CharClass::Blank) + 1),
        ) is Some,
    ensures
        scan_at(t, i) == (Scan {
            start: run_end(t, i, CharClass::Blank),
            next: run_end(t, i, CharClass::Blank) + 2,
            outcome: Outcome::Token(
                double_kind(
                    char_at(t, run_end(t, i, CharClass::Blank)),
                    char_at(t, run_end(t, i, CharClass::Blank) + 1),
                )->0,
            ),
        }),
{
    run_end_is_maximal(t, i, CharClass::Blank);
}

/// A lone operator stays alone: where the codepoint at the start of a token
/// is an operator or a punctuation mark, and spells no two-codepoint
/// operator with the one behind it, the scan yields its own kind, over that
/// one codepoint.
pub proof fn single_operator_is_one_token(t: Seq<char>, i: int)
    requires
        0 <= i <= t.len(),
        single_kind(char_at(t, run_end(t, i, CharClass::Blank))) is Some,
        double_kind(
            char_at(t, run_end(t, i, CharClass::Blank)),
            char_at(t, run_end(t, i, CharClass::Blank) + 1),
        ) is None,
    ensures
        scan_at(t, i) == (Scan {
            start: run_end(t, i, CharClass::Blank),
            next: run_end(t, i, CharClass::Blank) + 1,
            outcome: Outcome::Token(single_kind(char_at(t, run_end(t, i, CharClass::Blank)))->0),
        }),
{
    run_end_is_maximal(t, i, CharClass::Blank);
}

} // verus!
