//! Errors of extraction and scanning, and their display with the lines
//! around them.

use vstd::prelude::*;
use crate::text::{codepoints, text_of};

verus! {

/// The conditions that end an extraction or a scan. Lines count from 0,
/// offsets are in codepoints.
#[derive(Debug, Clone, Copy, PartialEq, Eq, Structural)]
pub enum SyntaxError {
    /// A marker at `offset`, on `line`, whose block the document ends in.
    UnterminatedBlock { line: usize, offset: usize },
    /// A string literal whose opening quote stands at `offset`, on `line`,
    /// and which the text ends in.
    UnterminatedString { line: usize, offset: usize },
    /// In a number literal of `radix`, the hexadecimal digit `digit` at
    /// `offset`, which is none of that radix.
    InvalidDigitForRadix { digit: char, radix: u32, line: usize, offset: usize },
    /// The codepoint `character` between `start` and `end`, with which no
    /// token begins.
    UnexpectedCharacter { character: char, line: usize, start: usize, end: usize },
}

/// The decimal digit that stands for `d`.
pub open spec fn digit_char(d: nat) -> char {
    if d == 0 {
        '0'
    } else if d == 1 {
        '1'
    } else if d == 2 {
        '2'
    } else if d == 3 {
        '3'
    } else if d == 4 {
        '4'
    } else if d == 5 {
        '5'
    } else if d == 6 {
        '6'
    } else if d == 7 {
        '7'
    } else if d == 8 {
        '8'
    } else {
        '9'
    }
}

/// The decimal numeral of `n`, without leading zeros.
pub open spec fn decimal(n: nat) -> Seq<char>
    decreases n,
{
    if n < 10 {
        seq![digit_char(n)]
    } else {
        decimal(n / 10).push(digit_char(n % 10))
    }
}

/// `t` behind as many spaces as bring it to `width` codepoints.
pub open spec fn right_aligned(t: Seq<char>, width: nat) -> Seq<char> {
    if t.len() < width {
        Seq::new((width - t.len()) as nat, |i: int| ' ') + t
    } else {
        t
    }
}

/// `line` without the carriage return at its end, if it has one.
pub open spec fn without_return(line: Seq<char>) -> Seq<char> {
    if line.len() > 0 && line.last() == '\r' {
        line.drop_last()
    } else {
        line
    }
}

/// The lines of `s` that a newline ends, and the codepoints behind the last
/// newline.
pub open spec fn split(s: Seq<char>) -> (Seq<Seq<char>>, Seq<char>)
    decreases s.len(),
{
    if s.len() == 0 {
        (Seq::empty(), Seq::empty())
    } else {
        let (ended, open) = split(s.drop_last());
        if s.last() == '\n' {
            (ended.push(without_return(open)), Seq::empty())
        } else {
            (ended, open.push(s.last()))
        }
    }
}

/// The lines of `s`. A newline ends a line, and with a carriage return
/// before it the two end it; what stands behind the last newline is a line
/// if it is not empty.
pub open spec fn lines_of(s: Seq<char>) -> Seq<Seq<char>> {
    let (ended, open) = split(s);
    if open.len() > 0 {
        ended.push(open)
    } else {
        ended
    }
}

/// The entries joined, with a newline between each two.
pub open spec fn joined(entries: Seq<Seq<char>>) -> Seq<char>
    decreases entries.len(),
{
    if entries.len() == 0 {
        Seq::empty()
    } else if entries.len() == 1 {
        entries[0]
    } else {
        joined(entries.drop_last()) + seq!['\n'] + entries.last()
    }
}

/// How many lines are there to show: those that exist, up to `max`.
pub open spec fn shown_limit(count: nat, max: nat) -> nat {
    if max < count {
        max
    } else {
        count
    }
}

/// The first line of the window around line `index`: two lines before it,
/// as far as there are any.
pub open spec fn window_start(limit: nat, index: nat) -> nat {
    let first = if index < 2 {
        0
    } else {
        (index - 2) as nat
    };
    if first < limit {
        first
    } else {
        limit
    }
}

/// The line behind the window around line `index`: the third behind it, as
/// far as there are any.
pub open spec fn window_end(limit: nat, index: nat) -> nat {
    if index + 3 < limit {
        index + 3
    } else {
        limit
    }
}

/// The display of line `i`: its number, counted from 1 and right-aligned to
/// three columns, a colon, a space and the line; in bold yellow where it is
/// the line `index`.
pub open spec fn displayed(line: Seq<char>, i: nat, index: nat) -> Seq<char> {
    let plain = right_aligned(decimal(i + 1), 3) + ": "@ + line;
    if i == index {
        "\x1b[1;33m"@ + plain + "\x1b[0m"@
    } else {
        plain
    }
}

/// The entries of the window around line `index`: the lines from
/// `window_start` to `window_end`, with an ellipsis before them where lines
/// before the window are left out, and one behind them where lines behind
/// it are.
pub open spec fn window(lines: Seq<Seq<char>>, max: nat, index: nat) -> Seq<Seq<char>> {
    let limit = shown_limit(lines.len(), max);
    let first = window_start(limit, index);
    let end = window_end(limit, index);
    let before = if first > 0 {
        seq!["   | ..."@]
    } else {
        Seq::empty()
    };
    let behind = if end < limit {
        seq!["   | ..."@]
    } else {
        Seq::empty()
    };
    before + Seq::new(
        (end - first) as nat,
        |k: int| displayed(lines[first + k], (first + k) as nat, index),
    ) + behind
}

/// The report of an error: the window between two rules, the message
/// behind the word `error` in bold red, and a closing rule.
pub open spec fn report(source: Seq<char>, max: nat, message: Seq<char>, index: nat) -> Seq<
    char,
> {
    "=====\n"@ + joined(window(lines_of(source), max, index))
        + "\n=====\n\x1b[1;31merror\x1b[0m: "@ + message + "\n====="@
}

/// The message of an error, in words. It names a line counting from 1.
pub open spec fn message_of(error: SyntaxError) -> Seq<char> {
    match error {
        SyntaxError::UnterminatedBlock { line, offset } => {
            "Mismatched brackets for block starting at line "@ + decimal((line + 1) as nat)
                + ", character "@ + decimal(offset as nat) + " to end of file."@
        },
        SyntaxError::UnterminatedString { line, offset } => {
            "Unterminated string from line "@ + decimal((line + 1) as nat) + ", character "@
                + decimal(offset as nat) + ", to end of file."@
        },
        SyntaxError::InvalidDigitForRadix { digit, radix, line, offset } => {
            "Unexpected digit '"@ + seq![digit] + "' in number literal with radix "@ + decimal(
                radix as nat,
            ) + "."@
        },
        SyntaxError::UnexpectedCharacter { character, line, start, end } => {
            "Unexpected character '"@ + seq![character] + "' at line "@ + decimal(
                (line + 1) as nat,
            ) + ", characters "@ + decimal(start as nat) + " to "@ + decimal(end as nat) + "."@
        },
    }
}

/// Appends the codepoints of `s`.
fn push_text(out: &mut Vec<char>, s: &str)
    ensures
        final(out)@ == old(out)@ + s@,
{
    let mut more = codepoints(s);
    out.append(&mut more);
}

/// Appends `more`.
fn push_all(out: &mut Vec<char>, more: &Vec<char>)
    ensures
        final(out)@ == old(out)@ + more@,
{
    let mut i: usize = 0;
    while i < more.len()
        invariant
            i <= more@.len(),
            out@ == old(out)@ + more@.take(i as int),
        decreases more@.len() - i,
    {
        out.push(more[i]);
        assert(more@.take(i + 1) =~= more@.take(i as int).push(more@[i as int]));
        assert(out@ =~= old(out)@ + more@.take(i + 1));
        i += 1;
    }
    assert(more@.take(i as int) =~= more@);
}

/// The decimal digit that stands for `d`.
fn digit_of(d: u128) -> (c: char)
    requires
        d < 10,
    ensures
        c == digit_char(d as nat),
{
    if d == 0 {
        '0'
    } else if d == 1 {
        '1'
    } else if d == 2 {
        '2'
    } else if d == 3 {
        '3'
    } else if d == 4 {
        '4'
    } else if d == 5 {
        '5'
    } else if d == 6 {
        '6'
    } else if d == 7 {
        '7'
    } else if d == 8 {
        '8'
    } else {
        '9'
    }
}

/// Appends the decimal numeral of `n`.
fn push_decimal(out: &mut Vec<char>, n: u128)
    ensures
        final(out)@ == old(out)@ + decimal(n as nat),
    decreases n,
{
    if n >= 10 {
        push_decimal(out, n / 10);
    }
    out.push(digit_of(n % 10));
    assert(out@ =~= old(out)@ + decimal(n as nat));
}

impl SyntaxError {
    /// The line on which the error stands, counted from 0.
    pub fn line(&self) -> (line: usize)
        ensures
            line == match *self {
                SyntaxError::UnterminatedBlock { line, .. } => line,
                SyntaxError::UnterminatedString { line, .. } => line,
                SyntaxError::InvalidDigitForRadix { line, .. } => line,
                SyntaxError::UnexpectedCharacter { line, .. } => line,
            },
    {
        match *self {
            SyntaxError::UnterminatedBlock { line, .. } => line,
            SyntaxError::UnterminatedString { line, .. } => line,
            SyntaxError::InvalidDigitForRadix { line, .. } => line,
            SyntaxError::UnexpectedCharacter { line, .. } => line,
        }
    }

    /// The message of the error, in words.
    pub fn message(&self) -> (message: String)
        ensures
            message@ == message_of(*self),
    {
        let mut out: Vec<char> = Vec::new();
        match *self {
            SyntaxError::UnterminatedBlock { line, offset } => {
                push_text(&mut out, "Mismatched brackets for block starting at line ");
                push_decimal(&mut out, line as u128 + 1);
                push_text(&mut out, ", character ");
                push_decimal(&mut out, offset as u128);
                push_text(&mut out, " to end of file.");
            },
            SyntaxError::UnterminatedString { line, offset } => {
                push_text(&mut out, "Unterminated string from line ");
                push_decimal(&mut out, line as u128 + 1);
                push_text(&mut out, ", character ");
                push_decimal(&mut out, offset as u128);
                push_text(&mut out, ", to end of file.");
            },
            SyntaxError::InvalidDigitForRadix { digit, radix, line, offset } => {
                push_text(&mut out, "Unexpected digit '");
                out.push(digit);
                push_text(&mut out, "' in number literal with radix ");
                push_decimal(&mut out, radix as u128);
                push_text(&mut out, ".");
            },
            SyntaxError::UnexpectedCharacter { character, line, start, end } => {
                push_text(&mut out, "Unexpected character '");
                out.push(character);
                push_text(&mut out, "' at line ");
                push_decimal(&mut out, line as u128 + 1);
                push_text(&mut out, ", characters ");
                push_decimal(&mut out, start as u128);
                push_text(&mut out, " to ");
                push_decimal(&mut out, end as u128);
                push_text(&mut out, ".");
            },
        }
        assert(out@ =~= message_of(*self));
        let message = text_of(&out, 0, out.len());
        assert(out@.subrange(0, out@.len() as int) =~= out@);
        message
    }
}

/// Appends `t` behind as many spaces as bring it to `width` codepoints.
fn push_right_aligned(out: &mut Vec<char>, t: &Vec<char>, width: usize)
    ensures
        final(out)@ == old(out)@ + right_aligned(t@, width as nat),
{
    let mut filled: usize = t.len();
    while filled < width
        invariant
            t@.len() <= filled,
            filled <= width || filled == t@.len(),
            out@ == old(out)@ + Seq::new((filled - t@.len()) as nat, |i: int| ' '),
        decreases width - filled,
    {
        out.push(' ');
        filled += 1;
        assert(out@ =~= old(out)@ + Seq::new((filled - t@.len()) as nat, |i: int| ' '));
    }
    push_all(out, t);
    assert(out@ =~= old(out)@ + right_aligned(t@, width as nat));
}

/// Appends the display of `line`, the line `i`, in a window around the line
/// `index`.
fn push_displayed(out: &mut Vec<char>, line: &Vec<char>, i: usize, index: usize)
    ensures
        final(out)@ == old(out)@ + displayed(line@, i as nat, index as nat),
{
    let mut number: Vec<char> = Vec::new();
    push_decimal(&mut number, i as u128 + 1);
    assert(number@ =~= decimal((i + 1) as nat));
    if i == index {
        push_text(out, "\x1b[1;33m");
    }
    push_right_aligned(out, &number, 3);
    push_text(out, ": ");
    push_all(out, line);
    if i == index {
        push_text(out, "\x1b[0m");
    }
    assert(out@ =~= old(out)@ + displayed(line@, i as nat, index as nat));
}

/// The texts of the lines.
pub open spec fn line_views(lines: Seq<Vec<char>>) -> Seq<Seq<char>> {
    Seq::new(lines.len(), |k: int| lines[k]@)
}

/// The lines of `chars`.
pub fn split_lines(chars: &Vec<char>) -> (lines: Vec<Vec<char>>)
    ensures
        line_views(lines@) == lines_of(chars@),
{
    let mut ended: Vec<Vec<char>> = Vec::new();
    let mut open: Vec<char> = Vec::new();
    let mut i: usize = 0;
    assert(line_views(ended@) =~= split(chars@.take(0)).0);
    while i < chars.len()
        invariant
            i <= chars@.len(),
            line_views(ended@) == split(chars@.take(i as int)).0,
            open@ == split(chars@.take(i as int)).1,
        decreases chars@.len() - i,
    {
        let c = chars[i];
        proof {
            assert(chars@.take(i + 1).drop_last() =~= chars@.take(i as int));
            assert(chars@.take(i + 1).last() == c);
        }
        if c == '\n' {
            if open.len() > 0 && open[open.len() - 1] == '\r' {
                open.pop();
            }
            let ghost before = line_views(ended@);
            let ghost line = open@;
            ended.push(open);
            open = Vec::new();
            assert(line_views(ended@) =~= before.push(line));
        } else {
            open.push(c);
        }
        i += 1;
    }
    assert(chars@.take(i as int) =~= chars@);
    if open.len() > 0 {
        let ghost before = line_views(ended@);
        let ghost line = open@;
        ended.push(open);
        assert(line_views(ended@) =~= before.push(line));
    }
    ended
}

/// Joining one entry more puts a newline and the entry behind what was
/// joined, and the entry alone where nothing was.
pub proof fn joined_push(entries: Seq<Seq<char>>, entry: Seq<char>)
    ensures
        joined(entries.push(entry)) == if entries.len() == 0 {
            entry
        } else {
            joined(entries) + seq!['\n'] + entry
        },
{
    assert(entries.push(entry).drop_last() =~= entries);
}

/// Appends one entry more to the joined entries: behind a newline, or
/// alone where it is the first.
fn push_entry_break(out: &mut Vec<char>, first: bool)
    ensures
        final(out)@ == if first {
            old(out)@
        } else {
            old(out)@ + seq!['\n']
        },
{
    if !first {
        out.push('\n');
        assert(out@ =~= old(out)@ + seq!['\n']);
    }
}

/// What a failed run is left with: the report to show.
#[derive(Debug)]
pub struct Fatal {
    pub report: String,
}

/// The context of an error: the text it stands in, and a bound on the
/// lines of it that are shown: none from line `max` on is.
pub struct ErrorStruct {
    pub source: String,
    pub max: usize,
}

impl ErrorStruct {
    /// The window of lines around the line `index`, counted from 0.
    pub fn get_surrounding_lines(&self, index: usize) -> (shown: String)
        ensures
            shown@ == joined(window(lines_of(self.source@), self.max as nat, index as nat)),
    {
        let chars = codepoints(self.source.as_str());
        let lines = split_lines(&chars);
        let count = lines.len();
        let limit = if self.max < count {
            self.max
        } else {
            count
        };
        let before = if index < 2 {
            0
        } else {
            index - 2
        };
        let first = if before < limit {
            before
        } else {
            limit
        };
        let end = if index < limit && 3 < limit - index {
            index + 3
        } else {
            limit
        };
        let ghost all = lines_of(self.source@);
        let ghost head = if first > 0 {
            seq!["   | ..."@]
        } else {
            Seq::<Seq<char>>::empty()
        };
        let ghost body = Seq::new(
            (end - first) as nat,
            |k: int| displayed(all[first + k], (first + k) as nat, index as nat),
        );
        let mut out: Vec<char> = Vec::new();
        let mut any = false;
        if first > 0 {
            push_text(&mut out, "   | ...");
            any = true;
            assert(out@ =~= "   | ..."@);
            assert(head.len() == 1 && head[0] == out@);
        }
        let mut i: usize = first;
        assert(head + body.take(0) =~= head);
        while i < end
            invariant
                first <= i <= end <= limit <= lines@.len(),
                limit <= self.max,
                line_views(lines@) == all,
                head.len() <= 1,
                body.len() == end - first,
                forall|k: int|
                    0 <= k < body.len() ==> #[trigger] body[k] == displayed(
                        all[first + k],
                        (first + k) as nat,
                        index as nat,
                    ),
                out@ == joined(head + body.take(i - first)),
                any == ((head + body.take(i - first)).len() > 0),
            decreases end - i,
        {
            let ghost entries = head + body.take(i - first);
            let ghost entry = displayed(all[i as int], i as nat, index as nat);
            push_entry_break(&mut out, !any);
            push_displayed(&mut out, &lines[i], i, index);
            proof {
                assert(all[i as int] == lines@[i as int]@);
                joined_push(entries, entry);
                assert(body[i - first] == entry);
                assert(head + body.take(i + 1 - first) =~= entries.push(entry));
                assert(out@ =~= joined(entries.push(entry)));
            }
            any = true;
            i += 1;
        }
        assert(body.take(end - first) =~= body);
        if end < limit {
            let ghost entries = head + body;
            push_entry_break(&mut out, !any);
            push_text(&mut out, "   | ...");
            proof {
                joined_push(entries, "   | ..."@);
                assert(out@ =~= joined(entries.push("   | ..."@)));
                assert(entries.push("   | ..."@) =~= head + body + seq!["   | ..."@]);
            }
        } else {
            assert(head + body =~= head + body + Seq::<Seq<char>>::empty());
        }
        assert(out@ == joined(window(all, self.max as nat, index as nat)));
        let shown = text_of(&out, 0, out.len());
        assert(out@.subrange(0, out@.len() as int) =~= out@);
        shown
    }

    /// The report of an error with `message` on the line `line_index`.
    pub fn err_string(&self, message: String, line_index: usize) -> (text: String)
        ensures
            text@ == report(self.source@, self.max as nat, message@, line_index as nat),
    {
        let shown = self.get_surrounding_lines(line_index);
        let mut out: Vec<char> = Vec::new();
        push_text(&mut out, "=====\n");
        push_text(&mut out, shown.as_str());
        push_text(&mut out, "\n=====\n\x1b[1;31merror\x1b[0m: ");
        push_text(&mut out, message.as_str());
        push_text(&mut out, "\n=====");
        let text = text_of(&out, 0, out.len());
        assert(out@.subrange(0, out@.len() as int) =~= out@);
        text
    }

    /// The fatal error with `message` on the line `line_index`: it carries
    /// the report.
    pub fn throw(&self, message: String, line_index: usize) -> (fatal: Fatal)
        ensures
            fatal.report@ == report(self.source@, self.max as nat, message@, line_index as nat),
    {
        Fatal { report: self.err_string(message, line_index) }
    }

    /// Asks `predicate`, once, and fails as `throw` does if it holds.
    pub fn throw_if<F>(&self, predicate: F, message: String, line_index: usize) -> (r: Result<
        (),
        Fatal,
    >) where F: FnOnce() -> bool
        requires
            predicate.requires(()),
        ensures
            match r {
                Ok(_) => predicate.ensures((), false),
                Err(fatal) => predicate.ensures((), true) && fatal.report@ == report(
                    self.source@,
                    self.max as nat,
                    message@,
                    line_index as nat,
                ),
            },
    {
        if predicate() {
            Err(self.throw(message, line_index))
        } else {
            Ok(())
        }
    }
}

/// What can hand out the context of its errors.
pub trait Errorable {
    /// The text that the errors stand in.
    spec fn error_text(&self) -> Seq<char>;

    fn to_error(&self) -> (context: ErrorStruct)
        ensures
            context.source@ == self.error_text(),
            context.max == self.error_text().len(),
    ;
}

} // verus!
