//! The extractor: finds the marked blocks of a document.

use vstd::prelude::*;
use vstd::string::*;
use crate::cursor::{newline_count, newline_count_bound, Cursor};
use crate::errors::{ErrorStruct, Errorable, SyntaxError};
use crate::text::codepoints;

verus! {

/// Whether the marker `\%{` stands at `i`.
pub open spec fn marker_at(s: Seq<char>, i: int) -> bool {
    &&& 0 <= i
    &&& i + 2 < s.len()
    &&& s[i] == '\\'
    &&& s[i + 1] == '%'
    &&& s[i + 2] == '{'
}

/// The offset of the brace that closes the block, seen from `i`, where
/// `depth` braces are open: every `{` opens one more, every `}` closes one,
/// and no other codepoint counts. `None` where the text ends first.
pub open spec fn block_close(s: Seq<char>, i: int, depth: nat) -> Option<int>
    decreases s.len() - i,
{
    if i < 0 || i >= s.len() {
        None
    } else if s[i] == '{' {
        block_close(s, i + 1, depth + 1)
    } else if s[i] == '}' {
        if depth <= 1 {
            Some(i)
        } else {
            block_close(s, i + 1, (depth - 1) as nat)
        }
    } else {
        block_close(s, i + 1, depth)
    }
}

/// A stretch of the document: from `start` up to, not including, `end`.
pub struct Span {
    pub start: int,
    pub end: int,
}

/// The blocks of the document from `i` on, in document order: each begins
/// at the first marker behind the block before it and ends behind the brace
/// that closes it. A marker whose block the document ends in ends the list.
pub open spec fn spans_from(s: Seq<char>, i: int) -> Seq<Span>
    decreases s.len() - i,
{
    if i < 0 || i >= s.len() {
        Seq::empty()
    } else if marker_at(s, i) {
        let close = block_close(s, i + 3, 1);
        if close is Some && i < close->0 < s.len() {
            seq![Span { start: i, end: close->0 + 1 }] + spans_from(s, close->0 + 1)
        } else {
            Seq::empty()
        }
    } else {
        spans_from(s, i + 1)
    }
}

/// The offset of the first marker from `i` on, outside the closed blocks,
/// whose block the document ends in, if there is one.
pub open spec fn unterminated_from(s: Seq<char>, i: int) -> Option<int>
    decreases s.len() - i,
{
    if i < 0 || i >= s.len() {
        None
    } else if marker_at(s, i) {
        let close = block_close(s, i + 3, 1);
        if close is None {
            Some(i)
        } else if i < close->0 < s.len() {
            unterminated_from(s, close->0 + 1)
        } else {
            None
        }
    } else {
        unterminated_from(s, i + 1)
    }
}

/// Whether `t` is the text of a block: it begins with the marker, and the
/// brace that closes the marker's brace is its last codepoint.
pub open spec fn is_block_text(t: Seq<char>) -> bool {
    &&& marker_at(t, 0)
    &&& block_close(t, 3, 1) == Some(t.len() - 1)
}

/// The closing brace is a `}` behind `i`.
pub proof fn block_close_is_brace(s: Seq<char>, i: int, depth: nat)
    requires
        block_close(s, i, depth) is Some,
    ensures
        i <= block_close(s, i, depth)->0 < s.len(),
        s[block_close(s, i, depth)->0] == '}',
    decreases s.len() - i,
{
    if s[i] == '{' {
        block_close_is_brace(s, i + 1, depth + 1);
    } else if s[i] == '}' {
        if depth > 1 {
            block_close_is_brace(s, i + 1, (depth - 1) as nat);
        }
    } else {
        block_close_is_brace(s, i + 1, depth);
    }
}

/// Which brace closes a block depends on the text up to that brace alone:
/// cut out from `from` to the brace, the text closes at its last codepoint.
pub proof fn block_close_within(s: Seq<char>, from: int, i: int, depth: nat)
    requires
        0 <= from <= i,
        block_close(s, i, depth) is Some,
    ensures
        block_close(s.subrange(from, block_close(s, i, depth)->0 + 1), i - from, depth) == Some(
            block_close(s, i, depth)->0 - from,
        ),
    decreases s.len() - i,
{
    block_close_is_brace(s, i, depth);
    let close = block_close(s, i, depth)->0;
    let cut = s.subrange(from, close + 1);
    assert(cut[i - from] == s[i]);
    if s[i] == '{' {
        block_close_within(s, from, i + 1, depth + 1);
    } else if s[i] == '}' {
        if depth > 1 {
            block_close_within(s, from, i + 1, (depth - 1) as nat);
        }
    } else {
        block_close_within(s, from, i + 1, depth);
    }
}

/// What a codepoint adds to the number of open braces.
pub open spec fn brace_step(c: char) -> int {
    if c == '{' {
        1
    } else if c == '}' {
        -1
    } else {
        0
    }
}

/// How many more braces open than close among `s[from..to]`.
pub open spec fn brace_balance(s: Seq<char>, from: int, to: int) -> int
    decreases to - from,
{
    if from < 0 || to <= from || to > s.len() {
        0
    } else {
        brace_balance(s, from, to - 1) + brace_step(s[to - 1])
    }
}

/// The balance of a stretch is the step of its first codepoint and the
/// balance of the rest.
pub proof fn brace_balance_from_front(s: Seq<char>, from: int, to: int)
    requires
        0 <= from < to <= s.len(),
    ensures
        brace_balance(s, from, to) == brace_step(s[from]) + brace_balance(s, from + 1, to),
    decreases to - from,
{
    if to > from + 1 {
        brace_balance_from_front(s, from, to - 1);
        assert(brace_balance(s, from + 1, to) == brace_balance(s, from + 1, to - 1) + brace_step(
            s[to - 1],
        ));
    } else {
        assert(brace_balance(s, from, from) == 0);
        assert(brace_balance(s, from + 1, to) == 0);
    }
}

/// With `depth` braces open at `i`, the closing brace is the first
/// codepoint from `i` on at which the braces since `i` close `depth` more
/// than they open.
pub proof fn block_close_balances(s: Seq<char>, i: int, depth: nat)
    requires
        0 <= i,
        depth >= 1,
        block_close(s, i, depth) is Some,
    ensures
        brace_balance(s, i, block_close(s, i, depth)->0 + 1) == -depth,
        forall|j: int|
            i <= j <= block_close(s, i, depth)->0 ==> #[trigger] brace_balance(s, i, j) > -depth,
    decreases s.len() - i,
{
    block_close_is_brace(s, i, depth);
    let close = block_close(s, i, depth)->0;
    if s[i] == '}' && depth == 1 {
        assert(brace_balance(s, i, i) == 0);
    } else {
        let inner: nat = (depth + brace_step(s[i])) as nat;
        block_close_balances(s, i + 1, inner);
        brace_balance_from_front(s, i, close + 1);
        assert forall|j: int| i <= j <= close implies #[trigger] brace_balance(s, i, j)
            > -depth by {
            if j > i {
                brace_balance_from_front(s, i, j);
                assert(brace_balance(s, i + 1, j) > -inner);
            }
        }
    }
}

/// A block is the smallest balanced span behind its marker: from the
/// marker's brace on, the braces of the whole text balance, and those of no
/// shorter stretch do.
pub proof fn block_is_balanced(t: Seq<char>)
    requires
        is_block_text(t),
    ensures
        t.len() >= 4,
        t.last() == '}',
        brace_balance(t, 2, t.len() as int) == 0,
        forall|j: int| 3 <= j < t.len() ==> #[trigger] brace_balance(t, 2, j) > 0,
{
    block_close_is_brace(t, 3, 1);
    block_close_balances(t, 3, 1);
    brace_balance_from_front(t, 2, t.len() as int);
    assert forall|j: int| 3 <= j < t.len() implies #[trigger] brace_balance(t, 2, j) > 0 by {
        brace_balance_from_front(t, 2, j);
        assert(brace_balance(t, 3, j) > -1);
    }
}

/// One block of a document: its text, from the marker to the closing brace,
/// and the line on which the marker stands, counted from 0.
#[derive(Debug)]
pub struct Block {
    pub text: String,
    pub line: usize,
}

impl Block {
    /// Whether this is the block that `span` marks in the document `s`.
    pub open spec fn marks(&self, s: Seq<char>, span: Span) -> bool {
        &&& self.text@ == s.subrange(span.start, span.end)
        &&& self.line == newline_count(s, 0, span.start)
        &&& is_block_text(self.text@)
    }
}

/// What an extraction gives: the blocks found, in document order, and the
/// error that ended it, if one did.
#[derive(Debug)]
pub struct Extraction {
    pub blocks: Vec<Block>,
    pub error: Option<SyntaxError>,
}

/// The error for the marker at `offset` whose block the document `s` ends
/// in.
pub open spec fn unterminated_block(s: Seq<char>, offset: int) -> SyntaxError {
    SyntaxError::UnterminatedBlock {
        line: newline_count(s, 0, offset) as usize,
        offset: offset as usize,
    }
}

/// Whether `blocks` are the blocks that `spans` mark in `s`, in order.
pub open spec fn blocks_mark(blocks: Seq<Block>, s: Seq<char>, spans: Seq<Span>) -> bool {
    &&& blocks.len() == spans.len()
    &&& forall|k: int| 0 <= k < blocks.len() ==> (#[trigger] blocks[k]).marks(s, spans[k])
}

/// An extractor over a document.
pub struct Preprocessor {
    pub source: String,
    pub cursor: Cursor,
}

impl Preprocessor {
    pub open spec fn wf(&self) -> bool {
        &&& self.cursor.wf()
        &&& self.cursor.chars@ == self.source@
        &&& self.cursor.origin == 0
    }

    /// The current offset into the document.
    pub open spec fn index(&self) -> int {
        self.cursor.offset as int
    }

    /// An extractor at the start of the document `source`.
    pub fn new(source: &str) -> (preprocessor: Self)
        ensures
            preprocessor.wf(),
            preprocessor.source@ == source@,
            preprocessor.index() == 0,
    {
        Preprocessor { source: source.to_owned(), cursor: Cursor::new(codepoints(source), 0) }
    }

    pub fn is_at_end(&self) -> (at_end: bool)
        ensures
            at_end == (self.index() >= self.cursor.chars@.len()),
    {
        self.cursor.is_at_end()
    }

    /// The codepoint at the current offset, if there is one.
    pub fn current(&self) -> (c: Option<char>)
        ensures
            c == if self.index() < self.cursor.chars@.len() {
                Some(self.cursor.chars@[self.index()])
            } else {
                None
            },
    {
        self.cursor.current()
    }

    /// The codepoint behind the current one, if there is one.
    pub fn peek(&self) -> (c: Option<char>)
        ensures
            c == if self.index() + 1 < self.cursor.chars@.len() {
                Some(self.cursor.chars@[self.index() + 1])
            } else {
                None
            },
    {
        if self.cursor.offset < self.cursor.chars.len() && self.cursor.offset + 1
            < self.cursor.chars.len() {
            Some(self.cursor.chars[self.cursor.offset + 1])
        } else {
            None
        }
    }

    /// Whether the codepoint behind the current one is `to_match`.
    pub fn matches(&self, to_match: char) -> (b: bool)
        ensures
            b == (self.index() + 1 < self.cursor.chars@.len() && self.cursor.chars@[self.index()
                + 1] == to_match),
    {
        match self.peek() {
            Some(next) => next == to_match,
            None => false,
        }
    }

    /// Passes one codepoint and returns it; at the end of the document
    /// nothing changes.
    pub fn advance(&mut self) -> (passed: Option<char>)
        requires
            old(self).wf(),
        ensures
            final(self).wf(),
            final(self).source == old(self).source,
            final(self).cursor.chars == old(self).cursor.chars,
            passed == if old(self).index() < old(self).source@.len() {
                Some(old(self).source@[old(self).index()])
            } else {
                None
            },
            final(self).index() == if passed is Some {
                old(self).index() + 1
            } else {
                old(self).index()
            },
    {
        self.cursor.advance()
    }

    /// Reads the block whose marker began at `begin`, on `line`, and was
    /// passed: up to the brace that closes it, or to the end of the document
    /// where none does.
    pub fn match_block(&mut self, begin: usize, line: usize) -> (r: Result<Block, SyntaxError>)
        requires
            old(self).wf(),
            marker_at(old(self).source@, begin as int),
            old(self).index() == begin + 3,
            line == newline_count(old(self).source@, 0, begin as int),
        ensures
            final(self).wf(),
            final(self).source == old(self).source,
            final(self).cursor.chars == old(self).cursor.chars,
            match block_close(old(self).source@, begin + 3, 1) {
                Some(close) => {
                    &&& final(self).index() == close + 1
                    &&& r is Ok
                    &&& r->Ok_0.marks(
                        old(self).source@,
                        Span { start: begin as int, end: close + 1 },
                    )
                },
                None => {
                    &&& final(self).index() == old(self).source@.len()
                    &&& r == Err::<Block, SyntaxError>(
                        SyntaxError::UnterminatedBlock { line, offset: begin },
                    )
                },
            },
    {
        let ghost s = self.source@;
        let mut depth: usize = 1;
        while depth > 0
            invariant
                self.wf(),
                self.source == old(self).source,
                self.cursor.chars == old(self).cursor.chars,
                s == self.source@,
                begin + 3 <= self.index(),
                depth <= self.index() - begin - 2,
                depth > 0 ==> block_close(s, self.index(), depth as nat) == block_close(
                    s,
                    begin + 3,
                    1,
                ),
                depth == 0 ==> block_close(s, begin + 3, 1) == Some(self.index() - 1),
            decreases s.len() - self.index(),
        {
            match self.advance() {
                Some(c) => {
                    if c == '{' {
                        depth = depth + 1;
                    } else if c == '}' {
                        depth = depth - 1;
                    }
                },
                None => {
                    return Err(SyntaxError::UnterminatedBlock { line, offset: begin });
                },
            }
        }
        let text = self.source.as_str().substring_char(begin, self.cursor.offset).to_owned();
        proof {
            block_close_within(s, begin as int, begin + 3, 1);
            let cut = s.subrange(begin as int, self.index());
            assert(cut[0] == s[begin as int]);
            assert(cut[1] == s[begin + 1]);
            assert(cut[2] == s[begin + 2]);
        }
        Ok(Block { text, line })
    }

    /// Extracts the blocks of the document from the current offset on, in
    /// document order. A marker whose block the document ends in ends the
    /// extraction with `UnterminatedBlock`; the blocks before it are still
    /// returned.
    pub fn preprocess(&mut self) -> (out: Extraction)
        requires
            old(self).wf(),
        ensures
            final(self).wf(),
            final(self).source == old(self).source,
            final(self).index() == old(self).source@.len(),
            blocks_mark(
                out.blocks@,
                old(self).source@,
                spans_from(old(self).source@, old(self).index()),
            ),
            out.error == match unterminated_from(old(self).source@, old(self).index()) {
                Some(offset) => Some(unterminated_block(old(self).source@, offset)),
                None => None,
            },
    {
        let ghost s = self.source@;
        let ghost from = self.index();
        let mut blocks: Vec<Block> = Vec::new();
        while !self.is_at_end()
            invariant
                self.wf(),
                self.source == old(self).source,
                s == self.source@,
                from == old(self).index(),
                from <= self.index(),
                blocks@.len() <= spans_from(s, from).len(),
                spans_from(s, from) == spans_from(s, from).take(blocks@.len() as int) + spans_from(
                    s,
                    self.index(),
                ),
                blocks_mark(blocks@, s, spans_from(s, from).take(blocks@.len() as int)),
                unterminated_from(s, from) == unterminated_from(s, self.index()),
            decreases s.len() - self.index(),
        {
            if self.current() == Some('\\') && self.matches('%') {
                let begin = self.cursor.offset;
                let line = self.cursor.line;
                assert(spans_from(s, begin + 1) == spans_from(s, begin + 2));
                assert(unterminated_from(s, begin + 1) == unterminated_from(s, begin + 2));
                self.advance();
                self.advance();
                if self.current() == Some('{') {
                    self.advance();
                    match self.match_block(begin, line) {
                        Ok(block) => {
                            proof {
                                let close = block_close(s, begin + 3, 1)->0;
                                block_close_is_brace(s, begin + 3, 1);
                                let all = spans_from(s, from);
                                let n = blocks@.len() as int;
                                let span = Span { start: begin as int, end: close + 1 };
                                assert(spans_from(s, begin as int) == seq![span] + spans_from(
                                    s,
                                    close + 1,
                                ));
                                assert(all =~= all.take(n) + seq![span] + spans_from(s, close + 1));
                                assert(all[n] == span);
                                assert(all.take(n + 1) =~= all.take(n).push(span));
                                assert(all =~= all.take(n + 1) + spans_from(s, close + 1));
                            }
                            blocks.push(block);
                        },
                        Err(error) => {
                            proof {
                                newline_count_bound(s, 0, begin as int);
                                let all = spans_from(s, from);
                                assert(spans_from(s, begin as int) =~= Seq::<Span>::empty());
                                assert(all =~= all.take(blocks@.len() as int));
                            }
                            return Extraction { blocks, error: Some(error) };
                        },
                    }
                }
            } else {
                self.advance();
            }
        }
        proof {
            let all = spans_from(s, from);
            assert(all =~= all.take(blocks@.len() as int));
        }
        Extraction { blocks, error: None }
    }
}

impl Errorable for Preprocessor {
    open spec fn error_text(&self) -> Seq<char> {
        self.source@
    }

    fn to_error(&self) -> (context: ErrorStruct) {
        let source = self.source.clone();
        let max = codepoints(source.as_str()).len();
        ErrorStruct { source, max }
    }
}

/// Every block is a closed marker, and the blocks follow one another: each
/// span begins at a marker, ends behind the brace that closes it, and lies
/// behind the span before it.
pub proof fn spans_are_closed_markers(s: Seq<char>, i: int)
    requires
        0 <= i,
    ensures
        forall|k: int|
            0 <= k < spans_from(s, i).len() ==> {
                let span = #[trigger] spans_from(s, i)[k];
                &&& i <= span.start
                &&& span.end <= s.len()
                &&& marker_at(s, span.start)
                &&& block_close(s, span.start + 3, 1) == Some(span.end - 1)
            },
        forall|k: int|
            0 <= k && k + 1 < spans_from(s, i).len() ==> (#[trigger] spans_from(s, i)[k]).end
                <= spans_from(s, i)[k + 1].start,
    decreases s.len() - i,
{
    let spans = spans_from(s, i);
    if i < s.len() {
        if marker_at(s, i) {
            let close = block_close(s, i + 3, 1);
            if close is Some && i < close->0 < s.len() {
                let rest = spans_from(s, close->0 + 1);
                spans_are_closed_markers(s, close->0 + 1);
                assert forall|k: int| 0 <= k < spans.len() implies {
                    let span = #[trigger] spans[k];
                    &&& i <= span.start
                    &&& span.end <= s.len()
                    &&& marker_at(s, span.start)
                    &&& block_close(s, span.start + 3, 1) == Some(span.end - 1)
                } by {
                    if k > 0 {
                        assert(spans[k] == rest[k - 1]);
                    }
                }
                assert forall|k: int| 0 <= k && k + 1 < spans.len() implies (#[trigger] spans[k]).end
                    <= spans[k + 1].start by {
                    assert(spans[k + 1] == rest[k]);
                    if k > 0 {
                        assert(spans[k] == rest[k - 1]);
                    }
                }
            }
        } else {
            spans_are_closed_markers(s, i + 1);
        }
    }
}

/// The document that is one marker with `k` pairs of braces nested in its
/// block: `\%{`, `k` times `{`, `k` times `}`, and `}`.
pub open spec fn nested(k: nat) -> Seq<char> {
    seq!['\\', '%', '{'] + Seq::new(k, |i: int| '{') + Seq::new(k + 1, |i: int| '}')
}

/// How many braces are open at `i` in `nested(k)`, behind the marker.
pub open spec fn nested_depth(k: nat, i: int) -> nat {
    if i <= 3 + k {
        (i - 2) as nat
    } else {
        (2 * k + 4 - i) as nat
    }
}

/// From every offset behind the marker, `nested(k)` closes at its last
/// codepoint.
pub proof fn nested_closes_at_end(k: nat, i: int)
    requires
        3 <= i <= 2 * k + 3,
    ensures
        block_close(nested(k), i, nested_depth(k, i)) == Some(nested(k).len() - 1),
    decreases 2 * k + 3 - i,
{
    let s = nested(k);
    assert(s.len() == 2 * k + 4);
    if i < 3 + k {
        assert(s[i] == '{');
        nested_closes_at_end(k, i + 1);
    } else {
        assert(s[i] == '}');
        if i < 2 * k + 3 {
            nested_closes_at_end(k, i + 1);
        }
    }
}

/// Braces nested to any depth are matched: the document `nested(k)` is one
/// block, which spans all of it.
pub proof fn nested_braces_are_one_block(k: nat)
    ensures
        spans_from(nested(k), 0) == seq![Span { start: 0, end: nested(k).len() as int }],
        unterminated_from(nested(k), 0) is None,
        is_block_text(nested(k)),
{
    let s = nested(k);
    assert(s.len() == 2 * k + 4);
    assert(s[0] == '\\' && s[1] == '%' && s[2] == '{');
    nested_closes_at_end(k, 3);
    assert(spans_from(s, s.len() as int) =~= Seq::<Span>::empty());
    assert(unterminated_from(s, s.len() as int) is None);
    assert(spans_from(s, 0) =~= seq![Span { start: 0, end: s.len() as int }]);
}

} // verus!
