//! The token stream that the parsers read from: a bounded span of tokens
//! with a cursor.

use vstd::prelude::*;
use vstd::slice::*;
use vstd::string::*;
use crate::error::{error_at, CompileError};
use crate::tokens::{SourcePos, Token, PW};

verus! {

/// A span of the tokens of a source, read from the front. `cursor` is the
/// index of the token to read next, `end` the index behind the last token
/// of the span, and `end_pos` the position to report when the span is
/// exhausted.
#[derive(Copy, Clone, Debug)]
pub struct TokenStream<'a> {
    pub tokens: &'a [PW<Token>],
    pub cursor: usize,
    pub end: usize,
    pub end_pos: SourcePos,
}

/// The index behind the token that closes the group opened before `at`.
/// `depth` counts the groups that are open. Nothing where the span ends
/// first.
pub open spec fn group_end(
    tokens: Seq<PW<Token>>,
    at: int,
    end: int,
    open: Token,
    close: Token,
    depth: int,
) -> Option<int>
    decreases end - at,
{
    if at < 0 || at >= end || at >= tokens.len() {
        None
    } else {
        let d = if tokens[at].token == open {
            depth + 1
        } else if tokens[at].token == close {
            depth - 1
        } else {
            depth
        };
        if d == 0 {
            Some(at + 1)
        } else {
            group_end(tokens, at + 1, end, open, close, d)
        }
    }
}

/// The end of a group lies behind its start and inside the span.
pub proof fn lemma_group_end_bounds(
    tokens: Seq<PW<Token>>,
    at: int,
    end: int,
    open: Token,
    close: Token,
    depth: int,
)
    requires
        0 <= at,
    ensures
        group_end(tokens, at, end, open, close, depth) matches Some(e) ==> at < e <= end && e
            <= tokens.len(),
    decreases end - at,
{
    if at < end && at < tokens.len() {
        let d = if tokens[at].token == open {
            depth + 1
        } else if tokens[at].token == close {
            depth - 1
        } else {
            depth
        };
        if d != 0 {
            lemma_group_end_bounds(tokens, at + 1, end, open, close, d);
        }
    }
}

pub open spec fn msg_unmatched(close: Token) -> Seq<char> {
    "expected `"@ + close.spec_text() + "`, got EOF"@
}

impl<'a> TokenStream<'a> {
    /// The cursor and the end lie inside the tokens, in this order.
    pub open spec fn wf(&self) -> bool {
        self.cursor <= self.end <= self.tokens@.len()
    }

    /// The tokens that are still to be read.
    pub open spec fn rest(&self) -> Seq<PW<Token>> {
        self.tokens@.subrange(self.cursor as int, self.end as int)
    }

    /// A stream over all of `tokens`.
    pub fn new(tokens: &'a [PW<Token>], end_pos: SourcePos) -> (r: TokenStream<'a>)
        ensures
            r.wf(),
            r.tokens == tokens,
            r.cursor == 0,
            r.end == tokens@.len(),
            r.end_pos == end_pos,
    {
        TokenStream { tokens: tokens, cursor: 0, end: tokens.len(), end_pos: end_pos }
    }

    /// Reads the next token, if the span has one left.
    pub fn next(&mut self) -> (r: Option<PW<Token>>)
        requires
            old(self).wf(),
        ensures
            final(self).wf(),
            final(self).tokens == old(self).tokens,
            final(self).end == old(self).end,
            final(self).end_pos == old(self).end_pos,
            match r {
                Some(t) => old(self).cursor < old(self).end && t == old(self).tokens@[old(
                    self,
                ).cursor as int] && final(self).cursor == old(self).cursor + 1,
                None => old(self).cursor == old(self).end && final(self).cursor == old(
                    self,
                ).cursor,
            },
    {
        if self.cursor < self.end {
            let t = self.tokens[self.cursor];
            self.cursor = self.cursor + 1;
            Some(t)
        } else {
            None
        }
    }

    /// The token `n` places ahead of the cursor, without reading it.
    pub fn peek(&self, n: usize) -> (r: Option<PW<Token>>)
        requires
            self.wf(),
        ensures
            match r {
                Some(t) => self.cursor + n < self.end && t == self.tokens@[self.cursor + n],
                None => self.cursor + n >= self.end,
            },
    {
        if n < self.end - self.cursor {
            Some(self.tokens[self.cursor + n])
        } else {
            None
        }
    }

    /// The index of the token that is read next.
    pub fn pos(&self) -> (r: usize)
        ensures
            r == self.cursor,
    {
        self.cursor
    }

    pub fn is_empty(&self) -> (r: bool)
        ensures
            r == (self.cursor >= self.end),
    {
        self.cursor >= self.end
    }

    /// The position to report when the span is exhausted.
    pub fn end_source_pos(&self) -> (r: SourcePos)
        ensures
            r == self.end_pos,
    {
        self.end_pos
    }

    /// The stream over the tokens from index `start` up to index `end`.
    pub fn slice(&self, start: usize, end: usize) -> (r: TokenStream<'a>)
        requires
            self.wf(),
            start <= end <= self.end,
        ensures
            r.wf(),
            r.tokens == self.tokens,
            r.cursor == start,
            r.end == end,
            r.end_pos == self.end_pos,
    {
        TokenStream { tokens: self.tokens, cursor: start, end: end, end_pos: self.end_pos }
    }

    /// The tokens that are still to be read, as a slice.
    pub fn remaining(&self) -> (r: &'a [PW<Token>])
        requires
            self.wf(),
        ensures
            r@ == self.rest(),
    {
        slice_subrange(self.tokens, self.cursor, self.end)
    }
}

/// Steps over a bracketed group. The cursor must stand on the group's
/// opening token; the stream that comes back stands behind the token that
/// closes it. Where the span ends before the group is closed, the error
/// names the missing token and has the end position.
pub fn match_paren<'a>(tokens: TokenStream<'a>, open: Token, close: Token) -> (r: Result<
    TokenStream<'a>,
    CompileError,
>)
    requires
        tokens.wf(),
    ensures
        match r {
            Ok(after) => group_end(
                tokens.tokens@,
                tokens.cursor as int,
                tokens.end as int,
                open,
                close,
                0,
            ) == Some(after.cursor as int) && after.wf() && after.tokens == tokens.tokens
                && after.end == tokens.end && after.end_pos == tokens.end_pos && tokens.cursor
                < after.cursor,
            Err(e) => group_end(
                tokens.tokens@,
                tokens.cursor as int,
                tokens.end as int,
                open,
                close,
                0,
            ) is None && e@ == error_at(msg_unmatched(close), tokens.end_pos),
        },
{
    let mut at: usize = tokens.cursor;
    let mut opened: usize = 0;
    let mut closed: usize = 0;
    while at < tokens.end
        invariant
            tokens.wf(),
            tokens.cursor <= at <= tokens.end,
            opened <= at - tokens.cursor,
            closed <= at - tokens.cursor,
            group_end(tokens.tokens@, tokens.cursor as int, tokens.end as int, open, close, 0)
                == group_end(
                tokens.tokens@,
                at as int,
                tokens.end as int,
                open,
                close,
                opened - closed,
            ),
        decreases tokens.end - at,
    {
        let t = tokens.tokens[at].token;
        if t == open {
            opened += 1;
        } else if t == close {
            closed += 1;
        }
        at += 1;
        if opened == closed {
            return Ok(
                TokenStream {
                    tokens: tokens.tokens,
                    cursor: at,
                    end: tokens.end,
                    end_pos: tokens.end_pos,
                },
            );
        }
    }
    let mut s = String::from_str("expected `");
    let text = close.to_text();
    s.append(text.as_str());
    s.append("`, got EOF");
    Err(CompileError::new(s).with_pos(tokens.end_pos))
}

} // verus!
