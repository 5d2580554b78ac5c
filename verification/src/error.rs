//! The error that lexing, parsing and evaluation report.

use vstd::prelude::*;
use vstd::string::*;
use crate::text::{append_decimal, decimal};
use crate::tokens::SourcePos;

verus! {

/// A message and, where one is meaningful, the place in the source.
#[derive(Debug)]
pub struct CompileError {
    pub msg: String,
    pub pos: Option<SourcePos>,
}

/// What an error says, with the message as a sequence of characters.
pub struct ErrorView {
    pub msg: Seq<char>,
    pub pos: Option<SourcePos>,
}

impl View for CompileError {
    type V = ErrorView;

    open spec fn view(&self) -> ErrorView {
        ErrorView { msg: self.msg@, pos: self.pos }
    }
}

/// An error without a position.
pub open spec fn plain_error(msg: Seq<char>) -> ErrorView {
    ErrorView { msg: msg, pos: None }
}

/// An error at a position.
pub open spec fn error_at(msg: Seq<char>, pos: SourcePos) -> ErrorView {
    ErrorView { msg: msg, pos: Some(pos) }
}

/// A position as diagnostics print it: line, colon, column.
pub open spec fn pos_text(pos: SourcePos) -> Seq<char> {
    decimal(pos.line as nat) + ":"@ + decimal(pos.column as nat)
}

/// An error as diagnostics print it: the position, where there is one, then
/// ` :: `, then the message.
pub open spec fn error_text(e: ErrorView) -> Seq<char> {
    match e.pos {
        Some(pos) => pos_text(pos) + " :: "@ + e.msg,
        None => e.msg,
    }
}

/// The view of a result whose error is a `CompileError`.
pub open spec fn result_view<T>(r: Result<T, CompileError>) -> Result<T, ErrorView> {
    match r {
        Ok(v) => Ok(v),
        Err(e) => Err(e@),
    }
}

impl CompileError {
    pub fn new(msg: String) -> (r: CompileError)
        ensures
            r@ == plain_error(msg@),
            r.msg == msg,
    {
        CompileError { msg: msg, pos: None }
    }

    pub fn new_static(msg: &'static str) -> (r: CompileError)
        ensures
            r@ == plain_error(msg@),
    {
        CompileError { msg: String::from_str(msg), pos: None }
    }

    pub fn with_pos(self, pos: SourcePos) -> (r: CompileError)
        ensures
            r@ == error_at(self.msg@, pos),
            r.msg == self.msg,
    {
        CompileError { msg: self.msg, pos: Some(pos) }
    }

    /// The text that a diagnostic shows for this error.
    pub fn to_text(&self) -> (r: String)
        ensures
            r@ == error_text(self@),
    {
        match self.pos {
            Some(pos) => {
                let mut s = String::new();
                append_decimal(&mut s, pos.line);
                s.append(":");
                append_decimal(&mut s, pos.column);
                s.append(" :: ");
                s.append(self.msg.as_str());
                proof {
                    assert(s@ =~= error_text(self@));
                }
                s
            },
            None => self.msg.clone(),
        }
    }
}

} // verus!
