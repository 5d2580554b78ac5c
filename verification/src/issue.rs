//! Diagnostics of a compilation, kept in the order in which they arrive.

use vstd::prelude::*;
use vstd::string::*;
use crate::error::CompileError;
use crate::tokens::SourcePos;

verus! {

#[derive(Copy, Clone, Debug, PartialEq, Eq, Structural)]
pub enum Level {
    Error,
    Warning,
}

#[derive(Debug)]
pub struct Issue {
    pub pos: Option<SourcePos>,
    pub level: Level,
    pub msg: String,
}

/// What an issue says, with the message as a sequence of characters.
pub struct IssueView {
    pub pos: Option<SourcePos>,
    pub level: Level,
    pub msg: Seq<char>,
}

impl View for Issue {
    type V = IssueView;

    open spec fn view(&self) -> IssueView {
        IssueView { pos: self.pos, level: self.level, msg: self.msg@ }
    }
}

/// An issue of the given level at a position.
pub open spec fn issue_at(pos: SourcePos, level: Level, msg: Seq<char>) -> IssueView {
    IssueView { pos: Some(pos), level: level, msg: msg }
}

/// True when an issue of the given level is among `issues`.
pub open spec fn has_level(issues: Seq<IssueView>, level: Level) -> bool {
    exists|i: int| 0 <= i < issues.len() && (#[trigger] issues[i]).level == level
}

#[derive(Debug)]
pub struct IssueTracker {
    issues: Vec<Issue>,
}

impl View for IssueTracker {
    type V = Seq<IssueView>;

    /// The issues in the order of their arrival.
    closed spec fn view(&self) -> Seq<IssueView> {
        Seq::new(self.issues@.len(), |i: int| self.issues@[i]@)
    }
}

impl IssueTracker {
    /// A tracker without issues.
    pub fn new() -> (r: IssueTracker)
        ensures
            r@ == Seq::<IssueView>::empty(),
    {
        let r = IssueTracker { issues: Vec::new() };
        proof {
            assert(r@ =~= Seq::<IssueView>::empty());
        }
        r
    }

    /// Adds an issue at a position, behind those that are there.
    pub fn new_issue(&mut self, pos: SourcePos, level: Level, msg: &'static str)
        ensures
            final(self)@ == old(self)@.push(issue_at(pos, level, msg@)),
    {
        self.issues.push(Issue { pos: Some(pos), level: level, msg: String::from_str(msg) });
        proof {
            assert(self@ =~= old(self)@.push(issue_at(pos, level, msg@)));
        }
    }

    /// Adds an error as an issue of level `Error`, with its message and its
    /// position.
    pub fn new_error(&mut self, error: CompileError)
        ensures
            final(self)@ == old(self)@.push(
                IssueView { pos: error.pos, level: Level::Error, msg: error.msg@ },
            ),
    {
        self.issues.push(Issue { pos: error.pos, level: Level::Error, msg: error.msg });
        proof {
            assert(self@ =~= old(self)@.push(
                IssueView { pos: error.pos, level: Level::Error, msg: error.msg@ },
            ));
        }
    }

    /// Number of issues.
    pub fn len(&self) -> (r: usize)
        ensures
            r == self@.len(),
    {
        self.issues.len()
    }

    /// The issue that arrived as number `i`.
    pub fn get(&self, i: usize) -> (r: Option<&Issue>)
        ensures
            match r {
                Some(issue) => i < self@.len() && issue@ == self@[i as int],
                None => i >= self@.len(),
            },
    {
        if i < self.issues.len() {
            Some(&self.issues[i])
        } else {
            None
        }
    }

    fn any_of_level(&self, level: Level) -> (r: bool)
        ensures
            r == has_level(self@, level),
    {
        let mut i: usize = 0;
        while i < self.issues.len()
            invariant
                i <= self.issues@.len(),
                forall|j: int| 0 <= j < i ==> (#[trigger] self@[j]).level != level,
            decreases self.issues@.len() - i,
        {
            if self.issues[i].level == level {
                proof {
                    assert(self@[i as int].level == level);
                }
                return true;
            }
            i += 1;
        }
        false
    }

    /// True when at least one error was reported: later phases must not run.
    pub fn has_errors(&self) -> (r: bool)
        ensures
            r == has_level(self@, Level::Error),
    {
        self.any_of_level(Level::Error)
    }

    /// True when at least one warning was reported.
    pub fn has_warnings(&self) -> (r: bool)
        ensures
            r == has_level(self@, Level::Warning),
    {
        self.any_of_level(Level::Warning)
    }

    /// Forgets all issues.
    pub fn clear(&mut self)
        ensures
            final(self)@ == Seq::<IssueView>::empty(),
    {
        self.issues.clear();
        proof {
            assert(self@ =~= Seq::<IssueView>::empty());
        }
    }
}

} // verus!
