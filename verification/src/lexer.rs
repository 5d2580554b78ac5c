//! The lexer: from source text to positioned tokens.
//!
//! At each place the kinds of lexeme are tried in a fixed order: line
//! comment, blanks, line break, symbol, identifier, operator, numeric
//! constant. The first kind that matches there wins. A byte that starts
//! none of them is reported and skipped.

use vstd::prelude::*;
use vstd::slice::*;
use vstd::string::*;
use crate::identifier::{distinct_names, intern, lemma_intern, lemma_position_from, IdMap};
use crate::issue::{issue_at, IssueTracker, IssueView, Level};
use crate::tokens::{Literal, Operator, SourcePos, Symbol, Token, PW};

verus! {

/// The classes of byte that a lexeme can be a run of.
#[derive(Copy, Clone, Debug, PartialEq, Eq, Structural)]
pub enum ByteClass {
    /// `0` to `9`.
    Digit,
    /// A letter, `_`, `~`, `'` or a digit.
    IdentPart,
    /// A space or a tab.
    Blank,
    /// Anything but a line feed.
    CommentBody,
}

pub open spec fn is_digit(b: u8) -> bool {
    0x30 <= b <= 0x39
}

/// A letter, `_`, `~` or `'`.
pub open spec fn is_ident_start(b: u8) -> bool {
    (0x61 <= b <= 0x7a) || (0x41 <= b <= 0x5a) || b == 0x5f || b == 0x7e || b == 0x27
}

/// A line feed or a carriage return.
pub open spec fn is_newline(b: u8) -> bool {
    b == 0x0a || b == 0x0d
}

pub open spec fn in_class(class: ByteClass, b: u8) -> bool {
    match class {
        ByteClass::Digit => is_digit(b),
        ByteClass::IdentPart => is_ident_start(b) || is_digit(b),
        ByteClass::Blank => b == 0x20 || b == 0x09,
        ByteClass::CommentBody => b != 0x0a,
    }
}

/// The end of the longest run of bytes of `class` that starts at `i`.
pub open spec fn run_end(s: Seq<u8>, i: int, class: ByteClass) -> int
    decreases s.len() - i,
{
    if 0 <= i < s.len() && in_class(class, s[i]) {
        run_end(s, i + 1, class)
    } else {
        i
    }
}

/// A run ends inside the text, holds bytes of its class only, and is not
/// followed by another byte of the class.
pub proof fn lemma_run_end(s: Seq<u8>, i: int, class: ByteClass)
    requires
        0 <= i <= s.len(),
    ensures
        i <= run_end(s, i, class) <= s.len(),
        forall|k: int| i <= k < run_end(s, i, class) ==> in_class(class, s[k]),
        run_end(s, i, class) < s.len() ==> !in_class(class, s[run_end(s, i, class)]),
    decreases s.len() - i,
{
    if i < s.len() && in_class(class, s[i]) {
        lemma_run_end(s, i + 1, class);
    }
}

/// Length of the line comment at `i`: `//` and the rest of the line, without
/// its line feed. 0 where no comment starts.
pub open spec fn comment_len(s: Seq<u8>, i: int) -> int {
    if i + 1 < s.len() && s[i] == 0x2f && s[i + 1] == 0x2f {
        run_end(s, i + 2, ByteClass::CommentBody) - i
    } else {
        0
    }
}

/// Length of the run of spaces and tabs at `i`.
pub open spec fn blank_len(s: Seq<u8>, i: int) -> int {
    run_end(s, i, ByteClass::Blank) - i
}

/// The symbol at `i` and its length: `if`, `else`, or one punctuation mark.
pub open spec fn symbol_at(s: Seq<u8>, i: int) -> Option<(Symbol, int)> {
    if i + 2 <= s.len() && s.subrange(i, i + 2) == Symbol::If.spec_bytes() {
        Some((Symbol::If, 2))
    } else if i + 4 <= s.len() && s.subrange(i, i + 4) == Symbol::Else.spec_bytes() {
        Some((Symbol::Else, 4))
    } else {
        match Symbol::spec_punctuation(s[i]) {
            Some(sym) => Some((sym, 1)),
            None => None,
        }
    }
}

/// Length of the identifier at `i`: a letter, `_`, `~` or `'`, and all the
/// letters, digits and such marks that follow. 0 where none starts.
pub open spec fn ident_len(s: Seq<u8>, i: int) -> int {
    if is_ident_start(s[i]) {
        run_end(s, i, ByteClass::IdentPart) - i
    } else {
        0
    }
}

/// The operator at `i` and its length. A two-byte operator is taken before
/// the one-byte operator that it begins with.
pub open spec fn operator_at(s: Seq<u8>, i: int) -> Option<(Operator, int)> {
    if i + 2 <= s.len() && Operator::spec_parse(s.subrange(i, i + 2)) is Some {
        Some((Operator::spec_parse(s.subrange(i, i + 2))->0, 2))
    } else {
        match Operator::spec_parse(s.subrange(i, i + 1)) {
            Some(op) => Some((op, 1)),
            None => None,
        }
    }
}

/// The end of the digits and the decimal point of the constant at `i`:
/// digits, then optionally a point and more digits; or a point and at
/// least one digit. `i` itself where neither is there.
pub open spec fn mantissa_end(s: Seq<u8>, i: int) -> int {
    let whole = run_end(s, i, ByteClass::Digit);
    if whole > i {
        if whole < s.len() && s[whole] == 0x2e {
            run_end(s, whole + 1, ByteClass::Digit)
        } else {
            whole
        }
    } else if i < s.len() && s[i] == 0x2e && run_end(s, i + 1, ByteClass::Digit) > i + 1 {
        run_end(s, i + 1, ByteClass::Digit)
    } else {
        i
    }
}

/// The end of the exponent that starts at `e`: `e` or `E`, optionally `-`,
/// and at least one digit. `e` itself where there is no exponent.
pub open spec fn exponent_end(s: Seq<u8>, e: int) -> int {
    if 0 <= e < s.len() && (s[e] == 0x65 || s[e] == 0x45) {
        let digits = if e + 1 < s.len() && s[e + 1] == 0x2d {
            e + 2
        } else {
            e + 1
        };
        if run_end(s, digits, ByteClass::Digit) > digits {
            run_end(s, digits, ByteClass::Digit)
        } else {
            e
        }
    } else {
        e
    }
}

/// Length of the numeric constant at `i`. 0 where none starts.
pub open spec fn const_len(s: Seq<u8>, i: int) -> int {
    if mantissa_end(s, i) > i {
        exponent_end(s, mantissa_end(s, i)) - i
    } else {
        0
    }
}

/// The kinds of lexeme.
#[derive(Copy, Clone, Debug, PartialEq, Eq, Structural)]
pub enum LexemeKind {
    Comment,
    Blank,
    Newline,
    Symbol(Symbol),
    Ident,
    Operator(Operator),
    Const,
    /// A byte that starts no lexeme.
    Unknown,
}

/// A lexeme: its kind and its length in bytes.
#[derive(Copy, Clone, Debug, PartialEq, Eq, Structural)]
pub struct Lexeme {
    pub kind: LexemeKind,
    pub len: usize,
}

pub open spec fn lexeme(kind: LexemeKind, len: int) -> Lexeme {
    Lexeme { kind: kind, len: len as usize }
}

/// The lexeme that starts at `i`: the first kind, in the fixed order, that
/// matches there. A line break and an unknown byte have length 1.
pub open spec fn lexeme_at(s: Seq<u8>, i: int) -> Lexeme {
    if comment_len(s, i) > 0 {
        lexeme(LexemeKind::Comment, comment_len(s, i))
    } else if blank_len(s, i) > 0 {
        lexeme(LexemeKind::Blank, blank_len(s, i))
    } else if is_newline(s[i]) {
        lexeme(LexemeKind::Newline, 1)
    } else if let Some((sym, n)) = symbol_at(s, i) {
        lexeme(LexemeKind::Symbol(sym), n)
    } else if ident_len(s, i) > 0 {
        lexeme(LexemeKind::Ident, ident_len(s, i))
    } else if let Some((op, n)) = operator_at(s, i) {
        lexeme(LexemeKind::Operator(op), n)
    } else if const_len(s, i) > 0 {
        lexeme(LexemeKind::Const, const_len(s, i))
    } else {
        lexeme(LexemeKind::Unknown, 1)
    }
}

/// Finds the end of the run of bytes of `class` that starts at `i`.
pub fn scan_run(s: &[u8], i: usize, class: ByteClass) -> (j: usize)
    requires
        i <= s@.len(),
    ensures
        j == run_end(s@, i as int, class),
        i <= j <= s@.len(),
{
    let mut j: usize = i;
    while j < s.len()
        invariant
            i <= j <= s@.len(),
            run_end(s@, i as int, class) == run_end(s@, j as int, class),
        decreases s@.len() - j,
    {
        let b = s[j];
        let inside = match class {
            ByteClass::Digit => 0x30 <= b && b <= 0x39,
            ByteClass::IdentPart => (0x61 <= b && b <= 0x7a) || (0x41 <= b && b <= 0x5a) || b
                == 0x5f || b == 0x7e || b == 0x27 || (0x30 <= b && b <= 0x39),
            ByteClass::Blank => b == 0x20 || b == 0x09,
            ByteClass::CommentBody => b != 0x0a,
        };
        if !inside {
            return j;
        }
        j += 1;
    }
    j
}

fn scan_symbol(s: &[u8], i: usize) -> (r: Option<(Symbol, usize)>)
    requires
        i < s@.len(),
    ensures
        match r {
            Some((sym, n)) => symbol_at(s@, i as int) == Some((sym, n as int)) && 1 <= n
                <= s@.len() - i,
            None => symbol_at(s@, i as int) is None,
        },
{
    let len = s.len();
    if len - i >= 2 && s[i] == 0x69 && s[i + 1] == 0x66 {
        proof {
            assert(s@.subrange(i as int, i + 2) =~= Symbol::If.spec_bytes());
        }
        return Some((Symbol::If, 2));
    }
    proof {
        if i + 2 <= s@.len() && s@.subrange(i as int, i + 2) == Symbol::If.spec_bytes() {
            assert(s@.subrange(i as int, i + 2)[0] == 0x69);
            assert(s@.subrange(i as int, i + 2)[1] == 0x66);
        }
    }
    if len - i >= 4 && s[i] == 0x65 && s[i + 1] == 0x6c && s[i + 2] == 0x73 && s[i + 3] == 0x65 {
        proof {
            assert(s@.subrange(i as int, i + 4) =~= Symbol::Else.spec_bytes());
        }
        return Some((Symbol::Else, 4));
    }
    proof {
        if i + 4 <= s@.len() && s@.subrange(i as int, i + 4) == Symbol::Else.spec_bytes() {
            assert(s@.subrange(i as int, i + 4)[0] == 0x65);
            assert(s@.subrange(i as int, i + 4)[1] == 0x6c);
            assert(s@.subrange(i as int, i + 4)[2] == 0x73);
            assert(s@.subrange(i as int, i + 4)[3] == 0x65);
        }
    }
    match Symbol::punctuation(s[i]) {
        Some(sym) => Some((sym, 1)),
        None => None,
    }
}

fn scan_operator(s: &[u8], i: usize) -> (r: Option<(Operator, usize)>)
    requires
        i < s@.len(),
    ensures
        match r {
            Some((op, n)) => operator_at(s@, i as int) == Some((op, n as int)) && 1 <= n
                <= s@.len() - i,
            None => operator_at(s@, i as int) is None,
        },
{
    if s.len() - i >= 2 {
        match Operator::parse(slice_subrange(s, i, i + 2)) {
            Some(op) => {
                return Some((op, 2));
            },
            None => {},
        }
    }
    match Operator::parse(slice_subrange(s, i, i + 1)) {
        Some(op) => Some((op, 1)),
        None => None,
    }
}

fn scan_const(s: &[u8], i: usize) -> (n: usize)
    requires
        i < s@.len(),
    ensures
        n == const_len(s@, i as int),
        n <= s@.len() - i,
{
    let len = s.len();
    let whole = scan_run(s, i, ByteClass::Digit);
    let mantissa = if whole > i {
        if whole < len && s[whole] == 0x2e {
            scan_run(s, whole + 1, ByteClass::Digit)
        } else {
            whole
        }
    } else if s[i] == 0x2e {
        let fraction = scan_run(s, i + 1, ByteClass::Digit);
        if fraction > i + 1 {
            fraction
        } else {
            i
        }
    } else {
        i
    };
    if mantissa == i {
        return 0;
    }
    if mantissa < len && (s[mantissa] == 0x65 || s[mantissa] == 0x45) {
        let digits = if len - mantissa >= 2 && s[mantissa + 1] == 0x2d {
            mantissa + 2
        } else {
            mantissa + 1
        };
        let end = scan_run(s, digits, ByteClass::Digit);
        if end > digits {
            return end - i;
        }
    }
    mantissa - i
}

/// Classifies what starts at `i`.
pub fn next_lexeme(s: &[u8], i: usize) -> (r: Lexeme)
    requires
        i < s@.len(),
    ensures
        r == lexeme_at(s@, i as int),
        1 <= r.len <= s@.len() - i,
{
    let len = s.len();
    if len - i >= 2 && s[i] == 0x2f && s[i + 1] == 0x2f {
        let end = scan_run(s, i + 2, ByteClass::CommentBody);
        return Lexeme { kind: LexemeKind::Comment, len: end - i };
    }
    let blank = scan_run(s, i, ByteClass::Blank);
    if blank > i {
        return Lexeme { kind: LexemeKind::Blank, len: blank - i };
    }
    let b = s[i];
    if b == 0x0a || b == 0x0d {
        return Lexeme { kind: LexemeKind::Newline, len: 1 };
    }
    match scan_symbol(s, i) {
        Some((sym, n)) => {
            return Lexeme { kind: LexemeKind::Symbol(sym), len: n };
        },
        None => {},
    }
    if (0x61 <= b && b <= 0x7a) || (0x41 <= b && b <= 0x5a) || b == 0x5f || b == 0x7e || b
        == 0x27 {
        let end = scan_run(s, i, ByteClass::IdentPart);
        proof {
            lemma_run_end(s@, i + 1, ByteClass::IdentPart);
        }
        return Lexeme { kind: LexemeKind::Ident, len: end - i };
    }
    match scan_operator(s, i) {
        Some((op, n)) => {
            return Lexeme { kind: LexemeKind::Operator(op), len: n };
        },
        None => {},
    }
    let n = scan_const(s, i);
    if n > 0 {
        return Lexeme { kind: LexemeKind::Const, len: n };
    }
    Lexeme { kind: LexemeKind::Unknown, len: 1 }
}

/// The message for a byte that starts no lexeme.
pub open spec fn msg_unrecognized() -> Seq<char> {
    "unrecognized token"@
}

/// What lexing has produced up to a place in the source.
pub struct LexState {
    pub pos: SourcePos,
    pub tokens: Seq<PW<Token>>,
    pub names: Seq<Seq<u8>>,
    pub issues: Seq<IssueView>,
}

/// A token at the current position.
pub open spec fn token_here(st: LexState, t: Token) -> PW<Token> {
    PW { token: t, pos: st.pos }
}

/// The state after the lexeme at the current position.
///
/// Comments and blanks only move the position. A line break starts a new
/// line. A symbol, an operator and a constant add a token. An identifier is
/// interned and adds a token with its handle. An unknown byte adds an error
/// at its position and is stepped over.
pub open spec fn lex_step(s: Seq<u8>, st: LexState) -> LexState {
    let i = st.pos.index as int;
    let lx = lexeme_at(s, i);
    let after = st.pos.spec_add_chars(lx.len);
    match lx.kind {
        LexemeKind::Comment | LexemeKind::Blank => LexState { pos: after, ..st },
        LexemeKind::Newline => LexState { pos: st.pos.spec_add_line(), ..st },
        LexemeKind::Symbol(sym) => LexState {
            pos: after,
            tokens: st.tokens.push(token_here(st, Token::Symbol(sym))),
            ..st
        },
        LexemeKind::Ident => {
            let (names, id) = intern(st.names, s.subrange(i, i + lx.len));
            LexState {
                pos: after,
                tokens: st.tokens.push(token_here(st, Token::Ident(id as usize))),
                names: names,
                ..st
            }
        },
        LexemeKind::Operator(op) => LexState {
            pos: after,
            tokens: st.tokens.push(token_here(st, Token::Operator(op))),
            ..st
        },
        LexemeKind::Const => LexState {
            pos: after,
            tokens: st.tokens.push(
                token_here(st, Token::Const(Literal { offset: st.pos.index, len: lx.len })),
            ),
            ..st
        },
        LexemeKind::Unknown => LexState {
            pos: after,
            issues: st.issues.push(issue_at(st.pos, Level::Error, msg_unrecognized())),
            ..st
        },
    }
}

/// The state when the whole source has been read, starting from `st`.
pub open spec fn lex_from(s: Seq<u8>, st: LexState) -> LexState
    decreases s.len() - st.pos.index,
    when s.len() < usize::MAX && pos_in_source(s, st.pos)
{
    if st.pos.index >= s.len() {
        st
    } else {
        proof {
            lemma_lex_step_advances(s, st);
        }
        lex_from(s, lex_step(s, st))
    }
}

/// The state in which lexing starts: at the start of the source, with no
/// tokens, and with the names and issues that are already there.
pub open spec fn lex_start(names: Seq<Seq<u8>>, issues: Seq<IssueView>) -> LexState {
    LexState { pos: SourcePos::start(), tokens: Seq::empty(), names: names, issues: issues }
}

/// A position that lexing can be at: lines and columns count from 1 and
/// cannot have run ahead of the bytes read.
pub open spec fn pos_in_source(s: Seq<u8>, pos: SourcePos) -> bool {
    &&& pos.index <= s.len()
    &&& 1 <= pos.line <= pos.index + 1
    &&& 1 <= pos.column <= pos.index + 1
    &&& pos.line_index <= pos.index
}

/// Each step moves on by at least one byte and stays inside the source.
pub proof fn lemma_lex_step_advances(s: Seq<u8>, st: LexState)
    requires
        s.len() < usize::MAX,
        pos_in_source(s, st.pos),
        st.pos.index < s.len(),
    ensures
        st.pos.index < lex_step(s, st).pos.index <= s.len(),
        pos_in_source(s, lex_step(s, st).pos),
        lex_step(s, st).pos.line >= st.pos.line,
{
    let i = st.pos.index as int;
    lemma_run_end(s, i, ByteClass::Blank);
    lemma_run_end(s, i, ByteClass::IdentPart);
    lemma_run_end(s, i, ByteClass::Digit);
    if i + 2 <= s.len() {
        lemma_run_end(s, i + 2, ByteClass::CommentBody);
    }
    lemma_const_len(s, i);
}

/// A constant ends inside the source.
pub proof fn lemma_const_len(s: Seq<u8>, i: int)
    requires
        0 <= i < s.len(),
    ensures
        0 <= const_len(s, i) <= s.len() - i,
{
    lemma_run_end(s, i, ByteClass::Digit);
    lemma_run_end(s, i + 1, ByteClass::Digit);
    let whole = run_end(s, i, ByteClass::Digit);
    if whole < s.len() {
        lemma_run_end(s, whole + 1, ByteClass::Digit);
    }
    let m = mantissa_end(s, i);
    if m < s.len() {
        lemma_run_end(s, m + 1, ByteClass::Digit);
        if m + 2 <= s.len() {
            lemma_run_end(s, m + 2, ByteClass::Digit);
        }
    }
}

/// Lexing always reaches the end of the source.
pub proof fn lemma_lex_completes(s: Seq<u8>, st: LexState)
    requires
        s.len() < usize::MAX,
        pos_in_source(s, st.pos),
    ensures
        lex_from(s, st).pos.index == s.len(),
        pos_in_source(s, lex_from(s, st).pos),
    decreases s.len() - st.pos.index,
{
    if st.pos.index < s.len() {
        lemma_lex_step_advances(s, st);
        lemma_lex_completes(s, lex_step(s, st));
    }
}

/// Turns source text into tokens, each with the position of its first byte.
///
/// Lexing never fails on what it reads: a byte that starts no lexeme
/// becomes an error in `issues` and is skipped. Identifiers are interned in
/// `idmap`. Columns count bytes. The one source that is not lexed is one so
/// long that the column behind its last byte cannot be counted; for it the
/// result is `None` and nothing changes.
pub fn lex(issues: &mut IssueTracker, string: &str, idmap: &mut IdMap) -> (r: Option<
    Vec<PW<Token>>,
>)
    ensures
        r is Some <==> string.spec_bytes().len() < usize::MAX,
        r matches Some(tokens) ==> tokens@ == lex_from(
            string.spec_bytes(),
            lex_start(old(idmap)@, old(issues)@),
        ).tokens,
        r is Some ==> final(idmap)@ == lex_from(
            string.spec_bytes(),
            lex_start(old(idmap)@, old(issues)@),
        ).names,
        r is Some ==> final(issues)@ == lex_from(
            string.spec_bytes(),
            lex_start(old(idmap)@, old(issues)@),
        ).issues,
        r is None ==> final(idmap)@ == old(idmap)@ && final(issues)@ == old(issues)@,
{
    let s = string.as_bytes();
    if s.len() == usize::MAX {
        return None;
    }
    let mut tokens: Vec<PW<Token>> = Vec::new();
    let mut pos = SourcePos::new();
    let ghost goal = lex_from(s@, lex_start(old(idmap)@, old(issues)@));
    while pos.index < s.len()
        invariant
            s@.len() < usize::MAX,
            pos_in_source(s@, pos),
            lex_from(
                s@,
                LexState { pos: pos, tokens: tokens@, names: idmap@, issues: issues@ },
            ) == goal,
        decreases s@.len() - pos.index,
    {
        let ghost st = LexState { pos: pos, tokens: tokens@, names: idmap@, issues: issues@ };
        proof {
            lemma_lex_step_advances(s@, st);
        }
        let lx = next_lexeme(s, pos.index);
        match lx.kind {
            LexemeKind::Comment | LexemeKind::Blank => {
                pos.add_chars(lx.len);
            },
            LexemeKind::Newline => {
                pos.add_line();
            },
            LexemeKind::Symbol(sym) => {
                tokens.push(PW { token: Token::Symbol(sym), pos: pos });
                pos.add_chars(lx.len);
            },
            LexemeKind::Ident => {
                let id = idmap.id(slice_subrange(s, pos.index, pos.index + lx.len));
                tokens.push(PW { token: Token::Ident(id), pos: pos });
                pos.add_chars(lx.len);
            },
            LexemeKind::Operator(op) => {
                tokens.push(PW { token: Token::Operator(op), pos: pos });
                pos.add_chars(lx.len);
            },
            LexemeKind::Const => {
                tokens.push(
                    PW { token: Token::Const(Literal { offset: pos.index, len: lx.len }), pos: pos },
                );
                pos.add_chars(lx.len);
            },
            LexemeKind::Unknown => {
                issues.new_issue(pos, Level::Error, "unrecognized token");
                pos.add_chars(lx.len);
            },
        }
        proof {
            assert(LexState { pos: pos, tokens: tokens@, names: idmap@, issues: issues@ }
                == lex_step(s@, st));
        }
    }
    Some(tokens)
}

/// One sequence starts with another.
pub open spec fn extends<T>(longer: Seq<T>, shorter: Seq<T>) -> bool {
    shorter.len() <= longer.len() && longer.take(shorter.len() as int) == shorter
}

/// The tokens from number `from` on start inside the source at or behind
/// the byte `index`, each behind the one before it.
pub open spec fn tokens_in_order(tokens: Seq<PW<Token>>, from: int, index: int, len: int) -> bool {
    &&& forall|k: int| from <= k < tokens.len() ==> index <= (#[trigger] tokens[k]).pos.index < len
    &&& forall|j: int, k: int|
        from <= j < k < tokens.len() ==> (#[trigger] tokens[j]).pos.index < (
        #[trigger] tokens[k]).pos.index
}

/// One step keeps the tokens, names and issues that are there, adds at most
/// one token, and that token starts at the place of the step.
pub proof fn lemma_lex_step_keeps(s: Seq<u8>, st: LexState)
    requires
        s.len() < usize::MAX,
        pos_in_source(s, st.pos),
        st.pos.index < s.len(),
    ensures
        extends(lex_step(s, st).tokens, st.tokens),
        extends(lex_step(s, st).names, st.names),
        extends(lex_step(s, st).issues, st.issues),
        lex_step(s, st).tokens.len() <= st.tokens.len() + 1,
        lex_step(s, st).tokens.len() == st.tokens.len() + 1 ==> lex_step(s, st).tokens.last().pos
            == st.pos,
        distinct_names(st.names) ==> distinct_names(lex_step(s, st).names),
{
    let i = st.pos.index as int;
    let lx = lexeme_at(s, i);
    let next = lex_step(s, st);
    let name = s.subrange(i, i + lx.len);
    lemma_position_from(st.names, name, 0);
    if distinct_names(st.names) {
        lemma_intern(st.names, name);
    }
    assert(next.tokens.take(st.tokens.len() as int) =~= st.tokens);
    assert(next.names.take(st.names.len() as int) =~= st.names);
    assert(next.issues.take(st.issues.len() as int) =~= st.issues);
}

/// Lexing only adds: the tokens, names and issues that were there stay in
/// front. The tokens that it adds stand in the order of the source, each at
/// a place of its own inside the source. Names that were distinct stay so.
pub proof fn lemma_lex_keeps(s: Seq<u8>, st: LexState)
    requires
        s.len() < usize::MAX,
        pos_in_source(s, st.pos),
    ensures
        extends(lex_from(s, st).tokens, st.tokens),
        extends(lex_from(s, st).names, st.names),
        extends(lex_from(s, st).issues, st.issues),
        tokens_in_order(
            lex_from(s, st).tokens,
            st.tokens.len() as int,
            st.pos.index as int,
            s.len() as int,
        ),
        distinct_names(st.names) ==> distinct_names(lex_from(s, st).names),
    decreases s.len() - st.pos.index,
{
    if st.pos.index < s.len() {
        let next = lex_step(s, st);
        let end = lex_from(s, st);
        lemma_lex_step_advances(s, st);
        lemma_lex_step_keeps(s, st);
        lemma_lex_keeps(s, next);
        assert(end == lex_from(s, next));
        assert(end.tokens.take(st.tokens.len() as int) =~= st.tokens) by {
            assert(end.tokens.take(next.tokens.len() as int) == next.tokens);
            assert(next.tokens.take(st.tokens.len() as int) == st.tokens);
            assert forall|k: int| 0 <= k < st.tokens.len() implies end.tokens[k]
                == st.tokens[k] by {
                assert(end.tokens.take(next.tokens.len() as int)[k] == end.tokens[k]);
                assert(next.tokens.take(st.tokens.len() as int)[k] == next.tokens[k]);
            }
        }
        assert(end.names.take(st.names.len() as int) =~= st.names) by {
            assert forall|k: int| 0 <= k < st.names.len() implies end.names[k] == st.names[k] by {
                assert(end.names.take(next.names.len() as int)[k] == end.names[k]);
                assert(next.names.take(st.names.len() as int)[k] == next.names[k]);
            }
        }
        assert(end.issues.take(st.issues.len() as int) =~= st.issues) by {
            assert forall|k: int| 0 <= k < st.issues.len() implies end.issues[k]
                == st.issues[k] by {
                assert(end.issues.take(next.issues.len() as int)[k] == end.issues[k]);
                assert(next.issues.take(st.issues.len() as int)[k] == next.issues[k]);
            }
        }
        let from = st.tokens.len() as int;
        if next.tokens.len() == from + 1 {
            assert(end.tokens.take(next.tokens.len() as int)[from] == end.tokens[from]);
            assert(end.tokens[from].pos == st.pos);
        }
        assert(tokens_in_order(end.tokens, from, st.pos.index as int, s.len() as int));
    } else {
        assert(st.tokens.take(st.tokens.len() as int) =~= st.tokens);
        assert(st.names.take(st.names.len() as int) =~= st.names);
        assert(st.issues.take(st.issues.len() as int) =~= st.issues);
    }
}

} // verus!
