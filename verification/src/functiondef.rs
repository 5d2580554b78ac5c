//! Function definitions and their bodies, parsed from a token stream.

use vstd::prelude::*;
use vstd::string::*;
use crate::error::{error_at, CompileError, ErrorView};
use crate::expr::{spec_parse_expression, Expression, ExpressionView};
use crate::identifier::{name_text, IdMap};
use crate::parser::{group_end, lemma_group_end_bounds, match_paren, msg_unmatched, TokenStream};
use crate::scope::Scope;
use crate::tokens::{Bracket, Identifier, Literal, Operator, SourcePos, Symbol, Token, PW};

verus! {

/// The body of a function: one expression, or a block of entries. An entry
/// is an optional guard, an operator, and the statement that the operator
/// applies to.
#[derive(Debug)]
pub enum Statement {
    Block(Vec<(Option<Expression>, Operator, Statement)>),
    Expr(Expression),
}

/// One entry of a block as a mathematical value.
pub struct EntryView {
    pub guard: Option<ExpressionView>,
    pub op: Operator,
    pub body: StatementView,
}

/// A statement as a mathematical value.
pub enum StatementView {
    Block(Seq<EntryView>),
    Expr(ExpressionView),
}

pub open spec fn guard_view(guard: Option<Expression>) -> Option<ExpressionView> {
    match guard {
        Some(e) => Some(e@),
        None => None,
    }
}

impl Statement {
    pub open spec fn view(&self) -> StatementView
        decreases self,
    {
        match self {
            Statement::Expr(e) => StatementView::Expr(e@),
            Statement::Block(entries) => StatementView::Block(
                Seq::new(
                    entries@.len(),
                    |i: int|
                        if 0 <= i < entries@.len() {
                            EntryView {
                                guard: guard_view(entries@[i].0),
                                op: entries@[i].1,
                                body: entries@[i].2.view(),
                            }
                        } else {
                            arbitrary()
                        },
                ),
            ),
        }
    }
}

/// One entry as a mathematical value.
pub open spec fn entry_view(entry: (Option<Expression>, Operator, Statement)) -> EntryView {
    EntryView { guard: guard_view(entry.0), op: entry.1, body: entry.2.view() }
}

/// The entries of a block as mathematical values.
pub open spec fn entries_view(entries: Seq<(Option<Expression>, Operator, Statement)>) -> Seq<
    EntryView,
> {
    Seq::new(entries.len(), |i: int| entry_view(entries[i]))
}

/// The view of a block is the view of its entries.
pub proof fn lemma_block_view(entries: Vec<(Option<Expression>, Operator, Statement)>)
    ensures
        Statement::Block(entries).view() == StatementView::Block(entries_view(entries@)),
{
    assert(Statement::Block(entries).view()->Block_0 =~= entries_view(entries@));
}

pub open spec fn open_brace() -> Token {
    Token::Symbol(Symbol::LeftBracket(Bracket::Curly))
}

pub open spec fn close_brace() -> Token {
    Token::Symbol(Symbol::RightBracket(Bracket::Curly))
}

pub open spec fn semicolon() -> Token {
    Token::Symbol(Symbol::Semicolon)
}

pub open spec fn question_mark() -> Token {
    Token::Symbol(Symbol::QuestionMark)
}

pub open spec fn msg_expected_entry(got: Seq<char>) -> Seq<char> {
    "expected operator, `;` or `}`, got "@ + got
}

pub open spec fn msg_condition_unfinished() -> Seq<char> {
    "expected `;` to end condition, got EOF"@
}

pub open spec fn msg_expression_unfinished() -> Seq<char> {
    "expected `;` or `?` to end expression, got EOF"@
}

/// The first index from `at` up to `end` at which a `;` stands, or, if
/// `guards` is set, a `?`.
pub open spec fn terminator(tokens: Seq<PW<Token>>, at: int, end: int, guards: bool) -> Option<int>
    decreases end - at,
{
    if at < 0 || at >= end || at >= tokens.len() {
        None
    } else if tokens[at].token == semicolon() || (guards && tokens[at].token
        == question_mark()) {
        Some(at)
    } else {
        terminator(tokens, at + 1, end, guards)
    }
}

/// A terminator stands inside the span that was searched.
pub proof fn lemma_terminator_bounds(tokens: Seq<PW<Token>>, at: int, end: int, guards: bool)
    requires
        0 <= at,
    ensures
        terminator(tokens, at, end, guards) matches Some(p) ==> at <= p < end && p
            < tokens.len() && (tokens[p].token == semicolon() || (guards && tokens[p].token
            == question_mark())),
    decreases end - at,
{
    if at < end && at < tokens.len() && !(tokens[at].token == semicolon() || (guards
        && tokens[at].token == question_mark())) {
        lemma_terminator_bounds(tokens, at + 1, end, guards);
    }
}

/// Where the parts of one entry of a block lie: its body runs from the
/// token behind the operator up to `body_end`, its guard, if it has one,
/// from `guard.0` up to `guard.1`, and the next entry starts at `next`.
pub struct EntrySpan {
    pub body_end: int,
    pub guard: Option<(int, int)>,
    pub next: int,
}

/// The parts of the entry whose body starts at `start`.
///
/// A body that starts with `{` is stepped over as a group first, so that
/// the `;` and `?` inside it do not end the entry. The body then runs to
/// the first `;` or `?`. Behind a `?` the guard runs to the next `;`.
pub open spec fn entry_span(tokens: Seq<PW<Token>>, start: int, end: int, end_pos: SourcePos) -> Result<
    EntrySpan,
    ErrorView,
> {
    let from = if 0 <= start < end && start < tokens.len() && tokens[start].token
        == open_brace() {
        group_end(tokens, start, end, open_brace(), close_brace(), 0)
    } else {
        Some(start)
    };
    match from {
        None => Err(error_at(msg_unmatched(close_brace()), end_pos)),
        Some(from) => match terminator(tokens, from, end, true) {
            None => Err(error_at(msg_expression_unfinished(), end_pos)),
            Some(p) => if tokens[p].token == semicolon() {
                Ok(EntrySpan { body_end: p, guard: None, next: p + 1 })
            } else {
                match terminator(tokens, p + 1, end, false) {
                    None => Err(error_at(msg_condition_unfinished(), end_pos)),
                    Some(q) => Ok(EntrySpan { body_end: p, guard: Some((p + 1, q)), next: q + 1 }),
                }
            },
        },
    }
}

/// The parts of an entry lie in order inside the span.
pub proof fn lemma_entry_span_bounds(
    tokens: Seq<PW<Token>>,
    start: int,
    end: int,
    end_pos: SourcePos,
)
    requires
        0 <= start,
    ensures
        entry_span(tokens, start, end, end_pos) matches Ok(span) ==> {
            &&& start <= span.body_end < span.next <= end
            &&& span.next <= tokens.len()
            &&& span.guard matches Some((g0, g1)) ==> span.body_end < g0 <= g1 < span.next
        },
{
    if start < end && start < tokens.len() && tokens[start].token == open_brace() {
        lemma_group_end_bounds(tokens, start, end, open_brace(), close_brace(), 0);
    }
    let from = if 0 <= start < end && start < tokens.len() && tokens[start].token
        == open_brace() {
        group_end(tokens, start, end, open_brace(), close_brace(), 0)
    } else {
        Some(start)
    };
    if let Some(from) = from {
        lemma_terminator_bounds(tokens, from, end, true);
        if let Some(p) = terminator(tokens, from, end, true) {
            lemma_terminator_bounds(tokens, p + 1, end, false);
        }
    }
}

/// The guard of an entry, parsed.
pub open spec fn parse_guard(
    tokens: Seq<PW<Token>>,
    guard: Option<(int, int)>,
    scope: &Scope,
    names: Seq<Seq<u8>>,
) -> Result<Option<ExpressionView>, ErrorView> {
    match guard {
        None => Ok(None),
        Some((g0, g1)) => match spec_parse_expression(tokens.subrange(g0, g1), scope, names) {
            Ok(e) => Ok(Some(e)),
            Err(e) => Err(e),
        },
    }
}

/// The statement that the tokens from `lo` up to `hi` spell: a block where
/// they start with `{`, else one expression.
pub open spec fn spec_parse_statement(
    tokens: Seq<PW<Token>>,
    lo: int,
    hi: int,
    end_pos: SourcePos,
    scope: &Scope,
    names: Seq<Seq<u8>>,
) -> Result<StatementView, ErrorView>
    decreases hi - lo, 1int,
{
    if 0 <= lo < hi <= tokens.len() && tokens[lo].token == open_brace() {
        match spec_parse_entries(tokens, lo + 1, hi, end_pos, scope, names, Seq::empty()) {
            Ok(entries) => Ok(StatementView::Block(entries)),
            Err(e) => Err(e),
        }
    } else {
        match spec_parse_expression(tokens.subrange(lo, hi), scope, names) {
            Ok(e) => Ok(StatementView::Expr(e)),
            Err(e) => Err(e),
        }
    }
}

/// The entries of a block from `cursor` on, added to `acc`.
///
/// Each entry starts with an operator; a stray `;` is skipped; `}` ends the
/// block, and what follows it is not read. Of an entry the guard is parsed
/// before the body. The end of the span before the `}` is an error at the
/// end position; any other token where an entry should start is an error at
/// that token.
pub open spec fn spec_parse_entries(
    tokens: Seq<PW<Token>>,
    cursor: int,
    hi: int,
    end_pos: SourcePos,
    scope: &Scope,
    names: Seq<Seq<u8>>,
    acc: Seq<EntryView>,
) -> Result<Seq<EntryView>, ErrorView>
    decreases hi - cursor, 0int,
{
    if cursor < 0 || cursor >= hi || hi > tokens.len() {
        Err(error_at(msg_expected_entry("EOF"@), end_pos))
    } else {
        match tokens[cursor].token {
            Token::Symbol(Symbol::Semicolon) => spec_parse_entries(
                tokens,
                cursor + 1,
                hi,
                end_pos,
                scope,
                names,
                acc,
            ),
            Token::Symbol(Symbol::RightBracket(Bracket::Curly)) => Ok(acc),
            Token::Operator(op) => match entry_span(tokens, cursor + 1, hi, end_pos) {
                Err(e) => Err(e),
                Ok(span) => {
                    proof {
                        lemma_entry_span_bounds(tokens, cursor + 1, hi, end_pos);
                    }
                    match parse_guard(tokens, span.guard, scope, names) {
                        Err(e) => Err(e),
                        Ok(guard) => match spec_parse_statement(
                            tokens,
                            cursor + 1,
                            span.body_end,
                            end_pos,
                            scope,
                            names,
                        ) {
                            Err(e) => Err(e),
                            Ok(body) => spec_parse_entries(
                                tokens,
                                span.next,
                                hi,
                                end_pos,
                                scope,
                                names,
                                acc.push(EntryView { guard: guard, op: op, body: body }),
                            ),
                        },
                    }
                },
            },
            other => Err(
                error_at(msg_expected_entry(other.spec_text()), tokens[cursor].pos),
            ),
        }
    }
}

/// The view of the result of parsing a statement.
pub open spec fn statement_result_view(r: Result<Statement, CompileError>) -> Result<
    StatementView,
    ErrorView,
> {
    match r {
        Ok(s) => Ok(s.view()),
        Err(e) => Err(e@),
    }
}

fn token_is(t: Token, sym: Symbol) -> (r: bool)
    ensures
        r == (t == Token::Symbol(sym)),
{
    match t {
        Token::Symbol(s) => s == sym,
        _ => false,
    }
}

/// Finds the first `;`, or `?` if `guards` is set, from `at` on.
fn find_terminator(tokens: &TokenStream, at: usize, guards: bool) -> (r: Option<usize>)
    requires
        tokens.wf(),
    ensures
        match r {
            Some(p) => terminator(tokens.tokens@, at as int, tokens.end as int, guards) == Some(
                p as int,
            ) && at <= p < tokens.end,
            None => terminator(tokens.tokens@, at as int, tokens.end as int, guards) is None,
        },
{
    let mut p: usize = at;
    while p < tokens.end
        invariant
            tokens.wf(),
            at <= p,
            terminator(tokens.tokens@, at as int, tokens.end as int, guards) == terminator(
                tokens.tokens@,
                p as int,
                tokens.end as int,
                guards,
            ),
        decreases tokens.end - p,
    {
        let t = tokens.tokens[p].token;
        if token_is(t, Symbol::Semicolon) || (guards && token_is(t, Symbol::QuestionMark)) {
            return Some(p);
        }
        p += 1;
    }
    None
}

/// Finds the parts of the entry whose body starts at the stream's cursor.
fn scan_entry(tokens: &TokenStream) -> (r: Result<(usize, Option<(usize, usize)>, usize), CompileError>)
    requires
        tokens.wf(),
    ensures
        match r {
            Ok((body_end, guard, next)) => entry_span(
                tokens.tokens@,
                tokens.cursor as int,
                tokens.end as int,
                tokens.end_pos,
            ) == Ok::<EntrySpan, ErrorView>(
                EntrySpan {
                    body_end: body_end as int,
                    guard: match guard {
                        Some((g0, g1)) => Some((g0 as int, g1 as int)),
                        None => None,
                    },
                    next: next as int,
                },
            ),
            Err(e) => entry_span(
                tokens.tokens@,
                tokens.cursor as int,
                tokens.end as int,
                tokens.end_pos,
            ) == Err::<EntrySpan, ErrorView>(e@),
        },
{
    let starts_group = match tokens.peek(0) {
        Some(t) => token_is(t.token, Symbol::LeftBracket(Bracket::Curly)),
        None => false,
    };
    let from = if starts_group {
        match match_paren(
            *tokens,
            Token::Symbol(Symbol::LeftBracket(Bracket::Curly)),
            Token::Symbol(Symbol::RightBracket(Bracket::Curly)),
        ) {
            Ok(after) => after.cursor,
            Err(e) => {
                return Err(e);
            },
        }
    } else {
        tokens.cursor
    };
    let p = match find_terminator(tokens, from, true) {
        Some(p) => p,
        None => {
            return Err(
                CompileError::new_static(
                    "expected `;` or `?` to end expression, got EOF",
                ).with_pos(tokens.end_pos),
            );
        },
    };
    if token_is(tokens.tokens[p].token, Symbol::Semicolon) {
        return Ok((p, None, p + 1));
    }
    match find_terminator(tokens, p + 1, false) {
        Some(q) => Ok((p, Some((p + 1, q)), q + 1)),
        None => Err(
            CompileError::new_static("expected `;` to end condition, got EOF").with_pos(
                tokens.end_pos,
            ),
        ),
    }
}

fn error_expected_entry(got: &str, pos: SourcePos) -> (r: CompileError)
    ensures
        r@ == error_at(msg_expected_entry(got@), pos),
{
    let mut s = String::from_str("expected operator, `;` or `}`, got ");
    s.append(got);
    CompileError::new(s).with_pos(pos)
}

impl Statement {
    /// Parses a statement from what is left of a token stream.
    ///
    /// A stream that starts with `{` holds a block; its entries have the
    /// form operator, body, optionally `?` and a guard, and `;`. Any other
    /// stream holds one expression. Names are resolved against `scope`.
    pub fn parse(tokens: TokenStream, scope: &Scope, idmap: &IdMap) -> (r: Result<
        Statement,
        CompileError,
    >)
        requires
            tokens.wf(),
        ensures
            statement_result_view(r) == spec_parse_statement(
                tokens.tokens@,
                tokens.cursor as int,
                tokens.end as int,
                tokens.end_pos,
                scope,
                idmap@,
            ),
        decreases tokens.end - tokens.cursor,
    {
        let is_block = match tokens.peek(0) {
            Some(t) => token_is(t.token, Symbol::LeftBracket(Bracket::Curly)),
            None => false,
        };
        if !is_block {
            return match Expression::parse(tokens, scope, idmap) {
                Ok(e) => Ok(Statement::Expr(e)),
                Err(e) => Err(e),
            };
        }
        let ghost goal = spec_parse_statement(
            tokens.tokens@,
            tokens.cursor as int,
            tokens.end as int,
            tokens.end_pos,
            scope,
            idmap@,
        );
        let mut entries: Vec<(Option<Expression>, Operator, Statement)> = Vec::new();
        let mut cursor: usize = tokens.cursor + 1;
        proof {
            assert(entries_view(entries@) =~= Seq::<EntryView>::empty());
        }
        loop
            invariant
                tokens.wf(),
                tokens.cursor < cursor,
                goal == spec_parse_statement(
                    tokens.tokens@,
                    tokens.cursor as int,
                    tokens.end as int,
                    tokens.end_pos,
                    scope,
                    idmap@,
                ),
                goal == match spec_parse_entries(
                    tokens.tokens@,
                    cursor as int,
                    tokens.end as int,
                    tokens.end_pos,
                    scope,
                    idmap@,
                    entries_view(entries@),
                ) {
                    Ok(es) => Ok::<StatementView, ErrorView>(StatementView::Block(es)),
                    Err(e) => Err(e),
                },
            ensures
                goal == Ok::<StatementView, ErrorView>(
                    StatementView::Block(entries_view(entries@)),
                ),
            decreases tokens.end - cursor,
        {
            if cursor >= tokens.end {
                return Err(error_expected_entry("EOF", tokens.end_pos));
            }
            let t = tokens.tokens[cursor];
            match t.token {
                Token::Symbol(Symbol::Semicolon) => {
                    cursor += 1;
                },
                Token::Symbol(Symbol::RightBracket(Bracket::Curly)) => {
                    break ;
                },
                Token::Operator(op) => {
                    let body_start = cursor + 1;
                    let at_body = tokens.slice(body_start, tokens.end);
                    proof {
                        lemma_entry_span_bounds(
                            tokens.tokens@,
                            body_start as int,
                            tokens.end as int,
                            tokens.end_pos,
                        );
                    }
                    let (body_end, guard_span, next) = match scan_entry(&at_body) {
                        Ok(parts) => parts,
                        Err(e) => {
                            return Err(e);
                        },
                    };
                    let guard = match guard_span {
                        Some((g0, g1)) => {
                            match Expression::parse(tokens.slice(g0, g1), scope, idmap) {
                                Ok(e) => Some(e),
                                Err(e) => {
                                    return Err(e);
                                },
                            }
                        },
                        None => None,
                    };
                    let body = match Statement::parse(
                        tokens.slice(body_start, body_end),
                        scope,
                        idmap,
                    ) {
                        Ok(s) => s,
                        Err(e) => {
                            return Err(e);
                        },
                    };
                    let ghost before = entries_view(entries@);
                    let ghost added = EntryView {
                        guard: guard_view(guard),
                        op: op,
                        body: body.view(),
                    };
                    entries.push((guard, op, body));
                    proof {
                        assert(entries_view(entries@) =~= before.push(added));
                    }
                    cursor = next;
                },
                _ => {
                    let text = t.token.to_text();
                    return Err(error_expected_entry(text.as_str(), t.pos));
                },
            }
        }
        proof {
            lemma_block_view(entries);
        }
        Ok(Statement::Block(entries))
    }
}

/// The default value of an argument: a constant of the source, negated
/// where a minus stands before it.
#[derive(Copy, Clone, Debug, PartialEq, Eq, Structural)]
pub struct DefaultValue {
    pub negative: bool,
    pub literal: Literal,
}

/// A function definition: its name, its arguments in the order of their
/// declaration, each with its default value if it has one, and its body.
/// Name and body are absent until they are set.
#[derive(Debug)]
pub struct FunctionDef {
    pub statement: Option<Statement>,
    pub args: Vec<(Identifier, Option<DefaultValue>)>,
    pub ident: Option<Identifier>,
}

/// A function definition as a mathematical value.
pub struct FunctionDefView {
    pub ident: Option<Identifier>,
    pub args: Seq<(Identifier, Option<DefaultValue>)>,
    pub statement: Option<StatementView>,
}

pub open spec fn statement_option_view(s: Option<Statement>) -> Option<StatementView> {
    match s {
        Some(s) => Some(s.view()),
        None => None,
    }
}

impl View for FunctionDef {
    type V = FunctionDefView;

    open spec fn view(&self) -> FunctionDefView {
        FunctionDefView {
            ident: self.ident,
            args: self.args@,
            statement: statement_option_view(self.statement),
        }
    }
}

/// True when an argument of the list has the name `ident`.
pub open spec fn has_argument(args: Seq<(Identifier, Option<DefaultValue>)>, ident: Identifier) -> bool {
    exists|i: int| 0 <= i < args.len() && (#[trigger] args[i]).0 == ident
}

/// No two arguments of the list have the same name.
pub open spec fn unique_arguments(args: Seq<(Identifier, Option<DefaultValue>)>) -> bool {
    forall|i: int, j: int| 0 <= i < j < args.len() ==> (#[trigger] args[i]).0 != (#[trigger] args[j]).0
}

/// How a message names what was found: the token between backquotes, or
/// `EOF` at the end of the span.
pub open spec fn got_text(tokens: Seq<PW<Token>>, at: int, hi: int) -> Seq<char> {
    if 0 <= at < hi && at < tokens.len() {
        "`"@ + tokens[at].token.spec_text() + "`"@
    } else {
        "EOF"@
    }
}

/// The error for a token that is not the expected one: at the token, or at
/// the end position where the span is exhausted.
pub open spec fn expected(
    what: Seq<char>,
    tokens: Seq<PW<Token>>,
    at: int,
    hi: int,
    end_pos: SourcePos,
) -> ErrorView {
    error_at(
        "expected "@ + what + ", got "@ + got_text(tokens, at, hi),
        if 0 <= at < hi && at < tokens.len() {
            tokens[at].pos
        } else {
            end_pos
        },
    )
}

pub open spec fn msg_defined_twice(name: Seq<char>) -> Seq<char> {
    "argument "@ + name + " defined twice"@
}

pub open spec fn has_token(tokens: Seq<PW<Token>>, at: int, hi: int, t: Token) -> bool {
    0 <= at < hi && at < tokens.len() && tokens[at].token == t
}

/// The default value that is given at `at`, if one is, and the index behind
/// it: `=`, optionally `-`, and a constant.
pub open spec fn spec_parse_default(tokens: Seq<PW<Token>>, at: int, hi: int, end_pos: SourcePos) -> Result<
    (Option<DefaultValue>, int),
    ErrorView,
> {
    if has_token(tokens, at, hi, Token::Symbol(Symbol::Equals)) {
        let negative = has_token(tokens, at + 1, hi, Token::Operator(Operator::Sub));
        let c = if negative {
            at + 2
        } else {
            at + 1
        };
        if 0 <= c < hi && c < tokens.len() && tokens[c].token is Const {
            Ok(
                (
                    Some(DefaultValue { negative: negative, literal: tokens[c].token->Const_0 }),
                    c + 1,
                ),
            )
        } else {
            Err(expected("numerical constant"@, tokens, c, hi, end_pos))
        }
    } else {
        Ok((None, at))
    }
}

/// What is read of a default value ends at or behind its start.
pub proof fn lemma_default_bounds(tokens: Seq<PW<Token>>, at: int, hi: int, end_pos: SourcePos)
    ensures
        spec_parse_default(tokens, at, hi, end_pos) matches Ok((_, next)) ==> at <= next,
{
}

/// The arguments from `cursor` on, added to `acc`, and the index behind the
/// `]` that ends them.
///
/// Arguments are separated by `,`; behind a `,` another argument must
/// follow. A name that is already in the list is an error at its second
/// occurrence.
pub open spec fn spec_parse_args(
    tokens: Seq<PW<Token>>,
    cursor: int,
    hi: int,
    end_pos: SourcePos,
    names: Seq<Seq<u8>>,
    acc: Seq<(Identifier, Option<DefaultValue>)>,
    after_comma: bool,
) -> Result<(Seq<(Identifier, Option<DefaultValue>)>, int), ErrorView>
    decreases hi - cursor,
{
    if cursor < 0 || cursor >= hi || cursor >= tokens.len() {
        Err(expected("argument name"@, tokens, cursor, hi, end_pos))
    } else if !after_comma && tokens[cursor].token == Token::Symbol(
        Symbol::RightBracket(Bracket::Square),
    ) {
        Ok((acc, cursor + 1))
    } else if tokens[cursor].token is Ident {
        let arg = tokens[cursor].token->Ident_0;
        if has_argument(acc, arg) {
            Err(error_at(msg_defined_twice(name_text(names, arg)), tokens[cursor].pos))
        } else {
            match spec_parse_default(tokens, cursor + 1, hi, end_pos) {
                Err(e) => Err(e),
                Ok((default, at)) => {
                    if has_token(tokens, at, hi, Token::Symbol(Symbol::Comma)) {
                        proof {
                            lemma_default_bounds(tokens, cursor + 1, hi, end_pos);
                        }
                        spec_parse_args(
                            tokens,
                            at + 1,
                            hi,
                            end_pos,
                            names,
                            acc.push((arg, default)),
                            true,
                        )
                    } else if has_token(
                        tokens,
                        at,
                        hi,
                        Token::Symbol(Symbol::RightBracket(Bracket::Square)),
                    ) {
                        Ok((acc.push((arg, default)), at + 1))
                    } else {
                        Err(expected("`=`, `,` or `]`"@, tokens, at, hi, end_pos))
                    }
                },
            }
        }
    } else {
        Err(expected("argument name"@, tokens, cursor, hi, end_pos))
    }
}

/// The function definition that the tokens from `lo` up to `hi` spell:
/// `[`, the function's name, its arguments, `]`, and the body.
pub open spec fn spec_parse_function(
    tokens: Seq<PW<Token>>,
    lo: int,
    hi: int,
    end_pos: SourcePos,
    scope: &Scope,
    names: Seq<Seq<u8>>,
) -> Result<FunctionDefView, ErrorView> {
    if !has_token(tokens, lo, hi, Token::Symbol(Symbol::LeftBracket(Bracket::Square))) {
        Err(expected("`[`"@, tokens, lo, hi, end_pos))
    } else if !(lo + 1 < hi && tokens[lo + 1].token is Ident) {
        Err(expected("function name"@, tokens, lo + 1, hi, end_pos))
    } else {
        match spec_parse_args(tokens, lo + 2, hi, end_pos, names, Seq::empty(), false) {
            Err(e) => Err(e),
            Ok((args, next)) => if next >= hi {
                Err(error_at("expected block, got EOF"@, end_pos))
            } else {
                match spec_parse_statement(tokens, next, hi, end_pos, scope, names) {
                    Err(e) => Err(e),
                    Ok(body) => Ok(
                        FunctionDefView {
                            ident: Some(tokens[lo + 1].token->Ident_0),
                            args: args,
                            statement: Some(body),
                        },
                    ),
                }
            },
        }
    }
}

/// The view of the result of parsing a function definition.
pub open spec fn function_result_view(r: Result<FunctionDef, CompileError>) -> Result<
    FunctionDefView,
    ErrorView,
> {
    match r {
        Ok(f) => Ok(f@),
        Err(e) => Err(e@),
    }
}

/// The error for what stands at `at` where `what` was expected.
fn error_expected(what: &'static str, tokens: &TokenStream, at: usize) -> (r: CompileError)
    requires
        tokens.wf(),
    ensures
        r@ == expected(what@, tokens.tokens@, at as int, tokens.end as int, tokens.end_pos),
{
    let mut s = String::from_str("expected ");
    s.append(what);
    s.append(", got ");
    if at < tokens.end {
        let t = tokens.tokens[at];
        let text = t.token.to_text();
        s.append("`");
        s.append(text.as_str());
        s.append("`");
        proof {
            assert(s@ =~= "expected "@ + what@ + ", got "@ + got_text(
                tokens.tokens@,
                at as int,
                tokens.end as int,
            ));
        }
        CompileError::new(s).with_pos(t.pos)
    } else {
        s.append("EOF");
        CompileError::new(s).with_pos(tokens.end_pos)
    }
}

fn at_token(tokens: &TokenStream, at: usize, t: Token) -> (r: bool)
    requires
        tokens.wf(),
    ensures
        r == has_token(tokens.tokens@, at as int, tokens.end as int, t),
{
    at < tokens.end && tokens.tokens[at].token == t
}

/// Reads the default value at `at`, if one is given there.
fn parse_default(tokens: &TokenStream, at: usize) -> (r: Result<
    (Option<DefaultValue>, usize),
    CompileError,
>)
    requires
        tokens.wf(),
        at <= tokens.end,
    ensures
        match r {
            Ok((default, next)) => spec_parse_default(
                tokens.tokens@,
                at as int,
                tokens.end as int,
                tokens.end_pos,
            ) == Ok::<(Option<DefaultValue>, int), ErrorView>((default, next as int)) && at
                <= next <= tokens.end,
            Err(e) => spec_parse_default(
                tokens.tokens@,
                at as int,
                tokens.end as int,
                tokens.end_pos,
            ) == Err::<(Option<DefaultValue>, int), ErrorView>(e@),
        },
{
    if !at_token(tokens, at, Token::Symbol(Symbol::Equals)) {
        return Ok((None, at));
    }
    let negative = at_token(tokens, at + 1, Token::Operator(Operator::Sub));
    let c = if negative {
        at + 2
    } else {
        at + 1
    };
    if c < tokens.end {
        match tokens.tokens[c].token {
            Token::Const(literal) => {
                return Ok((Some(DefaultValue { negative: negative, literal: literal }), c + 1));
            },
            _ => {},
        }
    }
    Err(error_expected("numerical constant", tokens, c))
}

fn contains_argument(args: &Vec<(Identifier, Option<DefaultValue>)>, ident: Identifier) -> (r: bool)
    ensures
        r == has_argument(args@, ident),
{
    let mut i: usize = 0;
    while i < args.len()
        invariant
            i <= args@.len(),
            forall|j: int| 0 <= j < i ==> (#[trigger] args@[j]).0 != ident,
        decreases args@.len() - i,
    {
        if args[i].0 == ident {
            return true;
        }
        i += 1;
    }
    false
}

fn error_defined_twice(idmap: &IdMap, ident: Identifier, pos: SourcePos) -> (r: CompileError)
    ensures
        r@ == error_at(msg_defined_twice(name_text(idmap@, ident)), pos),
{
    let mut s = String::from_str("argument ");
    idmap.append_name(&mut s, ident);
    s.append(" defined twice");
    CompileError::new(s).with_pos(pos)
}

/// A list of distinct names stays one when a name that it does not hold is
/// added.
proof fn lemma_new_argument_keeps_unique(
    args: Seq<(Identifier, Option<DefaultValue>)>,
    ident: Identifier,
    default: Option<DefaultValue>,
)
    requires
        unique_arguments(args),
        !has_argument(args, ident),
    ensures
        unique_arguments(args.push((ident, default))),
{
    let longer = args.push((ident, default));
    assert forall|i: int, j: int| 0 <= i < j < longer.len() implies (#[trigger] longer[i]).0 != (
    #[trigger] longer[j]).0 by {
        assert(longer[i] == args[i]);
        if j < args.len() {
            assert(longer[j] == args[j]);
        }
    }
}

/// Reads the arguments of a definition, from the stream's cursor up to and
/// with the `]` that ends them.
fn parse_args(tokens: &TokenStream, idmap: &IdMap) -> (r: Result<
    (Vec<(Identifier, Option<DefaultValue>)>, usize),
    CompileError,
>)
    requires
        tokens.wf(),
    ensures
        match r {
            Ok((args, next)) => spec_parse_args(
                tokens.tokens@,
                tokens.cursor as int,
                tokens.end as int,
                tokens.end_pos,
                idmap@,
                Seq::empty(),
                false,
            ) == Ok::<(Seq<(Identifier, Option<DefaultValue>)>, int), ErrorView>(
                (args@, next as int),
            ) && tokens.cursor < next <= tokens.end && unique_arguments(args@),
            Err(e) => spec_parse_args(
                tokens.tokens@,
                tokens.cursor as int,
                tokens.end as int,
                tokens.end_pos,
                idmap@,
                Seq::empty(),
                false,
            ) == Err::<(Seq<(Identifier, Option<DefaultValue>)>, int), ErrorView>(e@),
        },
{
    let ghost goal = spec_parse_args(
        tokens.tokens@,
        tokens.cursor as int,
        tokens.end as int,
        tokens.end_pos,
        idmap@,
        Seq::empty(),
        false,
    );
    let mut args: Vec<(Identifier, Option<DefaultValue>)> = Vec::new();
    let mut cursor: usize = tokens.cursor;
    let mut after_comma = false;
    loop
        invariant
            tokens.wf(),
            tokens.cursor <= cursor <= tokens.end,
            unique_arguments(args@),
            goal == spec_parse_args(
                tokens.tokens@,
                tokens.cursor as int,
                tokens.end as int,
                tokens.end_pos,
                idmap@,
                Seq::empty(),
                false,
            ),
            goal == spec_parse_args(
                tokens.tokens@,
                cursor as int,
                tokens.end as int,
                tokens.end_pos,
                idmap@,
                args@,
                after_comma,
            ),
        decreases tokens.end - cursor,
    {
        if cursor >= tokens.end {
            return Err(error_expected("argument name", tokens, cursor));
        }
        let t = tokens.tokens[cursor];
        if !after_comma && token_is(t.token, Symbol::RightBracket(Bracket::Square)) {
            return Ok((args, cursor + 1));
        }
        let arg = match t.token {
            Token::Ident(a) => a,
            _ => {
                return Err(error_expected("argument name", tokens, cursor));
            },
        };
        if contains_argument(&args, arg) {
            return Err(error_defined_twice(idmap, arg, t.pos));
        }
        let (default, at) = match parse_default(tokens, cursor + 1) {
            Ok(found) => found,
            Err(e) => {
                return Err(e);
            },
        };
        let ghost before = args@;
        if at_token(tokens, at, Token::Symbol(Symbol::Comma)) {
            args.push((arg, default));
            proof {
                lemma_new_argument_keeps_unique(before, arg, default);
            }
            cursor = at + 1;
            after_comma = true;
        } else if at_token(tokens, at, Token::Symbol(Symbol::RightBracket(Bracket::Square))) {
            args.push((arg, default));
            proof {
                lemma_new_argument_keeps_unique(before, arg, default);
            }
            return Ok((args, at + 1));
        } else {
            return Err(error_expected("`=`, `,` or `]`", tokens, at));
        }
    }
}

impl FunctionDef {
    /// A definition without name, arguments and body.
    pub fn new() -> (r: FunctionDef)
        ensures
            r@ == (FunctionDefView { ident: None, args: Seq::empty(), statement: None }),
    {
        FunctionDef { statement: None, args: Vec::new(), ident: None }
    }

    /// The function's name, which must have been set.
    pub fn ident(&self) -> (r: Identifier)
        requires
            self.ident is Some,
        ensures
            Some(r) == self.ident,
    {
        self.ident.unwrap()
    }

    pub fn set_ident(&mut self, ident: Identifier)
        ensures
            final(self).ident == Some(ident),
            final(self).args == old(self).args,
            final(self).statement == old(self).statement,
    {
        self.ident = Some(ident);
    }

    pub fn set_statement(&mut self, s: Statement)
        ensures
            final(self).statement == Some(s),
            final(self).args == old(self).args,
            final(self).ident == old(self).ident,
    {
        self.statement = Some(s);
    }

    /// The function's body, which must have been set.
    pub fn statement(&self) -> (r: &Statement)
        requires
            self.statement is Some,
        ensures
            Some(*r) == self.statement,
    {
        self.statement.as_ref().unwrap()
    }

    /// The function's body, which must have been set, for changing it in
    /// place.
    pub fn statement_mut(&mut self) -> (r: &mut Statement)
        requires
            old(self).statement is Some,
        ensures
            Some(*r) == old(self).statement,
            final(self).statement == Some(*final(r)),
            final(self).args == old(self).args,
            final(self).ident == old(self).ident,
    {
        self.statement.as_mut().unwrap()
    }

    /// The arguments in the order of their declaration.
    pub fn args(&self) -> (r: &Vec<(Identifier, Option<DefaultValue>)>)
        ensures
            *r == self.args,
    {
        &self.args
    }

    /// The arguments, for changing them in place.
    pub fn args_mut(&mut self) -> (r: &mut Vec<(Identifier, Option<DefaultValue>)>)
        ensures
            *r == old(self).args,
            final(self).args == *final(r),
            final(self).statement == old(self).statement,
            final(self).ident == old(self).ident,
    {
        &mut self.args
    }

    /// Parses a function definition from what is left of a token stream.
    ///
    /// The definition has the form `[`, name, arguments, `]`, body. Each
    /// argument is a name, optionally followed by `=` and a constant with
    /// an optional minus before it; arguments are separated by `,`. No
    /// argument name occurs twice. The body is what the rest of the stream
    /// holds, and is parsed against `scope`.
    pub fn parse(tokens: TokenStream, scope: &Scope, idmap: &IdMap) -> (r: Result<
        FunctionDef,
        CompileError,
    >)
        requires
            tokens.wf(),
        ensures
            function_result_view(r) == spec_parse_function(
                tokens.tokens@,
                tokens.cursor as int,
                tokens.end as int,
                tokens.end_pos,
                scope,
                idmap@,
            ),
            r matches Ok(f) ==> unique_arguments(f.args@),
    {
        let lo = tokens.cursor;
        if !at_token(&tokens, lo, Token::Symbol(Symbol::LeftBracket(Bracket::Square))) {
            return Err(error_expected("`[`", &tokens, lo));
        }
        let name = if lo + 1 < tokens.end {
            match tokens.tokens[lo + 1].token {
                Token::Ident(f) => Some(f),
                _ => None,
            }
        } else {
            None
        };
        let ident = match name {
            Some(f) => f,
            None => {
                return Err(error_expected("function name", &tokens, lo + 1));
            },
        };
        let (args, next) = match parse_args(&tokens.slice(lo + 2, tokens.end), idmap) {
            Ok(found) => found,
            Err(e) => {
                return Err(e);
            },
        };
        if next >= tokens.end {
            return Err(CompileError::new_static("expected block, got EOF").with_pos(tokens.end_pos));
        }
        let body = match Statement::parse(tokens.slice(next, tokens.end), scope, idmap) {
            Ok(s) => s,
            Err(e) => {
                return Err(e);
            },
        };
        Ok(FunctionDef { statement: Some(body), args: args, ident: Some(ident) })
    }
}

} // verus!
