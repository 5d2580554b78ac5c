//! The expression engine: from a span of tokens to postfix form, and the
//! evaluation of postfix form against a scope.

use vstd::prelude::*;
use vstd::string::*;
use crate::error::{error_at, error_text, plain_error, CompileError, ErrorView};
use crate::identifier::{name_text, IdMap};
use crate::number::{from_bool, is_truthy, negate, spec_from_bool, spec_is_truthy, spec_negate, Number};
use crate::parser::TokenStream;
use crate::scope::Scope;
use crate::text::{append_decimal, decimal};
use crate::tokens::{
    Associativity, Bracket, Identifier, Literal, Operator, SourcePos, Symbol, Token, PW,
};

verus! {

/// A call of a function inside an expression: the function's number in the
/// scope, its name, and the first and last token of the call in the span
/// that was compiled (the name and the closing parenthesis).
#[derive(Copy, Clone, Debug, PartialEq, Eq, Structural)]
pub struct FnCall {
    pub func: usize,
    pub ident: Identifier,
    pub first: usize,
    pub last: usize,
}

/// What the expression engine works on.
#[derive(Copy, Clone, Debug, PartialEq, Eq, Structural)]
pub enum ExprToken {
    Op(Operator),
    Value(Number),
    Const(Literal),
    Var(usize),
    LParen,
    RParen,
    Fn(FnCall),
}

pub open spec fn msg_empty() -> Seq<char> {
    "empty expression in file"@
}

pub open spec fn msg_paren_type(sym: Symbol) -> Seq<char> {
    "unexpected paren type in expression: `"@ + sym.spec_text() + "`"@
}

pub open spec fn msg_call_unfinished() -> Seq<char> {
    "unexpected end of file in function call"@
}

pub open spec fn msg_undefined_function(name: Seq<char>) -> Seq<char> {
    "function `"@ + name + "` appears in expression but is not defined in scope"@
}

pub open spec fn msg_undefined_variable(name: Seq<char>) -> Seq<char> {
    "variable `"@ + name + "` appears in expression but is not defined in scope"@
}

pub open spec fn msg_unexpected_token(t: Token) -> Seq<char> {
    "unexpected token in expression `"@ + t.spec_text() + "`"@
}

pub open spec fn open_paren() -> Token {
    Token::Symbol(Symbol::LeftBracket(Bracket::Round))
}

pub open spec fn close_paren() -> Token {
    Token::Symbol(Symbol::RightBracket(Bracket::Round))
}

/// The index of the parenthesis that closes a call. `at` is the token to
/// look at next and `depth` the number of parentheses open before it.
pub open spec fn call_end(tokens: Seq<PW<Token>>, at: int, depth: int) -> Option<int>
    decreases tokens.len() - at,
{
    if at < 0 || at >= tokens.len() {
        None
    } else {
        let d = if tokens[at].token == open_paren() {
            depth + 1
        } else if tokens[at].token == close_paren() {
            depth - 1
        } else {
            depth
        };
        if d == 0 {
            Some(at)
        } else {
            call_end(tokens, at + 1, d)
        }
    }
}

/// The closing parenthesis of a call stands inside the span, behind the
/// place where the search began.
pub proof fn lemma_call_end_bounds(tokens: Seq<PW<Token>>, at: int, depth: int)
    requires
        0 <= at,
    ensures
        call_end(tokens, at, depth) matches Some(e) ==> at <= e < tokens.len(),
    decreases tokens.len() - at,
{
    if at < tokens.len() {
        let d = if tokens[at].token == open_paren() {
            depth + 1
        } else if tokens[at].token == close_paren() {
            depth - 1
        } else {
            depth
        };
        if d != 0 {
            lemma_call_end_bounds(tokens, at + 1, d);
        }
    }
}

/// What the token at `i` becomes, and the index of the token to go on with.
///
/// A constant, an operator and a round parenthesis pass through. A name
/// followed by `(` is a call: it runs to the matching `)` and its name must
/// be a function of the scope. Any other name must be a variable of the
/// scope. Every other token has no place in an expression.
pub open spec fn convert_at(
    tokens: Seq<PW<Token>>,
    scope: &Scope,
    names: Seq<Seq<u8>>,
    i: int,
) -> Result<(ExprToken, int), ErrorView> {
    let pos = tokens[i].pos;
    match tokens[i].token {
        Token::Const(lit) => Ok((ExprToken::Const(lit), i + 1)),
        Token::Operator(op) => Ok((ExprToken::Op(op), i + 1)),
        Token::Symbol(Symbol::LeftBracket(Bracket::Round)) => Ok((ExprToken::LParen, i + 1)),
        Token::Symbol(Symbol::RightBracket(Bracket::Round)) => Ok((ExprToken::RParen, i + 1)),
        Token::Symbol(Symbol::LeftBracket(b)) => Err(
            error_at(msg_paren_type(Symbol::LeftBracket(b)), pos),
        ),
        Token::Symbol(Symbol::RightBracket(b)) => Err(
            error_at(msg_paren_type(Symbol::RightBracket(b)), pos),
        ),
        Token::Symbol(s) => Err(error_at(msg_unexpected_token(Token::Symbol(s)), pos)),
        Token::Ident(v) => {
            if i + 1 < tokens.len() && tokens[i + 1].token == open_paren() {
                match call_end(tokens, i + 2, 1) {
                    None => Err(error_at(msg_call_unfinished(), pos)),
                    Some(e) => match scope.spec_func_id(v) {
                        Some(f) => Ok(
                            (
                                ExprToken::Fn(
                                    FnCall {
                                        func: f,
                                        ident: v,
                                        first: i as usize,
                                        last: e as usize,
                                    },
                                ),
                                e + 1,
                            ),
                        ),
                        None => Err(error_at(msg_undefined_function(name_text(names, v)), pos)),
                    },
                }
            } else {
                match scope.spec_var_id(v) {
                    Some(slot) => Ok((ExprToken::Var(slot), i + 1)),
                    None => Err(error_at(msg_undefined_variable(name_text(names, v)), pos)),
                }
            }
        },
    }
}

/// A converted token ends behind its start and inside the span.
pub proof fn lemma_convert_at_bounds(
    tokens: Seq<PW<Token>>,
    scope: &Scope,
    names: Seq<Seq<u8>>,
    i: int,
)
    requires
        0 <= i < tokens.len(),
    ensures
        convert_at(tokens, scope, names, i) matches Ok((_, next)) ==> i < next <= tokens.len(),
{
    lemma_call_end_bounds(tokens, i + 2, 1);
}

/// The tokens from `i` on, converted one after the other and added to `out`.
pub open spec fn convert_from(
    tokens: Seq<PW<Token>>,
    scope: &Scope,
    names: Seq<Seq<u8>>,
    i: int,
    out: Seq<ExprToken>,
) -> Result<Seq<ExprToken>, ErrorView>
    decreases tokens.len() - i,
{
    if i < 0 || i >= tokens.len() {
        Ok(out)
    } else {
        match convert_at(tokens, scope, names, i) {
            Err(e) => Err(e),
            Ok((t, next)) => {
                proof {
                    lemma_convert_at_bounds(tokens, scope, names, i);
                }
                convert_from(tokens, scope, names, next, out.push(t))
            },
        }
    }
}

/// True where a minus at `i` has no left operand: at the start, behind
/// another operator, or behind an opening parenthesis.
pub open spec fn is_unary_minus(tokens: Seq<ExprToken>, i: int) -> bool {
    tokens[i] == ExprToken::Op(Operator::Sub) && (i == 0 || tokens[i - 1] is Op || tokens[i
        - 1] is LParen)
}

/// The same tokens, with every minus that has no left operand turned into a
/// negation.
pub open spec fn mark_negations(tokens: Seq<ExprToken>) -> Seq<ExprToken> {
    Seq::new(
        tokens.len(),
        |i: int|
            if is_unary_minus(tokens, i) {
                ExprToken::Op(Operator::Neg)
            } else {
                tokens[i]
            },
    )
}

/// The expression tokens that a span of lexer tokens stands for.
pub open spec fn spec_to_expr_tokens(
    tokens: Seq<PW<Token>>,
    scope: &Scope,
    names: Seq<Seq<u8>>,
) -> Result<Seq<ExprToken>, ErrorView> {
    if tokens.len() == 0 {
        Err(plain_error(msg_empty()))
    } else {
        match convert_from(tokens, scope, names, 0, Seq::empty()) {
            Ok(out) => Ok(mark_negations(out)),
            Err(e) => Err(e),
        }
    }
}

/// The view of a result that holds a vector.
pub open spec fn vec_result_view<T>(r: Result<Vec<T>, CompileError>) -> Result<Seq<T>, ErrorView> {
    match r {
        Ok(v) => Ok(v@),
        Err(e) => Err(e@),
    }
}

fn is_open_paren(t: Token) -> (r: bool)
    ensures
        r == (t == open_paren()),
{
    match t {
        Token::Symbol(Symbol::LeftBracket(Bracket::Round)) => true,
        _ => false,
    }
}

fn is_close_paren(t: Token) -> (r: bool)
    ensures
        r == (t == close_paren()),
{
    match t {
        Token::Symbol(Symbol::RightBracket(Bracket::Round)) => true,
        _ => false,
    }
}

/// Finds the parenthesis that closes the call whose opening parenthesis
/// stands right before `start`.
fn find_call_end(tokens: &[PW<Token>], start: usize) -> (r: Option<usize>)
    requires
        1 <= start,
    ensures
        match r {
            Some(e) => call_end(tokens@, start as int, 1) == Some(e as int) && start <= e
                < tokens@.len(),
            None => call_end(tokens@, start as int, 1) is None,
        },
{
    let mut at: usize = start;
    let mut depth: usize = 1;
    while at < tokens.len()
        invariant
            1 <= start <= at,
            1 <= depth <= at - start + 1,
            call_end(tokens@, start as int, 1) == call_end(tokens@, at as int, depth as int),
        decreases tokens.len() - at,
    {
        let t = tokens[at].token;
        if is_open_paren(t) {
            depth += 1;
        } else if is_close_paren(t) {
            depth -= 1;
        }
        if depth == 0 {
            return Some(at);
        }
        at += 1;
    }
    None
}

fn error_paren_type(sym: Symbol, pos: SourcePos) -> (r: CompileError)
    ensures
        r@ == error_at(msg_paren_type(sym), pos),
{
    let mut s = String::from_str("unexpected paren type in expression: `");
    s.append(sym.text());
    s.append("`");
    CompileError::new(s).with_pos(pos)
}

fn error_unexpected_token(t: Token, pos: SourcePos) -> (r: CompileError)
    ensures
        r@ == error_at(msg_unexpected_token(t), pos),
{
    let mut s = String::from_str("unexpected token in expression `");
    let text = t.to_text();
    s.append(text.as_str());
    s.append("`");
    CompileError::new(s).with_pos(pos)
}

fn error_undefined_function(idmap: &IdMap, v: Identifier, pos: SourcePos) -> (r: CompileError)
    ensures
        r@ == error_at(msg_undefined_function(name_text(idmap@, v)), pos),
{
    let mut s = String::from_str("function `");
    idmap.append_name(&mut s, v);
    s.append("` appears in expression but is not defined in scope");
    CompileError::new(s).with_pos(pos)
}

fn error_undefined_variable(idmap: &IdMap, v: Identifier, pos: SourcePos) -> (r: CompileError)
    ensures
        r@ == error_at(msg_undefined_variable(name_text(idmap@, v)), pos),
{
    let mut s = String::from_str("variable `");
    idmap.append_name(&mut s, v);
    s.append("` appears in expression but is not defined in scope");
    CompileError::new(s).with_pos(pos)
}

/// Converts the token at `i` and says where to go on.
fn convert_token(tokens: &[PW<Token>], scope: &Scope, idmap: &IdMap, i: usize) -> (r: Result<
    (ExprToken, usize),
    CompileError,
>)
    requires
        i < tokens@.len(),
    ensures
        match r {
            Ok((t, next)) => convert_at(tokens@, scope, idmap@, i as int) == Ok::<
                (ExprToken, int),
                ErrorView,
            >((t, next as int)) && i < next <= tokens@.len(),
            Err(e) => convert_at(tokens@, scope, idmap@, i as int) == Err::<
                (ExprToken, int),
                ErrorView,
            >(e@),
        },
{
    let pos = tokens[i].pos;
    match tokens[i].token {
        Token::Const(lit) => Ok((ExprToken::Const(lit), i + 1)),
        Token::Operator(op) => Ok((ExprToken::Op(op), i + 1)),
        Token::Symbol(Symbol::LeftBracket(Bracket::Round)) => Ok((ExprToken::LParen, i + 1)),
        Token::Symbol(Symbol::RightBracket(Bracket::Round)) => Ok((ExprToken::RParen, i + 1)),
        Token::Symbol(Symbol::LeftBracket(b)) => Err(
            error_paren_type(Symbol::LeftBracket(b), pos),
        ),
        Token::Symbol(Symbol::RightBracket(b)) => Err(
            error_paren_type(Symbol::RightBracket(b), pos),
        ),
        Token::Symbol(s) => Err(error_unexpected_token(Token::Symbol(s), pos)),
        Token::Ident(v) => {
            if i + 1 < tokens.len() && is_open_paren(tokens[i + 1].token) {
                match find_call_end(tokens, i + 2) {
                    None => Err(
                        CompileError::new_static("unexpected end of file in function call").with_pos(
                            pos,
                        ),
                    ),
                    Some(e) => match scope.func_id(v) {
                        Some(f) => Ok(
                            (
                                ExprToken::Fn(FnCall { func: f, ident: v, first: i, last: e }),
                                e + 1,
                            ),
                        ),
                        None => Err(error_undefined_function(idmap, v, pos)),
                    },
                }
            } else {
                match scope.var_id(v) {
                    Some(slot) => Ok((ExprToken::Var(slot), i + 1)),
                    None => Err(error_undefined_variable(idmap, v, pos)),
                }
            }
        },
    }
}

/// Turns a span of lexer tokens into expression tokens.
///
/// An empty span is an error without a position. Every other error carries
/// the position of the token that caused it. Names are resolved against
/// `scope`; `idmap` serves only to spell them in messages.
pub fn to_expr_tokens(tokens: &[PW<Token>], scope: &Scope, idmap: &IdMap) -> (r: Result<
    Vec<ExprToken>,
    CompileError,
>)
    ensures
        vec_result_view(r) == spec_to_expr_tokens(tokens@, scope, idmap@),
{
    if tokens.len() == 0 {
        return Err(CompileError::new_static("empty expression in file"));
    }
    let mut out: Vec<ExprToken> = Vec::new();
    let mut i: usize = 0;
    while i < tokens.len()
        invariant
            i <= tokens@.len(),
            convert_from(tokens@, scope, idmap@, 0, Seq::empty()) == convert_from(
                tokens@,
                scope,
                idmap@,
                i as int,
                out@,
            ),
        decreases tokens@.len() - i,
    {
        match convert_token(tokens, scope, idmap, i) {
            Err(e) => {
                return Err(e);
            },
            Ok((t, next)) => {
                out.push(t);
                i = next;
            },
        }
    }
    let ghost converted = out@;
    let mut k: usize = 0;
    while k < out.len()
        invariant
            k <= out@.len(),
            out@.len() == converted.len(),
            forall|j: int| 0 <= j < k ==> out@[j] == mark_negations(converted)[j],
            forall|j: int| k <= j < out@.len() ==> out@[j] == converted[j],
        decreases out@.len() - k,
    {
        let is_minus = match out[k] {
            ExprToken::Op(Operator::Sub) => true,
            _ => false,
        };
        if is_minus {
            let unary = if k == 0 {
                true
            } else {
                match out[k - 1] {
                    ExprToken::Op(_) => true,
                    ExprToken::LParen => true,
                    _ => false,
                }
            };
            if unary {
                out.set(k, ExprToken::Op(Operator::Neg));
            }
        }
        k += 1;
    }
    proof {
        assert(out@ =~= mark_negations(converted));
    }
    Ok(out)
}

pub open spec fn msg_skewed_right() -> Seq<char> {
    "mismatched parens: skewed right"@
}

pub open spec fn msg_skewed_left() -> Seq<char> {
    "mismatched parens: skewed left"@
}

/// True when the operator on top of the stack leaves it before `incoming`
/// enters: it binds tighter, or as tightly and `incoming` groups to the left.
pub open spec fn should_pop(incoming: Operator, top: Operator) -> bool {
    (incoming.spec_associativity() == Associativity::Left && incoming.spec_precedence()
        <= top.spec_precedence()) || incoming.spec_precedence() < top.spec_precedence()
}

/// The two sequences that the conversion to postfix form works on: what has
/// been given out, and the operators and parentheses that wait.
pub struct Yard {
    pub out: Seq<ExprToken>,
    pub stack: Seq<ExprToken>,
}

impl Yard {
    /// The top of the stack moved to the output.
    pub open spec fn emit_top(self) -> Yard {
        Yard { out: self.out.push(self.stack.last()), stack: self.stack.drop_last() }
    }

    /// The operators that leave the stack before `incoming` enters it.
    pub open spec fn pop_operators(self, incoming: Operator) -> Yard
        decreases self.stack.len(),
    {
        if self.stack.len() > 0 && (self.stack.last() matches ExprToken::Op(top) && should_pop(
            incoming,
            top,
        )) {
            self.emit_top().pop_operators(incoming)
        } else {
            self
        }
    }

    /// What a closing parenthesis does: everything above the nearest opening
    /// parenthesis leaves the stack, and that parenthesis is dropped.
    /// Nothing where the stack holds no opening parenthesis.
    pub open spec fn close_group(self) -> Option<Yard>
        decreases self.stack.len(),
    {
        if self.stack.len() == 0 {
            None
        } else if self.stack.last() is LParen {
            Some(Yard { out: self.out, stack: self.stack.drop_last() })
        } else {
            self.emit_top().close_group()
        }
    }

    /// What the end of the input does: the operators leave the stack in
    /// turn. Nothing where a parenthesis is left on it.
    pub open spec fn drain(self) -> Option<Seq<ExprToken>>
        decreases self.stack.len(),
    {
        if self.stack.len() == 0 {
            Some(self.out)
        } else if self.stack.last() is Op {
            self.emit_top().drain()
        } else {
            None
        }
    }

    /// The yard after one more token.
    pub open spec fn step(self, t: ExprToken) -> Option<Yard> {
        match t {
            ExprToken::Op(op) => {
                let y = self.pop_operators(op);
                Some(Yard { out: y.out, stack: y.stack.push(t) })
            },
            ExprToken::LParen => Some(Yard { out: self.out, stack: self.stack.push(t) }),
            ExprToken::RParen => self.close_group(),
            _ => Some(Yard { out: self.out.push(t), stack: self.stack }),
        }
    }

    /// The postfix form that results when the tokens from `i` on are taken
    /// in, starting from this yard.
    pub open spec fn run(self, tokens: Seq<ExprToken>, i: int) -> Result<Seq<ExprToken>, ErrorView>
        decreases tokens.len() - i,
    {
        if i < 0 || i >= tokens.len() {
            match self.drain() {
                Some(out) => Ok(out),
                None => Err(plain_error(msg_skewed_left())),
            }
        } else {
            match self.step(tokens[i]) {
                Some(y) => y.run(tokens, i + 1),
                None => Err(plain_error(msg_skewed_right())),
            }
        }
    }
}

/// The yard with the given output and stack.
pub open spec fn yard(out: Seq<ExprToken>, stack: Seq<ExprToken>) -> Yard {
    Yard { out: out, stack: stack }
}

/// The postfix form of an infix sequence of expression tokens.
pub open spec fn spec_shunting_yard(tokens: Seq<ExprToken>) -> Result<Seq<ExprToken>, ErrorView> {
    yard(Seq::empty(), Seq::empty()).run(tokens, 0)
}

fn operator_leaves(incoming: Operator, top: Operator) -> (r: bool)
    ensures
        r == should_pop(incoming, top),
{
    let p1 = incoming.precedence();
    let p2 = top.precedence();
    let left = match incoming.associativity() {
        Associativity::Left => true,
        Associativity::Right => false,
    };
    (left && p1 <= p2) || p1 < p2
}

/// Converts an infix sequence to postfix form.
///
/// Operands keep their order. An operator waits on a stack until one that
/// binds less tightly arrives (or one that binds as tightly, if that one
/// groups to the left), or until its group or the input ends. A `)` without
/// a `(` before it is the error `skewed right`, met at that `)`; a `(` that
/// is still open at the end is the error `skewed left`. Neither error has a
/// position.
pub fn shunting_yard(tokens: Vec<ExprToken>) -> (r: Result<Vec<ExprToken>, CompileError>)
    ensures
        vec_result_view(r) == spec_shunting_yard(tokens@),
{
    let mut out: Vec<ExprToken> = Vec::new();
    let mut stack: Vec<ExprToken> = Vec::new();
    let mut i: usize = 0;
    while i < tokens.len()
        invariant
            i <= tokens@.len(),
            yard(out@, stack@).run(tokens@, i as int) == spec_shunting_yard(
                tokens@,
            ),
        decreases tokens@.len() - i,
    {
        let token = tokens[i];
        let ghost before = yard(out@, stack@);
        match token {
            ExprToken::Op(op1) => {
                loop
                    invariant
                        yard(out@, stack@).pop_operators(op1)
                            == before.pop_operators(op1),
                    ensures
                        yard(out@, stack@) == before.pop_operators(op1),
                    decreases stack@.len(),
                {
                    if stack.len() == 0 {
                        break ;
                    }
                    let top = stack[stack.len() - 1];
                    let leaves = match top {
                        ExprToken::Op(op2) => operator_leaves(op1, op2),
                        _ => false,
                    };
                    if !leaves {
                        break ;
                    }
                    stack.pop();
                    out.push(top);
                }
                stack.push(token);
            },
            ExprToken::LParen => {
                stack.push(token);
            },
            ExprToken::RParen => {
                let mut found_left = false;
                while !found_left && stack.len() > 0
                    invariant
                        !found_left ==> yard(out@, stack@).close_group()
                            == before.close_group(),
                        found_left ==> before.close_group() == Some(yard(out@, stack@)),
                    decreases stack@.len() + (if found_left { 0int } else { 1int }),
                {
                    let top = stack[stack.len() - 1];
                    stack.pop();
                    match top {
                        ExprToken::LParen => {
                            found_left = true;
                        },
                        _ => {
                            out.push(top);
                        },
                    }
                }
                if !found_left {
                    return Err(CompileError::new_static("mismatched parens: skewed right"));
                }
            },
            _ => {
                out.push(token);
            },
        }
        i += 1;
    }
    while stack.len() > 0
        invariant
            i >= tokens@.len(),
            yard(out@, stack@).run(tokens@, i as int) == spec_shunting_yard(tokens@),
        decreases stack@.len(),
    {
        let top = stack[stack.len() - 1];
        match top {
            ExprToken::Op(_) => {
                stack.pop();
                out.push(top);
            },
            _ => {
                return Err(CompileError::new_static("mismatched parens: skewed left"));
            },
        }
    }
    Ok(out)
}

pub open spec fn msg_nonexistent_variable(slot: usize) -> Seq<char> {
    "Attempted to access a nonexistent variable (id="@ + decimal(slot as nat) + ")"@
}

pub open spec fn msg_not_enough_args(op: Operator) -> Seq<char> {
    "invalid expression: not enough args for operator "@ + op.spec_name()
}

pub open spec fn msg_unexpected_paren(name: Seq<char>) -> Seq<char> {
    "unexpected token in expression: `"@ + name + "`"@
}

pub open spec fn msg_zero_values() -> Seq<char> {
    "zero values in expression"@
}

pub open spec fn msg_too_many_values() -> Seq<char> {
    "too many values in expression"@
}

/// Work that evaluation hands to its host, which has the arithmetic.
#[derive(Copy, Clone, Debug, PartialEq, Eq, Structural)]
pub enum Request {
    /// The number that a constant of the source spells.
    Literal(Literal),
    /// `left op right` for `Add`, `Sub`, `Mul`, `Div`, `Exp` or `Mod`.
    Arith { op: Operator, left: Number, right: Number },
    /// Whether `left op right` holds, for a comparison or an equality.
    Compare { op: Operator, left: Number, right: Number },
    /// The value of a call.
    Call(FnCall),
}

/// What the host hands back.
#[derive(Debug)]
pub enum Answer {
    Value(Number),
    Truth(bool),
    Failure(CompileError),
}

pub enum AnswerView {
    Value(Number),
    Truth(bool),
    Failure(ErrorView),
}

impl View for Answer {
    type V = AnswerView;

    open spec fn view(&self) -> AnswerView {
        match self {
            Answer::Value(v) => AnswerView::Value(*v),
            Answer::Truth(b) => AnswerView::Truth(*b),
            Answer::Failure(e) => AnswerView::Failure(e@),
        }
    }
}

/// How far a run of the evaluation got.
#[derive(Debug)]
pub enum Step {
    /// The host has work to do; its answer goes into the next run.
    Need(Request),
    /// The expression has this value.
    Done(Number),
    /// The expression has no value.
    Failed(CompileError),
}

pub enum StepView {
    Need(Request),
    Done(Number),
    Failed(ErrorView),
}

impl View for Step {
    type V = StepView;

    open spec fn view(&self) -> StepView {
        match self {
            Step::Need(r) => StepView::Need(*r),
            Step::Done(v) => StepView::Done(*v),
            Step::Failed(e) => StepView::Failed(e@),
        }
    }
}

/// The state of an evaluation between two runs: the values computed so far
/// and the index of the postfix token to take next.
#[derive(Debug)]
pub struct Evaluation {
    pub stack: Vec<Number>,
    pub next: usize,
}

/// A run's result together with the state it leaves.
pub struct Progress {
    pub step: StepView,
    pub stack: Seq<Number>,
    pub next: int,
}

pub open spec fn is_comparison(op: Operator) -> bool {
    op == Operator::Less || op == Operator::Greater || op == Operator::LessEqual || op
        == Operator::GreaterEqual || op == Operator::Equ || op == Operator::NotEqu || op
        == Operator::ApproxEqu
}

/// `And`, `Or` and `Xor` of two numbers, read as truth values.
pub open spec fn logic(op: Operator, left: Number, right: Number) -> Number {
    let l = spec_is_truthy(left);
    let r = spec_is_truthy(right);
    match op {
        Operator::And => spec_from_bool(l && r),
        Operator::Or => spec_from_bool(l || r),
        _ => spec_from_bool(l != r),
    }
}

/// `Not` of a number, read as a truth value.
pub open spec fn logic_not(v: Number) -> Number {
    spec_from_bool(!spec_is_truthy(v))
}

/// What an operator does with the values it takes from the stack: it puts
/// a value back, or the host is asked.
pub enum Applied {
    Push(Number),
    Ask(Request),
}

/// The effect of `op` on a stack that holds its operands. For an operator of
/// two operands the left one lies below the right one.
pub open spec fn apply_operator(op: Operator, stack: Seq<Number>) -> Applied {
    let right = stack[stack.len() - 1];
    let left = stack[stack.len() - 2];
    match op {
        Operator::Neg => Applied::Push(spec_negate(right)),
        Operator::Not => Applied::Push(logic_not(right)),
        Operator::And | Operator::Or | Operator::Xor => Applied::Push(logic(op, left, right)),
        _ => if is_comparison(op) {
            Applied::Ask(Request::Compare { op: op, left: left, right: right })
        } else {
            Applied::Ask(Request::Arith { op: op, left: left, right: right })
        },
    }
}

/// The end of the walk: exactly one value must be left.
pub open spec fn finish(stack: Seq<Number>) -> StepView {
    if stack.len() == 1 {
        StepView::Done(stack[0])
    } else if stack.len() == 0 {
        StepView::Failed(plain_error(msg_zero_values()))
    } else {
        StepView::Failed(plain_error(msg_too_many_values()))
    }
}

pub open spec fn progress(step: StepView, stack: Seq<Number>, next: int) -> Progress {
    Progress { step: step, stack: stack, next: next }
}

/// The walk over the postfix tokens from `next` on, up to the first token
/// that needs the host, the first failure, or the end.
pub open spec fn run_from(rpn: Seq<ExprToken>, scope: &Scope, stack: Seq<Number>, next: int) -> Progress
    decreases rpn.len() - next,
{
    if next < 0 || next >= rpn.len() {
        progress(finish(stack), stack, next)
    } else {
        match rpn[next] {
            ExprToken::Value(v) => run_from(rpn, scope, stack.push(v), next + 1),
            ExprToken::Const(lit) => progress(
                StepView::Need(Request::Literal(lit)),
                stack,
                next + 1,
            ),
            ExprToken::Fn(call) => progress(StepView::Need(Request::Call(call)), stack, next + 1),
            ExprToken::Var(slot) => match scope.spec_get_var(slot) {
                Some(v) => run_from(rpn, scope, stack.push(v), next + 1),
                None => progress(
                    StepView::Failed(plain_error(msg_nonexistent_variable(slot))),
                    stack,
                    next,
                ),
            },
            ExprToken::Op(op) => {
                if stack.len() < op.spec_num_args() {
                    progress(StepView::Failed(plain_error(msg_not_enough_args(op))), stack, next)
                } else {
                    let rest = stack.take(stack.len() - op.spec_num_args());
                    match apply_operator(op, stack) {
                        Applied::Push(v) => run_from(rpn, scope, rest.push(v), next + 1),
                        Applied::Ask(request) => progress(
                            StepView::Need(request),
                            rest,
                            next + 1,
                        ),
                    }
                }
            },
            ExprToken::LParen => progress(
                StepView::Failed(plain_error(msg_unexpected_paren("LParen"@))),
                stack,
                next,
            ),
            ExprToken::RParen => progress(
                StepView::Failed(plain_error(msg_unexpected_paren("RParen"@))),
                stack,
                next,
            ),
        }
    }
}

/// One run of the evaluation: the host's answer, if there is one, goes onto
/// the stack (a truth value as its sentinel), then the walk goes on. A
/// failure of the host ends the evaluation with the host's error as text.
pub open spec fn spec_eval_rpn(
    rpn: Seq<ExprToken>,
    scope: &Scope,
    stack: Seq<Number>,
    next: int,
    answer: Option<AnswerView>,
) -> Progress {
    match answer {
        None => run_from(rpn, scope, stack, next),
        Some(AnswerView::Value(v)) => run_from(rpn, scope, stack.push(v), next),
        Some(AnswerView::Truth(b)) => run_from(rpn, scope, stack.push(spec_from_bool(b)), next),
        Some(AnswerView::Failure(e)) => progress(
            StepView::Failed(plain_error(error_text(e))),
            stack,
            next,
        ),
    }
}

pub open spec fn answer_view(answer: Option<Answer>) -> Option<AnswerView> {
    match answer {
        Some(a) => Some(a@),
        None => None,
    }
}

fn error_nonexistent_variable(slot: usize) -> (r: CompileError)
    ensures
        r@ == plain_error(msg_nonexistent_variable(slot)),
{
    let mut s = String::from_str("Attempted to access a nonexistent variable (id=");
    append_decimal(&mut s, slot);
    s.append(")");
    CompileError::new(s)
}

fn error_not_enough_args(op: Operator) -> (r: CompileError)
    ensures
        r@ == plain_error(msg_not_enough_args(op)),
{
    let mut s = String::from_str("invalid expression: not enough args for operator ");
    s.append(op.name());
    CompileError::new(s)
}

fn error_unexpected_paren(name: &'static str) -> (r: CompileError)
    ensures
        r@ == plain_error(msg_unexpected_paren(name@)),
{
    let mut s = String::from_str("unexpected token in expression: `");
    s.append(name);
    s.append("`");
    CompileError::new(s)
}

fn comparison(op: Operator) -> (r: bool)
    ensures
        r == is_comparison(op),
{
    match op {
        Operator::Less | Operator::Greater | Operator::LessEqual | Operator::GreaterEqual
        | Operator::Equ | Operator::NotEqu | Operator::ApproxEqu => true,
        _ => false,
    }
}

/// Takes the operands of `op` from the stack. Where the library computes
/// the result itself it puts it back; else it gives the request for the host.
fn operate(op: Operator, stack: &mut Vec<Number>) -> (r: Option<Request>)
    requires
        old(stack)@.len() >= op.spec_num_args(),
    ensures
        match apply_operator(op, old(stack)@) {
            Applied::Push(v) => r is None && final(stack)@ == old(stack)@.take(
                old(stack)@.len() - op.spec_num_args(),
            ).push(v),
            Applied::Ask(request) => r == Some(request) && final(stack)@ == old(stack)@.take(
                old(stack)@.len() - op.spec_num_args(),
            ),
        },
{
    let n = stack.len();
    let right = stack[n - 1];
    stack.pop();
    match op {
        Operator::Neg => {
            stack.push(negate(right));
            proof {
                assert(stack@ =~= old(stack)@.take(n - 1).push(spec_negate(right)));
            }
            None
        },
        Operator::Not => {
            stack.push(from_bool(!is_truthy(right)));
            proof {
                assert(stack@ =~= old(stack)@.take(n - 1).push(logic_not(right)));
            }
            None
        },
        _ => {
            let left = stack[n - 2];
            stack.pop();
            proof {
                assert(stack@ =~= old(stack)@.take(n - 2));
            }
            match op {
                Operator::And => {
                    stack.push(from_bool(is_truthy(left) && is_truthy(right)));
                    None
                },
                Operator::Or => {
                    stack.push(from_bool(is_truthy(left) || is_truthy(right)));
                    None
                },
                Operator::Xor => {
                    stack.push(from_bool(is_truthy(left) != is_truthy(right)));
                    None
                },
                _ => {
                    if comparison(op) {
                        Some(Request::Compare { op: op, left: left, right: right })
                    } else {
                        Some(Request::Arith { op: op, left: left, right: right })
                    }
                },
            }
        },
    }
}

/// Evaluates postfix form as far as the library can on its own.
///
/// The state starts as an empty stack at token 0 and `answer` as `None`.
/// Values and bound variables go onto the stack. `Neg`, `Not`, `And`, `Or`
/// and `Xor` are computed here. For every other operator the run stops with
/// `Need`: its operands have left the stack, and the host's answer is given
/// to the next run, which puts it on the stack and goes on. Constants and
/// calls are asked for in the same way. At the end exactly one value must
/// be left. A failure leaves the state at the token that failed.
pub fn eval_rpn(
    rpn: &Vec<ExprToken>,
    scope: &Scope,
    state: &mut Evaluation,
    answer: Option<Answer>,
) -> (step: Step)
    ensures
        progress(step@, final(state).stack@, final(state).next as int) == spec_eval_rpn(
            rpn@,
            scope,
            old(state).stack@,
            old(state).next as int,
            answer_view(answer),
        ),
{
    match answer {
        None => {},
        Some(Answer::Value(v)) => {
            state.stack.push(v);
        },
        Some(Answer::Truth(b)) => {
            state.stack.push(from_bool(b));
        },
        Some(Answer::Failure(e)) => {
            return Step::Failed(CompileError::new(e.to_text()));
        },
    }
    let ghost goal = spec_eval_rpn(
        rpn@,
        scope,
        old(state).stack@,
        old(state).next as int,
        answer_view(answer),
    );
    while state.next < rpn.len()
        invariant
            goal == spec_eval_rpn(
                rpn@,
                scope,
                old(state).stack@,
                old(state).next as int,
                answer_view(answer),
            ),
            run_from(rpn@, scope, state.stack@, state.next as int) == goal,
        decreases rpn@.len() - state.next,
    {
        let token = rpn[state.next];
        match token {
            ExprToken::Value(v) => {
                state.stack.push(v);
            },
            ExprToken::Const(lit) => {
                state.next = state.next + 1;
                return Step::Need(Request::Literal(lit));
            },
            ExprToken::Fn(call) => {
                state.next = state.next + 1;
                return Step::Need(Request::Call(call));
            },
            ExprToken::Var(slot) => {
                match scope.get_var(slot) {
                    Some(v) => {
                        state.stack.push(v);
                    },
                    None => {
                        return Step::Failed(error_nonexistent_variable(slot));
                    },
                }
            },
            ExprToken::Op(op) => {
                if state.stack.len() < op.num_args() {
                    return Step::Failed(error_not_enough_args(op));
                }
                match operate(op, &mut state.stack) {
                    Some(request) => {
                        state.next = state.next + 1;
                        return Step::Need(request);
                    },
                    None => {},
                }
            },
            ExprToken::LParen => {
                return Step::Failed(error_unexpected_paren("LParen"));
            },
            ExprToken::RParen => {
                return Step::Failed(error_unexpected_paren("RParen"));
            },
        }
        state.next = state.next + 1;
    }
    if state.stack.len() == 1 {
        Step::Done(state.stack[0])
    } else if state.stack.len() == 0 {
        Step::Failed(CompileError::new_static("zero values in expression"))
    } else {
        Step::Failed(CompileError::new_static("too many values in expression"))
    }
}

/// A postfix token with a bound variable replaced by its value.
pub open spec fn fold_token(t: ExprToken, scope: &Scope) -> ExprToken {
    match t {
        ExprToken::Var(slot) => match scope.spec_get_var(slot) {
            Some(v) => ExprToken::Value(v),
            None => t,
        },
        _ => t,
    }
}

/// Postfix form with every variable that the scope binds replaced by its
/// value.
pub open spec fn spec_fold_scope(rpn: Seq<ExprToken>, scope: &Scope) -> Seq<ExprToken> {
    Seq::new(rpn.len(), |i: int| fold_token(rpn[i], scope))
}

/// The postfix form that a span of lexer tokens compiles to.
pub open spec fn spec_compile(
    tokens: Seq<PW<Token>>,
    scope: &Scope,
    names: Seq<Seq<u8>>,
) -> Result<Seq<ExprToken>, ErrorView> {
    match spec_to_expr_tokens(tokens, scope, names) {
        Ok(infix) => spec_shunting_yard(infix),
        Err(e) => Err(e),
    }
}

/// A compiled expression: its postfix form, and the place in the source
/// where it starts.
#[derive(Clone, Debug)]
pub struct Expression {
    pub rpn: Vec<ExprToken>,
    pub pos: SourcePos,
}

/// A compiled expression as a mathematical value.
pub struct ExpressionView {
    pub rpn: Seq<ExprToken>,
    pub pos: SourcePos,
}

impl View for Expression {
    type V = ExpressionView;

    open spec fn view(&self) -> ExpressionView {
        ExpressionView { rpn: self.rpn@, pos: self.pos }
    }
}

/// The expression that a span of lexer tokens compiles to.
pub open spec fn spec_parse_expression(
    span: Seq<PW<Token>>,
    scope: &Scope,
    names: Seq<Seq<u8>>,
) -> Result<ExpressionView, ErrorView> {
    match spec_compile(span, scope, names) {
        Ok(rpn) => Ok(ExpressionView { rpn: rpn, pos: span[0].pos }),
        Err(e) => Err(e),
    }
}

/// The view of the result of parsing an expression.
pub open spec fn expression_result_view(r: Result<Expression, CompileError>) -> Result<
    ExpressionView,
    ErrorView,
> {
    match r {
        Ok(e) => Ok(e@),
        Err(e) => Err(e@),
    }
}

impl Expression {
    /// Compiles a span of lexer tokens. The expression's position is that of
    /// the first token.
    pub fn new(tokens: &[PW<Token>], scope: &Scope, idmap: &IdMap) -> (r: Result<
        Expression,
        CompileError,
    >)
        ensures
            match r {
                Ok(e) => spec_compile(tokens@, scope, idmap@) == Ok::<Seq<ExprToken>, ErrorView>(
                    e.rpn@,
                ) && tokens@.len() > 0 && e.pos == tokens@[0].pos,
                Err(e) => spec_compile(tokens@, scope, idmap@) == Err::<
                    Seq<ExprToken>,
                    ErrorView,
                >(e@),
            },
    {
        let infix = match to_expr_tokens(tokens, scope, idmap) {
            Ok(v) => v,
            Err(e) => {
                return Err(e);
            },
        };
        match shunting_yard(infix) {
            Ok(rpn) => Ok(Expression { rpn: rpn, pos: tokens[0].pos }),
            Err(e) => Err(e),
        }
    }

    /// Compiles what is left of a token stream.
    pub fn parse(tokens: TokenStream, scope: &Scope, idmap: &IdMap) -> (r: Result<
        Expression,
        CompileError,
    >)
        requires
            tokens.wf(),
        ensures
            expression_result_view(r) == spec_parse_expression(tokens.rest(), scope, idmap@),
    {
        Expression::new(tokens.remaining(), scope, idmap)
    }

    /// Replaces the variables that `scope` binds with their values.
    pub fn fold_scope(&mut self, scope: &Scope)
        ensures
            final(self).rpn@ == spec_fold_scope(old(self).rpn@, scope),
            final(self).pos == old(self).pos,
    {
        let mut i: usize = 0;
        while i < self.rpn.len()
            invariant
                i <= self.rpn@.len(),
                self.rpn@.len() == old(self).rpn@.len(),
                self.pos == old(self).pos,
                forall|j: int| 0 <= j < i ==> self.rpn@[j] == fold_token(old(self).rpn@[j], scope),
                forall|j: int| i <= j < self.rpn@.len() ==> self.rpn@[j] == old(self).rpn@[j],
            decreases self.rpn@.len() - i,
        {
            match self.rpn[i] {
                ExprToken::Var(slot) => {
                    match scope.get_var(slot) {
                        Some(v) => {
                            self.rpn.set(i, ExprToken::Value(v));
                        },
                        None => {},
                    }
                },
                _ => {},
            }
            i += 1;
        }
        proof {
            assert(self.rpn@ =~= spec_fold_scope(old(self).rpn@, scope));
        }
    }

    /// One run of the evaluation of this expression.
    pub fn eval(&self, scope: &Scope, state: &mut Evaluation, answer: Option<Answer>) -> (step:
        Step)
        ensures
            progress(step@, final(state).stack@, final(state).next as int) == spec_eval_rpn(
                self.rpn@,
                scope,
                old(state).stack@,
                old(state).next as int,
                answer_view(answer),
            ),
    {
        eval_rpn(&self.rpn, scope, state, answer)
    }
}

impl Evaluation {
    /// The state before the first run: no values, at the first token.
    pub fn new() -> (r: Evaluation)
        ensures
            r.stack@ == Seq::<Number>::empty(),
            r.next == 0,
    {
        Evaluation { stack: Vec::new(), next: 0 }
    }
}

/// Folding a scope into postfix form a second time changes nothing.
pub proof fn lemma_fold_scope_idempotent(rpn: Seq<ExprToken>, scope: &Scope)
    ensures
        spec_fold_scope(spec_fold_scope(rpn, scope), scope) == spec_fold_scope(rpn, scope),
{
    assert(spec_fold_scope(spec_fold_scope(rpn, scope), scope) =~= spec_fold_scope(rpn, scope));
}

/// Folding is never needed: against the scope that was folded in, the folded
/// form takes every run exactly as the form it was made from.
pub proof fn lemma_fold_scope_keeps_runs(
    rpn: Seq<ExprToken>,
    scope: &Scope,
    stack: Seq<Number>,
    next: int,
)
    ensures
        run_from(spec_fold_scope(rpn, scope), scope, stack, next) == run_from(
            rpn,
            scope,
            stack,
            next,
        ),
    decreases rpn.len() - next,
{
    let folded = spec_fold_scope(rpn, scope);
    if 0 <= next < rpn.len() {
        match rpn[next] {
            ExprToken::Value(v) => {
                lemma_fold_scope_keeps_runs(rpn, scope, stack.push(v), next + 1);
            },
            ExprToken::Var(slot) => {
                match scope.spec_get_var(slot) {
                    Some(v) => {
                        lemma_fold_scope_keeps_runs(rpn, scope, stack.push(v), next + 1);
                    },
                    None => {},
                }
            },
            ExprToken::Op(op) => {
                if stack.len() >= op.spec_num_args() {
                    let rest = stack.take(stack.len() - op.spec_num_args());
                    match apply_operator(op, stack) {
                        Applied::Push(v) => {
                            lemma_fold_scope_keeps_runs(rpn, scope, rest.push(v), next + 1);
                        },
                        Applied::Ask(_) => {},
                    }
                }
            },
            _ => {},
        }
    }
}

/// Sentinels in, sentinels out: on the results of comparisons the logical
/// operators follow the truth tables of `and`, `or`, exclusive `or` and
/// `not`, and what they give reads back as that truth value.
pub proof fn lemma_truth_tables(a: bool, b: bool)
    ensures
        logic(Operator::And, spec_from_bool(a), spec_from_bool(b)) == spec_from_bool(a && b),
        logic(Operator::Or, spec_from_bool(a), spec_from_bool(b)) == spec_from_bool(a || b),
        logic(Operator::Xor, spec_from_bool(a), spec_from_bool(b)) == spec_from_bool(a != b),
        logic_not(spec_from_bool(a)) == spec_from_bool(!a),
        spec_is_truthy(spec_from_bool(a)) == a,
{
}

/// The answer to a comparison reaches the stack as a sentinel, so a logical
/// operator that takes two such answers gives the sentinel of their
/// combination.
pub proof fn lemma_comparisons_feed_logic(
    rpn: Seq<ExprToken>,
    scope: &Scope,
    stack: Seq<Number>,
    next: int,
    op: Operator,
    a: bool,
    b: bool,
)
    requires
        0 <= next < rpn.len(),
        rpn[next] == ExprToken::Op(op),
        op == Operator::And || op == Operator::Or || op == Operator::Xor,
    ensures
        spec_eval_rpn(
            rpn,
            scope,
            stack.push(spec_from_bool(a)),
            next,
            Some(AnswerView::Truth(b)),
        ) == run_from(
            rpn,
            scope,
            stack.push(
                spec_from_bool(
                    match op {
                        Operator::And => a && b,
                        Operator::Or => a || b,
                        _ => a != b,
                    },
                ),
            ),
            next + 1,
        ),
{
    let full = stack.push(spec_from_bool(a)).push(spec_from_bool(b));
    assert(full.take(full.len() - 2) =~= stack);
    lemma_truth_tables(a, b);
}

/// True for a parenthesis.
pub open spec fn is_paren(t: ExprToken) -> bool {
    t is LParen || t is RParen
}

/// No parenthesis among the tokens.
pub open spec fn no_parens(s: Seq<ExprToken>) -> bool {
    forall|i: int| 0 <= i < s.len() ==> !is_paren(#[trigger] s[i])
}

/// Only operators and opening parentheses among the tokens.
pub open spec fn waiting_only(s: Seq<ExprToken>) -> bool {
    forall|i: int| 0 <= i < s.len() ==> (#[trigger] s[i]) is Op || s[i] is LParen
}

proof fn lemma_pop_operators_keeps_shape(y: Yard, incoming: Operator)
    requires
        no_parens(y.out),
        waiting_only(y.stack),
    ensures
        no_parens(y.pop_operators(incoming).out),
        waiting_only(y.pop_operators(incoming).stack),
    decreases y.stack.len(),
{
    if y.stack.len() > 0 && (y.stack.last() matches ExprToken::Op(top) && should_pop(
        incoming,
        top,
    )) {
        lemma_pop_operators_keeps_shape(y.emit_top(), incoming);
    }
}

proof fn lemma_close_group_keeps_shape(y: Yard)
    requires
        no_parens(y.out),
        waiting_only(y.stack),
    ensures
        y.close_group() matches Some(z) ==> no_parens(z.out) && waiting_only(z.stack),
    decreases y.stack.len(),
{
    if y.stack.len() > 0 && !(y.stack.last() is LParen) {
        lemma_close_group_keeps_shape(y.emit_top());
    }
}

proof fn lemma_drain_keeps_shape(y: Yard)
    requires
        no_parens(y.out),
        waiting_only(y.stack),
    ensures
        y.drain() matches Some(out) ==> no_parens(out),
    decreases y.stack.len(),
{
    if y.stack.len() > 0 && y.stack.last() is Op {
        lemma_drain_keeps_shape(y.emit_top());
    }
}

proof fn lemma_run_keeps_shape(y: Yard, tokens: Seq<ExprToken>, i: int)
    requires
        no_parens(y.out),
        waiting_only(y.stack),
    ensures
        y.run(tokens, i) matches Ok(out) ==> no_parens(out),
    decreases tokens.len() - i,
{
    if i < 0 || i >= tokens.len() {
        lemma_drain_keeps_shape(y);
    } else {
        match tokens[i] {
            ExprToken::Op(op) => {
                lemma_pop_operators_keeps_shape(y, op);
            },
            ExprToken::RParen => {
                lemma_close_group_keeps_shape(y);
            },
            _ => {},
        }
        match y.step(tokens[i]) {
            Some(z) => {
                lemma_run_keeps_shape(z, tokens, i + 1);
            },
            None => {},
        }
    }
}

/// Postfix form holds no parenthesis.
pub proof fn lemma_postfix_has_no_parens(tokens: Seq<ExprToken>)
    ensures
        spec_shunting_yard(tokens) matches Ok(out) ==> no_parens(out),
{
    lemma_run_keeps_shape(yard(Seq::empty(), Seq::empty()), tokens, 0);
}

/// True for a token that stands for a value: a value, a constant, a
/// variable or a call.
pub open spec fn is_operand(t: ExprToken) -> bool {
    t is Value || t is Const || t is Var || t is Fn
}

/// The operands among the tokens, in their order.
pub open spec fn operands(s: Seq<ExprToken>) -> Seq<ExprToken>
    decreases s.len(),
{
    if s.len() == 0 {
        Seq::empty()
    } else if is_operand(s.last()) {
        operands(s.drop_last()).push(s.last())
    } else {
        operands(s.drop_last())
    }
}

/// The number of operators among the tokens.
pub open spec fn operator_count(s: Seq<ExprToken>) -> nat
    decreases s.len(),
{
    if s.len() == 0 {
        0
    } else if s.last() is Op {
        operator_count(s.drop_last()) + 1
    } else {
        operator_count(s.drop_last())
    }
}

proof fn lemma_push_counts(s: Seq<ExprToken>, t: ExprToken)
    ensures
        operands(s.push(t)) == if is_operand(t) {
            operands(s).push(t)
        } else {
            operands(s)
        },
        operator_count(s.push(t)) == if t is Op {
            operator_count(s) + 1
        } else {
            operator_count(s)
        },
{
    assert(s.push(t).drop_last() =~= s);
}

proof fn lemma_drop_last_counts(s: Seq<ExprToken>)
    requires
        s.len() > 0,
    ensures
        operator_count(s) == operator_count(s.drop_last()) + if s.last() is Op {
            1nat
        } else {
            0nat
        },
{
}

/// What the yard holds of the first `i` tokens: their operands, in order,
/// are in the output, and each of their operators is in the output or on
/// the stack.
spec fn yard_holds(y: Yard, tokens: Seq<ExprToken>, i: int) -> bool {
    &&& waiting_only(y.stack)
    &&& operands(y.out) == operands(tokens.take(i))
    &&& operator_count(y.out) + operator_count(y.stack) == operator_count(tokens.take(i))
}

proof fn lemma_emit_top_keeps_counts(y: Yard)
    requires
        y.stack.len() > 0,
        waiting_only(y.stack),
    ensures
        waiting_only(y.emit_top().stack),
        y.stack.last() is Op ==> operands(y.emit_top().out) == operands(y.out),
        y.stack.last() is Op ==> operator_count(y.emit_top().out) + operator_count(
            y.emit_top().stack,
        ) == operator_count(y.out) + operator_count(y.stack),
{
    lemma_push_counts(y.out, y.stack.last());
    lemma_drop_last_counts(y.stack);
}

proof fn lemma_pop_operators_keeps_counts(y: Yard, incoming: Operator)
    requires
        waiting_only(y.stack),
    ensures
        waiting_only(y.pop_operators(incoming).stack),
        operands(y.pop_operators(incoming).out) == operands(y.out),
        operator_count(y.pop_operators(incoming).out) + operator_count(
            y.pop_operators(incoming).stack,
        ) == operator_count(y.out) + operator_count(y.stack),
    decreases y.stack.len(),
{
    if y.stack.len() > 0 && (y.stack.last() matches ExprToken::Op(top) && should_pop(
        incoming,
        top,
    )) {
        lemma_emit_top_keeps_counts(y);
        lemma_pop_operators_keeps_counts(y.emit_top(), incoming);
    }
}

proof fn lemma_close_group_keeps_counts(y: Yard)
    requires
        waiting_only(y.stack),
    ensures
        y.close_group() matches Some(z) ==> waiting_only(z.stack) && operands(z.out)
            == operands(y.out) && operator_count(z.out) + operator_count(z.stack)
            == operator_count(y.out) + operator_count(y.stack),
    decreases y.stack.len(),
{
    if y.stack.len() > 0 {
        if y.stack.last() is LParen {
            lemma_drop_last_counts(y.stack);
        } else {
            lemma_emit_top_keeps_counts(y);
            lemma_close_group_keeps_counts(y.emit_top());
        }
    }
}

proof fn lemma_drain_keeps_counts(y: Yard)
    requires
        waiting_only(y.stack),
    ensures
        y.drain() matches Some(out) ==> operands(out) == operands(y.out) && operator_count(out)
            == operator_count(y.out) + operator_count(y.stack),
    decreases y.stack.len(),
{
    if y.stack.len() > 0 && y.stack.last() is Op {
        lemma_emit_top_keeps_counts(y);
        lemma_drain_keeps_counts(y.emit_top());
    }
}

proof fn lemma_run_keeps_counts(y: Yard, tokens: Seq<ExprToken>, i: int)
    requires
        0 <= i <= tokens.len(),
        yard_holds(y, tokens, i),
    ensures
        y.run(tokens, i) matches Ok(out) ==> operands(out) == operands(tokens) && operator_count(
            out,
        ) == operator_count(tokens),
    decreases tokens.len() - i,
{
    if i >= tokens.len() {
        assert(tokens.take(i) =~= tokens);
        lemma_drain_keeps_counts(y);
    } else {
        let t = tokens[i];
        assert(tokens.take(i + 1) =~= tokens.take(i).push(t));
        lemma_push_counts(tokens.take(i), t);
        match y.step(t) {
            Some(z) => {
                match t {
                    ExprToken::Op(op) => {
                        lemma_pop_operators_keeps_counts(y, op);
                        let p = y.pop_operators(op);
                        lemma_push_counts(p.stack, t);
                    },
                    ExprToken::LParen => {
                        lemma_push_counts(y.stack, t);
                    },
                    ExprToken::RParen => {
                        lemma_close_group_keeps_counts(y);
                    },
                    _ => {
                        lemma_push_counts(y.out, t);
                    },
                }
                assert(yard_holds(z, tokens, i + 1));
                lemma_run_keeps_counts(z, tokens, i + 1);
            },
            None => {},
        }
    }
}

/// Postfix form keeps the operands in the order of the infix form, and
/// holds every operator of the infix form exactly once.
pub proof fn lemma_postfix_keeps_operands_and_operators(tokens: Seq<ExprToken>)
    ensures
        spec_shunting_yard(tokens) matches Ok(out) ==> operands(out) == operands(tokens)
            && operator_count(out) == operator_count(tokens),
{
    assert(tokens.take(0) =~= Seq::<ExprToken>::empty());
    lemma_run_keeps_counts(yard(Seq::empty(), Seq::empty()), tokens, 0);
}

/// A run gives a value only from the end of the postfix form, and only when
/// exactly that one value is on the stack there: a postfix form that leaves
/// no value, or more than one, never has a value.
pub proof fn lemma_done_needs_balance(
    rpn: Seq<ExprToken>,
    scope: &Scope,
    stack: Seq<Number>,
    next: int,
)
    requires
        0 <= next,
    ensures
        run_from(rpn, scope, stack, next).step matches StepView::Done(v) ==> run_from(
            rpn,
            scope,
            stack,
            next,
        ).stack == seq![v] && run_from(rpn, scope, stack, next).next >= rpn.len(),
    decreases rpn.len() - next,
{
    if next < rpn.len() {
        match rpn[next] {
            ExprToken::Value(v) => {
                lemma_done_needs_balance(rpn, scope, stack.push(v), next + 1);
            },
            ExprToken::Var(slot) => {
                match scope.spec_get_var(slot) {
                    Some(v) => {
                        lemma_done_needs_balance(rpn, scope, stack.push(v), next + 1);
                    },
                    None => {},
                }
            },
            ExprToken::Op(op) => {
                if stack.len() >= op.spec_num_args() {
                    let rest = stack.take(stack.len() - op.spec_num_args());
                    match apply_operator(op, stack) {
                        Applied::Push(v) => {
                            lemma_done_needs_balance(rpn, scope, rest.push(v), next + 1);
                        },
                        Applied::Ask(_) => {},
                    }
                }
            },
            _ => {},
        }
    } else {
        if stack.len() == 1 {
            assert(stack =~= seq![stack[0]]);
        }
    }
}

/// An operator never works on fewer values than it takes: where the stack
/// is too short for it, the run fails at the operator and the stack is left
/// alone.
pub proof fn lemma_short_stack_fails(
    rpn: Seq<ExprToken>,
    scope: &Scope,
    stack: Seq<Number>,
    next: int,
    op: Operator,
)
    requires
        0 <= next < rpn.len(),
        rpn[next] == ExprToken::Op(op),
        stack.len() < op.spec_num_args(),
    ensures
        run_from(rpn, scope, stack, next) == progress(
            StepView::Failed(plain_error(msg_not_enough_args(op))),
            stack,
            next,
        ),
{
}

/// A run that stops for the host has moved on by at least one token and
/// has not left the postfix form.
pub proof fn lemma_need_moves_on(rpn: Seq<ExprToken>, scope: &Scope, stack: Seq<Number>, next: int)
    requires
        0 <= next,
    ensures
        run_from(rpn, scope, stack, next).step is Need ==> next < run_from(
            rpn,
            scope,
            stack,
            next,
        ).next <= rpn.len(),
    decreases rpn.len() - next,
{
    if next < rpn.len() {
        match rpn[next] {
            ExprToken::Value(v) => {
                lemma_need_moves_on(rpn, scope, stack.push(v), next + 1);
            },
            ExprToken::Var(slot) => {
                match scope.spec_get_var(slot) {
                    Some(v) => {
                        lemma_need_moves_on(rpn, scope, stack.push(v), next + 1);
                    },
                    None => {},
                }
            },
            ExprToken::Op(op) => {
                if stack.len() >= op.spec_num_args() {
                    let rest = stack.take(stack.len() - op.spec_num_args());
                    match apply_operator(op, stack) {
                        Applied::Push(v) => {
                            lemma_need_moves_on(rpn, scope, rest.push(v), next + 1);
                        },
                        Applied::Ask(_) => {},
                    }
                }
            },
            _ => {},
        }
    }
}

/// The outcome of a whole evaluation with a host that answers every request
/// as `host` says: run after run, from the given state, until a run ends
/// with a value or a failure.
pub open spec fn evaluate_from(
    rpn: Seq<ExprToken>,
    scope: &Scope,
    host: spec_fn(Request) -> AnswerView,
    stack: Seq<Number>,
    next: int,
    answer: Option<AnswerView>,
) -> StepView
    decreases rpn.len() - next,
    when 0 <= next
{
    let p = spec_eval_rpn(rpn, scope, stack, next, answer);
    match p.step {
        StepView::Need(request) => {
            proof {
                lemma_need_moves_on(rpn, scope, stack, next);
                if let Some(AnswerView::Value(v)) = answer {
                    lemma_need_moves_on(rpn, scope, stack.push(v), next);
                }
                if let Some(AnswerView::Truth(b)) = answer {
                    lemma_need_moves_on(rpn, scope, stack.push(spec_from_bool(b)), next);
                }
            }
            evaluate_from(rpn, scope, host, p.stack, p.next, Some(host(request)))
        },
        outcome => outcome,
    }
}

/// The outcome of evaluating postfix form from the start.
pub open spec fn evaluate(
    rpn: Seq<ExprToken>,
    scope: &Scope,
    host: spec_fn(Request) -> AnswerView,
) -> StepView {
    evaluate_from(rpn, scope, host, Seq::empty(), 0, None)
}

/// Folding a scope into postfix form changes the outcome of no evaluation
/// against that scope, whatever the host answers.
pub proof fn lemma_fold_scope_keeps_outcome(
    rpn: Seq<ExprToken>,
    scope: &Scope,
    host: spec_fn(Request) -> AnswerView,
    stack: Seq<Number>,
    next: int,
    answer: Option<AnswerView>,
)
    requires
        0 <= next,
    ensures
        evaluate_from(spec_fold_scope(rpn, scope), scope, host, stack, next, answer)
            == evaluate_from(rpn, scope, host, stack, next, answer),
    decreases rpn.len() - next,
{
    let folded = spec_fold_scope(rpn, scope);
    lemma_fold_scope_keeps_runs(rpn, scope, stack, next);
    if let Some(AnswerView::Value(v)) = answer {
        lemma_fold_scope_keeps_runs(rpn, scope, stack.push(v), next);
        lemma_need_moves_on(rpn, scope, stack.push(v), next);
    }
    if let Some(AnswerView::Truth(b)) = answer {
        lemma_fold_scope_keeps_runs(rpn, scope, stack.push(spec_from_bool(b)), next);
        lemma_need_moves_on(rpn, scope, stack.push(spec_from_bool(b)), next);
    }
    lemma_need_moves_on(rpn, scope, stack, next);
    let p = spec_eval_rpn(rpn, scope, stack, next, answer);
    assert(spec_eval_rpn(folded, scope, stack, next, answer) == p);
    match p.step {
        StepView::Need(request) => {
            lemma_fold_scope_keeps_outcome(rpn, scope, host, p.stack, p.next, Some(host(request)));
        },
        _ => {},
    }
}

} // verus!
