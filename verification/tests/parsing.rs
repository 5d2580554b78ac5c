use synthizer::error::CompileError;
use synthizer::expr::{ExprToken, Expression};
use synthizer::functiondef::{DefaultValue, FunctionDef, Statement};
use synthizer::identifier::IdMap;
use synthizer::issue::IssueTracker;
use synthizer::lexer::lex;
use synthizer::parser::{match_paren, TokenStream};
use synthizer::scope::Scope;
use synthizer::tokens::{Bracket, Literal, Operator, SourcePos, Symbol, Token, PW};

struct Source {
    tokens: Vec<PW<Token>>,
    idmap: IdMap,
    scope: Scope,
    end: SourcePos,
}

fn source(src: &str, vars: &[&str]) -> Source {
    let mut issues = IssueTracker::new();
    let mut idmap = IdMap::new();
    let mut scope = Scope::new();
    for v in vars.iter() {
        let id = idmap.id(v.as_bytes());
        scope.declare_var(id);
    }
    let tokens = lex(&mut issues, src, &mut idmap).unwrap();
    assert!(!issues.has_errors());
    let end = SourcePos { line: 9, column: 9, index: src.len(), line_index: 0 };
    Source { tokens: tokens, idmap: idmap, scope: scope, end: end }
}

fn function(src: &str, vars: &[&str]) -> Result<FunctionDef, CompileError> {
    let s = source(src, vars);
    FunctionDef::parse(TokenStream::new(&s.tokens, s.end), &s.scope, &s.idmap)
}

fn statement(src: &str, vars: &[&str]) -> Result<Statement, CompileError> {
    let s = source(src, vars);
    Statement::parse(TokenStream::new(&s.tokens, s.end), &s.scope, &s.idmap)
}

fn failure(r: Result<FunctionDef, CompileError>) -> (String, usize, usize) {
    let e = r.unwrap_err();
    let pos = e.pos.unwrap();
    (e.msg, pos.line, pos.column)
}

fn statement_failure(r: Result<Statement, CompileError>) -> (String, usize, usize) {
    let e = r.unwrap_err();
    let pos = e.pos.unwrap();
    (e.msg, pos.line, pos.column)
}

fn rpn_of(s: &Statement) -> &Vec<ExprToken> {
    match s {
        Statement::Expr(e) => &e.rpn,
        _ => panic!("an expression was expected"),
    }
}

#[test]
fn a_duplicate_argument_is_an_error_at_its_second_occurrence() {
    assert_eq!(
        failure(function("[f a, a] a", &["a"])),
        ("argument a defined twice".to_string(), 1, 7)
    );
    assert_eq!(
        failure(function("[f a, bb = 1, a = 2] a", &["a"])),
        ("argument a defined twice".to_string(), 1, 15)
    );
}

#[test]
fn a_definition_with_arguments_and_defaults() {
    let def = function("[f a, b = -2.5, c=3] a + b", &["a", "b", "c"]).unwrap();
    assert_eq!(def.ident(), 3);
    assert_eq!(
        def.args(),
        &vec![
            (0, None),
            (1, Some(DefaultValue { negative: true, literal: Literal { offset: 11, len: 3 } })),
            (2, Some(DefaultValue { negative: false, literal: Literal { offset: 18, len: 1 } })),
        ]
    );
    assert_eq!(
        rpn_of(def.statement()),
        &vec![ExprToken::Var(0), ExprToken::Var(1), ExprToken::Op(Operator::Add)]
    );
}

#[test]
fn a_definition_without_arguments() {
    let def = function("[one] 1", &[]).unwrap();
    assert_eq!(def.ident(), 0);
    assert!(def.args().is_empty());
    assert_eq!(rpn_of(def.statement()), &vec![ExprToken::Const(Literal { offset: 6, len: 1 })]);
}

#[test]
fn a_definition_starts_with_a_bracket() {
    assert_eq!(failure(function("f a] a", &["a"])), ("expected `[`, got `Id(1)`".to_string(), 1, 1));
    assert_eq!(failure(function("", &[])), ("expected `[`, got EOF".to_string(), 9, 9));
    assert_eq!(failure(function("{f}", &[])), ("expected `[`, got `{`".to_string(), 1, 1));
}

#[test]
fn a_definition_needs_a_name() {
    assert_eq!(failure(function("[", &[])), ("expected function name, got EOF".to_string(), 9, 9));
    assert_eq!(
        failure(function("[ 2 ] 1", &[])),
        ("expected function name, got `number`".to_string(), 1, 3)
    );
    assert_eq!(
        failure(function("[+] 1", &[])),
        ("expected function name, got `Add`".to_string(), 1, 2)
    );
}

#[test]
fn arguments_are_names() {
    assert_eq!(
        failure(function("[f 1] 1", &[])),
        ("expected argument name, got `number`".to_string(), 1, 4)
    );
    assert_eq!(failure(function("[f", &[])), ("expected argument name, got EOF".to_string(), 9, 9));
    assert_eq!(
        failure(function("[f a,", &[])),
        ("expected argument name, got EOF".to_string(), 9, 9)
    );
}

#[test]
fn another_argument_follows_a_comma() {
    assert_eq!(
        failure(function("[f a, ] a", &["a"])),
        ("expected argument name, got `]`".to_string(), 1, 7)
    );
}

#[test]
fn arguments_are_separated() {
    assert_eq!(
        failure(function("[f a b] a", &["a"])),
        ("expected `=`, `,` or `]`, got `Id(2)`".to_string(), 1, 6)
    );
    assert_eq!(
        failure(function("[f a", &["a"])),
        ("expected `=`, `,` or `]`, got EOF".to_string(), 9, 9)
    );
    assert_eq!(
        failure(function("[f a = 1 2] a", &["a"])),
        ("expected `=`, `,` or `]`, got `number`".to_string(), 1, 10)
    );
}

#[test]
fn a_default_is_a_constant() {
    assert_eq!(
        failure(function("[f a = b] a", &["a"])),
        ("expected numerical constant, got `Id(2)`".to_string(), 1, 8)
    );
    assert_eq!(
        failure(function("[f a = - ] a", &["a"])),
        ("expected numerical constant, got `]`".to_string(), 1, 10)
    );
    assert_eq!(
        failure(function("[f a = + 1] a", &["a"])),
        ("expected numerical constant, got `Add`".to_string(), 1, 8)
    );
    assert_eq!(
        failure(function("[f a =", &["a"])),
        ("expected numerical constant, got EOF".to_string(), 9, 9)
    );
}

#[test]
fn a_definition_needs_a_body() {
    assert_eq!(failure(function("[f a]", &["a"])), ("expected block, got EOF".to_string(), 9, 9));
}

#[test]
fn the_body_is_parsed_against_the_scope() {
    assert_eq!(
        failure(function("[f a] a + b", &["a"])),
        ("variable `b` appears in expression but is not defined in scope".to_string(), 1, 11)
    );
}

#[test]
fn a_statement_without_braces_is_an_expression() {
    let s = statement("a * 2", &["a"]).unwrap();
    assert_eq!(
        rpn_of(&s),
        &vec![
            ExprToken::Var(0),
            ExprToken::Const(Literal { offset: 4, len: 1 }),
            ExprToken::Op(Operator::Mul),
        ]
    );
}

#[test]
fn an_empty_statement_is_an_empty_expression() {
    let e = statement("", &[]).unwrap_err();
    assert_eq!(e.msg, "empty expression in file");
    assert!(e.pos.is_none());
}

#[test]
fn a_block_of_entries() {
    let s = statement("{ + a; * 2 ? a > 1; ; - a ? a; }", &["a"]).unwrap();
    let entries = match s {
        Statement::Block(entries) => entries,
        _ => panic!("a block was expected"),
    };
    assert_eq!(entries.len(), 3);
    assert!(entries[0].0.is_none());
    assert_eq!(entries[0].1, Operator::Add);
    assert_eq!(rpn_of(&entries[0].2), &vec![ExprToken::Var(0)]);
    assert_eq!(entries[1].1, Operator::Mul);
    assert_eq!(rpn_of(&entries[1].2), &vec![ExprToken::Const(Literal { offset: 9, len: 1 })]);
    let guard: &Expression = entries[1].0.as_ref().unwrap();
    assert_eq!(
        guard.rpn,
        vec![
            ExprToken::Var(0),
            ExprToken::Const(Literal { offset: 17, len: 1 }),
            ExprToken::Op(Operator::Greater),
        ]
    );
    assert_eq!(guard.pos.column, 14);
    assert_eq!(entries[2].1, Operator::Sub);
    assert_eq!(entries[2].0.as_ref().unwrap().rpn, vec![ExprToken::Var(0)]);
}

#[test]
fn an_empty_block() {
    match statement("{}", &[]).unwrap() {
        Statement::Block(entries) => assert!(entries.is_empty()),
        _ => panic!("a block was expected"),
    }
    match statement("{ ; ; }", &[]).unwrap() {
        Statement::Block(entries) => assert!(entries.is_empty()),
        _ => panic!("a block was expected"),
    }
}

#[test]
fn what_follows_the_closing_brace_is_not_read() {
    match statement("{ + 1; } ] ) junk", &[]).unwrap() {
        Statement::Block(entries) => assert_eq!(entries.len(), 1),
        _ => panic!("a block was expected"),
    }
}

#[test]
fn a_nested_block_is_one_entry() {
    let s = statement("{ + { * a; / 2 ? a; }; - 1; }", &["a"]).unwrap();
    let entries = match s {
        Statement::Block(entries) => entries,
        _ => panic!("a block was expected"),
    };
    assert_eq!(entries.len(), 2);
    match &entries[0].2 {
        Statement::Block(inner) => {
            assert_eq!(inner.len(), 2);
            assert_eq!(inner[0].1, Operator::Mul);
            assert_eq!(inner[1].1, Operator::Div);
            assert!(inner[1].0.is_some());
        }
        _ => panic!("a nested block was expected"),
    }
    assert_eq!(entries[1].1, Operator::Sub);
}

#[test]
fn a_nested_block_may_have_a_guard() {
    let s = statement("{ + { * a; } ? a < 1; }", &["a"]).unwrap();
    let entries = match s {
        Statement::Block(entries) => entries,
        _ => panic!("a block was expected"),
    };
    assert_eq!(entries.len(), 1);
    assert!(entries[0].0.is_some());
    match &entries[0].2 {
        Statement::Block(inner) => assert_eq!(inner.len(), 1),
        _ => panic!("a nested block was expected"),
    }
}

#[test]
fn an_entry_starts_with_an_operator() {
    assert_eq!(
        statement_failure(statement("{ a; }", &["a"])),
        ("expected operator, `;` or `}`, got Id(0)".to_string(), 1, 3)
    );
    assert_eq!(
        statement_failure(statement("{ + a; 3; }", &["a"])),
        ("expected operator, `;` or `}`, got number".to_string(), 1, 8)
    );
    assert_eq!(
        statement_failure(statement("{ ( }", &[])),
        ("expected operator, `;` or `}`, got (".to_string(), 1, 3)
    );
}

#[test]
fn a_block_must_be_closed() {
    assert_eq!(
        statement_failure(statement("{ + a; ", &["a"])),
        ("expected operator, `;` or `}`, got EOF".to_string(), 9, 9)
    );
    assert_eq!(
        statement_failure(statement("{", &[])),
        ("expected operator, `;` or `}`, got EOF".to_string(), 9, 9)
    );
}

#[test]
fn an_entry_must_be_ended() {
    assert_eq!(
        statement_failure(statement("{ + a }", &["a"])),
        ("expected `;` or `?` to end expression, got EOF".to_string(), 9, 9)
    );
    assert_eq!(
        statement_failure(statement("{ + a ? a }", &["a"])),
        ("expected `;` to end condition, got EOF".to_string(), 9, 9)
    );
    assert_eq!(
        statement_failure(statement("{ + { * a; ;", &["a"])),
        ("expected `}`, got EOF".to_string(), 9, 9)
    );
    assert_eq!(
        statement_failure(statement("{ + { * a; ; }", &["a"])),
        ("expected `;` or `?` to end expression, got EOF".to_string(), 9, 9)
    );
}

#[test]
fn the_guard_is_parsed_before_the_body() {
    assert_eq!(
        statement_failure(statement("{ + x ? y; }", &[])),
        ("variable `y` appears in expression but is not defined in scope".to_string(), 1, 9)
    );
    assert_eq!(
        statement_failure(statement("{ + x ? 1; }", &[])),
        ("variable `x` appears in expression but is not defined in scope".to_string(), 1, 5)
    );
}

#[test]
fn an_entry_without_body_is_an_empty_expression() {
    let e = statement("{ + ; }", &[]).unwrap_err();
    assert_eq!(e.msg, "empty expression in file");
    let e = statement("{ + 1 ? ; }", &[]).unwrap_err();
    assert_eq!(e.msg, "empty expression in file");
}

#[test]
fn a_definition_with_a_block_body() {
    let def = function("[osc t, f = 440] { + t * f; * 0.5 ? t > 1; }", &["t", "f"]).unwrap();
    assert_eq!(def.args().len(), 2);
    match def.statement() {
        Statement::Block(entries) => assert_eq!(entries.len(), 2),
        _ => panic!("a block was expected"),
    }
}

#[test]
fn a_definition_is_built_step_by_step() {
    let mut def = FunctionDef::new();
    assert!(def.args().is_empty());
    assert!(def.ident.is_none());
    assert!(def.statement.is_none());
    def.set_ident(5);
    assert_eq!(def.ident(), 5);
    let s = statement("1", &[]).unwrap();
    def.set_statement(s);
    assert_eq!(rpn_of(def.statement()).len(), 1);
}

#[test]
fn a_stream_is_read_from_the_front() {
    let s = source("a + ( b )", &[]);
    let mut stream = TokenStream::new(&s.tokens, s.end);
    assert!(!stream.is_empty());
    assert_eq!(stream.pos(), 0);
    assert_eq!(stream.peek(1).unwrap().token, Token::Operator(Operator::Add));
    assert_eq!(stream.next().unwrap().token, Token::Ident(0));
    assert_eq!(stream.pos(), 1);
    assert_eq!(stream.peek(0).unwrap().token, Token::Operator(Operator::Add));
    assert!(stream.peek(4).is_none());
    let inner = stream.slice(3, 4);
    assert_eq!(inner.remaining().len(), 1);
    assert_eq!(inner.peek(0).unwrap().token, Token::Ident(1));
    assert!(inner.peek(1).is_none());
    assert_eq!(inner.end_source_pos(), s.end);
    let mut count = 0;
    while stream.next().is_some() {
        count += 1;
    }
    assert_eq!(count, 4);
    assert!(stream.is_empty());
    assert!(stream.next().is_none());
    assert_eq!(stream.pos(), 5);
}

#[test]
fn a_group_is_stepped_over() {
    let s = source("{ a { b } c } d", &[]);
    let open = Token::Symbol(Symbol::LeftBracket(Bracket::Curly));
    let close = Token::Symbol(Symbol::RightBracket(Bracket::Curly));
    let stream = TokenStream::new(&s.tokens, s.end);
    let after = match_paren(stream, open, close).unwrap();
    assert_eq!(after.pos(), 7);
    let inner = match_paren(stream.slice(2, 8), open, close).unwrap();
    assert_eq!(inner.pos(), 5);
    let e = match_paren(stream.slice(0, 6), open, close).unwrap_err();
    assert_eq!(e.msg, "expected `}`, got EOF");
    assert_eq!(e.pos, Some(s.end));
}
