use synthizer::error::CompileError;
use synthizer::expr::{
    eval_rpn, shunting_yard, to_expr_tokens, Answer, Evaluation, ExprToken, Expression, FnCall,
    Request, Step,
};
use synthizer::identifier::IdMap;
use synthizer::issue::IssueTracker;
use synthizer::lexer::lex;
use synthizer::number::{from_bool, is_truthy, negate, Number, FALSE_BITS, TRUE_BITS};
use synthizer::scope::Scope;
use synthizer::tokens::{Literal, Operator, Token, PW};

fn num(v: f32) -> Number {
    Number { bits: v.to_bits() }
}

fn val(n: Number) -> f32 {
    f32::from_bits(n.bits)
}

fn arith(op: Operator, l: f32, r: f32) -> f32 {
    match op {
        Operator::Add => l + r,
        Operator::Sub => l - r,
        Operator::Mul => l * r,
        Operator::Div => l / r,
        Operator::Exp => l.powf(r),
        Operator::Mod => {
            let c = (l / r).abs().fract() * r.abs();
            if l > 0.0 {
                c
            } else {
                -c
            }
        }
        _ => panic!("not an arithmetic operator"),
    }
}

fn compare(op: Operator, l: f32, r: f32) -> bool {
    match op {
        Operator::Less => l < r,
        Operator::Greater => l > r,
        Operator::LessEqual => l <= r,
        Operator::GreaterEqual => l >= r,
        Operator::Equ => l == r,
        Operator::NotEqu => l != r,
        Operator::ApproxEqu => (l - r).abs() < 0.0001,
        _ => panic!("not a comparison"),
    }
}

fn answer(src: &str, request: Request) -> Answer {
    match request {
        Request::Literal(lit) => {
            Answer::Value(num(src[lit.offset..lit.offset + lit.len].parse::<f32>().unwrap()))
        }
        Request::Arith { op, left, right } => Answer::Value(num(arith(op, val(left), val(right)))),
        Request::Compare { op, left, right } => Answer::Truth(compare(op, val(left), val(right))),
        Request::Call(call) => {
            if call.func == 0 {
                Answer::Value(num(10.0))
            } else {
                Answer::Failure(CompileError::new_static("call failed"))
            }
        }
    }
}

fn run(src: &str, rpn: &Vec<ExprToken>, scope: &Scope) -> Result<f32, String> {
    let mut state = Evaluation::new();
    let mut reply = None;
    loop {
        match eval_rpn(rpn, scope, &mut state, reply) {
            Step::Need(request) => reply = Some(answer(src, request)),
            Step::Done(v) => return Ok(val(v)),
            Step::Failed(e) => return Err(e.to_text()),
        }
    }
}

fn tokens_of(src: &str, idmap: &mut IdMap) -> Vec<PW<Token>> {
    let mut issues = IssueTracker::new();
    let tokens = lex(&mut issues, src, idmap).unwrap();
    assert!(!issues.has_errors());
    tokens
}

fn compile(src: &str, scope: &Scope, idmap: &mut IdMap) -> Result<Expression, CompileError> {
    let tokens = tokens_of(src, idmap);
    Expression::new(&tokens, scope, idmap)
}

fn evaluate(src: &str) -> Result<f32, String> {
    let mut idmap = IdMap::new();
    let scope = Scope::new();
    match compile(src, &scope, &mut idmap) {
        Ok(e) => run(src, &e.rpn, &scope),
        Err(e) => Err(e.to_text()),
    }
}

#[test]
fn multiplication_binds_tighter_than_addition() {
    assert_eq!(evaluate("2 + 3 * 4"), Ok(14.0));
}

#[test]
fn parentheses_group() {
    assert_eq!(evaluate("(2 + 3) * 4"), Ok(20.0));
}

#[test]
fn exponent_groups_to_the_right() {
    assert_eq!(evaluate("2 ^ 3 ^ 2"), Ok(512.0));
    assert_ne!(evaluate("2 ^ 3 ^ 2"), Ok(64.0));
}

#[test]
fn subtraction_and_division_group_to_the_left() {
    assert_eq!(evaluate("10 - 4 - 3"), Ok(3.0));
    assert_eq!(evaluate("64 / 4 / 2"), Ok(8.0));
}

#[test]
fn leading_minus_is_a_negation() {
    assert_eq!(evaluate("-3 + 4"), Ok(1.0));
}

#[test]
fn minus_behind_an_operator_is_a_negation() {
    assert_eq!(evaluate("2 * -3"), Ok(-6.0));
}

#[test]
fn minus_before_a_group_is_a_negation() {
    assert_eq!(evaluate("-(2+3)"), Ok(-5.0));
}

#[test]
fn minus_behind_an_operand_is_a_subtraction() {
    assert_eq!(evaluate("(2) - 3"), Ok(-1.0));
    assert_eq!(evaluate("5 - 3"), Ok(2.0));
}

#[test]
fn unclosed_group_is_skewed_left() {
    assert_eq!(evaluate("(1 + 2"), Err("mismatched parens: skewed left".to_string()));
}

#[test]
fn unopened_group_is_skewed_right() {
    assert_eq!(evaluate("1 + 2)"), Err("mismatched parens: skewed right".to_string()));
}

#[test]
fn skewed_right_is_met_before_skewed_left() {
    assert_eq!(evaluate("1 + 2) * (3"), Err("mismatched parens: skewed right".to_string()));
}

#[test]
fn postfix_form_of_a_sum_of_products() {
    let two = ExprToken::Const(Literal { offset: 0, len: 1 });
    let three = ExprToken::Const(Literal { offset: 4, len: 1 });
    let four = ExprToken::Const(Literal { offset: 8, len: 1 });
    let infix = vec![two, ExprToken::Op(Operator::Add), three, ExprToken::Op(Operator::Mul), four];
    let postfix = shunting_yard(infix).unwrap();
    assert_eq!(
        postfix,
        vec![two, three, four, ExprToken::Op(Operator::Mul), ExprToken::Op(Operator::Add)]
    );
}

#[test]
fn postfix_form_drops_parentheses() {
    let a = ExprToken::Var(0);
    let b = ExprToken::Var(1);
    let c = ExprToken::Var(2);
    let infix = vec![
        ExprToken::LParen,
        a,
        ExprToken::Op(Operator::Add),
        b,
        ExprToken::RParen,
        ExprToken::Op(Operator::Mul),
        c,
    ];
    let postfix = shunting_yard(infix).unwrap();
    assert_eq!(postfix, vec![a, b, ExprToken::Op(Operator::Add), c, ExprToken::Op(Operator::Mul)]);
}

#[test]
fn empty_span_is_an_error_without_position() {
    let idmap = IdMap::new();
    let scope = Scope::new();
    let tokens: Vec<PW<Token>> = Vec::new();
    let e = to_expr_tokens(&tokens, &scope, &idmap).unwrap_err();
    assert_eq!(e.msg, "empty expression in file");
    assert!(e.pos.is_none());
}

#[test]
fn undeclared_variable_is_named_in_the_error() {
    let mut idmap = IdMap::new();
    let scope = Scope::new();
    let e = compile("1 + speed", &scope, &mut idmap).unwrap_err();
    assert_eq!(e.msg, "variable `speed` appears in expression but is not defined in scope");
    let pos = e.pos.unwrap();
    assert_eq!((pos.line, pos.column, pos.index), (1, 5, 4));
}

#[test]
fn undeclared_function_is_named_in_the_error() {
    let mut idmap = IdMap::new();
    let scope = Scope::new();
    let e = compile("2 * gain(1)", &scope, &mut idmap).unwrap_err();
    assert_eq!(e.msg, "function `gain` appears in expression but is not defined in scope");
    assert_eq!(e.pos.unwrap().column, 5);
}

#[test]
fn a_function_name_without_call_is_a_variable() {
    let mut idmap = IdMap::new();
    let mut scope = Scope::new();
    let gain = idmap.id(b"gain");
    scope.declare_func(gain);
    let e = compile("gain + 1", &scope, &mut idmap).unwrap_err();
    assert_eq!(e.msg, "variable `gain` appears in expression but is not defined in scope");
}

#[test]
fn unfinished_call_is_an_error_at_the_name() {
    let mut idmap = IdMap::new();
    let mut scope = Scope::new();
    let gain = idmap.id(b"gain");
    scope.declare_func(gain);
    let e = compile("1 + gain((2)", &scope, &mut idmap).unwrap_err();
    assert_eq!(e.msg, "unexpected end of file in function call");
    assert_eq!(e.pos.unwrap().column, 5);
}

#[test]
fn a_call_becomes_one_token() {
    let mut idmap = IdMap::new();
    let mut scope = Scope::new();
    let gain = idmap.id(b"gain");
    let func = scope.declare_func(gain);
    let src = "gain((1), 2) + 3";
    let tokens = tokens_of(src, &mut idmap);
    let out = to_expr_tokens(&tokens, &scope, &idmap).unwrap();
    assert_eq!(
        out,
        vec![
            ExprToken::Fn(FnCall { func: func, ident: gain, first: 0, last: 7 }),
            ExprToken::Op(Operator::Add),
            ExprToken::Const(Literal { offset: 15, len: 1 }),
        ]
    );
    let e = Expression::new(&tokens, &scope, &idmap).unwrap();
    assert_eq!(run(src, &e.rpn, &scope), Ok(13.0));
}

#[test]
fn a_failed_call_ends_the_evaluation() {
    let rpn = vec![ExprToken::Fn(FnCall { func: 1, ident: 0, first: 0, last: 2 })];
    let scope = Scope::new();
    assert_eq!(run("", &rpn, &scope), Err("call failed".to_string()));
}

#[test]
fn a_failed_call_is_reported_with_its_position_as_text() {
    let rpn = vec![ExprToken::Fn(FnCall { func: 1, ident: 0, first: 0, last: 2 })];
    let scope = Scope::new();
    let mut state = Evaluation::new();
    match eval_rpn(&rpn, &scope, &mut state, None) {
        Step::Need(Request::Call(call)) => assert_eq!(call.func, 1),
        _ => panic!("a call was expected"),
    }
    let mut pos = synthizer::tokens::SourcePos::new();
    pos.add_line();
    pos.add_chars(6);
    let failure = CompileError::new_static("boom").with_pos(pos);
    match eval_rpn(&rpn, &scope, &mut state, Some(Answer::Failure(failure))) {
        Step::Failed(e) => {
            assert_eq!(e.msg, "2:7 :: boom");
            assert!(e.pos.is_none());
        }
        _ => panic!("a failure was expected"),
    }
}

#[test]
fn other_symbols_have_no_place_in_an_expression() {
    let mut idmap = IdMap::new();
    let scope = Scope::new();
    let e = compile("1 ; 2", &scope, &mut idmap).unwrap_err();
    assert_eq!(e.msg, "unexpected token in expression `;`");
    assert_eq!(e.pos.unwrap().column, 3);
    let e = compile("1 + [", &scope, &mut idmap).unwrap_err();
    assert_eq!(e.msg, "unexpected paren type in expression: `[`");
    assert_eq!(e.pos.unwrap().column, 5);
    let e = compile("}", &scope, &mut idmap).unwrap_err();
    assert_eq!(e.msg, "unexpected paren type in expression: `}`");
}

#[test]
fn postfix_with_no_value_is_an_error() {
    let scope = Scope::new();
    assert_eq!(run("", &Vec::new(), &scope), Err("zero values in expression".to_string()));
}

#[test]
fn postfix_with_too_many_values_is_an_error() {
    let scope = Scope::new();
    let rpn = vec![ExprToken::Value(num(1.0)), ExprToken::Value(num(2.0))];
    assert_eq!(run("", &rpn, &scope), Err("too many values in expression".to_string()));
}

#[test]
fn postfix_with_too_few_operands_is_an_error() {
    let scope = Scope::new();
    let rpn = vec![ExprToken::Value(num(1.0)), ExprToken::Op(Operator::Add)];
    assert_eq!(
        run("", &rpn, &scope),
        Err("invalid expression: not enough args for operator Add".to_string())
    );
    let rpn = vec![ExprToken::Op(Operator::Neg)];
    assert_eq!(
        run("", &rpn, &scope),
        Err("invalid expression: not enough args for operator Neg".to_string())
    );
}

#[test]
fn a_failure_leaves_the_state_at_the_failing_token() {
    let scope = Scope::new();
    let rpn = vec![ExprToken::Value(num(1.0)), ExprToken::Op(Operator::Mul)];
    let mut state = Evaluation::new();
    match eval_rpn(&rpn, &scope, &mut state, None) {
        Step::Failed(_) => {}
        _ => panic!("a failure was expected"),
    }
    assert_eq!(state.next, 1);
    assert_eq!(state.stack, vec![num(1.0)]);
}

#[test]
fn parenthesis_in_postfix_is_an_error() {
    let scope = Scope::new();
    let rpn = vec![ExprToken::Value(num(1.0)), ExprToken::LParen];
    assert_eq!(
        run("", &rpn, &scope),
        Err("unexpected token in expression: `LParen`".to_string())
    );
    let rpn = vec![ExprToken::RParen];
    assert_eq!(
        run("", &rpn, &scope),
        Err("unexpected token in expression: `RParen`".to_string())
    );
}

#[test]
fn unbound_variable_is_an_error_at_evaluation() {
    let mut scope = Scope::new();
    let slot = scope.declare_var(7);
    let rpn = vec![ExprToken::Var(slot)];
    assert_eq!(
        run("", &rpn, &scope),
        Err("Attempted to access a nonexistent variable (id=0)".to_string())
    );
    let rpn = vec![ExprToken::Var(12)];
    assert_eq!(
        run("", &rpn, &scope),
        Err("Attempted to access a nonexistent variable (id=12)".to_string())
    );
}

#[test]
fn operands_are_taken_in_source_order() {
    assert_eq!(evaluate("7 - 2"), Ok(5.0));
    assert_eq!(evaluate("8 / 2"), Ok(4.0));
    assert_eq!(evaluate("2 ^ 10"), Ok(1024.0));
    let scope = Scope::new();
    let rpn = vec![
        ExprToken::Value(num(7.0)),
        ExprToken::Value(num(2.0)),
        ExprToken::Op(Operator::Sub),
    ];
    let mut state = Evaluation::new();
    match eval_rpn(&rpn, &scope, &mut state, None) {
        Step::Need(Request::Arith { op, left, right }) => {
            assert_eq!(op, Operator::Sub);
            assert_eq!(val(left), 7.0);
            assert_eq!(val(right), 2.0);
        }
        _ => panic!("a request was expected"),
    }
    assert!(state.stack.is_empty());
    assert_eq!(state.next, 3);
}

#[test]
fn modulo_takes_the_sign_of_the_left_operand() {
    assert_eq!(evaluate("7.5 % 2"), Ok(1.5));
    assert_eq!(evaluate("-7.5 % 2"), Ok(-1.5));
    assert_eq!(evaluate("7.5 % -2"), Ok(1.5));
    assert_eq!(evaluate("9 % 4"), Ok(1.0));
}

#[test]
fn equality_operators_ask_the_host_for_a_truth_value() {
    let scope = Scope::new();
    let rpn = vec![
        ExprToken::Value(num(1.0)),
        ExprToken::Value(num(1.00001)),
        ExprToken::Op(Operator::ApproxEqu),
    ];
    assert_eq!(run("", &rpn, &scope), Ok(1.0));
    let rpn = vec![
        ExprToken::Value(num(1.0)),
        ExprToken::Value(num(1.001)),
        ExprToken::Op(Operator::ApproxEqu),
    ];
    assert_eq!(run("", &rpn, &scope), Ok(-1.0));
    let rpn = vec![
        ExprToken::Value(num(2.0)),
        ExprToken::Value(num(2.0)),
        ExprToken::Op(Operator::Equ),
    ];
    let mut state = Evaluation::new();
    match eval_rpn(&rpn, &scope, &mut state, None) {
        Step::Need(Request::Compare { op, left, right }) => {
            assert_eq!(op, Operator::Equ);
            assert_eq!((val(left), val(right)), (2.0, 2.0));
        }
        _ => panic!("a comparison was expected"),
    }
    match eval_rpn(&rpn, &scope, &mut state, Some(Answer::Truth(true))) {
        Step::Done(v) => assert_eq!(v.bits, TRUE_BITS),
        _ => panic!("a value was expected"),
    }
}

#[test]
fn comparisons_give_the_sentinels() {
    assert_eq!(evaluate("1 < 2"), Ok(1.0));
    assert_eq!(evaluate("2 < 1"), Ok(-1.0));
    assert_eq!(evaluate("2 >= 2"), Ok(1.0));
    assert_eq!(evaluate("2 <= 1"), Ok(-1.0));
    assert_eq!(evaluate("3 > 1"), Ok(1.0));
    assert_eq!(evaluate("3 != 3"), Ok(-1.0));
    assert_eq!(evaluate("3 != 4"), Ok(1.0));
}

#[test]
fn logic_on_comparisons_follows_the_truth_tables() {
    let truth = [(false, "2 < 1"), (true, "1 < 2")];
    for (a, sa) in truth.iter() {
        for (b, sb) in truth.iter() {
            let and = format!("({}) && ({})", sa, sb);
            let or = format!("({}) || ({})", sa, sb);
            let xor = format!("({}) ^^ ({})", sa, sb);
            assert_eq!(evaluate(&and), Ok(val(from_bool(*a && *b))));
            assert_eq!(evaluate(&or), Ok(val(from_bool(*a || *b))));
            assert_eq!(evaluate(&xor), Ok(val(from_bool(*a != *b))));
        }
        let not = format!("!({})", sa);
        assert_eq!(evaluate(&not), Ok(val(from_bool(!*a))));
    }
}

#[test]
fn not_reads_its_operand_as_a_truth_value() {
    assert_eq!(evaluate("!5"), Ok(-1.0));
    assert_eq!(evaluate("!0"), Ok(1.0));
    assert_eq!(evaluate("!(0 - 2)"), Ok(1.0));
}

#[test]
fn logic_is_computed_without_the_host() {
    let scope = Scope::new();
    let rpn = vec![
        ExprToken::Value(num(3.0)),
        ExprToken::Value(num(-3.0)),
        ExprToken::Op(Operator::Or),
        ExprToken::Op(Operator::Not),
        ExprToken::Op(Operator::Neg),
    ];
    let mut state = Evaluation::new();
    match eval_rpn(&rpn, &scope, &mut state, None) {
        Step::Done(v) => assert_eq!(val(v), 1.0),
        _ => panic!("a value was expected"),
    }
}

#[test]
fn sentinels_are_one_and_minus_one() {
    assert_eq!(TRUE_BITS, 1.0f32.to_bits());
    assert_eq!(FALSE_BITS, (-1.0f32).to_bits());
    assert_eq!(val(from_bool(true)), 1.0);
    assert_eq!(val(from_bool(false)), -1.0);
    assert!(is_truthy(from_bool(true)));
    assert!(!is_truthy(from_bool(false)));
}

#[test]
fn truth_is_greater_than_zero() {
    let samples = [
        0.0f32,
        -0.0,
        1.0,
        -1.0,
        0.5,
        1e-45,
        -1e-45,
        f32::MIN_POSITIVE,
        f32::MAX,
        f32::MIN,
        f32::INFINITY,
        f32::NEG_INFINITY,
        f32::NAN,
        -f32::NAN,
        0.0001,
    ];
    for v in samples.iter() {
        assert_eq!(is_truthy(num(*v)), *v > 0.0, "{}", v);
    }
    let mut bits: u32 = 0;
    loop {
        assert_eq!(is_truthy(Number { bits: bits }), f32::from_bits(bits) > 0.0);
        match bits.checked_add(0x0001_0001) {
            Some(next) => bits = next,
            None => break,
        }
    }
}

#[test]
fn negation_flips_the_sign() {
    let samples = [0.0f32, -0.0, 1.0, -2.5, f32::INFINITY, f32::NAN, 1e-45, f32::MAX];
    for v in samples.iter() {
        assert_eq!(negate(num(*v)).bits, (-*v).to_bits());
    }
    assert_eq!(negate(negate(num(3.25))), num(3.25));
}

#[test]
fn folding_replaces_bound_variables_only() {
    let mut idmap = IdMap::new();
    let mut scope = Scope::new();
    let a = idmap.id(b"a");
    let b = idmap.id(b"b");
    let sa = scope.declare_var(a);
    let sb = scope.declare_var(b);
    assert!(scope.set_var(sa, num(4.0)));
    let mut e = compile("a * b", &scope, &mut idmap).unwrap();
    assert_eq!(e.rpn, vec![ExprToken::Var(sa), ExprToken::Var(sb), ExprToken::Op(Operator::Mul)]);
    let pos = e.pos;
    e.fold_scope(&scope);
    assert_eq!(
        e.rpn,
        vec![ExprToken::Value(num(4.0)), ExprToken::Var(sb), ExprToken::Op(Operator::Mul)]
    );
    assert_eq!(e.pos, pos);
}

#[test]
fn folding_twice_is_folding_once() {
    let mut idmap = IdMap::new();
    let mut scope = Scope::new();
    let a = idmap.id(b"a");
    let b = idmap.id(b"b");
    let sa = scope.declare_var(a);
    scope.declare_var(b);
    scope.set_var(sa, num(4.0));
    let mut e = compile("a * b + a", &scope, &mut idmap).unwrap();
    e.fold_scope(&scope);
    let once = e.rpn.clone();
    e.fold_scope(&scope);
    assert_eq!(e.rpn, once);
}

#[test]
fn folding_does_not_change_the_value() {
    let mut idmap = IdMap::new();
    let mut scope = Scope::new();
    let a = idmap.id(b"a");
    let b = idmap.id(b"b");
    let sa = scope.declare_var(a);
    let sb = scope.declare_var(b);
    scope.set_var(sa, num(4.0));
    scope.set_var(sb, num(0.5));
    let src = "a * b + a";
    let mut e = compile(src, &scope, &mut idmap).unwrap();
    assert_eq!(run(src, &e.rpn, &scope), Ok(6.0));
    e.fold_scope(&scope);
    assert_eq!(run(src, &e.rpn, &scope), Ok(6.0));
    assert_eq!(e.eval_all(src), Ok(6.0));
}

trait EvalAll {
    fn eval_all(&self, src: &str) -> Result<f32, String>;
}

impl EvalAll for Expression {
    fn eval_all(&self, src: &str) -> Result<f32, String> {
        let scope = Scope::new();
        let mut state = Evaluation::new();
        let mut reply = None;
        loop {
            match self.eval(&scope, &mut state, reply) {
                Step::Need(request) => reply = Some(answer(src, request)),
                Step::Done(v) => return Ok(val(v)),
                Step::Failed(e) => return Err(e.to_text()),
            }
        }
    }
}

#[test]
fn the_expression_starts_at_its_first_token() {
    let mut idmap = IdMap::new();
    let scope = Scope::new();
    let e = compile("   (1 + 2)", &scope, &mut idmap).unwrap();
    assert_eq!((e.pos.line, e.pos.column, e.pos.index), (1, 4, 3));
}

#[test]
fn constants_are_read_by_the_host() {
    assert_eq!(evaluate("1.5e1"), Ok(15.0));
    assert_eq!(evaluate("2.5e-1 * 4"), Ok(1.0));
    assert_eq!(evaluate("3."), Ok(3.0));
}
