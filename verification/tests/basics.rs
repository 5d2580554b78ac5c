use synthizer::ast::{
    Argument, Assignment, CallType, Conditional, Expression, Function, FunctionCall, FunctionDef,
    Infix, Item, Prefix, Statement,
};
use synthizer::error::CompileError;
use synthizer::identifier::{bytes_equal, IdMap};
use synthizer::issue::{IssueTracker, Level};
use synthizer::scope::{Scope, Variable};
use synthizer::tokens::{
    Associativity, Literal, Node, Operator, PWImpl, SourcePos, ToPW, Token, PW,
};
use synthizer::number::Number;

fn at(line: usize, column: usize) -> SourcePos {
    SourcePos { line: line, column: column, index: column - 1, line_index: 0 }
}

#[test]
fn a_position_starts_at_line_one_column_one() {
    let pos = SourcePos::new();
    assert_eq!((pos.line, pos.column, pos.index, pos.line_index), (1, 1, 0, 0));
}

#[test]
fn a_position_moves_with_bytes_and_lines() {
    let mut pos = SourcePos::new();
    pos.add_chars(4);
    assert_eq!((pos.line, pos.column, pos.index, pos.line_index), (1, 5, 4, 0));
    pos.add_line();
    assert_eq!((pos.line, pos.column, pos.index, pos.line_index), (2, 1, 5, 5));
    pos.add_chars(0);
    assert_eq!((pos.line, pos.column, pos.index, pos.line_index), (2, 1, 5, 5));
    pos.add_chars(2);
    pos.add_line();
    assert_eq!((pos.line, pos.column, pos.index, pos.line_index), (3, 1, 8, 8));
    assert_eq!(pos.to_text(), "3:1");
}

#[test]
fn precedence_tiers() {
    let tiers = [
        vec![Operator::And, Operator::Or, Operator::Xor],
        vec![Operator::Equ, Operator::NotEqu, Operator::ApproxEqu],
        vec![Operator::Less, Operator::Greater, Operator::LessEqual, Operator::GreaterEqual],
        vec![Operator::Add, Operator::Sub],
        vec![Operator::Mul, Operator::Div, Operator::Mod],
        vec![Operator::Neg, Operator::Not, Operator::Exp],
    ];
    let mut expected = 10;
    for tier in tiers.iter() {
        for op in tier.iter() {
            assert_eq!(op.precedence(), expected);
        }
        expected += 10;
    }
}

#[test]
fn only_the_exponent_groups_to_the_right() {
    assert_eq!(Operator::Exp.associativity(), Associativity::Right);
    assert_eq!(Operator::Add.associativity(), Associativity::Left);
    assert_eq!(Operator::Neg.associativity(), Associativity::Left);
    assert_eq!(Operator::And.associativity(), Associativity::Left);
}

#[test]
fn only_negation_and_not_take_one_operand() {
    assert_eq!(Operator::Neg.num_args(), 1);
    assert_eq!(Operator::Not.num_args(), 1);
    assert_eq!(Operator::Sub.num_args(), 2);
    assert_eq!(Operator::Exp.num_args(), 2);
    assert_eq!(Operator::Xor.num_args(), 2);
}

#[test]
fn tokens_as_text() {
    assert_eq!(Token::Ident(12).to_text(), "Id(12)");
    assert_eq!(Token::Ident(0).to_text(), "Id(0)");
    assert_eq!(Token::Operator(Operator::GreaterEqual).to_text(), "GreaterEqual");
    assert_eq!(Token::Const(Literal { offset: 0, len: 1 }).to_text(), "number");
    assert_eq!(Token::Symbol(synthizer::tokens::Symbol::Else).to_text(), "else");
    assert_eq!(Operator::ApproxEqu.name(), "ApproxEqu");
}

#[test]
fn a_value_is_paired_with_its_position() {
    let t = Token::Ident(3).pw(at(2, 5));
    assert_eq!(t.token, Token::Ident(3));
    assert_eq!(t.pos, at(2, 5));
    assert_eq!(t.token(), Token::Ident(3));
    assert_eq!(t.pos(), at(2, 5));
    let n: PW<usize> = 7usize.pw(at(1, 1));
    assert_eq!(n.token, 7);
    let some = Some(t);
    assert_eq!(some.token(), Some(Token::Ident(3)));
    assert_eq!(some.pos(), Some(at(2, 5)));
    let none: Option<PW<Token>> = None;
    assert_eq!(none.token(), None);
    assert_eq!(none.pos(), None);
}

#[test]
fn an_error_carries_message_and_position() {
    let e = CompileError::new("went wrong".to_string());
    assert_eq!(e.msg, "went wrong");
    assert!(e.pos.is_none());
    assert_eq!(e.to_text(), "went wrong");
    let e = CompileError::new_static("static").with_pos(at(12, 34));
    assert_eq!(e.msg, "static");
    assert_eq!(e.pos, Some(at(12, 34)));
    assert_eq!(e.to_text(), "12:34 :: static");
    let e = e.with_pos(at(100, 2000));
    assert_eq!(e.to_text(), "100:2000 :: static");
}

#[test]
fn issues_are_kept_in_order() {
    let mut issues = IssueTracker::new();
    assert!(!issues.has_errors());
    assert!(!issues.has_warnings());
    issues.new_issue(at(1, 2), Level::Warning, "first");
    assert!(!issues.has_errors());
    assert!(issues.has_warnings());
    issues.new_issue(at(3, 4), Level::Error, "second");
    issues.new_error(CompileError::new_static("third"));
    issues.new_error(CompileError::new_static("fourth").with_pos(at(5, 6)));
    assert!(issues.has_errors());
    assert_eq!(issues.len(), 4);
    assert_eq!(issues.get(0).unwrap().msg, "first");
    assert_eq!(issues.get(0).unwrap().level, Level::Warning);
    assert_eq!(issues.get(1).unwrap().msg, "second");
    assert_eq!(issues.get(1).unwrap().pos, Some(at(3, 4)));
    assert_eq!(issues.get(2).unwrap().msg, "third");
    assert_eq!(issues.get(2).unwrap().level, Level::Error);
    assert!(issues.get(2).unwrap().pos.is_none());
    assert_eq!(issues.get(3).unwrap().pos, Some(at(5, 6)));
    assert!(issues.get(4).is_none());
    issues.clear();
    assert_eq!(issues.len(), 0);
    assert!(!issues.has_errors());
    assert!(!issues.has_warnings());
}

#[test]
fn names_are_interned() {
    let mut idmap = IdMap::new();
    assert_eq!(idmap.id(b"alpha"), 0);
    assert_eq!(idmap.id(b"beta"), 1);
    assert_eq!(idmap.id(b"alpha"), 0);
    assert_eq!(idmap.id(b"alph"), 2);
    assert_eq!(idmap.id(b""), 3);
    assert_eq!(idmap.id(b"beta"), 1);
    assert_eq!(idmap.len(), 4);
    assert_eq!(idmap.lookup(b"beta"), Some(1));
    assert_eq!(idmap.lookup(b"gamma"), None);
    assert_eq!(idmap.name(2).unwrap().as_slice(), b"alph");
    assert!(idmap.name(4).is_none());
    let mut s = String::from("<");
    idmap.append_name(&mut s, 1);
    idmap.append_name(&mut s, 9);
    assert_eq!(s, "<beta#9");
}

#[test]
fn byte_strings_are_compared() {
    assert!(bytes_equal(b"", b""));
    assert!(bytes_equal(b"abc", b"abc"));
    assert!(!bytes_equal(b"abc", b"abd"));
    assert!(!bytes_equal(b"abc", b"ab"));
    assert!(!bytes_equal(b"", b"a"));
}

#[test]
fn a_scope_keeps_variables_in_slots() {
    let mut scope = Scope::new();
    assert_eq!(scope.var_id(4), None);
    assert_eq!(scope.declare_var(4), 0);
    assert_eq!(scope.declare_var(9), 1);
    assert_eq!(scope.declare_var(4), 0);
    assert_eq!(scope.var_id(9), Some(1));
    assert_eq!(scope.get_var(1), None);
    assert!(scope.set_var(1, Number { bits: 7 }));
    assert_eq!(scope.get_var(1), Some(Number { bits: 7 }));
    assert_eq!(scope.get_var(0), None);
    assert!(!scope.set_var(2, Number { bits: 8 }));
    assert_eq!(scope.get_var(2), None);
    assert_eq!(
        scope.vars,
        vec![
            Variable { ident: 4, value: None },
            Variable { ident: 9, value: Some(Number { bits: 7 }) },
        ]
    );
}

#[test]
fn a_scope_knows_its_functions() {
    let mut scope = Scope::new();
    assert_eq!(scope.func_id(1), None);
    assert_eq!(scope.declare_func(6), 0);
    assert_eq!(scope.declare_func(1), 1);
    assert_eq!(scope.declare_func(6), 0);
    assert_eq!(scope.func_id(1), Some(1));
    assert_eq!(scope.func_id(6), Some(0));
    assert_eq!(scope.var_id(6), None);
}

fn constant(column: usize) -> Expression {
    Expression::Constant(Node(Literal { offset: column - 1, len: 1 }, at(1, column)))
}

#[test]
fn every_expression_has_its_position() {
    assert_eq!(constant(3).pos(), at(1, 3));
    assert_eq!(Expression::Boolean(Node(true, at(2, 2))).pos(), at(2, 2));
    assert_eq!(Expression::Variable(Node(5, at(2, 3))).pos(), at(2, 3));
    let infix = Infix { op: Node(Operator::Add, at(1, 3)), left: constant(1), right: constant(5) };
    assert_eq!(infix.op(), Operator::Add);
    assert_eq!(infix.op_pos(), at(1, 3));
    assert_eq!(infix.left_pos(), at(1, 1));
    assert_eq!(infix.right_pos(), at(1, 5));
    assert_eq!(infix.left().pos(), at(1, 1));
    assert_eq!(infix.right().pos(), at(1, 5));
    assert_eq!(Expression::Infix(Box::new(Node(infix, at(1, 1)))).pos(), at(1, 1));
    let prefix = Prefix { op: Node(Operator::Neg, at(1, 1)), expr: constant(2) };
    assert_eq!(prefix.op(), Operator::Neg);
    assert_eq!(prefix.op_pos(), at(1, 1));
    assert_eq!(prefix.expr_pos(), at(1, 2));
    assert_eq!(prefix.expr().pos(), at(1, 2));
    assert_eq!(Expression::Prefix(Box::new(Node(prefix, at(4, 1)))).pos(), at(4, 1));
    let conditional = Conditional { cond: constant(4), then_branch: constant(6), els: constant(13) };
    assert_eq!(conditional.cond_pos(), at(1, 4));
    assert_eq!(conditional.then_pos(), at(1, 6));
    assert_eq!(conditional.els_pos(), at(1, 13));
    assert_eq!(conditional.cond().pos(), at(1, 4));
    assert_eq!(conditional.then_branch().pos(), at(1, 6));
    assert_eq!(conditional.els().pos(), at(1, 13));
    assert_eq!(Expression::Conditional(Box::new(Node(conditional, at(1, 1)))).pos(), at(1, 1));
    let block = vec![Statement::Expression(constant(3))];
    assert_eq!(Expression::Block(Node(block, at(1, 2))).pos(), at(1, 2));
}

#[test]
fn arguments_have_a_name_or_an_expression() {
    let ident = Argument::Ident(Node(1, at(1, 1)));
    assert_eq!(ident.ident(), Some(1));
    assert_eq!(ident.pos(), at(1, 1));
    assert!(ident.expr().is_none());
    let assign = Argument::Assign(Node(2, at(1, 4)), constant(8));
    assert_eq!(assign.ident(), Some(2));
    assert_eq!(assign.pos(), at(1, 4));
    assert_eq!(assign.expr().unwrap().pos(), at(1, 8));
    let op = Argument::OpAssign(Node(3, at(2, 1)), Node(Operator::Mul, at(2, 3)), constant(6));
    assert_eq!(op.ident(), Some(3));
    assert_eq!(op.pos(), at(2, 1));
    assert_eq!(op.expr().unwrap().pos(), at(1, 6));
    let expr = Argument::Expr(constant(9));
    assert_eq!(expr.ident(), None);
    assert_eq!(expr.pos(), at(1, 9));
    assert_eq!(expr.expr().unwrap().pos(), at(1, 9));
}

#[test]
fn definitions_calls_and_assignments_give_their_parts() {
    let body = vec![
        Statement::Assignment(Node(
            Assignment { ident: Node(7, at(3, 1)), expr: constant(5) },
            at(3, 1),
        )),
        Statement::Expression(constant(9)),
    ];
    assert_eq!(body[0].pos(), at(3, 1));
    assert_eq!(body[1].pos(), at(1, 9));
    let function = Function {
        args: Node(vec![Argument::Ident(Node(1, at(1, 4)))], at(1, 3)),
        block: Node(body, at(1, 10)),
    };
    assert_eq!(function.args().len(), 1);
    assert_eq!(function.args_pos(), at(1, 3));
    assert_eq!(function.block().len(), 2);
    assert_eq!(function.block_pos(), at(1, 10));
    let def = FunctionDef { ident: Node(4, at(1, 2)), func: Node(function, at(1, 1)) };
    assert_eq!(def.ident(), 4);
    assert_eq!(def.ident_pos(), at(1, 2));
    assert_eq!(def.function().args().len(), 1);
    let item = Item::FunctionDef(Node(def, at(1, 1)));
    assert_eq!(item.pos(), at(1, 1));
    let assignment = Assignment { ident: Node(8, at(5, 1)), expr: constant(5) };
    assert_eq!(assignment.ident(), 8);
    assert_eq!(assignment.ident_pos(), at(5, 1));
    assert_eq!(assignment.expr_pos(), at(1, 5));
    assert_eq!(assignment.expr().pos(), at(1, 5));
    assert_eq!(Item::Assignment(Node(assignment, at(5, 1))).pos(), at(5, 1));
    let call = FunctionCall {
        callee: Expression::Variable(Node(4, at(6, 1))),
        args: Node(vec![Argument::Expr(constant(3))], at(6, 2)),
        ty: CallType::Ordered,
    };
    assert_eq!(call.callee_pos(), at(6, 1));
    assert_eq!(call.callee().pos(), at(6, 1));
    assert_eq!(call.args().len(), 1);
    assert_eq!(call.args_pos(), at(6, 2));
    assert_eq!(call.ty(), CallType::Ordered);
    assert_ne!(call.ty(), CallType::Named);
    assert_eq!(Expression::FunctionCall(Box::new(Node(call, at(6, 1)))).pos(), at(6, 1));
    let closure = FunctionDef {
        ident: Node(0, at(7, 2)),
        func: Node(
            Function { args: Node(Vec::new(), at(7, 3)), block: Node(Vec::new(), at(7, 5)) },
            at(7, 1),
        ),
    };
    assert_eq!(Expression::Closure(Box::new(Node(closure, at(7, 1)))).pos(), at(7, 1));
    let node = Node(5usize, at(2, 2));
    assert_eq!(*node.item(), 5);
    assert_eq!(node.pos(), at(2, 2));
}
