//! The abstract syntax tree: items, statements and expressions, each with
//! the place in the source that it came from.

use vstd::prelude::*;
use crate::tokens::{Identifier, Literal, Node, Operator, SourcePos};

verus! {

#[derive(Debug)]
pub enum Item {
    Assignment(Node<Assignment>),
    FunctionDef(Node<FunctionDef>),
}

impl Item {
    pub open spec fn spec_pos(&self) -> SourcePos {
        match self {
            Item::Assignment(x) => x.1,
            Item::FunctionDef(x) => x.1,
        }
    }

    /// The place of the item in the source.
    pub fn pos(&self) -> (r: SourcePos)
        ensures
            r == self.spec_pos(),
    {
        match self {
            Item::Assignment(x) => x.pos(),
            Item::FunctionDef(x) => x.pos(),
        }
    }
}

#[derive(Debug)]
pub enum Statement {
    Assignment(Node<Assignment>),
    Expression(Expression),
}

impl Statement {
    pub open spec fn spec_pos(&self) -> SourcePos {
        match self {
            Statement::Assignment(x) => x.1,
            Statement::Expression(x) => x.spec_pos(),
        }
    }

    /// The place of the statement in the source.
    pub fn pos(&self) -> (r: SourcePos)
        ensures
            r == self.spec_pos(),
    {
        match self {
            Statement::Assignment(x) => x.pos(),
            Statement::Expression(x) => x.pos(),
        }
    }
}

pub type Root = Vec<Item>;

pub type Block = Vec<Statement>;

#[derive(Debug)]
pub struct FunctionDef {
    pub ident: Node<Identifier>,
    pub func: Node<Function>,
}

impl FunctionDef {
    pub fn ident(&self) -> (r: Identifier)
        ensures
            r == self.ident.0,
    {
        self.ident.0
    }

    pub fn ident_pos(&self) -> (r: SourcePos)
        ensures
            r == self.ident.1,
    {
        self.ident.1
    }

    /// The function that the definition names.
    pub fn function(&self) -> (r: &Function)
        ensures
            *r == self.func.0,
    {
        &self.func.0
    }
}

#[derive(Debug)]
pub struct Function {
    pub args: Node<ArgumentList>,
    pub block: Node<Block>,
}

impl Function {
    pub fn args(&self) -> (r: &ArgumentList)
        ensures
            *r == self.args.0,
    {
        &self.args.0
    }

    pub fn args_pos(&self) -> (r: SourcePos)
        ensures
            r == self.args.1,
    {
        self.args.1
    }

    pub fn block(&self) -> (r: &Block)
        ensures
            *r == self.block.0,
    {
        &self.block.0
    }

    pub fn block_pos(&self) -> (r: SourcePos)
        ensures
            r == self.block.1,
    {
        self.block.1
    }
}

#[derive(Debug)]
pub struct FunctionCall {
    pub callee: Expression,
    pub args: Node<ArgumentList>,
    pub ty: CallType,
}

impl FunctionCall {
    pub fn callee(&self) -> (r: &Expression)
        ensures
            *r == self.callee,
    {
        &self.callee
    }

    pub fn callee_pos(&self) -> (r: SourcePos)
        ensures
            r == self.callee.spec_pos(),
    {
        self.callee.pos()
    }

    pub fn args(&self) -> (r: &ArgumentList)
        ensures
            *r == self.args.0,
    {
        &self.args.0
    }

    pub fn args_pos(&self) -> (r: SourcePos)
        ensures
            r == self.args.1,
    {
        self.args.1
    }

    pub fn ty(&self) -> (r: CallType)
        ensures
            r == self.ty,
    {
        self.ty
    }
}

/// How the arguments of a call are matched with the parameters: by name or
/// by order.
#[derive(Copy, Clone, Debug, PartialEq, Eq, Structural)]
pub enum CallType {
    Named,
    Ordered,
}

/// An argument of a call or of a definition. `Ident` has a name only,
/// `Expr` an expression only; `Assign` and `OpAssign` have both.
#[derive(Debug)]
pub enum Argument {
    Ident(Node<Identifier>),
    Assign(Node<Identifier>, Expression),
    OpAssign(Node<Identifier>, Node<Operator>, Expression),
    Expr(Expression),
}

impl Argument {
    pub open spec fn spec_ident(&self) -> Option<Identifier> {
        match self {
            Argument::Ident(id) => Some(id.0),
            Argument::Assign(id, _) => Some(id.0),
            Argument::OpAssign(id, _, _) => Some(id.0),
            Argument::Expr(_) => None,
        }
    }

    pub open spec fn spec_pos(&self) -> SourcePos {
        match self {
            Argument::Ident(id) => id.1,
            Argument::Assign(id, _) => id.1,
            Argument::OpAssign(id, _, _) => id.1,
            Argument::Expr(e) => e.spec_pos(),
        }
    }

    pub open spec fn spec_expr(&self) -> Option<Expression> {
        match self {
            Argument::Ident(_) => None,
            Argument::Assign(_, e) => Some(*e),
            Argument::OpAssign(_, _, e) => Some(*e),
            Argument::Expr(e) => Some(*e),
        }
    }

    /// The name of the argument, for every kind but `Expr`.
    pub fn ident(&self) -> (r: Option<Identifier>)
        ensures
            r == self.spec_ident(),
    {
        match self {
            Argument::Ident(id) => Some(id.0),
            Argument::Assign(id, _) => Some(id.0),
            Argument::OpAssign(id, _, _) => Some(id.0),
            Argument::Expr(_) => None,
        }
    }

    /// The place of the argument: that of its name, or that of its
    /// expression where it has no name.
    pub fn pos(&self) -> (r: SourcePos)
        ensures
            r == self.spec_pos(),
    {
        match self {
            Argument::Ident(id) => id.1,
            Argument::Assign(id, _) => id.1,
            Argument::OpAssign(id, _, _) => id.1,
            Argument::Expr(e) => e.pos(),
        }
    }

    /// The expression of the argument, for every kind but `Ident`.
    pub fn expr(&self) -> (r: Option<&Expression>)
        ensures
            match r {
                Some(e) => self.spec_expr() == Some(*e),
                None => self.spec_expr() is None,
            },
    {
        match self {
            Argument::Ident(_) => None,
            Argument::Assign(_, e) => Some(e),
            Argument::OpAssign(_, _, e) => Some(e),
            Argument::Expr(e) => Some(e),
        }
    }
}

/// Every argument has a name or an expression.
pub proof fn lemma_argument_has_a_slot(a: Argument)
    ensures
        a.spec_ident() is Some || a.spec_expr() is Some,
        a is Ident <==> a.spec_expr() is None,
        a is Expr <==> a.spec_ident() is None,
{
}

pub type ArgumentList = Vec<Argument>;

#[derive(Debug)]
pub struct Assignment {
    pub ident: Node<Identifier>,
    pub expr: Expression,
}

impl Assignment {
    pub fn ident(&self) -> (r: Identifier)
        ensures
            r == self.ident.0,
    {
        self.ident.0
    }

    pub fn ident_pos(&self) -> (r: SourcePos)
        ensures
            r == self.ident.1,
    {
        self.ident.1
    }

    pub fn expr(&self) -> (r: &Expression)
        ensures
            *r == self.expr,
    {
        &self.expr
    }

    pub fn expr_pos(&self) -> (r: SourcePos)
        ensures
            r == self.expr.spec_pos(),
    {
        self.expr.pos()
    }
}

#[derive(Debug)]
pub struct Conditional {
    pub cond: Expression,
    pub then_branch: Expression,
    pub els: Expression,
}

impl Conditional {
    pub fn cond(&self) -> (r: &Expression)
        ensures
            *r == self.cond,
    {
        &self.cond
    }

    pub fn cond_pos(&self) -> (r: SourcePos)
        ensures
            r == self.cond.spec_pos(),
    {
        self.cond.pos()
    }

    pub fn then_branch(&self) -> (r: &Expression)
        ensures
            *r == self.then_branch,
    {
        &self.then_branch
    }

    pub fn then_pos(&self) -> (r: SourcePos)
        ensures
            r == self.then_branch.spec_pos(),
    {
        self.then_branch.pos()
    }

    pub fn els(&self) -> (r: &Expression)
        ensures
            *r == self.els,
    {
        &self.els
    }

    pub fn els_pos(&self) -> (r: SourcePos)
        ensures
            r == self.els.spec_pos(),
    {
        self.els.pos()
    }
}

#[derive(Debug)]
pub struct Infix {
    pub op: Node<Operator>,
    pub left: Expression,
    pub right: Expression,
}

impl Infix {
    pub fn op(&self) -> (r: Operator)
        ensures
            r == self.op.0,
    {
        self.op.0
    }

    pub fn op_pos(&self) -> (r: SourcePos)
        ensures
            r == self.op.1,
    {
        self.op.1
    }

    pub fn left(&self) -> (r: &Expression)
        ensures
            *r == self.left,
    {
        &self.left
    }

    pub fn left_pos(&self) -> (r: SourcePos)
        ensures
            r == self.left.spec_pos(),
    {
        self.left.pos()
    }

    pub fn right(&self) -> (r: &Expression)
        ensures
            *r == self.right,
    {
        &self.right
    }

    pub fn right_pos(&self) -> (r: SourcePos)
        ensures
            r == self.right.spec_pos(),
    {
        self.right.pos()
    }
}

#[derive(Debug)]
pub struct Prefix {
    pub op: Node<Operator>,
    pub expr: Expression,
}

impl Prefix {
    pub fn op(&self) -> (r: Operator)
        ensures
            r == self.op.0,
    {
        self.op.0
    }

    pub fn op_pos(&self) -> (r: SourcePos)
        ensures
            r == self.op.1,
    {
        self.op.1
    }

    pub fn expr(&self) -> (r: &Expression)
        ensures
            *r == self.expr,
    {
        &self.expr
    }

    pub fn expr_pos(&self) -> (r: SourcePos)
        ensures
            r == self.expr.spec_pos(),
    {
        self.expr.pos()
    }
}

#[derive(Debug)]
pub enum Expression {
    Constant(Node<Literal>),
    Boolean(Node<bool>),
    Infix(Box<Node<Infix>>),
    Prefix(Box<Node<Prefix>>),
    Variable(Node<Identifier>),
    Block(Node<Block>),
    FunctionCall(Box<Node<FunctionCall>>),
    Conditional(Box<Node<Conditional>>),
    Closure(Box<Node<FunctionDef>>),
}

impl Expression {
    pub open spec fn spec_pos(&self) -> SourcePos {
        match self {
            Expression::Constant(x) => x.1,
            Expression::Boolean(x) => x.1,
            Expression::Infix(x) => x.1,
            Expression::Prefix(x) => x.1,
            Expression::Variable(x) => x.1,
            Expression::Block(x) => x.1,
            Expression::FunctionCall(x) => x.1,
            Expression::Conditional(x) => x.1,
            Expression::Closure(x) => x.1,
        }
    }

    /// The place of the expression in the source: the position that its
    /// node carries, whatever its kind.
    pub fn pos(&self) -> (r: SourcePos)
        ensures
            r == self.spec_pos(),
    {
        match self {
            Expression::Constant(x) => x.1,
            Expression::Boolean(x) => x.1,
            Expression::Infix(x) => x.1,
            Expression::Prefix(x) => x.1,
            Expression::Variable(x) => x.1,
            Expression::Block(x) => x.1,
            Expression::FunctionCall(x) => x.1,
            Expression::Conditional(x) => x.1,
            Expression::Closure(x) => x.1,
        }
    }
}

} // verus!
