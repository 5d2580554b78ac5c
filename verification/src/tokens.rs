//! Tokens, operators, punctuation and source positions.

use vstd::prelude::*;
use vstd::string::*;
use crate::text::{append_decimal, decimal};

verus! {

/// Dense handle of an interned identifier.
pub type Identifier = usize;

/// Binary and unary operators of the expression language.
#[derive(Debug, Copy, Clone, PartialEq, Eq, Structural)]
pub enum Operator {
    Add,
    Sub,
    Mul,
    Div,
    Exp,
    Mod,
    Neg,
    Less,
    Greater,
    Equ,
    NotEqu,
    ApproxEqu,
    Not,
    And,
    Or,
    Xor,
    GreaterEqual,
    LessEqual,
}

#[derive(Debug, Copy, Clone, PartialEq, Eq, Structural)]
pub enum Associativity {
    Left,
    Right,
}

impl Operator {
    /// Binding strength: a larger number binds tighter.
    pub open spec fn spec_precedence(self) -> int {
        match self {
            Operator::And | Operator::Or | Operator::Xor => 10,
            Operator::Equ | Operator::NotEqu | Operator::ApproxEqu => 20,
            Operator::Less | Operator::Greater | Operator::GreaterEqual | Operator::LessEqual => 30,
            Operator::Add | Operator::Sub => 40,
            Operator::Mul | Operator::Div | Operator::Mod => 50,
            Operator::Neg | Operator::Not | Operator::Exp => 60,
        }
    }

    /// Number of operands the operator takes.
    pub open spec fn spec_num_args(self) -> nat {
        match self {
            Operator::Neg | Operator::Not => 1,
            _ => 2,
        }
    }

    pub open spec fn spec_associativity(self) -> Associativity {
        match self {
            Operator::Exp => Associativity::Right,
            _ => Associativity::Left,
        }
    }

    /// The operator that a lexeme spells: two-byte forms and single bytes.
    pub open spec fn spec_parse(text: Seq<u8>) -> Option<Operator> {
        if text.len() == 1 {
            let b = text[0];
            if b == 0x2b {
                Some(Operator::Add)
            } else if b == 0x2d {
                Some(Operator::Sub)
            } else if b == 0x2a {
                Some(Operator::Mul)
            } else if b == 0x2f {
                Some(Operator::Div)
            } else if b == 0x5e {
                Some(Operator::Exp)
            } else if b == 0x25 {
                Some(Operator::Mod)
            } else if b == 0x3c {
                Some(Operator::Less)
            } else if b == 0x3e {
                Some(Operator::Greater)
            } else if b == 0x21 {
                Some(Operator::Not)
            } else {
                None
            }
        } else if text.len() == 2 {
            let a = text[0];
            let b = text[1];
            if a == 0x3d && b == 0x3d {
                Some(Operator::Equ)
            } else if a == 0x21 && b == 0x3d {
                Some(Operator::NotEqu)
            } else if a == 0x7e && b == 0x3d {
                Some(Operator::ApproxEqu)
            } else if a == 0x3c && b == 0x3d {
                Some(Operator::LessEqual)
            } else if a == 0x3e && b == 0x3d {
                Some(Operator::GreaterEqual)
            } else if a == 0x26 && b == 0x26 {
                Some(Operator::And)
            } else if a == 0x7c && b == 0x7c {
                Some(Operator::Or)
            } else if a == 0x5e && b == 0x5e {
                Some(Operator::Xor)
            } else {
                None
            }
        } else {
            None
        }
    }

    /// Reads an operator from its exact spelling (`+ - * / ^ % < > !` and
    /// `== != ~= <= >= && || ^^`); anything else is no operator. Unary minus
    /// has no spelling of its own.
    pub fn parse(text: &[u8]) -> (r: Option<Operator>)
        ensures
            r == Operator::spec_parse(text@),
    {
        if text.len() == 1 {
            let b = text[0];
            if b == 0x2b {
                Some(Operator::Add)
            } else if b == 0x2d {
                Some(Operator::Sub)
            } else if b == 0x2a {
                Some(Operator::Mul)
            } else if b == 0x2f {
                Some(Operator::Div)
            } else if b == 0x5e {
                Some(Operator::Exp)
            } else if b == 0x25 {
                Some(Operator::Mod)
            } else if b == 0x3c {
                Some(Operator::Less)
            } else if b == 0x3e {
                Some(Operator::Greater)
            } else if b == 0x21 {
                Some(Operator::Not)
            } else {
                None
            }
        } else if text.len() == 2 {
            let a = text[0];
            let b = text[1];
            if a == 0x3d && b == 0x3d {
                Some(Operator::Equ)
            } else if a == 0x21 && b == 0x3d {
                Some(Operator::NotEqu)
            } else if a == 0x7e && b == 0x3d {
                Some(Operator::ApproxEqu)
            } else if a == 0x3c && b == 0x3d {
                Some(Operator::LessEqual)
            } else if a == 0x3e && b == 0x3d {
                Some(Operator::GreaterEqual)
            } else if a == 0x26 && b == 0x26 {
                Some(Operator::And)
            } else if a == 0x7c && b == 0x7c {
                Some(Operator::Or)
            } else if a == 0x5e && b == 0x5e {
                Some(Operator::Xor)
            } else {
                None
            }
        } else {
            None
        }
    }

    #[verifier::when_used_as_spec(spec_precedence_i32)]
    pub fn precedence(&self) -> (r: i32)
        ensures
            r == self.spec_precedence(),
    {
        match *self {
            Operator::And | Operator::Or | Operator::Xor => 10,
            Operator::Equ | Operator::NotEqu | Operator::ApproxEqu => 20,
            Operator::Less | Operator::Greater | Operator::GreaterEqual | Operator::LessEqual => 30,
            Operator::Add | Operator::Sub => 40,
            Operator::Mul | Operator::Div | Operator::Mod => 50,
            Operator::Neg | Operator::Not | Operator::Exp => 60,
        }
    }

    pub open spec fn spec_precedence_i32(&self) -> i32 {
        self.spec_precedence() as i32
    }

    pub fn num_args(&self) -> (r: usize)
        ensures
            r == self.spec_num_args(),
    {
        match *self {
            Operator::Neg | Operator::Not => 1,
            _ => 2,
        }
    }

    pub fn associativity(&self) -> (r: Associativity)
        ensures
            r == self.spec_associativity(),
    {
        match *self {
            Operator::Exp => Associativity::Right,
            _ => Associativity::Left,
        }
    }

    /// Name of the operator, as diagnostics print it.
    pub open spec fn spec_name(self) -> Seq<char> {
        match self {
            Operator::Add => "Add"@,
            Operator::Sub => "Sub"@,
            Operator::Mul => "Mul"@,
            Operator::Div => "Div"@,
            Operator::Exp => "Exp"@,
            Operator::Mod => "Mod"@,
            Operator::Neg => "Neg"@,
            Operator::Less => "Less"@,
            Operator::Greater => "Greater"@,
            Operator::Equ => "Equ"@,
            Operator::NotEqu => "NotEqu"@,
            Operator::ApproxEqu => "ApproxEqu"@,
            Operator::Not => "Not"@,
            Operator::And => "And"@,
            Operator::Or => "Or"@,
            Operator::Xor => "Xor"@,
            Operator::GreaterEqual => "GreaterEqual"@,
            Operator::LessEqual => "LessEqual"@,
        }
    }

    pub fn name(&self) -> (r: &'static str)
        ensures
            r@ == self.spec_name(),
    {
        match *self {
            Operator::Add => "Add",
            Operator::Sub => "Sub",
            Operator::Mul => "Mul",
            Operator::Div => "Div",
            Operator::Exp => "Exp",
            Operator::Mod => "Mod",
            Operator::Neg => "Neg",
            Operator::Less => "Less",
            Operator::Greater => "Greater",
            Operator::Equ => "Equ",
            Operator::NotEqu => "NotEqu",
            Operator::ApproxEqu => "ApproxEqu",
            Operator::Not => "Not",
            Operator::And => "And",
            Operator::Or => "Or",
            Operator::Xor => "Xor",
            Operator::GreaterEqual => "GreaterEqual",
            Operator::LessEqual => "LessEqual",
        }
    }
}


/// The three kinds of bracket.
#[derive(Debug, Copy, Clone, PartialEq, Eq, Structural)]
pub enum Bracket {
    Round,
    Square,
    Curly,
}

/// Punctuation and the keywords `if` and `else`.
#[derive(Debug, Copy, Clone, PartialEq, Eq, Structural)]
pub enum Symbol {
    Period,
    Comma,
    Equals,
    Colon,
    Semicolon,
    QuestionMark,
    Backslash,
    If,
    Else,
    LeftBracket(Bracket),
    RightBracket(Bracket),
}

impl Symbol {
    /// The bytes that spell the symbol in source text.
    pub open spec fn spec_bytes(self) -> Seq<u8> {
        match self {
            Symbol::Period => seq![0x2eu8],
            Symbol::Comma => seq![0x2cu8],
            Symbol::Equals => seq![0x3du8],
            Symbol::Colon => seq![0x3au8],
            Symbol::Semicolon => seq![0x3bu8],
            Symbol::QuestionMark => seq![0x3fu8],
            Symbol::Backslash => seq![0x5cu8],
            Symbol::If => seq![0x69u8, 0x66u8],
            Symbol::Else => seq![0x65u8, 0x6cu8, 0x73u8, 0x65u8],
            Symbol::LeftBracket(Bracket::Round) => seq![0x28u8],
            Symbol::RightBracket(Bracket::Round) => seq![0x29u8],
            Symbol::LeftBracket(Bracket::Curly) => seq![0x7bu8],
            Symbol::RightBracket(Bracket::Curly) => seq![0x7du8],
            Symbol::LeftBracket(Bracket::Square) => seq![0x5bu8],
            Symbol::RightBracket(Bracket::Square) => seq![0x5du8],
        }
    }

    /// The punctuation mark that a single byte spells.
    pub open spec fn spec_punctuation(b: u8) -> Option<Symbol> {
        if b == 0x2e {
            Some(Symbol::Period)
        } else if b == 0x2c {
            Some(Symbol::Comma)
        } else if b == 0x3d {
            Some(Symbol::Equals)
        } else if b == 0x3a {
            Some(Symbol::Colon)
        } else if b == 0x3b {
            Some(Symbol::Semicolon)
        } else if b == 0x3f {
            Some(Symbol::QuestionMark)
        } else if b == 0x5c {
            Some(Symbol::Backslash)
        } else if b == 0x28 {
            Some(Symbol::LeftBracket(Bracket::Round))
        } else if b == 0x29 {
            Some(Symbol::RightBracket(Bracket::Round))
        } else if b == 0x7b {
            Some(Symbol::LeftBracket(Bracket::Curly))
        } else if b == 0x7d {
            Some(Symbol::RightBracket(Bracket::Curly))
        } else if b == 0x5b {
            Some(Symbol::LeftBracket(Bracket::Square))
        } else if b == 0x5d {
            Some(Symbol::RightBracket(Bracket::Square))
        } else {
            None
        }
    }

    /// The symbol that a lexeme spells.
    pub open spec fn spec_parse(text: Seq<u8>) -> Option<Symbol> {
        if text.len() == 1 {
            Symbol::spec_punctuation(text[0])
        } else if text == Symbol::If.spec_bytes() {
            Some(Symbol::If)
        } else if text == Symbol::Else.spec_bytes() {
            Some(Symbol::Else)
        } else {
            None
        }
    }

    /// The punctuation mark that `b` spells, if it spells one.
    pub fn punctuation(b: u8) -> (r: Option<Symbol>)
        ensures
            r == Symbol::spec_punctuation(b),
    {
        if b == 0x2e {
            Some(Symbol::Period)
        } else if b == 0x2c {
            Some(Symbol::Comma)
        } else if b == 0x3d {
            Some(Symbol::Equals)
        } else if b == 0x3a {
            Some(Symbol::Colon)
        } else if b == 0x3b {
            Some(Symbol::Semicolon)
        } else if b == 0x3f {
            Some(Symbol::QuestionMark)
        } else if b == 0x5c {
            Some(Symbol::Backslash)
        } else if b == 0x28 {
            Some(Symbol::LeftBracket(Bracket::Round))
        } else if b == 0x29 {
            Some(Symbol::RightBracket(Bracket::Round))
        } else if b == 0x7b {
            Some(Symbol::LeftBracket(Bracket::Curly))
        } else if b == 0x7d {
            Some(Symbol::RightBracket(Bracket::Curly))
        } else if b == 0x5b {
            Some(Symbol::LeftBracket(Bracket::Square))
        } else if b == 0x5d {
            Some(Symbol::RightBracket(Bracket::Square))
        } else {
            None
        }
    }

    /// Reads a symbol from its exact spelling: one punctuation mark, `if` or
    /// `else`; anything else is no symbol.
    pub fn parse(text: &[u8]) -> (r: Option<Symbol>)
        ensures
            r == Symbol::spec_parse(text@),
    {
        if text.len() == 1 {
            Symbol::punctuation(text[0])
        } else if text.len() == 2 && text[0] == 0x69 && text[1] == 0x66 {
            proof {
                assert(text@ =~= Symbol::If.spec_bytes());
            }
            Some(Symbol::If)
        } else if text.len() == 4 && text[0] == 0x65 && text[1] == 0x6c && text[2] == 0x73
            && text[3] == 0x65 {
            proof {
                assert(text@ =~= Symbol::Else.spec_bytes());
            }
            Some(Symbol::Else)
        } else {
            proof {
                if text@ == Symbol::If.spec_bytes() {
                    assert(text@[0] == 0x69 && text@[1] == 0x66);
                }
                if text@ == Symbol::Else.spec_bytes() {
                    assert(text@[0] == 0x65 && text@[1] == 0x6c && text@[2] == 0x73 && text@[3]
                        == 0x65);
                }
            }
            None
        }
    }

    /// The symbol as source text and diagnostics show it.
    pub open spec fn spec_text(self) -> Seq<char> {
        match self {
            Symbol::Period => "."@,
            Symbol::Comma => ","@,
            Symbol::Equals => "="@,
            Symbol::Colon => ":"@,
            Symbol::Semicolon => ";"@,
            Symbol::QuestionMark => "?"@,
            Symbol::Backslash => "\\"@,
            Symbol::If => "if"@,
            Symbol::Else => "else"@,
            Symbol::LeftBracket(Bracket::Round) => "("@,
            Symbol::RightBracket(Bracket::Round) => ")"@,
            Symbol::LeftBracket(Bracket::Curly) => "{"@,
            Symbol::RightBracket(Bracket::Curly) => "}"@,
            Symbol::LeftBracket(Bracket::Square) => "["@,
            Symbol::RightBracket(Bracket::Square) => "]"@,
        }
    }

    pub fn text(&self) -> (r: &'static str)
        ensures
            r@ == self.spec_text(),
    {
        match *self {
            Symbol::Period => ".",
            Symbol::Comma => ",",
            Symbol::Equals => "=",
            Symbol::Colon => ":",
            Symbol::Semicolon => ";",
            Symbol::QuestionMark => "?",
            Symbol::Backslash => "\\",
            Symbol::If => "if",
            Symbol::Else => "else",
            Symbol::LeftBracket(Bracket::Round) => "(",
            Symbol::RightBracket(Bracket::Round) => ")",
            Symbol::LeftBracket(Bracket::Curly) => "{",
            Symbol::RightBracket(Bracket::Curly) => "}",
            Symbol::LeftBracket(Bracket::Square) => "[",
            Symbol::RightBracket(Bracket::Square) => "]",
        }
    }
}

/// Every symbol is read back from its own spelling, and only from it.
pub proof fn lemma_symbol_parse_inverts_bytes(sym: Symbol, text: Seq<u8>)
    ensures
        Symbol::spec_parse(sym.spec_bytes()) == Some(sym),
        Symbol::spec_parse(text) == Some(sym) ==> text == sym.spec_bytes(),
{
    if Symbol::spec_parse(text) == Some(sym) {
        assert(text =~= sym.spec_bytes());
    }
}

/// A numeric constant as it stands in the source: where it starts and how
/// many bytes it takes. Its value is for the host to read.
#[derive(Debug, Copy, Clone, PartialEq, Eq, Structural)]
pub struct Literal {
    pub offset: usize,
    pub len: usize,
}

/// The kinds of token that the lexer gives out.
#[derive(Debug, Copy, Clone, PartialEq, Eq, Structural)]
pub enum Token {
    Ident(Identifier),
    Const(Literal),
    Operator(Operator),
    Symbol(Symbol),
}

impl Token {
    /// The token as diagnostics print it.
    pub open spec fn spec_text(self) -> Seq<char> {
        match self {
            Token::Ident(x) => "Id("@ + decimal(x as nat) + ")"@,
            Token::Operator(x) => x.spec_name(),
            Token::Const(_) => "number"@,
            Token::Symbol(x) => x.spec_text(),
        }
    }

    pub fn to_text(&self) -> (r: String)
        ensures
            r@ == self.spec_text(),
    {
        match *self {
            Token::Ident(x) => {
                let mut s = String::from_str("Id(");
                append_decimal(&mut s, x);
                s.append(")");
                s
            },
            Token::Operator(x) => String::from_str(x.name()),
            Token::Const(_) => String::from_str("number"),
            Token::Symbol(x) => String::from_str(x.text()),
        }
    }
}

/// A place in the source: line and column from 1, byte index from 0, and the
/// index of the first byte of the line.
#[derive(Copy, Clone, Debug, PartialEq, Eq, Structural)]
pub struct SourcePos {
    pub line: usize,
    pub column: usize,
    pub index: usize,
    pub line_index: usize,
}

impl SourcePos {
    /// The start of a source: line 1, column 1, index 0.
    pub open spec fn start() -> SourcePos {
        SourcePos { line: 1, column: 1, index: 0, line_index: 0 }
    }

    /// The position one line break further on.
    pub open spec fn spec_add_line(self) -> SourcePos {
        SourcePos {
            line: (self.line + 1) as usize,
            column: 1,
            index: (self.index + 1) as usize,
            line_index: (self.index + 1) as usize,
        }
    }

    /// The position `num` bytes further on in the same line.
    pub open spec fn spec_add_chars(self, num: usize) -> SourcePos {
        SourcePos {
            line: self.line,
            column: (self.column + num) as usize,
            index: (self.index + num) as usize,
            line_index: self.line_index,
        }
    }

    pub fn new() -> (r: SourcePos)
        ensures
            r == SourcePos::start(),
    {
        SourcePos { line: 1, column: 1, index: 0, line_index: 0 }
    }

    /// Steps over a line break: the next line begins right behind it.
    pub fn add_line(&mut self)
        requires
            old(self).line < usize::MAX,
            old(self).index < usize::MAX,
        ensures
            *final(self) == old(self).spec_add_line(),
            final(self).line == old(self).line + 1,
            final(self).index == old(self).index + 1,
    {
        self.line += 1;
        self.column = 1;
        self.index += 1;
        self.line_index = self.index;
    }

    /// Steps over `num` bytes of the current line.
    pub fn add_chars(&mut self, num: usize)
        requires
            old(self).column + num <= usize::MAX,
            old(self).index + num <= usize::MAX,
        ensures
            *final(self) == old(self).spec_add_chars(num),
            final(self).column == old(self).column + num,
            final(self).index == old(self).index + num,
    {
        self.column += num;
        self.index += num;
    }

    /// The position as diagnostics print it: line, colon, column.
    pub fn to_text(&self) -> (r: String)
        ensures
            r@ == decimal(self.line as nat) + ":"@ + decimal(self.column as nat),
    {
        let mut s = String::new();
        append_decimal(&mut s, self.line);
        s.append(":");
        append_decimal(&mut s, self.column);
        proof {
            assert(s@ =~= decimal(self.line as nat) + ":"@ + decimal(self.column as nat));
        }
        s
    }
}

/// A value together with the place in the source where it stands.
#[derive(Copy, Clone, Debug)]
pub struct PW<T> {
    pub token: T,
    pub pos: SourcePos,
}

/// The two parts of a positioned value, also where the value may be absent.
pub trait PWImpl: Sized {
    type Token;

    type Pos;

    spec fn spec_token(self) -> Self::Token;

    spec fn spec_pos(self) -> Self::Pos;

    fn token(self) -> (r: Self::Token)
        ensures
            r == self.spec_token(),
    ;

    fn pos(self) -> (r: Self::Pos)
        ensures
            r == self.spec_pos(),
    ;
}

impl<T: Copy + Clone> PWImpl for PW<T> {
    type Token = T;

    type Pos = SourcePos;

    open spec fn spec_token(self) -> T {
        self.token
    }

    open spec fn spec_pos(self) -> SourcePos {
        self.pos
    }

    fn token(self) -> (r: T) {
        self.token
    }

    fn pos(self) -> (r: SourcePos) {
        self.pos
    }
}

impl<T: Copy + Clone> PWImpl for Option<PW<T>> {
    type Token = Option<T>;

    type Pos = Option<SourcePos>;

    open spec fn spec_token(self) -> Option<T> {
        match self {
            Some(x) => Some(x.token),
            None => None,
        }
    }

    open spec fn spec_pos(self) -> Option<SourcePos> {
        match self {
            Some(x) => Some(x.pos),
            None => None,
        }
    }

    fn token(self) -> (r: Option<T>) {
        match self {
            Some(x) => Some(x.token),
            None => None,
        }
    }

    fn pos(self) -> (r: Option<SourcePos>) {
        match self {
            Some(x) => Some(x.pos),
            None => None,
        }
    }
}

/// Pairing a value with a position.
pub trait ToPW<T> {
    spec fn spec_pw(self, pos: SourcePos) -> PW<T>;

    fn pw(self, pos: SourcePos) -> (r: PW<T>)
        ensures
            r == self.spec_pw(pos),
    ;
}

impl<T: Copy + Clone> ToPW<T> for T {
    open spec fn spec_pw(self, pos: SourcePos) -> PW<T> {
        PW { token: self, pos: pos }
    }

    fn pw(self, pos: SourcePos) -> (r: PW<T>) {
        PW { token: self, pos: pos }
    }
}

/// A payload and the place in the source that it came from.
#[derive(Clone, Debug)]
pub struct Node<T>(pub T, pub SourcePos);

impl<T> Node<T> {
    pub fn item(&self) -> (r: &T)
        ensures
            *r == self.0,
    {
        &self.0
    }

    pub fn pos(&self) -> (r: SourcePos)
        ensures
            r == self.1,
    {
        self.1
    }
}

} // verus!
