//! The syntax tree of the first form of the language: one `Main` item
//! with declarations, assignments, prints and conditions.

use vstd::prelude::*;

use crate::lexer::token::TokenKind;

verus! {

pub enum Expr {
    Literal(Lit),
    Ident(Vec<u8>),
    /// one step of an assignment: an operator and its right operand
    Op { op: Op, value: Lit },
}

#[derive(Debug, Clone, Copy, PartialEq, Eq, Structural)]
pub enum Op {
    Add,
    Sub,
    Mul,
    Div,
    Mod,
}

pub enum Lit {
    /// the negative of the number it holds
    NegInt(u32),
    Int(u32),
    Str(Vec<u8>),
    Bool(bool),
}

#[allow(inconsistent_fields)]
pub enum Stmt {
    Let { var_name: Vec<u8>, value: Box<Expr> },
    Assignment { var_name: Box<Expr>, initial_value: Box<Expr>, operations: Vec<Expr> },
    Print { value: Box<Expr> },
    IfStmt { condition: Box<Expr>, body: Vec<Stmt>, else_stmt: Option<Vec<Stmt>> },
}

pub enum Item {
    Main { body: Vec<Stmt> },
}

impl Op {
    /// The operator that a token of kind `kind` stands for.
    pub open spec fn spec_try_from(kind: TokenKind) -> Option<Op> {
        match kind {
            TokenKind::Plus => Some(Op::Add),
            TokenKind::Minus => Some(Op::Sub),
            TokenKind::Div => Some(Op::Div),
            TokenKind::Mul => Some(Op::Mul),
            TokenKind::Mod => Some(Op::Mod),
            _ => None,
        }
    }

    /// The operator that a token of kind `kind` stands for, if it is one.
    pub fn try_from(kind: TokenKind) -> (r: Option<Op>)
        ensures
            r == Op::spec_try_from(kind),
    {
        match kind {
            TokenKind::Plus => Some(Op::Add),
            TokenKind::Minus => Some(Op::Sub),
            TokenKind::Div => Some(Op::Div),
            TokenKind::Mul => Some(Op::Mul),
            TokenKind::Mod => Some(Op::Mod),
            _ => None,
        }
    }
}

} // verus!
