//! The steps of an assignment.

use vstd::prelude::*;
use vstd::string::*;

use super::instructions::{X8, X9};
use super::{A64Compiler, A64View};
use crate::assembler::macos;
use crate::assembler::macos::{line2, line3, line4};
use crate::parser::ast;
use crate::parser::slt::NavigableSlt;
use crate::text::{hex, push_hex};

verus! {

pub const X10: &'static str = "x10";

/// Whether the generator has code for the expression: the operand of a
/// step is a natural number.
pub open spec fn expression_ok(e: ast::Expr) -> bool {
    match e {
        ast::Expr::Op { op, value } => value is Int,
        _ => true,
    }
}

/// The code of an expression: none for a literal and for an identifier,
/// which the statement around them handles; for a step, the operation on
/// `x8` with the operand as an immediate, moved to `x9` first where the
/// instruction takes no immediate. The remainder is what the division
/// leaves: `x8 - (x8 / x9) * x9`.
pub open spec fn expression_lines(e: ast::Expr) -> Seq<u8> {
    match e {
        ast::Expr::Op { op, value: ast::Lit::Int(v) } => {
            let immediate = hex(v as nat);
            let x8 = X8.spec_bytes();
            let x9 = X9.spec_bytes();
            let x10 = X10.spec_bytes();
            match op {
                ast::Op::Add => line3(macos::ADD, x8, x8, immediate),
                ast::Op::Sub => line3(macos::SUB, x8, x8, immediate),
                ast::Op::Mul => line2(macos::MOV, x9, immediate) + line3(macos::MUL, x8, x8, x9),
                ast::Op::Div => line2(macos::MOV, x9, immediate) + line3(macos::SDIV, x8, x8, x9),
                ast::Op::Mod => line2(macos::MOV, x9, immediate) + line3(macos::UDIV, x10, x8, x9)
                    + line4(macos::MSUB, x8, x10, x9, x8),
            }
        },
        _ => Seq::empty(),
    }
}

impl A64Compiler {
    pub fn expression(&mut self, ast: &ast::Expr, _slt: &NavigableSlt) -> (r: Result<(), String>)
        requires
            expression_ok(*ast),
        ensures
            r is Ok,
            final(self)@ == old(self)@.emit(expression_lines(*ast)),
    {
        match ast {
            ast::Expr::Literal(_) => {
                assert(self@.writer =~= old(self)@.emit(expression_lines(*ast)).writer);
                Ok(())
            },
            ast::Expr::Ident(_) => {
                assert(self@.writer =~= old(self)@.emit(expression_lines(*ast)).writer);
                Ok(())
            },
            ast::Expr::Op { op, value } => {
                let value = match value {
                    ast::Lit::Int(v) => *v,
                    _ => {
                        return Ok(());
                    },
                };
                let mut immediate: Vec<u8> = Vec::new();
                push_hex(&mut immediate, value as u128);
                assert(immediate@ =~= hex(value as nat));
                match op {
                    ast::Op::Add => self.add(X8.as_bytes(), X8.as_bytes(), immediate.as_slice()),
                    ast::Op::Sub => self.sub(X8.as_bytes(), X8.as_bytes(), immediate.as_slice()),
                    ast::Op::Mul => {
                        self.mov(X9.as_bytes(), immediate.as_slice());
                        self.mul(X8.as_bytes(), X8.as_bytes(), X9.as_bytes());
                    },
                    ast::Op::Div => {
                        self.mov(X9.as_bytes(), immediate.as_slice());
                        self.sdiv(X8.as_bytes(), X8.as_bytes(), X9.as_bytes());
                    },
                    ast::Op::Mod => {
                        self.mov(X9.as_bytes(), immediate.as_slice());
                        self.udiv(X10.as_bytes(), X8.as_bytes(), X9.as_bytes());
                        self.msub(X8.as_bytes(), X10.as_bytes(), X9.as_bytes(), X8.as_bytes());
                    },
                }
                assert(self@.writer =~= old(self)@.emit(expression_lines(*ast)).writer);

                Ok(())
            },
        }
    }
}

} // verus!
