//! Code generation from the syntax tree of the first form of the language.

use vstd::prelude::*;

use crate::parser::ast;
use crate::parser::slt::{ChildIterator, NavigableSlt, SltView};

pub mod a64;
pub mod macos;

verus! {

/// What a generator says of a statement that it refuses: the print of a
/// step of an assignment.
pub const REFUSED: &'static str = "Return not a value";

/// A generator of assembly for one target.
pub trait Compiler: Sized {
    /// The assembly written so far.
    spec fn written(&self) -> Seq<u8>;

    /// Whether the generator has code for the expression.
    spec fn takes_expression(&self, ast: ast::Expr, chain: Seq<SltView>) -> bool;

    /// The assembly once the code of the expression was written.
    spec fn with_expression(&self, ast: ast::Expr, chain: Seq<SltView>) -> Seq<u8>;

    /// Whether the generator has code for the statement, with the nested
    /// scopes from place `pos` on still free.
    spec fn takes_statement(&self, ast: ast::Stmt, chain: Seq<SltView>, pos: nat) -> bool;

    /// The assembly once the code of the statement was written, as far as
    /// the generator took it.
    spec fn with_statement(&self, ast: ast::Stmt, chain: Seq<SltView>, pos: nat) -> Seq<u8>;

    /// Whether the generator has code for the item.
    spec fn takes_item(&self, ast: ast::Item, chain: Seq<SltView>, pos: nat) -> bool;

    /// The assembly once the code of the item was written, as far as the
    /// generator took it.
    spec fn with_item(&self, ast: ast::Item, chain: Seq<SltView>, pos: nat) -> Seq<u8>;

    /// Whether the generator refuses the statement, or a statement in it.
    spec fn refuses_statement(&self, ast: ast::Stmt, chain: Seq<SltView>, pos: nat) -> bool;

    /// Whether the generator refuses a statement of the item.
    spec fn refuses_item(&self, ast: ast::Item, chain: Seq<SltView>, pos: nat) -> bool;

    /// A generator that has written nothing.
    fn new() -> (c: Self)
        ensures
            c.written() == Seq::<u8>::empty(),
    ;

    fn evaluate_expression(&mut self, ast: &ast::Expr, slt: &NavigableSlt) -> (r: Result<(), String>)
        requires
            slt.wf(),
            old(self).takes_expression(*ast, slt@),
        ensures
            r is Ok,
            final(self).written() == old(self).with_expression(*ast, slt@),
    ;

    fn evaluate_item(&mut self, ast: &ast::Item, slt: &NavigableSlt, childs: &mut ChildIterator) -> (r:
        Result<(), String>)
        requires
            slt.wf(),
            old(childs).parent == slt,
            old(self).takes_item(*ast, slt@, old(childs).pos as nat),
        ensures
            final(self).written() == old(self).with_item(*ast, slt@, old(childs).pos as nat),
            r is Err == old(self).refuses_item(*ast, slt@, old(childs).pos as nat),
            r is Err ==> r->Err_0@ == REFUSED@,
    ;

    fn evaluate_statement(
        &mut self,
        ast: &ast::Stmt,
        slt: &NavigableSlt,
        childs: &mut ChildIterator,
    ) -> (r: Result<(), String>)
        requires
            slt.wf(),
            old(childs).parent == slt,
            old(self).takes_statement(*ast, slt@, old(childs).pos as nat),
        ensures
            final(self).written() == old(self).with_statement(*ast, slt@, old(childs).pos as nat),
            r is Err == old(self).refuses_statement(*ast, slt@, old(childs).pos as nat),
            r is Err ==> r->Err_0@ == REFUSED@,
    ;

    /// The assembly that was written.
    fn finish(self) -> (out: Vec<u8>)
        ensures
            out@ == self.written(),
    ;
}

/// The item that `evaluate` generates: the last `Main` among the items.
pub open spec fn main_item(items: Seq<ast::Item>) -> ast::Item
    recommends
        items.len() > 0,
{
    items.last()
}

/// Generates the program: the code of its last `Main` item, written by
/// `compiler`.
pub fn evaluate<C: Compiler>(ast: Vec<ast::Item>, slt: &NavigableSlt, compiler: C) -> (r: (
    Result<(), String>,
    Vec<u8>,
))
    requires
        ast@.len() > 0,
        slt.wf(),
        compiler.takes_item(main_item(ast@), slt@, 0),
    ensures
        r.1@ == compiler.with_item(main_item(ast@), slt@, 0),
        r.0 is Err == compiler.refuses_item(main_item(ast@), slt@, 0),
        r.0 is Err ==> r.0->Err_0@ == REFUSED@,
{
    let mut compiler = compiler;
    let mut ast = ast;
    let main = match ast.pop() {
        Some(item) => item,
        None => {
            return (Ok(()), compiler.finish());
        },
    };

    let mut childs = slt.childs();
    let r = compiler.evaluate_item(&main, slt, &mut childs);
    (r, compiler.finish())
}

} // verus!
