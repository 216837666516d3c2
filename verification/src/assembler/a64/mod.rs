//! The generator for AArch64.

use vstd::prelude::*;
use vstd::string::*;

use crate::assembler::macos;
use crate::assembler::macos::{line2, line3};
use crate::assembler::Compiler;
use crate::parser::ast;
use crate::parser::slt::{lemma_slts_view, ChildIterator, NavigableSlt, SltView};
use crate::text::{push_bytes, push_signed_hex, push_str, signed_hex, str_to_vec};
use expression::{expression_lines, expression_ok};
use instructions::X29;
use statement::{gen_statement, gen_statements, pop_frame, push_frame, statement_ok};
use statement::{statements_ok, unstack, LR, SP};

pub mod expression;
pub mod instructions;
pub mod statement;

verus! {

/// The offset of a memory operand and the way it is applied.
#[derive(Clone, Copy, Debug, PartialEq, Eq, Structural)]
pub struct Index {
    pub offset: i32,
    pub position: Position,
}

/// When the offset of a memory operand is added to the base register.
#[derive(Clone, Copy, Debug, PartialEq, Eq, Structural)]
pub enum Position {
    /// before the access, and the register keeps the sum
    Pre,
    /// after the access
    Post,
    /// for the access only
    Offset,
}

impl Index {
    pub fn pre(offset: i32) -> (i: Index)
        ensures
            i == (Index { offset, position: Position::Pre }),
    {
        Index { offset, position: Position::Pre }
    }

    pub fn offset(offset: i32) -> (i: Index)
        ensures
            i == (Index { offset, position: Position::Offset }),
    {
        Index { offset, position: Position::Offset }
    }

    pub fn post(offset: i32) -> (i: Index)
        ensures
            i == (Index { offset, position: Position::Post }),
    {
        Index { offset, position: Position::Post }
    }

    /// The offset in hexadecimal, with a minus sign in front of a negative
    /// one.
    pub open spec fn spec_format_offset(self) -> Seq<u8> {
        signed_hex(self.offset as int)
    }

    /// The offset in hexadecimal, with a minus sign in front of a negative
    /// one.
    pub fn format_offset(&self) -> (s: Vec<u8>)
        ensures
            s@ == self.spec_format_offset(),
    {
        let mut s: Vec<u8> = Vec::new();
        push_signed_hex(&mut s, self.offset as i64);
        assert(s@ =~= self.spec_format_offset());
        s
    }
}

pub struct A64Compiler {
    /// the string literals met so far, each with its label
    pub string_literals: Vec<(Vec<u8>, Vec<u8>)>,
    /// the assembly written so far
    pub writer: Vec<u8>,
}

pub struct A64View {
    pub string_literals: Seq<(Seq<u8>, Seq<u8>)>,
    pub writer: Seq<u8>,
}

impl View for A64Compiler {
    type V = A64View;

    open spec fn view(&self) -> A64View {
        A64View {
            string_literals: self.string_literals@.map_values(
                |e: (Vec<u8>, Vec<u8>)| (e.0@, e.1@),
            ),
            writer: self.writer@,
        }
    }
}

impl A64View {
    /// The state after `text` was written.
    pub open spec fn emit(self, text: Seq<u8>) -> A64View {
        A64View { writer: self.writer + text, ..self }
    }

    /// The state after one more string literal was noted.
    pub open spec fn note(self, name: Seq<u8>, text: Seq<u8>) -> A64View {
        A64View { string_literals: self.string_literals.push((name, text)), ..self }
    }
}


pub const START: &'static str = ".global _start\n.align 2\n_start:\n";

pub const EXIT: &'static str = "\n\tmov     x0, #0\n\tmov     x16, #1\n\tsvc     0\n";

pub const DATA: &'static str = ".data\n";

pub const TAB: &'static str = "\t";

pub const ASCIZ: &'static str = ":      .asciz  \"";

pub const QUOTE: &'static str = "\"\n";

pub const STR_FORMAT_TEXT: &'static str = "%s\\n";

pub const INT_FORMAT_TEXT: &'static str = "%d\\n";

/// The state after the entries of the literals from place `from` on were
/// written to the data section.
pub open spec fn gen_data(g: A64View, from: nat) -> A64View
    decreases g.string_literals.len() - from,
{
    if from >= g.string_literals.len() {
        g
    } else {
        gen_data(
            g.emit(TAB.spec_bytes() + g.string_literals[from as int].0 + ASCIZ.spec_bytes()).emit(
                g.string_literals[from as int].1,
            ).emit(QUOTE.spec_bytes()),
            (from + 1) as nat,
        )
    }
}

/// Whether the generator has code for the item: the program has a scope,
/// the first of those nested in the innermost of `chain`, and the
/// generator has code for the statements in it.
pub open spec fn item_ok(item: ast::Item, chain: Seq<SltView>) -> bool {
    match item {
        ast::Item::Main { body } => chain[0].children.len() > 0 && statements_ok(
            body@,
            seq![chain[0].children[0]] + chain,
            0,
            0,
        ),
    }
}

/// The state after the program: the entry, the statements in a block of
/// their own, the exit, and the data section with the string literals. At
/// a statement that the generator refuses the program ends.
pub open spec fn gen_item(g: A64View, item: ast::Item, chain: Seq<SltView>) -> A64View {
    match item {
        ast::Item::Main { body } => {
            let scope = chain[0].children[0];
            let p = gen_statements(
                g.emit(START.spec_bytes()).emit(push_frame()).emit(
                    line2(macos::MOV, X29.spec_bytes(), SP.spec_bytes()),
                ),
                body@,
                seq![scope] + chain,
                0,
                0,
            );
            if p.ok {
                gen_data(
                    p.state.emit(unstack(scope.variables.len())).emit(pop_frame()).emit(
                        EXIT.spec_bytes(),
                    ).emit(DATA.spec_bytes()),
                    0,
                )
            } else {
                p.state
            }
        },
    }
}

/// Whether the generator refuses a statement of the item.
pub open spec fn item_refused(g: A64View, item: ast::Item, chain: Seq<SltView>) -> bool {
    match item {
        ast::Item::Main { body } => !gen_statements(
            g.emit(START.spec_bytes()).emit(push_frame()).emit(
                line2(macos::MOV, X29.spec_bytes(), SP.spec_bytes()),
            ),
            body@,
            seq![chain[0].children[0]] + chain,
            0,
            0,
        ).ok,
    }
}

impl A64View {
    /// The state of a generator that has written nothing: it knows the
    /// formats with which strings and numbers are printed.
    pub open spec fn initial() -> A64View {
        A64View {
            string_literals: seq![
                (statement::STR_FORMAT.spec_bytes(), STR_FORMAT_TEXT.spec_bytes()),
                (statement::INT_FORMAT.spec_bytes(), INT_FORMAT_TEXT.spec_bytes()),
            ],
            writer: Seq::empty(),
        }
    }
}

impl A64Compiler {
    /// Generates the program.
    pub fn item(&mut self, ast: &ast::Item, slt: &NavigableSlt) -> (r: Result<(), String>)
        requires
            slt.wf(),
            item_ok(*ast, slt@),
        ensures
            final(self)@ == gen_item(old(self)@, *ast, slt@),
            r is Err == item_refused(old(self)@, *ast, slt@),
            r is Err ==> r->Err_0@ == statement::NOT_A_VALUE@,
    {
        assert(slt@[0] == slt.slt@);
        proof {
            lemma_slts_view(slt.slt.children@);
        }
        match ast {
            ast::Item::Main { body } => {
                push_str(&mut self.writer, START);
                self.stp(X29.as_bytes(), LR.as_bytes(), SP.as_bytes(), Some(Index::pre(-16)));
                self.mov(X29.as_bytes(), SP.as_bytes());

                let mut scopes = slt.childs();
                let child = match scopes.next() {
                    Some(child) => child,
                    None => {
                        return Ok(());
                    },
                };
                assert(child@[0] == child.slt@);
                let mut childs = child.childs();

                match self.statements(body, &child, &mut childs) {
                    Ok(_) => {},
                    Err(e) => {
                        return Err(e);
                    },
                }

                let mut stack_size: Vec<u8> = Vec::new();
                crate::text::push_hex(
                    &mut stack_size,
                    (child.slt.variables.len() as u128) * statement::BLOCK_SLOT_SIZE,
                );
                assert(stack_size@ =~= crate::text::hex(16 * child.slt@.variables.len()));
                self.add(SP.as_bytes(), SP.as_bytes(), stack_size.as_slice());

                self.ldp(X29.as_bytes(), LR.as_bytes(), SP.as_bytes(), Some(Index::post(16)));

                push_str(&mut self.writer, EXIT);

                push_str(&mut self.writer, DATA);
                let ghost start = self@;
                let mut i: usize = 0;
                while i < self.string_literals.len()
                    invariant
                        i <= self.string_literals@.len(),
                        self@.string_literals == start.string_literals,
                        gen_data(self@, i as nat) == gen_data(start, 0),
                    decreases self.string_literals@.len() - i,
                {
                    let name = self.string_literals[i].0.clone();
                    let s = self.string_literals[i].1.clone();
                    let ghost before = self@;
                    push_str(&mut self.writer, TAB);
                    push_bytes(&mut self.writer, name.as_slice());
                    push_str(&mut self.writer, ASCIZ);
                    assert(self@.writer =~= before.emit(
                        TAB.spec_bytes() + name@ + ASCIZ.spec_bytes(),
                    ).writer);
                    push_bytes(&mut self.writer, s.as_slice());
                    push_str(&mut self.writer, QUOTE);
                    i += 1;
                }
                Ok(())
            },
        }
    }
}

impl Compiler for A64Compiler {
    open spec fn written(&self) -> Seq<u8> {
        self.writer@
    }

    open spec fn takes_expression(&self, ast: ast::Expr, chain: Seq<SltView>) -> bool {
        expression_ok(ast)
    }

    open spec fn with_expression(&self, ast: ast::Expr, chain: Seq<SltView>) -> Seq<u8> {
        self.writer@ + expression_lines(ast)
    }

    open spec fn takes_statement(&self, ast: ast::Stmt, chain: Seq<SltView>, pos: nat) -> bool {
        statement_ok(ast, chain, pos)
    }

    open spec fn with_statement(&self, ast: ast::Stmt, chain: Seq<SltView>, pos: nat) -> Seq<u8> {
        gen_statement(self@, ast, chain, pos).state.writer
    }

    open spec fn takes_item(&self, ast: ast::Item, chain: Seq<SltView>, pos: nat) -> bool {
        item_ok(ast, chain)
    }

    open spec fn with_item(&self, ast: ast::Item, chain: Seq<SltView>, pos: nat) -> Seq<u8> {
        gen_item(self@, ast, chain).writer
    }

    open spec fn refuses_statement(&self, ast: ast::Stmt, chain: Seq<SltView>, pos: nat) -> bool {
        !gen_statement(self@, ast, chain, pos).ok
    }

    open spec fn refuses_item(&self, ast: ast::Item, chain: Seq<SltView>, pos: nat) -> bool {
        item_refused(self@, ast, chain)
    }

    fn new() -> (c: Self)
        ensures
            c@ == A64View::initial(),
    {
        let mut string_literals: Vec<(Vec<u8>, Vec<u8>)> = Vec::new();
        string_literals.push((str_to_vec(statement::STR_FORMAT), str_to_vec(STR_FORMAT_TEXT)));
        string_literals.push((str_to_vec(statement::INT_FORMAT), str_to_vec(INT_FORMAT_TEXT)));
        let c = A64Compiler { string_literals, writer: Vec::new() };
        assert(c@.string_literals =~= A64View::initial().string_literals);
        c
    }

    fn evaluate_expression(&mut self, ast: &ast::Expr, slt: &NavigableSlt) -> (r: Result<(), String>) {
        self.expression(ast, slt)
    }

    fn evaluate_item(&mut self, ast: &ast::Item, slt: &NavigableSlt, childs: &mut ChildIterator) -> (r:
        Result<(), String>) {
        self.item(ast, slt)
    }

    fn evaluate_statement(
        &mut self,
        ast: &ast::Stmt,
        slt: &NavigableSlt,
        childs: &mut ChildIterator,
    ) -> (r: Result<(), String>) {
        self.statement(ast, slt, childs)
    }

    fn finish(self) -> (out: Vec<u8>) {
        self.writer
    }
}

} // verus!
