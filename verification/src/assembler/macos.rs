//! The instructions of AArch64 as lines of assembly.

use vstd::prelude::*;
use vstd::string::*;

use super::a64::expression::{expression_lines, expression_ok, X10};
use super::a64::instructions::{X29, X8, X9};
use super::a64::statement::{pop_frame, push_frame, push_x8, slot, unstack};
use super::a64::statement::{ANY_FORMAT, BLOCK_SLOT_SIZE, CALL_PRINTF, FALSE, INT_FORMAT, LR};
use super::a64::statement::{NOT_A_VALUE, PUSHING, SIXTEEN, SP, STR_FORMAT, TO_THE_STACK, TRUE, X0};
use super::a64::{Index, Position};
use super::Compiler;
use crate::codegen::aarch64::with_name;
use crate::parser::ast;
use crate::parser::slt::{find_variable, lemma_slts_view, ChildIterator, NavigableSlt, SltView};
use crate::parser::slt::{Value, ValueView, Variable, VariableView};
use crate::text::{dec, hex, push_bytes, push_hex, push_int, push_signed_hex, push_str, signed_hex};
use crate::text::{str_to_vec, to_vec};

verus! {

pub const SEPARATOR: &'static str = ", ";

pub const END_OF_LINE: &'static str = "\n";

pub const OPEN: &'static str = "[";

pub const CLOSE: &'static str = "]";

pub const CLOSE_WRITE_BACK: &'static str = "]!";

pub const CLOSE_THEN: &'static str = "], ";

pub const STR: &'static str = "\tstr ";

pub const STP: &'static str = "\tstp ";

pub const LDR: &'static str = "\tldr ";

pub const LDP: &'static str = "\tldp ";

pub const MOV: &'static str = "\tmov ";

pub const ADD: &'static str = "\tadd ";

pub const SUB: &'static str = "\tsub ";

pub const MUL: &'static str = "\tmul ";

pub const SDIV: &'static str = "\tsdiv ";

pub const UDIV: &'static str = "\tudiv ";

pub const MSUB: &'static str = "\tmsub ";

pub const ADRP: &'static str = "\tadrp ";

pub const PAGE: &'static str = "@PAGE\n";

pub const PAGE_OFFSET: &'static str = "@PAGEOFF\n";

/// The address of a memory operand: the base register between square
/// brackets, with the offset inside them, inside them and marked for write
/// back, or behind them.
pub open spec fn address(base: Seq<u8>, index: Option<Index>) -> Seq<u8> {
    OPEN.spec_bytes() + base + match index {
        None => CLOSE.spec_bytes(),
        Some(index) => match index.position {
            Position::Pre => SEPARATOR.spec_bytes() + index.spec_format_offset()
                + CLOSE_WRITE_BACK.spec_bytes(),
            Position::Post => CLOSE_THEN.spec_bytes() + index.spec_format_offset(),
            Position::Offset => SEPARATOR.spec_bytes() + index.spec_format_offset()
                + CLOSE.spec_bytes(),
        },
    }
}

/// An instruction with two operands.
pub open spec fn line2(name: &str, a: Seq<u8>, b: Seq<u8>) -> Seq<u8> {
    name.spec_bytes() + a + SEPARATOR.spec_bytes() + b + END_OF_LINE.spec_bytes()
}

/// An instruction with three operands.
pub open spec fn line3(name: &str, a: Seq<u8>, b: Seq<u8>, c: Seq<u8>) -> Seq<u8> {
    name.spec_bytes() + a + SEPARATOR.spec_bytes() + b + SEPARATOR.spec_bytes() + c
        + END_OF_LINE.spec_bytes()
}

/// An instruction with four operands.
pub open spec fn line4(name: &str, a: Seq<u8>, b: Seq<u8>, c: Seq<u8>, d: Seq<u8>) -> Seq<u8> {
    name.spec_bytes() + a + SEPARATOR.spec_bytes() + b + SEPARATOR.spec_bytes() + c
        + SEPARATOR.spec_bytes() + d + END_OF_LINE.spec_bytes()
}

/// The load of the address of the label `name` into `register`: the page,
/// then the offset in the page.
pub open spec fn load_string_lines(name: Seq<u8>, register: Seq<u8>) -> Seq<u8> {
    ADRP.spec_bytes() + register + SEPARATOR.spec_bytes() + name + PAGE.spec_bytes()
        + ADD.spec_bytes() + register + SEPARATOR.spec_bytes() + register + SEPARATOR.spec_bytes()
        + name + PAGE_OFFSET.spec_bytes()
}

fn push_address(writer: &mut Vec<u8>, base: &[u8], index: Option<Index>)
    ensures
        final(writer)@ == old(writer)@ + address(base@, index),
{
    push_str(writer, OPEN);
    push_bytes(writer, base);
    match index {
        None => {
            push_str(writer, CLOSE);
        },
        Some(index) => match index.position {
            Position::Pre => {
                push_str(writer, SEPARATOR);
                push_signed_hex(writer, index.offset as i64);
                push_str(writer, CLOSE_WRITE_BACK);
            },
            Position::Post => {
                push_str(writer, CLOSE_THEN);
                push_signed_hex(writer, index.offset as i64);
            },
            Position::Offset => {
                push_str(writer, SEPARATOR);
                push_signed_hex(writer, index.offset as i64);
                push_str(writer, CLOSE);
            },
        },
    }
    assert(writer@ =~= old(writer)@ + address(base@, index));
}

fn push_line2(writer: &mut Vec<u8>, name: &str, a: &[u8], b: &[u8])
    ensures
        final(writer)@ == old(writer)@ + line2(name, a@, b@),
{
    push_str(writer, name);
    push_bytes(writer, a);
    push_str(writer, SEPARATOR);
    push_bytes(writer, b);
    push_str(writer, END_OF_LINE);
    assert(writer@ =~= old(writer)@ + line2(name, a@, b@));
}

fn push_line3(writer: &mut Vec<u8>, name: &str, a: &[u8], b: &[u8], c: &[u8])
    ensures
        final(writer)@ == old(writer)@ + line3(name, a@, b@, c@),
{
    push_str(writer, name);
    push_bytes(writer, a);
    push_str(writer, SEPARATOR);
    push_bytes(writer, b);
    push_str(writer, SEPARATOR);
    push_bytes(writer, c);
    push_str(writer, END_OF_LINE);
    assert(writer@ =~= old(writer)@ + line3(name, a@, b@, c@));
}

pub fn load_string(writer: &mut Vec<u8>, name: &[u8], register: &[u8])
    ensures
        final(writer)@ == old(writer)@ + load_string_lines(name@, register@),
{
    push_str(writer, ADRP);
    push_bytes(writer, register);
    push_str(writer, SEPARATOR);
    push_bytes(writer, name);
    push_str(writer, PAGE);
    push_str(writer, ADD);
    push_bytes(writer, register);
    push_str(writer, SEPARATOR);
    push_bytes(writer, register);
    push_str(writer, SEPARATOR);
    push_bytes(writer, name);
    push_str(writer, PAGE_OFFSET);
    assert(writer@ =~= old(writer)@ + load_string_lines(name@, register@));
}

/// Stores the register `src` at the address that `dst` and `index` give.
pub fn str(writer: &mut Vec<u8>, src: &[u8], dst: &[u8], index: Option<Index>)
    ensures
        final(writer)@ == old(writer)@ + line2(STR, src@, address(dst@, index)),
{
    let mut operand: Vec<u8> = Vec::new();
    push_address(&mut operand, dst, index);
    assert(operand@ =~= address(dst@, index));
    push_line2(writer, STR, src, operand.as_slice());
}

/// Stores the registers `src1` and `src2` at the address that `dst` and
/// `index` give.
pub fn stp(writer: &mut Vec<u8>, src1: &[u8], src2: &[u8], dst: &[u8], index: Option<Index>)
    ensures
        final(writer)@ == old(writer)@ + line3(STP, src1@, src2@, address(dst@, index)),
{
    let mut operand: Vec<u8> = Vec::new();
    push_address(&mut operand, dst, index);
    assert(operand@ =~= address(dst@, index));
    push_line3(writer, STP, src1, src2, operand.as_slice());
}

/// Loads the register `dst` from the address that `src` and `index` give.
pub fn ldr(writer: &mut Vec<u8>, src: &[u8], dst: &[u8], index: Option<Index>)
    ensures
        final(writer)@ == old(writer)@ + line2(LDR, dst@, address(src@, index)),
{
    let mut operand: Vec<u8> = Vec::new();
    push_address(&mut operand, src, index);
    assert(operand@ =~= address(src@, index));
    push_line2(writer, LDR, dst, operand.as_slice());
}

/// Loads the registers `src1` and `src2` from the address that `dst` and
/// `index` give.
pub fn ldp(writer: &mut Vec<u8>, src1: &[u8], src2: &[u8], dst: &[u8], index: Option<Index>)
    ensures
        final(writer)@ == old(writer)@ + line3(LDP, src1@, src2@, address(dst@, index)),
{
    let mut operand: Vec<u8> = Vec::new();
    push_address(&mut operand, dst, index);
    assert(operand@ =~= address(dst@, index));
    push_line3(writer, LDP, src1, src2, operand.as_slice());
}

pub fn mov(writer: &mut Vec<u8>, dst: &[u8], value: &[u8])
    ensures
        final(writer)@ == old(writer)@ + line2(MOV, dst@, value@),
{
    push_line2(writer, MOV, dst, value);
}

pub fn add(writer: &mut Vec<u8>, dst: &[u8], src1: &[u8], src2: &[u8])
    ensures
        final(writer)@ == old(writer)@ + line3(ADD, dst@, src1@, src2@),
{
    push_line3(writer, ADD, dst, src1, src2);
}

pub fn sub(writer: &mut Vec<u8>, dst: &[u8], src1: &[u8], src2: &[u8])
    ensures
        final(writer)@ == old(writer)@ + line3(SUB, dst@, src1@, src2@),
{
    push_line3(writer, SUB, dst, src1, src2);
}

pub fn mul(writer: &mut Vec<u8>, dst: &[u8], src1: &[u8], src2: &[u8])
    ensures
        final(writer)@ == old(writer)@ + line3(MUL, dst@, src1@, src2@),
{
    push_line3(writer, MUL, dst, src1, src2);
}

pub fn sdiv(writer: &mut Vec<u8>, dst: &[u8], src1: &[u8], src2: &[u8])
    ensures
        final(writer)@ == old(writer)@ + line3(SDIV, dst@, src1@, src2@),
{
    push_line3(writer, SDIV, dst, src1, src2);
}

pub fn udiv(writer: &mut Vec<u8>, dst: &[u8], src1: &[u8], src2: &[u8])
    ensures
        final(writer)@ == old(writer)@ + line3(UDIV, dst@, src1@, src2@),
{
    push_line3(writer, UDIV, dst, src1, src2);
}

pub fn msub(writer: &mut Vec<u8>, dst: &[u8], src1: &[u8], src2: &[u8], src3: &[u8])
    ensures
        final(writer)@ == old(writer)@ + line4(MSUB, dst@, src1@, src2@, src3@),
{
    push_str(writer, MSUB);
    push_bytes(writer, dst);
    push_str(writer, SEPARATOR);
    push_bytes(writer, src1);
    push_str(writer, SEPARATOR);
    push_bytes(writer, src2);
    push_str(writer, SEPARATOR);
    push_bytes(writer, src3);
    push_str(writer, END_OF_LINE);
    assert(writer@ =~= old(writer)@ + line4(MSUB, dst@, src1@, src2@, src3@));
}


// ---------------------------------------------------------------------------
// The first generator: declarations, prints and assignments in one block.
// ---------------------------------------------------------------------------
pub const COMMENT: &'static str = "\t// ";

pub const IMMEDIATE: &'static str = "#";

pub const START_OPERATIONS: &'static str = "\n\t// Start operations\n";

pub const END_OPERATIONS: &'static str = "\n\t//End operations\n\n";

pub struct MacOsARM {
    /// the string literals met so far, each with its label
    pub string_literals: Vec<(Vec<u8>, Vec<u8>)>,
    /// the assembly written so far
    pub writer: Vec<u8>,
}

pub struct MacOsView {
    pub string_literals: Seq<(Seq<u8>, Seq<u8>)>,
    pub writer: Seq<u8>,
}

impl View for MacOsARM {
    type V = MacOsView;

    open spec fn view(&self) -> MacOsView {
        MacOsView {
            string_literals: self.string_literals@.map_values(
                |e: (Vec<u8>, Vec<u8>)| (e.0@, e.1@),
            ),
            writer: self.writer@,
        }
    }
}

/// The code of a step of an assignment.
pub open spec fn step_lines(e: ast::Expr) -> Seq<u8> {
    expression_lines(e)
}

impl MacOsView {
    /// The state after `text` was written.
    pub open spec fn emit(self, text: Seq<u8>) -> MacOsView {
        MacOsView { writer: self.writer + text, ..self }
    }

    /// The state after one more string literal was noted.
    pub open spec fn note(self, name: Seq<u8>, text: Seq<u8>) -> MacOsView {
        MacOsView { string_literals: self.string_literals.push((name, text)), ..self }
    }

    /// The state after the jump into `printf` and the release of what was
    /// pushed for it.
    pub open spec fn call_printf(self) -> MacOsView {
        self.emit(CALL_PRINTF.spec_bytes()).emit(
            line3(ADD, SP.spec_bytes(), SP.spec_bytes(), SIXTEEN.spec_bytes()),
        )
    }

    /// The state after the declaration of the variable `var`: its value is
    /// pushed, an integer as a decimal immediate, a string by the address
    /// of a literal that is noted under the name of the variable.
    #[verifier::opaque]
    pub open spec fn let_statement(self, var: VariableView, value: ast::Expr) -> MacOsView {
        let g = self.emit(with_name(COMMENT, with_name(PUSHING, var.id, TO_THE_STACK), END_OF_LINE));
        (match var.value {
            ValueView::Str(s) => g.emit(load_string_lines(var.id, X8.spec_bytes())).emit(
                push_x8(),
            ).note(var.id, s),
            ValueView::Int(i) => g.emit(
                line2(MOV, X8.spec_bytes(), IMMEDIATE.spec_bytes() + dec(i as int)),
            ).emit(push_x8()),
            ValueView::Bool(b) => g.emit(
                line2(
                    MOV,
                    X8.spec_bytes(),
                    if b {
                        TRUE.spec_bytes()
                    } else {
                        FALSE.spec_bytes()
                    },
                ),
            ).emit(push_x8()),
            ValueView::Unset => g,
        }).emit(step_lines(value))
    }

    /// The state after the print of the variable `var`: a string and an
    /// integer are read from the frame and pushed; the format is that of
    /// the kind of the value.
    #[verifier::opaque]
    pub open spec fn print_variable(self, var: VariableView) -> MacOsView {
        (match var.value {
            ValueView::Str(_) => self.emit(line2(LDR, X8.spec_bytes(), slot(var.offset))).emit(
                push_x8(),
            ).emit(load_string_lines(STR_FORMAT.spec_bytes(), X0.spec_bytes())),
            ValueView::Int(_) => self.emit(line2(LDR, X8.spec_bytes(), slot(var.offset))).emit(
                push_x8(),
            ).emit(load_string_lines(INT_FORMAT.spec_bytes(), X0.spec_bytes())),
            _ => self.emit(load_string_lines(ANY_FORMAT.spec_bytes(), X0.spec_bytes())),
        }).call_printf()
    }
}

/// The state after the steps from the `i`th on.
pub open spec fn gen_steps(g: MacOsView, operations: Seq<ast::Expr>, i: nat) -> MacOsView
    decreases operations.len() - i,
{
    if i >= operations.len() {
        g
    } else {
        gen_steps(g.emit(step_lines(operations[i as int])), operations, i + 1)
    }
}

/// Whether the generator has code for the steps from the `i`th on.
pub open spec fn steps_ok(operations: Seq<ast::Expr>, i: nat) -> bool
    decreases operations.len() - i,
{
    i >= operations.len() || (expression_ok(operations[i as int]) && steps_ok(operations, i + 1))
}

/// The state after an assignment: the initial value is put into `x8`, the
/// steps are applied, and `x8` is stored to the variable.
pub open spec fn gen_assignment(
    g: MacOsView,
    target: ast::Expr,
    initial: ast::Expr,
    operations: Seq<ast::Expr>,
    chain: Seq<SltView>,
) -> MacOsView {
    let g1 = g.emit(START_OPERATIONS.spec_bytes());
    let g2 = match initial {
        ast::Expr::Literal(ast::Lit::Int(v)) => g1.emit(line2(MOV, X8.spec_bytes(), hex(v as nat))),
        ast::Expr::Ident(id) => match find_variable(chain, id@) {
            Some(var) => g1.emit(line2(LDR, X8.spec_bytes(), slot(var.offset))),
            None => g1,
        },
        _ => g1,
    };
    let g3 = gen_steps(g2, operations, 0);
    match target {
        ast::Expr::Ident(id) => match find_variable(chain, id@) {
            Some(var) => g3.emit(line2(STR, X8.spec_bytes(), slot(var.offset))).emit(
                END_OPERATIONS.spec_bytes(),
            ),
            None => g3,
        },
        _ => g3,
    }
}

/// Whether the first generator has code for the statement: it has none
/// for a condition; every variable resolves, the operand of every step is
/// a natural number, and an assignment goes to an identifier and starts
/// from a literal or an identifier.
pub open spec fn statement_ok(stmt: ast::Stmt, chain: Seq<SltView>) -> bool {
    match stmt {
        ast::Stmt::Let { var_name, value } => find_variable(chain, var_name@) is Some
            && expression_ok(*value),
        ast::Stmt::Print { value } => match *value {
            ast::Expr::Ident(id) => find_variable(chain, id@) is Some,
            _ => true,
        },
        ast::Stmt::Assignment { var_name, initial_value, operations } => {
            &&& match *var_name {
                ast::Expr::Ident(id) => find_variable(chain, id@) is Some,
                _ => false,
            }
            &&& match *initial_value {
                ast::Expr::Literal(_) => true,
                ast::Expr::Ident(id) => find_variable(chain, id@) is Some,
                _ => false,
            }
            &&& steps_ok(operations@, 0)
        },
        ast::Stmt::IfStmt { condition, body, else_stmt } => false,
    }
}

/// The state after a statement, and whether the generator took it: the
/// print of a step of an assignment is refused. The print of a literal
/// calls `printf` with what lies on the stack.
#[verifier::opaque]
pub open spec fn gen_statement(g: MacOsView, stmt: ast::Stmt, chain: Seq<SltView>) -> (
    MacOsView,
    bool,
) {
    match stmt {
        ast::Stmt::Let { var_name, value } => match find_variable(chain, var_name@) {
            Some(var) => (g.let_statement(VariableView { id: var_name@, ..var }, *value), true),
            None => (g, true),
        },
        ast::Stmt::Print { value } => match *value {
            ast::Expr::Literal(_) => (g.call_printf(), true),
            ast::Expr::Ident(id) => match find_variable(chain, id@) {
                Some(var) => (g.print_variable(var), true),
                None => (g, true),
            },
            ast::Expr::Op { op, value } => (g, false),
        },
        ast::Stmt::Assignment { var_name, initial_value, operations } => (
            gen_assignment(g, *var_name, *initial_value, operations@, chain),
            true,
        ),
        ast::Stmt::IfStmt { condition, body, else_stmt } => (g, true),
    }
}

/// Whether the generator has code for the statements from the `i`th on.
pub open spec fn statements_ok(stmts: Seq<ast::Stmt>, chain: Seq<SltView>, i: nat) -> bool
    decreases stmts.len() - i,
{
    i >= stmts.len() || (statement_ok(stmts[i as int], chain) && statements_ok(
        stmts,
        chain,
        i + 1,
    ))
}

/// The state after the statements from the `i`th on, up to the first that
/// the generator refuses, and whether it took them all.
pub open spec fn gen_statements(g: MacOsView, stmts: Seq<ast::Stmt>, chain: Seq<SltView>, i: nat) -> (
    MacOsView,
    bool,
)
    decreases stmts.len() - i,
{
    if i >= stmts.len() {
        (g, true)
    } else if gen_statement(g, stmts[i as int], chain).1 {
        gen_statements(gen_statement(g, stmts[i as int], chain).0, stmts, chain, i + 1)
    } else {
        gen_statement(g, stmts[i as int], chain)
    }
}

/// The state after the entries of the literals from place `from` on were
/// written to the data section.
pub open spec fn gen_data(g: MacOsView, from: nat) -> MacOsView
    decreases g.string_literals.len() - from,
{
    if from >= g.string_literals.len() {
        g
    } else {
        gen_data(
            g.emit(
                super::a64::TAB.spec_bytes() + g.string_literals[from as int].0
                    + super::a64::ASCIZ.spec_bytes(),
            ).emit(g.string_literals[from as int].1).emit(super::a64::QUOTE.spec_bytes()),
            (from + 1) as nat,
        )
    }
}

/// Whether the generator has code for the item.
pub open spec fn item_ok(item: ast::Item, chain: Seq<SltView>) -> bool {
    match item {
        ast::Item::Main { body } => chain[0].children.len() > 0 && statements_ok(
            body@,
            seq![chain[0].children[0]] + chain,
            0,
        ),
    }
}

/// The state after the program: the entry, the statements in a block of
/// their own, the exit, and the data section with the string literals.
pub open spec fn gen_item(g: MacOsView, item: ast::Item, chain: Seq<SltView>) -> MacOsView {
    match item {
        ast::Item::Main { body } => {
            let scope = chain[0].children[0];
            let p = gen_statements(
                g.emit(super::a64::START.spec_bytes()).emit(push_frame()).emit(
                    line2(MOV, X29.spec_bytes(), SP.spec_bytes()),
                ),
                body@,
                seq![scope] + chain,
                0,
            );
            if p.1 {
                gen_data(
                    p.0.emit(unstack(scope.variables.len())).emit(pop_frame()).emit(
                        super::a64::EXIT.spec_bytes(),
                    ).emit(super::a64::DATA.spec_bytes()),
                    0,
                )
            } else {
                p.0
            }
        },
    }
}

/// Whether the generator refuses a statement of the item.
pub open spec fn item_refused(g: MacOsView, item: ast::Item, chain: Seq<SltView>) -> bool {
    match item {
        ast::Item::Main { body } => !gen_statements(
            g.emit(super::a64::START.spec_bytes()).emit(push_frame()).emit(
                line2(MOV, X29.spec_bytes(), SP.spec_bytes()),
            ),
            body@,
            seq![chain[0].children[0]] + chain,
            0,
        ).1,
    }
}

impl MacOsARM {
    fn emit(&mut self, text: &str)
        ensures
            final(self)@ == old(self)@.emit(text.spec_bytes()),
    {
        push_str(&mut self.writer, text);
    }

    fn note(&mut self, name: Vec<u8>, text: Vec<u8>)
        ensures
            final(self)@ == old(self)@.note(name@, text@),
    {
        self.string_literals.push((name, text));
        assert(self@.string_literals =~= old(self)@.string_literals.push((name@, text@)));
    }

    fn push_x8(&mut self)
        ensures
            final(self)@ == old(self)@.emit(push_x8()),
    {
        self::str(&mut self.writer, X8.as_bytes(), SP.as_bytes(), Some(Index::pre(-16)));
    }

    fn call_printf(&mut self)
        ensures
            final(self)@ == old(self)@.call_printf(),
    {
        // Everything must be in the stack
        self.emit(CALL_PRINTF);
        self::add(&mut self.writer, SP.as_bytes(), SP.as_bytes(), SIXTEEN.as_bytes());
    }

    fn let_statement(&mut self, var_name: &[u8], variable: &Variable, value: &ast::Expr, slt: &NavigableSlt)
        requires
            expression_ok(*value),
        ensures
            final(self)@ == old(self)@.let_statement(
                VariableView { id: var_name@, ..variable@ },
                *value,
            ),
    {
        reveal(MacOsView::let_statement);
        let mut note = str_to_vec(PUSHING);
        push_bytes(&mut note, var_name);
        push_str(&mut note, TO_THE_STACK);
        assert(note@ =~= with_name(PUSHING, var_name@, TO_THE_STACK));
        push_str(&mut self.writer, COMMENT);
        push_bytes(&mut self.writer, note.as_slice());
        push_str(&mut self.writer, END_OF_LINE);
        assert(self@.writer =~= old(self)@.emit(
            with_name(COMMENT, with_name(PUSHING, var_name@, TO_THE_STACK), END_OF_LINE),
        ).writer);
        match &variable.value {
            Value::Str(s) => {
                load_string(&mut self.writer, var_name, X8.as_bytes());
                self.push_x8();
                self.note(to_vec(var_name), s.clone());
            },
            Value::Int(i) => {
                let mut immediate = str_to_vec(IMMEDIATE);
                push_int(&mut immediate, *i);
                mov(&mut self.writer, X8.as_bytes(), immediate.as_slice());
                self.push_x8();
            },
            Value::Bool(b) => {
                if *b {
                    mov(&mut self.writer, X8.as_bytes(), TRUE.as_bytes());
                } else {
                    mov(&mut self.writer, X8.as_bytes(), FALSE.as_bytes());
                }
                self.push_x8();
            },
            Value::Unset => {},
        }
        let _ = self.expression(value, slt);
    }

    fn print_variable(&mut self, variable: &Variable)
        ensures
            final(self)@ == old(self)@.print_variable(variable@),
    {
        reveal(MacOsView::print_variable);
        match variable.value {
            Value::Str(_) => {
                ldr(&mut self.writer, X29.as_bytes(), X8.as_bytes(), Some(Index::offset(variable.offset)));
                self.push_x8();
                load_string(&mut self.writer, STR_FORMAT.as_bytes(), X0.as_bytes());
            },
            Value::Int(_) => {
                ldr(&mut self.writer, X29.as_bytes(), X8.as_bytes(), Some(Index::offset(variable.offset)));
                self.push_x8();
                load_string(&mut self.writer, INT_FORMAT.as_bytes(), X0.as_bytes());
            },
            _ => {
                load_string(&mut self.writer, ANY_FORMAT.as_bytes(), X0.as_bytes());
            },
        }
        self.call_printf();
    }

    /// Generates one step of an assignment.
    pub fn expression(&mut self, ast: &ast::Expr, _slt: &NavigableSlt) -> (r: Result<(), String>)
        requires
            expression_ok(*ast),
        ensures
            r is Ok,
            final(self)@ == old(self)@.emit(step_lines(*ast)),
    {
        match ast {
            ast::Expr::Op { op, value } => {
                let value = match value {
                    ast::Lit::Int(v) => *v,
                    _ => {
                        return Ok(());
                    },
                };
                let mut immediate: Vec<u8> = Vec::new();
                push_hex(&mut immediate, value as u128);
                assert(immediate@ =~= hex(value as nat));
                match op {
                    ast::Op::Add => self::add(
                        &mut self.writer,
                        X8.as_bytes(),
                        X8.as_bytes(),
                        immediate.as_slice(),
                    ),
                    ast::Op::Sub => self::sub(
                        &mut self.writer,
                        X8.as_bytes(),
                        X8.as_bytes(),
                        immediate.as_slice(),
                    ),
                    ast::Op::Mul => {
                        mov(&mut self.writer, X9.as_bytes(), immediate.as_slice());
                        self::mul(&mut self.writer, X8.as_bytes(), X8.as_bytes(), X9.as_bytes());
                    },
                    ast::Op::Div => {
                        mov(&mut self.writer, X9.as_bytes(), immediate.as_slice());
                        sdiv(&mut self.writer, X8.as_bytes(), X8.as_bytes(), X9.as_bytes());
                    },
                    ast::Op::Mod => {
                        mov(&mut self.writer, X9.as_bytes(), immediate.as_slice());
                        udiv(&mut self.writer, X10.as_bytes(), X8.as_bytes(), X9.as_bytes());
                        msub(
                            &mut self.writer,
                            X8.as_bytes(),
                            X10.as_bytes(),
                            X9.as_bytes(),
                            X8.as_bytes(),
                        );
                    },
                }
                assert(self@.writer =~= old(self)@.emit(step_lines(*ast)).writer);
                Ok(())
            },
            _ => {
                assert(self@.writer =~= old(self)@.emit(step_lines(*ast)).writer);
                Ok(())
            },
        }
    }

    fn assignment(
        &mut self,
        var_name: &ast::Expr,
        initial_value: &ast::Expr,
        operations: &Vec<ast::Expr>,
        slt: &NavigableSlt,
    )
        requires
            steps_ok(operations@, 0),
        ensures
            final(self)@ == gen_assignment(
                old(self)@,
                *var_name,
                *initial_value,
                operations@,
                slt@,
            ),
    {
        self.emit(START_OPERATIONS);
        match initial_value {
            ast::Expr::Literal(lit) => {
                match lit {
                    ast::Lit::Int(init) => {
                        let mut immediate: Vec<u8> = Vec::new();
                        push_hex(&mut immediate, *init as u128);
                        assert(immediate@ =~= hex(*init as nat));
                        mov(&mut self.writer, X8.as_bytes(), immediate.as_slice());
                    },
                    _ => {},
                }
            },
            ast::Expr::Ident(ident) => {
                match slt.find_variable(ident.as_slice()) {
                    Some(variable) => {
                        ldr(
                            &mut self.writer,
                            X29.as_bytes(),
                            X8.as_bytes(),
                            Some(Index::offset(variable.offset)),
                        );
                    },
                    None => {},
                }
            },
            _ => {},
        }
        let ghost start = self@;
        let mut i: usize = 0;
        while i < operations.len()
            invariant
                i <= operations@.len(),
                steps_ok(operations@, i as nat),
                gen_steps(self@, operations@, i as nat) == gen_steps(start, operations@, 0),
            decreases operations@.len() - i,
        {
            let _ = self.expression(&operations[i], slt);
            i += 1;
        }

        match var_name {
            ast::Expr::Ident(ident) => {
                match slt.find_variable(ident.as_slice()) {
                    Some(variable) => {
                        self::str(
                            &mut self.writer,
                            X8.as_bytes(),
                            X29.as_bytes(),
                            Some(Index::offset(variable.offset)),
                        );
                        self.emit(END_OPERATIONS);
                    },
                    None => {},
                }
            },
            _ => {},
        }
    }

    /// Generates a statement.
    pub fn statement(&mut self, ast: &ast::Stmt, slt: &NavigableSlt) -> (r: Result<(), String>)
        requires
            statement_ok(*ast, slt@),
        ensures
            (final(self)@, r is Ok) == gen_statement(old(self)@, *ast, slt@),
            r is Err ==> r->Err_0@ == NOT_A_VALUE@,
    {
        reveal(gen_statement);
        match ast {
            ast::Stmt::Let { var_name, value } => {
                match slt.find_variable(var_name.as_slice()) {
                    Some(variable) => {
                        self.let_statement(var_name.as_slice(), variable, value, slt);
                    },
                    None => {},
                }
                Ok(())
            },
            ast::Stmt::Print { value } => {
                // Validate it's a value
                match &**value {
                    ast::Expr::Literal(_) => {
                        self.call_printf();
                    },
                    ast::Expr::Ident(ident) => {
                        match slt.find_variable(ident.as_slice()) {
                            Some(variable) => {
                                self.print_variable(variable);
                            },
                            None => {},
                        }
                    },
                    _ => {
                        return Err(NOT_A_VALUE.to_owned());
                    },
                }
                Ok(())
            },
            ast::Stmt::Assignment { var_name, initial_value, operations } => {
                self.assignment(var_name, initial_value, operations, slt);
                Ok(())
            },
            ast::Stmt::IfStmt { condition, body, else_stmt } => Ok(()),
        }
    }

    /// Generates the statements of the program.
    pub fn statements(&mut self, stmts: &Vec<ast::Stmt>, slt: &NavigableSlt) -> (r: Result<
        (),
        String,
    >)
        requires
            statements_ok(stmts@, slt@, 0),
        ensures
            (final(self)@, r is Ok) == gen_statements(old(self)@, stmts@, slt@, 0),
            r is Err ==> r->Err_0@ == NOT_A_VALUE@,
    {
        let mut k: usize = 0;
        while k < stmts.len()
            invariant
                k <= stmts@.len(),
                statements_ok(stmts@, slt@, k as nat),
                gen_statements(self@, stmts@, slt@, k as nat) == gen_statements(
                    old(self)@,
                    stmts@,
                    slt@,
                    0,
                ),
            decreases stmts@.len() - k,
        {
            match self.statement(&stmts[k], slt) {
                Ok(_) => {},
                Err(e) => {
                    return Err(e);
                },
            }
            k += 1;
        }
        Ok(())
    }

    /// Generates the program.
    pub fn item(&mut self, ast: &ast::Item, slt: &NavigableSlt) -> (r: Result<(), String>)
        requires
            slt.wf(),
            item_ok(*ast, slt@),
        ensures
            final(self)@ == gen_item(old(self)@, *ast, slt@),
            r is Err == item_refused(old(self)@, *ast, slt@),
            r is Err ==> r->Err_0@ == NOT_A_VALUE@,
    {
        assert(slt@[0] == slt.slt@);
        proof {
            lemma_slts_view(slt.slt.children@);
        }
        match ast {
            ast::Item::Main { body } => {
                self.emit(super::a64::START);
                stp(&mut self.writer, X29.as_bytes(), LR.as_bytes(), SP.as_bytes(), Some(Index::pre(-16)));
                mov(&mut self.writer, X29.as_bytes(), SP.as_bytes());

                let mut scopes = slt.childs();
                let child = match scopes.next() {
                    Some(child) => child,
                    None => {
                        return Ok(());
                    },
                };

                match self.statements(body, &child) {
                    Ok(_) => {},
                    Err(e) => {
                        return Err(e);
                    },
                }

                let mut stack_size: Vec<u8> = Vec::new();
                push_hex(&mut stack_size, (child.slt.variables.len() as u128) * BLOCK_SLOT_SIZE);
                assert(child@[0] == child.slt@);
                assert(stack_size@ =~= hex(16 * child.slt@.variables.len()));
                self::add(&mut self.writer, SP.as_bytes(), SP.as_bytes(), stack_size.as_slice());

                ldp(&mut self.writer, X29.as_bytes(), LR.as_bytes(), SP.as_bytes(), Some(Index::post(16)));

                self.emit(super::a64::EXIT);

                self.emit(super::a64::DATA);
                let ghost start = self@;
                let mut i: usize = 0;
                while i < self.string_literals.len()
                    invariant
                        i <= self.string_literals@.len(),
                        self@.string_literals == start.string_literals,
                        gen_data(self@, i as nat) == gen_data(start, 0),
                    decreases self.string_literals@.len() - i,
                {
                    let name = self.string_literals[i].0.clone();
                    let s = self.string_literals[i].1.clone();
                    let ghost before = self@;
                    push_str(&mut self.writer, super::a64::TAB);
                    push_bytes(&mut self.writer, name.as_slice());
                    push_str(&mut self.writer, super::a64::ASCIZ);
                    assert(self@.writer =~= before.emit(
                        super::a64::TAB.spec_bytes() + name@ + super::a64::ASCIZ.spec_bytes(),
                    ).writer);
                    push_bytes(&mut self.writer, s.as_slice());
                    push_str(&mut self.writer, super::a64::QUOTE);
                    i += 1;
                }
                Ok(())
            },
        }
    }
}

impl Compiler for MacOsARM {
    open spec fn written(&self) -> Seq<u8> {
        self.writer@
    }

    open spec fn takes_expression(&self, ast: ast::Expr, chain: Seq<SltView>) -> bool {
        expression_ok(ast)
    }

    open spec fn with_expression(&self, ast: ast::Expr, chain: Seq<SltView>) -> Seq<u8> {
        self.writer@ + step_lines(ast)
    }

    open spec fn takes_statement(&self, ast: ast::Stmt, chain: Seq<SltView>, pos: nat) -> bool {
        statement_ok(ast, chain)
    }

    open spec fn with_statement(&self, ast: ast::Stmt, chain: Seq<SltView>, pos: nat) -> Seq<u8> {
        gen_statement(self@, ast, chain).0.writer
    }

    open spec fn takes_item(&self, ast: ast::Item, chain: Seq<SltView>, pos: nat) -> bool {
        item_ok(ast, chain)
    }

    open spec fn with_item(&self, ast: ast::Item, chain: Seq<SltView>, pos: nat) -> Seq<u8> {
        gen_item(self@, ast, chain).writer
    }

    open spec fn refuses_statement(&self, ast: ast::Stmt, chain: Seq<SltView>, pos: nat) -> bool {
        !gen_statement(self@, ast, chain).1
    }

    open spec fn refuses_item(&self, ast: ast::Item, chain: Seq<SltView>, pos: nat) -> bool {
        item_refused(self@, ast, chain)
    }

    fn new() -> (c: Self)
        ensures
            c@.string_literals == super::a64::A64View::initial().string_literals,
    {
        let mut string_literals: Vec<(Vec<u8>, Vec<u8>)> = Vec::new();
        string_literals.push((str_to_vec(STR_FORMAT), str_to_vec(super::a64::STR_FORMAT_TEXT)));
        string_literals.push((str_to_vec(INT_FORMAT), str_to_vec(super::a64::INT_FORMAT_TEXT)));
        let c = MacOsARM { string_literals, writer: Vec::new() };
        assert(c@.string_literals =~= super::a64::A64View::initial().string_literals);
        c
    }

    fn evaluate_expression(&mut self, ast: &ast::Expr, slt: &NavigableSlt) -> (r: Result<(), String>) {
        self.expression(ast, slt)
    }

    fn evaluate_item(&mut self, ast: &ast::Item, slt: &NavigableSlt, childs: &mut ChildIterator) -> (r:
        Result<(), String>) {
        self.item(ast, slt)
    }

    fn evaluate_statement(
        &mut self,
        ast: &ast::Stmt,
        slt: &NavigableSlt,
        childs: &mut ChildIterator,
    ) -> (r: Result<(), String>) {
        self.statement(ast, slt)
    }

    fn finish(self) -> (out: Vec<u8>) {
        self.writer
    }
}

} // verus!
