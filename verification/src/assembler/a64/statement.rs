//! Statements: declarations, prints, assignments and conditions.

use vstd::prelude::*;
use vstd::string::*;

use super::expression::{expression_lines, expression_ok};
use super::instructions::{branch_line, compare_line, comment_line, label_line, load_variable_lines};
use super::instructions::{X29, X8};
use super::{A64Compiler, A64View, Index, Position};
use crate::assembler::macos;
use crate::assembler::macos::{address, line2, line3, load_string_lines};
use crate::codegen::aarch64::with_name;
use crate::parser::ast;
use crate::parser::slt::{chain_wf, find_variable, lemma_child_chain_wf, lemma_find_variable};
use crate::parser::slt::{lemma_slts_view, ChildIterator, NavigableSlt, SltView, Value, ValueView};
use crate::parser::slt::{Variable, VariableView};
use crate::text::{dec, hex, push_bytes, push_dec, push_hex, push_signed_hex, push_str, signed_hex};
use crate::text::str_to_vec;

verus! {

pub const SP: &'static str = "sp";

pub const LR: &'static str = "lr";

pub const X0: &'static str = "x0";

pub const NOT_EQUAL: &'static str = "ne";

pub const ALWAYS: &'static str = "";

pub const PUSHING: &'static str = "Pushing variable ";

pub const TO_THE_STACK: &'static str = " to the stack";

pub const LOAD_VARIABLE: &'static str = "Load variable ";

pub const START_OPERATIONS: &'static str = "Start operations";

pub const END_OPERATIONS: &'static str = "End operations";

pub const START_THEN: &'static str = "Start of then block";

pub const UNSTACK_THEN: &'static str = "Unstack then block";

pub const START_ELSE: &'static str = "Start of else block";

pub const UNSTACK_ELSE: &'static str = "Unstack else block";

pub const STR_FORMAT: &'static str = "str_format";

pub const INT_FORMAT: &'static str = "int_format";

pub const ANY_FORMAT: &'static str = "any";

pub const LITERAL: &'static str = "_lit_";

pub const IF_END: &'static str = "if_end_";

pub const IF_ELSE: &'static str = "if_else_";

pub const CALL_PRINTF: &'static str = "\tbl _printf\n";

pub const SIXTEEN: &'static str = "0x10";

pub const TRUE: &'static str = "#1";

pub const FALSE: &'static str = "#0";

pub const NOT_A_VALUE: &'static str = crate::assembler::REFUSED;

/// The number of bytes that a block keeps for each of its variables.
pub const BLOCK_SLOT_SIZE: u128 = 16;

/// The push of `x8`.
pub open spec fn push_x8() -> Seq<u8> {
    line2(
        macos::STR,
        X8.spec_bytes(),
        address(SP.spec_bytes(), Some(Index { offset: -16i32, position: Position::Pre })),
    )
}

/// The push of the frame record.
pub open spec fn push_frame() -> Seq<u8> {
    line3(
        macos::STP,
        X29.spec_bytes(),
        LR.spec_bytes(),
        address(SP.spec_bytes(), Some(Index { offset: -16i32, position: Position::Pre })),
    )
}

/// The pop of the frame record.
pub open spec fn pop_frame() -> Seq<u8> {
    line3(
        macos::LDP,
        X29.spec_bytes(),
        LR.spec_bytes(),
        address(SP.spec_bytes(), Some(Index { offset: 16i32, position: Position::Post })),
    )
}

/// The release of the stack of a block with `slots` variables.
pub open spec fn unstack(slots: nat) -> Seq<u8> {
    line3(macos::ADD, SP.spec_bytes(), SP.spec_bytes(), hex(16 * slots))
}

/// The access to the variable at the offset `offset` of the frame.
pub open spec fn slot(offset: i32) -> Seq<u8> {
    address(X29.spec_bytes(), Some(Index { offset, position: Position::Offset }))
}

/// The label of the format with which a value of this kind is printed.
pub open spec fn format_of(value: ValueView) -> Seq<u8> {
    match value {
        ValueView::Str(_) => STR_FORMAT.spec_bytes(),
        ValueView::Int(_) => INT_FORMAT.spec_bytes(),
        _ => ANY_FORMAT.spec_bytes(),
    }
}

/// How far the generation of statements has come.
pub struct Progress {
    pub state: A64View,
    /// the place of the nested scope that the next condition takes
    pub pos: nat,
    /// `false` once a statement was met that the generator refuses
    pub ok: bool,
}

impl A64View {
    /// The state after the jump into `printf` and the release of what was
    /// pushed for it.
    #[verifier::opaque]
    pub open spec fn call_printf(self) -> A64View {
        self.emit(CALL_PRINTF.spec_bytes()).emit(
            line3(macos::ADD, SP.spec_bytes(), SP.spec_bytes(), SIXTEEN.spec_bytes()),
        )
    }

    /// The state after the declaration of the variable `var`: its value is
    /// pushed, a string by the address of a literal that is noted under
    /// the name of the variable.
    #[verifier::opaque]
    pub open spec fn let_statement(self, var: VariableView, value: ast::Expr) -> A64View {
        let g = self.emit(comment_line(with_name(PUSHING, var.id, TO_THE_STACK)));
        (match var.value {
            ValueView::Str(s) => g.emit(load_string_lines(var.id, X8.spec_bytes())).emit(
                push_x8(),
            ).note(var.id, s),
            ValueView::Int(i) => g.emit(
                line2(macos::MOV, X8.spec_bytes(), signed_hex(i as int)),
            ).emit(push_x8()),
            ValueView::Bool(b) => g.emit(
                line2(
                    macos::MOV,
                    X8.spec_bytes(),
                    if b {
                        TRUE.spec_bytes()
                    } else {
                        FALSE.spec_bytes()
                    },
                ),
            ).emit(push_x8()),
            ValueView::Unset => g,
        }).emit(expression_lines(value))
    }

    /// The state after the print of a string literal, which is noted under
    /// a label made from the number of literals noted so far.
    #[verifier::opaque]
    pub open spec fn print_string(self, s: Seq<u8>) -> A64View {
        let name = LITERAL.spec_bytes() + dec(self.string_literals.len() as int);
        self.note(name, s).emit(load_string_lines(name, X8.spec_bytes())).emit(
            load_string_lines(STR_FORMAT.spec_bytes(), X0.spec_bytes()),
        ).emit(push_x8()).call_printf()
    }

    /// The state after the print of a natural number.
    #[verifier::opaque]
    pub open spec fn print_integer(self, v: u32) -> A64View {
        self.emit(line2(macos::MOV, X8.spec_bytes(), hex(v as nat))).emit(push_x8()).emit(
            load_string_lines(INT_FORMAT.spec_bytes(), X0.spec_bytes()),
        ).call_printf()
    }

    /// The state after the print of the variable `var`, read from the
    /// depth `depth`.
    #[verifier::opaque]
    pub open spec fn print_variable(self, var: VariableView, depth: u32) -> A64View {
        self.emit(load_variable_lines((depth - var.scope) as nat, var.offset)).emit(
            push_x8(),
        ).emit(load_string_lines(format_of(var.value), X0.spec_bytes())).call_printf()
    }

    /// The state after the entry into a block: the frame record is pushed
    /// and the frame pointer set.
    #[verifier::opaque]
    pub open spec fn enter_block(self) -> A64View {
        self.emit(push_frame()).emit(line2(macos::MOV, X29.spec_bytes(), SP.spec_bytes()))
    }

    /// The state after the exit from a block with `slots` variables.
    #[verifier::opaque]
    pub open spec fn leave_block(self, note: &str, slots: nat) -> A64View {
        self.emit(macos::END_OF_LINE.spec_bytes()).emit(comment_line(note.spec_bytes())).emit(
            unstack(slots),
        ).emit(pop_frame())
    }
}

/// The state after the steps from the `i`th on.
pub open spec fn gen_operations(g: A64View, operations: Seq<ast::Expr>, i: nat) -> A64View
    decreases operations.len() - i,
{
    if i >= operations.len() {
        g
    } else {
        gen_operations(g.emit(expression_lines(operations[i as int])), operations, i + 1)
    }
}

/// The state after an assignment: the initial value is put into `x8`, the
/// steps are applied, and `x8` is stored to the variable.
pub open spec fn gen_assignment(
    g: A64View,
    target: ast::Expr,
    initial: ast::Expr,
    operations: Seq<ast::Expr>,
    chain: Seq<SltView>,
) -> A64View {
    let g1 = g.emit(comment_line(START_OPERATIONS.spec_bytes()));
    let g2 = match initial {
        ast::Expr::Literal(ast::Lit::Int(v)) => g1.emit(
            line2(macos::MOV, X8.spec_bytes(), hex(v as nat)),
        ),
        ast::Expr::Ident(id) => match find_variable(chain, id@) {
            Some(var) => g1.emit(line2(macos::LDR, X8.spec_bytes(), slot(var.offset))),
            None => g1,
        },
        _ => g1,
    };
    let g3 = gen_operations(g2, operations, 0);
    match target {
        ast::Expr::Ident(id) => match find_variable(chain, id@) {
            Some(var) => g3.emit(line2(macos::STR, X8.spec_bytes(), slot(var.offset))).emit(
                comment_line(END_OPERATIONS.spec_bytes()),
            ),
            None => g3,
        },
        _ => g3,
    }
}

/// The number of nested scopes that a statement takes: one for the body of
/// a condition, and one more where it has an alternative.
pub open spec fn scopes_taken(stmt: ast::Stmt) -> nat {
    match stmt {
        ast::Stmt::IfStmt { condition, body, else_stmt } => if else_stmt is Some {
            2
        } else {
            1
        },
        _ => 0,
    }
}

/// Whether the generator has code for the statement, seen from the scopes
/// `chain` with the nested scopes from place `pos` on still free: every
/// variable resolves, the operand of every step is a natural number, a
/// literal that is printed is a string or a natural number, an assignment
/// goes to an identifier and starts from a literal or an identifier, a
/// condition tests an identifier, and the blocks of a condition have their
/// scopes.
pub open spec fn statement_ok(stmt: ast::Stmt, chain: Seq<SltView>, pos: nat) -> bool
    decreases stmt, 0nat,
{
    match stmt {
        ast::Stmt::Let { var_name, value } => find_variable(chain, var_name@) is Some
            && expression_ok(*value),
        ast::Stmt::Print { value } => match *value {
            ast::Expr::Literal(lit) => lit is Str || lit is Int,
            ast::Expr::Ident(id) => find_variable(chain, id@) is Some,
            _ => true,
        },
        ast::Stmt::Assignment { var_name, initial_value, operations } => {
            &&& match *var_name {
                ast::Expr::Ident(id) => find_variable(chain, id@) is Some,
                _ => false,
            }
            &&& match *initial_value {
                ast::Expr::Literal(_) => true,
                ast::Expr::Ident(id) => find_variable(chain, id@) is Some,
                _ => false,
            }
            &&& operations_ok(operations@, 0)
        },
        ast::Stmt::IfStmt { condition, body, else_stmt } => {
            &&& match *condition {
                ast::Expr::Ident(id) => find_variable(chain, id@) is Some,
                _ => false,
            }
            &&& pos < chain[0].children.len()
            &&& statements_ok(body@, seq![chain[0].children[pos as int]] + chain, 0, 0)
            &&& match else_stmt {
                Some(stmts) => pos + 1 < chain[0].children.len() && statements_ok(
                    stmts@,
                    seq![chain[0].children[pos as int + 1]] + chain,
                    0,
                    0,
                ),
                None => true,
            }
        },
    }
}

/// Whether the generator has code for the steps from the `i`th on.
pub open spec fn operations_ok(operations: Seq<ast::Expr>, i: nat) -> bool
    decreases operations.len() - i,
{
    i >= operations.len() || (expression_ok(operations[i as int]) && operations_ok(
        operations,
        i + 1,
    ))
}

/// Whether the generator has code for the statements from the `i`th on.
pub open spec fn statements_ok(stmts: Seq<ast::Stmt>, chain: Seq<SltView>, pos: nat, i: nat) -> bool
    decreases stmts, stmts.len() - i + 1,
{
    i >= stmts.len() || (statement_ok(stmts[i as int], chain, pos) && statements_ok(
        stmts,
        chain,
        pos + scopes_taken(stmts[i as int]),
        i + 1,
    ))
}

/// The label behind a condition whose body has the scope `region`.
pub open spec fn end_label(region: u32) -> Seq<u8> {
    IF_END.spec_bytes() + dec(region as int)
}

/// The label of the alternative of a condition whose body has the scope
/// `region`.
pub open spec fn else_label(region: u32) -> Seq<u8> {
    IF_ELSE.spec_bytes() + dec(region as int)
}

impl A64View {
    /// The state after the head of a condition on the variable `var`, read
    /// from the depth `depth`: the variable is loaded and compared with
    /// zero, a branch leads to the alternative, and the body starts.
    #[verifier::opaque]
    pub open spec fn condition_head(self, var: VariableView, depth: u32, region: u32) -> A64View {
        self.emit(comment_line(LOAD_VARIABLE.spec_bytes() + var.id)).emit(
            load_variable_lines((depth - var.scope) as nat, var.offset),
        ).emit(compare_line(X8.spec_bytes())).emit(
            branch_line(else_label(region), NOT_EQUAL.spec_bytes()),
        ).emit(macos::END_OF_LINE.spec_bytes()).emit(
            comment_line(START_THEN.spec_bytes()),
        ).enter_block()
    }

    /// The state after the end of the body of a condition: the block is
    /// left, a branch leads behind the condition, and the alternative
    /// starts.
    #[verifier::opaque]
    pub open spec fn condition_middle(self, slots: nat, region: u32) -> A64View {
        self.leave_block(UNSTACK_THEN, slots).emit(
            branch_line(end_label(region), ALWAYS.spec_bytes()),
        ).emit(macos::END_OF_LINE.spec_bytes()).emit(label_line(else_label(region)))
    }

    /// The state after the end of a condition.
    #[verifier::opaque]
    pub open spec fn condition_end(self, region: u32) -> A64View {
        self.emit(macos::END_OF_LINE.spec_bytes()).emit(label_line(end_label(region)))
    }
}

/// The state after a condition, seen from the scopes `chain`. A condition
/// jumps over its body when the variable is not zero; body and alternative
/// are blocks with a frame of their own, each in the next nested scope.
pub open spec fn gen_condition(g: A64View, stmt: ast::Stmt, chain: Seq<SltView>, pos: nat) -> Progress
    decreases stmt, 0nat,
{
    match stmt {
        ast::Stmt::IfStmt { condition, body, else_stmt } => match *condition {
            ast::Expr::Ident(id) => match find_variable(chain, id@) {
                Some(var) => {
                    if pos < chain[0].children.len() {
                        let then_scope = chain[0].children[pos as int];
                        let then = gen_statements(
                            g.condition_head(
                                VariableView { id: id@, ..var },
                                chain[0].scope,
                                then_scope.region,
                            ),
                            body@,
                            seq![then_scope] + chain,
                            0,
                            0,
                        );
                        if !then.ok {
                            Progress { state: then.state, pos: pos + 1, ok: false }
                        } else {
                            let g2 = then.state.condition_middle(
                                then_scope.variables.len(),
                                then_scope.region,
                            );
                            match else_stmt {
                                Some(else_body) => {
                                    if pos + 1 < chain[0].children.len() {
                                        let else_scope = chain[0].children[pos as int + 1];
                                        let alt = gen_statements(
                                            g2.emit(comment_line(START_ELSE.spec_bytes())).enter_block(),
                                            else_body@,
                                            seq![else_scope] + chain,
                                            0,
                                            0,
                                        );
                                        if !alt.ok {
                                            Progress { state: alt.state, pos: pos + 2, ok: false }
                                        } else {
                                            Progress {
                                                state: alt.state.leave_block(
                                                    UNSTACK_ELSE,
                                                    else_scope.variables.len(),
                                                ).condition_end(then_scope.region),
                                                pos: pos + 2,
                                                ok: true,
                                            }
                                        }
                                    } else {
                                        Progress { state: g2, pos: pos + 1, ok: true }
                                    }
                                },
                                None => Progress {
                                    state: g2.condition_end(then_scope.region),
                                    pos: pos + 1,
                                    ok: true,
                                },
                            }
                        }
                    } else {
                        Progress { state: g, pos, ok: true }
                    }
                },
                None => Progress { state: g, pos, ok: true },
            },
            _ => Progress { state: g, pos, ok: true },
        },
        _ => Progress { state: g, pos, ok: true },
    }
}

/// The state after a statement, seen from the scopes `chain`. The print of
/// a step of an assignment is refused.
pub open spec fn gen_statement(g: A64View, stmt: ast::Stmt, chain: Seq<SltView>, pos: nat) -> Progress
    decreases stmt, 1nat,
{
    match stmt {
        ast::Stmt::Let { var_name, value } => match find_variable(chain, var_name@) {
            Some(var) => Progress {
                state: g.let_statement(VariableView { id: var_name@, ..var }, *value),
                pos,
                ok: true,
            },
            None => Progress { state: g, pos, ok: true },
        },
        ast::Stmt::Print { value } => match *value {
            ast::Expr::Literal(ast::Lit::Str(s)) => Progress {
                state: g.print_string(s@),
                pos,
                ok: true,
            },
            ast::Expr::Literal(ast::Lit::Int(v)) => Progress {
                state: g.print_integer(v),
                pos,
                ok: true,
            },
            ast::Expr::Literal(_) => Progress { state: g, pos, ok: true },
            ast::Expr::Ident(id) => match find_variable(chain, id@) {
                Some(var) => Progress {
                    state: g.print_variable(var, chain[0].scope),
                    pos,
                    ok: true,
                },
                None => Progress { state: g, pos, ok: true },
            },
            ast::Expr::Op { op, value } => Progress { state: g, pos, ok: false },
        },
        ast::Stmt::Assignment { var_name, initial_value, operations } => Progress {
            state: gen_assignment(g, *var_name, *initial_value, operations@, chain),
            pos,
            ok: true,
        },
        ast::Stmt::IfStmt { condition, body, else_stmt } => gen_condition(g, stmt, chain, pos),
    }
}

/// The state after the statements from the `i`th on, up to the first that
/// the generator refuses.
pub open spec fn gen_statements(
    g: A64View,
    stmts: Seq<ast::Stmt>,
    chain: Seq<SltView>,
    pos: nat,
    i: nat,
) -> Progress
    decreases stmts, stmts.len() - i + 2,
{
    if i >= stmts.len() {
        Progress { state: g, pos, ok: true }
    } else {
        let one = gen_statement(g, stmts[i as int], chain, pos);
        if one.ok {
            gen_statements(one.state, stmts, chain, one.pos, i + 1)
        } else {
            one
        }
    }
}


/// `name` between two pieces of text.
fn named(before: &str, name: &[u8], after: &str) -> (v: Vec<u8>)
    ensures
        v@ == with_name(before, name@, after),
{
    let mut v = str_to_vec(before);
    push_bytes(&mut v, name);
    push_str(&mut v, after);
    assert(v@ =~= with_name(before, name@, after));
    v
}

/// `name` behind a piece of text.
fn prefixed(before: &str, name: &[u8]) -> (v: Vec<u8>)
    ensures
        v@ == before.spec_bytes() + name@,
{
    let mut v = str_to_vec(before);
    push_bytes(&mut v, name);
    v
}

/// The number `n` behind a piece of text.
fn numbered(before: &str, n: u128) -> (v: Vec<u8>)
    ensures
        v@ == before.spec_bytes() + dec(n as int),
{
    let mut v = str_to_vec(before);
    push_dec(&mut v, n);
    v
}

/// `n` in hexadecimal.
fn hex_bytes(n: u128) -> (v: Vec<u8>)
    ensures
        v@ == hex(n as nat),
{
    let mut v: Vec<u8> = Vec::new();
    push_hex(&mut v, n);
    assert(v@ =~= hex(n as nat));
    v
}

impl A64Compiler {
    /// Notes a string literal under a label.
    fn note(&mut self, name: Vec<u8>, text: Vec<u8>)
        ensures
            final(self)@ == old(self)@.note(name@, text@),
    {
        self.string_literals.push((name, text));
        assert(self@.string_literals =~= old(self)@.string_literals.push((name@, text@)));
    }

    /// Writes `text`.
    fn emit(&mut self, text: &str)
        ensures
            final(self)@ == old(self)@.emit(text.spec_bytes()),
    {
        push_str(&mut self.writer, text);
    }

    fn push_x8(&mut self)
        ensures
            final(self)@ == old(self)@.emit(push_x8()),
    {
        self.str(X8.as_bytes(), SP.as_bytes(), Some(Index::pre(-16)));
    }

    fn compare_x8(&mut self)
        ensures
            final(self)@ == old(self)@.emit(compare_line(X8.spec_bytes())),
    {
        self.cmp(X8.as_bytes());
    }

    fn call_printf(&mut self)
        ensures
            final(self)@ == old(self)@.call_printf(),
    {
        reveal(A64View::call_printf);
        self.emit(CALL_PRINTF);
        self.add(SP.as_bytes(), SP.as_bytes(), SIXTEEN.as_bytes());
    }

    fn enter_block(&mut self)
        ensures
            final(self)@ == old(self)@.enter_block(),
    {
        reveal(A64View::enter_block);
        self.stp(X29.as_bytes(), LR.as_bytes(), SP.as_bytes(), Some(Index::pre(-16)));
        self.mov(X29.as_bytes(), SP.as_bytes());
    }

    fn leave_block(&mut self, note: &str, slots: usize)
        ensures
            final(self)@ == old(self)@.leave_block(note, slots as nat),
    {
        reveal(A64View::leave_block);
        self.skip_line();
        self.comment(note.as_bytes());
        let stack_size = hex_bytes((slots as u128) * BLOCK_SLOT_SIZE);
        self.add(SP.as_bytes(), SP.as_bytes(), stack_size.as_slice());
        self.ldp(X29.as_bytes(), LR.as_bytes(), SP.as_bytes(), Some(Index::post(16)));
    }

    /// Declares a variable.
    fn let_statement(&mut self, var_name: &[u8], variable: &Variable, value: &ast::Expr, slt: &NavigableSlt)
        requires
            expression_ok(*value),
        ensures
            final(self)@ == old(self)@.let_statement(
                VariableView { id: var_name@, ..variable@ },
                *value,
            ),
    {
        reveal(A64View::let_statement);
        let note = named(PUSHING, var_name, TO_THE_STACK);
        self.comment(note.as_slice());
        match &variable.value {
            Value::Str(s) => {
                self.load_string(var_name, X8.as_bytes());
                self.push_x8();
                self.note(crate::text::to_vec(var_name), s.clone());
            },
            Value::Int(i) => {
                let mut immediate: Vec<u8> = Vec::new();
                push_signed_hex(&mut immediate, *i);
                assert(immediate@ =~= signed_hex(*i as int));
                self.mov(X8.as_bytes(), immediate.as_slice());
                self.push_x8();
            },
            Value::Bool(b) => {
                if *b {
                    self.mov(X8.as_bytes(), TRUE.as_bytes());
                } else {
                    self.mov(X8.as_bytes(), FALSE.as_bytes());
                }
                self.push_x8();
            },
            Value::Unset => {},
        }
        let _ = self.expression(value, slt);
    }

    /// Prints a string literal.
    fn print_string(&mut self, s: &Vec<u8>)
        ensures
            final(self)@ == old(self)@.print_string(s@),
    {
        reveal(A64View::print_string);
        let lit_name = numbered(LITERAL, self.string_literals.len() as u128);
        self.note(lit_name.clone(), s.clone());
        self.load_string(lit_name.as_slice(), X8.as_bytes());
        self.load_string(STR_FORMAT.as_bytes(), X0.as_bytes());
        self.push_x8();
        self.call_printf();
    }

    /// Prints a natural number.
    fn print_integer(&mut self, v: u32)
        ensures
            final(self)@ == old(self)@.print_integer(v),
    {
        reveal(A64View::print_integer);
        let immediate = hex_bytes(v as u128);
        self.mov(X8.as_bytes(), immediate.as_slice());
        self.push_x8();
        self.load_string(INT_FORMAT.as_bytes(), X0.as_bytes());
        self.call_printf();
    }

    /// Prints a variable.
    fn print_variable(&mut self, variable: &Variable, depth: u32)
        requires
            variable.scope <= depth,
        ensures
            final(self)@ == old(self)@.print_variable(variable@, depth),
    {
        reveal(A64View::print_variable);
        self.load_variable(variable, depth);
        self.push_x8();
        match variable.value {
            Value::Str(_) => self.load_string(STR_FORMAT.as_bytes(), X0.as_bytes()),
            Value::Int(_) => self.load_string(INT_FORMAT.as_bytes(), X0.as_bytes()),
            _ => self.load_string(ANY_FORMAT.as_bytes(), X0.as_bytes()),
        }
        self.call_printf();
    }

    /// Assigns to a variable.
    fn assignment(
        &mut self,
        var_name: &ast::Expr,
        initial_value: &ast::Expr,
        operations: &Vec<ast::Expr>,
        slt: &NavigableSlt,
    )
        requires
            operations_ok(operations@, 0),
        ensures
            final(self)@ == gen_assignment(
                old(self)@,
                *var_name,
                *initial_value,
                operations@,
                slt@,
            ),
    {
        self.comment(START_OPERATIONS.as_bytes());
        match initial_value {
            ast::Expr::Literal(lit) => {
                match lit {
                    ast::Lit::Int(init) => {
                        let immediate = hex_bytes(*init as u128);
                        self.mov(X8.as_bytes(), immediate.as_slice());
                    },
                    _ => {},
                }
            },
            ast::Expr::Ident(ident) => {
                match slt.find_variable(ident.as_slice()) {
                    Some(variable) => {
                        self.ldr(X29.as_bytes(), X8.as_bytes(), Some(Index::offset(variable.offset)));
                    },
                    None => {},
                }
            },
            _ => {},
        }
        let ghost start = self@;
        let mut i: usize = 0;
        while i < operations.len()
            invariant
                i <= operations@.len(),
                operations_ok(operations@, i as nat),
                gen_operations(self@, operations@, i as nat) == gen_operations(
                    start,
                    operations@,
                    0,
                ),
            decreases operations@.len() - i,
        {
            let _ = self.expression(&operations[i], slt);
            i += 1;
        }

        match var_name {
            ast::Expr::Ident(ident) => {
                match slt.find_variable(ident.as_slice()) {
                    Some(variable) => {
                        self.str(X8.as_bytes(), X29.as_bytes(), Some(Index::offset(variable.offset)));
                        self.comment(END_OPERATIONS.as_bytes());
                    },
                    None => {},
                }
            },
            _ => {},
        }
    }

    /// Opens a condition on a variable.
    fn condition_head(&mut self, var_name: &[u8], variable: &Variable, depth: u32, region: u32)
        requires
            variable.scope <= depth,
        ensures
            final(self)@ == old(self)@.condition_head(
                VariableView { id: var_name@, ..variable@ },
                depth,
                region,
            ),
    {
        reveal(A64View::condition_head);
        let else_label = numbered(IF_ELSE, region as u128);
        // Load variable from a different scope in the x8 reg
        let note = prefixed(LOAD_VARIABLE, var_name);
        self.comment(note.as_slice());
        self.load_variable(variable, depth);
        self.compare_x8();
        self.b(else_label.as_slice(), NOT_EQUAL.as_bytes());

        self.skip_line();
        self.comment(START_THEN.as_bytes());
        self.enter_block();
    }

    /// Closes the body of a condition.
    fn condition_middle(&mut self, slots: usize, region: u32)
        ensures
            final(self)@ == old(self)@.condition_middle(slots as nat, region),
    {
        reveal(A64View::condition_middle);
        let end_label = numbered(IF_END, region as u128);
        let else_label = numbered(IF_ELSE, region as u128);
        self.leave_block(UNSTACK_THEN, slots);
        self.b(end_label.as_slice(), ALWAYS.as_bytes());

        self.skip_line();
        self.label(else_label.as_slice());
    }

    /// Closes a condition.
    fn condition_end(&mut self, region: u32)
        ensures
            final(self)@ == old(self)@.condition_end(region),
    {
        reveal(A64View::condition_end);
        let end_label = numbered(IF_END, region as u128);
        self.skip_line();
        self.label(end_label.as_slice());
    }

    /// Generates the statements of a block.
    pub fn statements(&mut self, stmts: &Vec<ast::Stmt>, slt: &NavigableSlt, childs: &mut ChildIterator) -> (r:
        Result<(), String>)
        requires
            slt.wf(),
            old(childs).parent == slt,
            statements_ok(stmts@, slt@, old(childs).pos as nat, 0),
        ensures
            final(childs).parent == slt,
            final(self)@ == gen_statements(old(self)@, stmts@, slt@, old(childs).pos as nat, 0).state,
            final(childs).pos == gen_statements(
                old(self)@,
                stmts@,
                slt@,
                old(childs).pos as nat,
                0,
            ).pos,
            r is Ok == gen_statements(old(self)@, stmts@, slt@, old(childs).pos as nat, 0).ok,
            r is Err ==> r->Err_0@ == NOT_A_VALUE@,
        decreases stmts, stmts.len() + 2,
    {
        let mut i: usize = 0;
        while i < stmts.len()
            invariant
                i <= stmts@.len(),
                slt.wf(),
                childs.parent == slt,
                statements_ok(stmts@, slt@, childs.pos as nat, i as nat),
                gen_statements(self@, stmts@, slt@, childs.pos as nat, i as nat) == gen_statements(
                    old(self)@,
                    stmts@,
                    slt@,
                    old(childs).pos as nat,
                    0,
                ),
            decreases stmts@.len() - i,
        {
            proof {
                lemma_scopes_taken(self@, stmts@[i as int], slt@, childs.pos as nat);
            }
            match self.statement(&stmts[i], slt, childs) {
                Ok(_) => {},
                Err(e) => {
                    return Err(e);
                },
            }
            i += 1;
        }
        Ok(())
    }

    /// Generates a condition.
    pub fn condition(&mut self, ast: &ast::Stmt, slt: &NavigableSlt, childs: &mut ChildIterator) -> (r:
        Result<(), String>)
        requires
            slt.wf(),
            old(childs).parent == slt,
            ast is IfStmt,
            statement_ok(*ast, slt@, old(childs).pos as nat),
        ensures
            final(childs).parent == slt,
            final(self)@ == gen_condition(old(self)@, *ast, slt@, old(childs).pos as nat).state,
            final(childs).pos == gen_condition(old(self)@, *ast, slt@, old(childs).pos as nat).pos,
            r is Ok == gen_condition(old(self)@, *ast, slt@, old(childs).pos as nat).ok,
            r is Err ==> r->Err_0@ == NOT_A_VALUE@,
        decreases ast, 0nat,
    {
        assert(slt@[0] == slt.slt@);
        proof {
            lemma_slts_view(slt.slt.children@);
        }
        match ast {
            ast::Stmt::IfStmt { condition, body, else_stmt } => match &**condition {
                ast::Expr::Ident(var_name) => {
                    proof {
                        lemma_find_variable(slt@, var_name@);
                    }
                    let variable = match slt.find_variable(var_name.as_slice()) {
                        Some(variable) => variable,
                        None => {
                            return Ok(());
                        },
                    };
                    let then_slt = match childs.next() {
                        Some(then_slt) => then_slt,
                        None => {
                            return Ok(());
                        },
                    };
                    let mut then_childs = then_slt.childs();
                    let region = then_slt.slt.region;
                    assert(then_slt@[0] == then_slt.slt@);

                    self.condition_head(var_name.as_slice(), variable, slt.slt.scope, region);

                    // Then core
                    match self.statements(body, &then_slt, &mut then_childs) {
                        Ok(_) => {},
                        Err(e) => {
                            return Err(e);
                        },
                    }

                    self.condition_middle(then_slt.slt.variables.len(), region);

                    match else_stmt {
                        Some(else_stmt) => {
                            let else_slt = match childs.next() {
                                Some(else_slt) => else_slt,
                                None => {
                                    return Ok(());
                                },
                            };
                            let mut else_childs = else_slt.childs();
                            assert(else_slt@[0] == else_slt.slt@);

                            self.comment(START_ELSE.as_bytes());
                            self.enter_block();

                            // Else core
                            match self.statements(else_stmt, &else_slt, &mut else_childs) {
                                Ok(_) => {},
                                Err(e) => {
                                    return Err(e);
                                },
                            }

                            self.leave_block(UNSTACK_ELSE, else_slt.slt.variables.len());
                        },
                        None => {},
                    }
                    self.condition_end(region);

                    Ok(())
                },
                _ => Ok(()),
            },
            _ => Ok(()),
        }
    }

    pub fn statement(&mut self, ast: &ast::Stmt, slt: &NavigableSlt, childs: &mut ChildIterator) -> (r:
        Result<(), String>)
        requires
            slt.wf(),
            old(childs).parent == slt,
            statement_ok(*ast, slt@, old(childs).pos as nat),
        ensures
            final(childs).parent == slt,
            final(self)@ == gen_statement(old(self)@, *ast, slt@, old(childs).pos as nat).state,
            final(childs).pos == gen_statement(old(self)@, *ast, slt@, old(childs).pos as nat).pos,
            r is Ok == gen_statement(old(self)@, *ast, slt@, old(childs).pos as nat).ok,
            r is Err ==> r->Err_0@ == NOT_A_VALUE@,
        decreases ast, 1nat,
    {
        assert(slt@[0] == slt.slt@);
        match ast {
            ast::Stmt::Let { var_name, value } => {
                match slt.find_variable(var_name.as_slice()) {
                    Some(variable) => {
                        self.let_statement(var_name.as_slice(), variable, value, slt);
                    },
                    None => {},
                }
                Ok(())
            },
            ast::Stmt::Print { value } => {
                // Validate it's a value
                match &**value {
                    ast::Expr::Literal(lit) => match lit {
                        ast::Lit::Str(s) => {
                            self.print_string(s);
                        },
                        ast::Lit::Int(v) => {
                            self.print_integer(*v);
                        },
                        _ => {},
                    },
                    ast::Expr::Ident(ident) => {
                        proof {
                            lemma_find_variable(slt@, ident@);
                        }
                        match slt.find_variable(ident.as_slice()) {
                            Some(variable) => {
                                self.print_variable(variable, slt.slt.scope);
                            },
                            None => {},
                        }
                    },
                    _ => {
                        return Err(NOT_A_VALUE.to_owned());
                    },
                }
                Ok(())
            },
            ast::Stmt::Assignment { var_name, initial_value, operations } => {
                self.assignment(var_name, initial_value, operations, slt);
                Ok(())
            },
            ast::Stmt::IfStmt { condition, body, else_stmt } => self.condition(ast, slt, childs),
        }
    }
}

/// A statement that the generator takes leaves the nested scopes that it
/// took behind.
pub proof fn lemma_scopes_taken(g: A64View, stmt: ast::Stmt, chain: Seq<SltView>, pos: nat)
    requires
        statement_ok(stmt, chain, pos),
    ensures
        gen_statement(g, stmt, chain, pos).ok ==> gen_statement(g, stmt, chain, pos).pos == pos
            + scopes_taken(stmt),
{
}

} // verus!
