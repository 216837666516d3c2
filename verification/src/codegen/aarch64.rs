//! Code generation for AArch64 under the Darwin calling convention.
//!
//! A function keeps its variables in a frame below the frame pointer, one
//! slot of eight bytes each. A value is computed into `x8`. A variable of an
//! enclosing scope is reached by following the saved frame pointers, one per
//! scope between the use and the declaration.

use vstd::prelude::*;
use vstd::string::*;

use crate::command::{Cmd, CmdView};
use crate::compiler::Compiler;
use crate::ir::{exprs_view, lemma_exprs_view};
use crate::ir::{Expr, ExprView, Fn, FnView, Lit, LitView, Op, Program, ProgramView, Stmt, StmtView};
use crate::ir::{Unop, UnopView};
use crate::math::aligned;
use crate::parser::slt::{chain_wf, find_func, find_variable, lemma_find_variable};
use crate::parser::slt::{spec_distance, ChildIterator, NavigableSlt, SltView};
use crate::text::{bytes_eq, dec, hex, push_bytes, push_dec, push_hex, push_int, push_str};
use crate::text::{str_to_vec, to_vec};

verus! {

// ---------------------------------------------------------------------------
// The pieces of text that the generator puts together.
// ---------------------------------------------------------------------------
pub const ENTRY: &'static str =
    ".global _main\n.p2align 4\n_main:\n    // load link register and previous stack pointer onto the stack\n    stp x29, lr, [sp, -0x10]!\n    mov x29, sp\n\n    // jump to the main function\n    bl _galaxy\n\n    // load return address and previous stack pointer\n    ldp x29, lr, [sp], 0x10\n    mov x0, #0\n    ret\n\n";

pub const GLOBAL: &'static str = ".global _";

pub const ALIGN: &'static str = "\n.p2align 4\n_";

pub const LABEL_END: &'static str = ":\n";

pub const PUSH_FRAME: &'static str =
    "    // load link register and previous stack pointer onto the stack\n    stp x29, lr, [sp, -0x10]!\n    mov x29, sp\n\n";

pub const POP_FRAME: &'static str =
    "    // load return address and previous stack pointer\n    ldp x29, lr, [sp], 0x10\n    ret\n\n";

pub const CORE: &'static str = "    // core ";

pub const FUNCTION: &'static str = " function\n";

pub const ALLOCATE: &'static str = "    // allocate needed stack space for ";

pub const ARGUMENTS: &'static str = " arguments\n";

pub const GROW_STACK: &'static str = "    add sp, sp, -";

pub const SHRINK_STACK: &'static str = "    add sp, sp, ";

pub const NEWLINE: &'static str = "\n";

pub const LOAD_ARGUMENTS: &'static str = "    // load ";

pub const ONTO_STACK: &'static str = " arguments onto the stack\n";

pub const STORE_REGISTER: &'static str = "    str x";

pub const BELOW_FRAME: &'static str = ", [x29, -";

pub const CLOSE: &'static str = "]\n";

pub const LOAD_ABOVE_FRAME: &'static str = "    ldr x8, [x29, ";

pub const STORE_BELOW_FRAME: &'static str = "    str x8, [x29, -";

pub const DEALLOCATING: &'static str = "    // pop the stack (deallocating ";

pub const VARIABLES: &'static str = " variables)\n";

pub const PUSHING_X8: &'static str = "    // pushing x8 (variable ";

pub const TO_THE_STACK: &'static str = " to the stack)\n";

pub const FRAME_POINTER: &'static str = "    mov x9, x29\n";

pub const CLIMB_NOTE: &'static str = "    // climb up the stack calls to get to ";

pub const SCOPE: &'static str = " scope\n";

pub const CLIMB: &'static str = "    ldr x9, [x9]\n";

pub const LOAD_VAR: &'static str = "    // load var ";

pub const INTO_X8: &'static str = " into x8\n";

pub const LOAD_SLOT: &'static str = "    ldr x8, [x9, -";

pub const STORE_SLOT: &'static str = "    str x8, [x9, -";

pub const PUSHING: &'static str = "    // pushing variable ";

pub const TO_X8: &'static str = " to x8\n";

pub const MOVE_IMMEDIATE: &'static str = "    mov x8, #";

pub const PAGE_OF: &'static str = "    adrp x8, ";

pub const PAGE: &'static str = "@PAGE\n";

pub const PAGE_OFFSET_OF: &'static str = "    add x8, x8, ";

pub const PAGE_OFFSET: &'static str = "@PAGEOFF\n";

pub const LITERAL_LABEL: &'static str = "__lit_";

pub const CALLING: &'static str = "    // calling ";

pub const ONTO_REGISTERS: &'static str = " arguments onto the associated registers\n";

pub const ONTO_REGISTER: &'static str = "    // load fn arguments onto x";

pub const MOVE_REGISTER: &'static str = "    mov x";

pub const FROM_X8: &'static str = ", x8\n";

pub const PUSH_SLAB: &'static str = "    str x8, [sp, -";

pub const CLOSE_WRITE_BACK: &'static str = "]!\n";

pub const ONTO_SLAB: &'static str = "    // load x8 onto the stack\n";

pub const STORE_SLAB: &'static str = "    str x8, [sp, ";

pub const JUMP: &'static str = "    // jump to the function\n    bl _";

pub const POP_ARGUMENTS: &'static str = "    // pop from the stack the ";

pub const FUNCTION_ARGUMENTS: &'static str = " function arguments\n";

pub const RESULT: &'static str = "    mov x8, x0\n";

pub const START_OPERATIONS: &'static str = "    // start operations on ";

pub const END_OPERATIONS: &'static str = "    // end operations on ";

pub const SAVE_LEFT: &'static str = "    str x8, [sp, -0x10]!\n";

pub const RESTORE_LEFT: &'static str = "    ldr x10, [sp], 0x10\n";

pub const ADD: &'static str = "    add x8, x10, x8\n";

pub const SUB: &'static str = "    sub x8, x10, x8\n";

pub const MUL: &'static str = "    mul x8, x10, x8\n";

pub const DIV: &'static str = "    sdiv x8, x10, x8\n";

pub const MOD: &'static str = "    udiv x11, x10, x8\n    msub x8, x11, x8, x10\n";

pub const DATA: &'static str = ".data\n";

pub const INDENT: &'static str = "    ";

pub const ASCIZ: &'static str = ":\n        .asciz \"";

pub const QUOTE: &'static str = "\"\n";

pub const ONE: &'static str = "1";

pub const ZERO: &'static str = "0";

pub const EMPTY: &'static str = "";

/// The number of bytes of one slot of a frame.
pub const SLOT_SIZE: u128 = 8;

/// The alignment of the stack pointer.
pub const STACK_ALIGNMENT: u128 = 16;

/// The number of registers that carry arguments.
pub const REGISTER_LIMIT: usize = 7;

/// The distance from the frame pointer of a function up to the arguments
/// that its caller left on the stack: the saved frame pointer and the saved
/// link register lie between.
pub const FRAME_RECORD_SIZE: u128 = 16;

/// `name` between two pieces of text.
pub open spec fn with_name(before: &str, name: Seq<u8>, after: &str) -> Seq<u8> {
    before.spec_bytes() + name + after.spec_bytes()
}

/// `n`, in hexadecimal, between two pieces of text.
pub open spec fn with_hex(before: &str, n: nat, after: &str) -> Seq<u8> {
    before.spec_bytes() + hex(n) + after.spec_bytes()
}

/// `n`, in decimal, between two pieces of text.
pub open spec fn with_dec(before: &str, n: int, after: &str) -> Seq<u8> {
    before.spec_bytes() + dec(n) + after.spec_bytes()
}

// ---------------------------------------------------------------------------
// Sizes.
// ---------------------------------------------------------------------------
/// The number of bytes reserved for `slots` slots: the smallest multiple of
/// 16 that holds them.
pub open spec fn stack_size(slots: nat) -> nat {
    aligned(8 * (slots as int), 16) as nat
}

/// The number of argument registers that a function with this variadic
/// mark uses at most: the number of its fixed parameters where it is
/// variadic and has less than seven, else seven.
pub open spec fn register_limit(variadic: Option<usize>) -> nat {
    match variadic {
        Some(fixed) => if fixed < REGISTER_LIMIT {
            fixed as nat
        } else {
            REGISTER_LIMIT as nat
        },
        None => REGISTER_LIMIT as nat,
    }
}

/// The number of arguments, of `total`, that go to registers.
pub open spec fn register_count(limit: nat, total: nat) -> nat {
    if limit < total {
        limit
    } else {
        total
    }
}

/// The number of arguments, of `total`, that go to the stack.
pub open spec fn stack_count(limit: nat, total: nat) -> nat {
    (total - register_count(limit, total)) as nat
}

/// The number of bytes reserved for `slots` slots.
pub fn stack_bytes(slots: usize) -> (size: u128)
    ensures
        size == stack_size(slots as nat),
        size % 16 == 0,
        8 * slots <= size < 8 * slots + 16,
{
    let bytes: u128 = (slots as u128) * SLOT_SIZE;
    proof {
        crate::math::lemma_aligned_is_smallest_multiple(8 * (slots as int), 16);
        assert(0 <= (bytes as int) / 16 <= bytes) by (nonlinear_arith)
            requires
                bytes >= 0,
        ;
    }
    crate::math::align_bytes(bytes, STACK_ALIGNMENT)
}

/// The number of argument registers that a function with this variadic mark
/// uses at most.
pub fn register_limit_of(variadic: Option<usize>) -> (limit: usize)
    ensures
        limit == register_limit(variadic),
        limit <= REGISTER_LIMIT,
{
    match variadic {
        Some(fixed) => if fixed < REGISTER_LIMIT {
            fixed
        } else {
            REGISTER_LIMIT
        },
        None => REGISTER_LIMIT,
    }
}

/// How the arguments of a call are parted.
pub struct Partition {
    /// the number of arguments that go to registers
    pub registers: usize,
    /// the number of arguments that go to the stack
    pub stack: usize,
    /// the number of bytes reserved on the stack for the latter
    pub slab: u128,
}

/// Parts `total` arguments between at most `limit` registers and the stack.
pub fn partition(limit: usize, total: usize) -> (p: Partition)
    ensures
        p.registers == register_count(limit as nat, total as nat),
        p.stack == stack_count(limit as nat, total as nat),
        p.slab == stack_size(p.stack as nat),
        p.registers + p.stack == total,
{
    let registers = if limit < total {
        limit
    } else {
        total
    };
    let stack = total - registers;
    Partition { registers, stack, slab: stack_bytes(stack) }
}

/// The partition of the arguments of a call. With a limit of `limit`
/// registers and `total` arguments, the lesser of the two numbers go to
/// registers and the others to the stack, where the smallest multiple of 16
/// bytes that holds eight bytes for each of them is reserved.
pub proof fn lemma_partition(limit: nat, total: nat)
    ensures
        register_count(limit, total) <= limit,
        register_count(limit, total) <= total,
        register_count(limit, total) == limit || register_count(limit, total) == total,
        stack_count(limit, total) == total - register_count(limit, total),
        limit >= total ==> stack_count(limit, total) == 0,
        crate::math::is_multiple(stack_size(stack_count(limit, total)) as int, 16),
        stack_size(stack_count(limit, total)) >= 8 * stack_count(limit, total),
        forall|m: int|
            m >= 8 * stack_count(limit, total) && #[trigger] crate::math::is_multiple(m, 16)
                ==> m >= stack_size(stack_count(limit, total)),
{
    crate::math::lemma_aligned_is_smallest_multiple(8 * (stack_count(limit, total) as int), 16);
}

/// The stack that a scope reserves. For a scope of `slots` variables it is
/// the smallest multiple of 16 that is not below eight bytes for each.
pub proof fn lemma_stack_size(slots: nat)
    ensures
        crate::math::is_multiple(stack_size(slots) as int, 16),
        stack_size(slots) >= 8 * slots,
        forall|m: int|
            m >= 8 * slots && #[trigger] crate::math::is_multiple(m, 16) ==> m >= stack_size(slots),
{
    crate::math::lemma_aligned_is_smallest_multiple(8 * (slots as int), 16);
}


// ---------------------------------------------------------------------------
// The state of a generator, and what each step makes of it.
// ---------------------------------------------------------------------------
pub struct Codegen<'prog> {
    // Inputs
    pub c: &'prog Compiler,
    /// the assembly written so far
    pub out: Vec<u8>,
    // State of the compiler
    /// the string literals met so far, each with its label
    pub string_literals: Vec<(Vec<u8>, Vec<u8>)>,
    /// the variable whose value is being computed
    pub curr_var_id: Option<Vec<u8>>,
    /// the number of labels made up so far
    pub fmt_str_cpt: usize,
}

pub struct CodegenView {
    pub out: Seq<u8>,
    pub string_literals: Seq<(Seq<u8>, Seq<u8>)>,
    pub curr_var_id: Option<Seq<u8>>,
    pub fmt_str_cpt: nat,
}

impl<'prog> View for Codegen<'prog> {
    type V = CodegenView;

    open spec fn view(&self) -> CodegenView {
        CodegenView {
            out: self.out@,
            string_literals: self.string_literals@.map_values(
                |e: (Vec<u8>, Vec<u8>)| (e.0@, e.1@),
            ),
            curr_var_id: match self.curr_var_id {
                Some(id) => Some(id@),
                None => None,
            },
            fmt_str_cpt: self.fmt_str_cpt as nat,
        }
    }
}

/// The place of the first literal with the text `s`, from `from` on.
pub open spec fn literal_index(literals: Seq<(Seq<u8>, Seq<u8>)>, s: Seq<u8>, from: int) -> Option<
    int,
>
    decreases literals.len() - from,
{
    if from < 0 || from >= literals.len() {
        None
    } else if literals[from].1 == s {
        Some(from)
    } else {
        literal_index(literals, s, from + 1)
    }
}

/// The number of literals with the text `s`.
pub open spec fn literal_count(literals: Seq<(Seq<u8>, Seq<u8>)>, s: Seq<u8>) -> nat
    decreases literals.len(),
{
    if literals.len() == 0 {
        0
    } else {
        literal_count(literals.drop_last(), s) + if literals.last().1 == s {
            1nat
        } else {
            0nat
        }
    }
}

/// No text occurs twice among the literals.
pub open spec fn literals_distinct(literals: Seq<(Seq<u8>, Seq<u8>)>) -> bool {
    forall|i: int, j: int|
        0 <= i < j < literals.len() ==> (#[trigger] literals[i]).1 != (#[trigger] literals[j]).1
}

/// The state after the entries of the literals from place `from` on were
/// written to the data section, one for each literal.
pub open spec fn gen_data(g: CodegenView, from: nat) -> CodegenView
    decreases g.string_literals.len() - from,
{
    if from >= g.string_literals.len() {
        g
    } else {
        gen_data(
            g.emit(with_name(INDENT, g.string_literals[from as int].0, ASCIZ)).emit(
                g.string_literals[from as int].1,
            ).emit(QUOTE.spec_bytes()),
            (from + 1) as nat,
        )
    }
}

/// The state after `count` loads of the saved frame pointer, each of which
/// leads from a frame to the frame of the scope around it.
pub open spec fn gen_climb(g: CodegenView, count: nat) -> CodegenView
    decreases count,
{
    if count == 0 {
        g
    } else {
        gen_climb(g, (count - 1) as nat).emit(CLIMB.spec_bytes())
    }
}

/// The instructions that apply `op` to the left operand in `x10` and the
/// right operand in `x8`.
pub open spec fn operation(op: Op) -> Seq<u8> {
    match op {
        Op::Eq => Seq::empty(),
        Op::Add => ADD.spec_bytes(),
        Op::Sub => SUB.spec_bytes(),
        Op::Mul => MUL.spec_bytes(),
        Op::Div => DIV.spec_bytes(),
        Op::Mod => MOD.spec_bytes(),
    }
}

/// The state after the stores of the parameters that arrive in registers,
/// from the `i`th of `count` on: the parameter in register `i` goes to slot
/// `i + 1`.
pub open spec fn gen_register_params(g: CodegenView, i: nat, count: nat) -> CodegenView
    decreases count - i,
{
    if i >= count {
        g
    } else {
        gen_register_params(
            g.emit(with_dec(STORE_REGISTER, i as int, BELOW_FRAME)).emit(
                with_hex(EMPTY, 8 * (i + 1), CLOSE),
            ),
            i + 1,
            count,
        )
    }
}

/// The state after the copies of the parameters that arrive on the stack,
/// from the `i`th of `count` on, behind `registers` parameters in
/// registers: the `i`th lies `8 * i` bytes above the frame record and goes
/// to slot `registers + i + 1`.
pub open spec fn gen_stack_params(g: CodegenView, i: nat, count: nat, registers: nat) -> CodegenView
    decreases count - i,
{
    if i >= count {
        g
    } else {
        gen_stack_params(
            g.emit(with_hex(LOAD_ABOVE_FRAME, 16 + 8 * i, CLOSE)).emit(
                with_hex(STORE_BELOW_FRAME, 8 * (registers + i + 1), CLOSE),
            ),
            i + 1,
            count,
            registers,
        )
    }
}

impl CodegenView {
    /// The state of a generator that has written nothing.
    pub open spec fn initial() -> CodegenView {
        CodegenView {
            out: Seq::empty(),
            string_literals: Seq::empty(),
            curr_var_id: None,
            fmt_str_cpt: 0,
        }
    }

    /// No more labels were made up than bytes were written, and no text
    /// occurs twice among the string literals.
    pub open spec fn wf(self) -> bool {
        &&& self.fmt_str_cpt <= self.out.len()
        &&& literals_distinct(self.string_literals)
    }

    /// The state after `text` was written.
    pub open spec fn emit(self, text: Seq<u8>) -> CodegenView {
        CodegenView { out: self.out + text, ..self }
    }

    /// The state with another variable, or none, as the one whose value is
    /// being computed.
    pub open spec fn with_var(self, id: Option<Seq<u8>>) -> CodegenView {
        CodegenView { curr_var_id: id, ..self }
    }

    /// The label for a literal: the name of the variable whose value is
    /// being computed, or, where there is none, a label made up from the
    /// number of labels made up so far.
    pub open spec fn literal_label(self) -> Seq<u8> {
        match self.curr_var_id {
            Some(id) => id,
            None => LITERAL_LABEL.spec_bytes() + dec((self.fmt_str_cpt + 1) as int),
        }
    }

    /// The state once the label of one more literal was made.
    pub open spec fn labelled(self) -> CodegenView {
        match self.curr_var_id {
            Some(_) => self,
            None => CodegenView { fmt_str_cpt: self.fmt_str_cpt + 1, ..self },
        }
    }

    /// The state after the load of a literal into `x8`. An integer and a
    /// boolean are moved in as immediates. A string is addressed by the
    /// label of the first literal with the same text; where there is none
    /// yet, it joins the literals under the label made for it.
    #[verifier::opaque]
    pub open spec fn generate_lit(self, lit: LitView) -> CodegenView {
        let label = self.literal_label();
        let g = self.emit(PUSHING.spec_bytes()).labelled();
        match lit {
            LitView::Int(val) => g.emit(label).emit(TO_X8.spec_bytes()).emit(
                with_dec(MOVE_IMMEDIATE, val as int, NEWLINE),
            ).emit(NEWLINE.spec_bytes()),
            LitView::Str(s) => match literal_index(g.string_literals, s, 0) {
                Some(i) => g.address(g.string_literals[i].0),
                None => CodegenView {
                    string_literals: g.string_literals.push((label, s)),
                    ..g
                }.address(label),
            },
            LitView::Bool(b) => g.emit(label).emit(TO_X8.spec_bytes()).emit(
                MOVE_IMMEDIATE.spec_bytes(),
            ).emit(
                if b {
                    ONE.spec_bytes()
                } else {
                    ZERO.spec_bytes()
                },
            ).emit(NEWLINE.spec_bytes()).emit(NEWLINE.spec_bytes()),
        }
    }

    /// The state after the address of the string literal labelled `name`
    /// was loaded into `x8`: the page, then the offset in the page.
    #[verifier::opaque]
    pub open spec fn address(self, name: Seq<u8>) -> CodegenView {
        self.emit(name).emit(TO_X8.spec_bytes()).emit(with_name(PAGE_OF, name, PAGE)).emit(
            with_name(PAGE_OFFSET_OF, name, PAGE_OFFSET),
        ).emit(NEWLINE.spec_bytes())
    }

    /// The state after the address of the frame `hops` scopes up was put
    /// into `x9`.
    #[verifier::opaque]
    pub open spec fn frame_address(self, id: Seq<u8>, hops: nat) -> CodegenView {
        let g = self.emit(FRAME_POINTER.spec_bytes());
        gen_climb(
            if hops > 0 {
                g.emit(with_name(CLIMB_NOTE, id, SCOPE))
            } else {
                g
            },
            hops,
        ).emit(NEWLINE.spec_bytes())
    }

    /// The state after the read of the variable `id`, declared `hops`
    /// scopes up in slot `slot`, into `x8`.
    #[verifier::opaque]
    pub open spec fn load_variable(self, id: Seq<u8>, hops: nat, slot: nat) -> CodegenView {
        self.frame_address(id, hops).emit(with_name(LOAD_VAR, id, INTO_X8)).emit(
            with_hex(LOAD_SLOT, 8 * slot, CLOSE),
        ).emit(NEWLINE.spec_bytes())
    }

    /// The state after the write of `x8` to the variable `id`, declared
    /// `hops` scopes up in slot `slot`.
    #[verifier::opaque]
    pub open spec fn store_variable(self, id: Seq<u8>, hops: nat, slot: nat) -> CodegenView {
        self.frame_address(id, hops).emit(with_hex(STORE_SLOT, 8 * slot, CLOSE)).emit(
            NEWLINE.spec_bytes(),
        )
    }

    /// The state after the head of a function: its label and the push of
    /// the frame record.
    #[verifier::opaque]
    pub open spec fn fn_head(self, id: Seq<u8>) -> CodegenView {
        self.emit(with_name(GLOBAL, id, ALIGN)).emit(with_name(EMPTY, id, LABEL_END)).emit(
            PUSH_FRAME.spec_bytes(),
        )
    }

    /// The state after the reservation of `size` bytes for the frame of the
    /// function `id`.
    #[verifier::opaque]
    pub open spec fn frame_open(self, id: Seq<u8>, size: nat) -> CodegenView {
        self.emit(with_name(CORE, id, FUNCTION)).emit(with_name(ALLOCATE, id, ARGUMENTS)).emit(
            with_hex(GROW_STACK, size, NEWLINE),
        ).emit(NEWLINE.spec_bytes()).emit(with_name(LOAD_ARGUMENTS, id, ONTO_STACK))
    }

    /// The state after the release of the frame of a scope of `slots`
    /// variables.
    #[verifier::opaque]
    pub open spec fn frame_close(self, slots: nat, size: nat) -> CodegenView {
        self.emit(with_dec(DEALLOCATING, slots as int, VARIABLES)).emit(
            with_hex(SHRINK_STACK, size, NEWLINE),
        ).emit(NEWLINE.spec_bytes())
    }

    /// The state after the move of `x8` to the argument register `i`.
    #[verifier::opaque]
    pub open spec fn register_move(self, i: nat) -> CodegenView {
        self.emit(with_dec(ONTO_REGISTER, i as int, NEWLINE)).emit(
            with_dec(MOVE_REGISTER, i as int, FROM_X8),
        ).emit(NEWLINE.spec_bytes())
    }

    /// The state after the store of `x8` to the `i`th place of the slab.
    #[verifier::opaque]
    pub open spec fn slab_store(self, i: nat) -> CodegenView {
        self.emit(ONTO_SLAB.spec_bytes()).emit(with_hex(STORE_SLAB, 8 * i, CLOSE)).emit(
            NEWLINE.spec_bytes(),
        )
    }
}

/// The number of registers that a call of `id` from the scopes `chain`
/// may use: that of the signature which the name resolves to, and seven
/// where it resolves to none.
pub open spec fn call_limit(chain: Seq<SltView>, id: Seq<u8>) -> nat {
    match find_func(chain, id) {
        Some(f) => register_limit(f.variadic),
        None => REGISTER_LIMIT as nat,
    }
}

/// The state after the computation of an expression into `x8`, from the
/// scopes `chain`. A call leaves its result in `x0`, from where it is
/// taken.
pub open spec fn gen_arg(g: CodegenView, e: ExprView, chain: Seq<SltView>) -> CodegenView
    decreases e, 0nat,
{
    match e {
        ExprView::Lit(lit) => g.generate_lit(lit),
        ExprView::ID(id) => match find_variable(chain, id) {
            Some(var) => g.load_variable(
                id,
                (chain[0].scope - var.scope) as nat,
                var.offset as nat,
            ),
            None => g,
        },
        ExprView::FnCall { id, args } => gen_fn_call(g.with_var(None), id, args, chain).with_var(
            g.curr_var_id,
        ).emit(RESULT.spec_bytes()),
    }
}

/// The state after a call of `id` with the arguments `args`, from the
/// scopes `chain`: first the arguments for the registers, each computed and
/// moved to its register, then a slab on the stack with the other
/// arguments, the jump, and the release of the slab.
pub open spec fn gen_fn_call(
    g: CodegenView,
    id: Seq<u8>,
    args: Seq<ExprView>,
    chain: Seq<SltView>,
) -> CodegenView
    decreases args, args.len() + 2,
{
    let limit = call_limit(chain, id);
    let registers = register_count(limit, args.len());
    let stack = stack_count(limit, args.len());
    let slab = stack_size(stack);
    let g1 = g.emit(with_name(CALLING, id, FUNCTION));
    let g2 = if registers > 0 {
        gen_register_args(
            g1.emit(with_name(LOAD_ARGUMENTS, id, ONTO_REGISTERS)).emit(NEWLINE.spec_bytes()),
            args,
            chain,
            0,
            registers,
        )
    } else {
        g1
    };
    let g3 = if stack > 0 {
        gen_stack_args(
            g2.emit(with_name(ALLOCATE, id, ARGUMENTS)).emit(
                with_hex(PUSH_SLAB, slab, CLOSE_WRITE_BACK),
            ).emit(NEWLINE.spec_bytes()),
            args,
            chain,
            registers,
            0,
        )
    } else {
        g2
    };
    let g4 = g3.emit(with_name(JUMP, id, NEWLINE)).emit(NEWLINE.spec_bytes());
    if stack > 0 {
        g4.emit(with_name(POP_ARGUMENTS, id, FUNCTION_ARGUMENTS)).emit(
            with_hex(SHRINK_STACK, slab, NEWLINE),
        ).emit(NEWLINE.spec_bytes())
    } else {
        g4
    }
}

/// The state after the arguments from the `i`th up to the `registers`th
/// were computed and moved to their registers.
pub open spec fn gen_register_args(
    g: CodegenView,
    args: Seq<ExprView>,
    chain: Seq<SltView>,
    i: nat,
    registers: nat,
) -> CodegenView
    decreases args, args.len() - i + 1,
{
    if i < registers && i < args.len() {
        gen_register_args(
            gen_arg(g, args[i as int], chain).register_move(i),
            args,
            chain,
            i + 1,
            registers,
        )
    } else {
        g
    }
}

/// The state after the arguments behind the first `registers`, from the
/// `i`th of them on, were computed and stored to the slab.
pub open spec fn gen_stack_args(
    g: CodegenView,
    args: Seq<ExprView>,
    chain: Seq<SltView>,
    registers: nat,
    i: nat,
) -> CodegenView
    decreases args, args.len() - (registers + i) + 1,
{
    if registers + i < args.len() {
        gen_stack_args(
            gen_arg(g, args[(registers + i) as int], chain).slab_store(i),
            args,
            chain,
            registers,
            i + 1,
        )
    } else {
        g
    }
}

/// The state after the declaration of the variable `id` of the innermost
/// scope: the value is computed into `x8` and stored to the slot of the
/// variable.
pub open spec fn gen_let(g: CodegenView, id: Seq<u8>, value: ExprView, chain: Seq<SltView>) -> CodegenView {
    let g1 = gen_arg(g.with_var(Some(id)), value, chain);
    match chain[0].get_variable(id) {
        Some(var) => g1.emit(with_name(PUSHING_X8, id, TO_THE_STACK)).emit(
            with_hex(STORE_BELOW_FRAME, 8 * (var.offset as nat), CLOSE),
        ).with_var(None).emit(NEWLINE.spec_bytes()),
        None => g1.with_var(None),
    }
}

/// The state after one step of an assignment, with the value so far in
/// `x8`: `Eq` replaces it by the operand; every other operator keeps it on
/// the stack while the operand is computed, and then combines the two.
pub open spec fn gen_unop(g: CodegenView, unop: UnopView, chain: Seq<SltView>) -> CodegenView {
    match unop.op {
        Op::Eq => gen_arg(g, unop.value, chain),
        op => gen_arg(g.emit(SAVE_LEFT.spec_bytes()), unop.value, chain).emit(
            RESTORE_LEFT.spec_bytes(),
        ).emit(operation(op)),
    }
}

/// The state after the steps of an assignment from the `i`th on.
pub open spec fn gen_unops(g: CodegenView, ops: Seq<UnopView>, chain: Seq<SltView>, i: nat) -> CodegenView
    decreases ops.len() - i,
{
    if i < ops.len() {
        gen_unops(gen_unop(g, ops[i as int], chain), ops, chain, i + 1)
    } else {
        g
    }
}

/// The state after an assignment to the variable `id`: its value is read,
/// the steps are applied to it from left to right, and the result is
/// written back.
pub open spec fn gen_assign(g: CodegenView, id: Seq<u8>, ops: Seq<UnopView>, chain: Seq<SltView>) -> CodegenView {
    match find_variable(chain, id) {
        Some(var) => {
            let hops = (chain[0].scope - var.scope) as nat;
            let slot = var.offset as nat;
            gen_unops(
                g.emit(with_name(START_OPERATIONS, id, NEWLINE)).load_variable(id, hops, slot),
                ops,
                chain,
                0,
            ).emit(with_name(END_OPERATIONS, id, NEWLINE)).store_variable(id, hops, slot)
        },
        None => g,
    }
}

/// The state after one statement.
pub open spec fn gen_stmt(g: CodegenView, stmt: StmtView, chain: Seq<SltView>) -> CodegenView {
    match stmt {
        StmtView::Let { id, value } => gen_let(g, id, value, chain),
        StmtView::FnCall { id, args } => gen_fn_call(g, id, args, chain),
        StmtView::Assign { id, ops } => gen_assign(g, id, ops, chain),
    }
}

/// The state after the statements from the `i`th on.
pub open spec fn gen_stmts(g: CodegenView, stmts: Seq<StmtView>, chain: Seq<SltView>, i: nat) -> CodegenView
    decreases stmts.len() - i,
{
    if i < stmts.len() {
        gen_stmts(gen_stmt(g, stmts[i as int], chain), stmts, chain, i + 1)
    } else {
        g
    }
}

/// The state after a function whose scope is the innermost of `chain`: the
/// head; where the scope has variables, a frame that holds them, filled
/// with the parameters; the statements; the release of the frame; the
/// return.
pub open spec fn gen_fn_decl(g: CodegenView, func: FnView, chain: Seq<SltView>) -> CodegenView {
    let slots = chain[0].variables.len();
    let size = stack_size(slots);
    let registers = register_count(register_limit(func.variadic), func.args.len());
    let stack = stack_count(register_limit(func.variadic), func.args.len());
    let g1 = g.fn_head(func.id);
    let g2 = if slots > 0 {
        gen_stack_params(
            gen_register_params(g1.frame_open(func.id, size), 0, registers),
            0,
            stack,
            registers,
        ).emit(NEWLINE.spec_bytes())
    } else {
        g1
    };
    let g3 = gen_stmts(g2, func.stmts, chain, 0);
    let g4 = if slots > 0 {
        g3.frame_close(slots, size)
    } else {
        g3
    };
    g4.emit(POP_FRAME.spec_bytes())
}

/// The state after the functions from the `i`th on, each paired with a
/// scope nested in the innermost of `chain`: the `i`th function with the
/// scope at place `first + i`. Where either runs out, the other is left.
pub open spec fn gen_fns(
    g: CodegenView,
    funcs: Seq<FnView>,
    chain: Seq<SltView>,
    first: nat,
    i: nat,
) -> CodegenView
    decreases funcs.len() - i,
{
    if i < funcs.len() && first + i < chain[0].children.len() {
        gen_fns(
            gen_fn_decl(g, funcs[i as int], seq![chain[0].children[(first + i) as int]] + chain),
            funcs,
            chain,
            first,
            i + 1,
        )
    } else {
        g
    }
}

/// The state after a whole program: the entry that calls `galaxy`, the
/// functions, and the data section with one entry for each string literal.
pub open spec fn gen_program(g: CodegenView, program: ProgramView, chain: Seq<SltView>, first: nat) -> CodegenView {
    gen_data(
        gen_fns(g.emit(ENTRY.spec_bytes()), program.func, chain, first, 0).emit(DATA.spec_bytes()),
        0,
    )
}

// ---------------------------------------------------------------------------
// What the generator asks of its input.
// ---------------------------------------------------------------------------
/// Every identifier that the expression reads resolves from the scopes
/// `chain`.
pub open spec fn arg_resolved(e: ExprView, chain: Seq<SltView>) -> bool
    decreases e, 0nat,
{
    match e {
        ExprView::Lit(_) => true,
        ExprView::ID(id) => find_variable(chain, id) is Some,
        ExprView::FnCall { id, args } => args_resolved(args, chain, 0),
    }
}

/// The expressions from the `from`th on are resolved from the scopes
/// `chain`.
pub open spec fn args_resolved(args: Seq<ExprView>, chain: Seq<SltView>, from: nat) -> bool
    decreases args, args.len() - from + 1,
{
    from >= args.len() || (arg_resolved(args[from as int], chain) && args_resolved(
        args,
        chain,
        from + 1,
    ))
}

/// The operands of the steps from the `from`th on are resolved from the
/// scopes `chain`.
pub open spec fn unops_resolved(ops: Seq<UnopView>, chain: Seq<SltView>, from: nat) -> bool
    decreases ops.len() - from,
{
    from >= ops.len() || (arg_resolved(ops[from as int].value, chain) && unops_resolved(
        ops,
        chain,
        from + 1,
    ))
}

/// Every identifier that the statement reads or writes resolves from the
/// scopes `chain`, and a `Let` declares a variable of the innermost scope.
pub open spec fn stmt_resolved(stmt: StmtView, chain: Seq<SltView>) -> bool {
    match stmt {
        StmtView::Let { id, value } => chain[0].get_variable(id) is Some && arg_resolved(
            value,
            chain,
        ),
        StmtView::FnCall { id, args } => args_resolved(args, chain, 0),
        StmtView::Assign { id, ops } => find_variable(chain, id) is Some && unops_resolved(
            ops,
            chain,
            0,
        ),
    }
}

/// The statements from the `from`th on are resolved from the scopes
/// `chain`.
pub open spec fn stmts_resolved(stmts: Seq<StmtView>, chain: Seq<SltView>, from: nat) -> bool
    decreases stmts.len() - from,
{
    from >= stmts.len() || (stmt_resolved(stmts[from as int], chain) && stmts_resolved(
        stmts,
        chain,
        from + 1,
    ))
}

/// Every statement of the function is resolved from the scopes `chain`.
pub open spec fn fn_resolved(func: FnView, chain: Seq<SltView>) -> bool {
    stmts_resolved(func.stmts, chain, 0)
}

/// Every function from the `i`th on that has a scope to go with, the scope
/// at place `first + i` of those nested in the innermost of `chain`, is
/// resolved from it.
pub open spec fn fns_resolved(funcs: Seq<FnView>, chain: Seq<SltView>, first: nat, i: nat) -> bool
    decreases funcs.len() - i,
{
    i >= funcs.len() || first + i >= chain[0].children.len() || (fn_resolved(
        funcs[i as int],
        seq![chain[0].children[(first + i) as int]] + chain,
    ) && fns_resolved(funcs, chain, first, i + 1))
}

/// Every function that has a scope to go with is resolved from it.
pub open spec fn program_resolved(program: ProgramView, chain: Seq<SltView>, first: nat) -> bool {
    fns_resolved(program.func, chain, first, 0)
}

// ---------------------------------------------------------------------------
// The generator.
// ---------------------------------------------------------------------------
/// The first piece of the load of a literal holds at least one byte.
pub proof fn lemma_pushing_not_empty()
    ensures
        PUSHING.spec_bytes().len() > 0,
{
    reveal_strlit("    // pushing variable ");
    crate::lexer::rules::lemma_encoding_not_empty(PUSHING@);
}

/// What `literal_index` finds has the text asked for, and nothing in front
/// of it has.
pub proof fn lemma_literal_index(literals: Seq<(Seq<u8>, Seq<u8>)>, s: Seq<u8>, from: int)
    requires
        0 <= from,
    ensures
        match literal_index(literals, s, from) {
            Some(i) => from <= i < literals.len() && literals[i].1 == s,
            None => forall|k: int| from <= k < literals.len() ==> (#[trigger] literals[k]).1 != s,
        },
    decreases literals.len() - from,
{
    if from < literals.len() && literals[from].1 != s {
        lemma_literal_index(literals, s, from + 1);
    }
}

/// The load of a literal keeps the state of the generator in order.
pub proof fn lemma_generate_lit_wf(g: CodegenView, lit: LitView)
    requires
        g.wf(),
    ensures
        g.generate_lit(lit).wf(),
        g.generate_lit(lit).curr_var_id == g.curr_var_id,
{
    reveal(CodegenView::generate_lit);
    reveal(CodegenView::address);
    lemma_pushing_not_empty();
    match lit {
        LitView::Str(s) => {
            lemma_literal_index(g.string_literals, s, 0);
            let after = g.generate_lit(lit).string_literals;
            assert forall|i: int, j: int| 0 <= i < j < after.len() implies (#[trigger] after[i]).1 != (
            #[trigger] after[j]).1 by {
                if j < g.string_literals.len() {
                    assert(g.string_literals[i].1 != g.string_literals[j].1);
                } else {
                    assert(g.string_literals[i].1 != s);
                }
            }
        },
        _ => {},
    }
}

impl<'prog> Codegen<'prog> {
    /// The state of the generator is in order.
    pub open spec fn wf(&self) -> bool {
        self@.wf()
    }

    /// A generator that has written nothing.
    pub fn new(c: &'prog Compiler) -> (g: Codegen<'prog>)
        ensures
            g.c == c,
            g@ == CodegenView::initial(),
            g.wf(),
    {
        let g = Self {
            c,
            out: Vec::new(),
            string_literals: Vec::new(),
            curr_var_id: None,
            fmt_str_cpt: 0,
        };
        assert(g@.string_literals =~= Seq::empty());
        g
    }

    /// Writes `s`.
    pub fn emit(&mut self, s: &str)
        ensures
            final(self)@ == old(self)@.emit(s.spec_bytes()),
            final(self).c == old(self).c,
            old(self).wf() ==> final(self).wf(),
    {
        push_str(&mut self.out, s);
    }

    /// Writes the bytes `s`.
    pub fn emit_bytes(&mut self, s: &[u8])
        ensures
            final(self)@ == old(self)@.emit(s@),
            final(self).c == old(self).c,
            old(self).wf() ==> final(self).wf(),
    {
        push_bytes(&mut self.out, s);
    }

    /// Writes `name` between two pieces of text.
    pub fn emit_with_name(&mut self, before: &str, name: &[u8], after: &str)
        ensures
            final(self)@ == old(self)@.emit(with_name(before, name@, after)),
            final(self).c == old(self).c,
            old(self).wf() ==> final(self).wf(),
    {
        push_str(&mut self.out, before);
        push_bytes(&mut self.out, name);
        push_str(&mut self.out, after);
        assert(self.out@ =~= old(self).out@ + with_name(before, name@, after));
    }

    /// Writes `n`, in hexadecimal, between two pieces of text.
    pub fn emit_with_hex(&mut self, before: &str, n: u128, after: &str)
        ensures
            final(self)@ == old(self)@.emit(with_hex(before, n as nat, after)),
            final(self).c == old(self).c,
            old(self).wf() ==> final(self).wf(),
    {
        push_str(&mut self.out, before);
        push_hex(&mut self.out, n);
        push_str(&mut self.out, after);
        assert(self.out@ =~= old(self).out@ + with_hex(before, n as nat, after));
    }

    /// Writes `n`, in decimal, between two pieces of text.
    pub fn emit_with_dec(&mut self, before: &str, n: i64, after: &str)
        ensures
            final(self)@ == old(self)@.emit(with_dec(before, n as int, after)),
            final(self).c == old(self).c,
            old(self).wf() ==> final(self).wf(),
    {
        push_str(&mut self.out, before);
        push_int(&mut self.out, n);
        push_str(&mut self.out, after);
        assert(self.out@ =~= old(self).out@ + with_dec(before, n as int, after));
    }

    /// Writes the count `n`, in decimal, between two pieces of text.
    pub fn emit_with_count(&mut self, before: &str, n: usize, after: &str)
        ensures
            final(self)@ == old(self)@.emit(with_dec(before, n as int, after)),
            final(self).c == old(self).c,
            old(self).wf() ==> final(self).wf(),
    {
        push_str(&mut self.out, before);
        push_dec(&mut self.out, n as u128);
        push_str(&mut self.out, after);
        assert(self.out@ =~= old(self).out@ + with_dec(before, n as int, after));
    }

    /// Ends a block of instructions with an empty line.
    pub fn write_newline(&mut self)
        ensures
            final(self)@ == old(self)@.emit(NEWLINE.spec_bytes()),
            final(self).c == old(self).c,
            old(self).wf() ==> final(self).wf(),
    {
        self.emit(NEWLINE);
    }

    /// The place of the first string literal with the text `s`.
    fn find_literal(&self, s: &[u8]) -> (r: Option<usize>)
        ensures
            match r {
                Some(i) => literal_index(self@.string_literals, s@, 0) == Some(i as int) && i
                    < self.string_literals@.len(),
                None => literal_index(self@.string_literals, s@, 0) is None,
            },
    {
        let mut i: usize = 0;
        while i < self.string_literals.len()
            invariant
                i <= self.string_literals@.len(),
                literal_index(self@.string_literals, s@, 0) == literal_index(
                    self@.string_literals,
                    s@,
                    i as int,
                ),
            decreases self.string_literals@.len() - i,
        {
            if bytes_eq(self.string_literals[i].1.as_slice(), s) {
                return Some(i);
            }
            i += 1;
        }
        None
    }

    /// Makes the label for a literal.
    fn make_label(&mut self) -> (label: Vec<u8>)
        requires
            old(self).fmt_str_cpt < usize::MAX,
        ensures
            label@ == old(self)@.literal_label(),
            final(self)@ == old(self)@.labelled(),
            final(self).c == old(self).c,
    {
        match &self.curr_var_id {
            Some(id) => id.clone(),
            None => {
                self.fmt_str_cpt += 1;
                let mut label = str_to_vec(LITERAL_LABEL);
                push_dec(&mut label, self.fmt_str_cpt as u128);
                label
            },
        }
    }

    /// Loads the address of the string literal labelled `name` into `x8`.
    fn generate_address(&mut self, name: &[u8])
        ensures
            final(self)@ == old(self)@.address(name@),
            final(self)@.curr_var_id == old(self)@.curr_var_id,
            final(self).c == old(self).c,
    {
        reveal(CodegenView::address);
        self.emit_bytes(name);
        self.emit(TO_X8);
        self.emit_with_name(PAGE_OF, name, PAGE);
        self.emit_with_name(PAGE_OFFSET_OF, name, PAGE_OFFSET);
        self.write_newline();
    }

    /// Loads a literal into `x8`.
    pub fn generate_lit(&mut self, lit: &Lit)
        requires
            old(self).wf(),
        ensures
            final(self)@ == old(self)@.generate_lit(lit@),
            final(self).c == old(self).c,
            final(self).wf(),
            final(self)@.curr_var_id == old(self)@.curr_var_id,
    {
        reveal(CodegenView::generate_lit);
        proof {
            lemma_generate_lit_wf(old(self)@, lit@);
            lemma_pushing_not_empty();
        }
        // Every literal starts with the same note, the label behind it
        self.emit(PUSHING);
        let written = self.out.len();
        let curr_id = self.make_label();

        match lit {
            Lit::Int(val) => {
                self.emit_bytes(curr_id.as_slice());
                self.emit(TO_X8);
                self.emit_with_dec(MOVE_IMMEDIATE, *val, NEWLINE);
                self.write_newline();
            },
            Lit::Str(s) => {
                // Check if a similar string literal has already been pushed so we avoid duping items
                match self.find_literal(s.as_slice()) {
                    Some(i) => {
                        let name = self.string_literals[i].0.clone();
                        self.generate_address(name.as_slice());
                    },
                    None => {
                        let ghost before = self@;
                        self.string_literals.push((curr_id.clone(), s.clone()));
                        assert(self@.string_literals =~= before.string_literals.push(
                            (curr_id@, s@),
                        ));
                        self.generate_address(curr_id.as_slice());
                    },
                }
            },
            Lit::Bool(b) => {
                self.emit_bytes(curr_id.as_slice());
                self.emit(TO_X8);
                self.emit(MOVE_IMMEDIATE);
                if *b {
                    self.emit(ONE);
                } else {
                    self.emit(ZERO);
                }
                self.emit(NEWLINE);
                self.write_newline();
            },
        }
    }

    /// Puts the address of the frame `hops` scopes up into `x9`.
    fn generate_frame_address(&mut self, id: &[u8], hops: u32)
        ensures
            final(self)@ == old(self)@.frame_address(id@, hops as nat),
            final(self)@.curr_var_id == old(self)@.curr_var_id,
            final(self).c == old(self).c,
            old(self).wf() ==> final(self).wf(),
    {
        reveal(CodegenView::frame_address);
        self.emit(FRAME_POINTER);
        if hops > 0 {
            self.emit_with_name(CLIMB_NOTE, id, SCOPE);
        }
        let ghost start = self@;
        let mut i: u32 = 0;
        while i < hops
            invariant
                i <= hops,
                self@ == gen_climb(start, i as nat),
                self@.curr_var_id == old(self)@.curr_var_id,
                self.c == old(self).c,
                old(self).wf() ==> self.wf(),
            decreases hops - i,
        {
            self.emit(CLIMB);
            i += 1;
        }
        self.write_newline();
    }

    /// Reads a variable into `x8`.
    fn generate_load(&mut self, id: &[u8], hops: u32, slot: i32)
        requires
            slot >= 0,
        ensures
            final(self)@ == old(self)@.load_variable(id@, hops as nat, slot as nat),
            final(self)@.curr_var_id == old(self)@.curr_var_id,
            final(self).c == old(self).c,
            old(self).wf() ==> final(self).wf(),
    {
        reveal(CodegenView::load_variable);
        self.generate_frame_address(id, hops);
        self.emit_with_name(LOAD_VAR, id, INTO_X8);
        self.emit_with_hex(LOAD_SLOT, (slot as u128) * SLOT_SIZE, CLOSE);
        self.write_newline();
    }

    /// Writes `x8` to a variable.
    fn generate_store(&mut self, id: &[u8], hops: u32, slot: i32)
        requires
            slot >= 0,
        ensures
            final(self)@ == old(self)@.store_variable(id@, hops as nat, slot as nat),
            final(self)@.curr_var_id == old(self)@.curr_var_id,
            final(self).c == old(self).c,
            old(self).wf() ==> final(self).wf(),
    {
        reveal(CodegenView::store_variable);
        self.generate_frame_address(id, hops);
        self.emit_with_hex(STORE_SLOT, (slot as u128) * SLOT_SIZE, CLOSE);
        self.write_newline();
    }

    /// Moves `x8` to the argument register `i`.
    fn generate_register_move(&mut self, i: usize)
        ensures
            final(self)@ == old(self)@.register_move(i as nat),
            final(self)@.curr_var_id == old(self)@.curr_var_id,
            final(self).c == old(self).c,
            old(self).wf() ==> final(self).wf(),
    {
        reveal(CodegenView::register_move);
        self.emit_with_count(ONTO_REGISTER, i, NEWLINE);
        self.emit_with_count(MOVE_REGISTER, i, FROM_X8);
        self.write_newline();
    }

    /// Stores `x8` to the `i`th place of the slab.
    fn generate_slab_store(&mut self, i: usize)
        ensures
            final(self)@ == old(self)@.slab_store(i as nat),
            final(self)@.curr_var_id == old(self)@.curr_var_id,
            final(self).c == old(self).c,
            old(self).wf() ==> final(self).wf(),
    {
        reveal(CodegenView::slab_store);
        self.emit(ONTO_SLAB);
        self.emit_with_hex(STORE_SLAB, (i as u128) * SLOT_SIZE, CLOSE);
        self.write_newline();
    }

    /// Reads the variable that `id` resolves to into `x8`.
    pub fn generate_id(&mut self, id: &[u8], slt: &NavigableSlt)
        requires
            slt.wf(),
            find_variable(slt@, id@) is Some,
        ensures
            final(self)@ == old(self)@.load_variable(
                id@,
                (slt@[0].scope - find_variable(slt@, id@)->0.scope) as nat,
                find_variable(slt@, id@)->0.offset as nat,
            ),
            final(self)@.curr_var_id == old(self)@.curr_var_id,
            final(self).c == old(self).c,
            old(self).wf() ==> final(self).wf(),
    {
        proof {
            lemma_find_variable(slt@, id@);
        }
        match slt.find_variable(id) {
            Some(var) => {
                assert(slt@[0] == slt.slt@);
                let diff = slt.slt.scope - var.scope;
                self.generate_load(id, diff, var.offset);
            },
            None => {},
        }
    }

    /// Computes an expression into `x8`.
    pub fn generate_arg(&mut self, expr: &Expr, slt: &NavigableSlt)
        requires
            old(self).wf(),
            slt.wf(),
            arg_resolved(expr@, slt@),
        ensures
            final(self)@ == gen_arg(old(self)@, expr@, slt@),
            final(self).c == old(self).c,
            final(self).wf(),
            final(self)@.curr_var_id == old(self)@.curr_var_id,
        decreases expr, 0nat,
    {
        match expr {
            Expr::Lit(lit) => {
                self.generate_lit(lit)
            },
            Expr::ID(id) => {
                self.generate_id(id.as_slice(), slt);
            },
            Expr::FnCall { id, args } => {
                self.generate_call_value(id.as_slice(), args, slt);
            },
        }
    }

    /// Calls the function `id` for its result, which it takes from `x0`.
    /// The call is no part of the value of a variable: the literals among
    /// its arguments get labels of their own.
    pub fn generate_call_value(&mut self, id: &[u8], args: &Vec<Expr>, slt: &NavigableSlt)
        requires
            old(self).wf(),
            slt.wf(),
            args_resolved(exprs_view(args@), slt@, 0),
        ensures
            final(self)@ == gen_fn_call(
                old(self)@.with_var(None),
                id@,
                exprs_view(args@),
                slt@,
            ).with_var(old(self)@.curr_var_id).emit(RESULT.spec_bytes()),
            final(self).c == old(self).c,
            final(self).wf(),
            final(self)@.curr_var_id == old(self)@.curr_var_id,
        decreases args, args.len() + 3,
    {
        let saved = match &self.curr_var_id {
            Some(id) => Some(id.clone()),
            None => None,
        };
        self.curr_var_id = None;
        self.generate_fn_call(id, args, slt);
        self.curr_var_id = saved;
        self.emit(RESULT);
    }

    /// Calls the function `id` with the arguments `args`.
    pub fn generate_fn_call(&mut self, id: &[u8], args: &Vec<Expr>, slt: &NavigableSlt)
        requires
            old(self).wf(),
            slt.wf(),
            args_resolved(exprs_view(args@), slt@, 0),
        ensures
            final(self)@ == gen_fn_call(old(self)@, id@, exprs_view(args@), slt@),
            final(self).c == old(self).c,
            final(self).wf(),
            final(self)@.curr_var_id == old(self)@.curr_var_id,
        decreases args, args.len() + 2,
    {
        let limit = match slt.find_func(id) {
            Some(f) => register_limit_of(f.variadic),
            None => REGISTER_LIMIT,
        };
        let parts = partition(limit, args.len());
        let reg_args = parts.registers;
        let stack_args = parts.stack;
        let allocated_space = parts.slab;
        let ghost views = exprs_view(args@);
        proof {
            lemma_exprs_view(args@);
        }

        self.emit_with_name(CALLING, id, FUNCTION);

        if reg_args > 0 {
            self.emit_with_name(LOAD_ARGUMENTS, id, ONTO_REGISTERS);
            self.write_newline();
            let ghost start = self@;

            let mut i: usize = 0;
            while i < reg_args
                invariant
                    i <= reg_args <= args@.len(),
                    views == exprs_view(args@),
                    views.len() == args@.len(),
                    forall|k: int| 0 <= k < args@.len() ==> #[trigger] views[k] == args@[k]@,
                    args_resolved(views, slt@, i as nat),
                    slt.wf(),
                    self.wf(),
                    self.c == old(self).c,
                    self@.curr_var_id == old(self)@.curr_var_id,
                    gen_register_args(self@, views, slt@, i as nat, reg_args as nat)
                        == gen_register_args(start, views, slt@, 0, reg_args as nat),
                decreases reg_args - i,
            {
                self.generate_arg(&args[i], slt);

                // Load the argument onto the associated register
                self.generate_register_move(i);
                i += 1;
            }
        }

        if stack_args > 0 {
            self.emit_with_name(ALLOCATE, id, ARGUMENTS);
            self.emit_with_hex(PUSH_SLAB, allocated_space, CLOSE_WRITE_BACK);
            self.write_newline();
            let ghost start = self@;

            let mut i: usize = 0;
            while i < stack_args
                invariant
                    i <= stack_args,
                    reg_args + stack_args == args@.len(),
                    views == exprs_view(args@),
                    views.len() == args@.len(),
                    forall|k: int| 0 <= k < args@.len() ==> #[trigger] views[k] == args@[k]@,
                    args_resolved(views, slt@, (reg_args + i) as nat),
                    slt.wf(),
                    self.wf(),
                    self.c == old(self).c,
                    self@.curr_var_id == old(self)@.curr_var_id,
                    gen_stack_args(self@, views, slt@, reg_args as nat, i as nat) == gen_stack_args(
                        start,
                        views,
                        slt@,
                        reg_args as nat,
                        0,
                    ),
                decreases stack_args - i,
            {
                self.generate_arg(&args[reg_args + i], slt);

                // Load the argument onto the stack for fn call
                self.generate_slab_store(i);
                i += 1;
            }
        }

        self.emit_with_name(JUMP, id, NEWLINE);
        self.write_newline();

        if stack_args > 0 {
            self.emit_with_name(POP_ARGUMENTS, id, FUNCTION_ARGUMENTS);
            self.emit_with_hex(SHRINK_STACK, allocated_space, NEWLINE);
            self.write_newline();
        }
    }

    /// Declares a variable of the innermost scope: computes its value into
    /// `x8` and stores it to the slot of the variable.
    pub fn generate_let(&mut self, id: &[u8], value: &Expr, slt: &NavigableSlt)
        requires
            old(self).wf(),
            slt.wf(),
            slt@[0].get_variable(id@) is Some,
            arg_resolved(value@, slt@),
        ensures
            final(self)@ == gen_let(old(self)@, id@, value@, slt@),
            final(self).c == old(self).c,
            final(self).wf(),
    {
        self.curr_var_id = Some(to_vec(id));
        // Value is loaded inside the x8 register we need to store it on the stack
        self.generate_arg(value, slt);
        assert(slt@[0] == slt.slt@);
        proof {
            lemma_find_variable(slt@, id@);
        }
        match slt.slt.get_variable(id) {
            Some(var) => {
                self.emit_with_name(PUSHING_X8, id, TO_THE_STACK);
                self.emit_with_hex(STORE_BELOW_FRAME, (var.offset as u128) * SLOT_SIZE, CLOSE);
                self.curr_var_id = None;
                self.write_newline();
            },
            None => {
                self.curr_var_id = None;
            },
        }
    }

    /// Applies one step of an assignment to the value in `x8`.
    pub fn generate_unop(&mut self, unop: &Unop, slt: &NavigableSlt)
        requires
            old(self).wf(),
            slt.wf(),
            arg_resolved(unop@.value, slt@),
        ensures
            final(self)@ == gen_unop(old(self)@, unop@, slt@),
            final(self).c == old(self).c,
            final(self).wf(),
            final(self)@.curr_var_id == old(self)@.curr_var_id,
    {
        match unop.op {
            Op::Eq => {
                self.generate_arg(&unop.value, slt);
            },
            Op::Add => {
                self.emit(SAVE_LEFT);
                self.generate_arg(&unop.value, slt);
                self.emit(RESTORE_LEFT);
                self.emit(ADD);
            },
            Op::Sub => {
                self.emit(SAVE_LEFT);
                self.generate_arg(&unop.value, slt);
                self.emit(RESTORE_LEFT);
                self.emit(SUB);
            },
            Op::Mul => {
                self.emit(SAVE_LEFT);
                self.generate_arg(&unop.value, slt);
                self.emit(RESTORE_LEFT);
                self.emit(MUL);
            },
            Op::Div => {
                self.emit(SAVE_LEFT);
                self.generate_arg(&unop.value, slt);
                self.emit(RESTORE_LEFT);
                self.emit(DIV);
            },
            Op::Mod => {
                self.emit(SAVE_LEFT);
                self.generate_arg(&unop.value, slt);
                self.emit(RESTORE_LEFT);
                self.emit(MOD);
            },
        }
    }

    /// Assigns to the variable `id`: reads its value, applies the steps to
    /// it from left to right, and writes the result back.
    pub fn generate_assign(&mut self, id: &[u8], ops: &Vec<Unop>, slt: &NavigableSlt)
        requires
            old(self).wf(),
            slt.wf(),
            find_variable(slt@, id@) is Some,
            unops_resolved(ops@.map_values(|u: Unop| u@), slt@, 0),
        ensures
            final(self)@ == gen_assign(old(self)@, id@, ops@.map_values(|u: Unop| u@), slt@),
            final(self).c == old(self).c,
            final(self).wf(),
            final(self)@.curr_var_id == old(self)@.curr_var_id,
    {
        proof {
            lemma_find_variable(slt@, id@);
        }
        let ghost views = ops@.map_values(|u: Unop| u@);
        match slt.find_variable(id) {
            Some(var) => {
                assert(slt@[0] == slt.slt@);
                let hops = slt.slt.scope - var.scope;
                let slot = var.offset;
                self.emit_with_name(START_OPERATIONS, id, NEWLINE);
                self.generate_load(id, hops, slot);
                let ghost start = self@;
                let mut i: usize = 0;
                while i < ops.len()
                    invariant
                        i <= ops@.len(),
                        views == ops@.map_values(|u: Unop| u@),
                        unops_resolved(views, slt@, i as nat),
                        slt.wf(),
                        self.wf(),
                        self.c == old(self).c,
                        self@.curr_var_id == old(self)@.curr_var_id,
                        gen_unops(self@, views, slt@, i as nat) == gen_unops(start, views, slt@, 0),
                    decreases ops@.len() - i,
                {
                    self.generate_unop(&ops[i], slt);
                    i += 1;
                }
                self.emit_with_name(END_OPERATIONS, id, NEWLINE);
                self.generate_store(id, hops, slot);
            },
            None => {},
        }
    }

    /// Generates one statement.
    pub fn generate_stmt(&mut self, stmt: &Stmt, slt: &NavigableSlt)
        requires
            old(self).wf(),
            slt.wf(),
            stmt_resolved(stmt@, slt@),
        ensures
            final(self)@ == gen_stmt(old(self)@, stmt@, slt@),
            final(self).c == old(self).c,
            final(self).wf(),
    {
        match stmt {
            Stmt::Let { id, value } => self.generate_let(id.as_slice(), value, slt),
            Stmt::FnCall { id, args } => self.generate_fn_call(id.as_slice(), args, slt),
            Stmt::Assign { id, ops } => self.generate_assign(id.as_slice(), ops, slt),
        }
    }

    /// Opens the frame of the function `id`.
    fn generate_frame_open(&mut self, id: &[u8], size: u128)
        ensures
            final(self)@ == old(self)@.frame_open(id@, size as nat),
            final(self).c == old(self).c,
            old(self).wf() ==> final(self).wf(),
    {
        reveal(CodegenView::frame_open);
        self.emit_with_name(CORE, id, FUNCTION);
        self.emit_with_name(ALLOCATE, id, ARGUMENTS);
        self.emit_with_hex(GROW_STACK, size, NEWLINE);
        self.write_newline();
        self.emit_with_name(LOAD_ARGUMENTS, id, ONTO_STACK);
    }

    /// Stores the parameters of a function to their slots.
    fn generate_params(&mut self, registers: usize, stack: usize)
        ensures
            final(self)@ == gen_stack_params(
                gen_register_params(old(self)@, 0, registers as nat),
                0,
                stack as nat,
                registers as nat,
            ),
            final(self).c == old(self).c,
            old(self).wf() ==> final(self).wf(),
    {
        let mut i: usize = 0;
        while i < registers
            invariant
                i <= registers,
                self.c == old(self).c,
                old(self).wf() ==> self.wf(),
                gen_register_params(self@, i as nat, registers as nat) == gen_register_params(
                    old(self)@,
                    0,
                    registers as nat,
                ),
            decreases registers - i,
        {
            self.emit_with_count(STORE_REGISTER, i, BELOW_FRAME);
            self.emit_with_hex(EMPTY, (i as u128 + 1) * SLOT_SIZE, CLOSE);
            i += 1;
        }
        let ghost start = self@;
        let mut i: usize = 0;
        while i < stack
            invariant
                i <= stack,
                self.c == old(self).c,
                old(self).wf() ==> self.wf(),
                gen_stack_params(self@, i as nat, stack as nat, registers as nat)
                    == gen_stack_params(start, 0, stack as nat, registers as nat),
            decreases stack - i,
        {
            self.emit_with_hex(LOAD_ABOVE_FRAME, FRAME_RECORD_SIZE + (i as u128) * SLOT_SIZE, CLOSE);
            self.emit_with_hex(
                STORE_BELOW_FRAME,
                (registers as u128 + i as u128 + 1) * SLOT_SIZE,
                CLOSE,
            );
            i += 1;
        }
    }

    /// Generates a function whose scope is `slt`.
    pub fn generate_fn_decl(&mut self, func: &Fn, slt: &NavigableSlt)
        requires
            old(self).wf(),
            slt.wf(),
            fn_resolved(func@, slt@),
        ensures
            final(self)@ == gen_fn_decl(old(self)@, func@, slt@),
            final(self).c == old(self).c,
            final(self).wf(),
    {
        reveal(CodegenView::fn_head);
        reveal(CodegenView::frame_close);
        assert(slt@[0] == slt.slt@);
        self.emit_with_name(GLOBAL, func.id.as_slice(), ALIGN);
        self.emit_with_name(EMPTY, func.id.as_slice(), LABEL_END);
        self.emit(PUSH_FRAME);

        let slots = slt.slt.variables.len();
        let allocated_stack_size = stack_bytes(slots);

        if slots > 0 {
            // Allocate variables on the stack and store them
            let parts = partition(register_limit_of(func.variadic), func.args.len());
            self.generate_frame_open(func.id.as_slice(), allocated_stack_size);
            self.generate_params(parts.registers, parts.stack);
            self.write_newline();
        }

        let ghost start = self@;
        let ghost stmts = func@.stmts;
        let mut i: usize = 0;
        while i < func.stmts.len()
            invariant
                i <= func.stmts@.len(),
                stmts == func@.stmts,
                stmts_resolved(stmts, slt@, i as nat),
                slt.wf(),
                self.wf(),
                self.c == old(self).c,
                gen_stmts(self@, stmts, slt@, i as nat) == gen_stmts(start, stmts, slt@, 0),
            decreases func.stmts@.len() - i,
        {
            self.generate_stmt(&func.stmts[i], slt);
            i += 1;
        }

        if slots > 0 {
            self.emit_with_count(DEALLOCATING, slots, VARIABLES);
            self.emit_with_hex(SHRINK_STACK, allocated_stack_size, NEWLINE);
            self.write_newline();
        }

        self.emit(POP_FRAME);
    }

    /// Generates a whole program: the entry, the functions, each with the
    /// next of the scopes that `childs` walks, and the data section.
    pub fn generate_program(
        &mut self,
        program: &Program,
        slt: &NavigableSlt,
        childs: &mut ChildIterator,
    )
        requires
            old(self).wf(),
            slt.wf(),
            old(childs).parent == slt,
            program_resolved(program@, slt@, old(childs).pos as nat),
        ensures
            final(self)@ == gen_program(old(self)@, program@, slt@, old(childs).pos as nat),
            final(self).c == old(self).c,
            final(self).wf(),
            final(childs).parent == old(childs).parent,
    {
        self.emit(ENTRY);
        assert(slt@[0] == slt.slt@);
        proof {
            crate::parser::slt::lemma_slts_view(slt.slt.children@);
        }

        let ghost start = self@;
        let ghost funcs = program@.func;
        let ghost first = old(childs).pos as nat;
        let mut i: usize = 0;
        loop
            invariant_except_break
                gen_fns(self@, funcs, slt@, first, i as nat) == gen_fns(start, funcs, slt@, first, 0),
            invariant
                i <= program.func@.len(),
                funcs == program@.func,
                childs.parent == slt,
                childs.pos == first + i,
                slt@[0] == slt.slt@,
                slt@[0].children.len() == slt.slt.children@.len(),
                fns_resolved(funcs, slt@, first, i as nat),
                slt.wf(),
                self.wf(),
                self.c == old(self).c,
            ensures
                self@ == gen_fns(start, funcs, slt@, first, 0),
            decreases program.func@.len() - i,
        {
            if i >= program.func.len() {
                break ;
            }
            match childs.next() {
                Some(slt) => {
                    self.generate_fn_decl(&program.func[i], &slt);
                },
                None => {
                    break ;
                },
            }
            i += 1;
        }

        self.emit(DATA);

        let ghost start = self@;
        let mut i: usize = 0;
        while i < self.string_literals.len()
            invariant
                i <= self.string_literals@.len(),
                self@.string_literals == start.string_literals,
                self.wf(),
                self.c == old(self).c,
                gen_data(self@, i as nat) == gen_data(start, 0),
            decreases self.string_literals@.len() - i,
        {
            let name = self.string_literals[i].0.clone();
            let s = self.string_literals[i].1.clone();
            self.emit_with_name(INDENT, name.as_slice(), ASCIZ);
            self.emit_bytes(s.as_slice());
            self.emit(QUOTE);
            i += 1;
        }
    }

    /// The assembly written so far.
    pub fn output(&self) -> (out: &Vec<u8>)
        ensures
            out@ == self@.out,
    {
        &self.out
    }

    /// Puts together the command that turns the assembly into an object
    /// file.
    pub fn assembler_command(&self, cmd: &mut Cmd)
        ensures
            final(cmd)@ == (CmdView {
                inner: old(cmd)@.inner + seq![
                    "as"@,
                    "-o"@,
                    self.c.object_path@,
                    self.c.output_path@,
                ],
                ..old(cmd)@
            }),
    {
        cmd.append("as");
        cmd.append("-o");
        cmd.append(self.c.object_path.as_str());
        cmd.append(self.c.output_path.as_str());
        assert(cmd@.inner =~= old(cmd)@.inner + seq![
            "as"@,
            "-o"@,
            self.c.object_path@,
            self.c.output_path@,
        ]);
    }

    /// Puts together the command that links the object file into the
    /// executable.
    pub fn linker_command(&self, cmd: &mut Cmd)
        ensures
            final(cmd)@ == (CmdView {
                inner: old(cmd)@.inner + seq![
                    "cc"@,
                    "-arch"@,
                    "arm64"@,
                    "-o"@,
                    self.c.program_path@,
                    self.c.object_path@,
                ],
                ..old(cmd)@
            }),
    {
        cmd.append("cc");
        cmd.append("-arch");
        cmd.append("arm64");
        cmd.append("-o");
        cmd.append(self.c.program_path.as_str());
        cmd.append(self.c.object_path.as_str());
        assert(cmd@.inner =~= old(cmd)@.inner + seq![
            "cc"@,
            "-arch"@,
            "arm64"@,
            "-o"@,
            self.c.program_path@,
            self.c.object_path@,
        ]);
    }
}

// ---------------------------------------------------------------------------
// What holds of the generated code.
// ---------------------------------------------------------------------------
/// `count` loads of the saved frame pointer, one behind the other.
pub open spec fn climbs(count: nat) -> Seq<u8>
    decreases count,
{
    if count == 0 {
        Seq::empty()
    } else {
        climbs((count - 1) as nat) + CLIMB.spec_bytes()
    }
}

/// The `k`th stretch of the length of one load in a climb of `count`
/// loads.
pub open spec fn climb_at(count: nat, k: int) -> Seq<u8> {
    let len = CLIMB.spec_bytes().len() as int;
    climbs(count).subrange(k * len, (k + 1) * len)
}

/// The climb to a frame `count` scopes up is made of `count` loads of the
/// saved frame pointer and of nothing else: the text has `count` times the
/// length of one load, and each stretch of that length in it is one load.
pub proof fn lemma_climb(g: CodegenView, count: nat)
    ensures
        gen_climb(g, count) == g.emit(climbs(count)),
        climbs(count).len() == count * CLIMB.spec_bytes().len(),
        forall|k: int| 0 <= k < count ==> #[trigger] climb_at(count, k) == CLIMB.spec_bytes(),
    decreases count,
{
    let line = CLIMB.spec_bytes();
    let len = line.len() as int;
    if count == 0 {
        assert(g.emit(climbs(count)).out =~= g.out);
    } else {
        let prev = (count - 1) as nat;
        lemma_climb(g, prev);
        assert(g.emit(climbs(prev)).emit(line).out =~= g.emit(climbs(count)).out);
        assert(climbs(count).len() == count * line.len()) by (nonlinear_arith)
            requires
                climbs(count).len() == climbs(prev).len() + line.len(),
                climbs(prev).len() == prev * line.len(),
                prev == count - 1,
        ;
        assert forall|k: int| 0 <= k < count implies #[trigger] climb_at(count, k) == line by {
            assert((k + 1) * len == k * len + len) by (nonlinear_arith);
            assert(0 <= k * len) by (nonlinear_arith)
                requires
                    0 <= k,
                    0 <= len,
            ;
            if k < prev {
                assert((k + 1) * len <= prev * len) by (nonlinear_arith)
                    requires
                        k + 1 <= prev,
                        0 <= len,
                ;
                assert(climb_at(prev, k) == line);
                assert(climb_at(count, k) =~= climb_at(prev, k));
            } else {
                assert(k * len == prev * len);
                assert(climb_at(count, k) =~= line);
            }
        }
    }
}

/// The read of a variable follows the saved frame pointers once for each
/// scope between the use and the declaration. For a variable that `id`
/// resolves to from the scopes `chain`, declared at depth `d1` and read
/// at depth `d2`, the generated code is: the copy of the frame pointer, the
/// note of the climb where `d2 > d1`, `d2 - d1` loads of the saved frame
/// pointer, and the load from the slot of the variable.
pub proof fn lemma_variable_read(g: CodegenView, id: Seq<u8>, chain: Seq<SltView>)
    requires
        chain_wf(chain),
        find_variable(chain, id) is Some,
    ensures
        ({
            let var = find_variable(chain, id)->0;
            let hops = spec_distance(chain[0].scope, var.scope);
            &&& hops >= 0
            &&& gen_arg(g, ExprView::ID(id), chain).out == g.out + FRAME_POINTER.spec_bytes() + (
            if hops > 0 {
                with_name(CLIMB_NOTE, id, SCOPE)
            } else {
                Seq::empty()
            }) + climbs(hops as nat) + NEWLINE.spec_bytes() + with_name(LOAD_VAR, id, INTO_X8)
                + with_hex(LOAD_SLOT, 8 * (var.offset as nat), CLOSE) + NEWLINE.spec_bytes()
            &&& gen_arg(g, ExprView::ID(id), chain).string_literals == g.string_literals
            &&& gen_arg(g, ExprView::ID(id), chain).fmt_str_cpt == g.fmt_str_cpt
        }),
{
    reveal(CodegenView::load_variable);
    reveal(CodegenView::frame_address);
    lemma_find_variable(chain, id);
    let var = find_variable(chain, id)->0;
    let hops = (chain[0].scope - var.scope) as nat;
    let g1 = g.emit(FRAME_POINTER.spec_bytes());
    let g2 = if hops > 0 {
        g1.emit(with_name(CLIMB_NOTE, id, SCOPE))
    } else {
        g1
    };
    lemma_climb(g2, hops);
    assert(gen_arg(g, ExprView::ID(id), chain).out =~= g.out + FRAME_POINTER.spec_bytes() + (
    if hops > 0 {
        with_name(CLIMB_NOTE, id, SCOPE)
    } else {
        Seq::empty()
    }) + climbs(hops) + NEWLINE.spec_bytes() + with_name(LOAD_VAR, id, INTO_X8) + with_hex(
        LOAD_SLOT,
        8 * (var.offset as nat),
        CLOSE,
    ) + NEWLINE.spec_bytes());
}

/// What `literal_count` counts: a text that stands at one place among
/// literals with distinct texts is counted once, and a text that stands
/// nowhere is not counted.
pub proof fn lemma_literal_count(literals: Seq<(Seq<u8>, Seq<u8>)>, s: Seq<u8>)
    requires
        literals_distinct(literals),
    ensures
        literal_count(literals, s) == if literal_index(literals, s, 0) is Some {
            1nat
        } else {
            0nat
        },
    decreases literals.len(),
{
    lemma_literal_index(literals, s, 0);
    if literals.len() > 0 {
        let front = literals.drop_last();
        assert forall|i: int, j: int| 0 <= i < j < front.len() implies (#[trigger] front[i]).1 != (
        #[trigger] front[j]).1 by {
            assert(literals[i].1 != literals[j].1);
        }
        lemma_literal_count(front, s);
        lemma_literal_index(front, s, 0);
        if literal_index(front, s, 0) is Some {
            let i = literal_index(front, s, 0)->0;
            assert(literals[i].1 == s);
            assert(literals[i].1 != literals[literals.len() - 1].1);
        } else if literals.last().1 != s {
            if literal_index(literals, s, 0) is Some {
                let i = literal_index(literals, s, 0)->0;
                assert(front[i].1 == s);
            }
        }
    }
}

/// String literals are kept once. After a string literal was loaded, its
/// text stands exactly once among the literals, which still have distinct
/// texts; when the same text is loaded again, the literals stay as they
/// are. The data section has one entry for each literal, so each text gets
/// one entry.
pub proof fn lemma_literal_once(g: CodegenView, s: Seq<u8>)
    requires
        g.wf(),
    ensures
        ({
            let g1 = g.generate_lit(LitView::Str(s));
            let g2 = g1.generate_lit(LitView::Str(s));
            &&& literals_distinct(g1.string_literals)
            &&& literal_count(g1.string_literals, s) == 1
            &&& g2.string_literals == g1.string_literals
        }),
{
    reveal(CodegenView::generate_lit);
    reveal(CodegenView::address);
    let g1 = g.generate_lit(LitView::Str(s));
    lemma_generate_lit_wf(g, LitView::Str(s));
    lemma_literal_index(g.string_literals, s, 0);
    lemma_literal_index(g1.string_literals, s, 0);
    if literal_index(g.string_literals, s, 0) is None {
        assert(g1.string_literals[g.string_literals.len() as int].1 == s);
    }
    lemma_literal_count(g1.string_literals, s);
}

/// The generator reads its input and changes nothing but its own state,
/// which is a function of the state before and of the input: two runs from
/// equal states on equal input end in equal states, and so in the same
/// assembly, byte for byte.
pub proof fn lemma_same_input_same_output(
    g1: CodegenView,
    g2: CodegenView,
    program1: ProgramView,
    program2: ProgramView,
    chain1: Seq<SltView>,
    chain2: Seq<SltView>,
    first: nat,
)
    requires
        g1 == g2,
        program1 == program2,
        chain1 == chain2,
    ensures
        gen_program(g1, program1, chain1, first) == gen_program(g2, program2, chain2, first),
        gen_program(g1, program1, chain1, first).out == gen_program(g2, program2, chain2, first).out,
{
}

} // verus!
