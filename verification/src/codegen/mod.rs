//! Code generation: from a program and its symbol lookup table to assembly.

use vstd::prelude::*;

use crate::compiler::Compiler;
use crate::ir::{Program, ProgramView};
use crate::parser::slt::{ChildIterator, NavigableSlt, SltView};
use crate::target::Target;

pub mod aarch64;
pub mod error;

verus! {

/// A generator of assembly for one target.
pub trait Codegen {
    /// The assembly written so far.
    spec fn written(&self) -> Seq<u8>;

    /// What the generator asks of itself and of the program: the names of
    /// each function resolve from the scope that goes with it, the scope at
    /// place `first` onwards of those nested in the innermost of `chain`.
    spec fn takes_program(&self, program: ProgramView, chain: Seq<SltView>, first: nat) -> bool;

    /// The assembly once the program was generated.
    spec fn with_program(&self, program: ProgramView, chain: Seq<SltView>, first: nat) -> Seq<u8>;

    fn generate_program(&mut self, program: &Program, slt: &NavigableSlt, childs: &mut ChildIterator)
        requires
            slt.wf(),
            old(childs).parent == slt,
            old(self).takes_program(program@, slt@, old(childs).pos as nat),
        ensures
            final(self).written() == old(self).with_program(
                program@,
                slt@,
                old(childs).pos as nat,
            ),
    ;
}

impl<'prog> Codegen for aarch64::Codegen<'prog> {
    open spec fn written(&self) -> Seq<u8> {
        self@.out
    }

    open spec fn takes_program(&self, program: ProgramView, chain: Seq<SltView>, first: nat) -> bool {
        self.wf() && aarch64::program_resolved(program, chain, first)
    }

    open spec fn with_program(&self, program: ProgramView, chain: Seq<SltView>, first: nat) -> Seq<
        u8,
    > {
        aarch64::gen_program(self@, program, chain, first).out
    }

    fn generate_program(&mut self, program: &Program, slt: &NavigableSlt, childs: &mut ChildIterator) {
        aarch64::Codegen::generate_program(self, program, slt, childs)
    }
}

/// The generator for the target of the compiler.
pub fn build_codegen<'prog>(c: &'prog Compiler) -> (g: aarch64::Codegen<'prog>)
    ensures
        g.c == c,
        g@ == aarch64::CodegenView::initial(),
        g.wf(),
{
    match c.target {
        Target::AArch64Darwin => aarch64::Codegen::new(c),
    }
}

} // verus!
