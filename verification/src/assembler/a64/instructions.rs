//! The instructions that the generator writes.

use vstd::prelude::*;
use vstd::string::*;

use super::{A64Compiler, A64View, Index};
use crate::assembler::macos;
use crate::assembler::macos::{address, line2, line3, line4, load_string_lines};
use crate::parser::slt::{Variable, VariableView};
use crate::text::{push_bytes, push_str};

verus! {

pub const X8: &'static str = "x8";

pub const X9: &'static str = "x9";

pub const X29: &'static str = "x29";

pub const COMMENT: &'static str = "\t// ";

pub const BRANCH: &'static str = "\tb";

pub const TO_LABEL: &'static str = " _";

pub const LABEL: &'static str = "_";

pub const LABEL_END: &'static str = ":\n";

pub const CMP: &'static str = "\tcmp ";

pub const WITH_ZERO: &'static str = ", 0x0\n";

/// `count` loads of the saved frame pointer through `x9`.
pub open spec fn climb(count: nat) -> Seq<u8>
    decreases count,
{
    if count == 0 {
        Seq::empty()
    } else {
        climb((count - 1) as nat) + line2(macos::LDR, X9.spec_bytes(), address(X9.spec_bytes(), None))
    }
}

/// The read of a variable, declared `hops` scopes up at the offset
/// `offset`, into `x8`: the frame pointer is copied to `x9`, which then
/// follows the saved frame pointers.
pub open spec fn load_variable_lines(hops: nat, offset: i32) -> Seq<u8> {
    line2(macos::MOV, X9.spec_bytes(), X29.spec_bytes()) + climb(hops) + line2(
        macos::LDR,
        X8.spec_bytes(),
        address(X9.spec_bytes(), Some(Index { offset, position: super::Position::Offset })),
    )
}

pub open spec fn comment_line(comment: Seq<u8>) -> Seq<u8> {
    COMMENT.spec_bytes() + comment + macos::END_OF_LINE.spec_bytes()
}

/// A branch to the label `label` under the condition `flag`.
pub open spec fn branch_line(label: Seq<u8>, flag: Seq<u8>) -> Seq<u8> {
    BRANCH.spec_bytes() + flag + TO_LABEL.spec_bytes() + label + macos::END_OF_LINE.spec_bytes()
}

pub open spec fn label_line(label: Seq<u8>) -> Seq<u8> {
    LABEL.spec_bytes() + label + LABEL_END.spec_bytes()
}

/// The comparison of the register `src` with zero.
pub open spec fn compare_line(src: Seq<u8>) -> Seq<u8> {
    CMP.spec_bytes() + src + WITH_ZERO.spec_bytes()
}

impl A64Compiler {
    pub fn load_string(&mut self, name: &[u8], register: &[u8])
        ensures
            final(self)@ == old(self)@.emit(load_string_lines(name@, register@)),
    {
        macos::load_string(&mut self.writer, name, register);
    }

    /// Reads a variable into `x8` from the scope at depth `slt_scope`.
    pub fn load_variable(&mut self, variable: &Variable, slt_scope: u32)
        requires
            variable.scope <= slt_scope,
        ensures
            final(self)@ == old(self)@.emit(
                load_variable_lines((slt_scope - variable.scope) as nat, variable.offset),
            ),
    {
        let diff = slt_scope - variable.scope;
        self.mov(X9.as_bytes(), X29.as_bytes());
        let ghost start = self@;
        let mut i: u32 = 0;
        while i < diff
            invariant
                i <= diff,
                self@ == start.emit(climb(i as nat)),
            decreases diff - i,
        {
            self.ldr(X9.as_bytes(), X9.as_bytes(), None);
            i += 1;
            assert(self@.writer =~= start.emit(climb(i as nat)).writer);
        }
        assert(start.emit(climb(0)).writer =~= start.writer);
        self.ldr(X9.as_bytes(), X8.as_bytes(), Some(Index::offset(variable.offset)));
        assert(self@.writer =~= old(self)@.emit(
            load_variable_lines((slt_scope - variable.scope) as nat, variable.offset),
        ).writer);
    }

    pub fn str(&mut self, src: &[u8], dst: &[u8], index: Option<Index>)
        ensures
            final(self)@ == old(self)@.emit(line2(macos::STR, src@, address(dst@, index))),
    {
        macos::str(&mut self.writer, src, dst, index);
    }

    pub fn stp(&mut self, src1: &[u8], src2: &[u8], dst: &[u8], index: Option<Index>)
        ensures
            final(self)@ == old(self)@.emit(line3(macos::STP, src1@, src2@, address(dst@, index))),
    {
        macos::stp(&mut self.writer, src1, src2, dst, index);
    }

    pub fn ldr(&mut self, src: &[u8], dst: &[u8], index: Option<Index>)
        ensures
            final(self)@ == old(self)@.emit(line2(macos::LDR, dst@, address(src@, index))),
    {
        macos::ldr(&mut self.writer, src, dst, index);
    }

    pub fn ldp(&mut self, src1: &[u8], src2: &[u8], dst: &[u8], index: Option<Index>)
        ensures
            final(self)@ == old(self)@.emit(line3(macos::LDP, src1@, src2@, address(dst@, index))),
    {
        macos::ldp(&mut self.writer, src1, src2, dst, index);
    }

    pub fn mov(&mut self, dst: &[u8], value: &[u8])
        ensures
            final(self)@ == old(self)@.emit(line2(macos::MOV, dst@, value@)),
    {
        macos::mov(&mut self.writer, dst, value);
    }

    pub fn add(&mut self, dst: &[u8], src1: &[u8], src2: &[u8])
        ensures
            final(self)@ == old(self)@.emit(line3(macos::ADD, dst@, src1@, src2@)),
    {
        crate::assembler::macos::add(&mut self.writer, dst, src1, src2);
    }

    pub fn sub(&mut self, dst: &[u8], src1: &[u8], src2: &[u8])
        ensures
            final(self)@ == old(self)@.emit(line3(macos::SUB, dst@, src1@, src2@)),
    {
        crate::assembler::macos::sub(&mut self.writer, dst, src1, src2);
    }

    pub fn mul(&mut self, dst: &[u8], src1: &[u8], src2: &[u8])
        ensures
            final(self)@ == old(self)@.emit(line3(macos::MUL, dst@, src1@, src2@)),
    {
        crate::assembler::macos::mul(&mut self.writer, dst, src1, src2);
    }

    pub fn sdiv(&mut self, dst: &[u8], src1: &[u8], src2: &[u8])
        ensures
            final(self)@ == old(self)@.emit(line3(macos::SDIV, dst@, src1@, src2@)),
    {
        macos::sdiv(&mut self.writer, dst, src1, src2);
    }

    pub fn udiv(&mut self, dst: &[u8], src1: &[u8], src2: &[u8])
        ensures
            final(self)@ == old(self)@.emit(line3(macos::UDIV, dst@, src1@, src2@)),
    {
        macos::udiv(&mut self.writer, dst, src1, src2);
    }

    pub fn msub(&mut self, dst: &[u8], src1: &[u8], src2: &[u8], src3: &[u8])
        ensures
            final(self)@ == old(self)@.emit(line4(macos::MSUB, dst@, src1@, src2@, src3@)),
    {
        macos::msub(&mut self.writer, dst, src1, src2, src3);
    }

    pub fn comment(&mut self, comment: &[u8])
        ensures
            final(self)@ == old(self)@.emit(comment_line(comment@)),
    {
        push_str(&mut self.writer, COMMENT);
        push_bytes(&mut self.writer, comment);
        push_str(&mut self.writer, macos::END_OF_LINE);
        assert(self.writer@ =~= old(self).writer@ + comment_line(comment@));
    }

    pub fn skip_line(&mut self)
        ensures
            final(self)@ == old(self)@.emit(macos::END_OF_LINE.spec_bytes()),
    {
        push_str(&mut self.writer, macos::END_OF_LINE);
    }

    pub fn b(&mut self, label: &[u8], flag: &[u8])
        ensures
            final(self)@ == old(self)@.emit(branch_line(label@, flag@)),
    {
        push_str(&mut self.writer, BRANCH);
        push_bytes(&mut self.writer, flag);
        push_str(&mut self.writer, TO_LABEL);
        push_bytes(&mut self.writer, label);
        push_str(&mut self.writer, macos::END_OF_LINE);
        assert(self.writer@ =~= old(self).writer@ + branch_line(label@, flag@));
    }

    pub fn label(&mut self, label: &[u8])
        ensures
            final(self)@ == old(self)@.emit(label_line(label@)),
    {
        push_str(&mut self.writer, LABEL);
        push_bytes(&mut self.writer, label);
        push_str(&mut self.writer, LABEL_END);
        assert(self.writer@ =~= old(self).writer@ + label_line(label@));
    }

    pub fn cmp(&mut self, src: &[u8])
        ensures
            final(self)@ == old(self)@.emit(compare_line(src@)),
    {
        push_str(&mut self.writer, CMP);
        push_bytes(&mut self.writer, src);
        push_str(&mut self.writer, WITH_ZERO);
        assert(self.writer@ =~= old(self).writer@ + compare_line(src@));
    }
}

} // verus!
