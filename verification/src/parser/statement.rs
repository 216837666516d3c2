//! Statements: declarations, calls and assignments.

use vstd::prelude::*;

use super::arg::{expr_view, lemma_arg};
use super::expression::{lemma_expression, stmt_view};
use super::slt::{Builder, SltView, SymbolLookupTable};
use super::{Parser, ParserView};
use crate::ir::{Expr, ExprView, Op, Stmt, StmtView, Unop, UnopView};
use crate::lexer::token::TokenKind;
use crate::text::to_vec;

verus! {

impl ParserView {
    /// The step of an assignment that the next tokens are: an operator and
    /// its operand. An error is counted where no operator starts.
    pub open spec fn unary_op(self) -> (Option<UnopView>, ParserView) {
        match self.peek() {
            None => (None, self.failed()),
            Some(kind) => match Op::spec_try_from(kind) {
                Some(op) => match self.advance().arg().0 {
                    Some(value) => (Some(UnopView { value, op }), self.advance().arg().1),
                    None => (None, self.advance().arg().1),
                },
                None => (None, self.failed()),
            },
        }
    }

    /// The steps up to the token `CAssign`, behind those of `acc`, and the
    /// state in front of that token.
    pub open spec fn steps(self, acc: Seq<UnopView>) -> (Option<Seq<UnopView>>, ParserView)
        decreases self.tokens.len() - self.pos,
        via Self::steps_decreases
    {
        if self.check_next(TokenKind::CAssign) {
            (Some(acc), self)
        } else {
            match self.unary_op().0 {
                Some(u) => self.unary_op().1.steps(acc.push(u)),
                None => (None, self.unary_op().1),
            }
        }
    }

    #[via_fn]
    proof fn steps_decreases(self, acc: Seq<UnopView>) {
        lemma_unary_op(self);
    }

    /// The assignment that starts at the next token, which is `OAssign`:
    /// the name of the variable, the steps, and the token `CAssign`.
    pub open spec fn assign_statement(self) -> (Option<StmtView>, ParserView) {
        let s1 = self.advance();
        if s1.pos >= s1.tokens.len() {
            (None, s1.failed())
        } else {
            let ident = s1.tokens[s1.pos as int];
            let s2 = s1.advance();
            if ident.kind != TokenKind::ID {
                (None, s2.failed())
            } else {
                let (ops, s3) = s2.steps(Seq::empty());
                match ops {
                    None => (None, s3),
                    Some(ops) => (Some(StmtView::Assign { id: s1.text(ident), ops }), s3.advance()),
                }
            }
        }
    }

    /// The statement that the next tokens are: an assignment, a
    /// declaration or a call.
    pub open spec fn statement(self, slt: SltView) -> (Option<StmtView>, ParserView, SltView) {
        match self.peek() {
            Some(TokenKind::OAssign) => (self.assign_statement().0, self.assign_statement().1, slt),
            _ => self.expression(slt),
        }
    }
}

/// The view of a step that may be missing.
pub open spec fn unop_view(u: Option<Unop>) -> Option<UnopView> {
    match u {
        Some(u) => Some(u@),
        None => None,
    }
}

/// A step never leads backwards, and a step that was read leads forwards.
pub proof fn lemma_unary_op(s: ParserView)
    ensures
        s.unary_op().1.tokens == s.tokens,
        s.unary_op().1.input == s.input,
        s.unary_op().1.pos >= s.pos,
        s.unary_op().0 is Some ==> s.unary_op().1.pos > s.pos,
        s.unary_op().0 is Some ==> s.unary_op().1.pos <= s.tokens.len(),
        s.wf() ==> s.unary_op().1.wf(),
        s.unary_op().1.has_main == s.has_main,
{
    lemma_arg(s.advance());
}

/// The reading of steps never leads backwards and ends, where it succeeds,
/// in front of the closing token.
pub proof fn lemma_steps(s: ParserView, acc: Seq<UnopView>)
    ensures
        s.steps(acc).1.tokens == s.tokens,
        s.steps(acc).1.input == s.input,
        s.steps(acc).1.pos >= s.pos,
        s.steps(acc).0 is Some ==> s.steps(acc).1.check_next(TokenKind::CAssign),
        s.wf() ==> s.steps(acc).1.wf(),
        s.steps(acc).1.has_main == s.has_main,
    decreases s.tokens.len() - s.pos,
{
    lemma_unary_op(s);
    if !s.check_next(TokenKind::CAssign) {
        match s.unary_op().0 {
            Some(u) => {
                lemma_steps(s.unary_op().1, acc.push(u));
            },
            None => {},
        }
    }
}

/// A statement never leads backwards, and a statement that was read leads
/// forwards; it touches nothing of the table but the variables of the
/// scope.
pub proof fn lemma_statement(s: ParserView, slt: SltView)
    ensures
        s.statement(slt).1.tokens == s.tokens,
        s.statement(slt).1.input == s.input,
        s.statement(slt).1.pos >= s.pos,
        s.statement(slt).0 is Some ==> s.statement(slt).1.pos > s.pos,
        s.statement(slt).0 is Some ==> s.statement(slt).1.pos <= s.tokens.len(),
        s.wf() ==> s.statement(slt).1.wf(),
        s.statement(slt).1.has_main == s.has_main,
        s.statement(slt).2.scope == slt.scope,
        s.statement(slt).2.children == slt.children,
        s.statement(slt).2.funcs == slt.funcs,
        s.statement(slt).2.region == slt.region,
{
    lemma_expression(s, slt);
    match s.peek() {
        Some(TokenKind::OAssign) => {
            let s1 = s.advance();
            if s1.pos < s1.tokens.len() {
                lemma_steps(s1.advance(), Seq::empty());
            }
        },
        _ => {},
    }
}

impl<'input> Parser<'input> {
    /// Reads one step of an assignment.
    pub fn unary_op(&mut self) -> (r: Option<Unop>)
        requires
            old(self).wf(),
        ensures
            (unop_view(r), final(self)@) == old(self)@.unary_op(),
            final(self).input == old(self).input,
            final(self).wf(),
    {
        let kind = match self.peek() {
            Some(kind) => kind,
            None => {
                self.fail();
                return None;
            },
        };

        let op = match Op::try_from(kind) {
            Some(op) => op,
            None => {
                self.fail();
                return None;
            },
        };
        let _ = self.next();
        match self.arg() {
            Some(value) => Some(Unop { op, value }),
            None => None,
        }
    }

    /// Reads a statement.
    pub fn statement(&mut self, _slt_builder: &mut Builder, slt: &mut SymbolLookupTable) -> (r:
        Option<Stmt>)
        requires
            old(self).wf(),
        ensures
            (stmt_view(r), final(self)@, final(slt)@) == old(self)@.statement(old(slt)@),
            final(self).input == old(self).input,
            final(self).wf(),
            old(slt).wf() ==> final(slt).wf(),
            *final(_slt_builder) == *old(_slt_builder),
    {
        if !self.check_next(TokenKind::OAssign) {
            return self.expression(_slt_builder, slt);
        }
        let _ = self.next();
        let ident = match self.next() {
            Some(ident) => ident,
            None => {
                self.fail();
                return None;
            },
        };
        if ident.kind != TokenKind::ID {
            self.fail();
            return None;
        }
        let id = to_vec(self.text(ident));

        let ghost start = self@;
        let mut ops: Vec<Unop> = Vec::new();
        assert(ops@.map_values(|u: Unop| u@) =~= Seq::<UnopView>::empty());
        loop
            invariant_except_break
                self@.steps(ops@.map_values(|u: Unop| u@)) == start.steps(Seq::empty()),
            invariant
                start.steps(Seq::empty()).0 is None ==> old(self)@.statement(old(slt)@) == (
                    None::<StmtView>,
                    start.steps(Seq::empty()).1,
                    old(slt)@,
                ),
                self.wf(),
                self.input == old(self).input,
                self@.tokens == old(self)@.tokens,
                *slt == *old(slt),
                *_slt_builder == *old(_slt_builder),
            ensures
                self@ == start.steps(Seq::empty()).1,
                start.steps(Seq::empty()).0 == Some(ops@.map_values(|u: Unop| u@)),
            decreases self@.tokens.len() - self@.pos,
        {
            if self.check_next(TokenKind::CAssign) {
                break ;
            }
            proof {
                lemma_unary_op(self@);
            }
            match self.unary_op() {
                Some(u) => {
                    proof {
                        assert(ops@.push(u).map_values(|u: Unop| u@) =~= ops@.map_values(
                            |u: Unop| u@,
                        ).push(u@));
                    }
                    ops.push(u);
                },
                None => {
                    return None;
                },
            }
        }
        proof {
            lemma_steps(start, Seq::empty());
        }

        let _ = self.next();
        Some(Stmt::Assign { id, ops })
    }
}

} // verus!
