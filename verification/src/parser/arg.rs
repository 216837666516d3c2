//! Operands: a literal or the name of a variable.

use vstd::prelude::*;

use super::literal::{lemma_literal, lit_view};
use super::{Parser, ParserView};
use crate::ir::{Expr, ExprView, Lit};
use crate::lexer::token::TokenKind;
use crate::text::to_vec;

verus! {

/// Whether a literal may start with a token of kind `kind`.
pub open spec fn starts_literal(kind: TokenKind) -> bool {
    kind == TokenKind::String || kind == TokenKind::Not || kind == TokenKind::IntLit || kind
        == TokenKind::True || kind == TokenKind::False
}

impl ParserView {
    /// The operand that the next tokens are, and the state behind it: a
    /// literal, or an identifier. An error is counted where neither starts.
    pub open spec fn arg(self) -> (Option<ExprView>, ParserView) {
        match self.peek() {
            None => (None, self.failed()),
            Some(kind) => {
                if starts_literal(kind) {
                    match self.literal().0 {
                        Some(lit) => (Some(ExprView::Lit(lit)), self.literal().1),
                        None => (None, self.literal().1),
                    }
                } else if kind == TokenKind::ID {
                    (Some(ExprView::ID(self.consume(TokenKind::ID).1.id)), self.consume(TokenKind::ID).1)
                } else {
                    (None, self.failed())
                }
            },
        }
    }
}

/// The view of an expression that may be missing.
pub open spec fn expr_view(e: Option<Expr>) -> Option<ExprView> {
    match e {
        Some(e) => Some(e@),
        None => None,
    }
}

/// An operand never leads backwards, and an operand that was read leads
/// forwards.
pub proof fn lemma_arg(s: ParserView)
    ensures
        s.arg().1.tokens == s.tokens,
        s.arg().1.input == s.input,
        s.arg().1.pos >= s.pos,
        s.arg().0 is Some ==> s.arg().1.pos > s.pos,
        s.arg().0 is Some ==> s.arg().1.pos <= s.tokens.len(),
        s.wf() ==> s.arg().1.wf(),
        s.arg().1.has_main == s.has_main,
{
    lemma_literal(s);
    super::lemma_consume(s, TokenKind::ID);
}

impl<'input> Parser<'input> {
    pub fn arg(&mut self) -> (r: Option<Expr>)
        requires
            old(self).wf(),
        ensures
            (expr_view(r), final(self)@) == old(self)@.arg(),
            final(self).input == old(self).input,
            final(self).wf(),
    {
        proof {
            super::lemma_consume(self@, TokenKind::ID);
        }
        let kind = match self.peek() {
            Some(kind) => kind,
            None => {
                self.fail();
                return None;
            },
        };

        match kind {
            TokenKind::String | TokenKind::Not | TokenKind::IntLit | TokenKind::True | TokenKind::False => {
                match self.literal() {
                    Some(lit) => Some(Expr::Lit(lit)),
                    None => None,
                }
            },
            TokenKind::ID => {
                // Consumes the token and retrieve the id in the parser state
                match self.consume(TokenKind::ID) {
                    Some(_) => Some(Expr::ID(to_vec(self.id))),
                    None => None,
                }
            },
            _ => {
                self.fail();
                None
            },
        }
    }
}

} // verus!
