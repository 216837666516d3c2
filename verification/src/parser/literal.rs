//! Literals: strings, integers with an optional sign, and booleans.

use vstd::prelude::*;
use vstd::slice::*;

use super::{Parser, ParserView};
use crate::ir::{Lit, LitView};
use crate::lexer::token::TokenKind;
use crate::text::{decimal_value, parse_decimal, to_vec};

verus! {

/// The integer literal with the text `text`, negated where `negative`: the
/// text is a decimal number of at most 2^63 - 1.
pub open spec fn integer_literal(text: Seq<u8>, negative: bool) -> Option<LitView> {
    match decimal_value(text) {
        Some(v) => if v <= i64::MAX {
            Some(
                LitView::Int(
                    if negative {
                        (-(v as int)) as i64
                    } else {
                        v as i64
                    },
                ),
            )
        } else {
            None
        },
        None => None,
    }
}

impl ParserView {
    /// The literal that the next tokens are, and the state behind it. A
    /// string literal is the text between its quotes. An error is counted
    /// where no literal starts, where the sign `Not` is not followed by an
    /// integer, and where an integer is no decimal number that fits.
    pub open spec fn literal(self) -> (Option<LitView>, ParserView) {
        match self.peek() {
            None => (None, self.failed()),
            Some(TokenKind::String) => {
                let text = self.text(self.tokens[self.pos as int]);
                if text.len() >= 2 {
                    (Some(LitView::Str(text.subrange(1, text.len() - 1))), self.advance())
                } else {
                    (None, self.advance().failed())
                }
            },
            Some(TokenKind::Not) => {
                let signed = self.advance();
                if !signed.check_next(TokenKind::IntLit) {
                    (None, signed.failed())
                } else {
                    match integer_literal(signed.text(signed.tokens[signed.pos as int]), true) {
                        Some(lit) => (Some(lit), signed.advance()),
                        None => (None, signed.advance().failed()),
                    }
                }
            },
            Some(TokenKind::IntLit) => {
                match integer_literal(self.text(self.tokens[self.pos as int]), false) {
                    Some(lit) => (Some(lit), self.advance()),
                    None => (None, self.advance().failed()),
                }
            },
            Some(TokenKind::True) => (Some(LitView::Bool(true)), self.advance()),
            Some(TokenKind::False) => (Some(LitView::Bool(false)), self.advance()),
            Some(_) => (None, self.failed()),
        }
    }
}

/// The view of a literal that may be missing.
pub open spec fn lit_view(lit: Option<Lit>) -> Option<LitView> {
    match lit {
        Some(l) => Some(l@),
        None => None,
    }
}

/// A literal never leads backwards, and a literal that was read leads
/// forwards.
pub proof fn lemma_literal(s: ParserView)
    ensures
        s.literal().1.tokens == s.tokens,
        s.literal().1.input == s.input,
        s.literal().1.pos >= s.pos,
        s.literal().0 is Some ==> s.literal().1.pos > s.pos,
        s.literal().0 is Some ==> s.literal().1.pos <= s.tokens.len(),
        s.wf() ==> s.literal().1.wf(),
        s.literal().1.has_main == s.has_main,
{
}

impl<'input> Parser<'input> {
    /// Reads an integer literal at the place of the parser.
    fn integer(&mut self, negative: bool) -> (r: Option<Lit>)
        requires
            old(self).wf(),
            old(self)@.pos < old(self)@.tokens.len(),
        ensures
            final(self).input == old(self).input,
            final(self).wf(),
            lit_view(r) == integer_literal(
                old(self)@.text(old(self)@.tokens[old(self)@.pos as int]),
                negative,
            ),
            final(self)@ == if r is Some {
                old(self)@.advance()
            } else {
                old(self)@.advance().failed()
            },
    {
        let tok = self.tokens[self.pos];
        let _ = self.next();
        let text = self.text(tok);
        match parse_decimal(text) {
            Some(v) => {
                if v <= i64::MAX as u64 {
                    let value = v as i64;
                    Some(
                        Lit::Int(
                            if negative {
                                -value
                            } else {
                                value
                            },
                        ),
                    )
                } else {
                    self.fail();
                    None
                }
            },
            None => {
                self.fail();
                None
            },
        }
    }

    pub fn literal(&mut self) -> (r: Option<Lit>)
        requires
            old(self).wf(),
        ensures
            (lit_view(r), final(self)@) == old(self)@.literal(),
            final(self).input == old(self).input,
            final(self).wf(),
    {
        let kind = match self.peek() {
            Some(kind) => kind,
            None => {
                self.fail();
                return None;
            },
        };

        match kind {
            TokenKind::String => {
                let tok = self.tokens[self.pos];
                let _ = self.next();
                let text = self.text(tok);
                if text.len() < 2 {
                    self.fail();
                    return None;
                }
                let inner = slice_subrange(text, 1, text.len() - 1);
                Some(Lit::Str(to_vec(inner)))
            },
            TokenKind::Not => {
                let _ = self.next();

                if !self.check_next(TokenKind::IntLit) {
                    self.fail();
                    return None;
                }

                self.integer(true)
            },
            TokenKind::IntLit => self.integer(false),
            TokenKind::True => {
                let _ = self.next();
                Some(Lit::Bool(true))
            },
            TokenKind::False => {
                let _ = self.next();
                Some(Lit::Bool(false))
            },
            _ => {
                self.fail();
                None
            },
        }
    }
}

} // verus!
