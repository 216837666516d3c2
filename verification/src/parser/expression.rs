//! Declarations of variables and calls of functions.

use vstd::prelude::*;

use super::arg::{expr_view, lemma_arg};
use super::slt::{Builder, SltView, SymbolLookupTable, Value, ValueView, Variable, VariableView};
use super::{Parser, ParserView};
use crate::ir::{Expr, ExprView, InnerType, Lit, LitView, Stmt, StmtView, Type};
use crate::ir::{exprs_view, lemma_exprs_view};
use crate::lexer::token::TokenKind;
use crate::text::to_vec;

verus! {

/// The variable that a declaration with the value `lit` declares, not yet
/// placed in a table: its type is that of the literal.
pub open spec fn declared(id: Seq<u8>, lit: LitView) -> VariableView {
    match lit {
        LitView::Str(s) => VariableView {
            id,
            ty: Type::Val(InnerType::Str),
            value: ValueView::Str(s),
            offset: 0,
            scope: 0,
        },
        LitView::Int(i) => VariableView {
            id,
            ty: Type::Val(InnerType::Int),
            value: ValueView::Int(i),
            offset: 0,
            scope: 0,
        },
        LitView::Bool(b) => VariableView {
            id,
            ty: Type::Val(InnerType::Bool),
            value: ValueView::Bool(b),
            offset: 0,
            scope: 0,
        },
    }
}

impl ParserView {
    /// The operands up to the token of kind `close`, behind those of
    /// `acc`, and the state in front of that token.
    pub open spec fn operands(self, close: TokenKind, acc: Seq<ExprView>) -> (
        Option<Seq<ExprView>>,
        ParserView,
    )
        decreases self.tokens.len() - self.pos,
        via Self::operands_decreases
    {
        if self.check_next(close) {
            (Some(acc), self)
        } else {
            match self.arg().0 {
                Some(e) => self.arg().1.operands(close, acc.push(e)),
                None => (None, self.arg().1),
            }
        }
    }

    #[via_fn]
    proof fn operands_decreases(self, close: TokenKind, acc: Seq<ExprView>) {
        lemma_arg(self);
    }

    /// The declaration of a variable that starts at the next token, which
    /// is `Let`: the name, the token `Assign`, and a literal. The variable
    /// is declared in `slt`. An error is counted, and nothing declared,
    /// where a token is missing or of another kind, where the value is no
    /// literal, and where the scope has no slot left. Where the scope has a
    /// variable of this name already, an error is counted too, and the
    /// declaration stands.
    pub open spec fn let_statement(self, slt: SltView) -> (Option<StmtView>, ParserView, SltView) {
        let s1 = self.advance();
        if s1.pos >= s1.tokens.len() {
            (None, s1.failed(), slt)
        } else {
            let ident = s1.tokens[s1.pos as int];
            let s2 = s1.advance();
            if ident.kind != TokenKind::ID {
                (None, s2.failed(), slt)
            } else {
                let id = s1.text(ident);
                let (assign, s3) = s2.consume(TokenKind::Assign);
                if !assign {
                    (None, s3, slt)
                } else {
                    let (value, s4) = s3.arg();
                    match value {
                        None => (None, s4, slt),
                        Some(ExprView::Lit(lit)) => {
                            if slt.offset >= i32::MAX {
                                (None, s4.failed(), slt)
                            } else {
                                (
                                    Some(StmtView::Let { id, value: ExprView::Lit(lit) }),
                                    if slt.variable_entry(id) is Some {
                                        s4.failed()
                                    } else {
                                        s4
                                    },
                                    slt.add_variable(declared(id, lit), ident.span),
                                )
                            }
                        },
                        Some(_) => (None, s4.failed(), slt),
                    }
                }
            }
        }
    }

    /// The call that starts at the next token, which is `OFnCall`: the name
    /// of the function, the operands, and the token `CFnCall`.
    pub open spec fn call_statement(self) -> (Option<StmtView>, ParserView) {
        let s1 = self.advance();
        if s1.pos >= s1.tokens.len() {
            (None, s1.failed())
        } else {
            let ident = s1.tokens[s1.pos as int];
            let s2 = s1.advance();
            if ident.kind != TokenKind::ID {
                (None, s2.failed())
            } else {
                let (args, s3) = s2.operands(TokenKind::CFnCall, Seq::empty());
                match args {
                    None => (None, s3),
                    Some(args) => (
                        Some(StmtView::FnCall { id: s1.text(ident), args }),
                        s3.advance(),
                    ),
                }
            }
        }
    }

    /// The declaration or the call that the next tokens are. An error is
    /// counted where neither starts.
    pub open spec fn expression(self, slt: SltView) -> (Option<StmtView>, ParserView, SltView) {
        match self.peek() {
            Some(TokenKind::Let) => self.let_statement(slt),
            Some(TokenKind::OFnCall) => (self.call_statement().0, self.call_statement().1, slt),
            _ => (None, self.failed(), slt),
        }
    }
}

/// The view of a statement that may be missing.
pub open spec fn stmt_view(s: Option<Stmt>) -> Option<StmtView> {
    match s {
        Some(s) => Some(s@),
        None => None,
    }
}

/// The reading of operands never leads backwards and ends, where it
/// succeeds, in front of the closing token.
pub proof fn lemma_operands(s: ParserView, close: TokenKind, acc: Seq<ExprView>)
    ensures
        s.operands(close, acc).1.tokens == s.tokens,
        s.operands(close, acc).1.input == s.input,
        s.operands(close, acc).1.pos >= s.pos,
        s.operands(close, acc).0 is Some ==> s.operands(close, acc).1.check_next(close),
        s.wf() ==> s.operands(close, acc).1.wf(),
        s.operands(close, acc).1.has_main == s.has_main,
    decreases s.tokens.len() - s.pos,
{
    lemma_arg(s);
    if !s.check_next(close) {
        match s.arg().0 {
            Some(e) => {
                lemma_operands(s.arg().1, close, acc.push(e));
            },
            None => {},
        }
    }
}

/// A statement never leads backwards, and a statement that was read leads
/// forwards.
pub proof fn lemma_expression(s: ParserView, slt: SltView)
    ensures
        s.expression(slt).1.tokens == s.tokens,
        s.expression(slt).1.input == s.input,
        s.expression(slt).1.pos >= s.pos,
        s.expression(slt).0 is Some ==> s.expression(slt).1.pos > s.pos,
        s.expression(slt).0 is Some ==> s.expression(slt).1.pos <= s.tokens.len(),
        s.wf() ==> s.expression(slt).1.wf(),
        s.expression(slt).1.has_main == s.has_main,
        s.expression(slt).2.scope == slt.scope,
        s.expression(slt).2.children == slt.children,
        s.expression(slt).2.funcs == slt.funcs,
        s.expression(slt).2.region == slt.region,
{
    match s.peek() {
        Some(TokenKind::Let) => {
            let s1 = s.advance();
            if s1.pos < s1.tokens.len() {
                let s2 = s1.advance();
                super::lemma_consume(s2, TokenKind::Assign);
                let (assign, s3) = s2.consume(TokenKind::Assign);
                lemma_arg(s3);
            }
        },
        Some(TokenKind::OFnCall) => {
            let s1 = s.advance();
            if s1.pos < s1.tokens.len() {
                lemma_operands(s1.advance(), TokenKind::CFnCall, Seq::empty());
            }
        },
        _ => {},
    }
}

/// A declaration is visible to what follows it in its scope: once a
/// declaration was read, its name resolves in the scope to the variable
/// that it declared, in the slot behind the one handed out last.
pub proof fn lemma_declaration_is_visible(s: ParserView, slt: SltView)
    requires
        slt.wf(),
        s.let_statement(slt).0 is Some,
    ensures
        match s.let_statement(slt).0 {
            Some(StmtView::Let { id, value: ExprView::Lit(lit) }) => {
                &&& s.let_statement(slt).2.get_variable(id) == Some(slt.placed(declared(id, lit)))
                &&& slt.placed(declared(id, lit)).offset == slt.offset + 1
                &&& s.let_statement(slt).2.wf()
            },
            _ => false,
        },
{
    match s.let_statement(slt).0 {
        Some(StmtView::Let { id, value: ExprView::Lit(lit) }) => {
            super::slt::lemma_add_variable_wf(slt, declared(id, lit), s.advance().tokens[s.advance().pos as int].span);
        },
        _ => {},
    }
}

impl<'input> Parser<'input> {
    /// Reads operands up to the token of kind `close`.
    pub fn operands(&mut self, close: TokenKind) -> (r: Option<Vec<Expr>>)
        requires
            old(self).wf(),
        ensures
            final(self).input == old(self).input,
            final(self).wf(),
            final(self)@ == old(self)@.operands(close, Seq::empty()).1,
            match r {
                Some(args) => old(self)@.operands(close, Seq::empty()).0 == Some(exprs_view(args@)),
                None => old(self)@.operands(close, Seq::empty()).0 is None,
            },
    {
        let mut args: Vec<Expr> = Vec::new();
        loop
            invariant_except_break
                self@.operands(close, exprs_view(args@)) == old(self)@.operands(close, Seq::empty()),
            invariant
                self.wf(),
                self.input == old(self).input,
                self@.tokens == old(self)@.tokens,
            ensures
                self@ == old(self)@.operands(close, Seq::empty()).1,
                old(self)@.operands(close, Seq::empty()).0 == Some(exprs_view(args@)),
            decreases self@.tokens.len() - self@.pos,
        {
            if self.check_next(close) {
                break ;
            }
            proof {
                lemma_arg(self@);
            }
            match self.arg() {
                Some(e) => {
                    proof {
                        crate::ir::lemma_exprs_view(args@);
                        crate::ir::lemma_exprs_view(args@.push(e));
                        assert(exprs_view(args@.push(e)) =~= exprs_view(args@).push(e@));
                    }
                    args.push(e);
                },
                None => {
                    return None;
                },
            }
        }
        Some(args)
    }

    /// Reads a declaration or a call.
    pub fn expression(&mut self, _slt_builder: &mut Builder, slt: &mut SymbolLookupTable) -> (r:
        Option<Stmt>)
        requires
            old(self).wf(),
        ensures
            (stmt_view(r), final(self)@, final(slt)@) == old(self)@.expression(old(slt)@),
            final(self).input == old(self).input,
            final(self).wf(),
            old(slt).wf() ==> final(slt).wf(),
            *final(_slt_builder) == *old(_slt_builder),
    {
        let kind = match self.peek() {
            Some(kind) => kind,
            None => {
                self.fail();
                return None;
            },
        };

        match kind {
            TokenKind::Let => {
                let _ = self.next();
                let ident = match self.next() {
                    Some(ident) => ident,
                    None => {
                        self.fail();
                        return None;
                    },
                };

                if ident.kind != TokenKind::ID {
                    self.fail();
                    return None;
                }

                let id = to_vec(self.text(ident));
                match self.consume(TokenKind::Assign) {
                    Some(_) => {},
                    None => {
                        return None;
                    },
                }
                let value = match self.arg() {
                    Some(value) => value,
                    None => {
                        return None;
                    },
                };

                let var = match &value {
                    Expr::Lit(Lit::Str(s)) => Variable::with_value(
                        id.clone(),
                        Type::Val(InnerType::Str),
                        Value::Str(s.clone()),
                    ),
                    Expr::Lit(Lit::Int(i)) => Variable::with_value(
                        id.clone(),
                        Type::Val(InnerType::Int),
                        Value::Int(*i),
                    ),
                    Expr::Lit(Lit::Bool(b)) => Variable::with_value(
                        id.clone(),
                        Type::Val(InnerType::Bool),
                        Value::Bool(*b),
                    ),
                    _ => {
                        self.fail();
                        return None;
                    },
                };
                if slt.offset == i32::MAX {
                    self.fail();
                    return None;
                }
                let res = slt.add_variable(var, ident.span);

                if res.is_some() {
                    self.fail();
                }

                Some(Stmt::Let { id, value })
            },
            TokenKind::OFnCall => {
                let _ = self.next();
                let ident = match self.next() {
                    Some(ident) => ident,
                    None => {
                        self.fail();
                        return None;
                    },
                };

                if ident.kind != TokenKind::ID {
                    self.fail();
                    return None;
                }
                let id = to_vec(self.text(ident));

                let args = match self.operands(TokenKind::CFnCall) {
                    Some(args) => args,
                    None => {
                        return None;
                    },
                };
                proof {
                    lemma_operands(
                        old(self)@.advance().advance(),
                        TokenKind::CFnCall,
                        Seq::empty(),
                    );
                }

                let _ = self.next();
                Some(Stmt::FnCall { id, args })
            },
            _ => {
                self.fail();
                None
            },
        }
    }
}

} // verus!
