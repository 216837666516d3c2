//! The parser: from tokens to the program, and to the symbol lookup table
//! that is filled along the way.
//!
//! The parser counts the errors that it meets. An error ends the item that
//! is being read; a second declaration of a variable in one scope is
//! counted and the reading goes on.

use vstd::prelude::*;
use vstd::string::*;

use slt::{put_child, take_last_child};
use slt::{Builder, SltView, SymbolLookupTable, ValueView, Variable, VariableView};
use statement::lemma_statement;

use crate::ir::{Extrn, ExtrnView, Fn, FnView, InnerType, Program, ProgramView, StmtView, Type};
use crate::lexer::token::{Span, Token, TokenKind};
use crate::lexer::{lemma_tokens_in_bounds, tokens_from, tokens_in_bounds, Lexer, LexerState};
use crate::text::{bytes_eq, decimal_value, parse_decimal, to_vec};

pub mod arg;
pub mod ast;
pub mod expression;
pub mod item;
pub mod literal;
pub mod program;
pub mod slt;
pub mod statement;

verus! {

pub struct Parser<'input> {
    pub input: &'input [u8],
    pub tokens: Vec<Token>,
    /// the place of the next token
    pub pos: usize,
    /// the text of the identifier that was consumed last
    pub id: &'input [u8],
    /// the value of the integer literal that was consumed last
    pub integer: usize,
    /// where the token that was taken last stands
    pub span: Span,
    pub has_main: bool,
    pub err_cpt: usize,
}

pub struct ParserView {
    pub input: Seq<u8>,
    pub tokens: Seq<Token>,
    pub pos: nat,
    pub id: Seq<u8>,
    pub integer: usize,
    pub span: Span,
    pub has_main: bool,
    pub err_cpt: usize,
}

impl<'input> View for Parser<'input> {
    type V = ParserView;

    open spec fn view(&self) -> ParserView {
        ParserView {
            input: self.input@,
            tokens: self.tokens@,
            pos: self.pos as nat,
            id: self.id@,
            integer: self.integer,
            span: self.span,
            has_main: self.has_main,
            err_cpt: self.err_cpt,
        }
    }
}

/// The name of the function at which a program starts.
pub const MAIN: &'static str = "galaxy";

/// The type that a token of kind `kind` names.
pub open spec fn type_of(kind: TokenKind) -> Option<Type> {
    match kind {
        TokenKind::TyInt => Some(Type::Val(InnerType::Int)),
        TokenKind::TyString => Some(Type::Val(InnerType::Str)),
        TokenKind::TyBool => Some(Type::Val(InnerType::Bool)),
        _ => None,
    }
}

impl ParserView {
    /// The tokens cover bytes of the input, and the parser stands at one of
    /// them or behind the last.
    pub open spec fn wf(self) -> bool {
        &&& tokens_in_bounds(self.input, self.tokens)
        &&& self.pos <= self.tokens.len()
        &&& self.tokens.len() <= usize::MAX
    }

    /// The parser at the start of the tokens of `input`.
    pub open spec fn initial(input: Seq<u8>) -> ParserView {
        ParserView {
            input,
            tokens: tokens_from(input, LexerState::initial()),
            pos: 0,
            id: Seq::empty(),
            integer: 0,
            span: Span { start: 0, end: 0, line: 0 },
            has_main: false,
            err_cpt: 0,
        }
    }

    /// The source text of a token.
    pub open spec fn text(self, token: Token) -> Seq<u8> {
        self.input.subrange(token.span.start as int, token.span.end as int)
    }

    /// The state with one more error counted; the count stops at the
    /// greatest number that it can hold.
    pub open spec fn failed(self) -> ParserView {
        ParserView {
            err_cpt: if self.err_cpt < usize::MAX {
                (self.err_cpt + 1) as usize
            } else {
                self.err_cpt
            },
            ..self
        }
    }

    /// The kind of the next token.
    pub open spec fn peek(self) -> Option<TokenKind> {
        if self.pos < self.tokens.len() {
            Some(self.tokens[self.pos as int].kind)
        } else {
            None
        }
    }

    /// Whether the next token is of the kind `kind`.
    pub open spec fn check_next(self, kind: TokenKind) -> bool {
        self.peek() == Some(kind)
    }

    /// The state behind the next token, where there is one.
    pub open spec fn advance(self) -> ParserView {
        if self.pos < self.tokens.len() {
            ParserView { pos: self.pos + 1, span: self.tokens[self.pos as int].span, ..self }
        } else {
            self
        }
    }

    /// The state after `consume`, and whether it found what was expected.
    /// The next token is taken, whatever its kind. An identifier leaves its
    /// text in `id`, an integer literal its value in `integer`. An error is
    /// counted where there is no token, where the token is of another kind,
    /// and where an integer literal is no decimal number that fits.
    #[verifier::opaque]
    pub open spec fn consume(self, expected: TokenKind) -> (bool, ParserView) {
        if self.pos >= self.tokens.len() {
            (false, self.failed())
        } else {
            let token = self.tokens[self.pos as int];
            let next = self.advance();
            if token.kind != expected {
                (false, next.failed())
            } else if token.kind == TokenKind::ID {
                (true, ParserView { id: self.text(token), ..next })
            } else if token.kind == TokenKind::IntLit {
                match decimal_value(self.text(token)) {
                    Some(v) => if v <= usize::MAX {
                        (true, ParserView { integer: v as usize, ..next })
                    } else {
                        (false, next.failed())
                    },
                    None => (false, next.failed()),
                }
            } else {
                (true, next)
            }
        }
    }
}

/// What `consume` leaves: it takes at most one token, and exactly one where
/// it finds what was expected; it changes nothing but the place, the span,
/// the count of errors, and the text or the value that it read.
pub proof fn lemma_consume(s: ParserView, expected: TokenKind)
    ensures
        s.consume(expected).1.tokens == s.tokens,
        s.consume(expected).1.input == s.input,
        s.consume(expected).1.has_main == s.has_main,
        s.pos <= s.consume(expected).1.pos <= s.pos + 1,
        s.consume(expected).0 ==> s.pos < s.tokens.len() && s.consume(expected).1.pos == s.pos + 1
            && s.tokens[s.pos as int].kind == expected && s.consume(expected).1.err_cpt
            == s.err_cpt && s.consume(expected).1.span == s.tokens[s.pos as int].span,
        s.wf() ==> s.consume(expected).1.wf(),
        s.peek() == Some(expected) && expected != TokenKind::IntLit ==> s.consume(expected).0,
        s.peek() == Some(expected) && expected != TokenKind::IntLit && expected != TokenKind::ID
            ==> s.consume(expected).1 == s.advance(),
        s.consume(expected).0 && expected == TokenKind::ID ==> s.consume(expected).1.id == s.text(
            s.tokens[s.pos as int],
        ),
{
    reveal(ParserView::consume);
}

impl<'input> Parser<'input> {
    /// The state of the parser is in order.
    pub open spec fn wf(&self) -> bool {
        self@.wf()
    }

    /// A parser at the start of the tokens of `input`.
    pub fn new(input: &'input str) -> (p: Parser<'input>)
        ensures
            p@ == ParserView::initial(input.spec_bytes()),
            p.wf(),
    {
        let mut lexer = Lexer::new(input);
        proof {
            lemma_tokens_in_bounds(lexer.input@, lexer@);
        }
        let input = lexer.input;
        let tokens = lexer.tokenize();
        let empty = crate::lexer::token::Token::new(
            TokenKind::EOF,
            Span { start: 0, end: 0, line: 0 },
        ).text(input);
        assert(empty@ =~= Seq::<u8>::empty());
        assert(tokens@.len() == tokens.len());
        Parser {
            input,
            tokens,
            pos: 0,
            id: empty,
            integer: 0,
            span: Span { start: 0, end: 0, line: 0 },
            has_main: false,
            err_cpt: 0,
        }
    }

    /// Get the source text of a token
    pub fn text(&self, token: Token) -> (t: &'input [u8])
        requires
            token.span.start <= token.span.end <= self.input@.len(),
        ensures
            t@ == self@.text(token),
    {
        token.text(self.input)
    }

    /// Counts one more error.
    pub fn fail(&mut self)
        ensures
            final(self)@ == old(self)@.failed(),
            final(self).input == old(self).input,
    {
        if self.err_cpt < usize::MAX {
            self.err_cpt += 1;
        }
    }

    /// The kind of the next token.
    pub fn peek(&self) -> (r: Option<TokenKind>)
        ensures
            r == self@.peek(),
    {
        if self.pos < self.tokens.len() {
            Some(self.tokens[self.pos].kind)
        } else {
            None
        }
    }

    /// Check if the next token is of a given kind
    pub fn check_next(&self, kind: TokenKind) -> (r: bool)
        ensures
            r == self@.check_next(kind),
    {
        match self.peek() {
            Some(t_kind) => t_kind == kind,
            None => false,
        }
    }

    /// Takes the next token.
    pub fn next(&mut self) -> (r: Option<Token>)
        requires
            old(self).wf(),
        ensures
            final(self)@ == old(self)@.advance(),
            final(self).input == old(self).input,
            final(self).wf(),
            r == if old(self)@.pos < old(self)@.tokens.len() {
                Some(old(self)@.tokens[old(self)@.pos as int])
            } else {
                None
            },
    {
        if self.pos < self.tokens.len() {
            let tok = self.tokens[self.pos];
            self.pos += 1;
            self.span = tok.span;
            Some(tok)
        } else {
            None
        }
    }

    /// Move forward one token in the input and check if the kind of the
    /// token is the same as `expected`.
    pub fn consume(&mut self, expected: TokenKind) -> (r: Option<()>)
        requires
            old(self).wf(),
        ensures
            (r is Some, final(self)@) == old(self)@.consume(expected),
            final(self).input == old(self).input,
            final(self).wf(),
            final(self)@.tokens == old(self)@.tokens,
            final(self)@.has_main == old(self)@.has_main,
            old(self)@.pos <= final(self)@.pos <= old(self)@.pos + 1,
            r is Some ==> final(self)@.pos == old(self)@.pos + 1,
            old(self)@.peek() == Some(expected) && expected != TokenKind::IntLit ==> r is Some,
            old(self)@.peek() == Some(expected) && expected != TokenKind::IntLit && expected
                != TokenKind::ID ==> final(self)@ == old(self)@.advance(),
    {
        reveal(ParserView::consume);
        let token = match self.next() {
            Some(token) => token,
            None => {
                self.fail();
                return None;
            },
        };

        if token.kind != expected {
            self.fail();
            return None;
        }

        match token.kind {
            TokenKind::ID => {
                self.id = self.text(token);
            },
            TokenKind::IntLit => {
                match parse_decimal(self.text(token)) {
                    Some(v) => {
                        if v > usize::MAX as u64 {
                            self.fail();
                            return None;
                        }
                        self.integer = v as usize;
                    },
                    None => {
                        self.fail();
                        return None;
                    },
                }
            },
            _ => {},
        }

        Some(())
    }
}


// ---------------------------------------------------------------------------
// Functions and external functions.
// ---------------------------------------------------------------------------
/// The signature under which a function is declared: it returns nothing
/// and takes the types of its parameters.
pub open spec fn fn_signature(func: FnView) -> slt::FnView {
    slt::FnView {
        id: func.id,
        ty: Type::Void,
        args: func.args.map_values(|a: (Seq<u8>, Type)| a.1),
        variadic: func.variadic,
    }
}

/// The signature under which an external function is declared.
pub open spec fn extrn_signature(extrn: ExtrnView) -> slt::FnView {
    slt::FnView { id: extrn.id, ty: Type::Void, args: extrn.args, variadic: extrn.variadic }
}

/// The parameter `id` of type `ty`, not yet placed in a table.
pub open spec fn parameter(id: Seq<u8>, ty: Type) -> VariableView {
    VariableView { id, ty, value: ValueView::Unset, offset: 0, scope: 0 }
}

impl ParserView {
    /// The types up to the token `CExtrnFn`, behind those of `acc`, and the
    /// state in front of that token. An error is counted where a token
    /// names no type.
    pub open spec fn types(self, acc: Seq<Type>) -> (Option<Seq<Type>>, ParserView)
        decreases self.tokens.len() - self.pos,
    {
        if self.check_next(TokenKind::CExtrnFn) {
            (Some(acc), self)
        } else {
            match self.peek() {
                None => (None, self),
                Some(kind) => match type_of(kind) {
                    Some(ty) => self.advance().types(acc.push(ty)),
                    None => (None, self.failed()),
                },
            }
        }
    }

    /// The external function that starts at the next token: `OExtrnFn`,
    /// the name, the mark `Variadic` with the number of fixed parameters
    /// where the function is variadic, the types of the parameters, and
    /// `CExtrnFn`. The function is declared in `slt`. Where the number of
    /// types is not the number of fixed parameters, an error is counted and
    /// the declaration stands.
    pub open spec fn parse_extrn_function(self, slt: SltView) -> (
        Option<ExtrnView>,
        ParserView,
        SltView,
    ) {
        let (open, s1) = self.consume(TokenKind::OExtrnFn);
        if !open {
            (None, s1, slt)
        } else {
            let (named, s2) = s1.consume(TokenKind::ID);
            if !named {
                (None, s2, slt)
            } else {
                let id = s2.id;
                let (marked, s3) = if s2.check_next(TokenKind::Variadic) {
                    s2.advance().consume(TokenKind::IntLit)
                } else {
                    (true, s2)
                };
                if !marked {
                    (None, s3, slt)
                } else {
                    let variadic = if s2.check_next(TokenKind::Variadic) {
                        Some(s3.integer)
                    } else {
                        None
                    };
                    let (types, s4) = s3.types(Seq::empty());
                    match types {
                        None => (None, s4, slt),
                        Some(args) => {
                            let s5 = s4.advance();
                            let extrn = ExtrnView { id, variadic, args };
                            (
                                Some(extrn),
                                if variadic is Some && args.len() != variadic->0 {
                                    s5.failed()
                                } else {
                                    s5
                                },
                                slt.add_function(extrn_signature(extrn), s5.span),
                            )
                        },
                    }
                }
            }
        }
    }

    /// The parameters up to the token `CFnParams`, behind those of `acc`,
    /// each a type and a name, and the state in front of that token. Each
    /// parameter is declared in `scope`. An error is counted where a token
    /// names no type and where the scope has no slot left.
    pub open spec fn params(self, scope: SltView, acc: Seq<(Seq<u8>, Type)>) -> (
        Option<Seq<(Seq<u8>, Type)>>,
        ParserView,
        SltView,
    )
        decreases self.tokens.len() - self.pos,
        via Self::params_decreases
    {
        if self.check_next(TokenKind::CFnParams) {
            (Some(acc), self, scope)
        } else {
            match self.peek() {
                None => (None, self.failed(), scope),
                Some(kind) => match type_of(kind) {
                    None => (None, self.failed(), scope),
                    Some(ty) => {
                        let (named, s2) = self.advance().consume(TokenKind::ID);
                        if !named {
                            (None, s2, scope)
                        } else if scope.offset >= i32::MAX {
                            (None, s2.failed(), scope)
                        } else {
                            s2.params(
                                scope.add_variable(parameter(s2.id, ty), s2.span),
                                acc.push((s2.id, ty)),
                            )
                        }
                    },
                },
            }
        }
    }

    #[via_fn]
    proof fn params_decreases(self, scope: SltView, acc: Seq<(Seq<u8>, Type)>) {
        lemma_consume(self.advance(), TokenKind::ID);
    }

    /// The statements up to the token `CFnDecl`, behind those of `acc`,
    /// and the state in front of that token. The statements declare their
    /// variables in `scope`.
    pub open spec fn stmts(self, scope: SltView, acc: Seq<StmtView>) -> (
        Option<Seq<StmtView>>,
        ParserView,
        SltView,
    )
        decreases self.tokens.len() - self.pos,
        via Self::stmts_decreases
    {
        if self.check_next(TokenKind::CFnDecl) {
            (Some(acc), self, scope)
        } else {
            match self.statement(scope).0 {
                Some(stmt) => self.statement(scope).1.stmts(
                    self.statement(scope).2,
                    acc.push(stmt),
                ),
                None => (None, self.statement(scope).1, self.statement(scope).2),
            }
        }
    }

    #[via_fn]
    proof fn stmts_decreases(self, scope: SltView, acc: Seq<StmtView>) {
        lemma_statement(self, scope);
    }

    /// The function that starts at the next token, read into its own
    /// scope `scope`: `OFnDecl1`, the name, `OFnDecl2`, the parameters
    /// between `OFnParams` and `CFnParams` where the function has any, the
    /// statements, and `CFnDecl`. A function named `galaxy` is the start
    /// of the program. The mark `Variadic` is an error: only external
    /// functions are variadic.
    pub open spec fn function_body(self, scope: SltView) -> (Option<FnView>, ParserView, SltView) {
        let (open, s1) = self.consume(TokenKind::OFnDecl1);
        if !open {
            (None, s1, scope)
        } else {
            let (named, s2) = s1.consume(TokenKind::ID);
            if !named {
                (None, s2, scope)
            } else {
                let id = s2.id;
                let s3 = ParserView { has_main: s2.has_main || id == MAIN.spec_bytes(), ..s2 };
                let (second, s4) = s3.consume(TokenKind::OFnDecl2);
                if !second {
                    (None, s4, scope)
                } else {
                    let (args, s5, scope1) = if s4.check_next(TokenKind::OFnParams) {
                        s4.advance().params(scope, Seq::empty())
                    } else {
                        (Some(Seq::empty()), s4, scope)
                    };
                    match args {
                        None => (None, s5, scope1),
                        Some(args) => {
                            let s6 = if s4.check_next(TokenKind::OFnParams) {
                                s5.advance()
                            } else {
                                s5
                            };
                            if s6.check_next(TokenKind::Variadic) {
                                (None, s6.failed(), scope1)
                            } else {
                                let (body, s7, scope2) = s6.stmts(scope1, Seq::empty());
                                match body {
                                    None => (None, s7, scope2),
                                    Some(stmts) => (
                                        Some(FnView { id, stmts, variadic: None, args }),
                                        s7.advance(),
                                        scope2,
                                    ),
                                }
                            }
                        },
                    }
                }
            }
        }
    }

    /// The function that starts at the next token. Its scope is nested in
    /// `slt` behind the others, under the number `regions`, before the
    /// function is read; the function itself is declared in `slt` once it
    /// was read to its end. An error is counted, and nothing done, where no
    /// number is left for the scope or `slt` is as deep as a scope can be.
    pub open spec fn parse_function(self, regions: u32, slt: SltView) -> (
        Option<FnView>,
        ParserView,
        u32,
        SltView,
    ) {
        if regions >= u32::MAX || slt.scope >= u32::MAX {
            (None, self.failed(), regions, slt)
        } else {
            let (func, s1, scope) = self.function_body(
                SltView::empty(regions, (slt.scope + 1) as u32),
            );
            let nested = SltView { children: slt.children.push(scope), ..slt };
            (
                func,
                s1,
                (regions + 1) as u32,
                match func {
                    Some(f) => nested.add_function(fn_signature(f), s1.span),
                    None => nested,
                },
            )
        }
    }
}

/// The reading of types never leads backwards and ends, where it succeeds,
/// in front of the closing token.
pub proof fn lemma_types(s: ParserView, acc: Seq<Type>)
    ensures
        s.types(acc).1.tokens == s.tokens,
        s.types(acc).1.input == s.input,
        s.types(acc).1.pos >= s.pos,
        s.types(acc).0 is Some ==> s.types(acc).1.check_next(TokenKind::CExtrnFn),
        s.wf() ==> s.types(acc).1.wf(),
        s.types(acc).1.has_main == s.has_main,
    decreases s.tokens.len() - s.pos,
{
    if !s.check_next(TokenKind::CExtrnFn) {
        match s.peek() {
            None => {},
            Some(kind) => match type_of(kind) {
                Some(ty) => {
                    lemma_types(s.advance(), acc.push(ty));
                },
                None => {},
            },
        }
    }
}

/// An external function never leads backwards, and one that was read leads
/// forwards.
pub proof fn lemma_extrn(s: ParserView, slt: SltView)
    ensures
        s.parse_extrn_function(slt).1.tokens == s.tokens,
        s.parse_extrn_function(slt).1.input == s.input,
        s.parse_extrn_function(slt).1.pos >= s.pos,
        s.parse_extrn_function(slt).0 is Some ==> s.parse_extrn_function(slt).1.pos > s.pos,
        s.parse_extrn_function(slt).0 is Some ==> s.parse_extrn_function(slt).1.pos
            <= s.tokens.len(),
        s.wf() ==> s.parse_extrn_function(slt).1.wf(),
{
    lemma_consume(s, TokenKind::OExtrnFn);
    let (open, s1) = s.consume(TokenKind::OExtrnFn);
    if open {
        lemma_consume(s1, TokenKind::ID);
        let (named, s2) = s1.consume(TokenKind::ID);
        if named {
            lemma_consume(s2.advance(), TokenKind::IntLit);
            let (marked, s3) = if s2.check_next(TokenKind::Variadic) {
                s2.advance().consume(TokenKind::IntLit)
            } else {
                (true, s2)
            };
            if marked {
                lemma_types(s3, Seq::empty());
            }
        }
    }
}

/// The reading of parameters never leads backwards and ends, where it
/// succeeds, in front of the closing token.
pub proof fn lemma_params(s: ParserView, scope: SltView, acc: Seq<(Seq<u8>, Type)>)
    ensures
        s.params(scope, acc).1.tokens == s.tokens,
        s.params(scope, acc).1.input == s.input,
        s.params(scope, acc).1.pos >= s.pos,
        s.params(scope, acc).0 is Some ==> s.params(scope, acc).1.check_next(TokenKind::CFnParams),
        s.wf() ==> s.params(scope, acc).1.wf(),
        s.params(scope, acc).1.has_main == s.has_main,
    decreases s.tokens.len() - s.pos,
{
    if !s.check_next(TokenKind::CFnParams) {
        match s.peek() {
            None => {},
            Some(kind) => match type_of(kind) {
                None => {},
                Some(ty) => {
                    lemma_consume(s.advance(), TokenKind::ID);
                    let (named, s2) = s.advance().consume(TokenKind::ID);
                    if named && scope.offset < i32::MAX {
                        lemma_params(
                            s2,
                            scope.add_variable(parameter(s2.id, ty), s2.span),
                            acc.push((s2.id, ty)),
                        );
                    }
                },
            },
        }
    }
}

/// The reading of statements never leads backwards and ends, where it
/// succeeds, in front of the closing token.
pub proof fn lemma_stmts(s: ParserView, scope: SltView, acc: Seq<StmtView>)
    ensures
        s.stmts(scope, acc).1.tokens == s.tokens,
        s.stmts(scope, acc).1.input == s.input,
        s.stmts(scope, acc).1.pos >= s.pos,
        s.stmts(scope, acc).0 is Some ==> s.stmts(scope, acc).1.check_next(TokenKind::CFnDecl),
        s.wf() ==> s.stmts(scope, acc).1.wf(),
    decreases s.tokens.len() - s.pos,
{
    lemma_statement(s, scope);
    if !s.check_next(TokenKind::CFnDecl) {
        match s.statement(scope).0 {
            Some(stmt) => {
                lemma_stmts(s.statement(scope).1, s.statement(scope).2, acc.push(stmt));
            },
            None => {},
        }
    }
}

/// A function never leads backwards, and one that was read leads forwards.
pub proof fn lemma_function_body(s: ParserView, scope: SltView)
    ensures
        s.function_body(scope).1.tokens == s.tokens,
        s.function_body(scope).1.input == s.input,
        s.function_body(scope).1.pos >= s.pos,
        s.function_body(scope).0 is Some ==> s.function_body(scope).1.pos > s.pos,
        s.function_body(scope).0 is Some ==> s.function_body(scope).1.pos <= s.tokens.len(),
        s.wf() ==> s.function_body(scope).1.wf(),
{
    lemma_consume(s, TokenKind::OFnDecl1);
    let (open, s1) = s.consume(TokenKind::OFnDecl1);
    if open {
        lemma_consume(s1, TokenKind::ID);
        let (named, s2) = s1.consume(TokenKind::ID);
        if named {
            let s3 = ParserView { has_main: s2.has_main || s2.id == MAIN.spec_bytes(), ..s2 };
            lemma_consume(s3, TokenKind::OFnDecl2);
            let (second, s4) = s3.consume(TokenKind::OFnDecl2);
            if second {
                if s4.check_next(TokenKind::OFnParams) {
                    lemma_params(s4.advance(), scope, Seq::empty());
                }
                let (args, s5, scope1) = if s4.check_next(TokenKind::OFnParams) {
                    s4.advance().params(scope, Seq::empty())
                } else {
                    (Some(Seq::empty()), s4, scope)
                };
                if args is Some {
                    let s6 = if s4.check_next(TokenKind::OFnParams) {
                        s5.advance()
                    } else {
                        s5
                    };
                    lemma_stmts(s6, scope1, Seq::empty());
                }
            }
        }
    }
}


/// The view of an external function that may be missing.
pub open spec fn extrn_view(e: Option<Extrn>) -> Option<ExtrnView> {
    match e {
        Some(e) => Some(e@),
        None => None,
    }
}

/// The view of a function that may be missing.
pub open spec fn fn_view(f: Option<Fn>) -> Option<FnView> {
    match f {
        Some(f) => Some(f@),
        None => None,
    }
}

impl ParserView {
    /// The functions and external functions up to the end of the tokens,
    /// added to `program` and declared in `slt`, and whether the end was
    /// reached. The reading stops at the first item that cannot be read; an
    /// error is counted where a token starts no item.
    pub open spec fn parse(self, program: ProgramView, regions: u32, slt: SltView) -> (
        bool,
        ParserView,
        ProgramView,
        u32,
        SltView,
    )
        decreases self.tokens.len() - self.pos,
        via Self::parse_decreases
    {
        if self.check_next(TokenKind::EOF) {
            (true, self.advance(), program, regions, slt)
        } else {
            match self.peek() {
                Some(TokenKind::OFnDecl1) => {
                    let r = self.parse_function(regions, slt);
                    match r.0 {
                        Some(f) => r.1.parse(
                            ProgramView { func: program.func.push(f), ..program },
                            r.2,
                            r.3,
                        ),
                        None => (false, r.1, program, r.2, r.3),
                    }
                },
                Some(TokenKind::OExtrnFn) => {
                    let r = self.parse_extrn_function(slt);
                    match r.0 {
                        Some(e) => r.1.parse(
                            ProgramView { extrn: program.extrn.push(e), ..program },
                            regions,
                            r.2,
                        ),
                        None => (false, r.1, program, regions, r.2),
                    }
                },
                _ => (false, self.failed(), program, regions, slt),
            }
        }
    }

    #[via_fn]
    proof fn parse_decreases(self, program: ProgramView, regions: u32, slt: SltView) {
        lemma_extrn(self, slt);
        if regions < u32::MAX && slt.scope < u32::MAX {
            lemma_function_body(self, SltView::empty(regions, (slt.scope + 1) as u32));
        }
    }
}

impl<'input> Parser<'input> {
    /// Reads an external function and declares it in `slt`.
    pub fn parse_extrn_function(&mut self, slt: &mut SymbolLookupTable) -> (r: Option<Extrn>)
        requires
            old(self).wf(),
        ensures
            (extrn_view(r), final(self)@, final(slt)@) == old(self)@.parse_extrn_function(
                old(slt)@,
            ),
            final(self).input == old(self).input,
            final(self).wf(),
            old(slt).wf() ==> final(slt).wf(),
    {
        match self.consume(TokenKind::OExtrnFn) {
            Some(_) => {},
            None => {
                return None;
            },
        }

        match self.consume(TokenKind::ID) {
            Some(_) => {},
            None => {
                return None;
            },
        }
        let id = to_vec(self.id);

        let variadic = if self.check_next(TokenKind::Variadic) {
            let _ = self.next();
            match self.consume(TokenKind::IntLit) {
                Some(_) => {},
                None => {
                    return None;
                },
            }

            Some(self.integer)
        } else {
            None
        };

        let ghost start = self@;
        let mut args: Vec<Type> = Vec::new();
        loop
            invariant_except_break
                self@.types(args@) == start.types(Seq::empty()),
            invariant
                start.types(Seq::empty()).0 is None ==> old(self)@.parse_extrn_function(old(slt)@)
                    == (None::<ExtrnView>, start.types(Seq::empty()).1, old(slt)@),
                self.wf(),
                self.input == old(self).input,
                self@.tokens == old(self)@.tokens,
                *slt == *old(slt),
            ensures
                self@ == start.types(Seq::empty()).1,
                start.types(Seq::empty()).0 == Some(args@),
            decreases self@.tokens.len() - self@.pos,
        {
            if self.check_next(TokenKind::CExtrnFn) {
                break ;
            }
            let kind = match self.peek() {
                Some(kind) => kind,
                None => {
                    return None;
                },
            };

            let ty = match kind {
                TokenKind::TyInt => Type::Val(InnerType::Int),
                TokenKind::TyString => Type::Val(InnerType::Str),
                TokenKind::TyBool => Type::Val(InnerType::Bool),
                _ => {
                    self.fail();
                    return None;
                },
            };
            let _ = self.next();
            args.push(ty);
        }
        proof {
            lemma_types(start, Seq::empty());
        }

        let _ = self.next();

        match variadic {
            Some(variadic) => {
                if args.len() != variadic {
                    self.fail();
                }
            },
            None => {},
        }

        let extrn = Extrn { id, variadic, args };
        slt.add_function(slt::Fn::from_extrn(&extrn), self.span);

        Some(extrn)
    }

    /// Reads a function into its own scope.
    pub fn function_body(&mut self, slt_builder: &mut Builder, scope: &mut SymbolLookupTable) -> (r:
        Option<Fn>)
        requires
            old(self).wf(),
        ensures
            (fn_view(r), final(self)@, final(scope)@) == old(self)@.function_body(old(scope)@),
            final(self).input == old(self).input,
            final(self).wf(),
            old(scope).wf() ==> final(scope).wf(),
            final(scope).scope == old(scope).scope,
            *final(slt_builder) == *old(slt_builder),
    {
        match self.consume(TokenKind::OFnDecl1) {
            Some(_) => {},
            None => {
                return None;
            },
        }
        match self.consume(TokenKind::ID) {
            Some(_) => {},
            None => {
                return None;
            },
        }

        if bytes_eq(self.id, MAIN.as_bytes()) {
            self.has_main = true;
        }

        let id = to_vec(self.id);

        match self.consume(TokenKind::OFnDecl2) {
            Some(_) => {},
            None => {
                return None;
            },
        }

        // Collect function parameters
        let ghost before_params = self@;
        let mut args: Vec<(Vec<u8>, Type)> = Vec::new();
        if self.check_next(TokenKind::OFnParams) {
            let _ = self.next();
            let ghost start = self@;
            assert(args@.map_values(|a: (Vec<u8>, Type)| (a.0@, a.1)) =~= Seq::<
                (Seq<u8>, Type),
            >::empty());

            loop
                invariant_except_break
                    self@.params(scope@, args@.map_values(|a: (Vec<u8>, Type)| (a.0@, a.1)))
                        == start.params(old(scope)@, Seq::empty()),
                invariant
                    start.params(old(scope)@, Seq::empty()).0 is None ==> old(
                        self,
                    )@.function_body(old(scope)@) == (
                        None::<FnView>,
                        start.params(old(scope)@, Seq::empty()).1,
                        start.params(old(scope)@, Seq::empty()).2,
                    ),
                    self.wf(),
                    self.input == old(self).input,
                    self@.tokens == old(self)@.tokens,
                    old(scope).wf() ==> scope.wf(),
                    scope.scope == old(scope).scope,
                    *slt_builder == *old(slt_builder),
                ensures
                    self@ == start.params(old(scope)@, Seq::empty()).1,
                    scope@ == start.params(old(scope)@, Seq::empty()).2,
                    start.params(old(scope)@, Seq::empty()).0 == Some(
                        args@.map_values(|a: (Vec<u8>, Type)| (a.0@, a.1)),
                    ),
                decreases self@.tokens.len() - self@.pos,
            {
                if self.check_next(TokenKind::CFnParams) {
                    break ;
                }
                let kind = match self.peek() {
                    Some(kind) => kind,
                    None => {
                        self.fail();
                        return None;
                    },
                };

                let ty = match kind {
                    TokenKind::TyInt => Type::Val(InnerType::Int),
                    TokenKind::TyString => Type::Val(InnerType::Str),
                    TokenKind::TyBool => Type::Val(InnerType::Bool),
                    _ => {
                        self.fail();
                        return None;
                    },
                };
                let _ = self.next();

                match self.consume(TokenKind::ID) {
                    Some(_) => {},
                    None => {
                        return None;
                    },
                }

                let id = to_vec(self.id);

                if scope.offset == i32::MAX {
                    self.fail();
                    return None;
                }
                let name = id.clone();
                proof {
                    assert(args@.push((name, ty)).map_values(|a: (Vec<u8>, Type)| (a.0@, a.1))
                        =~= args@.map_values(|a: (Vec<u8>, Type)| (a.0@, a.1)).push((id@, ty)));
                }
                args.push((name, ty));
                scope.add_variable(Variable::new(id, ty), self.span);
            }
            proof {
                lemma_params(start, old(scope)@, Seq::empty());
            }

            let _ = self.next();
        } else {
            assert(args@.map_values(|a: (Vec<u8>, Type)| (a.0@, a.1)) =~= Seq::<
                (Seq<u8>, Type),
            >::empty());
        }

        // Only external functions are variadic
        if self.check_next(TokenKind::Variadic) {
            self.fail();
            return None;
        }
        let variadic: Option<usize> = None;

        let ghost start = self@;
        let ghost scope1 = scope@;
        let mut body: Vec<crate::ir::Stmt> = Vec::new();
        assert(body@.map_values(|s: crate::ir::Stmt| s@) =~= Seq::<StmtView>::empty());
        loop
            invariant_except_break
                self@.stmts(scope@, body@.map_values(|s: crate::ir::Stmt| s@)) == start.stmts(
                    scope1,
                    Seq::empty(),
                ),
            invariant
                start.stmts(scope1, Seq::empty()).0 is None ==> old(self)@.function_body(
                    old(scope)@,
                ) == (
                    None::<FnView>,
                    start.stmts(scope1, Seq::empty()).1,
                    start.stmts(scope1, Seq::empty()).2,
                ),
                self.wf(),
                self.input == old(self).input,
                self@.tokens == old(self)@.tokens,
                old(scope).wf() ==> scope.wf(),
                scope.scope == old(scope).scope,
                *slt_builder == *old(slt_builder),
            ensures
                self@ == start.stmts(scope1, Seq::empty()).1,
                scope@ == start.stmts(scope1, Seq::empty()).2,
                start.stmts(scope1, Seq::empty()).0 == Some(
                    body@.map_values(|s: crate::ir::Stmt| s@),
                ),
            decreases self@.tokens.len() - self@.pos,
        {
            if self.check_next(TokenKind::CFnDecl) {
                break ;
            }
            proof {
                lemma_statement(self@, scope@);
            }
            match self.statement(slt_builder, scope) {
                Some(stmt) => {
                    proof {
                        assert(body@.push(stmt).map_values(|s: crate::ir::Stmt| s@)
                            =~= body@.map_values(|s: crate::ir::Stmt| s@).push(stmt@));
                    }
                    body.push(stmt);
                },
                None => {
                    return None;
                },
            }
        }
        proof {
            lemma_stmts(start, scope1, Seq::empty());
        }

        let _ = self.next();

        Some(Fn { id, stmts: body, variadic, args })
    }

    /// Reads a function: nests a scope for it in `slt`, reads the function
    /// into that scope, and declares it in `slt`.
    pub fn parse_function(&mut self, slt_builder: &mut Builder, slt: &mut SymbolLookupTable) -> (r:
        Option<Fn>)
        requires
            old(self).wf(),
        ensures
            (fn_view(r), final(self)@, final(slt_builder).region_count, final(slt)@) == old(
                self,
            )@.parse_function(old(slt_builder).region_count, old(slt)@),
            final(self).input == old(self).input,
            final(self).wf(),
            old(slt).wf() ==> final(slt).wf(),
    {
        if slt_builder.region_count == u32::MAX || slt.scope == u32::MAX {
            self.fail();
            return None;
        }
        slt_builder.new_region(slt);
        let mut child = take_last_child(
            slt,
            Ghost(old(slt)@),
            Ghost(old(slt_builder).region_count),
        );

        let r = self.function_body(slt_builder, &mut child);

        put_child(slt, child);

        match r {
            Some(func) => {
                slt.add_function(slt::Fn::from_fn(&func), self.span);
                Some(func)
            },
            None => None,
        }
    }

    /// Reads the functions and external functions up to the end of the
    /// tokens into `program`.
    pub fn parse(
        &mut self,
        program: &mut Program,
        slt_builder: &mut Builder,
        slt: &mut SymbolLookupTable,
    ) -> (r: Option<()>)
        requires
            old(self).wf(),
        ensures
            (
                r is Some,
                final(self)@,
                final(program)@,
                final(slt_builder).region_count,
                final(slt)@,
            ) == old(self)@.parse(old(program)@, old(slt_builder).region_count, old(slt)@),
            final(self).input == old(self).input,
            final(self).wf(),
            old(slt).wf() ==> final(slt).wf(),
    {
        loop
            invariant_except_break
                self@.parse(program@, slt_builder.region_count, slt@) == old(self)@.parse(
                    old(program)@,
                    old(slt_builder).region_count,
                    old(slt)@,
                ),
            invariant
                self.wf(),
                self.input == old(self).input,
                self@.tokens == old(self)@.tokens,
                old(slt).wf() ==> slt.wf(),
            ensures
                self@.check_next(TokenKind::EOF),
                self.wf(),
                self.input == old(self).input,
                old(slt).wf() ==> slt.wf(),
                (true, self@.advance(), program@, slt_builder.region_count, slt@) == old(
                    self,
                )@.parse(old(program)@, old(slt_builder).region_count, old(slt)@),
            decreases self@.tokens.len() - self@.pos,
        {
            if self.check_next(TokenKind::EOF) {
                break ;
            }
            proof {
                lemma_extrn(self@, slt@);
                if slt_builder.region_count < u32::MAX && slt.scope < u32::MAX {
                    lemma_function_body(
                        self@,
                        SltView::empty(slt_builder.region_count, (slt.scope + 1) as u32),
                    );
                }
            }
            match self.peek() {
                Some(TokenKind::OFnDecl1) => {
                    match self.parse_function(slt_builder, slt) {
                        Some(f) => {
                            proof {
                                assert(program.func@.push(f).map_values(|f: Fn| f@)
                                    =~= program.func@.map_values(|f: Fn| f@).push(f@));
                            }
                            program.func.push(f);
                        },
                        None => {
                            return None;
                        },
                    }
                },
                Some(TokenKind::OExtrnFn) => {
                    match self.parse_extrn_function(slt) {
                        Some(e) => {
                            proof {
                                assert(program.extrn@.push(e).map_values(|e: Extrn| e@)
                                    =~= program.extrn@.map_values(|e: Extrn| e@).push(e@));
                            }
                            program.extrn.push(e);
                        },
                        None => {
                            return None;
                        },
                    }
                },
                _ => {
                    self.fail();
                    return None;
                },
            }
        }
        let _ = self.next();
        Some(())
    }
}

} // verus!
