//! Tokens: their kinds, and the part of the source that each one covers.

use vstd::prelude::*;
use vstd::slice::*;

verus! {

/// A token of the source: its kind and where it stands.
#[derive(PartialEq, Eq, Structural, Hash, Clone, Copy, Debug)]
pub struct Token {
    pub kind: TokenKind,
    pub span: Span,
}

impl Token {
    pub fn new(kind: TokenKind, span: Span) -> (t: Token)
        ensures
            t.kind == kind,
            t.span == span,
    {
        Self { kind, span }
    }

    /// How diagnostics show the token: by the name of its kind.
    pub fn to_string(&self) -> (s: String)
        ensures
            s@ == self.kind.name(),
    {
        self.kind.to_string()
    }

    /// The bytes of `input` that this token covers.
    pub fn text<'input>(&self, input: &'input [u8]) -> (t: &'input [u8])
        requires
            self.span.start <= self.span.end <= input@.len(),
        ensures
            t@ == input@.subrange(self.span.start as int, self.span.end as int),
    {
        slice_subrange(input, self.span.start, self.span.end)
    }
}

#[derive(PartialEq, Eq, Structural, Hash, Clone, Copy, Debug)]
pub enum TokenKind {
    // Terminal
    EOF,
    ParseError,
    // Values
    ID,
    String,
    CharLit,
    IntLit,
    True,
    False,
    // Puncts
    Not,
    Mul,
    Div,
    Mod,
    Plus,
    Minus,
    Eq,
    // Keywords
    OAssign,
    Assign,
    CAssign,
    If,
    IfEnd,
    Else,
    Let,
    OFnDecl1,
    OFnDecl2,
    CFnDecl,
    OFnCall,
    CFnCall,
    Variadic,
    OExtrnFn,
    CExtrnFn,
    OFnParams,
    CFnParams,
    // Types
    TyInt,
    TyString,
    TyBool,
}

impl TokenKind {
    /// The name under which diagnostics show this kind of token.
    pub open spec fn name(self) -> Seq<char> {
        match self {
            TokenKind::EOF => "<eof>"@,
            TokenKind::ParseError => "<?>"@,
            TokenKind::ID => "Identifier"@,
            TokenKind::String => "String"@,
            TokenKind::CharLit => "Char literal"@,
            TokenKind::IntLit => "Integer literal"@,
            TokenKind::True => "True"@,
            TokenKind::False => "False"@,
            TokenKind::Not => "Not"@,
            TokenKind::Mul => "Mul"@,
            TokenKind::Div => "Div"@,
            TokenKind::Mod => "Mod"@,
            TokenKind::Plus => "Plus"@,
            TokenKind::Minus => "Minus"@,
            TokenKind::Eq => "Eq"@,
            TokenKind::OAssign => "Open assign"@,
            TokenKind::Assign => "Assign"@,
            TokenKind::CAssign => "Close assign"@,
            TokenKind::If => "If"@,
            TokenKind::IfEnd => "IfEnd"@,
            TokenKind::Else => "Else"@,
            TokenKind::Let => "Let"@,
            TokenKind::OFnDecl1 => "Opening function declaration 1"@,
            TokenKind::OFnDecl2 => "Opening function declaration 2"@,
            TokenKind::CFnDecl => "Closing function declaration 1"@,
            TokenKind::OFnCall => "Opening function call"@,
            TokenKind::CFnCall => "Closing function call"@,
            TokenKind::Variadic => "Variadic"@,
            TokenKind::OExtrnFn => "Opening external function"@,
            TokenKind::CExtrnFn => "Closing external function"@,
            TokenKind::OFnParams => "Opening function parameters"@,
            TokenKind::CFnParams => "Closing function parameters"@,
            TokenKind::TyInt => "Credit"@,
            TokenKind::TyString => "Holotext"@,
            TokenKind::TyBool => "Signal"@,
        }
    }

    /// The name of this kind as a static string.
    pub fn as_str(&self) -> (s: &'static str)
        ensures
            s@ == self.name(),
    {
        match self {
            TokenKind::EOF => "<eof>",
            TokenKind::ParseError => "<?>",
            TokenKind::ID => "Identifier",
            TokenKind::String => "String",
            TokenKind::CharLit => "Char literal",
            TokenKind::IntLit => "Integer literal",
            TokenKind::True => "True",
            TokenKind::False => "False",
            TokenKind::Not => "Not",
            TokenKind::Mul => "Mul",
            TokenKind::Div => "Div",
            TokenKind::Mod => "Mod",
            TokenKind::Plus => "Plus",
            TokenKind::Minus => "Minus",
            TokenKind::Eq => "Eq",
            TokenKind::OAssign => "Open assign",
            TokenKind::Assign => "Assign",
            TokenKind::CAssign => "Close assign",
            TokenKind::If => "If",
            TokenKind::IfEnd => "IfEnd",
            TokenKind::Else => "Else",
            TokenKind::Let => "Let",
            TokenKind::OFnDecl1 => "Opening function declaration 1",
            TokenKind::OFnDecl2 => "Opening function declaration 2",
            TokenKind::CFnDecl => "Closing function declaration 1",
            TokenKind::OFnCall => "Opening function call",
            TokenKind::CFnCall => "Closing function call",
            TokenKind::Variadic => "Variadic",
            TokenKind::OExtrnFn => "Opening external function",
            TokenKind::CExtrnFn => "Closing external function",
            TokenKind::OFnParams => "Opening function parameters",
            TokenKind::CFnParams => "Closing function parameters",
            TokenKind::TyInt => "Credit",
            TokenKind::TyString => "Holotext",
            TokenKind::TyBool => "Signal",
        }
    }

    /// The name of this kind as an owned string.
    pub fn to_string(&self) -> (s: String)
        ensures
            s@ == self.name(),
    {
        self.as_str().to_owned()
    }
}

/// A range of the source, by byte index, and the line on which it ends.
#[derive(Eq, PartialEq, Structural, Hash, Clone, Copy, Debug)]
pub struct Span {
    /// inclusive
    pub start: usize,
    /// exclusive
    pub end: usize,
    /// the number of line breaks before the end of the range
    pub line: usize,
}

impl Default for Span {
    fn default() -> (s: Span)
        ensures
            s == (Span { start: 0, end: 0, line: 0 }),
    {
        Span { start: 0, end: 0, line: 0 }
    }
}

} // verus!
