//! The lexer: from the bytes of a source text to tokens.
//!
//! The lexer reads its input byte by byte. Phrases are recognised by their
//! bytes, in the order of the tables of `rules`; the first phrase that the
//! input starts with gives the token.

use vstd::prelude::*;
use vstd::string::*;

use rules::{keyword, keywords, punct, puncts, type_keyword, types};
use rules::{KEYWORDS_LEN, PUNCTS_LEN, TYPES_LEN};
use token::{Span, Token, TokenKind};

pub mod rules;
pub mod token;

verus! {

/// The byte of a line feed.
pub const LINE_FEED: u8 = 10;

/// The byte of a backslash.
pub const BACKSLASH: u8 = 92;

/// The byte of a double quote.
pub const DOUBLE_QUOTE: u8 = 34;

/// The byte of a single quote.
pub const SINGLE_QUOTE: u8 = 39;

/// A place in the input: the index of the next byte, and the line it is on.
#[derive(Debug, Clone, Copy)]
pub struct ParsePoint {
    pub position: usize,
    /// the index of the last line feed that was passed
    pub line_start: usize,
    /// the number of line feeds that were passed
    pub line_number: usize,
}

impl ParsePoint {
    /// A point inside `input` or at its end, that has passed no more line
    /// feeds than bytes; the input is one that a machine can hold.
    pub open spec fn wf(self, input: Seq<u8>) -> bool {
        &&& input.len() <= usize::MAX
        &&& self.position <= input.len()
        &&& self.line_number <= self.position
        &&& self.line_start <= self.position
    }
}

/// The base of an integer literal.
#[derive(Clone, Copy)]
pub enum Radix {
    Oct,
    Dec,
    Hex,
}

impl Radix {
    pub open spec fn spec_value(self) -> u64 {
        match self {
            Radix::Oct => 8,
            Radix::Dec => 10,
            Radix::Hex => 16,
        }
    }

    /// The number of digits of this base.
    pub fn value(self) -> (v: u64)
        ensures
            v == self.spec_value(),
    {
        match self {
            Radix::Oct => 8,
            Radix::Dec => 10,
            Radix::Hex => 16,
        }
    }
}

/// What a lexer holds besides its input.
pub struct LexerState {
    pub point: ParsePoint,
    /// whether the end of the input was given out as a token
    pub has_eof: bool,
    /// the value of the integer literal read last, as far as it was read
    pub int_number: u64,
    /// the byte of the character literal read last
    pub char_lit: u8,
    /// the content of the string or character literal read last, its
    /// escapes resolved
    pub string: Seq<u8>,
}

#[derive(Debug)]
pub struct Lexer<'input> {
    pub input: &'input [u8],
    pub parse_point: ParsePoint,
    pub has_eof: bool,
    pub int_number: u64,
    pub char_lit: u8,
    pub string: Vec<u8>,
}

impl<'input> View for Lexer<'input> {
    type V = LexerState;

    open spec fn view(&self) -> LexerState {
        LexerState {
            point: self.parse_point,
            has_eof: self.has_eof,
            int_number: self.int_number,
            char_lit: self.char_lit,
            string: self.string@,
        }
    }
}

// ---------------------------------------------------------------------------
// Classes of bytes. A byte stands for the character with the same number.
// ---------------------------------------------------------------------------
/// White space: the ASCII blanks and controls, the next-line control and the
/// no-break space.
pub open spec fn spec_is_whitespace(b: u8) -> bool {
    9 <= b <= 13 || b == 32 || b == 0x85 || b == 0xA0
}

/// Letters: the ASCII letters and the letters of the Latin-1 supplement.
pub open spec fn spec_is_alphabetic(b: u8) -> bool {
    ||| 65 <= b <= 90
    ||| 97 <= b <= 122
    ||| b == 0xAA
    ||| b == 0xB5
    ||| b == 0xBA
    ||| 0xC0 <= b <= 0xD6
    ||| 0xD8 <= b <= 0xF6
    ||| 0xF8 <= b
}

/// Numeric characters: the ASCII digits, and the superscripts and fractions
/// of the Latin-1 supplement.
pub open spec fn spec_is_numeric(b: u8) -> bool {
    ||| 48 <= b <= 57
    ||| b == 0xB2
    ||| b == 0xB3
    ||| b == 0xB9
    ||| 0xBC <= b <= 0xBE
}

/// A byte that may stand inside an identifier.
pub open spec fn spec_is_identifier(b: u8) -> bool {
    spec_is_alphabetic(b) || spec_is_numeric(b) || b == 95
}

/// A byte that may start an identifier.
pub open spec fn spec_is_identifier_start(b: u8) -> bool {
    spec_is_alphabetic(b) || b == 95
}

/// The value of `b` as a digit of base `radix`, if it is one.
pub open spec fn spec_to_digit(b: u8, radix: u64) -> Option<u64> {
    let d: int = if 48 <= b <= 57 {
        b - 48
    } else if 97 <= b <= 122 {
        b - 97 + 10
    } else if 65 <= b <= 90 {
        b - 65 + 10
    } else {
        36
    };
    if d < radix {
        Some(d as u64)
    } else {
        None
    }
}

#[verifier::when_used_as_spec(spec_is_whitespace)]
pub fn is_whitespace(b: u8) -> (r: bool)
    ensures
        r == spec_is_whitespace(b),
{
    (9 <= b && b <= 13) || b == 32 || b == 0x85 || b == 0xA0
}

#[verifier::when_used_as_spec(spec_is_identifier)]
pub fn is_identifier(b: u8) -> (r: bool)
    ensures
        r == spec_is_identifier(b),
{
    is_identifier_start(b) || (48 <= b && b <= 57) || b == 0xB2 || b == 0xB3 || b == 0xB9 || (0xBC
        <= b && b <= 0xBE)
}

#[verifier::when_used_as_spec(spec_is_identifier_start)]
pub fn is_identifier_start(b: u8) -> (r: bool)
    ensures
        r == spec_is_identifier_start(b),
{
    (65 <= b && b <= 90) || (97 <= b && b <= 122) || b == 0xAA || b == 0xB5 || b == 0xBA || (0xC0
        <= b && b <= 0xD6) || (0xD8 <= b && b <= 0xF6) || 0xF8 <= b || b == 95
}

#[verifier::when_used_as_spec(spec_to_digit)]
pub fn to_digit(b: u8, radix: u64) -> (r: Option<u64>)
    ensures
        r == spec_to_digit(b, radix),
{
    let d: u64 = if 48 <= b && b <= 57 {
        (b - 48) as u64
    } else if 97 <= b && b <= 122 {
        (b - 97 + 10) as u64
    } else if 65 <= b && b <= 90 {
        (b - 65 + 10) as u64
    } else {
        36
    };
    if d < radix {
        Some(d)
    } else {
        None
    }
}

// ---------------------------------------------------------------------------
// What the lexer computes, as functions of the input and a place in it.
// ---------------------------------------------------------------------------
/// The point behind the byte at `p`.
pub open spec fn step(input: Seq<u8>, p: ParsePoint) -> ParsePoint
    recommends
        p.position < input.len(),
{
    if input[p.position as int] == LINE_FEED {
        ParsePoint {
            position: (p.position + 1) as usize,
            line_start: p.position,
            line_number: (p.line_number + 1) as usize,
        }
    } else {
        ParsePoint { position: (p.position + 1) as usize, ..p }
    }
}

/// The point `n` bytes behind `p`.
pub open spec fn steps(input: Seq<u8>, p: ParsePoint, n: nat) -> ParsePoint
    decreases n,
{
    if n == 0 {
        p
    } else {
        step(input, steps(input, p, (n - 1) as nat))
    }
}

/// The first point at or behind `p` at which no white space stands.
pub open spec fn after_whitespaces(input: Seq<u8>, p: ParsePoint) -> ParsePoint
    decreases input.len() - p.position,
    when input.len() <= usize::MAX
{
    if p.position < input.len() && spec_is_whitespace(input[p.position as int]) {
        after_whitespaces(input, step(input, p))
    } else {
        p
    }
}

/// Whether `prefix` stands in `input` at index `at`.
pub open spec fn has_prefix_at(input: Seq<u8>, at: int, prefix: Seq<u8>) -> bool {
    &&& 0 <= at
    &&& at + prefix.len() <= input.len()
    &&& input.subrange(at, at + prefix.len()) == prefix
}

/// The point behind `prefix` where it stands at `p`; `p` itself where it
/// does not.
pub open spec fn after_prefix(input: Seq<u8>, p: ParsePoint, prefix: Seq<u8>) -> ParsePoint {
    if has_prefix_at(input, p.position as int, prefix) {
        steps(input, p, prefix.len())
    } else {
        p
    }
}

/// The point behind the first occurrence of `prefix` at or behind `p`; the
/// end of the input where there is none.
pub open spec fn after_first(input: Seq<u8>, p: ParsePoint, prefix: Seq<u8>) -> ParsePoint
    decreases input.len() - p.position,
    when input.len() <= usize::MAX
{
    if p.position >= input.len() {
        p
    } else if has_prefix_at(input, p.position as int, prefix) {
        steps(input, p, prefix.len())
    } else {
        after_first(input, step(input, p), prefix)
    }
}

/// The phrase that opens a comment; a comment ends with its line.
pub open spec fn comment_start() -> Seq<u8> {
    "<(-.-)>".spec_bytes()
}

/// The phrase that ends a comment.
pub open spec fn comment_end() -> Seq<u8> {
    "\n".spec_bytes()
}

/// The first point at or behind `p` at which neither white space nor a
/// comment stands.
pub open spec fn after_trivia(input: Seq<u8>, p: ParsePoint) -> ParsePoint
    decreases input.len() - p.position,
    when p.wf(input)
    via after_trivia_decreases
{
    let q = after_whitespaces(input, p);
    if has_prefix_at(input, q.position as int, comment_start()) {
        after_trivia(
            input,
            after_first(input, steps(input, q, comment_start().len()), comment_end()),
        )
    } else {
        q
    }
}

#[via_fn]
proof fn after_trivia_decreases(input: Seq<u8>, p: ParsePoint) {
    if has_prefix_at(input, after_whitespaces(input, p).position as int, comment_start()) {
        lemma_comment_moves(input, p);
    }
}

/// The place in `table`, from `from` on, of the first phrase that stands in
/// `input` at index `at`.
pub open spec fn first_match(
    input: Seq<u8>,
    at: int,
    table: Seq<(&'static str, TokenKind)>,
    from: int,
) -> Option<int>
    decreases table.len() - from,
{
    if from < 0 || from >= table.len() {
        None
    } else if has_prefix_at(input, at, table[from].0.spec_bytes()) {
        Some(from)
    } else {
        first_match(input, at, table, from + 1)
    }
}

/// The first point at or behind `p` at which no identifier byte stands.
pub open spec fn after_identifier(input: Seq<u8>, p: ParsePoint) -> ParsePoint
    decreases input.len() - p.position,
    when input.len() <= usize::MAX
{
    if p.position < input.len() && spec_is_identifier(input[p.position as int]) {
        after_identifier(input, step(input, p))
    } else {
        p
    }
}

/// How the reading of a run of digits ends.
pub struct NumberEnd {
    /// `false` when the value left the 64-bit range
    pub ok: bool,
    /// behind the last digit that was taken
    pub point: ParsePoint,
    /// the value of the digits that were taken
    pub value: u64,
}

/// Reads digits of base `radix` from `p` on and adds them to `value`; stops
/// in front of the first byte that is no digit, or of the first digit with
/// which the value would leave the 64-bit range.
pub open spec fn number_end(input: Seq<u8>, p: ParsePoint, value: u64, radix: u64) -> NumberEnd
    decreases input.len() - p.position,
    when input.len() <= usize::MAX
{
    if p.position >= input.len() {
        NumberEnd { ok: true, point: p, value }
    } else {
        match spec_to_digit(input[p.position as int], radix) {
            None => NumberEnd { ok: true, point: p, value },
            Some(d) => {
                if value * radix + d > u64::MAX {
                    NumberEnd {
                        ok: false,
                        point: p,
                        value: if value * radix > u64::MAX {
                            value
                        } else {
                            (value * radix) as u64
                        },
                    }
                } else {
                    number_end(input, step(input, p), (value * radix + d) as u64, radix)
                }
            },
        }
    }
}

/// The byte that an escape stands for, if `b` may follow a backslash.
pub open spec fn unescape(b: u8, delim: u8) -> Option<u8> {
    if b == 48 {
        Some(0u8)
    } else if b == 110 {
        Some(10u8)
    } else if b == 116 {
        Some(9u8)
    } else if b == 114 {
        Some(13u8)
    } else if b == delim {
        Some(delim)
    } else if b == BACKSLASH {
        Some(BACKSLASH)
    } else {
        None
    }
}

/// How the reading of the inside of a quoted literal ends.
pub struct StringEnd {
    /// `false` when a backslash was followed by nothing or by a byte that
    /// cannot be escaped
    pub ok: bool,
    /// in front of the closing delimiter, at the end of the input, or behind
    /// the backslash that could not be resolved
    pub point: ParsePoint,
    /// the content read so far, escapes resolved
    pub string: Seq<u8>,
}

/// Reads the inside of a quoted literal from `p` on, up to the delimiter or
/// the end of the input, and adds it to `string`.
pub open spec fn string_end(input: Seq<u8>, p: ParsePoint, string: Seq<u8>, delim: u8) -> StringEnd
    decreases input.len() - p.position,
    when input.len() <= usize::MAX
{
    if p.position >= input.len() {
        StringEnd { ok: true, point: p, string }
    } else {
        let x = input[p.position as int];
        if x == BACKSLASH {
            let q = step(input, p);
            if p.position + 1 >= input.len() {
                StringEnd { ok: false, point: q, string }
            } else {
                match unescape(input[p.position + 1], delim) {
                    None => StringEnd { ok: false, point: q, string },
                    Some(c) => string_end(input, step(input, q), string.push(c), delim),
                }
            }
        } else if x == delim {
            StringEnd { ok: true, point: p, string }
        } else {
            string_end(input, step(input, p), string.push(x), delim)
        }
    }
}


/// The span of the bytes between two points.
pub open spec fn span_between(p: ParsePoint, q: ParsePoint) -> Span {
    Span { start: p.position, end: q.position, line: q.line_number }
}

/// The empty span at a point.
pub open spec fn span_at(q: ParsePoint) -> Span {
    Span { start: q.position, end: q.position, line: q.line_number }
}

/// The token of an integer literal that starts at `p` and whose digits, of
/// base `radix`, start at `digits`: an error token where the value leaves
/// the 64-bit range.
pub open spec fn number_token(
    input: Seq<u8>,
    s: LexerState,
    p: ParsePoint,
    digits: ParsePoint,
    radix: u64,
) -> (Token, LexerState) {
    let end = number_end(input, digits, 0, radix);
    if end.ok {
        (
            Token { kind: TokenKind::IntLit, span: span_between(p, end.point) },
            LexerState { point: end.point, int_number: 0, ..s },
        )
    } else {
        (
            Token { kind: TokenKind::ParseError, span: span_at(end.point) },
            LexerState { point: end.point, int_number: end.value, ..s },
        )
    }
}

/// The token of the quoted literal whose opening delimiter stands at `p`:
/// a string between double quotes, one character between single quotes, and
/// an error token where the literal is not closed, an escape cannot be
/// resolved, or a character literal does not hold exactly one byte.
pub open spec fn quoted_token(input: Seq<u8>, s: LexerState, p: ParsePoint, delim: u8) -> (
    Token,
    LexerState,
) {
    let end = string_end(input, step(input, p), Seq::empty(), delim);
    if !end.ok || end.point.position >= input.len() {
        (
            Token { kind: TokenKind::ParseError, span: span_at(end.point) },
            LexerState { point: end.point, string: end.string, ..s },
        )
    } else {
        let q = step(input, end.point);
        if delim == DOUBLE_QUOTE {
            (
                Token { kind: TokenKind::String, span: span_between(p, q) },
                LexerState { point: q, string: end.string, ..s },
            )
        } else if end.string.len() != 1 {
            (
                Token { kind: TokenKind::ParseError, span: span_at(q) },
                LexerState { point: q, string: end.string, ..s },
            )
        } else {
            (
                Token { kind: TokenKind::CharLit, span: span_between(p, q) },
                LexerState { point: q, string: end.string, char_lit: end.string[0], ..s },
            )
        }
    }
}

/// The prefix of a hexadecimal literal.
pub open spec fn hex_prefix() -> Seq<u8> {
    "0x".spec_bytes()
}

/// The prefix of an octal literal.
pub open spec fn oct_prefix() -> Seq<u8> {
    "0".spec_bytes()
}

/// The token that starts at `p`, a point inside the input at which neither
/// white space nor a comment stands, and the state behind it.
pub open spec fn token_at(input: Seq<u8>, s: LexerState, p: ParsePoint) -> (Token, LexerState) {
    let x = input[p.position as int];
    match first_match(input, p.position as int, rules::phrases(), 0) {
        Some(i) => {
            let q = steps(input, p, rules::phrases()[i].0.spec_bytes().len());
            (Token { kind: rules::phrases()[i].1, span: span_between(p, q) }, s.at(q))
        },
        None => {
            if spec_is_identifier_start(x) {
                let q = after_identifier(input, p);
                (Token { kind: TokenKind::ID, span: span_between(p, q) }, s.at(q))
            } else if has_prefix_at(input, p.position as int, hex_prefix()) {
                number_token(input, s, p, steps(input, p, hex_prefix().len()), 16)
            } else if has_prefix_at(input, p.position as int, oct_prefix()) {
                number_token(input, s, p, steps(input, p, oct_prefix().len()), 8)
            } else if spec_to_digit(x, 10) is Some {
                number_token(input, s, p, p, 10)
            } else if x == DOUBLE_QUOTE || x == SINGLE_QUOTE {
                quoted_token(input, s, p, x)
            } else {
                let q = step(input, p);
                (Token { kind: TokenKind::ParseError, span: span_at(q) }, s.at(q))
            }
        },
    }
}

/// The next token of `input` for a lexer in state `s`, and the state behind
/// it: white space and comments are passed over; at the end of the input
/// stands the token `EOF`.
pub open spec fn spec_next_token(input: Seq<u8>, s: LexerState) -> (Token, LexerState) {
    let p = after_trivia(input, s.point);
    if p.position >= input.len() {
        (
            Token { kind: TokenKind::EOF, span: span_at(p) },
            LexerState { point: p, has_eof: true, ..s },
        )
    } else {
        token_at(input, s, p)
    }
}

/// The tokens of `input` for a lexer in state `s`, up to and with `EOF`.
pub open spec fn tokens_from(input: Seq<u8>, s: LexerState) -> Seq<Token>
    decreases input.len() - s.point.position, (if s.has_eof { 0nat } else { 1nat }),
    when s.point.wf(input)
    via tokens_from_decreases
{
    if s.has_eof {
        Seq::empty()
    } else {
        seq![spec_next_token(input, s).0] + tokens_from(input, spec_next_token(input, s).1)
    }
}

#[via_fn]
proof fn tokens_from_decreases(input: Seq<u8>, s: LexerState) {
    if !s.has_eof {
        lemma_next_token_moves(input, s);
    }
}

// ---------------------------------------------------------------------------
// Where these functions lead: never backwards, never beyond the input.
// ---------------------------------------------------------------------------
/// A step from a point inside the input leads one byte forward.
pub proof fn lemma_step(input: Seq<u8>, p: ParsePoint)
    requires
        input.len() <= usize::MAX,
        p.wf(input),
        p.position < input.len(),
    ensures
        step(input, p).wf(input),
        step(input, p).position == p.position + 1,
{
}

/// `n` steps lead `n` bytes forward.
pub proof fn lemma_steps(input: Seq<u8>, p: ParsePoint, n: nat)
    requires
        input.len() <= usize::MAX,
        p.wf(input),
        p.position + n <= input.len(),
    ensures
        steps(input, p, n).wf(input),
        steps(input, p, n).position == p.position + n,
    decreases n,
{
    if n > 0 {
        lemma_steps(input, p, (n - 1) as nat);
        lemma_step(input, steps(input, p, (n - 1) as nat));
    }
}

pub proof fn lemma_after_whitespaces(input: Seq<u8>, p: ParsePoint)
    requires
        input.len() <= usize::MAX,
        p.wf(input),
    ensures
        after_whitespaces(input, p).wf(input),
        after_whitespaces(input, p).position >= p.position,
    decreases input.len() - p.position,
{
    if p.position < input.len() && spec_is_whitespace(input[p.position as int]) {
        lemma_step(input, p);
        lemma_after_whitespaces(input, step(input, p));
    }
}

pub proof fn lemma_after_first(input: Seq<u8>, p: ParsePoint, prefix: Seq<u8>)
    requires
        input.len() <= usize::MAX,
        p.wf(input),
    ensures
        after_first(input, p, prefix).wf(input),
        after_first(input, p, prefix).position >= p.position,
    decreases input.len() - p.position,
{
    if p.position >= input.len() {
    } else if has_prefix_at(input, p.position as int, prefix) {
        lemma_steps(input, p, prefix.len());
    } else {
        lemma_step(input, p);
        lemma_after_first(input, step(input, p), prefix);
    }
}

/// The phrase that opens a comment holds at least one byte.
pub proof fn lemma_comment_start_not_empty()
    ensures
        comment_start().len() > 0,
{
    reveal_strlit("<(-.-)>");
    rules::lemma_encoding_not_empty("<(-.-)>"@);
}

/// Behind a comment the lexer stands further on than in front of it.
pub proof fn lemma_comment_moves(input: Seq<u8>, p: ParsePoint)
    requires
        input.len() <= usize::MAX,
        p.wf(input),
        has_prefix_at(input, after_whitespaces(input, p).position as int, comment_start()),
    ensures
        ({
            let q = after_whitespaces(input, p);
            let r = after_first(input, steps(input, q, comment_start().len()), comment_end());
            p.position < r.position <= input.len() && r.wf(input)
        }),
{
    let q = after_whitespaces(input, p);
    lemma_after_whitespaces(input, p);
    lemma_comment_start_not_empty();
    lemma_steps(input, q, comment_start().len());
    lemma_after_first(input, steps(input, q, comment_start().len()), comment_end());
}

pub proof fn lemma_after_trivia(input: Seq<u8>, p: ParsePoint)
    requires
        input.len() <= usize::MAX,
        p.wf(input),
    ensures
        after_trivia(input, p).wf(input),
        after_trivia(input, p).position >= p.position,
    decreases input.len() - p.position,
{
    let q = after_whitespaces(input, p);
    lemma_after_whitespaces(input, p);
    if has_prefix_at(input, q.position as int, comment_start()) {
        lemma_comment_moves(input, p);
        let r = after_first(input, steps(input, q, comment_start().len()), comment_end());
        lemma_after_trivia(input, r);
    }
}

pub proof fn lemma_after_identifier(input: Seq<u8>, p: ParsePoint)
    requires
        input.len() <= usize::MAX,
        p.wf(input),
    ensures
        after_identifier(input, p).wf(input),
        after_identifier(input, p).position >= p.position,
        p.position < input.len() && spec_is_identifier(input[p.position as int])
            ==> after_identifier(input, p).position > p.position,
    decreases input.len() - p.position,
{
    if p.position < input.len() && spec_is_identifier(input[p.position as int]) {
        lemma_step(input, p);
        lemma_after_identifier(input, step(input, p));
    }
}

pub proof fn lemma_number_end(input: Seq<u8>, p: ParsePoint, value: u64, radix: u64)
    requires
        input.len() <= usize::MAX,
        p.wf(input),
    ensures
        number_end(input, p, value, radix).point.wf(input),
        number_end(input, p, value, radix).point.position >= p.position,
        value == 0 && radix > 9 && p.position < input.len() && spec_to_digit(
            input[p.position as int],
            radix,
        ) is Some ==> number_end(input, p, value, radix).point.position > p.position,
    decreases input.len() - p.position,
{
    if p.position < input.len() {
        match spec_to_digit(input[p.position as int], radix) {
            None => {},
            Some(d) => {
                if value * radix + d > u64::MAX {
                    if value == 0 {
                        assert(value * radix == 0) by (nonlinear_arith)
                            requires
                                value == 0,
                        ;
                    }
                } else {
                    lemma_step(input, p);
                    lemma_number_end(input, step(input, p), (value * radix + d) as u64, radix);
                }
            },
        }
    }
}

pub proof fn lemma_string_end(input: Seq<u8>, p: ParsePoint, string: Seq<u8>, delim: u8)
    requires
        input.len() <= usize::MAX,
        p.wf(input),
    ensures
        string_end(input, p, string, delim).point.wf(input),
        string_end(input, p, string, delim).point.position >= p.position,
    decreases input.len() - p.position,
{
    if p.position < input.len() {
        let x = input[p.position as int];
        lemma_step(input, p);
        let q = step(input, p);
        if x == BACKSLASH {
            if p.position + 1 < input.len() {
                match unescape(input[p.position + 1], delim) {
                    None => {},
                    Some(c) => {
                        lemma_step(input, q);
                        lemma_string_end(input, step(input, q), string.push(c), delim);
                    },
                }
            }
        } else if x == delim {
        } else {
            lemma_string_end(input, q, string.push(x), delim);
        }
    }
}

/// A phrase that was found at `at` has its place in the table and stands
/// there; where none was found, none stands there.
pub proof fn lemma_first_match(
    input: Seq<u8>,
    at: int,
    table: Seq<(&'static str, TokenKind)>,
    from: int,
)
    requires
        0 <= from,
    ensures
        match first_match(input, at, table, from) {
            Some(i) => from <= i < table.len() && has_prefix_at(
                input,
                at,
                table[i].0.spec_bytes(),
            ),
            None => forall|k: int|
                from <= k < table.len() ==> !has_prefix_at(
                    input,
                    at,
                    (#[trigger] table[k]).0.spec_bytes(),
                ),
        },
    decreases table.len() - from,
{
    if from < table.len() && !has_prefix_at(input, at, table[from].0.spec_bytes()) {
        lemma_first_match(input, at, table, from + 1);
    }
}

/// The phrase that a token is made of is the only phrase that stands at the
/// place of the token, and so the longest: `first_match` finds it whatever
/// the order of the table, and finds none only where none stands.
pub proof fn lemma_phrase_is_the_only_match(input: Seq<u8>, at: int)
    ensures
        match first_match(input, at, rules::phrases(), 0) {
            Some(i) => forall|j: int|
                0 <= j < rules::phrases().len() && has_prefix_at(
                    input,
                    at,
                    (#[trigger] rules::phrases()[j]).0.spec_bytes(),
                ) ==> j == i,
            None => forall|j: int|
                0 <= j < rules::phrases().len() ==> !has_prefix_at(
                    input,
                    at,
                    (#[trigger] rules::phrases()[j]).0.spec_bytes(),
                ),
        },
{
    lemma_first_match(input, at, rules::phrases(), 0);
    match first_match(input, at, rules::phrases(), 0) {
        Some(i) => {
            assert forall|j: int|
                0 <= j < rules::phrases().len() && has_prefix_at(
                    input,
                    at,
                    (#[trigger] rules::phrases()[j]).0.spec_bytes(),
                ) implies j == i by {
                rules::lemma_one_phrase(input, at, i, j);
            }
        },
        None => {},
    }
}

/// Every token ends inside the input, and either it is the token `EOF` or
/// the lexer stands further on behind it than in front of it.
pub proof fn lemma_next_token_moves(input: Seq<u8>, s: LexerState)
    requires
        s.point.wf(input),
    ensures
        ({
            let (t, s2) = spec_next_token(input, s);
            &&& s2.point.wf(input)
            &&& s2.point.position >= s.point.position
            &&& t.span.start <= t.span.end <= s2.point.position
            &&& s.point.position <= t.span.start
            &&& s2.has_eof == (s.has_eof || t.kind == TokenKind::EOF)
            &&& t.kind == TokenKind::EOF || s2.point.position > s.point.position
            &&& t.kind == TokenKind::EOF ==> s2.point.position == input.len()
        }),
{
    let p = after_trivia(input, s.point);
    lemma_after_trivia(input, s.point);
    if p.position < input.len() {
        let x = input[p.position as int];
        lemma_step(input, p);
        match first_match(input, p.position as int, rules::phrases(), 0) {
            Some(i) => {
                lemma_first_match(input, p.position as int, rules::phrases(), 0);
                rules::lemma_phrases_not_empty();
                let phrase = rules::phrases()[i].0.spec_bytes();
                lemma_steps(input, p, phrase.len());
            },
            None => {
                if spec_is_identifier_start(x) {
                    lemma_after_identifier(input, p);
                } else if has_prefix_at(input, p.position as int, hex_prefix()) {
                    lemma_number_prefixes_not_empty();
                    lemma_steps(input, p, hex_prefix().len());
                    lemma_number_end(input, steps(input, p, hex_prefix().len()), 0, 16);
                } else if has_prefix_at(input, p.position as int, oct_prefix()) {
                    lemma_number_prefixes_not_empty();
                    lemma_steps(input, p, oct_prefix().len());
                    lemma_number_end(input, steps(input, p, oct_prefix().len()), 0, 8);
                } else if spec_to_digit(x, 10) is Some {
                    lemma_number_end(input, p, 0, 10);
                } else if x == DOUBLE_QUOTE || x == SINGLE_QUOTE {
                    let end = string_end(input, step(input, p), Seq::empty(), x);
                    lemma_string_end(input, step(input, p), Seq::empty(), x);
                    if end.ok && end.point.position < input.len() {
                        lemma_step(input, end.point);
                    }
                } else {
                }
            },
        }
    }
}

/// The prefixes of hexadecimal and octal literals hold at least one byte.
pub proof fn lemma_number_prefixes_not_empty()
    ensures
        hex_prefix().len() > 0,
        oct_prefix().len() > 0,
{
    reveal_strlit("0x");
    reveal_strlit("0");
    rules::lemma_encoding_not_empty("0x"@);
    rules::lemma_encoding_not_empty("0"@);
}

/// Every token covers bytes of the input.
pub open spec fn tokens_in_bounds(input: Seq<u8>, tokens: Seq<Token>) -> bool {
    forall|i: int|
        0 <= i < tokens.len() ==> (#[trigger] tokens[i]).span.start <= tokens[i].span.end
            <= input.len()
}

/// Every token that a lexer gives out covers bytes of its input.
pub proof fn lemma_tokens_in_bounds(input: Seq<u8>, s: LexerState)
    requires
        s.point.wf(input),
    ensures
        tokens_in_bounds(input, tokens_from(input, s)),
    decreases input.len() - s.point.position, (if s.has_eof { 0nat } else { 1nat }),
{
    if !s.has_eof {
        lemma_next_token_moves(input, s);
        let (t, s2) = spec_next_token(input, s);
        lemma_tokens_in_bounds(input, s2);
        let rest = tokens_from(input, s2);
        let all = tokens_from(input, s);
        assert(all =~= seq![t] + rest);
        assert forall|i: int| 0 <= i < all.len() implies (#[trigger] all[i]).span.start
            <= all[i].span.end <= input.len() by {
            if i > 0 {
                assert(all[i] == rest[i - 1]);
            }
        }
    }
}

// ---------------------------------------------------------------------------
// The lexer.
// ---------------------------------------------------------------------------
impl LexerState {
    /// The state of a lexer that has read nothing.
    pub open spec fn initial() -> LexerState {
        LexerState {
            point: ParsePoint { position: 0, line_start: 0, line_number: 0 },
            has_eof: false,
            int_number: 0,
            char_lit: 32,
            string: Seq::empty(),
        }
    }

    /// This state at another point.
    pub open spec fn at(self, point: ParsePoint) -> LexerState {
        LexerState { point, ..self }
    }
}

impl<'input> Lexer<'input> {
    /// The lexer stands inside its input or at its end.
    pub open spec fn wf(&self) -> bool {
        self.parse_point.wf(self.input@)
    }

    /// A lexer at the start of `input`.
    pub fn new(input: &'input str) -> (lexer: Lexer<'input>)
        ensures
            lexer.input@ == input.spec_bytes(),
            lexer@ == LexerState::initial(),
            lexer.wf(),
    {
        let input = input.as_bytes();
        proof {
            assert(vstd::slice::spec_slice_len(input) == input@.len());
        }
        Lexer {
            input,
            parse_point: ParsePoint { position: 0, line_start: 0, line_number: 0 },
            has_eof: false,
            int_number: 0,
            char_lit: 32,
            string: Vec::new(),
        }
    }

    /// Whether the lexer stands at the end of its input.
    pub fn is_eof(&self) -> (r: bool)
        ensures
            r == (self.parse_point.position >= self.input@.len()),
    {
        self.parse_point.position >= self.input.len()
    }

    /// The byte at which the lexer stands.
    pub fn peek_char(&self) -> (r: Option<u8>)
        ensures
            r == if self.parse_point.position < self.input@.len() {
                Some(self.input@[self.parse_point.position as int])
            } else {
                None
            },
    {
        if self.is_eof() {
            None
        } else {
            Some(self.input[self.parse_point.position])
        }
    }

    /// Moves one byte forward and counts the line feed that it passes.
    pub fn skip_char(&mut self)
        requires
            old(self).wf(),
            old(self).parse_point.position < old(self).input@.len(),
        ensures
            final(self).input == old(self).input,
            final(self)@ == old(self)@.at(step(old(self).input@, old(self).parse_point)),
            final(self).wf(),
            final(self).parse_point.position == old(self).parse_point.position + 1,
    {
        let x = self.parse_point.position;
        self.parse_point.position += 1;
        if self.input[x] == LINE_FEED {
            self.parse_point.line_number += 1;
            self.parse_point.line_start = x;
        }
    }

    /// Moves behind the white space at which the lexer stands.
    pub fn skip_whitespaces(&mut self)
        requires
            old(self).wf(),
        ensures
            final(self).input == old(self).input,
            final(self)@ == old(self)@.at(after_whitespaces(old(self).input@, old(self).parse_point)),
            final(self).wf(),
    {
        loop
            invariant_except_break
                after_whitespaces(self.input@, self.parse_point) == after_whitespaces(
                    old(self).input@,
                    old(self).parse_point,
                ),
            invariant
                self.wf(),
                self.input == old(self).input,
                self@ == old(self)@.at(self.parse_point),
            ensures
                self.parse_point == after_whitespaces(old(self).input@, old(self).parse_point),
            decreases self.input@.len() - self.parse_point.position,
        {
            match self.peek_char() {
                Some(c) => {
                    if is_whitespace(c) {
                        self.skip_char();
                    } else {
                        break ;
                    }
                },
                None => {
                    break ;
                },
            }
        }
    }

    /// Moves behind `prefix` if the input holds it at the place of the
    /// lexer, and says whether it did.
    pub fn skip_prefix(&mut self, prefix: &str) -> (r: bool)
        requires
            old(self).wf(),
        ensures
            final(self).input == old(self).input,
            r == has_prefix_at(
                old(self).input@,
                old(self).parse_point.position as int,
                prefix.spec_bytes(),
            ),
            final(self)@ == old(self)@.at(
                after_prefix(old(self).input@, old(self).parse_point, prefix.spec_bytes()),
            ),
            final(self).wf(),
    {
        let saved_point = self.parse_point;
        let bytes = prefix.as_bytes();
        let mut ptr: usize = 0;

        while ptr < bytes.len()
            invariant
                self.wf(),
                bytes@ == prefix.spec_bytes(),
                saved_point.wf(self.input@),
                saved_point == old(self).parse_point,
                self.input == old(self).input,
                self@ == old(self)@.at(self.parse_point),
                ptr <= bytes@.len(),
                saved_point.position + ptr <= self.input@.len(),
                self.parse_point == steps(self.input@, saved_point, ptr as nat),
                self.parse_point.position == saved_point.position + ptr,
                forall|k: int| 0 <= k < ptr ==> self.input@[saved_point.position + k] == bytes@[k],
            decreases bytes@.len() - ptr,
        {
            match self.peek_char() {
                None => {
                    self.parse_point = saved_point;
                    return false;
                },
                Some(x) => {
                    if x != bytes[ptr] {
                        proof {
                            if has_prefix_at(self.input@, saved_point.position as int, bytes@) {
                                let sub = self.input@.subrange(
                                    saved_point.position as int,
                                    saved_point.position + bytes@.len(),
                                );
                                assert(sub[ptr as int] == self.input@[saved_point.position + ptr]);
                                assert(false);
                            }
                        }
                        self.parse_point = saved_point;
                        return false;
                    }
                },
            }

            self.skip_char();
            ptr += 1;
        }

        proof {
            assert(self.input@.subrange(
                saved_point.position as int,
                saved_point.position + bytes@.len(),
            ) =~= bytes@);
        }
        true
    }

    /// Moves behind the first occurrence of `prefix`, or to the end of the
    /// input where there is none.
    pub fn skip_until(&mut self, prefix: &str)
        requires
            old(self).wf(),
        ensures
            final(self).input == old(self).input,
            final(self)@ == old(self)@.at(
                after_first(old(self).input@, old(self).parse_point, prefix.spec_bytes()),
            ),
            final(self).wf(),
    {
        loop
            invariant_except_break
                after_first(self.input@, self.parse_point, prefix.spec_bytes()) == after_first(
                    old(self).input@,
                    old(self).parse_point,
                    prefix.spec_bytes(),
                ),
            invariant
                self.wf(),
                self.input == old(self).input,
                self@ == old(self)@.at(self.parse_point),
            ensures
                self.wf(),
                self.input == old(self).input,
                self@ == old(self)@.at(self.parse_point),
                self.parse_point == after_first(
                    old(self).input@,
                    old(self).parse_point,
                    prefix.spec_bytes(),
                ),
            decreases self.input@.len() - self.parse_point.position,
        {
            if self.is_eof() {
                break ;
            }
            if self.skip_prefix(prefix) {
                break ;
            }
            self.skip_char();
        }
    }

    /// Reads the digits of base `radix` at which the lexer stands into
    /// `int_number`; `None` when the number leaves the 64-bit range.
    pub fn parse_number(&mut self, radix: Radix) -> (r: Option<()>)
        requires
            old(self).wf(),
        ensures
            final(self).input == old(self).input,
            final(self).wf(),
            ({
                let end = number_end(
                    old(self).input@,
                    old(self).parse_point,
                    old(self).int_number,
                    radix.spec_value(),
                );
                &&& r is Some == end.ok
                &&& final(self)@ == (LexerState {
                    point: end.point,
                    int_number: end.value,
                    ..old(self)@
                })
            }),
    {
        let base = radix.value();
        loop
            invariant_except_break
                number_end(self.input@, self.parse_point, self.int_number, base) == number_end(
                    old(self).input@,
                    old(self).parse_point,
                    old(self).int_number,
                    base,
                ),
            invariant
                self.wf(),
                self.input == old(self).input,
                self@ == (LexerState {
                    point: self.parse_point,
                    int_number: self.int_number,
                    ..old(self)@
                }),
                base == radix.spec_value(),
            ensures
                self.wf(),
                self.input == old(self).input,
                self@ == (LexerState {
                    point: self.parse_point,
                    int_number: self.int_number,
                    ..old(self)@
                }),
                number_end(
                    old(self).input@,
                    old(self).parse_point,
                    old(self).int_number,
                    base,
                ) == (NumberEnd { ok: true, point: self.parse_point, value: self.int_number }),
            decreases self.input@.len() - self.parse_point.position,
        {
            let x = match self.peek_char() {
                Some(x) => x,
                None => {
                    break ;
                },
            };
            let d = match to_digit(x, base) {
                Some(d) => d,
                None => {
                    break ;
                },
            };

            let r = match self.int_number.checked_mul(base) {
                Some(r) => r,
                None => {
                    return None;
                },
            };
            self.int_number = r;

            let r = match self.int_number.checked_add(d) {
                Some(r) => r,
                None => {
                    return None;
                },
            };
            self.int_number = r;
            self.skip_char();
        }

        Some(())
    }

    /// Reads the inside of a quoted literal into `string`, up to the
    /// delimiter or the end of the input; `None` at an escape that cannot be
    /// resolved.
    pub fn parse_string(&mut self, delim: u8) -> (r: Option<()>)
        requires
            old(self).wf(),
        ensures
            final(self).input == old(self).input,
            final(self).wf(),
            ({
                let end = string_end(
                    old(self).input@,
                    old(self).parse_point,
                    old(self).string@,
                    delim,
                );
                &&& r is Some == end.ok
                &&& final(self)@ == (LexerState { point: end.point, string: end.string, ..old(self)@ })
            }),
    {
        loop
            invariant_except_break
                string_end(self.input@, self.parse_point, self.string@, delim) == string_end(
                    old(self).input@,
                    old(self).parse_point,
                    old(self).string@,
                    delim,
                ),
            invariant
                self.wf(),
                self.input == old(self).input,
                self@ == (LexerState {
                    point: self.parse_point,
                    string: self.string@,
                    ..old(self)@
                }),
            ensures
                self.wf(),
                self.input == old(self).input,
                self@ == (LexerState {
                    point: self.parse_point,
                    string: self.string@,
                    ..old(self)@
                }),
                string_end(old(self).input@, old(self).parse_point, old(self).string@, delim) == (
                StringEnd { ok: true, point: self.parse_point, string: self.string@ }),
            decreases self.input@.len() - self.parse_point.position,
        {
            let x = match self.peek_char() {
                Some(x) => x,
                None => {
                    break ;
                },
            };
            if x == BACKSLASH {
                self.skip_char();
                let x = match self.peek_char() {
                    Some(x) => x,
                    None => {
                        return None;
                    },
                };
                let c: u8 = if x == 48 {
                    0
                } else if x == 110 {
                    10
                } else if x == 116 {
                    9
                } else if x == 114 {
                    13
                } else if x == delim {
                    delim
                } else if x == BACKSLASH {
                    BACKSLASH
                } else {
                    return None;
                };

                self.string.push(c);
                self.skip_char();
            } else if x == delim {
                break ;
            } else {
                self.string.push(x);
                self.skip_char();
            }
        }

        Some(())
    }

    /// Reads the digits of an integer literal that started at `start`.
    fn lex_number(&mut self, start: ParsePoint, radix: Radix) -> (t: Token)
        requires
            old(self).wf(),
        ensures
            final(self).input == old(self).input,
            final(self).wf(),
            (t, final(self)@) == number_token(
                old(self).input@,
                old(self)@,
                start,
                old(self).parse_point,
                radix.spec_value(),
            ),
    {
        self.int_number = 0;
        match self.parse_number(radix) {
            None => Token::new(
                TokenKind::ParseError,
                Span {
                    line: self.parse_point.line_number,
                    start: self.parse_point.position,
                    end: self.parse_point.position,
                },
            ),
            Some(_) => {
                self.int_number = 0;
                Token::new(
                    TokenKind::IntLit,
                    Span {
                        line: self.parse_point.line_number,
                        start: start.position,
                        end: self.parse_point.position,
                    },
                )
            },
        }
    }

    /// Reads the quoted literal whose opening delimiter stands at the place
    /// of the lexer.
    fn lex_quoted(&mut self, delim: u8) -> (t: Token)
        requires
            old(self).wf(),
            old(self).parse_point.position < old(self).input@.len(),
        ensures
            final(self).input == old(self).input,
            final(self).wf(),
            (t, final(self)@) == quoted_token(
                old(self).input@,
                old(self)@,
                old(self).parse_point,
                delim,
            ),
    {
        let saved_position = self.parse_point.position;
        self.skip_char();
        self.string.clear();
        let closed = self.parse_string(delim).is_some();
        if !closed || self.is_eof() {
            return Token::new(
                TokenKind::ParseError,
                Span {
                    line: self.parse_point.line_number,
                    start: self.parse_point.position,
                    end: self.parse_point.position,
                },
            );
        }
        self.skip_char();

        if delim == DOUBLE_QUOTE {
            return Token::new(
                TokenKind::String,
                Span {
                    line: self.parse_point.line_number,
                    start: saved_position,
                    end: self.parse_point.position,
                },
            );
        }
        if self.string.len() != 1 {
            return Token::new(
                TokenKind::ParseError,
                Span {
                    line: self.parse_point.line_number,
                    start: self.parse_point.position,
                    end: self.parse_point.position,
                },
            );
        }
        self.char_lit = self.string[0];

        Token::new(
            TokenKind::CharLit,
            Span {
                line: self.parse_point.line_number,
                start: saved_position,
                end: self.parse_point.position,
            },
        )
    }

    /// Reads the next token. At the end of the input it gives the token
    /// `EOF` and notes that it did.
    pub fn next_token(&mut self) -> (t: Token)
        requires
            old(self).wf(),
        ensures
            final(self).input == old(self).input,
            final(self).wf(),
            (t, final(self)@) == spec_next_token(old(self).input@, old(self)@),
    {
        loop
            invariant_except_break
                after_trivia(self.input@, self.parse_point) == after_trivia(
                    old(self).input@,
                    old(self).parse_point,
                ),
            invariant
                self.wf(),
                self.input == old(self).input,
                self@ == old(self)@.at(self.parse_point),
            ensures
                self.parse_point == after_trivia(old(self).input@, old(self).parse_point),
            decreases self.input@.len() - self.parse_point.position,
        {
            let ghost before = self.parse_point;
            self.skip_whitespaces();

            // This is the comment prefix so we skip everything starting at this point
            if self.skip_prefix("<(-.-)>") {
                self.skip_until("\n");
                proof {
                    lemma_comment_moves(self.input@, before);
                }
                continue ;
            }
            break ;
        }

        let start = self.parse_point;
        let x = match self.peek_char() {
            Some(x) => x,
            None => {
                self.has_eof = true;
                return Token::new(
                    TokenKind::EOF,
                    Span {
                        start: self.parse_point.position,
                        end: self.parse_point.position,
                        line: self.parse_point.line_number,
                    },
                );
            },
        };

        // Check if we have a punctuation, a keyword or the name of a type
        let mut i: usize = 0;
        while i < rules::PHRASES_LEN
            invariant
                i <= rules::PHRASES_LEN,
                rules::phrases().len() == rules::PHRASES_LEN,
                start == after_trivia(old(self).input@, old(self).parse_point),
                start.position < self.input@.len(),
                old(self).wf(),
                self.wf(),
                self.input == old(self).input,
                self@ == old(self)@.at(start),
                first_match(self.input@, start.position as int, rules::phrases(), 0) == first_match(
                    self.input@,
                    start.position as int,
                    rules::phrases(),
                    i as int,
                ),
            decreases rules::PHRASES_LEN - i,
        {
            let (prefix, kind) = rules::phrase(i);
            if self.skip_prefix(prefix) {
                proof {
                    assert(first_match(
                        self.input@,
                        start.position as int,
                        rules::phrases(),
                        i as int,
                    ) == Some(i as int));
                }
                return Token::new(
                    kind,
                    Span {
                        start: start.position,
                        end: self.parse_point.position,
                        line: self.parse_point.line_number,
                    },
                );
            }
            i += 1;
        }

        // Check if we have an identifier
        if is_identifier_start(x) {
            loop
                invariant_except_break
                    after_identifier(self.input@, self.parse_point) == after_identifier(
                        self.input@,
                        start,
                    ),
                invariant
                    self.wf(),
                    self.input == old(self).input,
                    self@ == old(self)@.at(self.parse_point),
                ensures
                    self.parse_point == after_identifier(self.input@, start),
                decreases self.input@.len() - self.parse_point.position,
            {
                match self.peek_char() {
                    Some(x) => {
                        if is_identifier(x) {
                            self.skip_char();
                        } else {
                            break ;
                        }
                    },
                    None => {
                        break ;
                    },
                }
            }

            return Token::new(
                TokenKind::ID,
                Span {
                    line: self.parse_point.line_number,
                    start: start.position,
                    end: self.parse_point.position,
                },
            );
        }

        // Check if we have a number
        if self.skip_prefix("0x") {
            return self.lex_number(start, Radix::Hex);
        }
        if self.skip_prefix("0") {
            return self.lex_number(start, Radix::Oct);
        }
        if to_digit(x, 10).is_some() {
            return self.lex_number(start, Radix::Dec);
        }

        // Check if we have a string or a character
        if x == DOUBLE_QUOTE || x == SINGLE_QUOTE {
            return self.lex_quoted(x);
        }

        self.skip_char();
        Token::new(
            TokenKind::ParseError,
            Span {
                line: self.parse_point.line_number,
                start: self.parse_point.position,
                end: self.parse_point.position,
            },
        )
    }

    /// The next token, as long as `EOF` has not been given out.
    pub fn next(&mut self) -> (r: Option<Token>)
        requires
            old(self).wf(),
        ensures
            final(self).input == old(self).input,
            final(self).wf(),
            old(self).has_eof ==> r is None && final(self)@ == old(self)@,
            !old(self).has_eof ==> r is Some && (r->0, final(self)@) == spec_next_token(
                old(self).input@,
                old(self)@,
            ),
    {
        if self.has_eof {
            None
        } else {
            Some(self.next_token())
        }
    }

    /// All tokens that are left, up to and with `EOF`.
    pub fn tokenize(&mut self) -> (tokens: Vec<Token>)
        requires
            old(self).wf(),
        ensures
            final(self).input == old(self).input,
            final(self).wf(),
            final(self).has_eof,
            tokens@ == tokens_from(old(self).input@, old(self)@),
    {
        let mut tokens: Vec<Token> = Vec::new();
        while !self.has_eof
            invariant
                self.wf(),
                self.input == old(self).input,
                tokens@ + tokens_from(self.input@, self@) == tokens_from(
                    old(self).input@,
                    old(self)@,
                ),
            decreases
                    self.input@.len() - self.parse_point.position,
                    (if self.has_eof {
                        0nat
                    } else {
                        1nat
                    }),
        {
            proof {
                lemma_next_token_moves(self.input@, self@);
            }
            let ghost before = self@;
            let ghost taken = tokens@;
            let t = self.next_token();
            tokens.push(t);
            assert(tokens@ + tokens_from(self.input@, self@) =~= taken + tokens_from(
                self.input@,
                before,
            ));
        }
        assert(tokens@ + tokens_from(self.input@, self@) =~= tokens@);
        tokens
    }
}

} // verus!
