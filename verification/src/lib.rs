//! A small ahead-of-time compiler for a keyword-phrase scripting language that
//! targets AArch64 assembly for Darwin.
//!
//! A source text goes through the [`lexer`] and the [`parser`], which builds
//! the program ([`ir`]) and, in step with it, the symbol lookup table
//! ([`parser::slt`]): a tree of scopes that gives each variable its slot. The
//! generator ([`codegen::aarch64`]) walks the program with the table and
//! writes the assembly. [`compiler::Compiler::compile`] does all of this for
//! the texts of the source files of one run.
//!
//! [`assembler`] holds the generators for the syntax tree of the first form
//! of the language ([`parser::ast`]), which knows one block of statements,
//! prints and conditions.
//!
//! Every function carries a contract over the mathematical value of its
//! arguments, and is verified against it. The functions of the lexer, the
//! parser and the generators are specified by functions of the same name on
//! these values; what the specifications come to is stated and proved in the
//! lemmas next to them: that a scope reserves the smallest multiple of 16
//! bytes that holds its slots, that a variable is reached by as many loads
//! of the saved frame pointer as scopes lie between use and declaration,
//! that an inner declaration shadows an outer one, that a string literal is
//! kept once, and that the same input gives the same output.

pub mod arena;
pub mod assembler;
pub mod codegen;
pub mod command;
pub mod compiler;
pub mod flags;
pub mod fs;
pub mod ir;
pub mod lexer;
pub mod log;
pub mod math;
pub mod parser;
pub mod semantic;
pub mod target;
pub mod text;
