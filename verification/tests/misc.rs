use hsl::codegen::error as codegen_error;
use hsl::command::error as command_error;
use hsl::command::Cmd;
use hsl::ir::{InnerType, Op, Type};
use hsl::lexer::token::TokenKind;
use hsl::log::{LogLevel, Logger, Record};
use hsl::text::{parse_decimal, push_dec, push_hex, push_int, push_signed_hex};

fn record(level: LogLevel, message: &str) -> Record {
    Record { level, message: message.to_string(), span: None }
}

#[test]
fn the_logger_keeps_what_is_at_or_above_its_threshold() {
    let mut logger = Logger::new(LogLevel::Warning);
    assert!(!logger.keeps(LogLevel::Info));
    assert!(logger.keeps(LogLevel::Warning));
    assert!(logger.keeps(LogLevel::Error));
    assert!(!logger.log(record(LogLevel::Info, "compiling")));
    assert!(logger.log(record(LogLevel::Error, "unable to read file")));
    assert!(logger.log(record(LogLevel::Warning, "careful")));
    assert_eq!(logger.records.len(), 2);
    assert_eq!(logger.records[0].line(), "[ERROR] unable to read file");
    assert_eq!(logger.records[1].line(), "[WARNING] careful");
    logger.set_threshold(LogLevel::Info);
    assert!(logger.log(record(LogLevel::Info, "compiling")));
    assert_eq!(logger.records[2].line(), "[INFO] compiling");
}

#[test]
fn command_lines() {
    let mut cmd = Cmd::new(false);
    assert!(!cmd.is_complete());
    assert_eq!(cmd.line(), "");
    cmd.append("as").append("-o").append("out.o");
    assert!(cmd.is_complete());
    assert_eq!(cmd.inner, vec!["as", "-o", "out.o"]);
    assert_eq!(cmd.line(), "as -o out.o");
    assert!(!cmd.quiet);
    cmd.reset();
    assert!(cmd.inner.is_empty());
}

#[test]
fn errors_are_shown_with_their_place() {
    let e = codegen_error::Error::new(
        codegen_error::ErrorKind::Io("disk full".to_string()),
        codegen_error::Location::new("aarch64.rs", 42),
    );
    assert_eq!(e.to_string(), "aarch64.rs:42 - io: disk full");

    let failed = command_error::Error::new(
        command_error::ErrorKind::CmdFailure { cmd: "as -o a.o a.s".to_string(), code: Some(1) },
        command_error::Location::new("command.rs", 7),
    );
    assert_eq!(
        failed.to_string(),
        "command.rs:7 - cmd failure: cmd `as -o a.o a.s` exited with status code `1`"
    );
    let killed = command_error::ErrorKind::CmdFailure { cmd: "cc".to_string(), code: None };
    assert_eq!(killed.to_string(), "cmd failure: process cc terminated by signal");
    let negative = command_error::ErrorKind::CmdFailure { cmd: "cc".to_string(), code: Some(-11) };
    assert_eq!(
        negative.to_string(),
        "cmd failure: cmd `cc` exited with status code `-11`"
    );
    assert_eq!(command_error::ErrorKind::EmptyCmd.to_string(), "cmd empty");
    assert_eq!(command_error::ErrorKind::Io("gone".to_string()).to_string(), "io: gone");
}

#[test]
fn types_are_shown_by_their_names() {
    assert_eq!(Type::Ptr(InnerType::Int).to_string(), "pointer(Credit)");
    assert_eq!(Type::Val(InnerType::Str).to_string(), "value(Holotext)");
    assert_eq!(Type::Val(InnerType::Bool).to_string(), "value(Signal)");
    assert_eq!(Type::Void.to_string(), "void");
    assert_eq!(InnerType::Bool.to_string(), "Signal");
}

#[test]
fn operators_of_tokens() {
    assert_eq!(Op::try_from(TokenKind::Plus), Some(Op::Add));
    assert_eq!(Op::try_from(TokenKind::Minus), Some(Op::Sub));
    assert_eq!(Op::try_from(TokenKind::Mul), Some(Op::Mul));
    assert_eq!(Op::try_from(TokenKind::Div), Some(Op::Div));
    assert_eq!(Op::try_from(TokenKind::Mod), Some(Op::Mod));
    assert_eq!(Op::try_from(TokenKind::Eq), Some(Op::Eq));
    assert_eq!(Op::try_from(TokenKind::Not), None);
    assert_eq!(hsl::parser::ast::Op::try_from(TokenKind::Eq), None);
    assert_eq!(
        hsl::parser::ast::Op::try_from(TokenKind::Mod),
        Some(hsl::parser::ast::Op::Mod)
    );
}

fn text(f: impl FnOnce(&mut Vec<u8>)) -> String {
    let mut out = Vec::new();
    f(&mut out);
    String::from_utf8(out).unwrap()
}

#[test]
fn numbers_as_text() {
    assert_eq!(text(|o| push_hex(o, 0)), "0x0");
    assert_eq!(text(|o| push_hex(o, 16)), "0x10");
    assert_eq!(text(|o| push_hex(o, 255)), format!("{:#02x}", 255));
    assert_eq!(text(|o| push_hex(o, 48879)), "0xbeef");
    assert_eq!(text(|o| push_hex(o, u128::MAX)), format!("{:#02x}", u128::MAX));
    assert_eq!(text(|o| push_dec(o, 0)), "0");
    assert_eq!(text(|o| push_dec(o, 1234567890)), "1234567890");
    assert_eq!(text(|o| push_int(o, -7)), "-7");
    assert_eq!(text(|o| push_int(o, i64::MIN)), i64::MIN.to_string());
    assert_eq!(text(|o| push_int(o, i64::MAX)), i64::MAX.to_string());
    assert_eq!(text(|o| push_signed_hex(o, -16)), "-0x10");
    assert_eq!(text(|o| push_signed_hex(o, 16)), "0x10");
}

#[test]
fn text_as_numbers() {
    assert_eq!(parse_decimal(b"0"), Some(0));
    assert_eq!(parse_decimal(b"007"), Some(7));
    assert_eq!(parse_decimal(b"18446744073709551615"), Some(u64::MAX));
    assert_eq!(parse_decimal(b"18446744073709551616"), None);
    assert_eq!(parse_decimal(b""), None);
    assert_eq!(parse_decimal(b"12a"), None);
    assert_eq!(parse_decimal(b"0x1F"), None);
    assert_eq!(parse_decimal(b"-1"), None);
}
