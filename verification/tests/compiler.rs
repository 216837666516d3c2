use hsl::codegen::build_codegen;
use hsl::codegen::Codegen;
use hsl::compiler::{build_program_path, CompileError, Compiler};
use hsl::flags::{ends_like_source, Flags, HelpString};
use hsl::ir::Program;
use hsl::parser::slt::{Builder, NavigableSlt};
use hsl::parser::Parser;
use hsl::semantic::{resolved, validate};
use hsl::target::Target;

fn flags(target: Option<&str>) -> Flags {
    Flags::deduce(
        "hsl",
        Some("aarch64-darwin".to_string()),
        None,
        target.map(|t| t.to_string()),
        false,
        true,
        &vec!["main.hsl".to_string(), "notes.txt".to_string(), "lib.hsl".to_string()],
    )
}

fn compiler() -> Compiler {
    Compiler::new(
        flags(None),
        "main".to_string(),
        ".build/main.o".to_string(),
        ".build/main.s".to_string(),
    )
    .unwrap()
}

#[test]
fn the_flags_keep_the_source_files() {
    let f = flags(None);
    assert_eq!(f.source_files, vec!["main.hsl", "lib.hsl"]);
    assert_eq!(f.target_name.as_deref(), Some("aarch64-darwin"));
    assert_eq!(f.program_path, "hsl");
    assert!(f.quiet);
    assert!(!f.run);
    assert_eq!(flags(Some("x86")).target_name.as_deref(), Some("x86"));
    assert!(ends_like_source("a.hsl"));
    assert!(ends_like_source(".hsl"));
    assert!(!ends_like_source("a.hs"));
    assert!(!ends_like_source("hsl"));
    assert!(!ends_like_source("a.hsl.txt"));
}

#[test]
fn the_help_text() {
    assert!(HelpString::deduce("hsl", 0).is_none());
    let help = HelpString::deduce("hsl", 2).unwrap();
    assert_eq!(
        help.to_string(),
        "USAGE:\n    hsl [OPTIONS] [...]\n\nOPTIONS:\n    -h, --help      show this message!\n    -o, --output    the path to the output file to produce\n    -t, --target    the targeted architecture\n    -r, --run       run the program after compilation\n    -q, --quiet     quiet the steps of compilation and run\n"
    );
    assert_eq!(flags(None).help_string().to_string(), help.to_string());
}

#[test]
fn targets() {
    assert_eq!(Target::by_name("aarch64-darwin"), Some(Target::AArch64Darwin));
    assert_eq!(Target::by_name("aarch64"), None);
    assert_eq!(Target::by_name(""), None);
    assert_eq!(Target::AArch64Darwin.name(), "aarch64-darwin");
    assert_eq!(Target::AArch64Darwin.file_ext(), "");
}

#[test]
fn a_compiler_needs_a_target_that_is_known() {
    assert!(Compiler::new(
        flags(Some("x86")),
        "a".to_string(),
        "a.o".to_string(),
        "a.s".to_string()
    )
    .is_none());
    let mut c = compiler();
    assert_eq!(c.target, Target::AArch64Darwin);
    assert!(c.program.func.is_empty());
    c.program_mut().func.clear();
    assert_eq!(c.output_path, ".build/main.s");
}

#[test]
fn program_paths() {
    let t = Target::AArch64Darwin;
    assert_eq!(build_program_path(Some("out"), "src/main.hsl", t), "out");
    assert_eq!(build_program_path(Some("out.bin"), "src/main.hsl", t), "out.bin");
    assert_eq!(build_program_path(None, "src/main.hsl", t), "src/main");
    assert_eq!(build_program_path(None, "main", t), "main");
}

#[test]
fn the_source_files_are_visited_up_to_the_first_failure() {
    let mut c = compiler();
    let seen = std::cell::RefCell::new(Vec::new());
    let r: Result<(), String> = c.try_for_each_source_files(|f: &String| {
        seen.borrow_mut().push(f.clone());
        Ok(())
    });
    assert_eq!(r, Ok(()));
    assert_eq!(*seen.borrow(), vec!["main.hsl", "lib.hsl"]);

    seen.borrow_mut().clear();
    let r: Result<(), String> = c.try_for_each_source_files(|f: &String| {
        seen.borrow_mut().push(f.clone());
        Err(format!("cannot read {f}"))
    });
    assert_eq!(r, Err("cannot read main.hsl".to_string()));
    assert_eq!(*seen.borrow(), vec!["main.hsl"]);
    assert_eq!(c.flags.source_files, vec!["main.hsl", "lib.hsl"]);
}

const HELLO: &str = r#"
    Hypersignal puts Holotext Jamsignal
    A long time ago in a galaxy far, far away...
        Execute order puts "hello" Order executed
    May the force be with you.
"#;

#[test]
fn sources_are_compiled_to_assembly() {
    let mut c = compiler();
    let out = c.compile(&vec![HELLO.to_string()]).unwrap();
    let text = String::from_utf8(out).unwrap();
    assert!(text.starts_with(".global _main\n.p2align 4\n_main:\n"));
    assert!(text.contains("\n.global _galaxy\n.p2align 4\n_galaxy:\n"));
    assert!(text.contains("    mov x0, x8\n"));
    assert!(text.contains("    bl _puts\n"));
    assert!(text.ends_with(".data\n    __lit_1:\n        .asciz \"hello\"\n"));
    assert_eq!(c.program.func.len(), 1);
    assert_eq!(c.program.extrn.len(), 1);

    // the same through the parts
    let mut builder = Builder::new();
    let mut root = builder.region();
    let mut program = Program::new();
    let mut parser = Parser::new(HELLO);
    assert_eq!(parser.parse(&mut program, &mut builder, &mut root), Some(()));
    let nav = NavigableSlt::root(&root);
    assert!(resolved(&program, &nav));
    assert_eq!(validate(&program, &nav), 0);
    let other = compiler();
    let mut codegen = build_codegen(&other);
    let mut childs = nav.childs();
    Codegen::generate_program(&mut codegen, &program, &nav, &mut childs);
    assert_eq!(String::from_utf8(codegen.output().clone()).unwrap(), text);
}

#[test]
fn several_files_make_one_program() {
    let mut c = compiler();
    let first = "Hypersignal puts Holotext Jamsignal".to_string();
    let second = r#"
        A long time ago in a galaxy far, far away...
            Execute order puts "hello" Order executed
        May the force be with you.
    "#
    .to_string();
    let split = c.compile(&vec![first, second]).unwrap();
    let mut whole = compiler();
    assert_eq!(split, whole.compile(&vec![HELLO.to_string()]).unwrap());
}

#[test]
fn errors_are_counted_over_all_files() {
    let mut c = compiler();
    let broken = "A long time ago in a galaxy far, far away... 12".to_string();
    let twice = r#"
        A long time ago in a other far, far away...
            I am a big deal in the resistance. x Who, mesa ? 5
            I am a big deal in the resistance. x Who, mesa ? 6
        May the force be with you.
    "#
    .to_string();
    assert_eq!(c.compile(&vec![broken.clone()]), Err(CompileError::Errors(1)));
    let mut c = compiler();
    assert_eq!(c.compile(&vec![twice.clone()]), Err(CompileError::Errors(1)));
    let mut c = compiler();
    assert_eq!(c.compile(&vec![broken, twice]), Err(CompileError::Errors(2)));
}

#[test]
fn a_name_that_is_not_declared_is_not_resolved() {
    // among the fixed arguments of a call it has no type: an error
    let mut c = compiler();
    let source = r#"
        Hypersignal puts Holotext Jamsignal
        A long time ago in a galaxy far, far away...
            Execute order puts nothing Order executed
        May the force be with you.
    "#;
    assert_eq!(c.compile(&vec![source.to_string()]), Err(CompileError::Errors(1)));
    // elsewhere no check of the calls meets it
    let mut c = compiler();
    let source = r#"
        Hypersignal printf Starfield 1 Holotext Jamsignal
        A long time ago in a galaxy far, far away...
            Execute order printf "%d" nothing Order executed
        May the force be with you.
    "#;
    assert_eq!(c.compile(&vec![source.to_string()]), Err(CompileError::Unresolved));
    // a function that is not declared, and a declaration twice
    let mut c = compiler();
    let source = r#"
        A long time ago in a galaxy far, far away...
            I am a big deal in the resistance. x Who, mesa ? 5
            I am a big deal in the resistance. x Who, mesa ? 6
            Execute order nothing x Order executed
        May the force be with you.
    "#;
    assert_eq!(c.compile(&vec![source.to_string()]), Err(CompileError::Errors(2)));
    let mut c = compiler();
    assert_eq!(
        c.compile(&vec![]).map(|out| String::from_utf8(out).unwrap()),
        Ok(".global _main\n.p2align 4\n_main:\n    // load link register and previous stack pointer onto the stack\n    stp x29, lr, [sp, -0x10]!\n    mov x29, sp\n\n    // jump to the main function\n    bl _galaxy\n\n    // load return address and previous stack pointer\n    ldp x29, lr, [sp], 0x10\n    mov x0, #0\n    ret\n\n.data\n".to_string())
    );
}

#[test]
fn calls_are_checked_against_their_functions() {
    let check = |source: &str| {
        let mut builder = Builder::new();
        let mut root = builder.region();
        let mut program = Program::new();
        let mut parser = Parser::new(source);
        assert_eq!(parser.parse(&mut program, &mut builder, &mut root), Some(()));
        let nav = NavigableSlt::root(&root);
        validate(&program, &nav)
    };
    let declarations = "Hypersignal printf Starfield 1 Holotext Jamsignal Hypersignal two Credit Signal Jamsignal";
    let body = |calls: &str| {
        format!(
            "{declarations} A long time ago in a galaxy far, far away... I am a big deal in the resistance. n Who, mesa ? 1 {calls} May the force be with you."
        )
    };
    assert_eq!(check(&body("Execute order printf \"%d\" n Order executed")), 0);
    assert_eq!(check(&body("Execute order two 1 That's impossible! Order executed")), 0);
    // a function that is not declared
    assert_eq!(check(&body("Execute order three Order executed")), 1);
    // too few arguments
    assert_eq!(check(&body("Execute order two 1 Order executed")), 1);
    assert_eq!(check(&body("Execute order printf Order executed")), 1);
    // both arguments of the wrong type
    assert_eq!(check(&body("Execute order two \"a\" 2 Order executed")), 2);
    // a variable that is not declared has no type
    assert_eq!(check(&body("Execute order two m That's impossible! Order executed")), 1);
    // the variadic arguments are not checked
    assert_eq!(check(&body("Execute order printf \"a\" m 3 Order executed")), 0);
    // errors add up over statements
    assert_eq!(
        check(&body(
            "Execute order three Order executed Execute order two 1 Order executed"
        )),
        2
    );
}
