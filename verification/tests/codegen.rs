use hsl::codegen::aarch64::{partition, register_limit_of, stack_bytes, Codegen};
use hsl::command::Cmd;
use hsl::compiler::Compiler;
use hsl::flags::Flags;
use hsl::ir::{Expr, Fn, Lit, Op, Program, Stmt, Type, InnerType, Unop};
use hsl::lexer::token::Span;
use hsl::parser::slt::{Builder, NavigableSlt, SymbolLookupTable, Value, Variable};
use hsl::parser::Parser;

fn compiler() -> Compiler {
    let flags = Flags {
        program_path: "hsl".to_string(),
        output_path: None,
        source_files: vec!["main.hsl".to_string()],
        target_name: Some("aarch64-darwin".to_string()),
        quiet: true,
        run: false,
    };
    Compiler::new(
        flags,
        "main".to_string(),
        ".build/main.o".to_string(),
        ".build/main.s".to_string(),
    )
    .unwrap()
}

fn compile(source: &str) -> String {
    let mut builder = Builder::new();
    let mut root = builder.region();
    let mut program = Program::new();
    let mut parser = Parser::new(source);
    assert_eq!(parser.parse(&mut program, &mut builder, &mut root), Some(()));
    assert_eq!(parser.err_cpt, 0);
    generate(&program, &root)
}

fn generate(program: &Program, root: &SymbolLookupTable) -> String {
    let c = compiler();
    let nav = NavigableSlt::root(root);
    let mut childs = nav.childs();
    let mut codegen = Codegen::new(&c);
    codegen.generate_program(program, &nav, &mut childs);
    String::from_utf8(codegen.output().clone()).unwrap()
}

const ENTRY: &str = ".global _main
.p2align 4
_main:
    // load link register and previous stack pointer onto the stack
    stp x29, lr, [sp, -0x10]!
    mov x29, sp

    // jump to the main function
    bl _galaxy

    // load return address and previous stack pointer
    ldp x29, lr, [sp], 0x10
    mov x0, #0
    ret

";

#[test]
fn one_variable_and_a_variadic_call() {
    let source = r#"
        Hypersignal printf Starfield 1 Holotext Jamsignal
        A long time ago in a galaxy far, far away...
            I am a big deal in the resistance. x Who, mesa ? 5
            Execute order printf "%d %d" x 7 Order executed
        May the force be with you.
    "#;
    let expected = format!(
        "{}{}",
        ENTRY,
        r#".global _galaxy
.p2align 4
_galaxy:
    // load link register and previous stack pointer onto the stack
    stp x29, lr, [sp, -0x10]!
    mov x29, sp

    // core galaxy function
    // allocate needed stack space for galaxy arguments
    add sp, sp, -0x10

    // load galaxy arguments onto the stack

    // pushing variable x to x8
    mov x8, #5

    // pushing x8 (variable x to the stack)
    str x8, [x29, -0x8]

    // calling printf function
    // load printf arguments onto the associated registers

    // pushing variable __lit_1 to x8
    adrp x8, __lit_1@PAGE
    add x8, x8, __lit_1@PAGEOFF

    // load fn arguments onto x0
    mov x0, x8

    // allocate needed stack space for printf arguments
    str x8, [sp, -0x10]!

    mov x9, x29

    // load var x into x8
    ldr x8, [x9, -0x8]

    // load x8 onto the stack
    str x8, [sp, 0x0]

    // pushing variable __lit_2 to x8
    mov x8, #7

    // load x8 onto the stack
    str x8, [sp, 0x8]

    // jump to the function
    bl _printf

    // pop from the stack the printf function arguments
    add sp, sp, 0x10

    // pop the stack (deallocating 1 variables)
    add sp, sp, 0x10

    // load return address and previous stack pointer
    ldp x29, lr, [sp], 0x10
    ret

.data
    __lit_1:
        .asciz "%d %d"
"#
    );
    assert_eq!(compile(source), expected);
}

#[test]
fn the_same_input_gives_the_same_output() {
    let source = r#"
        Hypersignal puts Holotext Jamsignal
        A long time ago in a galaxy far, far away...
            The force is strong with this one. s I am your father. "hello"
            Execute order puts s Order executed
            Execute order puts "hello" Order executed
        May the force be with you.
    "#;
    let mut builder = Builder::new();
    let mut root = builder.region();
    let mut program = Program::new();
    let mut parser = Parser::new(source);
    assert_eq!(parser.parse(&mut program, &mut builder, &mut root), Some(()));
    let first = generate(&program, &root);
    let second = generate(&program, &root);
    assert_eq!(first, second);
    assert_eq!(first, compile(source));
}

#[test]
fn a_string_literal_is_kept_once() {
    let source = r#"
        Hypersignal puts Holotext Jamsignal
        A long time ago in a galaxy far, far away...
            Execute order puts "hello" Order executed
            Execute order puts "world" Order executed
            Execute order puts "hello" Order executed
        May the force be with you.
    "#;
    let out = compile(source);
    assert_eq!(out.matches(".asciz").count(), 2);
    assert_eq!(out.matches(".asciz \"hello\"").count(), 1);
    assert_eq!(out.matches(".asciz \"world\"").count(), 1);
    // the third call addresses the literal of the first
    assert_eq!(out.matches("adrp x8, __lit_1@PAGE").count(), 2);
    assert!(out.ends_with(
        ".data\n    __lit_1:\n        .asciz \"hello\"\n    __lit_2:\n        .asciz \"world\"\n"
    ));
}

#[test]
fn a_function_without_variables_has_no_frame() {
    let source = r#"
        A long time ago in a galaxy far, far away...
        May the force be with you.
    "#;
    let expected = format!(
        "{}{}",
        ENTRY,
        ".global _galaxy\n.p2align 4\n_galaxy:\n    // load link register and previous stack pointer onto the stack\n    stp x29, lr, [sp, -0x10]!\n    mov x29, sp\n\n    // load return address and previous stack pointer\n    ldp x29, lr, [sp], 0x10\n    ret\n\n.data\n"
    );
    assert_eq!(compile(source), expected);
}

#[test]
fn parameters_are_stored_to_their_slots() {
    let source = r#"
        A long time ago in a galaxy far, far away...
        Cargo
            Credit a Credit b Credit c Credit d Credit e
            Credit f Credit g Credit h Credit i
        UnloadCargo
        May the force be with you.
    "#;
    let out = compile(source);
    // nine slots of eight bytes: 72, rounded up to 80
    assert!(out.contains("    add sp, sp, -0x50\n"));
    assert!(out.contains("    // pop the stack (deallocating 9 variables)\n    add sp, sp, 0x50\n"));
    // seven parameters come in registers
    for i in 0..7 {
        assert!(out.contains(&format!("    str x{}, [x29, -{:#x}]\n", i, (i + 1) * 8)));
    }
    assert!(!out.contains("    str x7, "));
    // two come on the stack, above the frame record
    assert!(out.contains("    ldr x8, [x29, 0x10]\n    str x8, [x29, -0x40]\n"));
    assert!(out.contains("    ldr x8, [x29, 0x18]\n    str x8, [x29, -0x48]\n"));
}

fn variable(id: &str, offset: i32, scope: u32) -> (Variable, Span) {
    (
        Variable {
            id: id.as_bytes().to_vec(),
            ty: Type::Val(InnerType::Int),
            value: Value::Int(0),
            offset,
            scope,
        },
        Span { start: 0, end: 0, line: 0 },
    )
}

fn table(scope: u32, region: u32, variables: Vec<(Variable, Span)>) -> SymbolLookupTable {
    SymbolLookupTable {
        offset: variables.len() as i32,
        variables,
        funcs: Vec::new(),
        region,
        scope,
        children: Vec::new(),
    }
}

#[test]
fn a_variable_of_an_outer_scope_is_reached_by_climbing() {
    // depth 0 declares `far`, depth 1 `near`, depth 2 nothing
    let outer = table(0, 0, vec![variable("far", 1, 0)]);
    let middle = table(1, 1, vec![variable("near", 1, 1)]);
    let inner = table(2, 2, vec![]);
    let nav_outer = NavigableSlt::root(&outer);
    let nav_middle = NavigableSlt { slt: &middle, parent: Some(&nav_outer) };
    let nav_inner = NavigableSlt { slt: &inner, parent: Some(&nav_middle) };

    let c = compiler();
    let read = |id: &str, nav: &NavigableSlt| {
        let mut codegen = Codegen::new(&c);
        codegen.generate_arg(&Expr::ID(id.as_bytes().to_vec()), nav);
        String::from_utf8(codegen.output().clone()).unwrap()
    };

    assert_eq!(
        read("near", &nav_middle),
        "    mov x9, x29\n\n    // load var near into x8\n    ldr x8, [x9, -0x8]\n\n"
    );
    assert_eq!(
        read("near", &nav_inner),
        "    mov x9, x29\n    // climb up the stack calls to get to near scope\n    ldr x9, [x9]\n\n    // load var near into x8\n    ldr x8, [x9, -0x8]\n\n"
    );
    let far = read("far", &nav_inner);
    assert_eq!(far.matches("    ldr x9, [x9]\n").count(), 2);
    assert_eq!(
        far,
        "    mov x9, x29\n    // climb up the stack calls to get to far scope\n    ldr x9, [x9]\n    ldr x9, [x9]\n\n    // load var far into x8\n    ldr x8, [x9, -0x8]\n\n"
    );
}

#[test]
fn an_assignment_applies_its_steps_from_left_to_right() {
    let scope = table(0, 0, vec![variable("n", 1, 0)]);
    let nav = NavigableSlt::root(&scope);
    let c = compiler();
    let mut codegen = Codegen::new(&c);
    let ops = vec![
        Unop { op: Op::Eq, value: Expr::Lit(Lit::Int(4)) },
        Unop { op: Op::Add, value: Expr::Lit(Lit::Int(3)) },
        Unop { op: Op::Mod, value: Expr::Lit(Lit::Int(-2)) },
    ];
    codegen.generate_stmt(&Stmt::Assign { id: b"n".to_vec(), ops }, &nav);
    let out = String::from_utf8(codegen.output().clone()).unwrap();
    assert_eq!(
        out,
        "    // start operations on n\n    mov x9, x29\n\n    // load var n into x8\n    ldr x8, [x9, -0x8]\n\n    // pushing variable __lit_1 to x8\n    mov x8, #4\n\n    str x8, [sp, -0x10]!\n    // pushing variable __lit_2 to x8\n    mov x8, #3\n\n    ldr x10, [sp], 0x10\n    add x8, x10, x8\n    str x8, [sp, -0x10]!\n    // pushing variable __lit_3 to x8\n    mov x8, #-2\n\n    ldr x10, [sp], 0x10\n    udiv x11, x10, x8\n    msub x8, x11, x8, x10\n    // end operations on n\n    mov x9, x29\n\n    str x8, [x9, -0x8]\n\n"
    );
}

#[test]
fn booleans_are_immediates() {
    let scope = table(0, 0, vec![]);
    let nav = NavigableSlt::root(&scope);
    let c = compiler();
    let mut codegen = Codegen::new(&c);
    codegen.generate_arg(&Expr::Lit(Lit::Bool(true)), &nav);
    codegen.generate_arg(&Expr::Lit(Lit::Bool(false)), &nav);
    assert_eq!(
        String::from_utf8(codegen.output().clone()).unwrap(),
        "    // pushing variable __lit_1 to x8\n    mov x8, #1\n\n    // pushing variable __lit_2 to x8\n    mov x8, #0\n\n"
    );
}

#[test]
fn a_call_takes_its_result_from_x0() {
    let scope = table(0, 0, vec![]);
    let nav = NavigableSlt::root(&scope);
    let c = compiler();
    let mut codegen = Codegen::new(&c);
    codegen.generate_arg(&Expr::FnCall { id: b"f".to_vec(), args: vec![] }, &nav);
    assert_eq!(
        String::from_utf8(codegen.output().clone()).unwrap(),
        "    // calling f function\n    // jump to the function\n    bl _f\n\n    mov x8, x0\n"
    );
}

#[test]
fn stack_sizes() {
    assert_eq!(stack_bytes(0), 0);
    assert_eq!(stack_bytes(1), 16);
    assert_eq!(stack_bytes(2), 16);
    assert_eq!(stack_bytes(3), 32);
    assert_eq!(stack_bytes(9), 80);
}

#[test]
fn partitions() {
    assert_eq!(register_limit_of(None), 7);
    assert_eq!(register_limit_of(Some(1)), 1);
    assert_eq!(register_limit_of(Some(7)), 7);
    assert_eq!(register_limit_of(Some(12)), 7);

    let p = partition(1, 3);
    assert_eq!((p.registers, p.stack, p.slab), (1, 2, 16));
    let p = partition(7, 3);
    assert_eq!((p.registers, p.stack, p.slab), (3, 0, 0));
    let p = partition(7, 10);
    assert_eq!((p.registers, p.stack, p.slab), (7, 3, 32));
    let p = partition(0, 1);
    assert_eq!((p.registers, p.stack, p.slab), (0, 1, 16));
    // more fixed parameters declared than arguments passed
    let p = partition(3, 2);
    assert_eq!((p.registers, p.stack, p.slab), (2, 0, 0));
}

#[test]
fn the_tools_are_called_with_the_paths_of_the_compiler() {
    let c = compiler();
    let codegen = Codegen::new(&c);
    let mut cmd = Cmd::new(true);
    codegen.assembler_command(&mut cmd);
    assert_eq!(cmd.inner, vec!["as", "-o", ".build/main.o", ".build/main.s"]);
    assert_eq!(cmd.line(), "as -o .build/main.o .build/main.s");
    cmd.reset();
    assert!(!cmd.is_complete());
    codegen.linker_command(&mut cmd);
    assert_eq!(
        cmd.inner,
        vec!["cc", "-arch", "arm64", "-o", "main", ".build/main.o"]
    );
}

#[test]
fn a_fn_of_the_program_gets_its_signature() {
    let f = Fn {
        id: b"f".to_vec(),
        stmts: vec![],
        variadic: None,
        args: vec![(b"a".to_vec(), Type::Val(InnerType::Str))],
    };
    let signature = hsl::parser::slt::Fn::from_fn(&f);
    assert_eq!(signature.id, b"f".to_vec());
    assert_eq!(signature.ty, Type::Void);
    assert_eq!(signature.args, vec![Type::Val(InnerType::Str)]);
    assert_eq!(signature.variadic, None);
}
