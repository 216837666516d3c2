use hsl::assembler::a64::{A64Compiler, Index};
use hsl::assembler::macos::MacOsARM;
use hsl::assembler::{evaluate, Compiler};
use hsl::parser::ast::{Expr, Item, Lit, Op, Stmt};
use hsl::parser::slt::{Builder, NavigableSlt, SymbolLookupTable};

fn ident(name: &str) -> Box<Expr> {
    Box::new(Expr::Ident(name.as_bytes().to_vec()))
}

fn program() -> Item {
    Item::Main {
        body: vec![
            Stmt::Let {
                var_name: b"a".to_vec(),
                value: Box::new(Expr::Literal(Lit::Int(5))),
            },
            Stmt::Print { value: ident("a") },
            Stmt::Assignment {
                var_name: ident("a"),
                initial_value: ident("a"),
                operations: vec![Expr::Op { op: Op::Add, value: Lit::Int(1) }],
            },
            Stmt::IfStmt {
                condition: ident("a"),
                body: vec![Stmt::Print {
                    value: Box::new(Expr::Literal(Lit::Str(b"yes".to_vec()))),
                }],
                else_stmt: None,
            },
        ],
    }
}

fn table(item: &Item) -> SymbolLookupTable {
    let mut builder = Builder::new();
    let mut root = builder.region();
    assert!(item.visit(&mut builder, &mut root));
    root
}

#[test]
fn the_visit_gives_each_block_a_scope() {
    let root = table(&program());
    assert_eq!(root.children.len(), 1);
    let main = &root.children[0];
    assert_eq!((main.region, main.scope), (1, 1));
    let a = main.get_variable(b"a").unwrap();
    assert_eq!((a.offset, a.scope), (1, 1));
    assert_eq!(main.children.len(), 1);
    assert_eq!((main.children[0].region, main.children[0].scope), (2, 2));
}

#[test]
fn a_program_with_a_condition() {
    let item = program();
    let root = table(&item);
    let nav = NavigableSlt::root(&root);
    let (r, out) = evaluate(vec![item], &nav, A64Compiler::new());
    assert_eq!(r, Ok(()));
    let expected = [
        ".global _start",
        ".align 2",
        "_start:",
        "\tstp x29, lr, [sp, -0x10]!",
        "\tmov x29, sp",
        "\t// Pushing variable a to the stack",
        "\tmov x8, 0x5",
        "\tstr x8, [sp, -0x10]!",
        "\tmov x9, x29",
        "\tldr x8, [x9, 0x1]",
        "\tstr x8, [sp, -0x10]!",
        "\tadrp x0, int_format@PAGE",
        "\tadd x0, x0, int_format@PAGEOFF",
        "\tbl _printf",
        "\tadd sp, sp, 0x10",
        "\t// Start operations",
        "\tldr x8, [x29, 0x1]",
        "\tadd x8, x8, 0x1",
        "\tstr x8, [x29, 0x1]",
        "\t// End operations",
        "\t// Load variable a",
        "\tmov x9, x29",
        "\tldr x8, [x9, 0x1]",
        "\tcmp x8, 0x0",
        "\tbne _if_else_2",
        "",
        "\t// Start of then block",
        "\tstp x29, lr, [sp, -0x10]!",
        "\tmov x29, sp",
        "\tadrp x8, _lit_2@PAGE",
        "\tadd x8, x8, _lit_2@PAGEOFF",
        "\tadrp x0, str_format@PAGE",
        "\tadd x0, x0, str_format@PAGEOFF",
        "\tstr x8, [sp, -0x10]!",
        "\tbl _printf",
        "\tadd sp, sp, 0x10",
        "",
        "\t// Unstack then block",
        "\tadd sp, sp, 0x0",
        "\tldp x29, lr, [sp], 0x10",
        "\tb _if_end_2",
        "",
        "_if_else_2:",
        "",
        "_if_end_2:",
        "\tadd sp, sp, 0x10",
        "\tldp x29, lr, [sp], 0x10",
        "",
        "\tmov     x0, #0",
        "\tmov     x16, #1",
        "\tsvc     0",
        ".data",
        "\tstr_format:      .asciz  \"%s\\n\"",
        "\tint_format:      .asciz  \"%d\\n\"",
        "\t_lit_2:      .asciz  \"yes\"",
        "",
    ]
    .join("\n");
    assert_eq!(String::from_utf8(out).unwrap(), expected);
}

#[test]
fn the_print_of_a_step_is_refused() {
    let item = Item::Main {
        body: vec![Stmt::Print {
            value: Box::new(Expr::Op { op: Op::Add, value: Lit::Int(1) }),
        }],
    };
    let root = table(&item);
    let nav = NavigableSlt::root(&root);
    let (r, out) = evaluate(vec![item], &nav, A64Compiler::new());
    assert_eq!(r, Err("Return not a value".to_string()));
    assert_eq!(
        String::from_utf8(out).unwrap(),
        ".global _start\n.align 2\n_start:\n\tstp x29, lr, [sp, -0x10]!\n\tmov x29, sp\n"
    );
}

#[test]
fn the_first_generator_moves_integers_in_decimal() {
    let item = Item::Main {
        body: vec![
            Stmt::Let {
                var_name: b"n".to_vec(),
                value: Box::new(Expr::Literal(Lit::NegInt(12))),
            },
            Stmt::Let {
                var_name: b"s".to_vec(),
                value: Box::new(Expr::Literal(Lit::Str(b"hi".to_vec()))),
            },
            Stmt::Print { value: ident("s") },
        ],
    };
    let root = table(&item);
    let nav = NavigableSlt::root(&root);
    let mut compiler = MacOsARM::new();
    let mut childs = nav.childs();
    assert_eq!(compiler.evaluate_item(&item, &nav, &mut childs), Ok(()));
    let out = String::from_utf8(compiler.finish()).unwrap();
    let expected = [
        ".global _start",
        ".align 2",
        "_start:",
        "\tstp x29, lr, [sp, -0x10]!",
        "\tmov x29, sp",
        "\t// Pushing variable n to the stack",
        "\tmov x8, #-12",
        "\tstr x8, [sp, -0x10]!",
        "\t// Pushing variable s to the stack",
        "\tadrp x8, s@PAGE",
        "\tadd x8, x8, s@PAGEOFF",
        "\tstr x8, [sp, -0x10]!",
        "\tldr x8, [x29, 0x2]",
        "\tstr x8, [sp, -0x10]!",
        "\tadrp x0, str_format@PAGE",
        "\tadd x0, x0, str_format@PAGEOFF",
        "\tbl _printf",
        "\tadd sp, sp, 0x10",
        "\tadd sp, sp, 0x20",
        "\tldp x29, lr, [sp], 0x10",
        "",
        "\tmov     x0, #0",
        "\tmov     x16, #1",
        "\tsvc     0",
        ".data",
        "\tstr_format:      .asciz  \"%s\\n\"",
        "\tint_format:      .asciz  \"%d\\n\"",
        "\ts:      .asciz  \"hi\"",
        "",
    ]
    .join("\n");
    assert_eq!(out, expected);
}

fn written(f: impl FnOnce(&mut A64Compiler)) -> String {
    let mut c = A64Compiler::new();
    f(&mut c);
    String::from_utf8(c.writer).unwrap()
}

#[test]
fn instructions() {
    assert_eq!(written(|c| c.mov(b"x8", b"#1")), "\tmov x8, #1\n");
    assert_eq!(written(|c| c.add(b"sp", b"sp", b"0x10")), "\tadd sp, sp, 0x10\n");
    assert_eq!(written(|c| c.sub(b"x8", b"x8", b"0x1")), "\tsub x8, x8, 0x1\n");
    assert_eq!(written(|c| c.mul(b"x8", b"x8", b"x9")), "\tmul x8, x8, x9\n");
    assert_eq!(written(|c| c.sdiv(b"x8", b"x8", b"x9")), "\tsdiv x8, x8, x9\n");
    assert_eq!(written(|c| c.udiv(b"x10", b"x8", b"x9")), "\tudiv x10, x8, x9\n");
    assert_eq!(
        written(|c| c.msub(b"x8", b"x10", b"x9", b"x8")),
        "\tmsub x8, x10, x9, x8\n"
    );
    assert_eq!(written(|c| c.comment(b"hello")), "\t// hello\n");
    assert_eq!(written(|c| c.skip_line()), "\n");
    assert_eq!(written(|c| c.b(b"end", b"ne")), "\tbne _end\n");
    assert_eq!(written(|c| c.b(b"end", b"")), "\tb _end\n");
    assert_eq!(written(|c| c.label(b"end")), "_end:\n");
    assert_eq!(written(|c| c.cmp(b"x8")), "\tcmp x8, 0x0\n");
    assert_eq!(
        written(|c| c.load_string(b"name", b"x0")),
        "\tadrp x0, name@PAGE\n\tadd x0, x0, name@PAGEOFF\n"
    );
}

#[test]
fn memory_operands() {
    assert_eq!(written(|c| c.str(b"x8", b"sp", None)), "\tstr x8, [sp]\n");
    assert_eq!(
        written(|c| c.str(b"x8", b"sp", Some(Index::pre(-16)))),
        "\tstr x8, [sp, -0x10]!\n"
    );
    assert_eq!(
        written(|c| c.str(b"x8", b"sp", Some(Index::post(16)))),
        "\tstr x8, [sp], 0x10\n"
    );
    assert_eq!(
        written(|c| c.str(b"x8", b"x29", Some(Index::offset(8)))),
        "\tstr x8, [x29, 0x8]\n"
    );
    // `ldr` names the register that is loaded first
    assert_eq!(
        written(|c| c.ldr(b"x29", b"x8", Some(Index::offset(-8)))),
        "\tldr x8, [x29, -0x8]\n"
    );
    assert_eq!(written(|c| c.ldr(b"x9", b"x9", None)), "\tldr x9, [x9]\n");
    assert_eq!(
        written(|c| c.stp(b"x29", b"lr", b"sp", Some(Index::pre(-16)))),
        "\tstp x29, lr, [sp, -0x10]!\n"
    );
    assert_eq!(
        written(|c| c.ldp(b"x29", b"lr", b"sp", Some(Index::post(16)))),
        "\tldp x29, lr, [sp], 0x10\n"
    );
    assert_eq!(written(|c| c.stp(b"x0", b"x1", b"sp", None)), "\tstp x0, x1, [sp]\n");
    assert_eq!(Index::offset(0).format_offset(), b"0x0".to_vec());
    assert_eq!(Index::offset(255).format_offset(), b"0xff".to_vec());
    assert_eq!(Index::offset(-255).format_offset(), b"-0xff".to_vec());
    assert_eq!(Index::offset(i32::MIN).format_offset(), b"-0x80000000".to_vec());
}
