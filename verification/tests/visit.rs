use hsl::codegen::aarch64::Codegen;
use hsl::compiler::Compiler;
use hsl::flags::Flags;
use hsl::ir::{Expr, Extrn, Fn, InnerType, Lit, Program, Stmt, Type};
use hsl::lexer::token::{Span, Token, TokenKind};
use hsl::parser::slt::{Builder, NavigableSlt, Value, Variable};
use hsl::parser::Parser;
use hsl::semantic::resolved;

fn program() -> Program {
    Program {
        extrn: vec![Extrn {
            id: b"printf".to_vec(),
            variadic: Some(1),
            args: vec![Type::Val(InnerType::Str)],
        }],
        func: vec![
            Fn {
                id: b"galaxy".to_vec(),
                variadic: None,
                args: vec![],
                stmts: vec![
                    Stmt::Let { id: b"x".to_vec(), value: Expr::Lit(Lit::Int(5)) },
                    Stmt::FnCall {
                        id: b"printf".to_vec(),
                        args: vec![
                            Expr::Lit(Lit::Str(b"%d %d".to_vec())),
                            Expr::ID(b"x".to_vec()),
                            Expr::Lit(Lit::Int(7)),
                        ],
                    },
                ],
            },
            Fn {
                id: b"helper".to_vec(),
                variadic: None,
                args: vec![(b"a".to_vec(), Type::Val(InnerType::Bool))],
                stmts: vec![Stmt::Let { id: b"b".to_vec(), value: Expr::Lit(Lit::Bool(true)) }],
            },
        ],
    }
}

#[test]
fn the_visit_of_a_program_builds_its_table() {
    let program = program();
    let mut builder = Builder::new();
    let mut root = builder.region();
    assert!(program.visit(&mut builder, &mut root));

    // the root holds the scope of the program, which holds those of the functions
    assert_eq!(root.children.len(), 1);
    let scope = &root.children[0];
    assert_eq!((scope.region, scope.scope), (1, 1));
    assert!(scope.get_function(b"printf").is_some());
    assert!(scope.get_function(b"galaxy").is_some());
    assert_eq!(scope.get_function(b"helper").unwrap().args, vec![Type::Val(InnerType::Bool)]);
    assert_eq!(scope.children.len(), 2);
    let galaxy = &scope.children[0];
    assert_eq!((galaxy.region, galaxy.scope), (2, 2));
    assert_eq!(galaxy.get_variable(b"x").unwrap().offset, 1);
    let helper = &scope.children[1];
    assert_eq!((helper.region, helper.scope), (3, 2));
    assert_eq!(helper.get_variable(b"a").unwrap().offset, 1);
    assert_eq!(helper.get_variable(b"b").unwrap().offset, 2);
    assert_eq!(builder.region_count, 4);
}

#[test]
fn a_table_that_was_built_by_a_visit_serves_the_generator() {
    let source = r#"
        Hypersignal printf Starfield 1 Holotext Jamsignal
        A long time ago in a galaxy far, far away...
            I am a big deal in the resistance. x Who, mesa ? 5
            Execute order printf "%d %d" x 7 Order executed
        May the force be with you.
        A long time ago in a helper far, far away...
        Cargo Signal a UnloadCargo
            I am a big deal in the resistance. b Who, mesa ? From a certain point of view.
        May the force be with you.
    "#;
    let flags = Flags {
        program_path: "hsl".to_string(),
        output_path: None,
        source_files: vec!["main.hsl".to_string()],
        target_name: Some("aarch64-darwin".to_string()),
        quiet: true,
        run: false,
    };
    let c = Compiler::new(flags, "main".to_string(), "main.o".to_string(), "main.s".to_string())
        .unwrap();

    // the table that the parser fills
    let mut builder = Builder::new();
    let mut parsed_root = builder.region();
    let mut parsed = Program::new();
    let mut parser = Parser::new(source);
    assert_eq!(parser.parse(&mut parsed, &mut builder, &mut parsed_root), Some(()));
    let nav = NavigableSlt::from(&parsed_root);
    let mut first = Codegen::new(&c);
    first.generate_program(&parsed, &nav, &mut nav.childs());

    // the table that the visit of the same program builds
    let program = program();
    let mut builder = Builder::new();
    let mut root = builder.region();
    assert!(program.visit(&mut builder, &mut root));
    let nav = NavigableSlt::from(&root);
    let scope = nav.childs().next().unwrap();
    assert!(resolved(&program, &scope));
    let mut second = Codegen::new(&c);
    second.generate_program(&program, &scope, &mut scope.childs());

    assert_eq!(first.output(), second.output());
}

#[test]
fn variables_from_tuples() {
    let v = Variable::from((b"a".to_vec(), Type::Val(InnerType::Int)));
    assert!(matches!(v.value, Value::Unset));
    assert_eq!((v.id, v.ty, v.offset, v.scope), (b"a".to_vec(), Type::Val(InnerType::Int), 0, 0));
    let v = Variable::from((b"s".to_vec(), Type::Val(InnerType::Str), b"text".to_vec()));
    assert!(matches!(v.value, Value::Str(s) if s == b"text"));
    let v = Variable::from((b"b".to_vec(), Type::Val(InnerType::Bool), true));
    assert!(matches!(v.value, Value::Bool(true)));
    let v = Variable::from((b"i".to_vec(), Type::Val(InnerType::Int), -4i64));
    assert!(matches!(v.value, Value::Int(-4)));
}

#[test]
fn tokens_are_shown_by_their_kind() {
    let token = Token::new(TokenKind::IntLit, Span { start: 3, end: 5, line: 1 });
    assert_eq!(token.to_string(), "Integer literal");
    assert_eq!(token.text(b"ab 12 cd"), b"12");
    assert_eq!(Span::default(), Span { start: 0, end: 0, line: 0 });
}
