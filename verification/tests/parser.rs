use hsl::ir::{Expr, InnerType, Lit, Op, Program, Stmt, Type};
use hsl::parser::slt::{Builder, SymbolLookupTable, Value};
use hsl::parser::Parser;

fn parse(source: &str) -> (Option<()>, Program, SymbolLookupTable, usize, bool) {
    let mut builder = Builder::new();
    let mut root = builder.region();
    let mut program = Program::new();
    let mut parser = Parser::new(source);
    let r = parser.parse(&mut program, &mut builder, &mut root);
    (r, program, root, parser.err_cpt, parser.has_main)
}

#[test]
fn a_function_with_a_declaration_and_a_call() {
    let (r, program, root, errors, has_main) = parse(
        r#"
        Hypersignal printf Starfield 1 Holotext Jamsignal
        A long time ago in a galaxy far, far away...
            I am a big deal in the resistance. finn Who, mesa ? 10
            Execute order printf "%d" finn -3 From a certain point of view. Order executed
        May the force be with you.
        "#,
    );
    assert_eq!(r, Some(()));
    assert_eq!(errors, 0);
    assert!(has_main);

    assert_eq!(program.extrn.len(), 1);
    assert_eq!(program.extrn[0].id, b"printf".to_vec());
    assert_eq!(program.extrn[0].variadic, Some(1));
    assert_eq!(program.extrn[0].args, vec![Type::Val(InnerType::Str)]);
    assert_eq!(program.get_fn_variadic(b"printf"), Some(1));
    assert_eq!(program.get_fn_variadic(b"galaxy"), None);
    assert_eq!(program.get_fn_variadic(b"nothing"), None);

    assert_eq!(program.func.len(), 1);
    let f = &program.func[0];
    assert_eq!(f.id, b"galaxy".to_vec());
    assert!(f.args.is_empty());
    assert_eq!(f.stmts.len(), 2);
    match &f.stmts[0] {
        Stmt::Let { id, value: Expr::Lit(Lit::Int(10)) } => assert_eq!(id, b"finn"),
        _ => panic!("a declaration was expected"),
    }
    match &f.stmts[1] {
        Stmt::FnCall { id, args } => {
            assert_eq!(id, b"printf");
            assert_eq!(args.len(), 4);
            assert!(matches!(&args[0], Expr::Lit(Lit::Str(s)) if s == b"%d"));
            assert!(matches!(&args[1], Expr::ID(id) if id == b"finn"));
            assert!(matches!(&args[2], Expr::Lit(Lit::Int(-3))));
            assert!(matches!(&args[3], Expr::Lit(Lit::Bool(true))));
        }
        _ => panic!("a call was expected"),
    }

    // the root declares both functions, the scope of the function its variable
    assert!(root.get_function(b"printf").is_some());
    assert!(root.get_function(b"galaxy").is_some());
    assert_eq!(root.children.len(), 1);
    let scope = &root.children[0];
    assert_eq!(scope.scope, 1);
    let finn = scope.get_variable(b"finn").unwrap();
    assert_eq!(finn.offset, 1);
    assert_eq!(finn.ty, Type::Val(InnerType::Int));
    assert!(matches!(finn.value, Value::Int(10)));
}

#[test]
fn a_duplicate_declaration_is_counted_and_parsing_goes_on() {
    let (r, program, root, errors, _) = parse(
        r#"
        A long time ago in a galaxy far, far away...
            I am a big deal in the resistance. x Who, mesa ? 5
            I am a big deal in the resistance. x Who, mesa ? 6
        May the force be with you.
        "#,
    );
    assert_eq!(r, Some(()));
    assert_eq!(errors, 1);
    assert_eq!(program.func[0].stmts.len(), 2);
    let scope = &root.children[0];
    assert_eq!(scope.offset, 2);
    assert_eq!(scope.variables.len(), 1);
    let x = scope.get_variable(b"x").unwrap();
    assert_eq!(x.offset, 2);
    assert!(matches!(x.value, Value::Int(6)));
}

#[test]
fn parameters_are_the_first_variables() {
    let (r, program, root, errors, has_main) = parse(
        r#"
        A long time ago in a add far, far away...
        Cargo Credit a Holotext b Signal c UnloadCargo
            The force is strong with this one. d I am your father. "x"
        May the force be with you.
        "#,
    );
    assert_eq!(r, Some(()));
    assert_eq!(errors, 0);
    assert!(!has_main);
    assert_eq!(
        program.func[0].args,
        vec![
            (b"a".to_vec(), Type::Val(InnerType::Int)),
            (b"b".to_vec(), Type::Val(InnerType::Str)),
            (b"c".to_vec(), Type::Val(InnerType::Bool)),
        ]
    );
    let scope = &root.children[0];
    assert_eq!(scope.get_variable(b"a").unwrap().offset, 1);
    assert_eq!(scope.get_variable(b"b").unwrap().offset, 2);
    assert_eq!(scope.get_variable(b"c").unwrap().offset, 3);
    assert_eq!(scope.get_variable(b"d").unwrap().offset, 4);
    assert!(matches!(scope.get_variable(b"a").unwrap().value, Value::Unset));
    let signature = root.get_function(b"add").unwrap();
    assert_eq!(signature.args.len(), 3);
}

#[test]
fn an_assignment_has_its_steps() {
    let (r, program, _, errors, _) = parse(
        r#"
        A long time ago in a galaxy far, far away...
            That's one hell of a pilot. n Judge me by my size, do you ? 1
            What a piece of junk! n
                Your lightsabers will make a fine addition to my collection. 2
                There's too many of them! n
                Never tell me the odds! 7
            The garbage will do.
        May the force be with you.
        "#,
    );
    assert_eq!(r, Some(()));
    assert_eq!(errors, 0);
    match &program.func[0].stmts[1] {
        Stmt::Assign { id, ops } => {
            assert_eq!(id, b"n");
            assert_eq!(ops.len(), 3);
            assert_eq!(ops[0].op, Op::Add);
            assert!(matches!(&ops[0].value, Expr::Lit(Lit::Int(2))));
            assert_eq!(ops[1].op, Op::Mul);
            assert!(matches!(&ops[1].value, Expr::ID(id) if id == b"n"));
            assert_eq!(ops[2].op, Op::Mod);
        }
        _ => panic!("an assignment was expected"),
    }
}

#[test]
fn errors_end_the_parse() {
    // a declaration needs a literal
    let (r, _, _, errors, _) = parse(
        "A long time ago in a galaxy far, far away... I am a big deal in the resistance. x Who, mesa ? y May the force be with you.",
    );
    assert_eq!(r, None);
    assert_eq!(errors, 1);

    // a token that starts nothing
    let (r, _, _, errors, _) = parse("finn");
    assert_eq!(r, None);
    assert_eq!(errors, 1);

    // a function of the program cannot be variadic
    let (r, _, root, errors, _) = parse(
        "A long time ago in a galaxy far, far away... Starfield 1 May the force be with you.",
    );
    assert_eq!(r, None);
    assert_eq!(errors, 1);
    // its scope was nested before it was read, and it was not declared
    assert_eq!(root.children.len(), 1);
    assert!(root.get_function(b"galaxy").is_none());

    // a hexadecimal literal is no decimal number
    let (r, _, _, errors, _) = parse(
        "A long time ago in a galaxy far, far away... I am a big deal in the resistance. x Who, mesa ? 0x1F May the force be with you.",
    );
    assert_eq!(r, None);
    assert_eq!(errors, 1);

    // an unclosed call
    let (r, _, _, errors, _) = parse(
        "A long time ago in a galaxy far, far away... Execute order f 1 2",
    );
    assert_eq!(r, None);
    assert_eq!(errors, 1);
}

#[test]
fn the_fixed_parameters_of_an_external_function_are_counted() {
    let (r, program, root, errors, _) =
        parse("Hypersignal printf Starfield 2 Holotext Jamsignal");
    // the declaration stands, with one error
    assert_eq!(r, Some(()));
    assert_eq!(errors, 1);
    assert_eq!(program.extrn[0].variadic, Some(2));
    assert!(root.get_function(b"printf").is_some());
}

#[test]
fn the_empty_program() {
    let (r, program, root, errors, has_main) = parse("  <(-.-)> nothing but a comment");
    assert_eq!(r, Some(()));
    assert_eq!(errors, 0);
    assert!(!has_main);
    assert!(program.func.is_empty());
    assert!(program.extrn.is_empty());
    assert!(root.children.is_empty());
}
