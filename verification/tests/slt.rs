use hsl::ir::{InnerType, Type};
use hsl::lexer::token::Span;
use hsl::parser::slt::{distance, Builder, Fn, NavigableSlt, Value, Variable};

fn span(line: usize) -> Span {
    Span { start: 0, end: 0, line }
}

fn integer(id: &str, value: i64) -> Variable {
    Variable::with_value(id.as_bytes().to_vec(), Type::Val(InnerType::Int), Value::Int(value))
}

#[test]
fn slots_are_handed_out_in_order() {
    let mut builder = Builder::new();
    let mut table = builder.region();
    assert!(table.add_variable(integer("a", 1), span(0)).is_none());
    assert!(table.add_variable(integer("b", 2), span(1)).is_none());
    assert!(table
        .add_variable(Variable::new(b"c".to_vec(), Type::Val(InnerType::Str)), span(2))
        .is_none());
    assert_eq!(table.get_variable(b"a").unwrap().offset, 1);
    assert_eq!(table.get_variable(b"b").unwrap().offset, 2);
    assert_eq!(table.get_variable(b"c").unwrap().offset, 3);
    assert_eq!(table.get_variable(b"c").unwrap().scope, 0);
    assert!(table.get_variable(b"d").is_none());
    assert_eq!(table.offset, 3);
}

#[test]
fn a_second_declaration_in_one_scope_gets_the_next_slot() {
    let mut builder = Builder::new();
    let mut table = builder.region();
    assert!(table.add_variable(integer("x", 5), span(3)).is_none());
    assert_eq!(table.get_variable(b"x").unwrap().offset, 1);

    let previous = table.add_variable(integer("x", 6), span(4));
    let (previous, at) = previous.expect("the first declaration is handed back");
    assert_eq!(previous.offset, 1);
    assert!(matches!(previous.value, Value::Int(5)));
    assert_eq!(at.line, 3);

    let now = table.get_variable(b"x").unwrap();
    assert_eq!(now.offset, 2);
    assert!(matches!(now.value, Value::Int(6)));
    assert_eq!(table.variables.len(), 1);
}

#[test]
fn an_inner_declaration_shadows_an_outer_one() {
    let mut builder = Builder::new();
    let mut root = builder.region();
    root.add_variable(integer("x", 1), span(0));
    root.add_variable(integer("y", 2), span(0));
    builder.new_region(&mut root);
    builder.new_region(&mut root);
    {
        let inner = root.last_children_mut().unwrap();
        inner.add_variable(integer("x", 3), span(0));
    }
    assert_eq!(root.children[0].region, 1);
    assert_eq!(root.children[1].region, 2);
    assert_eq!(root.children[1].scope, 1);

    let nav = NavigableSlt::root(&root);
    let mut childs = nav.childs();
    let first = childs.next().unwrap();
    let second = childs.next().unwrap();
    assert!(childs.next().is_none());

    // from the scope that declares it again: the inner declaration
    let x = second.find_variable(b"x").unwrap();
    assert_eq!((x.scope, x.offset), (1, 1));
    assert!(matches!(x.value, Value::Int(3)));
    // from outside that scope: the outer declaration
    let x = first.find_variable(b"x").unwrap();
    assert_eq!((x.scope, x.offset), (0, 1));
    let x = nav.find_variable(b"x").unwrap();
    assert!(matches!(x.value, Value::Int(1)));
    // what is not declared again is found outside
    let y = second.find_variable(b"y").unwrap();
    assert_eq!((y.scope, y.offset), (0, 2));
    assert!(second.find_variable(b"z").is_none());

    assert_eq!(distance(second.slt.scope, y.scope), 1);
    assert_eq!(distance(1, 1), 0);
    assert_eq!(distance(5, 2), 3);
}

#[test]
fn functions_and_variables_do_not_collide() {
    let mut builder = Builder::new();
    let mut root = builder.region();
    root.add_variable(integer("f", 1), span(0));
    assert!(root
        .add_function(Fn::new(b"f".to_vec(), vec![Type::Val(InnerType::Int)], Some(1)), span(0))
        .is_none());
    assert_eq!(root.get_variable(b"f").unwrap().offset, 1);
    assert_eq!(root.get_function(b"f").unwrap().variadic, Some(1));
    assert!(root.get_function(b"g").is_none());

    let previous = root.add_function(Fn::new(b"f".to_vec(), vec![], None), span(1));
    assert_eq!(previous.unwrap().0.variadic, Some(1));
    assert_eq!(root.get_function(b"f").unwrap().variadic, None);
    assert_eq!(root.funcs.len(), 1);

    builder.new_region(&mut root);
    let nav = NavigableSlt::root(&root);
    let child = nav.childs().next().unwrap();
    assert_eq!(child.find_func(b"f").unwrap().args.len(), 0);
    assert!(child.find_func(b"g").is_none());
}
