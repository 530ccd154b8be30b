use scooter::ast::{File, Ident, Item};
use scooter::lexer::Lexer;
use scooter::parser::Parser;
use scooter::resolution::{item_struct_fields, Resolver, TyStruct, Type};
use scooter::shared::span::Span;

fn parse(source: &str) -> File {
    let source: Vec<char> = source.chars().collect();
    let mut lexer = Lexer::new(&source);
    let tokens = match lexer.lex() {
        Ok(tokens) => tokens,
        Err(error) => panic!("lexing failed: {}", error.reason),
    };
    let mut parser = Parser::new(&tokens);
    match parser.parse_file() {
        Ok(file) => file,
        Err(error) => panic!("parsing failed: {}", error.reason),
    }
}

fn ident(name: &str) -> Ident {
    Ident { repr: String::from(name), span: Span::single(1, 1) }
}

#[test]
fn primitive_types_are_registered_from_the_start() {
    let file = parse("struct S { }");
    let resolver = Resolver::new(&file);
    assert!(matches!(resolver.resolve_ty("i32"), Some(Type::Primitive(name)) if name == "i32"));
    assert!(matches!(resolver.resolve_ty("()"), Some(Type::Primitive(name)) if name == "()"));
    assert!(resolver.resolve_ty("S").is_none());
    assert!(resolver.resolve_ty("bool").is_none());
    assert!(resolver.resolve_fn(&ident("i32")).is_none());
    assert!(resolver.resolve_local(&ident("i32")).is_none());
}

#[test]
fn type_pass_registers_structs_only() {
    let file = parse("struct P { x: i32, y: Q } fn f() -> i32 { return 1; } struct Q { }");
    let mut resolver = Resolver::new(&file);
    resolver.collect_tys();
    match resolver.resolve_ty("P") {
        Some(Type::Struct(strct)) => {
            assert_eq!(strct.path(), "P");
            assert_eq!(strct.field("x"), Some("i32"));
            assert_eq!(strct.field("y"), Some("Q"));
            assert_eq!(strct.field("z"), None);
            assert_eq!(strct.fields.len(), 2);
        },
        _ => panic!("not a struct type"),
    }
    assert!(matches!(resolver.resolve_ty("Q"), Some(Type::Struct(_))));
    assert!(resolver.resolve_fn(&ident("f")).is_none());
    assert!(resolver.resolve_ty("f").is_none());
}

#[test]
fn function_pass_registers_functions_with_their_return_types() {
    let file = parse("struct P { } fn f() -> i32 { return 1; } fn g() -> P { return P { }; } fn h() -> () { }");
    let mut resolver = Resolver::new(&file);
    resolver.collect_tys();
    resolver.collect_functions();
    assert_eq!(resolver.resolve_fn(&ident("f")).unwrap().return_type.name(), "i32");
    assert!(matches!(resolver.resolve_fn(&ident("g")).unwrap().return_type, Type::Struct(_)));
    assert_eq!(resolver.resolve_fn(&ident("g")).unwrap().return_type.name(), "P");
    assert_eq!(resolver.resolve_fn(&ident("h")).unwrap().return_type.name(), "()");
    assert!(resolver.resolve_fn(&ident("k")).is_none());
    assert!(resolver.resolve_ty("f").is_none());
    assert!(resolver.resolve_local(&ident("f")).is_none());
}

#[test]
fn unresolved_return_type_defaults_to_unit() {
    let file = parse("fn f() -> Missing { return 1; } fn g() -> P { return 1; } struct P { }");
    let mut resolver = Resolver::new(&file);
    resolver.collect_functions();
    resolver.collect_tys();
    assert_eq!(resolver.resolve_fn(&ident("f")).unwrap().return_type.name(), "()");
    assert_eq!(resolver.resolve_fn(&ident("g")).unwrap().return_type.name(), "()");
    assert!(resolver.resolve_ty("P").is_some());
}

#[test]
fn later_declaration_replaces_an_earlier_one_of_the_same_name() {
    let file = parse("struct f { } fn f() -> i32 { return 1; }");
    let mut resolver = Resolver::new(&file);
    resolver.collect_tys();
    assert!(resolver.resolve_ty("f").is_some());
    resolver.collect_functions();
    assert!(resolver.resolve_ty("f").is_none());
    assert_eq!(resolver.resolve_fn(&ident("f")).unwrap().return_type.name(), "i32");
}

#[test]
fn functions_of_impl_blocks_are_not_collected() {
    let file = parse("impl P { fn f(self) -> i32 { return 1; } }");
    let mut resolver = Resolver::new(&file);
    resolver.collect_tys();
    resolver.collect_functions();
    assert!(resolver.resolve_fn(&ident("f")).is_none());
}

#[test]
fn declared_local_resolves_to_its_type() {
    let file = parse("struct P { }");
    let mut resolver = Resolver::new(&file);
    resolver.declare_local("x", Type::Primitive(String::from("i32")));
    assert_eq!(resolver.resolve_local(&ident("x")).unwrap().name(), "i32");
    assert!(resolver.resolve_ty("x").is_none());
    assert!(resolver.resolve_local(&ident("y")).is_none());
}

#[test]
fn struct_fields_in_the_order_of_their_declaration() {
    let file = parse("struct P { x: i32, y: (), x: P }");
    match &file.items[0] {
        Item::Struct(item_struct) => {
            let fields = item_struct_fields(item_struct);
            assert_eq!(
                fields,
                vec![
                    (String::from("x"), String::from("i32")),
                    (String::from("y"), String::from("()")),
                    (String::from("x"), String::from("P")),
                ]
            );
            let strct = TyStruct::new(String::from("P"), fields);
            assert_eq!(strct.field("x"), Some("P"));
            assert_eq!(strct.field("y"), Some("()"));
        },
        _ => panic!("not a struct"),
    }
}

#[test]
fn clones_of_types_keep_their_names_and_fields() {
    let strct = Type::Struct(TyStruct::new(
        String::from("P"),
        vec![(String::from("x"), String::from("i32"))],
    ));
    let copy = strct.clone();
    assert!(copy == strct);
    match copy {
        Type::Struct(inner) => assert_eq!(inner.field("x"), Some("i32")),
        _ => panic!("not a struct type"),
    }
}
