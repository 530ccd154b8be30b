use scooter::ast::{File, Item, Stmt};
use scooter::lexer::Lexer;
use scooter::parser::Parser;
use scooter::resolution::{Resolver, Type};
use scooter::sema::typeck::{TypeCk, TypeCkError, TypeCkErrorKind};
use scooter::shared::span::{Location, Span};

fn parse(source: &str) -> File {
    let source: Vec<char> = source.chars().collect();
    let mut lexer = Lexer::new(&source);
    let tokens = match lexer.lex() {
        Ok(tokens) => tokens,
        Err(error) => panic!("lexing failed: {}", error.reason),
    };
    let mut parser = Parser::new(&tokens);
    match parser.parse_file() {
        Ok(file) => file,
        Err(error) => panic!("parsing failed: {}", error.reason),
    }
}

fn check_file(file: &File) -> Result<(), TypeCkError> {
    let mut resolver = Resolver::new(file);
    resolver.collect_tys();
    resolver.collect_functions();
    TypeCk::new(resolver).run(file)
}

fn check(source: &str) -> Result<(), TypeCkError> {
    check_file(&parse(source))
}

fn failure(source: &str) -> TypeCkError {
    match check(source) {
        Ok(()) => panic!("type checking succeeded"),
        Err(error) => error,
    }
}

fn span(line: usize, from: usize, to: usize) -> Option<Span> {
    Some(Span::new(Location::new(line, from), Location::new(line, to)))
}

#[test]
fn sum_of_literals_is_an_i32() {
    assert!(check("fn f() -> i32 { return 1 + 2; }").is_ok());
}

#[test]
fn body_of_another_type_than_declared_is_a_return_mismatch() {
    let error = failure("fn f() -> () { return 1 + 2; }");
    assert_eq!(error.kind, TypeCkErrorKind::ReturnTypeMismatch);
    assert_eq!(
        error.reason,
        "Function must return type '()' but type 'i32' is returned instead"
    );
    assert_eq!(error.span, span(1, 11, 12));
}

#[test]
fn body_without_statements_has_the_unit_type() {
    assert!(check("fn f() -> () { }").is_ok());
    let error = failure("fn f() -> i32 { }");
    assert_eq!(error.kind, TypeCkErrorKind::ReturnTypeMismatch);
    assert_eq!(
        error.reason,
        "Function must return type 'i32' but type '()' is returned instead"
    );
}

#[test]
fn call_of_an_undeclared_function_fails_whatever_its_arguments() {
    for source in [
        "fn f() -> i32 { return g(); }",
        "fn f() -> i32 { return g(1); }",
        "fn f() -> i32 { return g(1, 2 + 3, f()); }",
        "fn f() -> i32 { return g(undefined, also_undefined()); }",
    ] {
        let error = failure(source);
        assert_eq!(error.kind, TypeCkErrorKind::UndefinedFunction);
        assert_eq!(error.reason, "Undefined function 'g'");
        assert_eq!(error.span, span(1, 24, 24));
    }
}

#[test]
fn call_has_the_return_type_of_the_function() {
    assert!(check("fn g() -> i32 { return 1; } fn f() -> i32 { return g() + 1; }").is_ok());
    assert!(check("fn f() -> i32 { return g(); } fn g() -> i32 { return 1; }").is_ok());
    assert!(check("fn f() -> i32 { return f(); }").is_ok());
    let error = failure("fn g() -> () { } fn f() -> i32 { return g(); }");
    assert_eq!(error.kind, TypeCkErrorKind::ReturnTypeMismatch);
}

#[test]
fn arguments_of_a_call_are_not_checked() {
    assert!(check("fn g() -> i32 { return 1; } fn f() -> i32 { return g(nothing, 1, 2); }").is_ok());
}

#[test]
fn identifier_must_be_a_local() {
    let error = failure("fn f() -> i32 { return x; }");
    assert_eq!(error.kind, TypeCkErrorKind::UndefinedName);
    assert_eq!(error.reason, "Cannot find 'x' in this scope");
    assert_eq!(error.span, span(1, 24, 24));
    let error = failure("fn f() -> i32 { return f; }");
    assert_eq!(error.kind, TypeCkErrorKind::UndefinedName);
    let error = failure("fn f() -> i32 { return i32; }");
    assert_eq!(error.kind, TypeCkErrorKind::UndefinedName);
}

#[test]
fn parameters_are_no_locals() {
    let error = failure("fn f(a: i32) -> i32 { return a; }");
    assert_eq!(error.kind, TypeCkErrorKind::UndefinedName);
}

#[test]
fn let_registers_its_local() {
    assert!(check("fn f() -> i32 { let x: i32 = 1; let y: i32 = x + 2; return x * y; }").is_ok());
}

#[test]
fn last_statement_gives_the_type_of_the_body() {
    assert!(check("fn f() -> i32 { let x: i32 = 1; }").is_ok());
    assert!(check("fn f() -> i32 { return f(); let x: i32 = 1; }").is_ok());
    let error = failure("fn g() -> () { } fn f() -> i32 { return 1; return g(); }");
    assert_eq!(error.kind, TypeCkErrorKind::ReturnTypeMismatch);
}

#[test]
fn unknown_return_type() {
    let error = failure("fn f() -> Foo { return 1; }");
    assert_eq!(error.kind, TypeCkErrorKind::UnknownType);
    assert_eq!(error.reason, "Unknown type 'Foo'");
    assert_eq!(error.span, span(1, 11, 13));
}

#[test]
fn unknown_type_of_a_local() {
    let error = failure("fn f() -> i32 { let x: Foo = 1; return x; }");
    assert_eq!(error.kind, TypeCkErrorKind::UnknownType);
    assert_eq!(error.reason, "The type 'Foo' doesn't exist");
    assert_eq!(error.span, span(1, 24, 26));
}

#[test]
fn local_of_another_type_than_declared() {
    let error = failure("fn f() -> i32 { let x: () = 1 + 2; return x; }");
    assert_eq!(error.kind, TypeCkErrorKind::LocalTypeMismatch);
    assert_eq!(
        error.reason,
        "The expression assigned to variable 'x' must have type '()' but it actually has type 'i32'"
    );
    assert_eq!(error.span, span(1, 29, 33));
}

#[test]
fn operands_of_different_types() {
    let error = failure(
        "struct P { x: i32 } fn mk() -> P { return P { x: 1 }; } fn f() -> i32 { return 1 + mk(); }",
    );
    assert_eq!(error.kind, TypeCkErrorKind::BinaryTypeMismatch);
    assert_eq!(
        error.reason,
        "Left hand side of binary expression has type 'i32' but the right hand side has type 'P'"
    );
    let error = failure(
        "struct P { x: i32 } fn mk() -> P { return P { x: 1 }; } fn f() -> P { return mk() * 2; }",
    );
    assert_eq!(error.kind, TypeCkErrorKind::BinaryTypeMismatch);
    assert_eq!(
        error.reason,
        "Left hand side of binary expression has type 'P' but the right hand side has type 'i32'"
    );
}

#[test]
fn operands_of_the_same_struct_type() {
    assert!(check(
        "struct P { x: i32 } fn mk() -> P { return P { x: 1 }; } fn f() -> P { return mk() + mk(); }"
    )
    .is_ok());
}

#[test]
fn struct_literal_has_the_type_of_its_name() {
    assert!(check("struct P { x: i32 } fn f() -> P { let p: P = P { x: 1 }; return p; }").is_ok());
    let error = failure("fn f() -> i32 { return Q { x: 1 }; }");
    assert_eq!(error.kind, TypeCkErrorKind::UnknownType);
    assert_eq!(error.reason, "Unknown type 'Q'");
}

#[test]
fn first_error_is_reported() {
    let error = failure("fn f() -> i32 { let a: Foo = 1; return y; }");
    assert_eq!(error.kind, TypeCkErrorKind::UnknownType);
    let error = failure("fn f() -> i32 { return y; } fn g() -> Foo { return 1; }");
    assert_eq!(error.kind, TypeCkErrorKind::UndefinedName);
    let error = failure("fn f() -> i32 { return y + g(); }");
    assert_eq!(error.kind, TypeCkErrorKind::UndefinedName);
    let error = failure("fn f() -> i32 { let x: i32 = g(); return 1; }");
    assert_eq!(error.kind, TypeCkErrorKind::UndefinedFunction);
}

#[test]
fn locals_stay_registered_for_the_functions_that_follow() {
    assert!(check("fn f() -> i32 { let x: i32 = 1; return x; } fn g() -> i32 { return x; }").is_ok());
}

#[test]
fn local_can_take_the_name_of_a_type() {
    let error = failure("fn f() -> i32 { let i32: i32 = 1; let y: i32 = 2; return y; }");
    assert_eq!(error.kind, TypeCkErrorKind::UnknownType);
    assert_eq!(error.reason, "The type 'i32' doesn't exist");
}

#[test]
fn expression_statement_has_the_type_of_its_expression() {
    let mut file = parse("fn f() -> i32 { return 1; }");
    if let Item::Fn(item_fn) = &mut file.items[0] {
        let first = item_fn.body.stmts.remove(0);
        if let Stmt::Return(ret) = first {
            item_fn.body.stmts.push(Stmt::Expr(ret.expr));
        }
    }
    assert!(check_file(&file).is_ok());
}

#[test]
fn impl_blocks_are_not_checked() {
    assert!(check("impl P { fn f(self) -> Nothing { return nothing; } }").is_ok());
}

#[test]
fn types_are_equal_by_name() {
    assert!(Type::Primitive(String::from("i32")) == Type::Primitive(String::from("i32")));
    assert!(Type::Primitive(String::from("i32")) != Type::Primitive(String::from("()")));
    assert_eq!(Type::Primitive(String::from("i32")).name(), "i32");
}
