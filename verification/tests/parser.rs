use scooter::ast::{
    Expr, ExprCall, ExprLit, Fields, File, ImplItem, Item, OpKind, Stmt,
};
use scooter::lexer::{Lexer, Token, TokenKind};
use scooter::parser::{ParseError, Parser};
use scooter::shared::span::{Location, Span};

fn lex(source: &str) -> Vec<Token> {
    let source: Vec<char> = source.chars().collect();
    let mut lexer = Lexer::new(&source);
    match lexer.lex() {
        Ok(tokens) => tokens,
        Err(error) => panic!("lexing failed: {}", error.reason),
    }
}

fn parse(source: &str) -> Result<File, ParseError> {
    let tokens = lex(source);
    let mut parser = Parser::new(&tokens);
    parser.parse_file()
}

fn parsed(source: &str) -> File {
    match parse(source) {
        Ok(file) => file,
        Err(error) => panic!("parsing failed: {}", error.reason),
    }
}

fn failure(source: &str) -> ParseError {
    match parse(source) {
        Ok(_) => panic!("parsing succeeded"),
        Err(error) => error,
    }
}

fn span(line: usize, from: usize, to: usize) -> Span {
    Span::new(Location::new(line, from), Location::new(line, to))
}

fn number(expr: &Expr) -> i32 {
    match expr {
        Expr::Lit(ExprLit::Num(lit_num)) => lit_num.value,
        _ => panic!("not a literal number"),
    }
}

fn returned(file: &File, item: usize, stmt: usize) -> &Expr {
    match &file.items[item] {
        Item::Fn(item_fn) => match &item_fn.body.stmts[stmt] {
            Stmt::Return(ret) => &ret.expr,
            _ => panic!("not a return"),
        },
        _ => panic!("not a function"),
    }
}

#[test]
fn function_with_a_let_and_a_return() {
    let file = parsed("fn main() -> i32 { let x: i32 = 1 + 2; return x; }");
    assert_eq!(file.items.len(), 1);
    let item_fn = match &file.items[0] {
        Item::Fn(item_fn) => item_fn,
        _ => panic!("not a function"),
    };
    assert_eq!(item_fn.ident.repr, "main");
    assert_eq!(item_fn.ident.span, span(1, 4, 7));
    assert_eq!(item_fn.kw.kind, TokenKind::KwFn);
    assert_eq!(item_fn.lp.kind, TokenKind::LParen);
    assert_eq!(item_fn.rp.kind, TokenKind::RParen);
    assert_eq!(item_fn.arrow.kind, TokenKind::RArrow);
    assert_eq!(item_fn.params.len(), 0);
    assert_eq!(item_fn.ty.ident.repr, "i32");
    assert_eq!(item_fn.ty.span, span(1, 14, 16));
    assert_eq!(item_fn.body.stmts.len(), 2);
    match &item_fn.body.stmts[0] {
        Stmt::Local(local) => {
            assert_eq!(local.ident.repr, "x");
            assert_eq!(local.ty.ident.repr, "i32");
            assert_eq!(local.kw.kind, TokenKind::KwLet);
            assert_eq!(local.eq.kind, TokenKind::Equal);
            assert_eq!(local.span, span(1, 20, 37));
            match &local.expr {
                Expr::Binary(sum) => {
                    assert_eq!(sum.op.kind, OpKind::Add);
                    assert_eq!(sum.op.span, span(1, 35, 35));
                    assert_eq!(number(&sum.lhs), 1);
                    assert_eq!(number(&sum.rhs), 2);
                    assert_eq!(sum.span, span(1, 33, 37));
                    assert_eq!(local.expr.span(), &span(1, 33, 37));
                },
                _ => panic!("not a binary expression"),
            }
        },
        _ => panic!("not a let"),
    }
    match &item_fn.body.stmts[1] {
        Stmt::Return(ret) => match &ret.expr {
            Expr::Ident(ident) => {
                assert_eq!(ident.repr, "x");
                assert_eq!(ident.span, span(1, 47, 47));
            },
            _ => panic!("not an identifier"),
        },
        _ => panic!("not a return"),
    }
}

#[test]
fn product_binds_tighter_than_sum() {
    let file = parsed("fn f() -> i32 { return 1 + 2 * 3; }");
    match returned(&file, 0, 0) {
        Expr::Binary(sum) => {
            assert_eq!(sum.op.kind, OpKind::Add);
            assert_eq!(number(&sum.lhs), 1);
            match &*sum.rhs {
                Expr::Binary(product) => {
                    assert_eq!(product.op.kind, OpKind::Multiply);
                    assert_eq!(number(&product.lhs), 2);
                    assert_eq!(number(&product.rhs), 3);
                },
                _ => panic!("not a product"),
            }
        },
        _ => panic!("not a sum"),
    }
}

#[test]
fn sums_and_products_group_to_the_left() {
    let file = parsed("fn f() -> i32 { return 1 + 2 + 3; } fn g() -> i32 { return 4 * 5 * 6; }");
    match returned(&file, 0, 0) {
        Expr::Binary(outer) => {
            assert_eq!(number(&outer.rhs), 3);
            match &*outer.lhs {
                Expr::Binary(inner) => {
                    assert_eq!(number(&inner.lhs), 1);
                    assert_eq!(number(&inner.rhs), 2);
                },
                _ => panic!("not a sum"),
            }
        },
        _ => panic!("not a sum"),
    }
    match returned(&file, 1, 0) {
        Expr::Binary(outer) => {
            assert_eq!(outer.op.kind, OpKind::Multiply);
            assert_eq!(number(&outer.rhs), 6);
            match &*outer.lhs {
                Expr::Binary(inner) => {
                    assert_eq!(number(&inner.lhs), 4);
                    assert_eq!(number(&inner.rhs), 5);
                },
                _ => panic!("not a product"),
            }
        },
        _ => panic!("not a product"),
    }
}

#[test]
fn call_with_arguments() {
    let file = parsed("fn f() -> i32 { return g(1, x, h() + 2); }");
    match returned(&file, 0, 0) {
        Expr::Call(ExprCall::Fn(call)) => {
            assert_eq!(call.ident.repr, "g");
            assert_eq!(call.args.len(), 3);
            assert_eq!(number(&call.args.args[0]), 1);
            assert!(matches!(&call.args.args[1], Expr::Ident(ident) if ident.repr == "x"));
            match &call.args.args[2] {
                Expr::Binary(sum) => {
                    assert!(matches!(&*sum.lhs, Expr::Call(ExprCall::Fn(inner))
                        if inner.ident.repr == "h" && inner.args.len() == 0));
                    assert_eq!(number(&sum.rhs), 2);
                },
                _ => panic!("not a sum"),
            }
            assert_eq!(call.lp.kind, TokenKind::LParen);
            assert_eq!(call.rp.kind, TokenKind::RParen);
        },
        _ => panic!("not a call"),
    }
}

#[test]
fn span_of_a_call() {
    let file = parsed("fn f() -> i32 { return g(1, 2); }");
    match returned(&file, 0, 0) {
        Expr::Call(call) => {
            assert_eq!(call.span(), &span(1, 24, 30));
            assert_eq!(returned(&file, 0, 0).span(), &span(1, 24, 30));
        },
        _ => panic!("not a call"),
    }
}

#[test]
fn unit_type_is_called_by_its_parentheses() {
    let file = parsed("fn f() -> () { }");
    match &file.items[0] {
        Item::Fn(item_fn) => {
            assert_eq!(item_fn.ty.ident.repr, "()");
            assert_eq!(item_fn.ty.span, span(1, 11, 12));
            assert_eq!(item_fn.ty.ident.span, span(1, 11, 12));
            assert!(item_fn.body.stmts.is_empty());
            assert_eq!(item_fn.body.lc.kind, TokenKind::LBrace);
            assert_eq!(item_fn.body.rc.kind, TokenKind::RBrace);
        },
        _ => panic!("not a function"),
    }
}

#[test]
fn function_parameters() {
    let file = parsed("fn f(a: i32, b: ()) -> i32 { return a; } fn g(c: i32,) -> i32 { return c; }");
    match &file.items[0] {
        Item::Fn(item_fn) => {
            assert_eq!(item_fn.params.len(), 2);
            assert_eq!(item_fn.params.params[0].ident.repr, "a");
            assert_eq!(item_fn.params.params[0].ty.ident.repr, "i32");
            assert_eq!(item_fn.params.params[0].colon.kind, TokenKind::Colon);
            assert_eq!(item_fn.params.params[1].ident.repr, "b");
            assert_eq!(item_fn.params.params[1].ty.ident.repr, "()");
        },
        _ => panic!("not a function"),
    }
    match &file.items[1] {
        Item::Fn(item_fn) => assert_eq!(item_fn.params.len(), 1),
        _ => panic!("not a function"),
    }
}

#[test]
fn struct_declaration() {
    let file = parsed("struct Point { x: i32, y: i32 } struct Empty { }");
    assert_eq!(file.items.len(), 2);
    match &file.items[0] {
        Item::Struct(item_struct) => {
            assert_eq!(item_struct.ident.repr, "Point");
            assert_eq!(item_struct.kw.kind, TokenKind::KwStruct);
            match &item_struct.fields {
                Fields::Named(named) => {
                    assert_eq!(named.fields.len(), 2);
                    assert_eq!(named.fields[0].ident.repr, "x");
                    assert_eq!(named.fields[0].ty.ident.repr, "i32");
                    assert_eq!(named.fields[0].span, span(1, 16, 21));
                    assert_eq!(named.fields[1].ident.repr, "y");
                    assert_eq!(named.lb.kind, TokenKind::LBrace);
                    assert_eq!(named.rb.kind, TokenKind::RBrace);
                },
            }
            assert_eq!(item_struct.span, span(1, 1, 31));
        },
        _ => panic!("not a struct"),
    }
    match &file.items[1] {
        Item::Struct(item_struct) => match &item_struct.fields {
            Fields::Named(named) => assert!(named.fields.is_empty()),
        },
        _ => panic!("not a struct"),
    }
}

#[test]
fn impl_block_with_receivers() {
    let file = parsed(
        "impl Point { fn x(self) -> i32 { return 1; } fn add(self, d: i32) -> i32 { return d; } fn new(a: i32) -> i32 { return a; } }",
    );
    match &file.items[0] {
        Item::Impl(item_impl) => {
            assert_eq!(item_impl.ident.repr, "Point");
            assert_eq!(item_impl.kw.kind, TokenKind::KwImpl);
            assert_eq!(item_impl.items.len(), 3);
            let ImplItem::Fn(first) = &item_impl.items[0];
            assert_eq!(first.ident.repr, "x");
            assert!(matches!(&first.params.receiver, Some(token) if token.kind == TokenKind::KwSelf));
            assert!(first.params.params.is_empty());
            let ImplItem::Fn(second) = &item_impl.items[1];
            assert!(second.params.receiver.is_some());
            assert_eq!(second.params.params.len(), 1);
            assert_eq!(second.params.params[0].ident.repr, "d");
            let ImplItem::Fn(third) = &item_impl.items[2];
            assert!(third.params.receiver.is_none());
            assert_eq!(third.params.params.len(), 1);
        },
        _ => panic!("not an impl block"),
    }
}

#[test]
fn struct_literal() {
    let file = parsed("fn f() -> Point { return Point { x: 1, y: 2 + 3 }; }");
    match returned(&file, 0, 0) {
        Expr::Struct(literal) => {
            assert_eq!(literal.ident.repr, "Point");
            assert_eq!(literal.args.args.len(), 2);
            assert_eq!(literal.args.args[0].ident.repr, "x");
            assert_eq!(number(&literal.args.args[0].expr), 1);
            assert_eq!(literal.args.args[1].ident.repr, "y");
            assert!(matches!(&literal.args.args[1].expr, Expr::Binary(_)));
            assert_eq!(literal.lb.kind, TokenKind::LBrace);
            assert_eq!(literal.rb.kind, TokenKind::RBrace);
        },
        _ => panic!("not a struct literal"),
    }
}

#[test]
fn spans_of_literals_and_returns() {
    let file = parsed("fn f() -> i32 { return 12; }");
    match &file.items[0] {
        Item::Fn(item_fn) => {
            match &item_fn.body.stmts[0] {
                Stmt::Return(ret) => {
                    assert_eq!(ret.kw.kind, TokenKind::KwRet);
                    assert_eq!(ret.span, span(1, 17, 25));
                    match &ret.expr {
                        Expr::Lit(literal) => assert_eq!(literal.span(), &span(1, 24, 25)),
                        _ => panic!("not a literal"),
                    }
                },
                _ => panic!("not a return"),
            }
        },
        _ => panic!("not a function"),
    }
    assert_eq!(file.span.start, Location::new(1, 1));
}

#[test]
fn several_items_on_several_lines() {
    let file = parsed("struct A { }\nfn f() -> A {\n  return A { };\n}\nfn main() -> () { }\n");
    assert_eq!(file.items.len(), 3);
    assert!(matches!(&file.items[0], Item::Struct(_)));
    assert!(matches!(&file.items[1], Item::Fn(item_fn) if item_fn.ident.span.start.line == 2));
    assert!(matches!(&file.items[2], Item::Fn(item_fn) if item_fn.ident.repr == "main"
        && item_fn.ident.span.start == Location::new(5, 4)));
}

#[test]
fn a_closing_brace_ends_the_file() {
    let file = parsed("fn f() -> () { } } fn g() -> () { }");
    assert_eq!(file.items.len(), 1);
}

#[test]
fn item_must_begin_with_a_keyword() {
    let error = failure("let x");
    assert_eq!(error.reason, "Expected 'fn' or 'mod', found 'let'");
    assert_eq!(error.span, Some(span(1, 1, 3)));
    let error = failure("fn f() -> () { } 12");
    assert_eq!(error.reason, "Expected 'fn' or 'mod', found literal number '12'");
}

#[test]
fn function_needs_a_name() {
    let error = failure("fn 1");
    assert_eq!(error.reason, "Expected an identifier, found literal number '1'");
    assert_eq!(error.span, Some(span(1, 4, 4)));
}

#[test]
fn expected_token_is_named_with_the_one_found() {
    let error = failure("fn f) -> () { }");
    assert_eq!(error.reason, "Expected '(' but found ')'");
    assert_eq!(error.span, Some(span(1, 5, 5)));
    let error = failure("fn f() i32 { }");
    assert_eq!(error.reason, "Expected '->' but found identifier 'i32'");
    let error = failure("fn f() -> i32 { return 1 }");
    assert_eq!(error.reason, "Expected ';' but found '}'");
    let error = failure("fn f() -> i32 { let x = 1; }");
    assert_eq!(error.reason, "Expected ':' but found '='");
    let error = failure("fn f(a: i32 b: i32) -> i32 { }");
    assert_eq!(error.reason, "Expected ',' but found identifier 'b'");
}

#[test]
fn struct_needs_named_fields() {
    let error = failure("struct S fn");
    assert_eq!(error.reason, "Expected '{' but found 'fn'");
    assert_eq!(error.span, Some(span(1, 10, 11)));
}

#[test]
fn impl_block_holds_functions_only() {
    let error = failure("impl S { struct }");
    assert_eq!(error.reason, "Expected a function item, found 'struct'");
    assert_eq!(error.span, Some(span(1, 10, 15)));
}

#[test]
fn statement_must_be_a_let_or_a_return() {
    let error = failure("fn f() -> i32 { 1; }");
    assert_eq!(error.reason, "Unknown statement beginning with literal number '1'");
    assert_eq!(error.span, Some(span(1, 17, 17)));
}

#[test]
fn expression_must_begin_with_a_factor() {
    let error = failure("fn f() -> i32 { return +; }");
    assert_eq!(
        error.reason,
        "Expected an identifier, literal or function call... found '+'"
    );
    assert_eq!(error.span, Some(span(1, 24, 24)));
    let error = failure("fn f() -> i32 { return 1 + ; }");
    assert_eq!(
        error.reason,
        "Expected an identifier, literal or function call... found ';'"
    );
}

#[test]
fn input_that_ends_too_early_is_an_error() {
    let error = failure("fn");
    assert_eq!(error.reason, "Expected an identifier, found 'fn'");
    let error = failure("fn f() -> i32 { return 1;");
    assert_eq!(error.reason, "Unknown statement beginning with ';'");
    let error = failure("fn f(a: i32");
    assert_eq!(error.reason, "Expected ',' but found identifier 'i32'");
}

#[test]
fn parser_can_go_on_after_an_item() {
    let tokens = lex("fn f() -> () { } } fn g() -> () { }");
    let mut parser = Parser::new(&tokens);
    let first = parser.parse_file().ok().unwrap();
    assert_eq!(first.items.len(), 1);
}
