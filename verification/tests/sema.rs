use scooter::ast::File;
use scooter::lexer::Lexer;
use scooter::parser::Parser;
use scooter::sema::basic::Basic;
use scooter::sema::check_main::CheckMain;
use scooter::sema::{Analysis, SemaEngine};
use scooter::shared::span::{Location, Span};

fn parse(source: &str) -> File {
    let source: Vec<char> = source.chars().collect();
    let mut lexer = Lexer::new(&source);
    let tokens = match lexer.lex() {
        Ok(tokens) => tokens,
        Err(error) => panic!("lexing failed: {}", error.reason),
    };
    let mut parser = Parser::new(&tokens);
    match parser.parse_file() {
        Ok(file) => file,
        Err(error) => panic!("parsing failed: {}", error.reason),
    }
}

fn span(line: usize, from: usize, to: usize) -> Option<Span> {
    Some(Span::new(Location::new(line, from), Location::new(line, to)))
}

#[test]
fn main_without_parameters_passes() {
    let file = parse("fn helper(a: i32) -> i32 { return 1; } fn main() -> () { }");
    assert!(Basic::new().run(&file).is_ok());
    assert!(CheckMain::new().run(&file).is_ok());
}

#[test]
fn missing_main_is_reported_at_the_start_of_the_file() {
    let file = parse("fn helper() -> i32 { return 1; }");
    let error = Basic::new().run(&file).unwrap_err();
    assert_eq!(error.reason, "Could not find the main function");
    assert_eq!(error.span, span(1, 1, 1));
    let error = CheckMain::new().run(&file).unwrap_err();
    assert_eq!(error.reason, "Could not find the main function");
}

#[test]
fn main_with_one_parameter() {
    let file = parse("fn main(a: i32) -> () { }");
    let error = Basic::new().run(&file).unwrap_err();
    assert_eq!(error.reason, "Main function takes no arguments, but 1 was provided");
    assert_eq!(error.span, span(1, 4, 7));
}

#[test]
fn main_with_several_parameters() {
    let file = parse("fn main(a: i32, b: i32, c: i32) -> () { }");
    let error = Basic::new().run(&file).unwrap_err();
    assert_eq!(error.reason, "Main function takes no arguments, but 3 were provided");
    assert_eq!(error.span, span(1, 4, 7));
    let error = CheckMain::new().run(&file).unwrap_err();
    assert_eq!(error.reason, "Main function takes no arguments, but 3 were provided");
}

#[test]
fn last_main_counts() {
    let file = parse("fn main(a: i32) -> () { } fn main() -> () { }");
    assert!(Basic::new().run(&file).is_ok());
    let file = parse("fn main() -> () { } fn main(a: i32, b: i32) -> () { }");
    let error = Basic::new().run(&file).unwrap_err();
    assert_eq!(error.reason, "Main function takes no arguments, but 2 were provided");
}

#[test]
fn main_in_an_impl_block_does_not_count() {
    let file = parse("impl P { fn main() -> () { } }");
    assert!(Basic::new().run(&file).is_err());
}

#[test]
fn analysis_remembers_the_main_it_has_seen() {
    let with_main = parse("fn main() -> () { }");
    let without_main = parse("fn helper() -> () { }");
    let mut basic = Basic::new();
    assert!(basic.run(&without_main).is_err());
    assert!(basic.run(&with_main).is_ok());
    assert!(basic.run(&without_main).is_ok());
}

#[test]
fn engine_without_analyses_passes() {
    let file = parse("fn helper() -> () { }");
    let mut engine = SemaEngine::new(&file);
    assert!(engine.run().is_ok());
}

#[test]
fn engine_reports_every_failed_analysis_in_order() {
    let file = parse("fn main(a: i32) -> () { }");
    let mut engine =
        SemaEngine::new(&file).register(Box::new(Basic::new())).register(Box::new(CheckMain::new()));
    let errors = engine.run().unwrap_err();
    assert_eq!(errors.len(), 2);
    assert_eq!(errors[0].reason, "Main function takes no arguments, but 1 was provided");
    assert_eq!(errors[1].reason, "Main function takes no arguments, but 1 was provided");
    let file = parse("fn main() -> () { }");
    let mut engine =
        SemaEngine::new(&file).register(Box::new(Basic::new())).register(Box::new(CheckMain::new()));
    assert!(engine.run().is_ok());
}
