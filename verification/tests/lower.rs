use scooter::ast::{File, Item, Stmt};
use scooter::ir::{
    Addr, BinInstr, CallInstr, CopyInstr, IRRoot, Instr, IrError, Label, LowerError,
    LowerErrorKind, LoweringEngine, LoweringPool, Op, ParamInstr, RetInstr, UnInstr,
};
use scooter::lexer::Lexer;
use scooter::parser::Parser;
use scooter::shared::span::{Location, Span};

fn parse(source: &str) -> File {
    let source: Vec<char> = source.chars().collect();
    let mut lexer = Lexer::new(&source);
    let tokens = match lexer.lex() {
        Ok(tokens) => tokens,
        Err(error) => panic!("lexing failed: {}", error.reason),
    };
    let mut parser = Parser::new(&tokens);
    match parser.parse_file() {
        Ok(file) => file,
        Err(error) => panic!("parsing failed: {}", error.reason),
    }
}

fn lowered(file: &File) -> IRRoot<'_> {
    match LoweringEngine::new(file).lower() {
        Ok(ir) => ir,
        Err(error) => panic!("lowering failed: {}", error.reason),
    }
}

fn failure(source: &str) -> LowerError {
    let file = parse(source);
    let result = LoweringEngine::new(&file).lower();
    match result {
        Ok(_) => panic!("lowering succeeded"),
        Err(error) => error,
    }
}

fn copy(label: Option<usize>, da: Addr, ad: Addr) -> Instr {
    Instr::Copy(CopyInstr { label: label.map(Label), da, ad })
}

fn binary(da: Addr, la: Addr, op: Op, ra: Addr) -> Instr {
    Instr::Binary(BinInstr { label: None, da, la, op, ra })
}

fn ret(ad: Addr) -> Instr {
    Instr::Return(RetInstr { label: None, ad })
}

fn param(ad: Addr) -> Instr {
    Instr::Param(ParamInstr { label: None, ad })
}

fn call(da: Addr, fl: usize, n: usize) -> Instr {
    Instr::Call(CallInstr { label: None, da, fl: Label(fl), n })
}

#[test]
fn let_of_a_sum_then_return() {
    let file = parse("fn f() -> i32 { let x: i32 = 1 + 2; return x; }");
    let ir = lowered(&file);
    assert_eq!(
        ir.instrs,
        vec![
            copy(Some(0), Addr::Temp(0), Addr::Const(0)),
            copy(None, Addr::Temp(1), Addr::Const(1)),
            binary(Addr::Temp(2), Addr::Temp(0), Op::Plus, Addr::Temp(1)),
            copy(None, Addr::Name(0), Addr::Temp(2)),
            copy(None, Addr::Temp(3), Addr::Name(0)),
            ret(Addr::Temp(3)),
        ]
    );
    assert_eq!(ir.interner.integers.value_of(0), Some(&1));
    assert_eq!(ir.interner.integers.value_of(1), Some(&2));
    assert_eq!(ir.interner.integers.value_of(2), None);
    assert_eq!(ir.label_count, 1);
}

#[test]
fn equal_literals_share_a_constant() {
    let file = parse("fn f() -> i32 { return 7 * 7 + 8; }");
    let ir = lowered(&file);
    assert_eq!(
        ir.instrs,
        vec![
            copy(Some(0), Addr::Temp(0), Addr::Const(0)),
            copy(None, Addr::Temp(1), Addr::Const(0)),
            binary(Addr::Temp(2), Addr::Temp(0), Op::Mult, Addr::Temp(1)),
            copy(None, Addr::Temp(3), Addr::Const(1)),
            binary(Addr::Temp(4), Addr::Temp(2), Op::Plus, Addr::Temp(3)),
            ret(Addr::Temp(4)),
        ]
    );
    assert_eq!(ir.interner.integers.index_of(&7), Some(&0));
    assert_eq!(ir.interner.integers.index_of(&8), Some(&1));
}

#[test]
fn operands_are_lowered_left_before_right() {
    let file = parse("fn f() -> i32 { return 1 + 2 * 3; }");
    let ir = lowered(&file);
    assert_eq!(
        ir.instrs,
        vec![
            copy(Some(0), Addr::Temp(0), Addr::Const(0)),
            copy(None, Addr::Temp(1), Addr::Const(1)),
            copy(None, Addr::Temp(2), Addr::Const(2)),
            binary(Addr::Temp(3), Addr::Temp(1), Op::Mult, Addr::Temp(2)),
            binary(Addr::Temp(4), Addr::Temp(0), Op::Plus, Addr::Temp(3)),
            ret(Addr::Temp(4)),
        ]
    );
}

#[test]
fn call_hands_over_each_argument_with_a_param() {
    let file = parse("fn g() -> i32 { return 1; } fn f() -> i32 { return g(1, 2 * 3); }");
    let ir = lowered(&file);
    assert_eq!(
        ir.instrs,
        vec![
            copy(Some(0), Addr::Temp(0), Addr::Const(0)),
            ret(Addr::Temp(0)),
            copy(Some(1), Addr::Temp(1), Addr::Const(0)),
            param(Addr::Temp(1)),
            copy(None, Addr::Temp(2), Addr::Const(1)),
            copy(None, Addr::Temp(3), Addr::Const(2)),
            binary(Addr::Temp(4), Addr::Temp(2), Op::Mult, Addr::Temp(3)),
            param(Addr::Temp(4)),
            call(Addr::Temp(5), 0, 2),
            ret(Addr::Temp(5)),
        ]
    );
    assert_eq!(ir.label_count, 2);
}

#[test]
fn call_without_arguments_and_recursion() {
    let file = parse("fn f() -> i32 { return f(); }");
    let ir = lowered(&file);
    assert_eq!(
        ir.instrs,
        vec![
            Instr::Call(CallInstr { label: Some(Label(0)), da: Addr::Temp(0), fl: Label(0), n: 0 }),
            ret(Addr::Temp(0)),
        ]
    );
}

#[test]
fn nested_calls_count_params_and_binaries() {
    let file = parse(
        "fn g(a: i32, b: i32) -> i32 { return 1; } fn f() -> i32 { let y: i32 = g(g(1, 2), 3 + 4) * g(5 + 6 * 7, 8); return y + y; }",
    );
    let ir = lowered(&file);
    let first = 2;
    let params = ir.instrs[first..].iter().filter(|instr| matches!(instr, Instr::Param(_))).count();
    let binaries =
        ir.instrs[first..].iter().filter(|instr| matches!(instr, Instr::Binary(_))).count();
    let calls = ir.instrs[first..].iter().filter(|instr| matches!(instr, Instr::Call(_))).count();
    assert_eq!(params, 6);
    assert_eq!(binaries, 5);
    assert_eq!(calls, 3);
    for instr in &ir.instrs {
        if let Instr::Call(call) = instr {
            assert_eq!(call.n, 2);
            assert_eq!(call.fl, Label(0));
        }
    }
}

#[test]
fn no_temporary_and_no_name_is_written_twice() {
    let file = parse(
        "fn g(a: i32) -> i32 { let x: i32 = 1; let x: i32 = x + 1; return x; } fn f() -> i32 { let x: i32 = g(2) * g(3 + 4); let y: i32 = x; return y + x * 5; } fn h() -> () { }",
    );
    let ir = lowered(&file);
    let mut temps = Vec::new();
    let mut names = Vec::new();
    for instr in &ir.instrs {
        if instr.has_da() {
            match instr.da() {
                Addr::Temp(index) => temps.push(*index),
                Addr::Name(index) => names.push(*index),
                Addr::Const(_) => panic!("a constant is written to"),
            }
        }
    }
    let expected_temps: Vec<usize> = (0..temps.len()).collect();
    let expected_names: Vec<usize> = (0..names.len()).collect();
    assert_eq!(temps, expected_temps);
    assert_eq!(names, expected_names);
    assert_eq!(names.len(), 4);
}

#[test]
fn first_instruction_of_each_function_carries_its_label() {
    let file = parse(
        "fn a() -> i32 { return 1; } struct S { } fn b() -> () { } fn c() -> i32 { let x: i32 = 2; return a(); }",
    );
    let ir = lowered(&file);
    let labelled: Vec<(usize, Label)> = ir
        .instrs
        .iter()
        .enumerate()
        .filter_map(|(i, instr)| instr.label().map(|label| (i, label)))
        .collect();
    assert_eq!(labelled, vec![(0, Label(0)), (2, Label(1)), (3, Label(2))]);
    assert_eq!(ir.label_count, 3);
}

#[test]
fn body_without_statements_gets_a_placeholder() {
    let file = parse("fn f() -> () { } fn g() -> () { }");
    let ir = lowered(&file);
    assert_eq!(
        ir.instrs,
        vec![
            copy(Some(0), Addr::Temp(0), Addr::Temp(0)),
            copy(Some(1), Addr::Temp(1), Addr::Temp(1)),
        ]
    );
}

#[test]
fn file_without_functions_has_no_code() {
    let file = parse("struct S { x: i32 } impl S { fn f(self) -> i32 { return 1; } }");
    let ir = lowered(&file);
    assert!(ir.instrs.is_empty());
    assert_eq!(ir.label_count, 0);
    assert_eq!(ir.human_readable().ok().unwrap(), "");
}

#[test]
fn let_binds_its_name_after_its_expression() {
    let file = parse("fn f() -> i32 { let x: i32 = 1; let x: i32 = x; return x; }");
    let ir = lowered(&file);
    assert_eq!(
        ir.instrs,
        vec![
            copy(Some(0), Addr::Temp(0), Addr::Const(0)),
            copy(None, Addr::Name(0), Addr::Temp(0)),
            copy(None, Addr::Temp(1), Addr::Name(0)),
            copy(None, Addr::Name(1), Addr::Temp(1)),
            copy(None, Addr::Temp(2), Addr::Name(1)),
            ret(Addr::Temp(2)),
        ]
    );
    let error = failure("fn f() -> i32 { let x: i32 = x; return x; }");
    assert_eq!(error.kind, LowerErrorKind::UnresolvedName);
}

#[test]
fn expression_statement_is_copied_to_a_temporary() {
    let mut file = parse("fn f() -> i32 { return 1; return 2; }");
    if let Item::Fn(item_fn) = &mut file.items[0] {
        let first = item_fn.body.stmts.remove(0);
        if let Stmt::Return(ret) = first {
            item_fn.body.stmts.insert(0, Stmt::Expr(ret.expr));
        }
    }
    let ir = lowered(&file);
    assert_eq!(
        ir.instrs,
        vec![
            copy(Some(0), Addr::Temp(0), Addr::Const(0)),
            copy(None, Addr::Temp(1), Addr::Temp(0)),
            copy(None, Addr::Temp(2), Addr::Const(1)),
            ret(Addr::Temp(2)),
        ]
    );
}

#[test]
fn unresolved_name_fails() {
    let error = failure("fn f() -> i32 { return y; }");
    assert_eq!(error.kind, LowerErrorKind::UnresolvedName);
    assert_eq!(error.reason, "Cannot find 'y' in this scope");
    assert_eq!(error.span, Some(Span::new(Location::new(1, 24), Location::new(1, 24))));
}

#[test]
fn names_do_not_outlive_their_function() {
    let error = failure("fn f() -> i32 { let x: i32 = 1; return x; } fn g() -> i32 { return x; }");
    assert_eq!(error.kind, LowerErrorKind::UnresolvedName);
    assert_eq!(error.reason, "Cannot find 'x' in this scope");
}

#[test]
fn undefined_function_fails() {
    let error = failure("fn f() -> i32 { return g(1); }");
    assert_eq!(error.kind, LowerErrorKind::UndefinedFunction);
    assert_eq!(error.reason, "Undefined function 'g'");
    assert_eq!(error.span, Some(Span::new(Location::new(1, 24), Location::new(1, 24))));
}

#[test]
fn function_can_be_called_before_its_declaration() {
    let file = parse("fn f() -> i32 { return g(); } fn g() -> i32 { return 1; }");
    let ir = lowered(&file);
    assert_eq!(
        ir.instrs,
        vec![
            Instr::Call(CallInstr { label: Some(Label(0)), da: Addr::Temp(0), fl: Label(1), n: 0 }),
            ret(Addr::Temp(0)),
            copy(Some(1), Addr::Temp(1), Addr::Const(0)),
            ret(Addr::Temp(1)),
        ]
    );
    assert_eq!(ir.label_count, 2);
}

#[test]
fn only_the_integer_pool_is_filled() {
    let file = parse("fn f() -> i32 { return 1 + 2; }");
    let ir = lowered(&file);
    assert_eq!(ir.interner.booleans.value_of(0), None);
    assert_eq!(ir.interner.strings.value_of(0), None);
    assert_eq!(ir.interner.integers.value_of(1), Some(&2));
}

#[test]
fn first_failure_is_reported() {
    let error = failure("fn f() -> i32 { return a + g(); }");
    assert_eq!(error.kind, LowerErrorKind::UnresolvedName);
    let error = failure("fn f() -> i32 { return g(a); }");
    assert_eq!(error.kind, LowerErrorKind::UnresolvedName);
    let error = failure("fn f() -> i32 { return g() + a; }");
    assert_eq!(error.kind, LowerErrorKind::UndefinedFunction);
}

#[test]
fn struct_literal_cannot_be_lowered() {
    let error = failure("fn f() -> P { return P { x: 1 }; }");
    assert_eq!(error.kind, LowerErrorKind::UnsupportedExpr);
    assert_eq!(error.reason, "Cannot lower the struct literal 'P'");
}

#[test]
fn function_declared_twice_keeps_its_label() {
    let file = parse("fn f() -> i32 { return 1; } fn f() -> i32 { return f(); }");
    let ir = lowered(&file);
    assert_eq!(ir.label_count, 1);
    assert_eq!(ir.instrs[0].label(), Some(Label(0)));
    assert_eq!(ir.instrs[2].label(), Some(Label(0)));
}

#[test]
fn human_readable_lines() {
    let file = parse("fn g() -> i32 { return 1; } fn f() -> i32 { let x: i32 = g(1, 2 * 3) + 40; return x; }");
    let ir = lowered(&file);
    assert_eq!(
        ir.human_readable().ok().unwrap(),
        "l0: t0 = 1\n    ret t0\nl1: t1 = 1\n    param t1\n    t2 = 2\n    t3 = 3\n    t4 = t2 * t3\n    param t4\n    t5 = call l0, 2\n    t6 = 40\n    t7 = t5 + t6\n    x0 = t7\n    t8 = x0\n    ret t8\n"
    );
}

#[test]
fn label_column_is_as_wide_as_the_last_label() {
    let mut source = String::new();
    for i in 0..11 {
        source.push_str(&format!("fn f{}() -> i32 {{ return {}; }} ", i, i));
    }
    let file = parse(&source);
    let ir = lowered(&file);
    assert_eq!(ir.label_count, 11);
    let text = ir.human_readable().ok().unwrap();
    let lines: Vec<&str> = text.lines().collect();
    assert_eq!(lines.len(), 22);
    assert_eq!(lines[0], "l0:  t0 = 0");
    assert_eq!(lines[1], "     ret t0");
    assert_eq!(lines[20], "l10: t10 = 10");
    assert_eq!(lines[21], "     ret t10");
}

#[test]
fn rendering_by_hand_made_instructions() {
    let mut interner = LoweringPool::new();
    interner.integers.insert(-5);
    let ir = IRRoot {
        label_count: 1,
        interner,
        instrs: vec![
            Instr::Unary(UnInstr {
                label: Some(Label(123)),
                da: Addr::Name(2),
                op: Op::Plus,
                ad: Addr::Const(0),
            }),
            Instr::Param(ParamInstr { label: None, ad: Addr::Const(0) }),
        ],
    };
    assert_eq!(ir.human_readable().ok().unwrap(), "l123:x2 = + -5\n    param -5\n");
}

#[test]
fn rendering_refuses_a_constant_destination() {
    let mut interner = LoweringPool::new();
    interner.integers.insert(1);
    let ir = IRRoot {
        label_count: 0,
        interner,
        instrs: vec![copy(None, Addr::Const(0), Addr::Temp(0))],
    };
    assert_eq!(ir.human_readable(), Err(IrError::InvalidDestination));
}

#[test]
fn rendering_refuses_a_constant_that_is_not_in_the_pool() {
    let ir = IRRoot {
        label_count: 0,
        interner: LoweringPool::new(),
        instrs: vec![
            copy(None, Addr::Temp(0), Addr::Temp(0)),
            ret(Addr::Const(0)),
        ],
    };
    assert_eq!(ir.human_readable(), Err(IrError::UnknownConstant));
}
