use sugar::interpreter::bin_op::{bin_op_value, evaluate_bin_op};
use sugar::interpreter::un_op::{evaluate_un_op, un_op_value};
use sugar::interpreter::{literal_from_bytes, to_interpreter_bytes, Stack, StackIndex, VariableData, STACK_SIZE};
use sugar::parser::expr::{ExprType, Literal};
use sugar::parser::operators::{BinaryOperator, UnaryOperator};
use sugar::parser::stmt::StackLocation;
use sugar::parser::structs::Struct;

fn int_of(l: &Literal) -> i128 {
    match l {
        Literal::IntegerLiteral(v) => *v,
        other => panic!("expected an integer, got {:?}", other),
    }
}

fn boolean(l: &Literal) -> bool {
    match l {
        Literal::BooleanLiteral(b) => *b,
        other => panic!("expected a boolean, got {:?}", other),
    }
}

#[test]
fn integers_are_written_little_endian() {
    let bytes = to_interpreter_bytes(&Literal::IntegerLiteral(0x1234), &ExprType::U16).unwrap();
    assert_eq!(bytes, vec![0x34, 0x12]);
    let bytes = to_interpreter_bytes(&Literal::IntegerLiteral(-1), &ExprType::I32).unwrap();
    assert_eq!(bytes, vec![0xff, 0xff, 0xff, 0xff]);
    let bytes = to_interpreter_bytes(&Literal::IntegerLiteral(300), &ExprType::U8).unwrap();
    assert_eq!(bytes, vec![44]);
    let bytes = to_interpreter_bytes(&Literal::IntegerLiteral(i128::MIN), &ExprType::I128).unwrap();
    assert_eq!(bytes.len(), 16);
    assert_eq!(bytes[15], 0x80);
    assert!(bytes[..15].iter().all(|b| *b == 0));
}

#[test]
fn booleans_are_one_byte() {
    assert_eq!(to_interpreter_bytes(&Literal::BooleanLiteral(true), &ExprType::Bool).unwrap(), vec![1]);
    assert_eq!(to_interpreter_bytes(&Literal::BooleanLiteral(false), &ExprType::Bool).unwrap(), vec![0]);
}

#[test]
fn mismatched_literal_and_type_have_no_bytes() {
    assert!(to_interpreter_bytes(&Literal::BooleanLiteral(true), &ExprType::I32).is_none());
    assert!(to_interpreter_bytes(&Literal::IntegerLiteral(1), &ExprType::Bool).is_none());
    assert!(to_interpreter_bytes(&Literal::IntegerLiteral(1), &ExprType::ISize).is_none());
}

#[test]
fn bytes_are_read_back() {
    assert_eq!(int_of(&literal_from_bytes(&[0xfe], &ExprType::I8)), -2);
    assert_eq!(int_of(&literal_from_bytes(&[0xfe], &ExprType::U8)), 254);
    assert_eq!(int_of(&literal_from_bytes(&[0x34, 0x12], &ExprType::I16)), 0x1234);
    assert!(boolean(&literal_from_bytes(&[7], &ExprType::Bool)));
    assert!(!boolean(&literal_from_bytes(&[0], &ExprType::Bool)));
    let max = [0xffu8; 16];
    assert_eq!(int_of(&literal_from_bytes(&max, &ExprType::U128)), -1);
    let word = 0x0102_0304_0506_0708u64.to_le_bytes();
    assert_eq!(int_of(&literal_from_bytes(&word[..std::mem::size_of::<usize>()], &ExprType::USize)) > 0, true);
}

#[test]
fn literal_roundtrip_through_bytes() {
    for (v, t) in [
        (-128i128, ExprType::I8),
        (127, ExprType::I8),
        (255, ExprType::U8),
        (-32768, ExprType::I16),
        (65535, ExprType::U16),
        (i32::MIN as i128, ExprType::I32),
        (u32::MAX as i128, ExprType::U32),
        (i64::MIN as i128, ExprType::I64),
        (u64::MAX as i128, ExprType::U64),
        (i128::MIN, ExprType::I128),
        (i128::MAX, ExprType::I128),
        (-5, ExprType::U128),
    ] {
        let bytes = to_interpreter_bytes(&Literal::IntegerLiteral(v), &t).unwrap();
        assert_eq!(int_of(&literal_from_bytes(&bytes, &t)), v);
    }
}

#[test]
fn stack_allocations_are_aligned_and_zeroed() {
    let structs: Vec<Struct> = vec![];
    let mut stack = Stack::new();
    let a = stack.stack_alloc(1, &structs, ExprType::U8, StackLocation::Oxy);
    assert_eq!(a.index, StackIndex::Oxy(0));
    let b = stack.stack_alloc(1, &structs, ExprType::U32, StackLocation::Oxy);
    assert_eq!(b.index, StackIndex::Oxy(4));
    let c = stack.stack_alloc(1, &structs, ExprType::U16, StackLocation::GC);
    assert_eq!(c.index, StackIndex::GC(0));
    assert_eq!(stack.get_bytes_from_index(b.index, 4), vec![0, 0, 0, 0]);
}

#[test]
fn written_bytes_are_read_back() {
    let structs: Vec<Struct> = vec![];
    let mut stack = Stack::new();
    let a = stack.stack_alloc(1, &structs, ExprType::I16, StackLocation::GC);
    stack.stack_write(&a, &[0x00, 0x80]);
    assert_eq!(stack.get_bytes_from_index(a.index, 2), vec![0x00, 0x80]);
    assert_eq!(int_of(&stack.get_expr_from_variable_data(&a)), -32768);
    let end = VariableData { index: StackIndex::GC(STACK_SIZE - 1), expr_type: ExprType::U8 };
    stack.stack_write(&end, &[9]);
    assert_eq!(int_of(&stack.get_expr_from_variable_data(&end)), 9);
}

#[test]
fn evaluated_literal_is_read_back() {
    let structs: Vec<Struct> = vec![];
    let mut stack = Stack::new();
    let v = stack.evaluate_literal(1, &structs, &Literal::IntegerLiteral(-7), ExprType::I64);
    assert_eq!(v.index, StackIndex::Oxy(0));
    assert_eq!(int_of(&stack.get_expr_from_variable_data(&v)), -7);
    let w = stack.evaluate_literal(1, &structs, &Literal::BooleanLiteral(true), ExprType::Bool);
    assert_eq!(w.index, StackIndex::Oxy(8));
    assert!(boolean(&stack.get_expr_from_variable_data(&w)));
}

#[test]
fn integer_operators() {
    let a = Literal::IntegerLiteral(-7);
    let b = Literal::IntegerLiteral(2);
    assert_eq!(int_of(&bin_op_value(BinaryOperator::Plus, &a, &b)), -5);
    assert_eq!(int_of(&bin_op_value(BinaryOperator::Minus, &a, &b)), -9);
    assert_eq!(int_of(&bin_op_value(BinaryOperator::Divide, &a, &b)), -3);
    assert_eq!(int_of(&bin_op_value(BinaryOperator::Modulo, &a, &b)), -1);
    assert_eq!(int_of(&bin_op_value(BinaryOperator::Exponent, &a, &b)), 49);
    assert_eq!(int_of(&bin_op_value(BinaryOperator::BitwiseShiftLeft, &a, &b)), -28);
    assert_eq!(int_of(&bin_op_value(BinaryOperator::BitwiseShiftRight, &a, &b)), -2);
    assert_eq!(int_of(&bin_op_value(BinaryOperator::BitwiseAnd, &a, &b)), -7 & 2);
    assert_eq!(int_of(&bin_op_value(BinaryOperator::BitwiseOr, &a, &b)), -7 | 2);
    assert_eq!(int_of(&bin_op_value(BinaryOperator::BitwiseXor, &a, &b)), -7 ^ 2);
    assert!(boolean(&bin_op_value(BinaryOperator::LessThan, &a, &b)));
    assert!(!boolean(&bin_op_value(BinaryOperator::Equals, &a, &b)));
    assert!(boolean(&bin_op_value(BinaryOperator::NotEquals, &a, &b)));
    assert!(boolean(&bin_op_value(BinaryOperator::GreaterThanEqualTo, &b, &a)));
}

#[test]
fn division_rounds_toward_zero() {
    let a = Literal::IntegerLiteral(7);
    let b = Literal::IntegerLiteral(-2);
    assert_eq!(int_of(&bin_op_value(BinaryOperator::Divide, &a, &b)), -3);
    assert_eq!(int_of(&bin_op_value(BinaryOperator::Modulo, &a, &b)), 1);
    let min = Literal::IntegerLiteral(i128::MIN);
    let one = Literal::IntegerLiteral(1);
    assert_eq!(int_of(&bin_op_value(BinaryOperator::Divide, &min, &one)), i128::MIN);
}

#[test]
fn powers() {
    let two = Literal::IntegerLiteral(2);
    assert_eq!(int_of(&bin_op_value(BinaryOperator::Exponent, &two, &Literal::IntegerLiteral(126))), 1i128 << 126);
    assert_eq!(int_of(&bin_op_value(BinaryOperator::Exponent, &Literal::IntegerLiteral(-2), &Literal::IntegerLiteral(127))), i128::MIN);
    assert_eq!(int_of(&bin_op_value(BinaryOperator::Exponent, &Literal::IntegerLiteral(-1), &Literal::IntegerLiteral(1_000_001))), -1);
    assert_eq!(int_of(&bin_op_value(BinaryOperator::Exponent, &Literal::IntegerLiteral(0), &Literal::IntegerLiteral(0))), 1);
    assert_eq!(int_of(&bin_op_value(BinaryOperator::Exponent, &Literal::IntegerLiteral(3), &Literal::IntegerLiteral(1 << 32))), 1);
}

#[test]
fn boolean_operators() {
    let t = Literal::BooleanLiteral(true);
    let f = Literal::BooleanLiteral(false);
    assert!(!boolean(&bin_op_value(BinaryOperator::LogicAnd, &t, &f)));
    assert!(boolean(&bin_op_value(BinaryOperator::LogicOr, &t, &f)));
    assert!(boolean(&bin_op_value(BinaryOperator::BitwiseXor, &t, &f)));
    assert!(!boolean(&bin_op_value(BinaryOperator::BitwiseXor, &t, &t)));
    assert!(boolean(&bin_op_value(BinaryOperator::Equals, &f, &f)));
}

#[test]
fn unary_operators() {
    assert_eq!(int_of(&un_op_value(UnaryOperator::Minus, &Literal::IntegerLiteral(5))), -5);
    assert_eq!(int_of(&un_op_value(UnaryOperator::Plus, &Literal::IntegerLiteral(5))), 5);
    assert_eq!(int_of(&un_op_value(UnaryOperator::BitwiseNegate, &Literal::IntegerLiteral(0))), -1);
    assert!(!boolean(&un_op_value(UnaryOperator::LogicNot, &Literal::BooleanLiteral(true))));
}

#[test]
fn evaluating_operators_on_the_stack() {
    let structs: Vec<Struct> = vec![];
    let mut stack = Stack::new();
    let a = stack.evaluate_literal(1, &structs, &Literal::IntegerLiteral(100), ExprType::I8);
    let b = stack.evaluate_literal(1, &structs, &Literal::IntegerLiteral(100), ExprType::I8);
    let sum = evaluate_bin_op(&mut stack, 1, &structs, BinaryOperator::Plus, &a, &b);
    assert_eq!(sum.expr_type, ExprType::I8);
    assert_eq!(int_of(&stack.get_expr_from_variable_data(&sum)), -56);
    let less = evaluate_bin_op(&mut stack, 1, &structs, BinaryOperator::LessThan, &a, &b);
    assert_eq!(less.expr_type, ExprType::Bool);
    assert!(!boolean(&stack.get_expr_from_variable_data(&less)));
    let neg = evaluate_un_op(&mut stack, 1, &structs, UnaryOperator::Minus, &a);
    assert_eq!(int_of(&stack.get_expr_from_variable_data(&neg)), -100);
}

#[test]
fn integers_are_multiplied() {
    assert_eq!(int_of(&bin_op_value(BinaryOperator::Multiply, &Literal::IntegerLiteral(6), &Literal::IntegerLiteral(7))), 42);
    let structs: Vec<Struct> = vec![];
    let mut stack = Stack::new();
    let a = stack.evaluate_literal(1, &structs, &Literal::IntegerLiteral(6), ExprType::I32);
    let b = stack.evaluate_literal(1, &structs, &Literal::IntegerLiteral(7), ExprType::I32);
    let product = evaluate_bin_op(&mut stack, 1, &structs, BinaryOperator::Multiply, &a, &b);
    assert_eq!(product.expr_type, ExprType::I32);
    assert_eq!(int_of(&stack.get_expr_from_variable_data(&product)), 42);
}

#[test]
fn bitwise_negation_on_the_stack() {
    let structs: Vec<Struct> = vec![];
    let mut stack = Stack::new();
    let a = stack.evaluate_literal(1, &structs, &Literal::IntegerLiteral(5), ExprType::I32);
    let n = evaluate_un_op(&mut stack, 1, &structs, UnaryOperator::BitwiseNegate, &a);
    assert_eq!(n.expr_type, ExprType::I32);
    assert_eq!(int_of(&stack.get_expr_from_variable_data(&n)), -6);
}

fn run_program(src: &str, fuel: u64) -> (sugar::interpreter::run::RunOutcome, String) {
    let mut lexer = sugar::lexer::tokenize::Lexer::new("test.sgr", src);
    let tokens = lexer.tokenize();
    let mut cells = sugar::parser::expr::TypeCells::new();
    let (program, functions) = match sugar::parser::parse_stmt::parse_program(&tokens, &mut cells) {
        Ok(parsed) => parsed,
        Err(errors) => panic!("the program did not parse: {} errors", errors.len()),
    };
    sugar::interpreter::run::interpret(&program.structs, &functions, &cells, fuel)
}

#[test]
fn a_program_prints_an_integer_it_computed() {
    let (end, out) = run_program("fn main { let x: i32 = 6 * 7; print_i32 x; }", 10_000);
    assert!(matches!(end, sugar::interpreter::run::RunOutcome::Finished));
    assert_eq!(out, "42");
}

#[test]
fn a_while_loop_counts() {
    let (end, out) = run_program(
        "fn main { let mut i: i32 = 0; while i < 3 { print_i32 i; i = i + 1; } }",
        10_000,
    );
    assert!(matches!(end, sugar::interpreter::run::RunOutcome::Finished));
    assert_eq!(out, "012");
}

#[test]
fn print_string_decodes_its_escapes() {
    let (end, out) = run_program("fn main { print_string \"a\\nb\"; }", 10_000);
    assert!(matches!(end, sugar::interpreter::run::RunOutcome::Finished));
    assert_eq!(out, "a\nb");
}

#[test]
fn a_panic_stops_the_program_with_its_line() {
    let (end, out) = run_program("fn main {\nprint_string \"hi\";\npanic \"boom\";\nprint_string \"never\"; }", 10_000);
    match end {
        sugar::interpreter::run::RunOutcome::Panicked(m) => assert_eq!(m, "line 3: boom"),
        _ => panic!("expected a panic"),
    }
    assert_eq!(out, "hi");
}

#[test]
fn an_else_branch_runs_when_the_condition_fails() {
    let (end, out) = run_program(
        "fn main { let x: i32 = 2; if x == 1 { print_i32 1; } else { print_i32 0; } }",
        10_000,
    );
    assert!(matches!(end, sugar::interpreter::run::RunOutcome::Finished));
    assert_eq!(out, "0");
}

#[test]
fn a_function_of_the_program_is_called() {
    let (end, out) = run_program(
        "fn twice (a: i32) = i32 { return a * 2; } fn main { let y: i32 = twice 21; print_i32 y; }",
        10_000,
    );
    assert!(matches!(end, sugar::interpreter::run::RunOutcome::Finished));
    assert_eq!(out, "42");
}

#[test]
fn a_program_without_main_does_not_run() {
    let (end, out) = run_program("fn helper { print_i32 1; }", 10_000);
    assert!(matches!(end, sugar::interpreter::run::RunOutcome::NoEntryPoint));
    assert_eq!(out, "");
}

#[test]
fn a_main_with_arguments_does_not_run() {
    let (end, _) = run_program("fn main (a: i32) { print_i32 a; }", 10_000);
    assert!(matches!(end, sugar::interpreter::run::RunOutcome::MainHasArguments));
}

#[test]
fn an_endless_loop_runs_out_of_fuel() {
    let (end, out) = run_program("fn main { while true { print_i32 1; } }", 200);
    assert!(matches!(end, sugar::interpreter::run::RunOutcome::OutOfFuel));
    assert_eq!(out, "");
}

#[test]
fn a_malformed_escape_stops_the_program() {
    let (end, out) = run_program("fn main { print_i32 5; print_string \"a\\qb\"; }", 10_000);
    match end {
        sugar::interpreter::run::RunOutcome::Panicked(m) => assert_eq!(m, "a\\qb was an invalid string"),
        _ => panic!("expected a panic"),
    }
    assert_eq!(out, "5");
}

#[test]
fn a_variable_reads_back_what_was_assigned() {
    let (end, out) = run_program(
        "fn main { let mut x: i32 = 1; x = 0 - 250; print_i32 x; x = x * 2; print_i32 x; }",
        10_000,
    );
    assert!(matches!(end, sugar::interpreter::run::RunOutcome::Finished));
    assert_eq!(out, "-250-500");
}
