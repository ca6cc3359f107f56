use sugar::full_result::FullResult;
use sugar::lexer::token::{Tkn, TokenType};
use sugar::lexer::tokenize::Lexer;
use sugar::parser::expr::{ExprType, ExprTypeCons, Literal, TypeCells};
use sugar::parser::expr_parse::{Expression, ExpressionData, VariableData};
use sugar::parser::functions::{define_function, FullFunctionDefinition};
use sugar::parser::operators::{BinaryOperator, UnaryOperator};
use sugar::parser::parse_set::parse_expression_set;
use sugar::parser::parser_error::ParserError;
use sugar::parser::stmt::{parse_expr_statement, Statement};
use sugar::parser::structs::{define_struct, parse_struct, Struct};

fn lex(src: &str) -> Vec<Tkn> {
    let mut lexer = Lexer::new("test.sgr", src);
    lexer.tokenize()
}

fn point_struct() -> Struct {
    let tokens = lex("pub struct Point { pub x: i32, pub y: i32 }");
    let mut index = 0;
    let def = match define_struct(&tokens, &mut index) {
        FullResult::Okay(def) => def,
        _ => panic!("expected a struct"),
    };
    parse_struct(&def, &[], &["Point"]).unwrap()
}

fn parse_with(
    src: &str,
    structs: &[Struct],
    variables: &[(String, VariableData)],
    cells: &mut TypeCells,
) -> (Result<Expression, ParserError>, usize) {
    let tokens = lex(src);
    let functions: Vec<FullFunctionDefinition> = Vec::new();
    let mut index = 0;
    let r = parse_expression_set(structs, &tokens, &mut index, 1, &functions, variables, cells);
    (r, index)
}

fn parse_alone(src: &str) -> (Result<Expression, ParserError>, usize, TypeCells) {
    let mut cells = TypeCells::new();
    let (r, index) = parse_with(src, &[], &[], &mut cells);
    (r, index, cells)
}

fn literal_int(e: &Expression) -> i128 {
    match &*e.expr_data {
        ExpressionData::Literal(Literal::IntegerLiteral(v)) => *v,
        other => panic!("expected an integer literal, got {:?}", other),
    }
}

#[test]
fn parses_a_literal() {
    let (r, index, cells) = parse_alone("42 ;");
    let e = r.unwrap();
    assert_eq!(literal_int(&e), 42);
    assert_eq!(e.line, 1);
    assert_eq!(index, 1);
    assert_eq!(e.expr_type.clone_inner(&cells), ExprType::AmbiguousPosInteger);
}

#[test]
fn multiplication_binds_tighter_than_addition() {
    let (r, index, _cells) = parse_alone("1 + 2 * 3 ;");
    let e = r.unwrap();
    assert_eq!(index, 5);
    match &*e.expr_data {
        ExpressionData::BinaryOp(BinaryOperator::Plus, l, r) => {
            assert_eq!(literal_int(l), 1);
            match &*r.expr_data {
                ExpressionData::BinaryOp(BinaryOperator::Multiply, a, b) => {
                    assert_eq!(literal_int(a), 2);
                    assert_eq!(literal_int(b), 3);
                },
                other => panic!("expected a product, got {:?}", other),
            }
        },
        other => panic!("expected a sum, got {:?}", other),
    }
}

#[test]
fn subtraction_groups_to_the_left() {
    let (r, _index, _cells) = parse_alone("5 - 2 - 1 ;");
    let e = r.unwrap();
    match &*e.expr_data {
        ExpressionData::BinaryOp(BinaryOperator::Minus, l, r) => {
            assert_eq!(literal_int(r), 1);
            assert!(matches!(&*l.expr_data, ExpressionData::BinaryOp(BinaryOperator::Minus, _, _)));
        },
        other => panic!("expected a difference, got {:?}", other),
    }
}

#[test]
fn parentheses_group_an_expression() {
    let (r, index, _cells) = parse_alone("( 1 + 2 ) * 3 ;");
    let e = r.unwrap();
    assert_eq!(index, 7);
    match &*e.expr_data {
        ExpressionData::BinaryOp(BinaryOperator::Multiply, l, r) => {
            assert!(matches!(&*l.expr_data, ExpressionData::BinaryOp(BinaryOperator::Plus, _, _)));
            assert_eq!(literal_int(r), 3);
        },
        other => panic!("expected a product, got {:?}", other),
    }
}

#[test]
fn a_prefix_operator_wraps_the_atom() {
    let (r, _index, cells) = parse_alone("! true ;");
    let e = r.unwrap();
    match &*e.expr_data {
        ExpressionData::UnaryOp(UnaryOperator::LogicNot, inner) => {
            assert!(matches!(&*inner.expr_data, ExpressionData::Literal(Literal::BooleanLiteral(true))));
        },
        other => panic!("expected a negation, got {:?}", other),
    }
    assert_eq!(e.expr_type.clone_inner(&cells), ExprType::Bool);
}

#[test]
fn two_expressions_in_a_set_are_an_error() {
    let (r, _index, _cells) = parse_alone("1 2 ;");
    match r {
        Err(ParserError::MultipleExpressions { expr, .. }) => assert_eq!(expr.len(), 2),
        other => panic!("expected an error, got {:?}", other),
    }
}

#[test]
fn an_empty_set_gives_the_error_that_ended_it() {
    let (r, index, _cells) = parse_alone("; 1");
    assert!(matches!(r, Err(ParserError::InvalidExpressionAtom { .. })));
    assert_eq!(index, 0);
}

#[test]
fn an_unknown_name_is_an_error() {
    let (r, _index, _cells) = parse_alone("nothing ;");
    assert!(matches!(r, Err(ParserError::VariableDoesNotExist { .. })));
}

#[test]
fn a_variable_has_its_type() {
    let mut cells = TypeCells::new();
    let tokens = lex("flag");
    let ty = ExprTypeCons::new(&mut cells, ExprType::Bool);
    let var = VariableData::new(tokens[0].clone(), false, ty);
    let variables = vec![("flag".to_string(), var)];
    assert_eq!(variables[0].1.get_type(&cells), ExprType::Bool);
    let (r, index) = parse_with("flag && true ;", &[], &variables, &mut cells);
    let e = r.unwrap();
    assert_eq!(index, 3);
    assert!(matches!(&*e.expr_data, ExpressionData::BinaryOp(BinaryOperator::LogicAnd, _, _)));
    assert_eq!(e.expr_type.clone_inner(&cells), ExprType::Bool);
}

#[test]
fn mismatched_operands_are_an_error() {
    let (r, _index, _cells) = parse_alone("1 + true ;");
    match r {
        Err(ParserError::CouldNotMatchType { calculated_type, expected_type, .. }) => {
            assert_eq!(calculated_type, ExprType::Bool);
            assert_eq!(expected_type, ExprType::AmbiguousPosInteger);
        },
        other => panic!("expected a type error, got {:?}", other),
    }
}

#[test]
fn a_built_in_function_takes_its_right_argument() {
    let (r, index, cells) = parse_alone("print_i32 7 ;");
    let e = r.unwrap();
    assert_eq!(index, 2);
    match &*e.expr_data {
        ExpressionData::Function { name, left_args, right_args } => {
            assert_eq!(name, "print_i32");
            assert!(left_args.is_empty());
            assert_eq!(right_args.len(), 1);
            assert_eq!(literal_int(&right_args[0]), 7);
            assert_eq!(right_args[0].expr_type.clone_inner(&cells), ExprType::I32);
        },
        other => panic!("expected a call, got {:?}", other),
    }
    assert_eq!(e.expr_type.clone_inner(&cells), ExprType::Void);
}

#[test]
fn a_built_in_function_checks_its_argument_type() {
    let (r, _index, _cells) = parse_alone("print_i32 true ;");
    match r {
        Err(ParserError::CouldNotMatchType { expected_type, .. }) => assert_eq!(expected_type, ExprType::I32),
        other => panic!("expected a type error, got {:?}", other),
    }
}

#[test]
fn a_struct_value_and_its_field() {
    let structs = vec![point_struct()];
    let mut cells = TypeCells::new();
    let (r, index) = parse_with("Point { x: 1, y: 2 } . y ;", &structs, &[], &mut cells);
    let e = r.unwrap();
    assert_eq!(index, 12);
    match &*e.expr_data {
        ExpressionData::CustomField { data, field_name, field_type } => {
            assert_eq!(field_name, "y");
            assert_eq!(*field_type, ExprType::I32);
            match &*data.expr_data {
                ExpressionData::Custom { fields } => {
                    assert_eq!(fields.len(), 2);
                    assert_eq!(fields[0].0, "x");
                    assert_eq!(fields[1].0, "y");
                },
                other => panic!("expected a struct value, got {:?}", other),
            }
        },
        other => panic!("expected a field, got {:?}", other),
    }
    assert_eq!(e.expr_type.clone_inner(&cells), ExprType::I32);
}

#[test]
fn a_struct_field_given_twice_is_an_error() {
    let structs = vec![point_struct()];
    let mut cells = TypeCells::new();
    let (r, _index) = parse_with("Point { x: 1, x: 2 } ;", &structs, &[], &mut cells);
    assert!(matches!(r, Err(ParserError::AlreadyDefinedField { .. })));
}

#[test]
fn an_unknown_struct_field_is_an_error() {
    let structs = vec![point_struct()];
    let mut cells = TypeCells::new();
    let (r, _index) = parse_with("Point { z: 1 } ;", &structs, &[], &mut cells);
    assert!(matches!(r, Err(ParserError::FieldDoesNotExist { .. })));
}

#[test]
fn an_anonymous_struct_value_and_its_field() {
    let (r, _index, cells) = parse_alone("{ a: 1, b: true } . b ;");
    let e = r.unwrap();
    match &*e.expr_data {
        ExpressionData::AnonymousCustomField { field_name, .. } => assert_eq!(field_name, "b"),
        other => panic!("expected a field, got {:?}", other),
    }
    assert_eq!(e.expr_type.clone_inner(&cells), ExprType::Bool);
}

#[test]
fn a_dot_on_a_number_is_an_error() {
    let (r, _index, _cells) = parse_alone("1 . a ;");
    assert!(matches!(r, Err(ParserError::InvalidDotExpression { .. })));
}

fn statement(src: &str) -> (FullResult<sugar::parser::stmt::StmtData, ParserError, ParserError>, usize) {
    let tokens = lex(src);
    let functions: Vec<FullFunctionDefinition> = Vec::new();
    let mut cells = TypeCells::new();
    let mut index = 0;
    let r = parse_expr_statement(&[], 3, &functions, &[], &tokens, &mut index, &mut cells);
    (r, index)
}

#[test]
fn an_expression_statement_ends_with_a_semicolon() {
    let (r, index) = statement("1 + 2 ; 3");
    match r {
        FullResult::Okay(s) => {
            assert_eq!(s.line, 3);
            match s.stmt {
                Statement::Expr(e) => assert!(matches!(&*e.expr_data, ExpressionData::BinaryOp(BinaryOperator::Plus, _, _))),
                other => panic!("expected an expression statement, got {:?}", other),
            }
        },
        _ => panic!("expected a statement"),
    }
    assert_eq!(index, 4);
}

#[test]
fn an_expression_statement_without_semicolon_is_a_hard_error() {
    let (r, index) = statement("1 + 2 )");
    match r {
        FullResult::HardErr(ParserError::ExpectedToken { tkn, .. }) => assert!(matches!(tkn.token, TokenType::CloseParen)),
        _ => panic!("expected a hard error"),
    }
    assert_eq!(index, 0);
}

#[test]
fn no_expression_is_a_soft_error() {
    let (r, index) = statement("; 1");
    assert!(matches!(r, FullResult::SoftErr(ParserError::InvalidExpressionAtom { .. })));
    assert_eq!(index, 0);
}

fn function(src: &str) -> FullFunctionDefinition {
    let tokens = lex(src);
    let mut index = 0;
    let def = match define_function(&tokens, &mut index) {
        FullResult::Okay(def) => def,
        _ => panic!("expected a function"),
    };
    FullFunctionDefinition::from_partial_fn_def(def, &[], &[]).unwrap().0
}

fn parse_calls(src: &str, functions: &[FullFunctionDefinition]) -> (Result<Expression, ParserError>, usize, TypeCells) {
    let tokens = lex(src);
    let mut cells = TypeCells::new();
    let mut index = 0;
    let r = parse_expression_set(&[], &tokens, &mut index, 1, functions, &[], &mut cells);
    (r, index, cells)
}

#[test]
fn a_postfix_function_takes_the_expression_before_it() {
    let functions = vec![function("pub fn square (a: i32) postfix = i32 { return a * a; }")];
    let (r, index, cells) = parse_calls("2 + 7 square ;", &functions);
    let e = r.unwrap();
    assert_eq!(index, 4);
    match &*e.expr_data {
        ExpressionData::Function { name, left_args, right_args } => {
            assert_eq!(name, "square");
            assert!(right_args.is_empty());
            assert_eq!(left_args.len(), 1);
            assert!(matches!(&*left_args[0].expr_data, ExpressionData::BinaryOp(BinaryOperator::Plus, _, _)));
        },
        other => panic!("expected a call, got {:?}", other),
    }
    assert_eq!(e.expr_type.clone_inner(&cells), ExprType::I32);
}

#[test]
fn an_infix_function_takes_arguments_on_both_sides() {
    let functions = vec![function("pub fn add (a: i32) infix (b: i32) = i32 { return a + b; }")];
    let (r, _index, _cells) = parse_calls("1 add 2 ;", &functions);
    match &*r.unwrap().expr_data {
        ExpressionData::Function { name, left_args, right_args } => {
            assert_eq!(name, "add");
            assert_eq!(literal_int(&left_args[0]), 1);
            assert_eq!(literal_int(&right_args[0]), 2);
        },
        other => panic!("expected a call, got {:?}", other),
    }
}

#[test]
fn a_function_with_too_few_left_arguments_is_an_error() {
    let functions = vec![function("pub fn add (a: i32) infix (b: i32) = i32 { return a + b; }")];
    let (r, _index, _cells) = parse_calls("add 2 ;", &functions);
    match r {
        Err(ParserError::IncorrectNumberPrefixArguments { args, expected_args, function, .. }) => {
            assert!(args.is_empty());
            assert_eq!(expected_args, vec![ExprType::I32]);
            assert_eq!(function, "add");
        },
        other => panic!("expected an error, got {:?}", other),
    }
}

#[test]
fn a_struct_field_can_be_given_by_a_variable_of_its_name() {
    let structs = vec![point_struct()];
    let mut cells = TypeCells::new();
    let tokens = lex("x y");
    let tx = ExprTypeCons::new(&mut cells, ExprType::I32);
    let ty = ExprTypeCons::new(&mut cells, ExprType::I32);
    let variables = vec![
        ("x".to_string(), VariableData::new(tokens[0].clone(), false, tx)),
        ("y".to_string(), VariableData::new(tokens[1].clone(), false, ty)),
    ];
    let (r, _index) = parse_with("Point { x, y } ;", &structs, &variables, &mut cells);
    let e = r.unwrap();
    match &*e.expr_data {
        ExpressionData::Custom { fields } => {
            assert_eq!(fields.len(), 2);
            assert!(matches!(&fields[0].1, ExpressionData::Identifier(n) if n == "x"));
            assert!(matches!(&fields[1].1, ExpressionData::Identifier(n) if n == "y"));
        },
        other => panic!("expected a struct value, got {:?}", other),
    }
    assert_eq!(e.expr_type.clone_inner(&cells), ExprType::Custom { ident: "Point".to_string() });
}

#[test]
fn bitwise_operators_on_integers() {
    let (r, _index, cells) = parse_alone("~ 5 ;");
    let e = r.unwrap();
    assert!(matches!(&*e.expr_data, ExpressionData::UnaryOp(UnaryOperator::BitwiseNegate, _)));
    assert_eq!(e.expr_type.clone_inner(&cells), ExprType::AmbiguousPosInteger);
    let (r, _index, _cells) = parse_alone("1 << 3 ;");
    assert!(matches!(&*r.unwrap().expr_data, ExpressionData::BinaryOp(BinaryOperator::BitwiseShiftLeft, _, _)));
}

#[test]
fn float_remainder_on_floats() {
    let (r, _index, cells) = parse_alone("6.5 %. 2.0 ;");
    let e = r.unwrap();
    assert!(matches!(&*e.expr_data, ExpressionData::BinaryOp(BinaryOperator::ModuloFloat, _, _)));
    assert_eq!(e.expr_type.clone_inner(&cells), ExprType::AmbiguousFloat);
    let (r, _index, _cells) = parse_alone("2.0 +. 3.0 ;");
    assert!(matches!(&*r.unwrap().expr_data, ExpressionData::BinaryOp(BinaryOperator::PlusFloat, _, _)));
}

#[test]
fn an_array_literal_is_read_to_its_closing_bracket() {
    let (r, index, cells) = parse_alone("[0 1 0] ;");
    let e = r.unwrap();
    assert_eq!(index, 5);
    match &*e.expr_data {
        ExpressionData::Array(items) => assert_eq!(items.len(), 3),
        other => panic!("expected an array, got {:?}", other),
    }
    assert!(matches!(e.expr_type.clone_inner(&cells), ExprType::Array { length: Some(3), .. }));
}

