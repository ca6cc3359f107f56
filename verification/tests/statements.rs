use sugar::full_result::FullResult;
use sugar::lexer::token::{Tkn, TokenType};
use sugar::lexer::tokenize::Lexer;
use sugar::parser::expr::{ExprType, ExprTypeCons, Literal, TypeCells};
use sugar::parser::expr_parse::{ExpressionData, VariableData};
use sugar::parser::functions::FullFunctionDefinition;
use sugar::parser::parser_error::ParserError;
use sugar::parser::stmt::{parse_return, parse_variable_assignment, parse_variable_declaration, StackLocation, Statement};

fn lex(src: &str) -> Vec<Tkn> {
    let mut lexer = Lexer::new("test.sgr", src);
    lexer.tokenize()
}

fn one_variable(mutable: bool, cells: &mut TypeCells) -> Vec<(String, VariableData)> {
    let decl = lex("x");
    let ty = ExprTypeCons::new(cells, ExprType::I32);
    vec![("x".to_string(), VariableData::new(decl[0].clone(), mutable, ty))]
}

#[test]
fn return_without_a_value() {
    let tokens = lex("return ; x");
    let functions: Vec<FullFunctionDefinition> = Vec::new();
    let mut cells = TypeCells::new();
    let mut index = 0;
    match parse_return(&[], 2, &functions, &[], &tokens, &ExprType::Void, &mut index, &mut cells) {
        FullResult::Okay(s) => {
            assert_eq!(s.line, 2);
            assert!(matches!(s.stmt, Statement::Return(None)));
        },
        _ => panic!("expected a return"),
    }
    assert_eq!(index, 2);
}

#[test]
fn return_with_a_value_takes_the_return_type() {
    let tokens = lex("return 1 + 2 ;");
    let functions: Vec<FullFunctionDefinition> = Vec::new();
    let mut cells = TypeCells::new();
    let mut index = 0;
    match parse_return(&[], 1, &functions, &[], &tokens, &ExprType::I32, &mut index, &mut cells) {
        FullResult::Okay(s) => match s.stmt {
            Statement::Return(Some(e)) => {
                assert!(matches!(&*e.expr_data, ExpressionData::BinaryOp(..)));
                assert_eq!(e.expr_type.clone_inner(&cells), ExprType::I32);
            },
            other => panic!("expected a value, got {:?}", other),
        },
        _ => panic!("expected a return"),
    }
    assert_eq!(index, 5);
}

#[test]
fn a_return_needs_its_keyword_and_semicolon() {
    let functions: Vec<FullFunctionDefinition> = Vec::new();
    let mut cells = TypeCells::new();
    let tokens = lex("x = 1 ;");
    let mut index = 0;
    assert!(matches!(
        parse_return(&[], 1, &functions, &[], &tokens, &ExprType::Void, &mut index, &mut cells),
        FullResult::SoftErr(ParserError::ExpectedToken { .. })
    ));
    let tokens = lex("return 1 )");
    match parse_return(&[], 1, &functions, &[], &tokens, &ExprType::I32, &mut index, &mut cells) {
        FullResult::HardErr(ParserError::ExpectedToken { tkn, .. }) => assert!(matches!(tkn.token, TokenType::CloseParen)),
        _ => panic!("expected a hard error"),
    }
    assert_eq!(index, 0);
}

#[test]
fn assigning_a_mutable_variable() {
    let mut cells = TypeCells::new();
    let variables = one_variable(true, &mut cells);
    let tokens = lex("x = 5 ;");
    let functions: Vec<FullFunctionDefinition> = Vec::new();
    let mut index = 0;
    match parse_variable_assignment(&[], 1, &functions, &variables, &tokens, &mut index, &mut cells) {
        FullResult::Okay(stmts) => {
            assert_eq!(stmts.len(), 1);
            match &stmts[0].stmt {
                Statement::Assign { variable, assign } => {
                    assert!(matches!(&*variable.expr_data, ExpressionData::Identifier(n) if n == "x"));
                    assert!(matches!(&*assign.expr_data, ExpressionData::Literal(Literal::IntegerLiteral(5))));
                    assert_eq!(assign.expr_type.clone_inner(&cells), ExprType::I32);
                },
                other => panic!("expected an assignment, got {:?}", other),
            }
        },
        _ => panic!("expected an assignment"),
    }
    assert_eq!(index, 4);
}

#[test]
fn assignment_errors() {
    let functions: Vec<FullFunctionDefinition> = Vec::new();
    let mut cells = TypeCells::new();
    let fixed = one_variable(false, &mut cells);
    let mut index = 0;
    assert!(matches!(
        parse_variable_assignment(&[], 1, &functions, &fixed, &lex("x = 5 ;"), &mut index, &mut cells),
        FullResult::HardErr(ParserError::CannotMutateImmutable { .. })
    ));
    assert!(matches!(
        parse_variable_assignment(&[], 1, &functions, &fixed, &lex("mut x = 5 ;"), &mut index, &mut cells),
        FullResult::HardErr(ParserError::InvalidMut { .. })
    ));
    assert!(matches!(
        parse_variable_assignment(&[], 1, &functions, &fixed, &lex("y = 5 ;"), &mut index, &mut cells),
        FullResult::HardErr(ParserError::VariableDoesNotExist { .. })
    ));
    assert!(matches!(
        parse_variable_assignment(&[], 1, &functions, &fixed, &lex("3 = 5 ;"), &mut index, &mut cells),
        FullResult::SoftErr(ParserError::InvalidPattern { .. })
    ));
    assert!(matches!(
        parse_variable_assignment(&[], 1, &functions, &fixed, &lex("x 5 ;"), &mut index, &mut cells),
        FullResult::SoftErr(ParserError::ExpectedToken { .. })
    ));
    assert_eq!(index, 0);
}

#[test]
fn a_let_with_a_value_declares_and_assigns() {
    let tokens = lex("let x = 1 + 2 ;");
    let functions: Vec<FullFunctionDefinition> = Vec::new();
    let mut variables: Vec<(String, VariableData)> = Vec::new();
    let mut cells = TypeCells::new();
    let mut index = 0;
    match parse_variable_declaration(&[], 4, &functions, &mut variables, &tokens, &mut index, &mut cells) {
        FullResult::Okay(stmts) => {
            assert_eq!(stmts.len(), 2);
            assert!(matches!(&stmts[0].stmt, Statement::Declare(name, StackLocation::GC, _) if name == "x"));
            assert!(matches!(&stmts[1].stmt, Statement::Assign { .. }));
            assert_eq!(stmts[1].line, 4);
        },
        _ => panic!("expected a declaration"),
    }
    assert_eq!(index, 7);
    assert_eq!(variables.len(), 1);
    assert_eq!(variables[0].0, "x");
    assert!(!variables[0].1.mutable);
}

#[test]
fn a_let_on_the_oxidized_stack_with_a_type() {
    let tokens = lex("let oxy mut y : i32 ;");
    let functions: Vec<FullFunctionDefinition> = Vec::new();
    let mut variables: Vec<(String, VariableData)> = Vec::new();
    let mut cells = TypeCells::new();
    let mut index = 0;
    match parse_variable_declaration(&[], 1, &functions, &mut variables, &tokens, &mut index, &mut cells) {
        FullResult::Okay(stmts) => {
            assert_eq!(stmts.len(), 1);
            match &stmts[0].stmt {
                Statement::Declare(name, loc, ty) => {
                    assert_eq!(name, "y");
                    assert_eq!(*loc, StackLocation::Oxy);
                    assert_eq!(ty.clone_inner(&cells), ExprType::I32);
                },
                other => panic!("expected a declaration, got {:?}", other),
            }
        },
        _ => panic!("expected a declaration"),
    }
    assert_eq!(index, 7);
    assert!(variables[0].1.mutable);
}

#[test]
fn a_statement_without_let_is_no_declaration() {
    let tokens = lex("x = 1 ;");
    let functions: Vec<FullFunctionDefinition> = Vec::new();
    let mut variables: Vec<(String, VariableData)> = Vec::new();
    let mut cells = TypeCells::new();
    let mut index = 0;
    let r = parse_variable_declaration(&[], 1, &functions, &mut variables, &tokens, &mut index, &mut cells);
    assert!(matches!(r, FullResult::SoftErr(ParserError::ExpectedToken { .. })));
    assert_eq!(index, 0);
    assert!(variables.is_empty());
}

#[test]
fn a_let_needs_its_semicolon_and_a_known_type() {
    let functions: Vec<FullFunctionDefinition> = Vec::new();
    let mut cells = TypeCells::new();
    let tokens = lex("let z = 1 )");
    let mut variables: Vec<(String, VariableData)> = Vec::new();
    let mut index = 0;
    let r = parse_variable_declaration(&[], 1, &functions, &mut variables, &tokens, &mut index, &mut cells);
    assert!(matches!(r, FullResult::HardErr(ParserError::ExpectedToken { expected: TokenType::Semicolon, .. })));
    assert_eq!(index, 0);
    let tokens = lex("let q : nosuch ;");
    let mut variables: Vec<(String, VariableData)> = Vec::new();
    let r = parse_variable_declaration(&[], 1, &functions, &mut variables, &tokens, &mut index, &mut cells);
    assert!(matches!(r, FullResult::HardErr(ParserError::ExpectedType { .. })));
    assert!(variables.is_empty());
}

fn parse_one(src: &str, variables: &mut Vec<(String, VariableData)>, cells: &mut TypeCells) -> (FullResult<Vec<sugar::parser::stmt::StmtData>, ParserError, ParserError>, usize) {
    let tokens = lex(src);
    let functions: Vec<FullFunctionDefinition> = Vec::new();
    let mut index = 0;
    let r = sugar::parser::parse_stmt::parse_statement(&[], &functions, variables, &tokens, &ExprType::Void, &mut index, cells);
    (r, index)
}

#[test]
fn a_block_keeps_its_variables_to_itself() {
    let mut variables: Vec<(String, VariableData)> = Vec::new();
    let mut cells = TypeCells::new();
    let (r, index) = parse_one("{ let a = 1 ; a ; } x", &mut variables, &mut cells);
    match r {
        FullResult::Okay(stmts) => {
            assert_eq!(stmts.len(), 1);
            match &stmts[0].stmt {
                Statement::Compound(body) => {
                    assert_eq!(body.len(), 3);
                    assert!(matches!(&body[0].stmt, Statement::Declare(name, _, _) if name == "a"));
                    assert!(matches!(&body[2].stmt, Statement::Expr(_)));
                },
                other => panic!("expected a block, got {:?}", other),
            }
        },
        _ => panic!("expected a statement"),
    }
    assert_eq!(index, 9);
    assert!(variables.is_empty());
}

#[test]
fn a_while_loop_needs_a_boolean_condition() {
    let mut variables: Vec<(String, VariableData)> = Vec::new();
    let mut cells = TypeCells::new();
    let (r, index) = parse_one("while true { return ; } x", &mut variables, &mut cells);
    match r {
        FullResult::Okay(stmts) => match &stmts[0].stmt {
            Statement::While { body, .. } => {
                assert_eq!(body.len(), 1);
                assert!(matches!(&body[0].stmt, Statement::Return(None)));
            },
            other => panic!("expected a loop, got {:?}", other),
        },
        _ => panic!("expected a statement"),
    }
    assert_eq!(index, 6);
    let (r, index) = parse_one("while 1 { return ; } x", &mut variables, &mut cells);
    assert!(matches!(r, FullResult::HardErr(ParserError::CouldNotMatchType { expected_type: ExprType::Bool, .. })));
    assert_eq!(index, 0);
}

#[test]
fn a_chain_of_conditions_has_a_body_per_condition_and_one_for_else() {
    let mut variables: Vec<(String, VariableData)> = Vec::new();
    let mut cells = TypeCells::new();
    let (r, index) = parse_one("if true { return ; } else if false { return ; } else { return ; } x", &mut variables, &mut cells);
    match r {
        FullResult::Okay(stmts) => match &stmts[0].stmt {
            Statement::Conditional { conds, bodies } => {
                assert_eq!(conds.len(), 2);
                assert_eq!(bodies.len(), 3);
                assert_eq!(bodies[2].len(), 1);
            },
            other => panic!("expected a chain of conditions, got {:?}", other),
        },
        _ => panic!("expected a statement"),
    }
    assert_eq!(index, 18);
}

#[test]
fn a_declaration_statement_adds_its_variable() {
    let mut variables: Vec<(String, VariableData)> = Vec::new();
    let mut cells = TypeCells::new();
    let (r, index) = parse_one("let b = true ;", &mut variables, &mut cells);
    assert!(matches!(r, FullResult::Okay(ref s) if s.len() == 2));
    assert_eq!(index, 5);
    assert_eq!(variables.len(), 1);
}

#[test]
fn a_token_that_starts_no_statement_is_a_soft_error() {
    let mut variables: Vec<(String, VariableData)> = Vec::new();
    let mut cells = TypeCells::new();
    let (r, index) = parse_one("} x", &mut variables, &mut cells);
    assert!(matches!(r, FullResult::SoftErr(ParserError::InvalidStatement { .. })));
    assert_eq!(index, 0);
}

#[test]
fn a_block_without_its_closing_brace_is_a_hard_error() {
    let mut variables: Vec<(String, VariableData)> = Vec::new();
    let mut cells = TypeCells::new();
    let (r, index) = parse_one("{ return ; ) x", &mut variables, &mut cells);
    assert!(matches!(r, FullResult::HardErr(ParserError::ExpectedClosingBrace { .. })));
    assert_eq!(index, 0);
}

#[test]
fn a_function_body_is_read_with_its_parameters() {
    let tokens = lex("{ let m = n ; return m ; }");
    let param_tokens = lex("n");
    let fn_def = FullFunctionDefinition {
        accessibility: "pub".to_string(),
        name: "id".to_string(),
        mutable: false,
        recursive: false,
        left_args: Vec::new(),
        right_args: vec![sugar::parser::functions::FunctionParamater {
            tkn: param_tokens[0].clone(),
            param_type: ExprType::I32,
            param_name: Some("n".to_string()),
        }],
        return_type: ExprType::I32,
    };
    let functions: Vec<FullFunctionDefinition> = Vec::new();
    let mut cells = TypeCells::new();
    let f = sugar::parser::parse_stmt::parse_function(&[], &functions, fn_def, &tokens, &mut cells).unwrap();
    assert_eq!(f.name, "id");
    assert_eq!(f.body.len(), 3);
    assert!(matches!(&f.body[0].stmt, Statement::Declare(name, _, _) if name == "m"));
    assert!(matches!(&f.body[1].stmt, Statement::Assign { .. }));
    assert!(matches!(&f.body[2].stmt, Statement::Return(Some(_))));
}

#[test]
fn an_error_in_a_function_body_is_the_functions_error() {
    let tokens = lex("{ while 1 { return ; } }");
    let fn_def = FullFunctionDefinition {
        accessibility: "pub".to_string(),
        name: "f".to_string(),
        mutable: false,
        recursive: false,
        left_args: Vec::new(),
        right_args: Vec::new(),
        return_type: ExprType::Void,
    };
    let functions: Vec<FullFunctionDefinition> = Vec::new();
    let mut cells = TypeCells::new();
    let r = sugar::parser::parse_stmt::parse_function(&[], &functions, fn_def, &tokens, &mut cells);
    assert!(matches!(r, Err(ParserError::CouldNotMatchType { .. })));
}

#[test]
fn function_bodies_are_read_in_order_and_empty_ones_passed_over() {
    let mk = |name: &str| FullFunctionDefinition {
        accessibility: "pub".to_string(),
        name: name.to_string(),
        mutable: false,
        recursive: false,
        left_args: Vec::new(),
        right_args: Vec::new(),
        return_type: ExprType::Void,
    };
    let defs = vec![mk("a"), mk("b"), mk("c")];
    let bodies = vec![lex("{ return ; }"), Vec::new(), lex("{ while 1 { return ; } }")];
    let mut cells = TypeCells::new();
    let (functions, errors) = sugar::parser::parse_stmt::parse_functions(&[], &defs, &bodies, &mut cells);
    assert_eq!(functions.len(), 1);
    assert_eq!(functions[0].name, "a");
    assert_eq!(functions[0].body.len(), 1);
    assert_eq!(errors.len(), 1);
    assert!(matches!(errors[0], ParserError::CouldNotMatchType { .. }));
}
