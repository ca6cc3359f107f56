use sugar::lexer::token::{Keyword, Tkn, Token, TokenType};
use sugar::lexer::tokenize::Lexer;
use sugar::parser::parser_error::ParserError;
use sugar::parser::expr::{ExprType, TypeCells};
use sugar::parser::expr_parse::VariableData;
use sugar::parser::patterns::{declare_variable_pattern, parse_identifier_pattern, Pattern};
use sugar::parser::stmt::{StackLocation, Statement};

fn lex(src: &str) -> Vec<Tkn> {
    let mut lexer = Lexer::new("test.sgr", src);
    lexer.tokenize()
}

fn name_of(p: &Pattern) -> &str {
    match p {
        Pattern::Ident { name, .. } => name.as_str(),
        other => panic!("expected a name, got {:?}", other),
    }
}

#[test]
fn a_name_is_a_pattern() {
    let tokens = lex("count = 0");
    let mut index = 0;
    match parse_identifier_pattern(&tokens, &mut index).unwrap() {
        Pattern::Ident { tkn, mutable, name } => {
            assert!(!mutable);
            assert_eq!(name, "count");
            assert!(matches!(tkn.token, TokenType::Identifier(_)));
        },
        other => panic!("expected a name, got {:?}", other),
    }
    assert_eq!(index, 1);
}

#[test]
fn mut_before_a_name_makes_it_mutable() {
    let tokens = lex("mut count = 0");
    let mut index = 0;
    match parse_identifier_pattern(&tokens, &mut index).unwrap() {
        Pattern::Ident { tkn, mutable, name } => {
            assert!(mutable);
            assert_eq!(name, "count");
            assert!(matches!(tkn.token, TokenType::Keyword(Keyword::Mutable)));
        },
        other => panic!("expected a name, got {:?}", other),
    }
    assert_eq!(index, 2);
}

#[test]
fn a_tuple_pattern_holds_its_names() {
    let tokens = lex("(a b c) = t");
    let mut index = 0;
    match parse_identifier_pattern(&tokens, &mut index).unwrap() {
        Pattern::Tuple { start, end } => {
            assert_eq!(start.len(), 3);
            assert_eq!(name_of(&start[0]), "a");
            assert_eq!(name_of(&start[2]), "c");
            assert!(end.is_empty());
        },
        other => panic!("expected a tuple, got {:?}", other),
    }
    assert_eq!(index, 0);
}

#[test]
fn an_array_pattern_holds_its_names() {
    let tokens = lex("[x y]");
    let mut index = 0;
    match parse_identifier_pattern(&tokens, &mut index).unwrap() {
        Pattern::Array { start, end } => {
            assert_eq!(start.len(), 2);
            assert!(end.is_empty());
        },
        other => panic!("expected an array, got {:?}", other),
    }
    assert_eq!(index, 0);
}

#[test]
fn two_dots_in_a_pattern_are_no_pattern() {
    let tokens = lex("(a .. b)");
    let mut index = 0;
    match parse_identifier_pattern(&tokens, &mut index) {
        Err(ParserError::InvalidPattern { tkn }) => assert!(matches!(tkn.token, TokenType::Dot)),
        other => panic!("expected an error, got {:?}", other),
    }
    assert_eq!(index, 0);
}

#[test]
fn a_discard_token_discards_one_value() {
    let tokens = vec![Token {
        token: TokenType::DiscardSingle,
        file_name: String::from("test.sgr"),
        line_index: 0,
        line_number: 1,
    }];
    let mut index = 0;
    assert!(matches!(parse_identifier_pattern(&tokens, &mut index), Ok(Pattern::DiscardSingle)));
    assert_eq!(index, 0);
}

#[test]
fn a_literal_is_no_pattern() {
    let tokens = lex("3 = 3");
    let mut index = 0;
    assert!(matches!(parse_identifier_pattern(&tokens, &mut index), Err(ParserError::InvalidPattern { .. })));
    assert_eq!(index, 0);
}

#[test]
fn declaring_a_name_adds_a_variable_and_a_declaration() {
    let tokens = lex("mut count = 0");
    let mut index = 0;
    let pattern = parse_identifier_pattern(&tokens, &mut index).unwrap();
    let mut variables: Vec<(String, VariableData)> = Vec::new();
    let mut cells = TypeCells::new();
    let stmts = declare_variable_pattern(&mut variables, &pattern, StackLocation::Oxy, ExprType::I32, &tokens, 0, 3, &mut cells)
        .unwrap();
    assert_eq!(stmts.len(), 1);
    assert_eq!(stmts[0].line, 3);
    match &stmts[0].stmt {
        Statement::Declare(name, loc, ty) => {
            assert_eq!(name, "count");
            assert_eq!(*loc, StackLocation::Oxy);
            assert_eq!(ty.clone_inner(&cells), ExprType::I32);
        },
        other => panic!("expected a declaration, got {:?}", other),
    }
    assert_eq!(variables.len(), 1);
    assert_eq!(variables[0].0, "count");
    assert!(variables[0].1.mutable);
    assert_eq!(cells.len(), 1);
}

#[test]
fn declaring_a_tuple_splits_its_types() {
    let tokens = lex("(a b) = t");
    let mut index = 0;
    let pattern = parse_identifier_pattern(&tokens, &mut index).unwrap();
    let mut variables: Vec<(String, VariableData)> = Vec::new();
    let mut cells = TypeCells::new();
    let ty = ExprType::Tuple { start: vec![ExprType::I32, ExprType::Bool], end: vec![] };
    let stmts = declare_variable_pattern(&mut variables, &pattern, StackLocation::GC, ty, &tokens, 0, 1, &mut cells).unwrap();
    assert_eq!(stmts.len(), 2);
    let names: Vec<&str> = variables.iter().map(|(n, _)| n.as_str()).collect();
    assert_eq!(names, vec!["a", "b"]);
    assert_eq!(variables[0].1.expr_type.clone_inner(&cells), ExprType::I32);
    assert_eq!(variables[1].1.expr_type.clone_inner(&cells), ExprType::Bool);
}

#[test]
fn a_tuple_pattern_against_a_number_is_refused() {
    let tokens = lex("(a b) = t");
    let mut index = 0;
    let pattern = parse_identifier_pattern(&tokens, &mut index).unwrap();
    let mut variables: Vec<(String, VariableData)> = Vec::new();
    let mut cells = TypeCells::new();
    let r = declare_variable_pattern(&mut variables, &pattern, StackLocation::Oxy, ExprType::I32, &tokens, 0, 1, &mut cells);
    assert!(matches!(r, Err(ParserError::PatternNotMatchExpectedType { expected_type: ExprType::I32, .. })));
    assert!(variables.is_empty());
}

#[test]
fn a_discarded_name_declares_nothing() {
    let tokens = lex("_ = 1");
    let pattern = Pattern::DiscardSingle;
    let mut variables: Vec<(String, VariableData)> = Vec::new();
    let mut cells = TypeCells::new();
    let stmts = declare_variable_pattern(&mut variables, &pattern, StackLocation::Oxy, ExprType::I32, &tokens, 0, 1, &mut cells)
        .unwrap();
    assert!(stmts.is_empty());
    assert!(variables.is_empty());
}
