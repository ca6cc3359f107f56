use sugar::lexer::token::{Keyword, Operator, Tkn, TknType, Type};
use sugar::lexer::tokenize::{integer_literal, is_float_literal_text, is_invalid_character, Lexer};

fn lex(src: &str) -> Vec<Tkn> {
    let mut lexer = Lexer::new("test.sgr", src);
    lexer.tokenize()
}

#[test]
fn lexes_a_variable_declaration() {
    let tokens = lex("let mut count: i32 = 5;");
    assert_eq!(tokens.len(), 9);
    assert!(matches!(tokens[0].token, TknType::Keyword(Keyword::Let)));
    assert!(matches!(tokens[1].token, TknType::Keyword(Keyword::Mutable)));
    assert!(matches!(&tokens[2].token, TknType::Identifier(name) if name == "count"));
    assert!(matches!(tokens[3].token, TknType::Colon));
    assert!(matches!(tokens[4].token, TknType::Type(Type::I32)));
    assert!(matches!(tokens[5].token, TknType::Operation(Operator::Assign)));
    assert!(matches!(tokens[6].token, TknType::IntegerLiteral { value: 5, .. }));
    assert!(matches!(tokens[7].token, TknType::Semicolon));
    assert!(matches!(tokens[8].token, TknType::EndOfFile));
}

#[test]
fn records_lines_and_columns() {
    let tokens = lex("a\n  bc");
    assert_eq!(tokens[0].line_number, 1);
    assert_eq!(tokens[0].line_index, 1);
    assert_eq!(tokens[1].line_number, 2);
    assert_eq!(tokens[1].line_index, 3);
    assert_eq!(tokens[0].file_name, "test.sgr");
}

#[test]
fn lexes_literals() {
    let tokens = lex("'x' \"hi\" true 1e3 2.5");
    assert!(matches!(tokens[0].token, TknType::CharLiteral('x')));
    assert!(matches!(&tokens[1].token, TknType::StringLiteral(s) if s == "hi"));
    assert!(matches!(tokens[2].token, TknType::BooleanLiteral(true)));
    assert!(matches!(&tokens[3].token, TknType::FloatLiteral { text, .. } if text == "1e3"));
    // A number with digits after its dot is one floating-point literal.
    assert!(matches!(&tokens[4].token, TknType::FloatLiteral { text, len: 3 } if text == "2.5"));
}

#[test]
fn a_float_with_a_fraction_is_one_token() {
    let tokens = lex("6.28;");
    assert!(matches!(&tokens[0].token, TknType::FloatLiteral { text, len: 4 } if text == "6.28"));
    assert!(matches!(tokens[1].token, TknType::Semicolon));
}

#[test]
fn a_range_of_integers_starts_with_an_integer() {
    let tokens = lex("1..5");
    assert!(matches!(tokens[0].token, TknType::IntegerLiteral { value: 1, .. }));
    assert!(!matches!(tokens[0].token, TknType::FloatLiteral { .. }));
}

#[test]
fn lexes_operators_longest_first() {
    let tokens = lex("a += b ** c");
    assert!(matches!(tokens[1].token, TknType::Operation(Operator::PlusEquals)));
    assert!(matches!(tokens[3].token, TknType::Operation(Operator::Exponent)));
}

#[test]
fn lexes_braces_and_punctuation() {
    let tokens = lex("{ ( ) [ ] , . }");
    assert!(matches!(tokens[0].token, TknType::OpenCurlyBrace));
    assert!(matches!(tokens[1].token, TknType::OpenParen));
    assert!(matches!(tokens[2].token, TknType::CloseParen));
    assert!(matches!(tokens[3].token, TknType::OpenSquareBracket));
    assert!(matches!(tokens[4].token, TknType::CloseSquareBracket));
    assert!(matches!(tokens[5].token, TknType::Comma));
    assert!(matches!(tokens[6].token, TknType::Dot));
    assert!(matches!(tokens[7].token, TknType::CloseCurlyBrace));
}

#[test]
fn empty_source_is_end_of_file() {
    let tokens = lex("");
    assert_eq!(tokens.len(), 1);
    assert!(matches!(tokens[0].token, TknType::EndOfFile));
}

#[test]
fn invalid_characters() {
    assert!(is_invalid_character(' '));
    assert!(is_invalid_character('{'));
    assert!(is_invalid_character('+'));
    assert!(!is_invalid_character('a'));
    assert!(!is_invalid_character('_'));
}

#[test]
fn integer_literal_text() {
    assert_eq!(integer_literal(&"123".chars().collect()), Some(123));
    assert_eq!(integer_literal(&"12a".chars().collect()), None);
    assert_eq!(integer_literal(&Vec::new()), None);
}

#[test]
fn float_literal_text() {
    assert!(is_float_literal_text(&"1.5".chars().collect()));
    assert!(!is_float_literal_text(&"abc".chars().collect()));
}

#[test]
fn keyword_and_type_names() {
    assert_eq!(Keyword::Let.as_str(), "let");
    assert_eq!(Keyword::Let.len(), 3);
    assert_eq!(Type::U128.as_str(), "u128");
    assert_eq!(Operator::Exponent.as_str(), "**");
    assert_eq!(Operator::Exponent.len(), 2);
    assert_eq!(Operator::ExponentFloat.len(), 3);
    assert_eq!(Operator::ExponentFloat.len(), Operator::ExponentFloat.as_str().len());
}

#[test]
fn token_equality() {
    assert!(TknType::Comma.tkn_eq(&TknType::Comma));
    assert!(!TknType::Comma.tkn_eq(&TknType::Semicolon));
    assert!(TknType::Identifier(String::from("a")).tkn_eq(&TknType::Identifier(String::from("a"))));
    assert!(!TknType::Identifier(String::from("a")).tkn_eq(&TknType::Identifier(String::from("b"))));
}

#[test]
fn every_token_type_equals_itself() {
    assert!(TknType::BooleanLiteral(true).tkn_eq(&TknType::BooleanLiteral(true)));
    assert!(!TknType::BooleanLiteral(true).tkn_eq(&TknType::BooleanLiteral(false)));
    assert!(TknType::DiscardSingle.tkn_eq(&TknType::DiscardSingle));
    assert!(TknType::DiscardMany.tkn_eq(&TknType::DiscardMany));
}

#[test]
fn tokens_are_named_in_messages() {
    assert_eq!(TknType::Keyword(Keyword::Let).to_text(), "keyword let");
    assert_eq!(TknType::Identifier(String::from("x")).to_text(), "identifier x");
    assert_eq!(TknType::IntegerLiteral { value: -42, len: 3 }.to_text(), "integer -42");
    assert_eq!(TknType::IntegerLiteral { value: 7, len: 1 }.to_text(), "integer 7");
    assert_eq!(TknType::StringLiteral(String::from("hi")).to_text(), "string \"hi\"");
    assert_eq!(TknType::CharLiteral('c').to_text(), "char c");
    assert_eq!(TknType::BooleanLiteral(false).to_text(), "keyword false");
    assert_eq!(TknType::Operation(Operator::Exponent).to_text(), "operator **");
    assert_eq!(TknType::Semicolon.to_text(), "semicolon ';'");
}

#[test]
fn token_equality_is_reflexive_and_looks_through_either() {
    assert_eq!(TknType::BooleanLiteral(true), TknType::BooleanLiteral(true));
    assert_ne!(TknType::BooleanLiteral(true), TknType::BooleanLiteral(false));
    assert_eq!(TknType::DiscardMany, TknType::DiscardMany);
    assert_eq!(TknType::DiscardSingle, TknType::DiscardSingle);
    let either = TknType::Either(Box::new(TknType::Comma), Box::new(TknType::Semicolon));
    assert_eq!(either, TknType::Semicolon);
    assert_ne!(either, TknType::Dot);
}

#[test]
fn a_lexer_started_over_reads_as_a_new_one() {
    let mut lexer = Lexer::new("a.sgr", "let x = 1;");
    let _ = lexer.tokenize();
    lexer.set_source_code("fn main { print_i32 2; }");
    let again = lexer.tokenize();
    let mut fresh = Lexer::new("a.sgr", "fn main { print_i32 2; }");
    let first = fresh.tokenize();
    assert_eq!(again.len(), first.len());
    for (a, b) in again.iter().zip(first.iter()) {
        assert!(a.token == b.token);
        assert_eq!(a.file_name, b.file_name);
        assert_eq!((a.line_number, a.line_index), (b.line_number, b.line_index));
    }
}
