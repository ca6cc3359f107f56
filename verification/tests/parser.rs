use sugar::full_result::FullResult;
use sugar::lexer::token::{Tkn, TknType};
use sugar::lexer::tokenize::Lexer;
use sugar::parser::accessors::{define_accessor, get_accessor_string, parse_accessor};
use sugar::parser::expr::ExprType;
use sugar::parser::functions::{define_arguments, define_function, fn_group_to_params, FullFunctionDefinition, BuiltInFunction};
use sugar::parser::parser_error::ParserError;
use sugar::parser::structs::{define_struct, parse_struct};
use sugar::parser::tokens::{expect_token, expect_tokens, get_token, is_expected_token, is_token};
use sugar::parser::{get_ident_token_string, get_type_token_expr_type, parse};
use sugar::parser::parser_error::{get_line_from_contents, num_whitespace, slice_to_string};

fn lex(src: &str) -> Vec<Tkn> {
    let mut lexer = Lexer::new("test.sgr", src);
    lexer.tokenize()
}

#[test]
fn defines_an_accessor() {
    let tokens = lex("accessor friends { enclave { } }");
    let mut index = 0;
    let def = match define_accessor(&tokens, &mut index) {
        FullResult::Okay(def) => def,
        _ => panic!("expected an accessor"),
    };
    assert_eq!(def.name, "friends");
    assert_eq!(def.body_tokens.len(), 3);
    assert_eq!(index, 7);
    let accessor = parse_accessor(&def).unwrap();
    assert_eq!(accessor.name, "friends");
    assert!(accessor.whitelist.is_empty());
    assert!(accessor.blacklist.is_empty());
}

#[test]
fn accessor_needs_its_keyword() {
    let tokens = lex("struct A { }");
    let mut index = 0;
    assert!(matches!(define_accessor(&tokens, &mut index), FullResult::SoftErr(())));
    assert_eq!(index, 0);
}

#[test]
fn accessor_needs_a_name() {
    let tokens = lex("accessor { }");
    let mut index = 0;
    match define_accessor(&tokens, &mut index) {
        FullResult::HardErr(errors) => {
            assert_eq!(errors.len(), 1);
            assert!(matches!(errors[0], ParserError::ExpectedIdentifier { .. }));
        },
        _ => panic!("expected an error"),
    }
}

#[test]
fn unclosed_accessor_reports_each_open_brace() {
    let tokens = lex("accessor a { {");
    let mut index = 0;
    match define_accessor(&tokens, &mut index) {
        FullResult::HardErr(errors) => {
            assert_eq!(errors.len(), 2);
            assert!(matches!(errors[0], ParserError::ExpectedClosingBrace { .. }));
        },
        _ => panic!("expected an error"),
    }
}

#[test]
fn accessor_body_without_lists() {
    let tokens = lex("accessor a { x }");
    let mut index = 0;
    let def = match define_accessor(&tokens, &mut index) {
        FullResult::Okay(def) => def,
        _ => panic!("expected an accessor"),
    };
    let errors = parse_accessor(&def).unwrap_err();
    assert_eq!(errors.len(), 1);
    assert!(matches!(errors[0], ParserError::NoWhitelistOrBlacklist { .. }));
}

#[test]
fn accessor_strings() {
    let tokens = lex("pub prv pkg friends other");
    let accessors = ["friends"];
    let mut index = 0;
    assert_eq!(get_accessor_string(get_token(&tokens, 0), &mut index, &accessors), Some(String::from("public")));
    assert_eq!(index, 1);
    assert_eq!(get_accessor_string(get_token(&tokens, 1), &mut index, &accessors), Some(String::from("private")));
    assert_eq!(get_accessor_string(get_token(&tokens, 2), &mut index, &accessors), Some(String::from("package")));
    assert_eq!(get_accessor_string(get_token(&tokens, 3), &mut index, &accessors), Some(String::from("friends")));
    assert_eq!(index, 4);
    assert_eq!(get_accessor_string(get_token(&tokens, 4), &mut index, &accessors), None);
    assert_eq!(index, 4);
}

#[test]
fn defines_and_parses_a_struct() {
    let tokens = lex("pub struct Point { pub x: i32, prv y: u8 }");
    let mut index = 0;
    let def = match define_struct(&tokens, &mut index) {
        FullResult::Okay(def) => def,
        _ => panic!("expected a struct"),
    };
    assert_eq!(def.name, "Point");
    assert_eq!(index, tokens.len() - 1);
    let parsed = parse_struct(&def, &[], &["Point"]).unwrap();
    assert_eq!(parsed.name, "Point");
    assert_eq!(parsed.accessibility, "public");
    assert_eq!(parsed.fields.len(), 2);
    assert_eq!(parsed.fields[0].field_name, "x");
    assert_eq!(parsed.fields[0].accessibility, "public");
    assert_eq!(parsed.fields[0].field_type, ExprType::I32);
    assert_eq!(parsed.fields[1].field_name, "y");
    assert_eq!(parsed.fields[1].accessibility, "private");
    assert_eq!(parsed.fields[1].field_type, ExprType::U8);
}

#[test]
fn struct_field_needs_an_accessibility() {
    let tokens = lex("pub struct P { x: i32 }");
    let mut index = 0;
    let def = match define_struct(&tokens, &mut index) {
        FullResult::Okay(def) => def,
        _ => panic!("expected a struct"),
    };
    assert!(matches!(parse_struct(&def, &[], &["P"]), Err(ParserError::MissingAccessor { .. })));
}

#[test]
fn struct_fields_need_commas() {
    let tokens = lex("pub struct P { pub x: i32 pub y: i32 }");
    let mut index = 0;
    let def = match define_struct(&tokens, &mut index) {
        FullResult::Okay(def) => def,
        _ => panic!("expected a struct"),
    };
    assert!(matches!(parse_struct(&def, &[], &["P"]), Err(ParserError::ExpectedEndOfStruct { .. })));
}

#[test]
fn struct_field_needs_a_type() {
    let tokens = lex("pub struct P { pub x: 5 }");
    let mut index = 0;
    let def = match define_struct(&tokens, &mut index) {
        FullResult::Okay(def) => def,
        _ => panic!("expected a struct"),
    };
    assert!(matches!(parse_struct(&def, &[], &["P"]), Err(ParserError::ExpectedType { .. })));
}

#[test]
fn not_a_struct_is_a_soft_error() {
    let tokens = lex("pub fn f { }");
    let mut index = 0;
    assert!(matches!(define_struct(&tokens, &mut index), FullResult::SoftErr(())));
}

#[test]
fn defines_a_function() {
    let tokens = lex("pub fn add (a: i32, b: i32) = i32 { a }");
    let mut index = 0;
    let def = match define_function(&tokens, &mut index) {
        FullResult::Okay(def) => def,
        _ => panic!("expected a function"),
    };
    assert_eq!(def.name, "add");
    assert!(!def.mutable);
    assert!(!def.recursive);
    assert_eq!(def.arg_tokens.len(), 11);
    assert_eq!(def.body_tokens.len(), 3);
    assert_eq!(index, tokens.len() - 1);
    let (full, body) = FullFunctionDefinition::from_partial_fn_def(def, &[], &[]).unwrap();
    assert_eq!(full.name, "add");
    assert_eq!(full.accessibility, "public");
    assert_eq!(full.left_args.len(), 0);
    assert_eq!(full.right_args.len(), 2);
    assert_eq!(full.right_args[0].param_name, Some(String::from("a")));
    assert_eq!(full.right_args[1].param_type, ExprType::I32);
    assert_eq!(full.return_type, ExprType::I32);
    assert_eq!(body.len(), 3);
}

#[test]
fn defines_an_infix_function() {
    let tokens = lex("(a: u8) infix (b: u8) = bool");
    let (left, right, ret) = define_arguments(&tokens, &[]).unwrap();
    assert_eq!(left.len(), 1);
    assert_eq!(right.len(), 1);
    assert_eq!(left[0].param_type, ExprType::U8);
    assert_eq!(ret, ExprType::Bool);
}

#[test]
fn conflicting_fix_definitions() {
    let tokens = lex("prefix (a: u8) infix (b: u8)");
    assert!(matches!(define_arguments(&tokens, &[]), Err(ParserError::DefinedIncorrectlyPlacedArgument { .. })));
}

#[test]
fn function_without_arguments_returns_void() {
    let tokens = lex("pub fn main { }");
    let mut index = 0;
    let def = match define_function(&tokens, &mut index) {
        FullResult::Okay(def) => def,
        _ => panic!("expected a function"),
    };
    let (full, body) = FullFunctionDefinition::from_partial_fn_def(def, &[], &[]).unwrap();
    assert_eq!(full.return_type, ExprType::Void);
    assert_eq!(body.len(), 2);
}

#[test]
fn group_of_parameters() {
    let tokens = lex("(x: i64, y: bool)");
    let mut index = 0;
    let params = fn_group_to_params(&tokens, &mut index, &[]).unwrap();
    assert_eq!(params.len(), 2);
    assert_eq!(params[0].param_name, Some(String::from("x")));
    assert_eq!(params[1].param_type, ExprType::Bool);
    assert_eq!(index, 9);
}

#[test]
fn parameters_need_commas() {
    let tokens = lex("(x: i64 y: bool)");
    let mut index = 0;
    assert!(matches!(fn_group_to_params(&tokens, &mut index, &[]), Err(ParserError::ExpectedToken { .. })));
}

#[test]
fn type_tokens() {
    let tokens = lex("i32 Point {a: u8} other");
    let mut index = 0;
    assert_eq!(get_type_token_expr_type(&tokens, &mut index, &["Point"]), Some(ExprType::I32));
    assert_eq!(index, 1);
    assert_eq!(
        get_type_token_expr_type(&tokens, &mut index, &["Point"]),
        Some(ExprType::Custom { ident: String::from("Point") })
    );
    assert_eq!(index, 2);
    let anon = get_type_token_expr_type(&tokens, &mut index, &["Point"]);
    assert_eq!(anon, Some(ExprType::AnonymousCustom { fields: vec![(String::from("a"), ExprType::U8)] }));
    assert_eq!(get_type_token_expr_type(&tokens, &mut 7, &["Point"]), None);
}

#[test]
fn identifier_tokens() {
    let tokens = lex("name Point 5");
    let mut index = 0;
    assert_eq!(get_ident_token_string(get_token(&tokens, 0), &mut index, &["Point"]), Some(String::from("name")));
    assert_eq!(index, 1);
    assert_eq!(get_ident_token_string(get_token(&tokens, 1), &mut index, &["Point"]), None);
    assert_eq!(get_ident_token_string(get_token(&tokens, 2), &mut index, &["Point"]), None);
    assert_eq!(index, 1);
}

#[test]
fn expecting_tokens() {
    let tokens = lex("( ) ;");
    let mut index = 0;
    assert!(is_expected_token(&tokens, TknType::OpenParen, &mut index));
    assert_eq!(index, 1);
    assert!(!is_expected_token(&tokens, TknType::OpenParen, &mut index));
    assert_eq!(index, 1);
    assert!(expect_token(&tokens, TknType::CloseParen, &mut index).is_some());
    assert!(is_token(&tokens, TknType::Semicolon, index));
    let mut i = 0;
    assert!(expect_tokens(&tokens, &[TknType::OpenParen, TknType::CloseParen], &mut i).is_some());
    assert_eq!(i, 2);
    let mut j = 0;
    assert!(expect_tokens(&tokens, &[TknType::OpenParen, TknType::Semicolon], &mut j).is_none());
    assert_eq!(j, 0);
    assert!(get_token(&tokens, 10).is_none());
}

#[test]
fn built_in_functions() {
    assert_eq!(BuiltInFunction::from_name("print_i32"), Some(BuiltInFunction::print_i32));
    assert_eq!(BuiltInFunction::from_name("nothing"), None);
    assert!(BuiltInFunction::print_i32.match_args(&[], &[ExprType::I32]));
    assert!(!BuiltInFunction::print_i32.match_args(&[], &[ExprType::Bool]));
}

#[test]
fn lines_of_the_source() {
    let src = "first\nsecond line\n\nlast";
    assert_eq!(get_line_from_contents(1, src), "first");
    assert_eq!(get_line_from_contents(0, src), "first");
    assert_eq!(get_line_from_contents(2, src), "second line");
    assert_eq!(get_line_from_contents(3, src), "");
    assert_eq!(get_line_from_contents(4, src), "last");
}

#[test]
fn lists_in_words() {
    let items: Vec<String> = ["a", "b", "c"].iter().map(|s| s.to_string()).collect();
    assert_eq!(slice_to_string(&items[..0]), "");
    assert_eq!(slice_to_string(&items[..1]), "a");
    assert_eq!(slice_to_string(&items[..2]), "a and b");
    assert_eq!(slice_to_string(&items), "a, b,  and c");
}

#[test]
fn leading_white_space() {
    assert_eq!(num_whitespace("  \tx y"), 3);
    assert_eq!(num_whitespace("x"), 0);
    assert_eq!(num_whitespace(""), 0);
    assert_eq!(num_whitespace("\u{3000}a"), 1);
}

#[test]
fn parses_a_program() {
    let tokens = lex("accessor friends { }\npub struct Point { friends x: i32, pub y: i32 }\npub fn main { }\n");
    let program = parse(&tokens).unwrap();
    assert_eq!(program.accessors.len(), 1);
    assert_eq!(program.accessors[0].name, "friends");
    assert_eq!(program.structs.len(), 1);
    assert_eq!(program.structs[0].name, "Point");
    assert_eq!(program.structs[0].fields[0].accessibility, "friends");
    assert_eq!(program.functions.len(), 1);
    assert_eq!(program.functions[0].0.name, "main");
    assert_eq!(program.functions[0].1.len(), 2);
}

#[test]
fn parse_gathers_errors_of_all_definitions() {
    let tokens = lex("pub struct A { x: i32 }\npub struct B { pub y: 5 }\n");
    match parse(&tokens) {
        Err(errors) => {
            assert_eq!(errors.len(), 2);
            assert!(matches!(errors[0], ParserError::MissingAccessor { .. }));
            assert!(matches!(errors[1], ParserError::ExpectedType { .. }));
        },
        Ok(_) => panic!("expected errors"),
    }
}

#[test]
fn parse_refuses_stray_tokens() {
    let tokens = lex("let x = 5;");
    match parse(&tokens) {
        Err(errors) => {
            assert_eq!(errors.len(), 1);
            assert!(matches!(errors[0], ParserError::InvalidBlock { .. }));
        },
        Ok(_) => panic!("expected an error"),
    }
}

#[test]
fn parse_of_nothing() {
    let program = parse(&lex("")).unwrap();
    assert!(program.accessors.is_empty() && program.structs.is_empty() && program.functions.is_empty());
}

#[test]
fn main_without_an_accessor_is_private() {
    let tokens = lex("fn main { }");
    let mut index = 0;
    let def = match define_function(&tokens, &mut index) {
        FullResult::Okay(def) => def,
        _ => panic!("expected a function"),
    };
    assert!(def.accessibility.is_none());
    let (full, body) = FullFunctionDefinition::from_partial_fn_def(def, &[], &[]).unwrap();
    assert_eq!(full.name, "main");
    assert_eq!(full.accessibility, "private");
    assert!(full.left_args.is_empty());
    assert!(full.right_args.is_empty());
    assert_eq!(full.return_type, ExprType::Void);
    assert_eq!(body.len(), 2);
}

#[test]
fn a_program_with_main_without_an_accessor_parses() {
    let tokens = lex("fn main { }");
    let program = parse(&tokens).unwrap();
    assert_eq!(program.functions.len(), 1);
    assert_eq!(program.functions[0].0.name, "main");
}

#[test]
fn a_message_underlines_its_token() {
    let tokens = lex("let x = 1");
    let text = sugar::parser::parser_error::token_message("Bad", &tokens[1], "let x = 1", "", " note");
    let expected = "\x1b[91merror:\x1b[0m Bad\n\x1b[1;94m -->\x1b[0m test.sgr:1:5\n\x1b[1;94m  | \x1b[0m\n\x1b[1;94m1 | \x1b[0mlet x = 1\n\x1b[1;94m  | \x1b[0m    ^\x1b[0m\n\x1b[1;94m :::\x1b[0m note\n\n";
    assert_eq!(tokens[1].line_index, 5);
    assert_eq!(text, expected);
}

#[test]
fn a_message_points_back_at_an_earlier_token() {
    let tokens = lex("a b");
    let text = sugar::parser::parser_error::two_token_message("Twice", "first", "again", &tokens[1], &tokens[0], "a b", "a b");
    let expected = "\x1b[91merror:\x1b[0m Twice\n\x1b[1;94m -->\x1b[0m test.sgr:1:3\n\x1b[1;94m  | \x1b[0m\n\x1b[1;94m1 | \x1b[0ma b\n\x1b[1;94m  | \x1b[0m\x1b[1;94m-\x1b[0m \x1b[91m^ again \x1b[0m\n\x1b[1;94m  | \x1b[0m\x1b[1;94m|\x1b[0m\n\x1b[1;94m  | \x1b[0m\x1b[1;94mfirst\x1b[0m\n\x1b[1;94m :::\x1b[0m\n\n";
    assert_eq!(text, expected);
}

#[test]
fn a_type_mismatch_message_names_both_types() {
    let tokens = lex("1 + true");
    let text = sugar::parser::parser_error::type_message(&tokens[0..3], &ExprType::Bool, &ExprType::I32, "1 + true", "1 + true");
    let expected = "\x1b[91merror:\x1b[0m Mismatched types\n\x1b[1;94m -->\x1b[0m test.sgr:1:1\n\x1b[1;94m  | \x1b[0m\n\x1b[1;94m1 | \x1b[0m1 + true\n\x1b[1;94m  | \x1b[0m\x1b[91m^^^^^^^^ expected i32, found bool \x1b[0m\n\x1b[1;94m :::\x1b[0m \n\n";
    assert_eq!(text, expected);
}

#[test]
fn a_program_with_main_has_an_entry_point() {
    let program = parse(&lex("fn helper { } fn main { }")).unwrap();
    assert!(program.has_entry_point());
    let program = parse(&lex("fn helper { }")).unwrap();
    assert!(!program.has_entry_point());
}

#[test]
fn an_expected_token_message_names_both_tokens() {
    let src = "let x = 1   \n";
    let tokens = lex(src);
    let error = ParserError::ExpectedToken { tkn: tokens[1].clone(), expected: TknType::Semicolon };
    let text = error.message_text(src);
    let expected = "\x1b[91merror:\x1b[0m Expected semicolon ';' but received identifier x\n\x1b[1;94m -->\x1b[0m test.sgr:1:5\n\x1b[1;94m  | \x1b[0m\n\x1b[1;94m1 | \x1b[0mlet x = 1\n\x1b[1;94m  | \x1b[0m    \x1b[93m^\x1b[0m\n\x1b[1;94m :::\x1b[0m\n\n";
    assert_eq!(text, expected);
}

#[test]
fn a_source_line_loses_its_trailing_whitespace() {
    let src = "a\nb  \t\nc";
    assert_eq!(sugar::parser::parser_error::source_line(2, src), "b");
    assert_eq!(sugar::parser::parser_error::source_line(3, src), "c");
}

#[test]
fn a_message_on_a_source_beyond_ascii() {
    let src = "é;\nlet x = 1\n";
    let tokens = lex(src);
    let x = tokens.iter().find(|t| matches!(&t.token, TknType::Identifier(n) if n == "x")).unwrap().clone();
    assert_eq!(x.line_number, 2);
    let error = ParserError::ExpectedToken { tkn: x, expected: TknType::Semicolon };
    let text = error.message_text(src);
    let expected = "\x1b[91merror:\x1b[0m Expected semicolon ';' but received identifier x\n\x1b[1;94m -->\x1b[0m test.sgr:2:5\n\x1b[1;94m  | \x1b[0m\n\x1b[1;94m2 | \x1b[0mlet x = 1\n\x1b[1;94m  | \x1b[0m    \x1b[93m^\x1b[0m\n\x1b[1;94m :::\x1b[0m\n\n";
    assert_eq!(text, expected);
    assert_eq!(sugar::parser::parser_error::source_line(1, src), "é;");
}

#[test]
fn a_program_whose_body_holds_an_error_does_not_parse() {
    let tokens = lex("fn main { while 1 { return ; } }");
    let mut cells = sugar::parser::expr::TypeCells::new();
    match sugar::parser::parse_stmt::parse_program(&tokens, &mut cells) {
        Err(errors) => {
            assert_eq!(errors.len(), 1);
            assert!(matches!(errors[0], ParserError::CouldNotMatchType { .. }));
        },
        Ok(_) => panic!("expected the error of the body"),
    }
}

#[test]
fn a_whole_program_parses_with_its_bodies() {
    let tokens = lex("fn helper { print_i32 1; } fn main { print_i32 2; }");
    let mut cells = sugar::parser::expr::TypeCells::new();
    match sugar::parser::parse_stmt::parse_program(&tokens, &mut cells) {
        Ok((program, functions)) => {
            assert_eq!(program.functions.len(), 2);
            assert_eq!(functions.len(), 2);
            assert_eq!(functions[0].name, "helper");
            assert_eq!(functions[1].name, "main");
            assert_eq!(functions[1].body.len(), 1);
        },
        Err(errors) => panic!("expected the program to parse, got {} errors", errors.len()),
    }
}
