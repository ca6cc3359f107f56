use sugar::parser::expr::{ExprType, ExprTypeCons, Literal, TypeCells};
use sugar::parser::structs::{Field, Struct};

#[test]
fn test_match_type() {
    assert_ne!(ExprType::StringLiteral, ExprType::Char);
}

#[test]
fn positive_literal_takes_unsigned_type() {
    let mut l = ExprType::AmbiguousPosInteger;
    let mut r = ExprType::U8;
    assert!(l.match_type(&mut r));
    assert_eq!(l, ExprType::U8);
    assert_eq!(r, ExprType::U8);
}

#[test]
fn negative_literal_refuses_unsigned_type() {
    let mut l = ExprType::AmbiguousNegInteger;
    let mut r = ExprType::U32;
    assert!(!l.match_type(&mut r));
    assert_eq!(l, ExprType::AmbiguousNegInteger);
}

#[test]
fn negative_literal_takes_signed_type() {
    let mut l = ExprType::I16;
    let mut r = ExprType::AmbiguousNegInteger;
    assert!(l.match_type(&mut r));
    assert_eq!(r, ExprType::I16);
}

#[test]
fn unknown_type_takes_the_other() {
    let mut l = ExprType::AmbiguousType;
    let mut r = ExprType::Bool;
    assert!(l.match_type(&mut r));
    assert_eq!(l, ExprType::Bool);
}

#[test]
fn different_types_do_not_match() {
    let mut l = ExprType::I32;
    let mut r = ExprType::I64;
    assert!(!l.match_type(&mut r));
}

#[test]
fn arrays_share_their_length() {
    let mut l = ExprType::Array { length: Some(3), expr_type: Box::new(ExprType::AmbiguousPosInteger) };
    let mut r = ExprType::Array { length: None, expr_type: Box::new(ExprType::U16) };
    assert!(l.match_type(&mut r));
    assert_eq!(r, ExprType::Array { length: Some(3), expr_type: Box::new(ExprType::U16) });
    assert_eq!(l, ExprType::Array { length: Some(3), expr_type: Box::new(ExprType::U16) });
}

#[test]
fn arrays_of_different_lengths_do_not_match() {
    let mut l = ExprType::Array { length: Some(3), expr_type: Box::new(ExprType::U16) };
    let mut r = ExprType::Array { length: Some(4), expr_type: Box::new(ExprType::U16) };
    assert!(!l.match_type(&mut r));
}

#[test]
fn sizes_of_primitive_types() {
    let structs: Vec<Struct> = vec![];
    assert_eq!(ExprType::I8.size_of(&structs), 1);
    assert_eq!(ExprType::Bool.size_of(&structs), 1);
    assert_eq!(ExprType::Char.size_of(&structs), 1);
    assert_eq!(ExprType::U16.size_of(&structs), 2);
    assert_eq!(ExprType::F32.size_of(&structs), 4);
    assert_eq!(ExprType::I64.size_of(&structs), 8);
    assert_eq!(ExprType::U128.size_of(&structs), 16);
    assert_eq!(ExprType::USize.size_of(&structs), std::mem::size_of::<usize>());
    assert_eq!(ExprType::StringLiteral.size_of(&structs), 2 * std::mem::size_of::<usize>());
    assert_eq!(ExprType::Void.size_of(&structs), 0);
}

#[test]
fn size_of_array_and_struct() {
    let structs = vec![Struct {
        accessibility: String::from("public"),
        location: String::new(),
        name: String::from("Point"),
        fields: vec![
            Field { accessibility: String::from("public"), field_type: ExprType::I32, field_name: String::from("x") },
            Field { accessibility: String::from("public"), field_type: ExprType::I64, field_name: String::from("y") },
        ],
    }];
    let arr = ExprType::Array { length: Some(5), expr_type: Box::new(ExprType::U16) };
    assert_eq!(arr.size_of(&structs), 10);
    let point = ExprType::Custom { ident: String::from("Point") };
    assert_eq!(point.size_of(&structs), 12);
    let anon = ExprType::AnonymousCustom {
        fields: vec![(String::from("a"), ExprType::Bool), (String::from("b"), ExprType::U32)],
    };
    assert_eq!(anon.size_of(&structs), 5);
}

#[test]
fn real_types() {
    assert!(ExprType::I32.is_real_type());
    assert!(!ExprType::AmbiguousPosInteger.is_real_type());
    assert!(!ExprType::Void.is_real_type());
    assert!(ExprType::Never.is_real_type());
}

#[test]
fn type_containers_share_what_they_learn() {
    let mut cells = TypeCells::new();
    let mut a = ExprTypeCons::new(&mut cells, ExprType::AmbiguousPosInteger);
    let mut b = ExprTypeCons::new(&mut cells, ExprType::U64);
    let joined = a.match_type(&mut b, &mut cells);
    assert!(joined.is_some());
    assert_eq!(a.clone_inner(&cells), ExprType::U64);
    assert_eq!(b.clone_inner(&cells), ExprType::U64);
    assert_eq!(joined.unwrap().clone_inner(&cells), ExprType::U64);
}

#[test]
fn type_containers_that_do_not_match() {
    let mut cells = TypeCells::new();
    let mut a = ExprTypeCons::new(&mut cells, ExprType::Bool);
    let mut b = ExprTypeCons::new(&mut cells, ExprType::U64);
    assert!(a.match_type(&mut b, &mut cells).is_none());
    assert_eq!(a.clone_inner(&cells), ExprType::Bool);
}

#[test]
fn literal_types() {
    assert_eq!(Literal::IntegerLiteral(-3).get_type(), ExprType::AmbiguousNegInteger);
    assert_eq!(Literal::BooleanLiteral(true).get_type(), ExprType::Bool);
    assert_eq!(Literal::CharLiteral('a').get_type(), ExprType::Char);
    assert_eq!(Literal::StringLiteral(String::from("s")).get_type(), ExprType::StringLiteral);
    assert_eq!(Literal::FloatLiteral(String::from("1.5")).get_type(), ExprType::AmbiguousFloat);
}

#[test]
fn types_as_text() {
    assert_eq!(ExprType::I32.to_text(), "i32");
    assert_eq!(ExprType::AmbiguousFloat.to_text(), "`Ambiguous Float`");
    assert_eq!(ExprType::Ref(Box::new(ExprType::Bool)).to_text(), "&bool");
    assert_eq!(ExprType::MutRef(Box::new(ExprType::Char)).to_text(), "&mut char");
    assert_eq!(ExprType::Array { length: Some(12), expr_type: Box::new(ExprType::U8) }.to_text(), "[u8; 12]");
    assert_eq!(ExprType::Array { length: None, expr_type: Box::new(ExprType::U8) }.to_text(), "[u8; ?]");
    assert_eq!(ExprType::Custom { ident: String::from("Point") }.to_text(), "Point");
    assert_eq!(ExprType::AnonymousCustom { fields: vec![] }.to_text(), "{}");
    assert_eq!(
        ExprType::AnonymousCustom {
            fields: vec![(String::from("a"), ExprType::I8), (String::from("b"), ExprType::Never)],
        }.to_text(),
        "{ a: i8, b: ! }"
    );
}
