//! The tokens of Sugar: keywords, operators, primitive types, literals and
//! punctuation, each with the place in the source where it starts.
use vstd::prelude::*;
use vstd::string::*;
use crate::parser::expr::{nat_text, u128_text, ExprType};

verus! {

/// The number of bytes of `s` in UTF-8.
pub open spec fn utf8_len(s: Seq<char>) -> nat {
    vstd::utf8::encode_utf8(s).len()
}

/// Short name of [`Keyword`].
pub type Kwrd = Keyword;

/// A reserved word.
#[derive(Clone, Copy, Debug, PartialEq, Eq, Structural)]
pub enum Keyword {
    /// let
    Let,
    /// return
    Return,
    /// for
    For,
    /// while
    While,
    /// loop
    Loop,
    /// if
    If,
    /// else
    Else,
    /// mut
    Mutable,
    /// im
    InteriorMutable,
    /// rec
    Recursive,
    /// oxy
    Oxidize,
    /// unsafe
    Unsafe,
    /// fn
    Function,
    /// accessor
    Accessor,
    /// enclave
    Enclave,
    /// exclave
    Exclave,
    /// struct
    Struct,
    /// prefix
    Prefix,
    /// infix
    Infix,
    /// postfix
    Postfix,
    /// namespace
    Namespace,
    /// alias
    Alias,
    /// pub
    Public,
    /// prv
    Private,
    /// pkg
    Package,
}

/// The text of a keyword in the source.
pub open spec fn keyword_text(k: Keyword) -> Seq<char> {
    match k {
        Keyword::Let => "let"@,
        Keyword::Return => "return"@,
        Keyword::For => "for"@,
        Keyword::While => "while"@,
        Keyword::Loop => "loop"@,
        Keyword::If => "if"@,
        Keyword::Else => "else"@,
        Keyword::Mutable => "mut"@,
        Keyword::InteriorMutable => "im"@,
        Keyword::Recursive => "rec"@,
        Keyword::Oxidize => "oxy"@,
        Keyword::Unsafe => "unsafe"@,
        Keyword::Function => "fn"@,
        Keyword::Accessor => "accessor"@,
        Keyword::Enclave => "enclave"@,
        Keyword::Exclave => "exclave"@,
        Keyword::Struct => "struct"@,
        Keyword::Prefix => "prefix"@,
        Keyword::Infix => "infix"@,
        Keyword::Postfix => "postfix"@,
        Keyword::Namespace => "namespace"@,
        Keyword::Alias => "alias"@,
        Keyword::Public => "pub"@,
        Keyword::Private => "prv"@,
        Keyword::Package => "pkg"@,
    }
}

/// The width that a keyword token reports for itself.
pub open spec fn keyword_len(k: Keyword) -> nat {
    match k {
        Keyword::Let => 3,
        Keyword::Return => 6,
        Keyword::For => 3,
        Keyword::While => 5,
        Keyword::Loop => 4,
        Keyword::If => 2,
        Keyword::Else => 4,
        Keyword::Mutable => 3,
        Keyword::InteriorMutable => 2,
        Keyword::Recursive => 3,
        Keyword::Oxidize => 3,
        Keyword::Unsafe => 6,
        Keyword::Function => 2,
        Keyword::Accessor => 8,
        Keyword::Enclave => 7,
        Keyword::Exclave => 7,
        Keyword::Struct => 6,
        Keyword::Prefix => 6,
        Keyword::Infix => 5,
        Keyword::Postfix => 7,
        Keyword::Namespace => 9,
        Keyword::Alias => 5,
        Keyword::Public => 3,
        Keyword::Private => 3,
        Keyword::Package => 3,
    }
}

impl Keyword {
    /// The width of the keyword in the source.
    pub fn len(&self) -> (r: usize)
        ensures
            r == keyword_len(*self),
    {
        match self {
            Keyword::Let => 3,
            Keyword::Return => 6,
            Keyword::For => 3,
            Keyword::While => 5,
            Keyword::Loop => 4,
            Keyword::If => 2,
            Keyword::Else => 4,
            Keyword::Mutable => 3,
            Keyword::InteriorMutable => 2,
            Keyword::Recursive => 3,
            Keyword::Oxidize => 3,
            Keyword::Unsafe => 6,
            Keyword::Function => 2,
            Keyword::Accessor => 8,
            Keyword::Enclave => 7,
            Keyword::Exclave => 7,
            Keyword::Struct => 6,
            Keyword::Prefix => 6,
            Keyword::Infix => 5,
            Keyword::Postfix => 7,
            Keyword::Namespace => 9,
            Keyword::Alias => 5,
            Keyword::Public => 3,
            Keyword::Private => 3,
            Keyword::Package => 3,
        }
    }

    /// The keyword as it is written in the source.
    pub fn as_str(&self) -> (r: &'static str)
        ensures
            r@ == keyword_text(*self),
    {
        match self {
            Keyword::Let => "let",
            Keyword::Return => "return",
            Keyword::For => "for",
            Keyword::While => "while",
            Keyword::Loop => "loop",
            Keyword::If => "if",
            Keyword::Else => "else",
            Keyword::Mutable => "mut",
            Keyword::InteriorMutable => "im",
            Keyword::Recursive => "rec",
            Keyword::Oxidize => "oxy",
            Keyword::Unsafe => "unsafe",
            Keyword::Function => "fn",
            Keyword::Accessor => "accessor",
            Keyword::Enclave => "enclave",
            Keyword::Exclave => "exclave",
            Keyword::Struct => "struct",
            Keyword::Prefix => "prefix",
            Keyword::Infix => "infix",
            Keyword::Postfix => "postfix",
            Keyword::Namespace => "namespace",
            Keyword::Alias => "alias",
            Keyword::Public => "pub",
            Keyword::Private => "prv",
            Keyword::Package => "pkg",
        }
    }
}

/// Short name of [`Operator`].
pub type Op = Operator;

/// An operator.
#[derive(Clone, Copy, Debug, PartialEq, Eq, Structural)]
pub enum Operator {
    /// `!..=`
    BangRangeEquals,
    /// `!..`
    BangRange,
    /// `..=`
    RangeEquals,
    /// `..`
    Range,
    /// `==`
    Equals,
    /// `!=`
    NotEquals,
    /// `<=`
    LessThanEqualTo,
    /// `>=`
    GreaterThanEqualTo,
    /// `<`
    LessThan,
    /// `>`
    GreaterThan,
    /// `++=`
    ConcatEquals,
    /// `+.=`
    PlusFloatEquals,
    /// `+=`
    PlusEquals,
    /// `-.=`
    MinusFloatEquals,
    /// `-=`
    MinusEquals,
    /// `**.=`
    ExponentFloatEquals,
    /// `**=`
    ExponentEquals,
    /// `*.=`
    MultiplyFloatEquals,
    /// `*=`
    MultiplyEquals,
    /// `/.=`
    DivideFloatEquals,
    /// `/=`
    DivideEquals,
    /// `%.=`
    ModuloFloatEquals,
    /// `%=`
    ModuloEquals,
    /// `&&=`
    LogicAndEquals,
    /// `||=`
    LogicOrEquals,
    /// `&=`
    BitwiseAndEquals,
    /// `|=`
    BitwiseOrEquals,
    /// `^=`
    BitwiseXorEquals,
    /// `<<=`
    BitwiseShiftLeftEquals,
    /// `>>=`
    BitwiseShiftRightEquals,
    /// `++`
    PlusPlus,
    /// `+.`
    PlusFloat,
    /// `+`
    Plus,
    /// `-.`
    MinusFloat,
    /// `-`
    Minus,
    /// `**.`
    ExponentFloat,
    /// `**`
    Exponent,
    /// `*.`
    MultiplyFloat,
    /// `*`
    Multiply,
    /// `/.`
    DivideFloat,
    /// `/`
    Divide,
    /// `%.`
    ModuloFloat,
    /// `%`
    Modulo,
    /// `&&`
    LogicAnd,
    /// `||`
    LogicOr,
    /// `!`
    LogicNot,
    /// `&`
    BitwiseAnd,
    /// `|`
    BitwiseOr,
    /// `^`
    BitwiseXor,
    /// `~`
    BitwiseNegate,
    /// `<<`
    BitwiseShiftLeft,
    /// `>>`
    BitwiseShiftRight,
    /// `=>`
    Arrow,
    /// `=`
    Assign,
}

/// The text of an operator in the source.
pub open spec fn operator_text(op: Operator) -> Seq<char> {
    match op {
        Operator::BangRangeEquals => "!..="@,
        Operator::BangRange => "!.."@,
        Operator::RangeEquals => "..="@,
        Operator::Range => ".."@,
        Operator::Equals => "=="@,
        Operator::NotEquals => "!="@,
        Operator::LessThanEqualTo => "<="@,
        Operator::GreaterThanEqualTo => ">="@,
        Operator::LessThan => "<"@,
        Operator::GreaterThan => ">"@,
        Operator::ConcatEquals => "++="@,
        Operator::PlusFloatEquals => "+.="@,
        Operator::PlusEquals => "+="@,
        Operator::MinusFloatEquals => "-.="@,
        Operator::MinusEquals => "-="@,
        Operator::ExponentFloatEquals => "**.="@,
        Operator::ExponentEquals => "**="@,
        Operator::MultiplyFloatEquals => "*.="@,
        Operator::MultiplyEquals => "*="@,
        Operator::DivideFloatEquals => "/.="@,
        Operator::DivideEquals => "/="@,
        Operator::ModuloFloatEquals => "%.="@,
        Operator::ModuloEquals => "%="@,
        Operator::LogicAndEquals => "&&="@,
        Operator::LogicOrEquals => "||="@,
        Operator::BitwiseAndEquals => "&="@,
        Operator::BitwiseOrEquals => "|="@,
        Operator::BitwiseXorEquals => "^="@,
        Operator::BitwiseShiftLeftEquals => "<<="@,
        Operator::BitwiseShiftRightEquals => ">>="@,
        Operator::PlusPlus => "++"@,
        Operator::PlusFloat => "+."@,
        Operator::Plus => "+"@,
        Operator::MinusFloat => "-."@,
        Operator::Minus => "-"@,
        Operator::ExponentFloat => "**."@,
        Operator::Exponent => "**"@,
        Operator::MultiplyFloat => "*."@,
        Operator::Multiply => "*"@,
        Operator::DivideFloat => "/."@,
        Operator::Divide => "/"@,
        Operator::ModuloFloat => "%."@,
        Operator::Modulo => "%"@,
        Operator::LogicAnd => "&&"@,
        Operator::LogicOr => "||"@,
        Operator::LogicNot => "!"@,
        Operator::BitwiseAnd => "&"@,
        Operator::BitwiseOr => "|"@,
        Operator::BitwiseXor => "^"@,
        Operator::BitwiseNegate => "~"@,
        Operator::BitwiseShiftLeft => "<<"@,
        Operator::BitwiseShiftRight => ">>"@,
        Operator::Arrow => "=>"@,
        Operator::Assign => "="@,
    }
}

/// The width that an operator token reports for itself.
pub open spec fn operator_len(op: Operator) -> nat {
    match op {
        Operator::BangRangeEquals => 4,
        Operator::BangRange => 3,
        Operator::RangeEquals => 3,
        Operator::Range => 2,
        Operator::Equals => 2,
        Operator::NotEquals => 2,
        Operator::LessThanEqualTo => 2,
        Operator::GreaterThanEqualTo => 2,
        Operator::LessThan => 1,
        Operator::GreaterThan => 1,
        Operator::ConcatEquals => 3,
        Operator::PlusFloatEquals => 3,
        Operator::PlusEquals => 2,
        Operator::MinusFloatEquals => 3,
        Operator::MinusEquals => 2,
        Operator::ExponentFloatEquals => 4,
        Operator::ExponentEquals => 3,
        Operator::MultiplyFloatEquals => 3,
        Operator::MultiplyEquals => 2,
        Operator::DivideFloatEquals => 3,
        Operator::DivideEquals => 2,
        Operator::ModuloFloatEquals => 3,
        Operator::ModuloEquals => 2,
        Operator::LogicAndEquals => 3,
        Operator::LogicOrEquals => 3,
        Operator::BitwiseAndEquals => 2,
        Operator::BitwiseOrEquals => 2,
        Operator::BitwiseXorEquals => 2,
        Operator::BitwiseShiftLeftEquals => 3,
        Operator::BitwiseShiftRightEquals => 3,
        Operator::PlusPlus => 2,
        Operator::PlusFloat => 2,
        Operator::Plus => 1,
        Operator::MinusFloat => 2,
        Operator::Minus => 1,
        Operator::ExponentFloat => 3,
        Operator::Exponent => 2,
        Operator::MultiplyFloat => 2,
        Operator::Multiply => 1,
        Operator::DivideFloat => 2,
        Operator::Divide => 1,
        Operator::ModuloFloat => 2,
        Operator::Modulo => 1,
        Operator::LogicAnd => 2,
        Operator::LogicOr => 2,
        Operator::LogicNot => 1,
        Operator::BitwiseAnd => 1,
        Operator::BitwiseOr => 1,
        Operator::BitwiseXor => 1,
        Operator::BitwiseNegate => 1,
        Operator::BitwiseShiftLeft => 2,
        Operator::BitwiseShiftRight => 2,
        Operator::Arrow => 2,
        Operator::Assign => 1,
    }
}

/// An operator's width is the length of its spelling.
pub proof fn lemma_operator_len_is_text_len(op: Operator)
    ensures
        operator_len(op) == operator_text(op).len(),
{
    reveal_strlit("!..=");
    reveal_strlit("!..");
    reveal_strlit("..=");
    reveal_strlit("..");
    reveal_strlit("==");
    reveal_strlit("!=");
    reveal_strlit("<=");
    reveal_strlit(">=");
    reveal_strlit("<");
    reveal_strlit(">");
    reveal_strlit("++=");
    reveal_strlit("+.=");
    reveal_strlit("+=");
    reveal_strlit("-.=");
    reveal_strlit("-=");
    reveal_strlit("**.=");
    reveal_strlit("**=");
    reveal_strlit("*.=");
    reveal_strlit("*=");
    reveal_strlit("/.=");
    reveal_strlit("/=");
    reveal_strlit("%.=");
    reveal_strlit("%=");
    reveal_strlit("&&=");
    reveal_strlit("||=");
    reveal_strlit("&=");
    reveal_strlit("|=");
    reveal_strlit("^=");
    reveal_strlit("<<=");
    reveal_strlit(">>=");
    reveal_strlit("++");
    reveal_strlit("+.");
    reveal_strlit("+");
    reveal_strlit("-.");
    reveal_strlit("-");
    reveal_strlit("**.");
    reveal_strlit("**");
    reveal_strlit("*.");
    reveal_strlit("*");
    reveal_strlit("/.");
    reveal_strlit("/");
    reveal_strlit("%.");
    reveal_strlit("%");
    reveal_strlit("&&");
    reveal_strlit("||");
    reveal_strlit("!");
    reveal_strlit("&");
    reveal_strlit("|");
    reveal_strlit("^");
    reveal_strlit("~");
    reveal_strlit("<<");
    reveal_strlit(">>");
    reveal_strlit("=>");
    reveal_strlit("=");
}


impl Operator {
    /// The width of the operator in the source.
    pub fn len(&self) -> (r: usize)
        ensures
            r == operator_len(*self),
            r == operator_text(*self).len(),
    {
        proof {
            lemma_operator_len_is_text_len(*self);
        }
        match self {
            Operator::BangRangeEquals => 4,
            Operator::BangRange => 3,
            Operator::RangeEquals => 3,
            Operator::Range => 2,
            Operator::Equals => 2,
            Operator::NotEquals => 2,
            Operator::LessThanEqualTo => 2,
            Operator::GreaterThanEqualTo => 2,
            Operator::LessThan => 1,
            Operator::GreaterThan => 1,
            Operator::ConcatEquals => 3,
            Operator::PlusFloatEquals => 3,
            Operator::PlusEquals => 2,
            Operator::MinusFloatEquals => 3,
            Operator::MinusEquals => 2,
            Operator::ExponentFloatEquals => 4,
            Operator::ExponentEquals => 3,
            Operator::MultiplyFloatEquals => 3,
            Operator::MultiplyEquals => 2,
            Operator::DivideFloatEquals => 3,
            Operator::DivideEquals => 2,
            Operator::ModuloFloatEquals => 3,
            Operator::ModuloEquals => 2,
            Operator::LogicAndEquals => 3,
            Operator::LogicOrEquals => 3,
            Operator::BitwiseAndEquals => 2,
            Operator::BitwiseOrEquals => 2,
            Operator::BitwiseXorEquals => 2,
            Operator::BitwiseShiftLeftEquals => 3,
            Operator::BitwiseShiftRightEquals => 3,
            Operator::PlusPlus => 2,
            Operator::PlusFloat => 2,
            Operator::Plus => 1,
            Operator::MinusFloat => 2,
            Operator::Minus => 1,
            Operator::ExponentFloat => 3,
            Operator::Exponent => 2,
            Operator::MultiplyFloat => 2,
            Operator::Multiply => 1,
            Operator::DivideFloat => 2,
            Operator::Divide => 1,
            Operator::ModuloFloat => 2,
            Operator::Modulo => 1,
            Operator::LogicAnd => 2,
            Operator::LogicOr => 2,
            Operator::LogicNot => 1,
            Operator::BitwiseAnd => 1,
            Operator::BitwiseOr => 1,
            Operator::BitwiseXor => 1,
            Operator::BitwiseNegate => 1,
            Operator::BitwiseShiftLeft => 2,
            Operator::BitwiseShiftRight => 2,
            Operator::Arrow => 2,
            Operator::Assign => 1,
        }
    }

    /// The operator as it is written in the source.
    pub fn as_str(&self) -> (r: &'static str)
        ensures
            r@ == operator_text(*self),
    {
        match self {
            Operator::BangRangeEquals => "!..=",
            Operator::BangRange => "!..",
            Operator::RangeEquals => "..=",
            Operator::Range => "..",
            Operator::Equals => "==",
            Operator::NotEquals => "!=",
            Operator::LessThanEqualTo => "<=",
            Operator::GreaterThanEqualTo => ">=",
            Operator::LessThan => "<",
            Operator::GreaterThan => ">",
            Operator::ConcatEquals => "++=",
            Operator::PlusFloatEquals => "+.=",
            Operator::PlusEquals => "+=",
            Operator::MinusFloatEquals => "-.=",
            Operator::MinusEquals => "-=",
            Operator::ExponentFloatEquals => "**.=",
            Operator::ExponentEquals => "**=",
            Operator::MultiplyFloatEquals => "*.=",
            Operator::MultiplyEquals => "*=",
            Operator::DivideFloatEquals => "/.=",
            Operator::DivideEquals => "/=",
            Operator::ModuloFloatEquals => "%.=",
            Operator::ModuloEquals => "%=",
            Operator::LogicAndEquals => "&&=",
            Operator::LogicOrEquals => "||=",
            Operator::BitwiseAndEquals => "&=",
            Operator::BitwiseOrEquals => "|=",
            Operator::BitwiseXorEquals => "^=",
            Operator::BitwiseShiftLeftEquals => "<<=",
            Operator::BitwiseShiftRightEquals => ">>=",
            Operator::PlusPlus => "++",
            Operator::PlusFloat => "+.",
            Operator::Plus => "+",
            Operator::MinusFloat => "-.",
            Operator::Minus => "-",
            Operator::ExponentFloat => "**.",
            Operator::Exponent => "**",
            Operator::MultiplyFloat => "*.",
            Operator::Multiply => "*",
            Operator::DivideFloat => "/.",
            Operator::Divide => "/",
            Operator::ModuloFloat => "%.",
            Operator::Modulo => "%",
            Operator::LogicAnd => "&&",
            Operator::LogicOr => "||",
            Operator::LogicNot => "!",
            Operator::BitwiseAnd => "&",
            Operator::BitwiseOr => "|",
            Operator::BitwiseXor => "^",
            Operator::BitwiseNegate => "~",
            Operator::BitwiseShiftLeft => "<<",
            Operator::BitwiseShiftRight => ">>",
            Operator::Arrow => "=>",
            Operator::Assign => "=",
        }
    }
}

/// A primitive type name.
#[derive(Clone, Copy, Debug, PartialEq, Eq, Structural)]
pub enum Type {
    /// i8
    I8,
    /// i16
    I16,
    /// i32
    I32,
    /// i64
    I64,
    /// i128
    I128,
    /// u8
    U8,
    /// u16
    U16,
    /// u32
    U32,
    /// u64
    U64,
    /// u128
    U128,
    /// f32
    F32,
    /// f64
    F64,
    /// char
    Char,
    /// bool
    Bool,
}

/// The text of a primitive type name in the source.
pub open spec fn type_text(t: Type) -> Seq<char> {
    match t {
        Type::I8 => "i8"@,
        Type::I16 => "i16"@,
        Type::I32 => "i32"@,
        Type::I64 => "i64"@,
        Type::I128 => "i128"@,
        Type::U8 => "u8"@,
        Type::U16 => "u16"@,
        Type::U32 => "u32"@,
        Type::U64 => "u64"@,
        Type::U128 => "u128"@,
        Type::F32 => "f32"@,
        Type::F64 => "f64"@,
        Type::Char => "char"@,
        Type::Bool => "bool"@,
    }
}

impl Type {
    /// The width of the type name in the source.
    pub fn len(&self) -> (r: usize)
        ensures
            r == type_text(*self).len(),
    {
        proof {
            reveal_strlit("i8");
            reveal_strlit("i16");
            reveal_strlit("i32");
            reveal_strlit("i64");
            reveal_strlit("i128");
            reveal_strlit("u8");
            reveal_strlit("u16");
            reveal_strlit("u32");
            reveal_strlit("u64");
            reveal_strlit("u128");
            reveal_strlit("f32");
            reveal_strlit("f64");
            reveal_strlit("char");
            reveal_strlit("bool");
        }
        match self {
            Type::I8 => 2,
            Type::I16 => 3,
            Type::I32 => 3,
            Type::I64 => 3,
            Type::I128 => 4,
            Type::U8 => 2,
            Type::U16 => 3,
            Type::U32 => 3,
            Type::U64 => 3,
            Type::U128 => 4,
            Type::F32 => 3,
            Type::F64 => 3,
            Type::Char => 4,
            Type::Bool => 4,
        }
    }

    /// The type name as it is written in the source.
    pub fn as_str(&self) -> (r: &'static str)
        ensures
            r@ == type_text(*self),
    {
        match self {
            Type::I8 => "i8",
            Type::I16 => "i16",
            Type::I32 => "i32",
            Type::I64 => "i64",
            Type::I128 => "i128",
            Type::U8 => "u8",
            Type::U16 => "u16",
            Type::U32 => "u32",
            Type::U64 => "u64",
            Type::U128 => "u128",
            Type::F32 => "f32",
            Type::F64 => "f64",
            Type::Char => "char",
            Type::Bool => "bool",
        }
    }

    /// The expression type that this type name denotes.
    pub fn to_expr_type(&self) -> (r: ExprType)
        ensures
            r == type_to_expr_type(*self),
    {
        match self {
            Type::I8 => ExprType::I8,
            Type::I16 => ExprType::I16,
            Type::I32 => ExprType::I32,
            Type::I64 => ExprType::I64,
            Type::I128 => ExprType::I128,
            Type::U8 => ExprType::U8,
            Type::U16 => ExprType::U16,
            Type::U32 => ExprType::U32,
            Type::U64 => ExprType::U64,
            Type::U128 => ExprType::U128,
            Type::F32 => ExprType::F32,
            Type::F64 => ExprType::F64,
            Type::Char => ExprType::Char,
            Type::Bool => ExprType::Bool,
        }
    }
}

/// The expression type that a type name denotes.
pub open spec fn type_to_expr_type(t: Type) -> ExprType {
    match t {
        Type::I8 => ExprType::I8,
        Type::I16 => ExprType::I16,
        Type::I32 => ExprType::I32,
        Type::I64 => ExprType::I64,
        Type::I128 => ExprType::I128,
        Type::U8 => ExprType::U8,
        Type::U16 => ExprType::U16,
        Type::U32 => ExprType::U32,
        Type::U64 => ExprType::U64,
        Type::U128 => ExprType::U128,
        Type::F32 => ExprType::F32,
        Type::F64 => ExprType::F64,
        Type::Char => ExprType::Char,
        Type::Bool => ExprType::Bool,
    }
}

/// Short name of [`TokenType`].
pub type TknType = TokenType;

/// What a token is.
///
/// A floating-point literal keeps the text it was written with: the library
/// does no floating-point arithmetic.
#[derive(Debug)]
pub enum TokenType {
    Keyword(Keyword),
    Type(Type),
    Identifier(String),
    Operation(Operator),
    IntegerLiteral { value: i128, len: usize },
    FloatLiteral { text: String, len: usize },
    CharLiteral(char),
    StringLiteral(String),
    BooleanLiteral(bool),
    Comma,
    Semicolon,
    Dollar,
    OpenParen,
    CloseParen,
    OpenCurlyBrace,
    CloseCurlyBrace,
    OpenSquareBracket,
    CloseSquareBracket,
    OpenAngularBracket,
    CloseAngularBracket,
    ColonColon,
    Colon,
    Dot,
    Borrow,
    /// `_`
    DiscardSingle,
    /// `..`
    DiscardMany,
    /// A token that reads as either of two tokens (such as `<`, an operator
    /// or an opening angular bracket).
    Either(Box<TokenType>, Box<TokenType>),
    EndOfFile,
    Invalid,
}

/// The mathematical value of a [`TokenType`]: strings become sequences of
/// characters.
pub enum TknView {
    Keyword(Keyword),
    Type(Type),
    Identifier(Seq<char>),
    Operation(Operator),
    IntegerLiteral { value: i128, len: usize },
    FloatLiteral { text: Seq<char>, len: usize },
    CharLiteral(char),
    StringLiteral(Seq<char>),
    BooleanLiteral(bool),
    Comma,
    Semicolon,
    Dollar,
    OpenParen,
    CloseParen,
    OpenCurlyBrace,
    CloseCurlyBrace,
    OpenSquareBracket,
    CloseSquareBracket,
    OpenAngularBracket,
    CloseAngularBracket,
    ColonColon,
    Colon,
    Dot,
    Borrow,
    DiscardSingle,
    DiscardMany,
    Either(Box<TknView>, Box<TknView>),
    EndOfFile,
    Invalid,
}

/// The decimal text of an integer, with a `-` before a negative one.
pub open spec fn int_text(v: int) -> Seq<char> {
    if v < 0 {
        "-"@ + nat_text((-v) as nat)
    } else {
        nat_text(v as nat)
    }
}

/// How a token is named in messages: its kind and what it holds.  A
/// floating-point literal is named by its source text; a token that reads
/// two ways by its first reading.
pub open spec fn token_text_spec(t: TknView) -> Seq<char>
    decreases t,
{
    match t {
        TknView::Keyword(k) => "keyword "@ + keyword_text(k),
        TknView::Type(ty) => "type "@ + type_text(ty),
        TknView::Identifier(s) => "identifier "@ + s,
        TknView::Operation(op) => "operator "@ + operator_text(op),
        TknView::IntegerLiteral { value, .. } => "integer "@ + int_text(value as int),
        TknView::FloatLiteral { text, .. } => "float "@ + text,
        TknView::CharLiteral(c) => "char "@ + seq![c],
        TknView::StringLiteral(s) => "string \""@ + s + "\""@,
        TknView::BooleanLiteral(b) => "keyword "@ + if b { "true"@ } else { "false"@ },
        TknView::Comma => "comma ','"@,
        TknView::Semicolon => "semicolon ';'"@,
        TknView::Dollar => "dollar '$'"@,
        TknView::OpenParen => "open parenthesis '('"@,
        TknView::CloseParen => "close parenthesis ')'"@,
        TknView::OpenCurlyBrace => "open curly brace '{'"@,
        TknView::CloseCurlyBrace => "close curly brace '}'"@,
        TknView::OpenSquareBracket => "open square bracket '['"@,
        TknView::CloseSquareBracket => "close square bracket ']'"@,
        TknView::OpenAngularBracket => "open angular bracket '<'"@,
        TknView::CloseAngularBracket => "close angular bracket '>'"@,
        TknView::ColonColon => "scope resolution operator '::'"@,
        TknView::Colon => "colon ':'"@,
        TknView::Dot => "dot '.'"@,
        TknView::Borrow => "borrow '&'"@,
        TknView::DiscardSingle => "single discard '_'"@,
        TknView::DiscardMany => "many discard '..'"@,
        TknView::EndOfFile => "end of file"@,
        TknView::Invalid => "invalid token"@,
        TknView::Either(l, _) => token_text_spec(*l),
    }
}

/// `String::from` on a `char`: the string of that one character.
#[verifier::external_body]
fn char_string(c: char) -> (r: String)
    ensures
        r@ == seq![c],
{
    String::from(c)
}

/// The view of a token type.
pub open spec fn tkn_view(t: TokenType) -> TknView
    decreases t,
{
    match t {
        TokenType::Keyword(k) => TknView::Keyword(k),
        TokenType::Type(ty) => TknView::Type(ty),
        TokenType::Identifier(s) => TknView::Identifier(s@),
        TokenType::Operation(op) => TknView::Operation(op),
        TokenType::IntegerLiteral { value, len } => TknView::IntegerLiteral { value, len },
        TokenType::FloatLiteral { text, len } => TknView::FloatLiteral { text: text@, len },
        TokenType::CharLiteral(c) => TknView::CharLiteral(c),
        TokenType::StringLiteral(s) => TknView::StringLiteral(s@),
        TokenType::BooleanLiteral(b) => TknView::BooleanLiteral(b),
        TokenType::Comma => TknView::Comma,
        TokenType::Semicolon => TknView::Semicolon,
        TokenType::Dollar => TknView::Dollar,
        TokenType::OpenParen => TknView::OpenParen,
        TokenType::CloseParen => TknView::CloseParen,
        TokenType::OpenCurlyBrace => TknView::OpenCurlyBrace,
        TokenType::CloseCurlyBrace => TknView::CloseCurlyBrace,
        TokenType::OpenSquareBracket => TknView::OpenSquareBracket,
        TokenType::CloseSquareBracket => TknView::CloseSquareBracket,
        TokenType::OpenAngularBracket => TknView::OpenAngularBracket,
        TokenType::CloseAngularBracket => TknView::CloseAngularBracket,
        TokenType::ColonColon => TknView::ColonColon,
        TokenType::Colon => TknView::Colon,
        TokenType::Dot => TknView::Dot,
        TokenType::Borrow => TknView::Borrow,
        TokenType::DiscardSingle => TknView::DiscardSingle,
        TokenType::DiscardMany => TknView::DiscardMany,
        TokenType::Either(l, r) => TknView::Either(Box::new(tkn_view(*l)), Box::new(tkn_view(*r))),
        TokenType::EndOfFile => TknView::EndOfFile,
        TokenType::Invalid => TknView::Invalid,
    }
}

impl View for TokenType {
    type V = TknView;

    open spec fn view(&self) -> TknView {
        tkn_view(*self)
    }
}

/// When two tokens count as the same.  An `Either` matches what either of its
/// two sides matches.  Integer literals compare by value, whatever their
/// width in the source.  Boolean literals match by value, and each discard
/// matches itself.
pub open spec fn tkn_eq(a: TknView, b: TknView) -> bool
    decreases a, b,
{
    match (a, b) {
        (TknView::Either(l, r), TknView::Either(ol, or)) => tkn_eq(*l, *ol) || tkn_eq(*l, *or)
            || tkn_eq(*r, *ol) || tkn_eq(*r, *or),
        (TknView::Either(l, r), _) => tkn_eq(*l, b) || tkn_eq(*r, b),
        (_, TknView::Either(ol, or)) => tkn_eq(a, *ol) || tkn_eq(a, *or),
        (TknView::Keyword(x), TknView::Keyword(y)) => x == y,
        (TknView::Type(x), TknView::Type(y)) => x == y,
        (TknView::Identifier(x), TknView::Identifier(y)) => x == y,
        (TknView::Operation(x), TknView::Operation(y)) => x == y,
        (TknView::IntegerLiteral { value: x, .. }, TknView::IntegerLiteral { value: y, .. }) => x == y,
        (TknView::FloatLiteral { text: x, .. }, TknView::FloatLiteral { text: y, .. }) => x == y,
        (TknView::CharLiteral(x), TknView::CharLiteral(y)) => x == y,
        (TknView::StringLiteral(x), TknView::StringLiteral(y)) => x == y,
        (TknView::BooleanLiteral(x), TknView::BooleanLiteral(y)) => x == y,
        (TknView::DiscardSingle, TknView::DiscardSingle) => true,
        (TknView::DiscardMany, TknView::DiscardMany) => true,
        (TknView::Semicolon, TknView::Semicolon) => true,
        (TknView::Dollar, TknView::Dollar) => true,
        (TknView::OpenParen, TknView::OpenParen) => true,
        (TknView::CloseParen, TknView::CloseParen) => true,
        (TknView::OpenCurlyBrace, TknView::OpenCurlyBrace) => true,
        (TknView::CloseCurlyBrace, TknView::CloseCurlyBrace) => true,
        (TknView::OpenSquareBracket, TknView::OpenSquareBracket) => true,
        (TknView::CloseSquareBracket, TknView::CloseSquareBracket) => true,
        (TknView::OpenAngularBracket, TknView::OpenAngularBracket) => true,
        (TknView::CloseAngularBracket, TknView::CloseAngularBracket) => true,
        (TknView::ColonColon, TknView::ColonColon) => true,
        (TknView::Colon, TknView::Colon) => true,
        (TknView::Dot, TknView::Dot) => true,
        (TknView::Comma, TknView::Comma) => true,
        (TknView::Borrow, TknView::Borrow) => true,
        (TknView::EndOfFile, TknView::EndOfFile) => true,
        (TknView::Invalid, TknView::Invalid) => true,
        _ => false,
    }
}
/// Every token counts as the same as itself.
pub proof fn lemma_tkn_eq_reflexive(t: TknView)
    ensures
        tkn_eq(t, t),
    decreases t,
{
    if let TknView::Either(l, r) = t {
        lemma_tkn_eq_reflexive(*l);
    }
}


/// The width that a token type reports for itself.
pub open spec fn tkn_len(t: TknView) -> int
    decreases t,
{
    match t {
        TknView::Keyword(k) => keyword_len(k) as int,
        TknView::Type(ty) => type_text(ty).len() as int,
        TknView::Identifier(s) => utf8_len(s) as int,
        TknView::Operation(op) => operator_len(op) as int,
        TknView::IntegerLiteral { len, .. } => len as int,
        TknView::FloatLiteral { len, .. } => len as int,
        TknView::CharLiteral(_) => 1,
        TknView::StringLiteral(s) => (utf8_len(s) + 2) as int,
        TknView::BooleanLiteral(b) => if b { 4 } else { 5 },
        TknView::ColonColon => 2,
        TknView::DiscardMany => 2,
        TknView::Either(l, _) => tkn_len(*l),
        _ => 1,
    }
}

impl PartialEq for TokenType {
    fn eq(&self, other: &Self) -> (r: bool) {
        self.tkn_eq(other)
    }
}

impl vstd::std_specs::cmp::PartialEqSpecImpl for TokenType {
    open spec fn obeys_eq_spec() -> bool {
        true
    }

    open spec fn eq_spec(&self, other: &Self) -> bool {
        tkn_eq(self@, other@)
    }
}

impl Eq for TokenType {

}

impl TokenType {
    /// How the token is named in messages (see [`token_text_spec`]).
    pub fn to_text(&self) -> (r: String)
        ensures
            r@ == token_text_spec(self@),
        decreases *self,
    {
        proof {
            reveal_strlit("keyword ");
            reveal_strlit("type ");
            reveal_strlit("identifier ");
            reveal_strlit("operator ");
            reveal_strlit("integer ");
            reveal_strlit("float ");
            reveal_strlit("char ");
            reveal_strlit("string \"");
            reveal_strlit("\"");
            reveal_strlit("true");
            reveal_strlit("false");
            reveal_strlit("-");
            reveal_strlit("keyword true");
            reveal_strlit("keyword false");
            reveal_strlit("integer -");
            reveal_strlit("comma ','");
            reveal_strlit("semicolon ';'");
            reveal_strlit("dollar '$'");
            reveal_strlit("open parenthesis '('");
            reveal_strlit("close parenthesis ')'");
            reveal_strlit("open curly brace '{'");
            reveal_strlit("close curly brace '}'");
            reveal_strlit("open square bracket '['");
            reveal_strlit("close square bracket ']'");
            reveal_strlit("open angular bracket '<'");
            reveal_strlit("close angular bracket '>'");
            reveal_strlit("scope resolution operator '::'");
            reveal_strlit("colon ':'");
            reveal_strlit("dot '.'");
            reveal_strlit("borrow '&'");
            reveal_strlit("single discard '_'");
            reveal_strlit("many discard '..'");
            reveal_strlit("end of file");
            reveal_strlit("invalid token");
        }
        match self {
            TokenType::Keyword(k) => String::from_str("keyword ").concat(k.as_str()),
            TokenType::Type(ty) => String::from_str("type ").concat(ty.as_str()),
            TokenType::Identifier(name) => String::from_str("identifier ").concat(name.as_str()),
            TokenType::Operation(op) => String::from_str("operator ").concat(op.as_str()),
            TokenType::IntegerLiteral { value, .. } => {
                let v = *value;
                if v < 0 {
                    let m: u128 = ((-(v + 1)) as u128) + 1;
                    let digits = u128_text(m);
                    String::from_str("integer -").concat(digits.as_str())
                } else {
                    let digits = u128_text(v as u128);
                    String::from_str("integer ").concat(digits.as_str())
                }
            },
            TokenType::FloatLiteral { text, .. } => String::from_str("float ").concat(text.as_str()),
            TokenType::CharLiteral(c) => {
                let one = char_string(*c);
                String::from_str("char ").concat(one.as_str())
            },
            TokenType::StringLiteral(text) => String::from_str("string \"").concat(text.as_str()).concat("\""),
            TokenType::BooleanLiteral(b) => if *b {
                String::from_str("keyword true")
            } else {
                String::from_str("keyword false")
            },
            TokenType::Comma => String::from_str("comma ','"),
            TokenType::Semicolon => String::from_str("semicolon ';'"),
            TokenType::Dollar => String::from_str("dollar '$'"),
            TokenType::OpenParen => String::from_str("open parenthesis '('"),
            TokenType::CloseParen => String::from_str("close parenthesis ')'"),
            TokenType::OpenCurlyBrace => String::from_str("open curly brace '{'"),
            TokenType::CloseCurlyBrace => String::from_str("close curly brace '}'"),
            TokenType::OpenSquareBracket => String::from_str("open square bracket '['"),
            TokenType::CloseSquareBracket => String::from_str("close square bracket ']'"),
            TokenType::OpenAngularBracket => String::from_str("open angular bracket '<'"),
            TokenType::CloseAngularBracket => String::from_str("close angular bracket '>'"),
            TokenType::ColonColon => String::from_str("scope resolution operator '::'"),
            TokenType::Colon => String::from_str("colon ':'"),
            TokenType::Dot => String::from_str("dot '.'"),
            TokenType::Borrow => String::from_str("borrow '&'"),
            TokenType::DiscardSingle => String::from_str("single discard '_'"),
            TokenType::DiscardMany => String::from_str("many discard '..'"),
            TokenType::EndOfFile => String::from_str("end of file"),
            TokenType::Invalid => String::from_str("invalid token"),
            TokenType::Either(l, _) => l.to_text(),
        }
    }

    /// Whether two tokens count as the same (see [`tkn_eq`]).
    pub fn tkn_eq(&self, other: &TokenType) -> (r: bool)
        ensures
            r == tkn_eq(self@, other@),
        decreases *self, *other,
    {
        match (self, other) {
            (TokenType::Either(l, r), TokenType::Either(ol, or)) => {
                l.tkn_eq(ol) || l.tkn_eq(or) || r.tkn_eq(ol) || r.tkn_eq(or)
            },
            (TokenType::Either(l, r), _) => l.tkn_eq(other) || r.tkn_eq(other),
            (_, TokenType::Either(ol, or)) => self.tkn_eq(ol) || self.tkn_eq(or),
            (TokenType::Keyword(x), TokenType::Keyword(y)) => *x == *y,
            (TokenType::Type(x), TokenType::Type(y)) => *x == *y,
            (TokenType::Identifier(x), TokenType::Identifier(y)) => *x == *y,
            (TokenType::Operation(x), TokenType::Operation(y)) => *x == *y,
            (TokenType::IntegerLiteral { value: x, .. }, TokenType::IntegerLiteral { value: y, .. }) => *x == *y,
            (TokenType::FloatLiteral { text: x, .. }, TokenType::FloatLiteral { text: y, .. }) => *x == *y,
            (TokenType::CharLiteral(x), TokenType::CharLiteral(y)) => *x == *y,
            (TokenType::StringLiteral(x), TokenType::StringLiteral(y)) => *x == *y,
            (TokenType::BooleanLiteral(x), TokenType::BooleanLiteral(y)) => *x == *y,
            (TokenType::DiscardSingle, TokenType::DiscardSingle) => true,
            (TokenType::DiscardMany, TokenType::DiscardMany) => true,
            (TokenType::Semicolon, TokenType::Semicolon) => true,
            (TokenType::Dollar, TokenType::Dollar) => true,
            (TokenType::OpenParen, TokenType::OpenParen) => true,
            (TokenType::CloseParen, TokenType::CloseParen) => true,
            (TokenType::OpenCurlyBrace, TokenType::OpenCurlyBrace) => true,
            (TokenType::CloseCurlyBrace, TokenType::CloseCurlyBrace) => true,
            (TokenType::OpenSquareBracket, TokenType::OpenSquareBracket) => true,
            (TokenType::CloseSquareBracket, TokenType::CloseSquareBracket) => true,
            (TokenType::OpenAngularBracket, TokenType::OpenAngularBracket) => true,
            (TokenType::CloseAngularBracket, TokenType::CloseAngularBracket) => true,
            (TokenType::ColonColon, TokenType::ColonColon) => true,
            (TokenType::Colon, TokenType::Colon) => true,
            (TokenType::Dot, TokenType::Dot) => true,
            (TokenType::Comma, TokenType::Comma) => true,
            (TokenType::Borrow, TokenType::Borrow) => true,
            (TokenType::EndOfFile, TokenType::EndOfFile) => true,
            (TokenType::Invalid, TokenType::Invalid) => true,
            _ => false,
        }
    }

    /// The width of the token in the source, as used to underline it.
    pub fn len(&self) -> (r: usize)
        requires
            tkn_len(self@) <= usize::MAX,
        ensures
            r == tkn_len(self@),
        decreases *self,
    {
        match self {
            TokenType::Keyword(keyword) => keyword.len(),
            TokenType::Type(sgr_type) => sgr_type.len(),
            TokenType::Identifier(ident) => ident.as_str().len(),
            TokenType::Operation(operator) => operator.len(),
            TokenType::IntegerLiteral { len, .. } => *len,
            TokenType::FloatLiteral { len, .. } => *len,
            TokenType::CharLiteral(_) => 1,
            TokenType::StringLiteral(string) => string.as_str().len() + 2,
            TokenType::BooleanLiteral(b) => if *b { 4 } else { 5 },
            TokenType::Comma => 1,
            TokenType::Semicolon => 1,
            TokenType::Dollar => 1,
            TokenType::OpenParen => 1,
            TokenType::CloseParen => 1,
            TokenType::OpenCurlyBrace => 1,
            TokenType::CloseCurlyBrace => 1,
            TokenType::OpenSquareBracket => 1,
            TokenType::CloseSquareBracket => 1,
            TokenType::OpenAngularBracket => 1,
            TokenType::CloseAngularBracket => 1,
            TokenType::ColonColon => 2,
            TokenType::Colon => 1,
            TokenType::Dot => 1,
            TokenType::Borrow => 1,
            TokenType::DiscardSingle => 1,
            TokenType::DiscardMany => 2,
            TokenType::Either(token_type, _) => token_type.len(),
            TokenType::EndOfFile => 1,
            TokenType::Invalid => 1,
        }
    }
}

impl Clone for TokenType {
    /// An equal copy.
    fn clone(&self) -> (r: Self)
        ensures
            r == *self,
            r@ == self@,
        decreases *self,
    {
        match self {
            TokenType::Keyword(k) => TokenType::Keyword(*k),
            TokenType::Type(t) => TokenType::Type(*t),
            TokenType::Identifier(s) => TokenType::Identifier(s.clone()),
            TokenType::Operation(op) => TokenType::Operation(*op),
            TokenType::IntegerLiteral { value, len } => TokenType::IntegerLiteral { value: *value, len: *len },
            TokenType::FloatLiteral { text, len } => TokenType::FloatLiteral { text: text.clone(), len: *len },
            TokenType::CharLiteral(c) => TokenType::CharLiteral(*c),
            TokenType::StringLiteral(s) => TokenType::StringLiteral(s.clone()),
            TokenType::BooleanLiteral(b) => TokenType::BooleanLiteral(*b),
            TokenType::Comma => TokenType::Comma,
            TokenType::Semicolon => TokenType::Semicolon,
            TokenType::Dollar => TokenType::Dollar,
            TokenType::OpenParen => TokenType::OpenParen,
            TokenType::CloseParen => TokenType::CloseParen,
            TokenType::OpenCurlyBrace => TokenType::OpenCurlyBrace,
            TokenType::CloseCurlyBrace => TokenType::CloseCurlyBrace,
            TokenType::OpenSquareBracket => TokenType::OpenSquareBracket,
            TokenType::CloseSquareBracket => TokenType::CloseSquareBracket,
            TokenType::OpenAngularBracket => TokenType::OpenAngularBracket,
            TokenType::CloseAngularBracket => TokenType::CloseAngularBracket,
            TokenType::ColonColon => TokenType::ColonColon,
            TokenType::Colon => TokenType::Colon,
            TokenType::Dot => TokenType::Dot,
            TokenType::Borrow => TokenType::Borrow,
            TokenType::DiscardSingle => TokenType::DiscardSingle,
            TokenType::DiscardMany => TokenType::DiscardMany,
            TokenType::Either(l, r) => TokenType::Either(Box::new((**l).clone()), Box::new((**r).clone())),
            TokenType::EndOfFile => TokenType::EndOfFile,
            TokenType::Invalid => TokenType::Invalid,
        }
    }
}

/// Short name of [`Token`].
pub type Tkn = Token;

/// A token and the place where it starts: the file, the line (from 1) and the
/// column (from 1).
#[derive(Debug)]
pub struct Token {
    pub token: TokenType,
    pub file_name: String,
    pub line_index: usize,
    pub line_number: usize,
}

/// The mathematical value of a [`Token`].
pub struct TokenView {
    pub token: TknView,
    pub file_name: Seq<char>,
    pub line_index: usize,
    pub line_number: usize,
}

impl View for Token {
    type V = TokenView;

    open spec fn view(&self) -> TokenView {
        TokenView {
            token: self.token@,
            file_name: self.file_name@,
            line_index: self.line_index,
            line_number: self.line_number,
        }
    }
}

impl Token {
    /// A token of type `token` found in `file_name` at line `line_number`,
    /// column `line_index`.
    pub fn new(token: TokenType, file_name: String, line_index: usize, line_number: usize) -> (r:
        Token)
        ensures
            r.token == token,
            r.file_name == file_name,
            r.line_index == line_index,
            r.line_number == line_number,
    {
        Token { token, file_name, line_index, line_number }
    }
}

impl Clone for Token {
    /// An equal copy.
    fn clone(&self) -> (r: Self)
        ensures
            r == *self,
            r@ == self@,
    {
        Token {
            token: self.token.clone(),
            file_name: self.file_name.clone(),
            line_index: self.line_index,
            line_number: self.line_number,
        }
    }
}

} // verus!
