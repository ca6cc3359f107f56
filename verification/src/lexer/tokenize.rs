//! The lexer: it reads the source text left to right and emits one token per
//! word, literal, operator or punctuation mark, skipping spaces, line breaks
//! and comments (`// ...` to the end of the line, `/, ... ,/` nested).
use vstd::prelude::*;
use vstd::string::*;
use crate::lexer::token::{tkn_view, utf8_len, Keyword, Operator, Tkn, TknType, TknView, Token, TokenType, TokenView, Type};

verus! {

// Character classes.

/// Whether `c` is alphanumeric in Unicode's sense (the result of
/// `char::is_alphanumeric`).
pub uninterp spec fn char_is_alphanumeric(c: char) -> bool;

/// Whether `c` is numeric in Unicode's sense (the result of
/// `char::is_numeric`).
pub uninterp spec fn char_is_numeric(c: char) -> bool;

/// `0` to `9`.
pub open spec fn is_ascii_digit(c: char) -> bool {
    48 <= (c as u32) && (c as u32) <= 57
}

/// `a` to `z` and `A` to `Z`.
pub open spec fn is_ascii_letter(c: char) -> bool {
    (97 <= (c as u32) && (c as u32) <= 122) || (65 <= (c as u32) && (c as u32) <= 90)
}

/// Whether `c` is alphanumeric: on ASCII exactly `0-9`, `a-z` and `A-Z`,
/// elsewhere as Unicode has it.
pub open spec fn alphanumeric(c: char) -> bool {
    if (c as u32) < 128 {
        is_ascii_digit(c) || is_ascii_letter(c)
    } else {
        char_is_alphanumeric(c)
    }
}

/// Whether `c` is numeric: on ASCII exactly `0-9`, elsewhere as Unicode has
/// it.
pub open spec fn numeric(c: char) -> bool {
    if (c as u32) < 128 {
        is_ascii_digit(c)
    } else {
        char_is_numeric(c)
    }
}

/// `char::is_alphanumeric`: true for a letter or a digit of any script.
/// Stated here: on ASCII it holds exactly of `0-9`, `a-z` and `A-Z`.
#[verifier::external_body]
fn is_alphanumeric(c: char) -> (r: bool)
    ensures
        r == char_is_alphanumeric(c),
        r == alphanumeric(c),
{
    c.is_alphanumeric()
}

/// `char::is_numeric`: true for a numeric character of any script.  Stated
/// here: on ASCII it holds exactly of `0-9`.
#[verifier::external_body]
fn is_numeric(c: char) -> (r: bool)
    ensures
        r == char_is_numeric(c),
        r == numeric(c),
{
    c.is_numeric()
}

/// Characters that always form a token of their own: `(){}[];?.,`
pub open spec fn is_single_token_char(c: char) -> bool {
    c == '(' || c == ')' || c == '{' || c == '}' || c == '[' || c == ']' || c == ';' || c == '?'
        || c == '.' || c == ','
}

/// Characters that operators are made of: `+-*/%&|^=!~:<>.`
pub open spec fn is_operator_char(c: char) -> bool {
    c == '+' || c == '-' || c == '*' || c == '/' || c == '%' || c == '&' || c == '|' || c == '^'
        || c == '=' || c == '!' || c == '~' || c == ':' || c == '<' || c == '>' || c == '.'
}

/// Characters that end a word: spaces, line breaks, punctuation and
/// operator characters.
pub open spec fn is_invalid_char(c: char) -> bool {
    c == ' ' || c == '\n' || c == '\r' || is_single_token_char(c) || is_operator_char(c)
}

/// A line break: `\n` or `\r`.
pub open spec fn is_newline(c: char) -> bool {
    c == '\n' || c == '\r'
}

// Runs of characters.

/// The end of the run of alphanumeric characters that starts at `i`.
pub open spec fn alnum_end(s: Seq<char>, i: int) -> int
    decreases s.len() - i,
{
    if 0 <= i < s.len() && alphanumeric(s[i]) {
        alnum_end(s, i + 1)
    } else {
        i
    }
}

/// The word that starts at `i` holds no character that ends a word.
pub proof fn lemma_word_end(s: Seq<char>, i: int)
    requires
        0 <= i <= s.len(),
    ensures
        i <= word_end(s, i) <= s.len(),
        forall|j: int| i <= j < word_end(s, i) ==> !is_invalid_char(#[trigger] s[j]),
    decreases s.len() - i,
{
    if i < s.len() && !is_invalid_char(s[i]) {
        lemma_word_end(s, i + 1);
    }
}

/// The end of a possible floating-point literal at `i`: alphanumeric
/// characters with at most one `.` among them.
pub open spec fn float_end(s: Seq<char>, i: int) -> int {
    let a = alnum_end(s, i);
    if 0 <= a < s.len() && s[a] == '.' {
        alnum_end(s, a + 1)
    } else {
        a
    }
}

/// The end of the word at `i`: the run of characters that do not end a word.
pub open spec fn word_end(s: Seq<char>, i: int) -> int
    decreases s.len() - i,
{
    if 0 <= i < s.len() && !is_invalid_char(s[i]) {
        word_end(s, i + 1)
    } else {
        i
    }
}

/// The end of the run of spaces at `i`.
pub open spec fn spaces_end(s: Seq<char>, i: int) -> int
    decreases s.len() - i,
{
    if 0 <= i < s.len() && s[i] == ' ' {
        spaces_end(s, i + 1)
    } else {
        i
    }
}

/// The end of a line comment whose text starts at `i`: the next line break,
/// or the end of the source.
pub open spec fn line_comment_end(s: Seq<char>, i: int) -> int
    decreases s.len() - i,
{
    if 0 <= i < s.len() && !is_newline(s[i]) {
        line_comment_end(s, i + 1)
    } else {
        i
    }
}

/// Scans a block comment from `j`, with `depth` comments open and
/// `newlines` line breaks seen so far: `/,` opens a nested comment, `,/`
/// closes one.  The scan stops when the depth reaches zero or fewer than two
/// characters are left.  Returns where it stopped and the line breaks seen.
pub open spec fn block_comment_scan(s: Seq<char>, j: int, depth: int, newlines: int) -> (int, int)
    decreases s.len() - j,
{
    if 0 <= j && j + 1 < s.len() {
        if s[j] == '/' && s[j + 1] == ',' {
            if depth + 1 == 0 {
                (j + 2, newlines)
            } else {
                block_comment_scan(s, j + 2, depth + 1, newlines)
            }
        } else if s[j] == ',' && s[j + 1] == '/' {
            if depth - 1 == 0 {
                (j + 2, newlines)
            } else {
                block_comment_scan(s, j + 2, depth - 1, newlines)
            }
        } else if is_newline(s[j]) {
            block_comment_scan(s, j + 1, depth, newlines + 1)
        } else {
            block_comment_scan(s, j + 1, depth, newlines)
        }
    } else {
        (j, newlines)
    }
}

/// `s[a..b]`, with both ends cut down to the length of `s`.
pub open spec fn clamped_slice(s: Seq<char>, a: int, b: int) -> Seq<char> {
    let lo = if a < s.len() { a } else { s.len() as int };
    let hi = if b < s.len() { b } else { s.len() as int };
    if 0 <= lo <= hi {
        s.subrange(lo, hi)
    } else {
        Seq::empty()
    }
}

/// A measure that shrinks as `j` moves towards the end of `s`.
pub open spec fn remaining(s: Seq<char>, j: int) -> int {
    if j < s.len() {
        s.len() - j
    } else {
        0
    }
}

/// Where a character literal whose text starts at `j` ends: the next `'`
/// that is not escaped by a backslash (a backslash skips the character after
/// it), or the end of the source.
pub open spec fn char_lit_close(s: Seq<char>, j: int) -> int
    decreases remaining(s, j),
{
    if 0 <= j < s.len() {
        if s[j] == '\\' {
            char_lit_close(s, j + 2)
        } else if s[j] == '\'' {
            j
        } else {
            char_lit_close(s, j + 1)
        }
    } else {
        j
    }
}

/// Where a string literal whose text starts at `j` is closed: the next `"`
/// that is not escaped by a backslash; `None` when it is never closed.
pub open spec fn str_lit_close(s: Seq<char>, j: int) -> Option<int>
    decreases remaining(s, j),
{
    if 0 <= j < s.len() {
        if s[j] == '\\' {
            str_lit_close(s, j + 2)
        } else if s[j] == '"' {
            Some(j)
        } else {
            str_lit_close(s, j + 1)
        }
    } else {
        None
    }
}

// Literals.

/// Every character is an ASCII digit.
pub open spec fn all_digits(w: Seq<char>) -> bool {
    forall|k: int| 0 <= k < w.len() ==> is_ascii_digit(#[trigger] w[k])
}

/// The number that a string of decimal digits denotes.
pub open spec fn decimal_value(w: Seq<char>) -> int
    decreases w.len(),
{
    if w.len() == 0 {
        0
    } else {
        decimal_value(w.drop_last()) * 10 + ((w.last() as u32) - 48)
    }
}

/// The value of an integer literal: a non-empty string of decimal digits
/// whose value fits in an `i128`.
pub open spec fn integer_literal_value(w: Seq<char>) -> Option<i128> {
    if w.len() > 0 && all_digits(w) && decimal_value(w) <= i128::MAX {
        Some(decimal_value(w) as i128)
    } else {
        None
    }
}

/// The ASCII lower case of `c`.
pub open spec fn ascii_lower(c: char) -> int {
    if 65 <= (c as u32) && (c as u32) <= 90 {
        (c as u32) + 32
    } else {
        c as int
    }
}

/// `w` equals `t` when ASCII letters are compared without regard to case.
pub open spec fn eq_ignore_ascii_case(w: Seq<char>, t: Seq<char>) -> bool {
    w.len() == t.len() && forall|k: int| 0 <= k < w.len() ==> ascii_lower(#[trigger] w[k])
        == ascii_lower(t[k])
}

/// The first position from `k` on that holds `a` or `b`, or the length.
pub open spec fn find_either(w: Seq<char>, k: int, a: char, b: char) -> int
    decreases w.len() - k,
{
    if 0 <= k < w.len() {
        if w[k] == a || w[k] == b {
            k
        } else {
            find_either(w, k + 1, a, b)
        }
    } else {
        w.len() as int
    }
}

/// Digits, digits `.` digits, with at least one digit on some side.
pub open spec fn is_mantissa(m: Seq<char>) -> bool {
    let d = find_either(m, 0, '.', '.');
    if d < m.len() {
        m.len() > 1 && all_digits(m.subrange(0, d)) && all_digits(m.subrange(d + 1, m.len() as int))
    } else {
        m.len() > 0 && all_digits(m)
    }
}

/// An exponent after the `e`: an optional sign and at least one digit.
pub open spec fn is_exponent(x: Seq<char>) -> bool {
    if x.len() > 0 && (x[0] == '+' || x[0] == '-') {
        x.len() > 1 && all_digits(x.drop_first())
    } else {
        x.len() > 0 && all_digits(x)
    }
}

/// A floating-point literal without sign: `inf`, `infinity` or `nan` in any
/// case, or a mantissa with an optional exponent (`e` or `E`).
pub open spec fn is_unsigned_float_text(w: Seq<char>) -> bool {
    if eq_ignore_ascii_case(w, "inf"@) || eq_ignore_ascii_case(w, "infinity"@)
        || eq_ignore_ascii_case(w, "nan"@) {
        true
    } else {
        let e = find_either(w, 0, 'e', 'E');
        if e < w.len() {
            is_mantissa(w.subrange(0, e)) && is_exponent(w.subrange(e + 1, w.len() as int))
        } else {
            is_mantissa(w)
        }
    }
}

/// The text of a floating-point literal, as `f64::from_str` accepts it: an
/// optional sign, then an unsigned literal.
pub open spec fn is_float_text(w: Seq<char>) -> bool {
    if w.len() > 0 && (w[0] == '+' || w[0] == '-') {
        is_unsigned_float_text(w.drop_first())
    } else {
        is_unsigned_float_text(w)
    }
}

/// How many operator spellings the lexer tries.
pub open spec fn operator_count() -> int { 57 }

/// The operator spellings that the lexer tries, longest alternatives first.
pub open spec fn operator_candidate(k: int) -> Seq<char> {
    if k == 0 {
        "!..="@
    } else if k == 1 {
        "!.."@
    } else if k == 2 {
        "..="@
    } else if k == 3 {
        ".."@
    } else if k == 4 {
        "++="@
    } else if k == 5 {
        "+.="@
    } else if k == 6 {
        "+="@
    } else if k == 7 {
        "-.="@
    } else if k == 8 {
        "-="@
    } else if k == 9 {
        "**.="@
    } else if k == 10 {
        "**="@
    } else if k == 11 {
        "*.="@
    } else if k == 12 {
        "*="@
    } else if k == 13 {
        "/.="@
    } else if k == 14 {
        "/="@
    } else if k == 15 {
        "%.="@
    } else if k == 16 {
        "%="@
    } else if k == 17 {
        "&&="@
    } else if k == 18 {
        "||="@
    } else if k == 19 {
        "^^="@
    } else if k == 20 {
        "=!"@
    } else if k == 21 {
        "&="@
    } else if k == 22 {
        "|="@
    } else if k == 23 {
        "^="@
    } else if k == 24 {
        "=~"@
    } else if k == 25 {
        "<<="@
    } else if k == 26 {
        ">>="@
    } else if k == 27 {
        "=="@
    } else if k == 28 {
        "!="@
    } else if k == 29 {
        "<="@
    } else if k == 30 {
        ">="@
    } else if k == 31 {
        "="@
    } else if k == 32 {
        "++"@
    } else if k == 33 {
        "+."@
    } else if k == 34 {
        "+"@
    } else if k == 35 {
        "-."@
    } else if k == 36 {
        "-"@
    } else if k == 37 {
        "**."@
    } else if k == 38 {
        "**"@
    } else if k == 39 {
        "*."@
    } else if k == 40 {
        "*"@
    } else if k == 41 {
        "/."@
    } else if k == 42 {
        "/"@
    } else if k == 43 {
        "%."@
    } else if k == 44 {
        "%"@
    } else if k == 45 {
        "&&"@
    } else if k == 46 {
        "||"@
    } else if k == 47 {
        "^^"@
    } else if k == 48 {
        "!"@
    } else if k == 49 {
        "&"@
    } else if k == 50 {
        "|"@
    } else if k == 51 {
        "^"@
    } else if k == 52 {
        "~"@
    } else if k == 53 {
        "<<"@
    } else if k == 54 {
        ">>"@
    } else if k == 55 {
        "<"@
    } else if k == 56 {
        ">"@
    } else {
        Seq::empty()
    }
}

/// The token that an operator spelling stands for; `None` for the spellings
/// that the lexer recognises but cannot turn into a token.
pub open spec fn operator_candidate_token(k: int) -> Option<TknView> {
    if k == 0 {
        Some(TknView::Operation(Operator::BangRangeEquals))
    } else if k == 1 {
        Some(TknView::Operation(Operator::BangRange))
    } else if k == 2 {
        Some(TknView::Operation(Operator::RangeEquals))
    } else if k == 3 {
        Some(TknView::Either(Box::new(TknView::DiscardMany), Box::new(TknView::Operation(Operator::Range))))
    } else if k == 4 {
        Some(TknView::Operation(Operator::ConcatEquals))
    } else if k == 5 {
        Some(TknView::Operation(Operator::PlusFloatEquals))
    } else if k == 6 {
        Some(TknView::Operation(Operator::PlusEquals))
    } else if k == 7 {
        Some(TknView::Operation(Operator::MinusFloatEquals))
    } else if k == 8 {
        Some(TknView::Operation(Operator::MinusEquals))
    } else if k == 9 {
        Some(TknView::Operation(Operator::ExponentFloatEquals))
    } else if k == 10 {
        Some(TknView::Operation(Operator::ExponentEquals))
    } else if k == 11 {
        Some(TknView::Operation(Operator::MultiplyFloatEquals))
    } else if k == 12 {
        Some(TknView::Operation(Operator::MultiplyEquals))
    } else if k == 13 {
        Some(TknView::Operation(Operator::DivideFloatEquals))
    } else if k == 14 {
        Some(TknView::Operation(Operator::DivideEquals))
    } else if k == 15 {
        Some(TknView::Operation(Operator::ModuloFloatEquals))
    } else if k == 16 {
        Some(TknView::Operation(Operator::ModuloEquals))
    } else if k == 27 {
        Some(TknView::Operation(Operator::Equals))
    } else if k == 28 {
        Some(TknView::Operation(Operator::NotEquals))
    } else if k == 29 {
        Some(TknView::Operation(Operator::LessThanEqualTo))
    } else if k == 30 {
        Some(TknView::Operation(Operator::GreaterThanEqualTo))
    } else if k == 31 {
        Some(TknView::Operation(Operator::Assign))
    } else if k == 33 {
        Some(TknView::Operation(Operator::PlusFloat))
    } else if k == 34 {
        Some(TknView::Operation(Operator::Plus))
    } else if k == 35 {
        Some(TknView::Operation(Operator::MinusFloat))
    } else if k == 36 {
        Some(TknView::Operation(Operator::Minus))
    } else if k == 37 {
        Some(TknView::Operation(Operator::ExponentFloat))
    } else if k == 38 {
        Some(TknView::Operation(Operator::Exponent))
    } else if k == 39 {
        Some(TknView::Operation(Operator::MultiplyFloat))
    } else if k == 40 {
        Some(TknView::Operation(Operator::Multiply))
    } else if k == 41 {
        Some(TknView::Operation(Operator::DivideFloat))
    } else if k == 42 {
        Some(TknView::Operation(Operator::Divide))
    } else if k == 43 {
        Some(TknView::Operation(Operator::ModuloFloat))
    } else if k == 44 {
        Some(TknView::Operation(Operator::Modulo))
    } else if k == 45 {
        Some(TknView::Operation(Operator::LogicAnd))
    } else if k == 46 {
        Some(TknView::Operation(Operator::LogicOr))
    } else if k == 48 {
        Some(TknView::Operation(Operator::LogicNot))
    } else if k == 49 {
        Some(TknView::Either(Box::new(TknView::Operation(Operator::BitwiseAnd)), Box::new(TknView::Borrow)))
    } else if k == 50 {
        Some(TknView::Operation(Operator::BitwiseOr))
    } else if k == 51 {
        Some(TknView::Operation(Operator::BitwiseXor))
    } else if k == 52 {
        Some(TknView::Operation(Operator::BitwiseNegate))
    } else if k == 53 {
        Some(TknView::Operation(Operator::BitwiseShiftLeft))
    } else if k == 54 {
        Some(TknView::Operation(Operator::BitwiseShiftRight))
    } else if k == 55 {
        Some(TknView::Either(Box::new(TknView::Operation(Operator::LessThan)), Box::new(TknView::OpenAngularBracket)))
    } else if k == 56 {
        Some(TknView::Either(Box::new(TknView::Operation(Operator::GreaterThan)), Box::new(TknView::CloseAngularBracket)))
    } else {
        None
    }
}
/// The token that a whole word stands for when it is a reserved word or a
/// boolean literal.
pub open spec fn keyword_token(w: Seq<char>) -> Option<TknView> {
    if w == "let"@ {
        Some(TknView::Keyword(Keyword::Let))
    } else if w == "return"@ {
        Some(TknView::Keyword(Keyword::Return))
    } else if w == "if"@ {
        Some(TknView::Keyword(Keyword::If))
    } else if w == "else"@ {
        Some(TknView::Keyword(Keyword::Else))
    } else if w == "for"@ {
        Some(TknView::Keyword(Keyword::For))
    } else if w == "while"@ {
        Some(TknView::Keyword(Keyword::While))
    } else if w == "loop"@ {
        Some(TknView::Keyword(Keyword::Loop))
    } else if w == "mut"@ {
        Some(TknView::Keyword(Keyword::Mutable))
    } else if w == "im"@ {
        Some(TknView::Keyword(Keyword::InteriorMutable))
    } else if w == "rec"@ {
        Some(TknView::Keyword(Keyword::Recursive))
    } else if w == "oxy"@ {
        Some(TknView::Keyword(Keyword::Oxidize))
    } else if w == "unsafe"@ {
        Some(TknView::Keyword(Keyword::Unsafe))
    } else if w == "fn"@ {
        Some(TknView::Keyword(Keyword::Function))
    } else if w == "accessor"@ {
        Some(TknView::Keyword(Keyword::Accessor))
    } else if w == "enclave"@ {
        Some(TknView::Keyword(Keyword::Enclave))
    } else if w == "exclave"@ {
        Some(TknView::Keyword(Keyword::Exclave))
    } else if w == "struct"@ {
        Some(TknView::Keyword(Keyword::Struct))
    } else if w == "namespace"@ {
        Some(TknView::Keyword(Keyword::Namespace))
    } else if w == "alias"@ {
        Some(TknView::Keyword(Keyword::Alias))
    } else if w == "true"@ {
        Some(TknView::BooleanLiteral(true))
    } else if w == "false"@ {
        Some(TknView::BooleanLiteral(false))
    } else if w == "pub"@ {
        Some(TknView::Keyword(Keyword::Public))
    } else if w == "prv"@ {
        Some(TknView::Keyword(Keyword::Private))
    } else if w == "pkg"@ {
        Some(TknView::Keyword(Keyword::Package))
    } else if w == "prefix"@ {
        Some(TknView::Keyword(Keyword::Prefix))
    } else if w == "infix"@ {
        Some(TknView::Keyword(Keyword::Infix))
    } else if w == "postfix"@ {
        Some(TknView::Keyword(Keyword::Postfix))
    } else {
        None
    }
}

/// The token that a whole word stands for when it names a primitive type.
pub open spec fn type_token(w: Seq<char>) -> Option<TknView> {
    if w == "i8"@ {
        Some(TknView::Type(Type::I8))
    } else if w == "i16"@ {
        Some(TknView::Type(Type::I16))
    } else if w == "i32"@ {
        Some(TknView::Type(Type::I32))
    } else if w == "i64"@ {
        Some(TknView::Type(Type::I64))
    } else if w == "i128"@ {
        Some(TknView::Type(Type::I128))
    } else if w == "u8"@ {
        Some(TknView::Type(Type::U8))
    } else if w == "u16"@ {
        Some(TknView::Type(Type::U16))
    } else if w == "u32"@ {
        Some(TknView::Type(Type::U32))
    } else if w == "u64"@ {
        Some(TknView::Type(Type::U64))
    } else if w == "u128"@ {
        Some(TknView::Type(Type::U128))
    } else if w == "f32"@ {
        Some(TknView::Type(Type::F32))
    } else if w == "f64"@ {
        Some(TknView::Type(Type::F64))
    } else if w == "char"@ {
        Some(TknView::Type(Type::Char))
    } else if w == "bool"@ {
        Some(TknView::Type(Type::Bool))
    } else {
        None
    }
}

/// The spelling `t` occurs in `s` at `i`.
pub open spec fn matches_at(s: Seq<char>, i: int, t: Seq<char>) -> bool {
    0 <= i && i + t.len() <= s.len() && s.subrange(i, i + t.len()) == t
}

/// The first operator spelling, from the `k`-th on, that occurs at `i`.
pub open spec fn first_operator(s: Seq<char>, i: int, k: int) -> Option<int>
    decreases operator_count() - k,
{
    if 0 <= k < operator_count() {
        if matches_at(s, i, operator_candidate(k)) {
            Some(k)
        } else {
            first_operator(s, i, k + 1)
        }
    } else {
        None
    }
}

/// What [`first_operator`] finds does occur there.
pub proof fn lemma_first_operator(s: Seq<char>, i: int, k: int)
    requires
        0 <= k,
    ensures
        first_operator(s, i, k) matches Some(j) ==> k <= j < operator_count() && matches_at(
            s,
            i,
            operator_candidate(j),
        ),
    decreases operator_count() - k,
{
    if k < operator_count() && !matches_at(s, i, operator_candidate(k)) {
        lemma_first_operator(s, i, k + 1);
    }
}

/// The run of spaces ends within the source.
pub proof fn lemma_spaces_end(s: Seq<char>, i: int)
    requires
        0 <= i <= s.len(),
    ensures
        i <= spaces_end(s, i) <= s.len(),
    decreases s.len() - i,
{
    if i < s.len() && s[i] == ' ' {
        lemma_spaces_end(s, i + 1);
    }
}

/// Every operator spelling has at least one character.
pub proof fn lemma_operator_candidate_nonempty(k: int)
    requires
        0 <= k < operator_count(),
    ensures
        operator_candidate(k).len() > 0,
{
    reveal_strlit("!..=");
    reveal_strlit("!..");
    reveal_strlit("..=");
    reveal_strlit("..");
    reveal_strlit("++=");
    reveal_strlit("+.=");
    reveal_strlit("+=");
    reveal_strlit("-.=");
    reveal_strlit("-=");
    reveal_strlit("**.=");
    reveal_strlit("**=");
    reveal_strlit("*.=");
    reveal_strlit("*=");
    reveal_strlit("/.=");
    reveal_strlit("/=");
    reveal_strlit("%.=");
    reveal_strlit("%=");
    reveal_strlit("&&=");
    reveal_strlit("||=");
    reveal_strlit("^^=");
    reveal_strlit("=!");
    reveal_strlit("&=");
    reveal_strlit("|=");
    reveal_strlit("^=");
    reveal_strlit("=~");
    reveal_strlit("<<=");
    reveal_strlit(">>=");
    reveal_strlit("==");
    reveal_strlit("!=");
    reveal_strlit("<=");
    reveal_strlit(">=");
    reveal_strlit("=");
    reveal_strlit("++");
    reveal_strlit("+.");
    reveal_strlit("+");
    reveal_strlit("-.");
    reveal_strlit("-");
    reveal_strlit("**.");
    reveal_strlit("**");
    reveal_strlit("*.");
    reveal_strlit("*");
    reveal_strlit("/.");
    reveal_strlit("/");
    reveal_strlit("%.");
    reveal_strlit("%");
    reveal_strlit("&&");
    reveal_strlit("||");
    reveal_strlit("^^");
    reveal_strlit("!");
    reveal_strlit("&");
    reveal_strlit("|");
    reveal_strlit("^");
    reveal_strlit("~");
    reveal_strlit("<<");
    reveal_strlit(">>");
    reveal_strlit("<");
    reveal_strlit(">");
}

/// The run of alphanumeric characters ends within the source.
pub proof fn lemma_alnum_end(s: Seq<char>, i: int)
    requires
        0 <= i <= s.len(),
    ensures
        i <= alnum_end(s, i) <= s.len(),
    decreases s.len() - i,
{
    if i < s.len() && alphanumeric(s[i]) {
        lemma_alnum_end(s, i + 1);
    }
}

/// A character literal's closing quote lies at most one place past the end.
pub proof fn lemma_char_lit_close(s: Seq<char>, j: int)
    requires
        0 <= j,
    ensures
        j <= char_lit_close(s, j),
        j <= s.len() ==> char_lit_close(s, j) <= s.len() + 1,
        j > s.len() ==> char_lit_close(s, j) == j,
    decreases remaining(s, j),
{
    if 0 <= j < s.len() {
        if s[j] == '\\' {
            lemma_char_lit_close(s, j + 2);
        } else if s[j] != '\'' {
            lemma_char_lit_close(s, j + 1);
        }
    }
}

/// A string literal's closing quote lies within the source.
pub proof fn lemma_str_lit_close(s: Seq<char>, j: int)
    requires
        0 <= j,
    ensures
        str_lit_close(s, j) matches Some(k) ==> j <= k < s.len() && s[k] == '"',
    decreases remaining(s, j),
{
    if 0 <= j < s.len() {
        if s[j] == '\\' {
            lemma_str_lit_close(s, j + 2);
        } else if s[j] != '"' {
            lemma_str_lit_close(s, j + 1);
        }
    }
}

/// A token read at `i` moves the lexer forward, by at most four bytes a
/// character and two places past the end, and the column by no more.
pub proof fn lemma_multi_token_advance(s: Seq<char>, i: int)
    requires
        0 <= i < s.len(),
    ensures
        multi_token(s, i) matches MultiOutcome::Emit(t, n, adv) ==> 0 < n && 0 <= adv <= n && i + n
            <= 4 * s.len() + 2,
{
    lemma_alnum_end(s, i);
    let a = alnum_end(s, i);
    if 0 <= a < s.len() && s[a] == '.' {
        lemma_alnum_end(s, a + 1);
    }
    lemma_word_end(s, i);
    let w1 = s.subrange(i, alnum_end(s, i));
    let w2 = s.subrange(i, float_end(s, i));
    let w3 = s.subrange(i, word_end(s, i));
    lemma_utf8_len_bound(w3);
    lemma_char_lit_close(s, i + 1);
    lemma_str_lit_close(s, i + 1);
    lemma_first_operator(s, i, 0);
    if is_float_text(w2) && float_end(s, i) > alnum_end(s, i) + 1 {
        lemma_float_nonempty(w2);
    } else if integer_literal_value(w1) is Some {
    } else if is_float_text(w2) {
        lemma_float_nonempty(w2);
    } else if keyword_token(w3) is Some {
        lemma_keyword_nonempty(w3);
    } else if is_operator_char(s[i]) && first_operator(s, i, 0) is Some {
        lemma_operator_candidate_nonempty(first_operator(s, i, 0)->0);
    } else if type_token(w3) is Some {
        lemma_type_nonempty(w3);
    }
}

/// The result of reading a token that is more than one fixed character.
pub enum MultiOutcome {
    /// A token, the number of characters it takes and how far the column
    /// advances.
    Emit(TknView, int, int),
    /// No token: the lexer cannot go on (it would stop with an error or make
    /// no progress).
    Fail,
}

/// Reads the token at `i` that is not a single fixed character.  In order: a
/// floating-point literal with digits after its dot (so that `6.28` is one
/// literal, while `1..5` starts with the integer `1`), an integer literal, a
/// floating-point literal, a reserved word, an operator, a
/// character literal, a string literal, a type name, an identifier; anything
/// else is an invalid word, skipped by its length in bytes.
pub open spec fn multi_token(s: Seq<char>, i: int) -> MultiOutcome {
    let w1 = s.subrange(i, alnum_end(s, i));
    let w2 = s.subrange(i, float_end(s, i));
    let w3 = s.subrange(i, word_end(s, i));
    if is_float_text(w2) && float_end(s, i) > alnum_end(s, i) + 1 {
        MultiOutcome::Emit(
            TknView::FloatLiteral { text: w2, len: w2.len() as usize },
            w2.len() as int,
            w2.len() as int,
        )
    } else if integer_literal_value(w1) is Some {
        MultiOutcome::Emit(
            TknView::IntegerLiteral { value: integer_literal_value(w1)->0, len: w1.len() as usize },
            w1.len() as int,
            w1.len() as int,
        )
    } else if is_float_text(w2) {
        MultiOutcome::Emit(
            TknView::FloatLiteral { text: w2, len: w2.len() as usize },
            w2.len() as int,
            w2.len() as int,
        )
    } else if keyword_token(w3) is Some {
        MultiOutcome::Emit(keyword_token(w3)->0, w3.len() as int, w3.len() as int)
    } else if is_operator_char(s[i]) && first_operator(s, i, 0) is Some {
        let k = first_operator(s, i, 0)->0;
        match operator_candidate_token(k) {
            Some(t) => MultiOutcome::Emit(
                t,
                operator_candidate(k).len() as int,
                operator_candidate(k).len() as int,
            ),
            None => MultiOutcome::Fail,
        }
    } else if s[i] == '\'' && clamped_slice(s, i + 1, char_lit_close(s, i + 1)).len() == 1 {
        let n = char_lit_close(s, i + 1) - i + 1;
        MultiOutcome::Emit(TknView::CharLiteral(clamped_slice(s, i + 1, char_lit_close(s, i + 1))[0]), n, n)
    } else if s[i] == '"' && str_lit_close(s, i + 1) is Some {
        let k = str_lit_close(s, i + 1)->0;
        MultiOutcome::Emit(TknView::StringLiteral(s.subrange(i + 1, k)), k - i + 1, k - i + 1)
    } else if type_token(w3) is Some {
        MultiOutcome::Emit(type_token(w3)->0, w3.len() as int, w3.len() as int)
    } else if w3.len() > 0 && !numeric(w3[0]) {
        MultiOutcome::Emit(TknView::Identifier(w3), w3.len() as int, w3.len() as int)
    } else if utf8_len(w3) > 0 {
        MultiOutcome::Emit(TknView::Invalid, utf8_len(w3) as int, 0)
    } else {
        MultiOutcome::Fail
    }
}

/// Where the lexer is: the index of the next character, and the column and
/// line (from 1) of that character as the lexer counts them.
pub struct LexPos {
    pub index: int,
    pub line_index: int,
    pub line_number: int,
}

/// One step of the lexer.
pub enum LexStep {
    /// Nothing emitted (spaces, a line break, a comment); go on from here.
    Skip(LexPos),
    /// A token; go on from here.
    Emit(TknView, LexPos),
    /// The lexer cannot go on.
    Fail,
}

/// The token for a character that is a token of its own: `,$.;(){}[]`.
pub open spec fn punct_token(c: char) -> Option<TknView> {
    if c == ',' {
        Some(TknView::Comma)
    } else if c == '$' {
        Some(TknView::Dollar)
    } else if c == '.' {
        Some(TknView::Dot)
    } else if c == ';' {
        Some(TknView::Semicolon)
    } else if c == '(' {
        Some(TknView::OpenParen)
    } else if c == ')' {
        Some(TknView::CloseParen)
    } else if c == '{' {
        Some(TknView::OpenCurlyBrace)
    } else if c == '}' {
        Some(TknView::CloseCurlyBrace)
    } else if c == '[' {
        Some(TknView::OpenSquareBracket)
    } else if c == ']' {
        Some(TknView::CloseSquareBracket)
    } else {
        None
    }
}

/// One step of the lexer at `p` (which must be inside the source).
pub open spec fn lex_step(s: Seq<char>, p: LexPos) -> LexStep {
    let i = p.index;
    let c = s[i];
    if c == '/' && i + 1 < s.len() && s[i + 1] == '/' {
        let e = line_comment_end(s, i + 2);
        LexStep::Skip(LexPos { index: e, line_index: p.line_index + (e - i), line_number: p.line_number })
    } else if c == '/' && i + 1 < s.len() && s[i + 1] == ',' {
        let (e, nl) = block_comment_scan(s, i + 2, 1, 0);
        LexStep::Skip(LexPos { index: e, line_index: p.line_index + (e - i), line_number: p.line_number + nl })
    } else if c == ':' {
        if i + 1 < s.len() && s[i + 1] == ':' {
            LexStep::Emit(TknView::ColonColon, LexPos { index: i + 2, line_index: p.line_index + 2, line_number: p.line_number })
        } else {
            LexStep::Emit(TknView::Colon, LexPos { index: i + 1, line_index: p.line_index + 1, line_number: p.line_number })
        }
    } else if punct_token(c) is Some {
        LexStep::Emit(punct_token(c)->0, LexPos { index: i + 1, line_index: p.line_index + 1, line_number: p.line_number })
    } else if is_newline(c) {
        LexStep::Skip(LexPos { index: i + 1, line_index: 1, line_number: p.line_number + 1 })
    } else if c == ' ' {
        let e = spaces_end(s, i);
        LexStep::Skip(LexPos { index: e, line_index: p.line_index + (e - i), line_number: p.line_number })
    } else {
        match multi_token(s, i) {
            MultiOutcome::Emit(t, n, adv) => LexStep::Emit(t, LexPos { index: i + n, line_index: p.line_index + adv, line_number: p.line_number }),
            MultiOutcome::Fail => LexStep::Fail,
        }
    }
}

/// The tokens, each with the column and line where it starts, that the lexer
/// emits from `p` to the end of `s`, and where it ends; `None` when it cannot
/// get to the end.
pub open spec fn lex_from(s: Seq<char>, p: LexPos) -> Option<(Seq<(TknView, int, int)>, LexPos)>
    decreases remaining(s, p.index),
{
    if p.index < 0 {
        None
    } else if p.index >= s.len() {
        Some((Seq::empty(), p))
    } else {
        match lex_step(s, p) {
            LexStep::Skip(q) => if q.index > p.index {
                lex_from(s, q)
            } else {
                None
            },
            LexStep::Emit(t, q) => if q.index > p.index {
                match lex_from(s, q) {
                    Some((ts, e)) => Some((seq![(t, p.line_index, p.line_number)] + ts, e)),
                    None => None,
                }
            } else {
                None
            },
            LexStep::Fail => None,
        }
    }
}

/// The tokens of `src` from file `file`: those that [`lex_from`] emits from
/// the start (column 1, line 1), then an end-of-file token where it ends;
/// `None` when the lexer cannot get to the end.
pub open spec fn lex_source(file: Seq<char>, src: Seq<char>) -> Option<Seq<TokenView>> {
    match lex_from(src, LexPos { index: 0, line_index: 1, line_number: 1 }) {
        Some((ts, e)) => Some(
            ts.map_values(|x: (TknView, int, int)| TokenView {
                token: x.0,
                file_name: file,
                line_index: x.1 as usize,
                line_number: x.2 as usize,
            }).push(TokenView {
                token: TknView::EndOfFile,
                file_name: file,
                line_index: e.line_index as usize,
                line_number: e.line_number as usize,
            }),
        ),
        None => None,
    }
}

/// The number of UTF-8 bytes of a character sequence is at most four per
/// character.
pub proof fn lemma_utf8_len_bound(s: Seq<char>)
    ensures
        s.len() <= utf8_len(s) <= 4 * s.len(),
    decreases s.len(),
{
    if s.len() > 0 {
        lemma_utf8_len_bound(s.drop_first());
        let c = s[0] as u32;
        assert(1 <= vstd::utf8::encode_scalar(c).len() <= 4);
    }
}

/// Every reserved word and boolean literal is at least one character long.
pub proof fn lemma_keyword_nonempty(w: Seq<char>)
    requires
        keyword_token(w) is Some,
    ensures
        w.len() > 0,
{
    reveal_strlit("let");
    reveal_strlit("return");
    reveal_strlit("if");
    reveal_strlit("else");
    reveal_strlit("for");
    reveal_strlit("while");
    reveal_strlit("loop");
    reveal_strlit("mut");
    reveal_strlit("im");
    reveal_strlit("rec");
    reveal_strlit("oxy");
    reveal_strlit("unsafe");
    reveal_strlit("fn");
    reveal_strlit("accessor");
    reveal_strlit("enclave");
    reveal_strlit("exclave");
    reveal_strlit("struct");
    reveal_strlit("namespace");
    reveal_strlit("alias");
    reveal_strlit("true");
    reveal_strlit("false");
    reveal_strlit("pub");
    reveal_strlit("prv");
    reveal_strlit("pkg");
    reveal_strlit("prefix");
    reveal_strlit("infix");
    reveal_strlit("postfix");
}

/// Every type name is at least one character long.
pub proof fn lemma_type_nonempty(w: Seq<char>)
    requires
        type_token(w) is Some,
    ensures
        w.len() > 0,
{
    reveal_strlit("i8");
    reveal_strlit("i16");
    reveal_strlit("i32");
    reveal_strlit("i64");
    reveal_strlit("i128");
    reveal_strlit("u8");
    reveal_strlit("u16");
    reveal_strlit("u32");
    reveal_strlit("u64");
    reveal_strlit("u128");
    reveal_strlit("f32");
    reveal_strlit("f64");
    reveal_strlit("char");
    reveal_strlit("bool");
}

/// A floating-point literal is at least one character long.
pub proof fn lemma_float_nonempty(w: Seq<char>)
    requires
        is_float_text(w),
    ensures
        w.len() > 0,
{
    reveal_strlit("inf");
    reveal_strlit("infinity");
    reveal_strlit("nan");
    if w.len() == 0 {
        assert(find_either(w, 0, 'e', 'E') == 0);
        assert(find_either(w, 0, '.', '.') == 0);
    }
}

/// Appending a digit keeps the value of a digit string at least as large.
pub proof fn lemma_decimal_prefix(w: Seq<char>, k: int)
    requires
        0 <= k <= w.len(),
        all_digits(w),
    ensures
        decimal_value(w.subrange(0, k)) <= decimal_value(w),
        0 <= decimal_value(w.subrange(0, k)),
    decreases w.len() - k,
{
    if k < w.len() {
        lemma_decimal_prefix(w, k + 1);
        let p = w.subrange(0, k + 1);
        assert(p.drop_last() =~= w.subrange(0, k));
        assert(is_ascii_digit(w[k]));
    } else {
        assert(w.subrange(0, k) =~= w);
        lemma_decimal_nonneg(w);
    }
}

/// A digit string denotes a number that is not negative.
pub proof fn lemma_decimal_nonneg(w: Seq<char>)
    requires
        all_digits(w),
    ensures
        0 <= decimal_value(w),
    decreases w.len(),
{
    if w.len() > 0 {
        assert(all_digits(w.drop_last())) by {
            assert forall|k: int| 0 <= k < w.drop_last().len() implies is_ascii_digit(
                #[trigger] w.drop_last()[k],
            ) by {
                assert(w.drop_last()[k] == w[k]);
            }
        }
        lemma_decimal_nonneg(w.drop_last());
        assert(is_ascii_digit(w[w.len() - 1]));
    }
}

/// Whether `chr` ends a word (see [`is_invalid_char`]).
pub fn is_invalid_character(chr: char) -> (r: bool)
    ensures
        r == is_invalid_char(chr),
{
    chr == ' ' || chr == '\n' || chr == '\r' || chr == '(' || chr == ')' || chr == '{' || chr == '}'
        || chr == '[' || chr == ']' || chr == ';' || chr == '?' || chr == '.' || chr == ','
        || chr == '+' || chr == '-' || chr == '*' || chr == '/' || chr == '%' || chr == '&'
        || chr == '|' || chr == '^' || chr == '=' || chr == '!' || chr == '~' || chr == ':'
        || chr == '<' || chr == '>'
}

/// Whether `chr` is one that operators are made of.
fn is_operator_character(chr: char) -> (r: bool)
    ensures
        r == is_operator_char(chr),
{
    chr == '+' || chr == '-' || chr == '*' || chr == '/' || chr == '%' || chr == '&' || chr == '|'
        || chr == '^' || chr == '=' || chr == '!' || chr == '~' || chr == ':' || chr == '<'
        || chr == '>' || chr == '.'
}

/// Whether every character of `w[a..b]` is an ASCII digit.
fn all_digits_in(w: &Vec<char>, a: usize, b: usize) -> (r: bool)
    requires
        a <= b <= w.len(),
    ensures
        r == all_digits(w@.subrange(a as int, b as int)),
{
    let mut k = a;
    while k < b
        invariant
            a <= k <= b <= w.len(),
            forall|j: int| a <= j < k ==> is_ascii_digit(#[trigger] w@[j]),
        decreases b - k,
    {
        let c = w[k];
        if !((c as u32) >= 48 && (c as u32) <= 57) {
            assert(w@.subrange(a as int, b as int)[k - a] == c);
            return false;
        }
        k += 1;
    }
    assert forall|j: int| 0 <= j < w@.subrange(a as int, b as int).len() implies is_ascii_digit(
        #[trigger] w@.subrange(a as int, b as int)[j],
    ) by {
        assert(w@.subrange(a as int, b as int)[j] == w@[a + j]);
    }
    true
}

/// The first position in `w[..end]`, from `k` on, that holds `a` or `b`, or
/// `end`.
fn find_either_in(w: &Vec<char>, k: usize, end: usize, a: char, b: char) -> (r: usize)
    requires
        k <= end <= w.len(),
    ensures
        r == find_either(w@.subrange(0, end as int), k as int, a, b),
{
    let ghost sub = w@.subrange(0, end as int);
    let mut j = k;
    while j < end
        invariant
            k <= j <= end <= w.len(),
            sub == w@.subrange(0, end as int),
            find_either(sub, k as int, a, b) == find_either(sub, j as int, a, b),
        decreases end - j,
    {
        assert(sub[j as int] == w@[j as int]);
        if w[j] == a || w[j] == b {
            return j;
        }
        j += 1;
    }
    j
}

/// The ASCII lower case of `c`, as a number.
fn ascii_lower_of(c: char) -> (r: u32)
    ensures
        r == ascii_lower(c),
{
    let u = c as u32;
    if u >= 65 && u <= 90 {
        u + 32
    } else {
        u
    }
}

/// Whether `w` spells `t`, ASCII letters compared without regard to case.
fn eq_ignore_case(w: &Vec<char>, t: &str) -> (r: bool)
    ensures
        r == eq_ignore_ascii_case(w@, t@),
{
    let n = t.unicode_len();
    if w.len() != n {
        return false;
    }
    let mut k: usize = 0;
    while k < n
        invariant
            n == t@.len() == w.len(),
            0 <= k <= n,
            forall|j: int| 0 <= j < k ==> ascii_lower(#[trigger] w@[j]) == ascii_lower(t@[j]),
        decreases n - k,
    {
        if ascii_lower_of(w[k]) != ascii_lower_of(t.get_char(k)) {
            return false;
        }
        k += 1;
    }
    true
}

/// Whether `w[..end]` is a mantissa (see [`is_mantissa`]).
fn is_mantissa_in(w: &Vec<char>, end: usize) -> (r: bool)
    requires
        end <= w.len(),
    ensures
        r == is_mantissa(w@.subrange(0, end as int)),
{
    let ghost m = w@.subrange(0, end as int);
    let d = find_either_in(w, 0, end, '.', '.');
    if d < end {
        assert(m.subrange(0, d as int) =~= w@.subrange(0, d as int));
        assert(m.subrange(d + 1, m.len() as int) =~= w@.subrange(d + 1, end as int));
        end > 1 && all_digits_in(w, 0, d) && all_digits_in(w, d + 1, end)
    } else {
        end > 0 && all_digits_in(w, 0, end)
    }
}

/// Whether `w[a..]` is an exponent (see [`is_exponent`]).
fn is_exponent_in(w: &Vec<char>, a: usize) -> (r: bool)
    requires
        a <= w.len(),
    ensures
        r == is_exponent(w@.subrange(a as int, w.len() as int)),
{
    let ghost x = w@.subrange(a as int, w.len() as int);
    if a < w.len() && (w[a] == '+' || w[a] == '-') {
        assert(x[0] == w@[a as int]);
        assert(x.drop_first() =~= w@.subrange(a + 1, w.len() as int));
        w.len() - a > 1 && all_digits_in(w, a + 1, w.len())
    } else {
        assert(a < w.len() ==> x[0] == w@[a as int]);
        w.len() - a > 0 && all_digits_in(w, a, w.len())
    }
}

/// Whether `w[a..]` is an unsigned floating-point literal.
fn is_unsigned_float_in(w: &Vec<char>, a: usize) -> (r: bool)
    requires
        a <= w.len(),
    ensures
        r == is_unsigned_float_text(w@.subrange(a as int, w.len() as int)),
{
    let mut v: Vec<char> = Vec::new();
    let mut k = a;
    while k < w.len()
        invariant
            a <= k <= w.len(),
            v@ == w@.subrange(a as int, k as int),
        decreases w.len() - k,
    {
        v.push(w[k]);
        k += 1;
    }
    if eq_ignore_case(&v, "inf") || eq_ignore_case(&v, "infinity") || eq_ignore_case(&v, "nan") {
        return true;
    }
    let e = find_either_in(&v, 0, v.len(), 'e', 'E');
    assert(v@.subrange(0, v.len() as int) =~= v@);
    if e < v.len() {
        assert(v@.subrange(0, e as int) =~= v@.subrange(0, e as int));
        is_mantissa_in(&v, e) && is_exponent_in(&v, e + 1)
    } else {
        is_mantissa_in(&v, v.len())
    }
}

/// Whether `w` is the text of a floating-point literal (see
/// [`is_float_text`]).
pub fn is_float_literal_text(w: &Vec<char>) -> (r: bool)
    ensures
        r == is_float_text(w@),
{
    assert(w@.subrange(0, w.len() as int) =~= w@);
    if w.len() > 0 && (w[0] == '+' || w[0] == '-') {
        assert(w@.subrange(1, w.len() as int) =~= w@.drop_first());
        is_unsigned_float_in(w, 1)
    } else {
        is_unsigned_float_in(w, 0)
    }
}

/// The value of `w` as an integer literal (see [`integer_literal_value`]).
pub fn integer_literal(w: &Vec<char>) -> (r: Option<i128>)
    ensures
        r == integer_literal_value(w@),
{
    if w.len() == 0 {
        return None;
    }
    if !all_digits_in(w, 0, w.len()) {
        assert(w@.subrange(0, w.len() as int) =~= w@);
        return None;
    }
    assert(w@.subrange(0, w.len() as int) =~= w@);
    let mut value: i128 = 0;
    let mut k: usize = 0;
    while k < w.len()
        invariant
            0 <= k <= w.len(),
            all_digits(w@),
            value == decimal_value(w@.subrange(0, k as int)),
        decreases w.len() - k,
    {
        assert(is_ascii_digit(w@[k as int]));
        let d = (w[k] as u32 - 48) as i128;
        assert(w@.subrange(0, k + 1).drop_last() =~= w@.subrange(0, k as int));
        proof {
            lemma_decimal_prefix(w@, k + 1);
            lemma_decimal_prefix(w@, k as int);
        }
        let next = match value.checked_mul(10) {
            Some(t) => t.checked_add(d),
            None => None,
        };
        match next {
            Some(n) => {
                value = n;
            },
            None => {
                return None;
            },
        }
        k += 1;
    }
    Some(value)
}

/// The `k`-th operator spelling.
fn operator_candidate_text(k: usize) -> (r: &'static str)
    requires
        k < operator_count(),
    ensures
        r@ == operator_candidate(k as int),
{
    match k {
        0 => "!..=",
        1 => "!..",
        2 => "..=",
        3 => "..",
        4 => "++=",
        5 => "+.=",
        6 => "+=",
        7 => "-.=",
        8 => "-=",
        9 => "**.=",
        10 => "**=",
        11 => "*.=",
        12 => "*=",
        13 => "/.=",
        14 => "/=",
        15 => "%.=",
        16 => "%=",
        17 => "&&=",
        18 => "||=",
        19 => "^^=",
        20 => "=!",
        21 => "&=",
        22 => "|=",
        23 => "^=",
        24 => "=~",
        25 => "<<=",
        26 => ">>=",
        27 => "==",
        28 => "!=",
        29 => "<=",
        30 => ">=",
        31 => "=",
        32 => "++",
        33 => "+.",
        34 => "+",
        35 => "-.",
        36 => "-",
        37 => "**.",
        38 => "**",
        39 => "*.",
        40 => "*",
        41 => "/.",
        42 => "/",
        43 => "%.",
        44 => "%",
        45 => "&&",
        46 => "||",
        47 => "^^",
        48 => "!",
        49 => "&",
        50 => "|",
        51 => "^",
        52 => "~",
        53 => "<<",
        54 => ">>",
        55 => "<",
        56 => ">",
        _ => "",
    }
}

/// The token for the `k`-th operator spelling.
fn operator_candidate_tkn(k: usize) -> (r: Option<TokenType>)
    ensures
        r matches Some(t) ==> operator_candidate_token(k as int) == Some(t@),
        r is None ==> operator_candidate_token(k as int) is None,
{
    proof {
        reveal_with_fuel(tkn_view, 3);
    }
    match k {
        0 => Some(TokenType::Operation(Operator::BangRangeEquals)),
        1 => Some(TokenType::Operation(Operator::BangRange)),
        2 => Some(TokenType::Operation(Operator::RangeEquals)),
        3 => Some(TokenType::Either(Box::new(TokenType::DiscardMany), Box::new(TokenType::Operation(Operator::Range)))),
        4 => Some(TokenType::Operation(Operator::ConcatEquals)),
        5 => Some(TokenType::Operation(Operator::PlusFloatEquals)),
        6 => Some(TokenType::Operation(Operator::PlusEquals)),
        7 => Some(TokenType::Operation(Operator::MinusFloatEquals)),
        8 => Some(TokenType::Operation(Operator::MinusEquals)),
        9 => Some(TokenType::Operation(Operator::ExponentFloatEquals)),
        10 => Some(TokenType::Operation(Operator::ExponentEquals)),
        11 => Some(TokenType::Operation(Operator::MultiplyFloatEquals)),
        12 => Some(TokenType::Operation(Operator::MultiplyEquals)),
        13 => Some(TokenType::Operation(Operator::DivideFloatEquals)),
        14 => Some(TokenType::Operation(Operator::DivideEquals)),
        15 => Some(TokenType::Operation(Operator::ModuloFloatEquals)),
        16 => Some(TokenType::Operation(Operator::ModuloEquals)),
        27 => Some(TokenType::Operation(Operator::Equals)),
        28 => Some(TokenType::Operation(Operator::NotEquals)),
        29 => Some(TokenType::Operation(Operator::LessThanEqualTo)),
        30 => Some(TokenType::Operation(Operator::GreaterThanEqualTo)),
        31 => Some(TokenType::Operation(Operator::Assign)),
        33 => Some(TokenType::Operation(Operator::PlusFloat)),
        34 => Some(TokenType::Operation(Operator::Plus)),
        35 => Some(TokenType::Operation(Operator::MinusFloat)),
        36 => Some(TokenType::Operation(Operator::Minus)),
        37 => Some(TokenType::Operation(Operator::ExponentFloat)),
        38 => Some(TokenType::Operation(Operator::Exponent)),
        39 => Some(TokenType::Operation(Operator::MultiplyFloat)),
        40 => Some(TokenType::Operation(Operator::Multiply)),
        41 => Some(TokenType::Operation(Operator::DivideFloat)),
        42 => Some(TokenType::Operation(Operator::Divide)),
        43 => Some(TokenType::Operation(Operator::ModuloFloat)),
        44 => Some(TokenType::Operation(Operator::Modulo)),
        45 => Some(TokenType::Operation(Operator::LogicAnd)),
        46 => Some(TokenType::Operation(Operator::LogicOr)),
        48 => Some(TokenType::Operation(Operator::LogicNot)),
        49 => Some(TokenType::Either(Box::new(TokenType::Operation(Operator::BitwiseAnd)), Box::new(TokenType::Borrow))),
        50 => Some(TokenType::Operation(Operator::BitwiseOr)),
        51 => Some(TokenType::Operation(Operator::BitwiseXor)),
        52 => Some(TokenType::Operation(Operator::BitwiseNegate)),
        53 => Some(TokenType::Operation(Operator::BitwiseShiftLeft)),
        54 => Some(TokenType::Operation(Operator::BitwiseShiftRight)),
        55 => Some(TokenType::Either(Box::new(TokenType::Operation(Operator::LessThan)), Box::new(TokenType::OpenAngularBracket))),
        56 => Some(TokenType::Either(Box::new(TokenType::Operation(Operator::GreaterThan)), Box::new(TokenType::CloseAngularBracket))),
        _ => None,
    }
}

/// What one step of the lexer did.
enum Step {
    Skip,
    Emit(TokenType),
    Fail,
}

/// The lexer: the file name, the source text, and where it is in the source.
pub struct Lexer<'l> {
    file_name: &'l str,
    source_code: &'l str,
    len: usize,
    index: usize,
    line_index: usize,
    line_number: usize,
}

/// A lexer started over on `src` (what [`Lexer::set_source_code`] leaves:
/// its own file, the source `src`, the first position) reads exactly as a
/// new lexer on `src` with that file (what [`Lexer::new`] gives): both
/// have the same file, source and position, and the tokens that lexing
/// gives are a function of those three.
pub proof fn lemma_started_over_reads_as_new(before: Lexer, after: Lexer, fresh: Lexer, src: Seq<char>)
    requires
        after.file() == before.file(),
        after.source() == src,
        after.pos() == (LexPos { index: 0, line_index: 1, line_number: 1 }),
        fresh.file() == before.file(),
        fresh.source() == src,
        fresh.pos() == (LexPos { index: 0, line_index: 1, line_number: 1 }),
    ensures
        after.file() == fresh.file(),
        after.source() == fresh.source(),
        after.pos() == fresh.pos(),
        lex_from(after.source(), after.pos()) == lex_from(fresh.source(), fresh.pos()),
{
}

impl<'l> Lexer<'l> {
    /// The characters of the source.
    pub closed spec fn source(&self) -> Seq<char> {
        self.source_code@
    }

    /// The name of the file.
    pub closed spec fn file(&self) -> Seq<char> {
        self.file_name@
    }

    /// Where the lexer is.
    pub closed spec fn pos(&self) -> LexPos {
        LexPos {
            index: self.index as int,
            line_index: self.line_index as int,
            line_number: self.line_number as int,
        }
    }

    /// The lexer's own invariant: indices stay within what `usize` holds.
    pub closed spec fn wf(&self) -> bool {
        &&& self.len == self.source_code@.len()
        &&& self.len <= usize::MAX / 8
        &&& self.index <= 4 * self.len + 2
        &&& 1 <= self.line_index <= self.index + 1
        &&& 1 <= self.line_number <= self.index + 1
    }

    /// A lexer at the start of `src` (column 1, line 1) from file `file`.
    pub fn new(file: &'l str, src: &'l str) -> (r: Lexer<'l>)
        requires
            src@.len() <= usize::MAX / 8,
        ensures
            r.wf(),
            r.file() == file@,
            r.source() == src@,
            r.pos() == (LexPos { index: 0, line_index: 1, line_number: 1 }),
    {
        Lexer { file_name: file, source_code: src, len: src.unicode_len(), index: 0, line_index: 1, line_number: 1 }
    }

    /// Changes the file name that tokens are tagged with.
    pub fn set_file(&mut self, file: &'l str)
        requires
            old(self).wf(),
        ensures
            final(self).wf(),
            final(self).file() == file@,
            final(self).source() == old(self).source(),
            final(self).pos() == old(self).pos(),
    {
        self.file_name = file;
    }

    /// Starts over on the source `src`.
    pub fn set_source_code(&mut self, src: &'l str)
        requires
            old(self).wf(),
            src@.len() <= usize::MAX / 8,
        ensures
            final(self).wf(),
            final(self).file() == old(self).file(),
            final(self).source() == src@,
            final(self).pos() == (LexPos { index: 0, line_index: 1, line_number: 1 }),
    {
        self.source_code = src;
        self.len = src.unicode_len();
        self.index = 0;
        self.line_index = 1;
        self.line_number = 1;
    }

    /// Moves `num` characters on.
    fn consume(&mut self, num: usize)
        requires
            old(self).index + num <= usize::MAX,
        ensures
            final(self).index == old(self).index + num,
            final(self).line_index == old(self).line_index,
            final(self).line_number == old(self).line_number,
            final(self).len == old(self).len,
            final(self).source_code == old(self).source_code,
            final(self).file_name == old(self).file_name,
    {
        self.index += num;
    }

    /// The character at `index`, if the source is that long.
    fn peek_at(&self, index: usize) -> (r: Option<char>)
        requires
            self.wf(),
        ensures
            r == (if index < self.source().len() { Some(self.source()[index as int]) } else { None::<char> }),
    {
        if index < self.len {
            Some(self.source_code.get_char(index))
        } else {
            None
        }
    }

    /// The character where the lexer is.
    fn peek(&self) -> (r: Option<char>)
        requires
            self.wf(),
        ensures
            r == (if self.index < self.source().len() { Some(self.source()[self.index as int]) } else { None::<char> }),
    {
        self.peek_at(self.index)
    }

    /// The character `after` places on from where the lexer is.
    fn peek_after(&self, after: usize) -> (r: Option<char>)
        requires
            self.wf(),
            after <= self.len + 2,
        ensures
            r == (if self.index + after < self.source().len() { Some(self.source()[self.index + after]) } else { None::<char> }),
    {
        self.peek_at(self.index + after)
    }

    /// The number of spaces from where the lexer is on.
    fn count_spaces(&mut self) -> (r: usize)
        requires
            old(self).wf(),
            old(self).index < old(self).len,
        ensures
            *final(self) == *old(self),
            r == spaces_end(old(self).source(), old(self).index as int) - old(self).index,
            r <= old(self).len - old(self).index,
    {
        let mut spaces: usize = 0;
        let mut index: usize = self.index;
        while index < self.len && self.source_code.get_char(index) == ' '
            invariant
                self.wf(),
                self.index <= index <= self.len,
                spaces == index - self.index,
                spaces_end(self.source(), self.index as int) == spaces_end(self.source(), index as int),
            decreases self.len - index,
        {
            spaces += 1;
            index += 1;
        }
        spaces
    }

    /// Whether the source from `start` to `end` spells `w`.
    fn word_equals(&self, start: usize, end: usize, w: &str) -> (r: bool)
        requires
            self.wf(),
            start <= end <= self.len,
        ensures
            r == (self.source().subrange(start as int, end as int) == w@),
    {
        let n = w.unicode_len();
        if end - start != n {
            return false;
        }
        let mut k: usize = 0;
        while k < n
            invariant
                self.wf(),
                start <= end <= self.len,
                n == end - start == w@.len(),
                0 <= k <= n,
                forall|j: int| 0 <= j < k ==> self.source()[start + j] == #[trigger] w@[j],
            decreases n - k,
        {
            if self.source_code.get_char(start + k) != w.get_char(k) {
                assert(self.source().subrange(start as int, end as int)[k as int] != w@[k as int]);
                return false;
            }
            k += 1;
        }
        assert(self.source().subrange(start as int, end as int) =~= w@);
        true
    }

    /// The characters of the source from `start` to `end`.
    fn chars_between(&self, start: usize, end: usize) -> (r: Vec<char>)
        requires
            self.wf(),
            start <= end <= self.len,
        ensures
            r@ == self.source().subrange(start as int, end as int),
    {
        let mut v: Vec<char> = Vec::new();
        let mut k = start;
        while k < end
            invariant
                self.wf(),
                start <= k <= end <= self.len,
                v@ == self.source().subrange(start as int, k as int),
            decreases end - k,
        {
            v.push(self.source_code.get_char(k));
            k += 1;
        }
        v
    }

    /// The end of the run of alphanumeric characters from `start`.
    fn alnum_end_from(&self, start: usize) -> (r: usize)
        requires
            self.wf(),
            start <= self.len,
        ensures
            r == alnum_end(self.source(), start as int),
            start <= r <= self.len,
    {
        let mut end = start;
        while end < self.len && is_alphanumeric(self.source_code.get_char(end))
            invariant
                self.wf(),
                start <= end <= self.len,
                alnum_end(self.source(), start as int) == alnum_end(self.source(), end as int),
            decreases self.len - end,
        {
            end += 1;
        }
        end
    }

    /// The end of the word from `start`.
    fn word_end_from(&self, start: usize) -> (r: usize)
        requires
            self.wf(),
            start <= self.len,
        ensures
            r == word_end(self.source(), start as int),
            start <= r <= self.len,
    {
        let mut end = start;
        while end < self.len && !is_invalid_character(self.source_code.get_char(end))
            invariant
                self.wf(),
                start <= end <= self.len,
                word_end(self.source(), start as int) == word_end(self.source(), end as int),
            decreases self.len - end,
        {
            end += 1;
        }
        end
    }

    /// The reserved word or boolean literal that the word from `start` to `end`
    /// spells, if any.
    fn keyword_at(&self, start: usize, end: usize) -> (r: Option<TokenType>)
        requires
            self.wf(),
            start <= end <= self.len,
        ensures
            r matches Some(t) ==> keyword_token(self.source_code@.subrange(start as int, end as int)) == Some(t@),
            r is None ==> keyword_token(self.source_code@.subrange(start as int, end as int)) is None,
    {
        if self.word_equals(start, end, "let") {
            Some(TokenType::Keyword(Keyword::Let))
        } else if self.word_equals(start, end, "return") {
            Some(TokenType::Keyword(Keyword::Return))
        } else if self.word_equals(start, end, "if") {
            Some(TokenType::Keyword(Keyword::If))
        } else if self.word_equals(start, end, "else") {
            Some(TokenType::Keyword(Keyword::Else))
        } else if self.word_equals(start, end, "for") {
            Some(TokenType::Keyword(Keyword::For))
        } else if self.word_equals(start, end, "while") {
            Some(TokenType::Keyword(Keyword::While))
        } else if self.word_equals(start, end, "loop") {
            Some(TokenType::Keyword(Keyword::Loop))
        } else if self.word_equals(start, end, "mut") {
            Some(TokenType::Keyword(Keyword::Mutable))
        } else if self.word_equals(start, end, "im") {
            Some(TokenType::Keyword(Keyword::InteriorMutable))
        } else if self.word_equals(start, end, "rec") {
            Some(TokenType::Keyword(Keyword::Recursive))
        } else if self.word_equals(start, end, "oxy") {
            Some(TokenType::Keyword(Keyword::Oxidize))
        } else if self.word_equals(start, end, "unsafe") {
            Some(TokenType::Keyword(Keyword::Unsafe))
        } else if self.word_equals(start, end, "fn") {
            Some(TokenType::Keyword(Keyword::Function))
        } else if self.word_equals(start, end, "accessor") {
            Some(TokenType::Keyword(Keyword::Accessor))
        } else if self.word_equals(start, end, "enclave") {
            Some(TokenType::Keyword(Keyword::Enclave))
        } else if self.word_equals(start, end, "exclave") {
            Some(TokenType::Keyword(Keyword::Exclave))
        } else if self.word_equals(start, end, "struct") {
            Some(TokenType::Keyword(Keyword::Struct))
        } else if self.word_equals(start, end, "namespace") {
            Some(TokenType::Keyword(Keyword::Namespace))
        } else if self.word_equals(start, end, "alias") {
            Some(TokenType::Keyword(Keyword::Alias))
        } else if self.word_equals(start, end, "true") {
            Some(TokenType::BooleanLiteral(true))
        } else if self.word_equals(start, end, "false") {
            Some(TokenType::BooleanLiteral(false))
        } else if self.word_equals(start, end, "pub") {
            Some(TokenType::Keyword(Keyword::Public))
        } else if self.word_equals(start, end, "prv") {
            Some(TokenType::Keyword(Keyword::Private))
        } else if self.word_equals(start, end, "pkg") {
            Some(TokenType::Keyword(Keyword::Package))
        } else if self.word_equals(start, end, "prefix") {
            Some(TokenType::Keyword(Keyword::Prefix))
        } else if self.word_equals(start, end, "infix") {
            Some(TokenType::Keyword(Keyword::Infix))
        } else if self.word_equals(start, end, "postfix") {
            Some(TokenType::Keyword(Keyword::Postfix))
        } else {
            None
        }
    }

    /// The primitive type that the word from `start` to `end` names, if any.
    fn get_type(&self, start: usize, end: usize) -> (r: Option<TokenType>)
        requires
            self.wf(),
            start <= end <= self.len,
        ensures
            r matches Some(t) ==> type_token(self.source_code@.subrange(start as int, end as int)) == Some(t@),
            r is None ==> type_token(self.source_code@.subrange(start as int, end as int)) is None,
    {
        if self.word_equals(start, end, "i8") {
            Some(TokenType::Type(Type::I8))
        } else if self.word_equals(start, end, "i16") {
            Some(TokenType::Type(Type::I16))
        } else if self.word_equals(start, end, "i32") {
            Some(TokenType::Type(Type::I32))
        } else if self.word_equals(start, end, "i64") {
            Some(TokenType::Type(Type::I64))
        } else if self.word_equals(start, end, "i128") {
            Some(TokenType::Type(Type::I128))
        } else if self.word_equals(start, end, "u8") {
            Some(TokenType::Type(Type::U8))
        } else if self.word_equals(start, end, "u16") {
            Some(TokenType::Type(Type::U16))
        } else if self.word_equals(start, end, "u32") {
            Some(TokenType::Type(Type::U32))
        } else if self.word_equals(start, end, "u64") {
            Some(TokenType::Type(Type::U64))
        } else if self.word_equals(start, end, "u128") {
            Some(TokenType::Type(Type::U128))
        } else if self.word_equals(start, end, "f32") {
            Some(TokenType::Type(Type::F32))
        } else if self.word_equals(start, end, "f64") {
            Some(TokenType::Type(Type::F64))
        } else if self.word_equals(start, end, "char") {
            Some(TokenType::Type(Type::Char))
        } else if self.word_equals(start, end, "bool") {
            Some(TokenType::Type(Type::Bool))
        } else {
            None
        }
    }

    /// The first operator spelling that occurs where the lexer is, when the
    /// character there is an operator character.
    fn find_operator(&self) -> (r: Option<usize>)
        requires
            self.wf(),
            self.index < self.len,
        ensures
            r matches Some(k) ==> is_operator_char(self.source()[self.index as int])
                && first_operator(self.source(), self.index as int, 0) == Some(k as int),
            r is None ==> !(is_operator_char(self.source()[self.index as int])
                && first_operator(self.source(), self.index as int, 0) is Some),
    {
        let chr = self.source_code.get_char(self.index);
        if !is_operator_character(chr) {
            return None;
        }
        let mut k: usize = 0;
        while k < 57
            invariant
                self.wf(),
                self.index < self.len,
                0 <= k <= 57,
                operator_count() == 57,
                is_operator_char(self.source()[self.index as int]),
                first_operator(self.source(), self.index as int, 0) == first_operator(self.source(), self.index as int, k as int),
            decreases 57 - k,
        {
            let cand = operator_candidate_text(k);
            let n = cand.unicode_len();
            if n <= self.len - self.index && self.word_equals(self.index, self.index + n, cand) {
                return Some(k);
            }
            k += 1;
        }
        None
    }

    /// Reads the token where the lexer is that is not a single fixed character
    /// (see [`multi_token`]); `None` when the lexer cannot go on.
    fn get_multi_character_token(&mut self) -> (r: Option<TokenType>)
        requires
            old(self).wf(),
            old(self).index < old(self).len,
        ensures
            final(self).len == old(self).len,
            final(self).source_code == old(self).source_code,
            final(self).file_name == old(self).file_name,
            final(self).line_number == old(self).line_number,
            match multi_token(old(self).source(), old(self).index as int) {
                MultiOutcome::Emit(t, n, adv) => r matches Some(x) && x@ == t
                    && final(self).index == old(self).index + n
                    && final(self).line_index == old(self).line_index + adv,
                MultiOutcome::Fail => r is None && *final(self) == *old(self),
            },
    {
        let ghost s = self.source();
        let start = self.index;
        proof {
            lemma_utf8_len_bound(s.subrange(start as int, word_end(s, start as int)));
        }
        let a = self.alnum_end_from(start);
        let w1 = self.chars_between(start, a);
        // A floating-point literal: alphanumeric characters with at most one dot.
        let mut f = a;
        if a < self.len && self.source_code.get_char(a) == '.' {
            f = self.alnum_end_from(a + 1);
        }
        let w2 = self.chars_between(start, f);
        let is_float = is_float_literal_text(&w2);
        // A floating-point literal with digits after its dot comes first.
        if is_float && f > a + 1 {
            let n = f - start;
            let text = String::from_str(self.source_code.substring_char(start, f));
            self.consume(n);
            self.line_index += n;
            return Some(TokenType::FloatLiteral { text, len: n });
        }
        // An integer literal.
        if let Some(value) = integer_literal(&w1) {
            let n = a - start;
            self.consume(n);
            self.line_index += n;
            return Some(TokenType::IntegerLiteral { value, len: n });
        }
        if is_float {
            let n = f - start;
            let text = String::from_str(self.source_code.substring_char(start, f));
            self.consume(n);
            self.line_index += n;
            return Some(TokenType::FloatLiteral { text, len: n });
        }
        // A word.
        let e = self.word_end_from(start);
        if let Some(t) = self.keyword_at(start, e) {
            proof {
                lemma_keyword_nonempty(s.subrange(start as int, e as int));
            }
            let n = e - start;
            self.consume(n);
            self.line_index += n;
            return Some(t);
        }
        if let Some(k) = self.find_operator() {
            proof {
                lemma_first_operator(s, start as int, 0);
            }
            match operator_candidate_tkn(k) {
                Some(t) => {
                    let n = operator_candidate_text(k).unicode_len();
                    self.consume(n);
                    self.line_index += n;
                    return Some(t);
                },
                None => {
                    return None;
                },
            }
        }
        if let Some(t) = self.get_char_literal() {
            return Some(t);
        }
        if let Some(t) = self.get_string_literal() {
            return Some(t);
        }
        if let Some(t) = self.get_type(start, e) {
            proof {
                lemma_type_nonempty(s.subrange(start as int, e as int));
            }
            let n = e - start;
            self.consume(n);
            self.line_index += n;
            return Some(t);
        }
        if let Some(t) = self.get_identifier(start, e) {
            return Some(t);
        }
        self.get_invalid(start, e)
    }

    /// A character literal where the lexer is: a `'`, then text up to the next
    /// unescaped `'`, which must be exactly one character.
    fn get_char_literal(&mut self) -> (r: Option<TokenType>)
        requires
            old(self).wf(),
            old(self).index < old(self).len,
        ensures
            final(self).len == old(self).len,
            final(self).source_code == old(self).source_code,
            final(self).file_name == old(self).file_name,
            final(self).line_number == old(self).line_number,
            ({
                let s = old(self).source();
                let i = old(self).index as int;
                let k = char_lit_close(s, i + 1);
                let content = clamped_slice(s, i + 1, k);
                if s[i] == '\'' && content.len() == 1 {
                    r matches Some(x) && x@ == TknView::CharLiteral(content[0])
                        && final(self).index == k + 1
                        && final(self).line_index == old(self).line_index + (k - i + 1)
                } else {
                    r is None && *final(self) == *old(self)
                }
            }),
    {
        let ghost s = self.source();
        let i = self.index;
        if self.source_code.get_char(i) != '\'' {
            return None;
        }
        let mut index = i + 1;
        let mut found = false;
        while !found && index < self.len
            invariant
                self.wf(),
                i < self.len,
                i + 1 <= index <= self.len + 1,
                found ==> index < self.len && s[index as int] == '\'',
                char_lit_close(s, i + 1) == if found { index as int } else { char_lit_close(s, index as int) },
                s == self.source(),
                s[i as int] == '\'',
                *self == *old(self),
                i == old(self).index,
            decreases self.len + 1 - index, if found { 0int } else { 1int },
        {
            let chr = self.source_code.get_char(index);
            if chr == '\\' {
                index += 2;
            } else if chr == '\'' {
                found = true;
            } else {
                index += 1;
            }
        }
        let hi = if index < self.len { index } else { self.len };
        if hi == i + 2 {
            let chr = self.source_code.get_char(i + 1);
            let len = index - i + 1;
            self.consume(len);
            self.line_index += len;
            return Some(TokenType::CharLiteral(chr));
        }
        None
    }

    /// A string literal where the lexer is: a `"`, then text up to the next
    /// unescaped `"`.
    fn get_string_literal(&mut self) -> (r: Option<TokenType>)
        requires
            old(self).wf(),
            old(self).index < old(self).len,
        ensures
            final(self).len == old(self).len,
            final(self).source_code == old(self).source_code,
            final(self).file_name == old(self).file_name,
            final(self).line_number == old(self).line_number,
            ({
                let s = old(self).source();
                let i = old(self).index as int;
                if s[i] == '"' && str_lit_close(s, i + 1) is Some {
                    let k = str_lit_close(s, i + 1)->0;
                    r matches Some(x) && x@ == TknView::StringLiteral(s.subrange(i + 1, k))
                        && final(self).index == k + 1
                        && final(self).line_index == old(self).line_index + (k - i + 1)
                } else {
                    r is None && *final(self) == *old(self)
                }
            }),
    {
        let ghost s = self.source();
        let i = self.index;
        if self.source_code.get_char(i) != '"' {
            return None;
        }
        let mut index = i + 1;
        while index < self.len
            invariant
                self.wf(),
                i < self.len,
                i + 1 <= index <= self.len + 1,
                str_lit_close(s, i + 1) == str_lit_close(s, index as int),
                s == self.source(),
                s[i as int] == '"',
                *self == *old(self),
                i == old(self).index,
            decreases self.len + 1 - index,
        {
            let chr = self.source_code.get_char(index);
            if chr == '\\' {
                index += 2;
            } else if chr == '"' {
                let len = index - i + 1;
                let text = String::from_str(self.source_code.substring_char(i + 1, index));
                self.consume(len);
                self.line_index += len;
                return Some(TokenType::StringLiteral(text));
            } else {
                index += 1;
            }
        }
        None
    }

    /// An identifier: the word from `start` to `end`, unless it is empty or
    /// starts with a numeric character.
    fn get_identifier(&mut self, start: usize, end: usize) -> (r: Option<TokenType>)
        requires
            old(self).wf(),
            start == old(self).index,
            start <= end <= old(self).len,
            end == word_end(old(self).source(), start as int),
        ensures
            final(self).len == old(self).len,
            final(self).source_code == old(self).source_code,
            final(self).file_name == old(self).file_name,
            final(self).line_number == old(self).line_number,
            ({
                let w = old(self).source().subrange(start as int, end as int);
                if w.len() > 0 && !numeric(w[0]) {
                    r matches Some(x) && x@ == TknView::Identifier(w)
                        && final(self).index == end
                        && final(self).line_index == old(self).line_index + w.len()
                } else {
                    r is None && *final(self) == *old(self)
                }
            }),
    {
        if start == end || is_numeric(self.source_code.get_char(start)) {
            return None;
        }
        let ghost s = self.source();
        proof {
            lemma_word_end(s, start as int);
        }
        // A word stops at every `:` and `.`, so the identifier is the whole word.
        let break_index = end - start;
        let text = String::from_str(self.source_code.substring_char(start, start + break_index));
        self.consume(break_index);
        self.line_index += break_index;
        Some(TokenType::Identifier(text))
    }

    /// An invalid word: skipped by its length in bytes; `None` when that is
    /// zero, for then the lexer cannot go on.
    fn get_invalid(&mut self, start: usize, end: usize) -> (r: Option<TokenType>)
        requires
            old(self).wf(),
            start == old(self).index,
            start <= end <= old(self).len,
        ensures
            final(self).len == old(self).len,
            final(self).source_code == old(self).source_code,
            final(self).file_name == old(self).file_name,
            final(self).line_number == old(self).line_number,
            final(self).line_index == old(self).line_index,
            ({
                let w = old(self).source().subrange(start as int, end as int);
                if utf8_len(w) > 0 {
                    r matches Some(x) && x@ == TknView::Invalid && final(self).index == start + utf8_len(w)
                } else {
                    r is None && *final(self) == *old(self)
                }
            }),
    {
        let word = self.source_code.substring_char(start, end);
        proof {
            lemma_utf8_len_bound(word@);
        }
        let n = word.len();
        if n == 0 {
            return None;
        }
        self.consume(n);
        Some(TokenType::Invalid)
    }

    /// One step of the lexer (see [`lex_step`]).
    fn step(&mut self) -> (r: Step)
        requires
            old(self).wf(),
            old(self).index < old(self).len,
        ensures
            final(self).wf(),
            final(self).source() == old(self).source(),
            final(self).file() == old(self).file(),
            match lex_step(old(self).source(), old(self).pos()) {
                LexStep::Skip(q) => r is Skip && final(self).pos() == q && q.index > old(self).index,
                LexStep::Emit(t, q) => r matches Step::Emit(x) && x@ == t && final(self).pos() == q
                    && q.index > old(self).index,
                LexStep::Fail => r is Fail,
            },
    {
        let ghost s = self.source();
        let chr = self.source_code.get_char(self.index);
        match chr {
            '/' => {
                match self.peek_after(1) {
                    Some('/') => {
                        let mut after: usize = 2;
                        while self.index + after < self.len && !(self.source_code.get_char(self.index + after) == '\n' || self.source_code.get_char(self.index + after) == '\r')
                            invariant
                                self.wf(),
                                self.index < self.len,
                                2 <= after,
                                self.index + after <= self.len,
                                s == self.source(),
                                line_comment_end(s, self.index + 2) == line_comment_end(s, self.index + after),
                            decreases self.len - self.index - after,
                        {
                            after += 1;
                        }
                        self.consume(after);
                        self.line_index += after;
                        return Step::Skip;
                    },
                    Some(',') => {
                        let mut after: usize = 2;
                        let mut count: usize = 1;
                        let mut newlines: usize = 0;
                        let mut done = false;
                        while !done && self.index + after + 1 < self.len
                            invariant
                                self.wf(),
                                self.index + 1 < self.len,
                                2 <= after,
                                self.index + after <= self.len,
                                s == self.source(),
                                newlines <= after,
                                count <= after,
                                !done ==> count >= 1,
                                block_comment_scan(s, self.index + 2, 1, 0) == if done {
                                    (self.index + after, newlines as int)
                                } else {
                                    block_comment_scan(s, self.index + after, count as int, newlines as int)
                                },
                            decreases self.len - self.index - after, if done { 0int } else { 1int },
                        {
                            let chr1 = self.source_code.get_char(self.index + after);
                            let chr2 = self.source_code.get_char(self.index + after + 1);
                            if chr1 == '/' && chr2 == ',' {
                                count += 1;
                                after += 2;
                            } else if chr1 == ',' && chr2 == '/' {
                                count -= 1;
                                after += 2;
                            } else if chr1 == '\n' || chr1 == '\r' {
                                after += 1;
                                newlines += 1;
                            } else {
                                after += 1;
                            }
                            if count == 0 {
                                done = true;
                            }
                        }
                        self.consume(after);
                        self.line_index += after;
                        self.line_number += newlines;
                        return Step::Skip;
                    },
                    _ => {},
                }
            },
            ',' => {
                self.consume(1);
                self.line_index += 1;
                return Step::Emit(TokenType::Comma);
            },
            '$' => {
                self.consume(1);
                self.line_index += 1;
                return Step::Emit(TokenType::Dollar);
            },
            '.' => {
                self.consume(1);
                self.line_index += 1;
                return Step::Emit(TokenType::Dot);
            },
            ':' => {
                if let Some(':') = self.peek_after(1) {
                    self.consume(2);
                    self.line_index += 2;
                    return Step::Emit(TokenType::ColonColon);
                } else {
                    self.consume(1);
                    self.line_index += 1;
                    return Step::Emit(TokenType::Colon);
                }
            },
            ';' => {
                self.consume(1);
                self.line_index += 1;
                return Step::Emit(TokenType::Semicolon);
            },
            '(' => {
                self.consume(1);
                self.line_index += 1;
                return Step::Emit(TokenType::OpenParen);
            },
            ')' => {
                self.consume(1);
                self.line_index += 1;
                return Step::Emit(TokenType::CloseParen);
            },
            '{' => {
                self.consume(1);
                self.line_index += 1;
                return Step::Emit(TokenType::OpenCurlyBrace);
            },
            '}' => {
                self.consume(1);
                self.line_index += 1;
                return Step::Emit(TokenType::CloseCurlyBrace);
            },
            '[' => {
                self.consume(1);
                self.line_index += 1;
                return Step::Emit(TokenType::OpenSquareBracket);
            },
            ']' => {
                self.consume(1);
                self.line_index += 1;
                return Step::Emit(TokenType::CloseSquareBracket);
            },
            '\n' | '\r' => {
                self.consume(1);
                self.line_index = 1;
                self.line_number += 1;
                return Step::Skip;
            },
            ' ' => {
                proof {
                    lemma_spaces_end(s, self.index + 1);
                }
                let spaces = self.count_spaces();
                self.consume(spaces);
                self.line_index += spaces;
                return Step::Skip;
            },
            _ => {},
        }
        proof {
            lemma_multi_token_advance(s, self.index as int);
        }
        match self.get_multi_character_token() {
            Some(t) => Step::Emit(t),
            None => Step::Fail,
        }
    }

    /// The tokens of the source from where the lexer is to the end, then an
    /// end-of-file token; `None` when the lexer cannot get to the end (it
    /// meets an operator spelling that it cannot turn into a token, or a
    /// character such as `?` that it cannot move past).
    pub fn try_tokenize(&mut self) -> (r: Option<Vec<Tkn>>)
        requires
            old(self).wf(),
        ensures
            final(self).wf(),
            final(self).source() == old(self).source(),
            final(self).file() == old(self).file(),
            match lex_from(old(self).source(), old(self).pos()) {
                Some((ts, e)) => r matches Some(v) && v@.map_values(|t: Token| t@) == tokens_view(old(self).file(), ts, e),
                None => r is None,
            },
    {
        let ghost s = self.source();
        let ghost file = self.file();
        let ghost start = self.pos();
        let ghost mut emitted: Seq<(TknView, int, int)> = Seq::empty();
        let mut tokens: Vec<Tkn> = Vec::new();
        while self.index < self.len
            invariant
                self.wf(),
                s == self.source(),
                file == self.file(),
                s == old(self).source(),
                file == old(self).file(),
                start == old(self).pos(),
                lex_from(s, start) == match lex_from(s, self.pos()) {
                    Some((ts, e)) => Some((emitted + ts, e)),
                    None => None::<(Seq<(TknView, int, int)>, LexPos)>,
                },
                tokens@.map_values(|t: Token| t@) == emitted.map_values(|x: (TknView, int, int)| TokenView {
                    token: x.0,
                    file_name: file,
                    line_index: x.1 as usize,
                    line_number: x.2 as usize,
                }),
                forall|k: int| 0 <= k < emitted.len() ==> 0 <= #[trigger] emitted[k].1 <= usize::MAX && 0 <= emitted[k].2 <= usize::MAX,
            decreases remaining(s, self.index as int),
        {
            let index = self.line_index;
            let line = self.line_number;
            let ghost p = self.pos();
            match self.step() {
                Step::Skip => {},
                Step::Emit(t) => {
                    let ghost tv = t@;
                    let ghost old_tokens = tokens@;
                    let tok = Tkn::new(t, String::from_str(self.file_name), index, line);
                    assert(tok@ == TokenView { token: tv, file_name: file, line_index: index, line_number: line });
                    tokens.push(tok);
                    proof {
                        let ghost old_emitted = emitted;
                        emitted = emitted.push((tv, p.line_index, p.line_number));
                        let f = |t: Token| t@;
                        let g = |x: (TknView, int, int)| TokenView {
                            token: x.0,
                            file_name: file,
                            line_index: x.1 as usize,
                            line_number: x.2 as usize,
                        };
                        assert(old_tokens.map_values(f) == old_emitted.map_values(g));
                        assert(tokens@ == old_tokens.push(tok));
                        assert(old_tokens.len() == old_emitted.len()) by {
                            assert(old_tokens.map_values(f).len() == old_emitted.map_values(g).len());
                        }
                        assert forall|k: int| 0 <= k < tokens@.len() implies #[trigger] f(tokens@[k]) == g(emitted[k]) by {
                            if k < old_tokens.len() {
                                assert(tokens@[k] == old_tokens[k]);
                                assert(emitted[k] == old_emitted[k]);
                                assert(old_tokens.map_values(f)[k] == old_emitted.map_values(g)[k]);
                            } else {
                                assert(tokens@[k] == tok);
                                assert(emitted[k] == (tv, p.line_index, p.line_number));
                            }
                        }
                        assert(tokens@.map_values(f) =~= emitted.map_values(g));
                    }
                },
                Step::Fail => {
                    return None;
                },
            }
        }
        tokens.push(Tkn::new(TokenType::EndOfFile, String::from_str(self.file_name), self.line_index, self.line_number));
        Some(tokens)
    }

    /// The tokens of the source from where the lexer is to the end, then an
    /// end-of-file token (see [`lex_from`]).
    pub fn tokenize(&mut self) -> (r: Vec<Tkn>)
        requires
            old(self).wf(),
            lex_from(old(self).source(), old(self).pos()) is Some,
        ensures
            final(self).wf(),
            final(self).source() == old(self).source(),
            final(self).file() == old(self).file(),
            r@.map_values(|t: Token| t@) == tokens_view(
                old(self).file(),
                (lex_from(old(self).source(), old(self).pos())->0).0,
                (lex_from(old(self).source(), old(self).pos())->0).1,
            ),
    {
        match self.try_tokenize() {
            Some(v) => v,
            None => vstd::pervasive::unreached(),
        }
    }
}

/// The tokens `ts` of file `file` followed by an end-of-file token at `e`.
pub open spec fn tokens_view(file: Seq<char>, ts: Seq<(TknView, int, int)>, e: LexPos) -> Seq<TokenView> {
    ts.map_values(|x: (TknView, int, int)| TokenView {
        token: x.0,
        file_name: file,
        line_index: x.1 as usize,
        line_number: x.2 as usize,
    }).push(TokenView {
        token: TknView::EndOfFile,
        file_name: file,
        line_index: e.line_index as usize,
        line_number: e.line_number as usize,
    })
}

/// Whether the token `t` is an operator, or a choice one side of which is
/// an operator, spelled other than `text`.
pub open spec fn misspelt_operator(t: TknView, text: Seq<char>) -> bool {
    match t {
        TknView::Operation(op) => crate::lexer::token::operator_text(op) != text,
        TknView::Either(a, b) => (*a matches TknView::Operation(op) && crate::lexer::token::operator_text(op) != text) || (
        *b matches TknView::Operation(op) && crate::lexer::token::operator_text(op) != text),
        _ => false,
    }
}

/// Every operator token the lexer makes of an operator spelling spells
/// that text: the operator read from `!=` is `NotEquals`, from `>=`
/// `GreaterThanEqualTo`, and so on for each spelling the lexer tries.
pub proof fn lemma_operator_tokens_spell_their_text(k: int)
    requires
        0 <= k < operator_count(),
    ensures
        operator_candidate_token(k) matches Some(t) ==> !misspelt_operator(t, operator_candidate(k)),
{
}

} // verus!
