//! What the parser reports when the source is not what it expects.
use vstd::prelude::*;
use vstd::string::StringExecFns;
use crate::lexer::token::{tkn_len, token_text_spec, Tkn, TknType, TknView, TokenView};
use crate::parser::expr::{has_text, type_text, ExprType, TypeView};
use crate::parser::functions::FnType;
use crate::parser::patterns::{Pattern, PatternView};
use crate::parser::expr_parse::{exprs_view, ExprView, Expression};
use crate::parser::expr::{nat_text, types_view, usize_text};

verus! {

/// An error found while parsing, with the token where it was found.
#[derive(Debug)]
#[allow(inconsistent_fields)]
pub enum ParserError {
    ExpectedToken { tkn: Tkn, expected: TknType },
    /// `received` holds the tokens from `tkn` on, as many as were expected.
    ExpectedTokens { tkn: Tkn, received: Vec<TknType>, expected: Vec<TknType> },
    AlreadyDefinedWhitelist { tkn: Tkn, defined_whitelist: Tkn },
    AlreadyDefinedBlacklist { tkn: Tkn, defined_blacklist: Tkn },
    ExpectedClosingBrace { tkn: Tkn, open_brace: Tkn },
    ExpectedEndOfWhitelist { tkn: Tkn },
    ExpectedEndOfBlacklist { tkn: Tkn },
    NoWhitelistOrBlacklist { tkn: Tkn },
    MissingAccessor { tkn: Tkn },
    ExpectedEndOfStruct { tkn: Tkn },
    ExpectedIdentifier { tkn: Tkn },
    ExpectedType { tkn: Tkn },
    InvalidStatement { tkn: Tkn },
    CouldNotMatchType { tkns: Vec<Tkn>, calculated_type: ExprType, expected_type: ExprType },
    VariableDoesNotExist { tkn: Tkn },
    /// A function is given a number of arguments on its left other than it
    /// takes: their types, the types it takes, and its name.
    IncorrectNumberPrefixArguments { tkn: Tkn, args: Vec<ExprType>, expected_args: Vec<ExprType>, function: String },
    MultipleExpressions { tkn: Tkn, expr: Vec<Expression> },
    /// A struct value names a field that its struct, named here, lacks.
    FieldDoesNotExist { tkn: Tkn, custom_struct: String },
    AlreadyDefinedField { tkn: Tkn, defined_field: Tkn },
    /// A field given by its name alone, named here, is no variable.
    FieldExpressionNotDefined { tkn: Tkn, field: String },
    InvalidExpressionAtom { tkn: Tkn },
    InvalidDollarExpression { tkn: Tkn },
    InvalidDotExpression { tkn: Tkn, expr_type: ExprType },
    /// When a struct, accessor or function could not be parsed.
    InvalidBlock { tkn: Tkn },
    AccessorNotDefined { tkn: Tkn },
    DefinedIncorrectlyPlacedArgument { tkn: Tkn, arg_type: FnType, fix_defined: Tkn, fix_type: FnType },
    ConflictingFunctionFixDefinitions { tkn: Tkn, fix_defined: Tkn },
    ExpectedEndOfFunctionDefinition { tkn: Tkn },
    /// A second `..` in a group pattern, and the first.
    SecondDiscardMany { tkn: Tkn, first_discard_many: Tkn },
    InvalidPattern { tkn: Tkn },
    /// `mut` before a name that is assigned, not declared.
    InvalidMut { tkn: Tkn },
    /// An assignment to a variable declared without `mut`, and its
    /// declaration.
    CannotMutateImmutable { tkn: Tkn, variable_def: Tkn },
    /// A pattern that a declaration's type cannot hold: the pattern and the
    /// type.
    PatternNotMatchExpectedType { tkn: Tkn, pattern: Pattern, expected_type: ExprType },
}

/// The mathematical value of a [`ParserError`].
#[allow(inconsistent_fields)]
pub enum ParserErrorView {
    ExpectedToken { tkn: TokenView, expected: TknView },
    ExpectedTokens { tkn: TokenView, received: Seq<TknView>, expected: Seq<TknView> },
    AlreadyDefinedWhitelist { tkn: TokenView, defined_whitelist: TokenView },
    AlreadyDefinedBlacklist { tkn: TokenView, defined_blacklist: TokenView },
    ExpectedClosingBrace { tkn: TokenView, open_brace: TokenView },
    ExpectedEndOfWhitelist { tkn: TokenView },
    ExpectedEndOfBlacklist { tkn: TokenView },
    NoWhitelistOrBlacklist { tkn: TokenView },
    MissingAccessor { tkn: TokenView },
    ExpectedEndOfStruct { tkn: TokenView },
    ExpectedIdentifier { tkn: TokenView },
    ExpectedType { tkn: TokenView },
    InvalidStatement { tkn: TokenView },
    CouldNotMatchType { tkns: Seq<TokenView>, calculated_type: TypeView, expected_type: TypeView },
    VariableDoesNotExist { tkn: TokenView },
    IncorrectNumberPrefixArguments { tkn: TokenView, args: Seq<TypeView>, expected_args: Seq<TypeView>, function: Seq<char> },
    MultipleExpressions { tkn: TokenView, expr: Seq<ExprView> },
    FieldDoesNotExist { tkn: TokenView, custom_struct: Seq<char> },
    AlreadyDefinedField { tkn: TokenView, defined_field: TokenView },
    FieldExpressionNotDefined { tkn: TokenView, field: Seq<char> },
    InvalidExpressionAtom { tkn: TokenView },
    InvalidDollarExpression { tkn: TokenView },
    InvalidDotExpression { tkn: TokenView, expr_type: TypeView },
    InvalidBlock { tkn: TokenView },
    AccessorNotDefined { tkn: TokenView },
    DefinedIncorrectlyPlacedArgument { tkn: TokenView, arg_type: FnType, fix_defined: TokenView, fix_type: FnType },
    ConflictingFunctionFixDefinitions { tkn: TokenView, fix_defined: TokenView },
    ExpectedEndOfFunctionDefinition { tkn: TokenView },
    SecondDiscardMany { tkn: TokenView, first_discard_many: TokenView },
    InvalidPattern { tkn: TokenView },
    InvalidMut { tkn: TokenView },
    CannotMutateImmutable { tkn: TokenView, variable_def: TokenView },
    PatternNotMatchExpectedType { tkn: TokenView, pattern: PatternView, expected_type: TypeView },
}

impl View for ParserError {
    type V = ParserErrorView;

    open spec fn view(&self) -> ParserErrorView {
        match self {
            ParserError::ExpectedToken { tkn, expected } => ParserErrorView::ExpectedToken {
                tkn: tkn@,
                expected: expected@,
            },
            ParserError::ExpectedTokens { tkn, received, expected } => ParserErrorView::ExpectedTokens {
                tkn: tkn@,
                received: received@.map_values(|t: TknType| t@),
                expected: expected@.map_values(|t: TknType| t@),
            },
            ParserError::AlreadyDefinedWhitelist { tkn, defined_whitelist } => ParserErrorView::AlreadyDefinedWhitelist {
                tkn: tkn@,
                defined_whitelist: defined_whitelist@,
            },
            ParserError::AlreadyDefinedBlacklist { tkn, defined_blacklist } => ParserErrorView::AlreadyDefinedBlacklist {
                tkn: tkn@,
                defined_blacklist: defined_blacklist@,
            },
            ParserError::ExpectedClosingBrace { tkn, open_brace } => ParserErrorView::ExpectedClosingBrace {
                tkn: tkn@,
                open_brace: open_brace@,
            },
            ParserError::ExpectedEndOfWhitelist { tkn } => ParserErrorView::ExpectedEndOfWhitelist { tkn: tkn@ },
            ParserError::ExpectedEndOfBlacklist { tkn } => ParserErrorView::ExpectedEndOfBlacklist { tkn: tkn@ },
            ParserError::NoWhitelistOrBlacklist { tkn } => ParserErrorView::NoWhitelistOrBlacklist { tkn: tkn@ },
            ParserError::MissingAccessor { tkn } => ParserErrorView::MissingAccessor { tkn: tkn@ },
            ParserError::ExpectedEndOfStruct { tkn } => ParserErrorView::ExpectedEndOfStruct { tkn: tkn@ },
            ParserError::ExpectedIdentifier { tkn } => ParserErrorView::ExpectedIdentifier { tkn: tkn@ },
            ParserError::ExpectedType { tkn } => ParserErrorView::ExpectedType { tkn: tkn@ },
            ParserError::InvalidStatement { tkn } => ParserErrorView::InvalidStatement { tkn: tkn@ },
            ParserError::CouldNotMatchType { tkns, calculated_type, expected_type } => ParserErrorView::CouldNotMatchType {
                tkns: tkns@.map_values(|t: Tkn| t@),
                calculated_type: calculated_type@,
                expected_type: expected_type@,
            },
            ParserError::VariableDoesNotExist { tkn } => ParserErrorView::VariableDoesNotExist { tkn: tkn@ },
            ParserError::IncorrectNumberPrefixArguments { tkn, args, expected_args, function } =>
                ParserErrorView::IncorrectNumberPrefixArguments {
                tkn: tkn@,
                args: types_view(args@),
                expected_args: types_view(expected_args@),
                function: function@,
            },
            ParserError::MultipleExpressions { tkn, expr } => ParserErrorView::MultipleExpressions {
                tkn: tkn@,
                expr: exprs_view(expr@),
            },
            ParserError::FieldDoesNotExist { tkn, custom_struct } => ParserErrorView::FieldDoesNotExist {
                tkn: tkn@,
                custom_struct: custom_struct@,
            },
            ParserError::AlreadyDefinedField { tkn, defined_field } => ParserErrorView::AlreadyDefinedField {
                tkn: tkn@,
                defined_field: defined_field@,
            },
            ParserError::FieldExpressionNotDefined { tkn, field } => ParserErrorView::FieldExpressionNotDefined {
                tkn: tkn@,
                field: field@,
            },
            ParserError::InvalidExpressionAtom { tkn } => ParserErrorView::InvalidExpressionAtom { tkn: tkn@ },
            ParserError::InvalidDollarExpression { tkn } => ParserErrorView::InvalidDollarExpression { tkn: tkn@ },
            ParserError::InvalidDotExpression { tkn, expr_type } => ParserErrorView::InvalidDotExpression {
                tkn: tkn@,
                expr_type: expr_type@,
            },
            ParserError::InvalidBlock { tkn } => ParserErrorView::InvalidBlock { tkn: tkn@ },
            ParserError::AccessorNotDefined { tkn } => ParserErrorView::AccessorNotDefined { tkn: tkn@ },
            ParserError::DefinedIncorrectlyPlacedArgument { tkn, arg_type, fix_defined, fix_type } =>
                ParserErrorView::DefinedIncorrectlyPlacedArgument {
                tkn: tkn@,
                arg_type: *arg_type,
                fix_defined: fix_defined@,
                fix_type: *fix_type,
            },
            ParserError::ConflictingFunctionFixDefinitions { tkn, fix_defined } =>
                ParserErrorView::ConflictingFunctionFixDefinitions { tkn: tkn@, fix_defined: fix_defined@ },
            ParserError::ExpectedEndOfFunctionDefinition { tkn } => ParserErrorView::ExpectedEndOfFunctionDefinition {
                tkn: tkn@,
            },
            ParserError::SecondDiscardMany { tkn, first_discard_many } => ParserErrorView::SecondDiscardMany {
                tkn: tkn@,
                first_discard_many: first_discard_many@,
            },
            ParserError::InvalidPattern { tkn } => ParserErrorView::InvalidPattern { tkn: tkn@ },
            ParserError::InvalidMut { tkn } => ParserErrorView::InvalidMut { tkn: tkn@ },
            ParserError::CannotMutateImmutable { tkn, variable_def } => ParserErrorView::CannotMutateImmutable {
                tkn: tkn@,
                variable_def: variable_def@,
            },
            ParserError::PatternNotMatchExpectedType { tkn, pattern, expected_type } =>
                ParserErrorView::PatternNotMatchExpectedType {
                tkn: tkn@,
                pattern: pattern@,
                expected_type: expected_type@,
            },
        }
    }
}

/// The views of a list of errors.
pub open spec fn errors_view(errors: Seq<ParserError>) -> Seq<ParserErrorView> {
    errors.map_values(|e: ParserError| e@)
}

// Helpers for rendering errors.

/// The position of the first line break in `s` at or after `i`, or the end
/// of `s` where there is none.
pub open spec fn next_newline(s: Seq<char>, i: int) -> int
    decreases s.len() - i,
{
    if i < 0 || i >= s.len() {
        s.len() as int
    } else if s[i] == '\n' {
        i
    } else {
        next_newline(s, i + 1)
    }
}

/// Where the line after `k` line breaks starts: the position just after
/// the `k`-th line break of `s`, or just after the end where there are
/// fewer.
pub open spec fn line_start(s: Seq<char>, k: nat) -> int
    decreases k,
{
    if k == 0 {
        0
    } else {
        next_newline(s, line_start(s, (k - 1) as nat)) + 1
    }
}

/// How many line breaks come before line `line_number`, counted from 1;
/// line 0 is taken as line 1.
pub open spec fn lines_before(line_number: nat) -> nat {
    if line_number == 0 {
        0
    } else {
        (line_number - 1) as nat
    }
}

proof fn lemma_next_newline_bounds(s: Seq<char>, i: int)
    requires
        0 <= i,
    ensures
        i <= next_newline(s, i) || i > s.len(),
        next_newline(s, i) <= s.len(),
        next_newline(s, i) < s.len() ==> s[next_newline(s, i)] == '\n',
        forall|j: int| i <= j < next_newline(s, i) ==> s[j] != '\n',
    decreases s.len() - i,
{
    if i < s.len() && s[i] != '\n' {
        lemma_next_newline_bounds(s, i + 1);
    }
}

/// The text of line `line_number` (counted from 1) of `contents`, without
/// its line break; positions count characters.
pub fn get_line_from_contents(line_number: usize, contents: &str) -> (r: &str)
    requires
        contents@.len() < usize::MAX,
        line_start(contents@, lines_before(line_number as nat)) <= contents@.len(),
    ensures
        ({
            let start = line_start(contents@, lines_before(line_number as nat));
            r@ == contents@.subrange(start, next_newline(contents@, start))
        }),
{
    let n = contents.unicode_len();
    let mut index: usize = 0;
    let mut k: usize = 1;
    while k < line_number
        invariant
            1 <= k,
            k <= line_number || (line_number == 0 && k == 1),
            n == contents@.len() < usize::MAX,
            index == line_start(contents@, lines_before(k as nat)),
            line_start(contents@, lines_before(line_number as nat)) <= n,
            index <= n,
        decreases line_number - k,
    {
        proof {
            lemma_next_newline_bounds(contents@, index as int);
            lemma_line_start_mono(contents@, lines_before((k + 1) as nat), lines_before(line_number as nat));
        }
        while index < n && contents.get_char(index) != '\n'
            invariant
                n == contents@.len(),
                index <= n,
                line_start(contents@, lines_before(k as nat)) <= index,
                next_newline(contents@, index as int) == next_newline(
                    contents@,
                    line_start(contents@, lines_before(k as nat)),
                ),
            decreases n - index,
        {
            index += 1;
        }
        index += 1;
        k += 1;
    }
    let start = index;
    proof {
        lemma_next_newline_bounds(contents@, start as int);
    }
    while index < n && contents.get_char(index) != '\n'
        invariant
            n == contents@.len(),
            start <= index <= n,
            next_newline(contents@, index as int) == next_newline(contents@, start as int),
        decreases n - index,
    {
        index += 1;
    }
    contents.substring_char(start, index)
}

/// `line_start` does not go back as the count of line breaks grows, and
/// never goes past just after the end.
proof fn lemma_line_start_mono(s: Seq<char>, a: nat, b: nat)
    requires
        a <= b,
    ensures
        0 <= line_start(s, a) <= line_start(s, b) <= s.len() + 1,
    decreases b,
{
    if b > 0 {
        let p = line_start(s, (b - 1) as nat);
        if a < b {
            lemma_line_start_mono(s, a, (b - 1) as nat);
        } else {
            lemma_line_start_mono(s, 0, (b - 1) as nat);
        }
        lemma_next_newline_bounds(s, p);
    }
}

/// A list written out in words: `a`, `a and b`, and from three items on
/// each but the last followed by `, `, then ` and ` and the last, so that
/// `a, b,  and c` has two spaces before `and`.
pub open spec fn list_text(items: Seq<Seq<char>>) -> Seq<char> {
    if items.len() == 0 {
        Seq::empty()
    } else if items.len() == 1 {
        items[0]
    } else if items.len() == 2 {
        items[0] + " and "@ + items[1]
    } else {
        comma_list(items.drop_last()) + " and "@ + items.last()
    }
}

/// Each of `items` followed by `, `.
pub open spec fn comma_list(items: Seq<Seq<char>>) -> Seq<char>
    decreases items.len(),
{
    if items.len() == 0 {
        Seq::empty()
    } else {
        comma_list(items.drop_last()) + items.last() + ", "@
    }
}

/// The characters of each string in `v`.
pub open spec fn strings_of(v: Seq<String>) -> Seq<Seq<char>> {
    v.map_values(|s: String| s@)
}

/// The list `items` written out in words (see [`list_text`]).
pub fn slice_to_string(items: &[String]) -> (r: String)
    ensures
        r@ == list_text(strings_of(items@)),
{
    proof {
        reveal_strlit(" and ");
        reveal_strlit(", ");
    }
    let n = items.len();
    if n == 0 {
        return String::new();
    }
    if n == 1 {
        return items[0].clone();
    }
    if n == 2 {
        let mut out = items[0].clone();
        out.append(" and ");
        out.append(items[1].as_str());
        return out;
    }
    let mut out = String::new();
    let mut k: usize = 0;
    while k < n - 1
        invariant
            n == items@.len() >= 3,
            k <= n - 1,
            out@ == comma_list(strings_of(items@.subrange(0, k as int))),
        decreases n - 1 - k,
    {
        let ghost before = items@.subrange(0, k as int);
        assert(strings_of(items@.subrange(0, k + 1)).drop_last() =~= strings_of(before));
        out.append(items[k].as_str());
        out.append(", ");
        k += 1;
    }
    assert(strings_of(items@.subrange(0, (n - 1) as int)) =~= strings_of(items@).drop_last());
    out.append(" and ");
    out.append(items[n - 1].as_str());
    out
}

/// Whether `c` has Unicode's `White_Space` property: the 25 code points
/// U+0009 to U+000D, U+0020, U+0085, U+00A0, U+1680, U+2000 to U+200A,
/// U+2028, U+2029, U+202F, U+205F and U+3000.
pub open spec fn is_whitespace_spec(c: char) -> bool {
    let u = c as u32;
    ||| 9 <= u <= 13
    ||| u == 32
    ||| u == 0x85
    ||| u == 0xA0
    ||| u == 0x1680
    ||| 0x2000 <= u <= 0x200A
    ||| u == 0x2028
    ||| u == 0x2029
    ||| u == 0x202F
    ||| u == 0x205F
    ||| u == 0x3000
}

/// Whether `c` has the `White_Space` property (see [`is_whitespace_spec`]).
fn is_whitespace_char(c: char) -> (r: bool)
    ensures
        r == is_whitespace_spec(c),
{
    let u = c as u32;
    (9 <= u && u <= 13) || u == 32 || u == 0x85 || u == 0xA0 || u == 0x1680 || (0x2000 <= u && u <= 0x200A)
        || u == 0x2028 || u == 0x2029 || u == 0x202F || u == 0x205F || u == 0x3000
}

/// How many white-space characters `s` starts with.
pub open spec fn leading_whitespace(s: Seq<char>) -> nat
    decreases s.len(),
{
    if s.len() > 0 && is_whitespace_spec(s[0]) {
        1 + leading_whitespace(s.subrange(1, s.len() as int))
    } else {
        0
    }
}

/// How many white-space characters `line` starts with.
pub fn num_whitespace(line: &str) -> (r: usize)
    ensures
        r == leading_whitespace(line@),
{
    let n = line.unicode_len();
    let mut len: usize = 0;
    assert(line@.subrange(0, n as int) =~= line@);
    while len < n && is_whitespace_char(line.get_char(len))
        invariant
            n == line@.len(),
            len <= n,
            leading_whitespace(line@) == len + leading_whitespace(line@.subrange(len as int, n as int)),
        decreases n - len,
    {
        let ghost rest = line@.subrange(len as int, n as int);
        assert(rest.subrange(1, rest.len() as int) =~= line@.subrange(len + 1, n as int));
        len += 1;
    }
    proof {
        let rest = line@.subrange(len as int, n as int);
        if len < n {
            assert(rest[0] == line@[len as int]);
        }
    }
    len
}

/// `n` copies of `c`.
pub open spec fn repeat_spec(c: char, n: nat) -> Seq<char> {
    Seq::new(n, |_i: int| c)
}

/// The terminal codes that messages are coloured with: bright red, bold
/// bright blue, and back to plain.
pub open spec fn red_code() -> Seq<char> {
    "\x1b[91m"@
}

pub open spec fn blue_code() -> Seq<char> {
    "\x1b[1;94m"@
}

pub open spec fn clear_code() -> Seq<char> {
    "\x1b[0m"@
}

/// The message for an error at one token: the message; where the token is
/// (file, line, column); the line of code, whose text is `line_of_code`;
/// under it the token underlined with `^` in `color`; then `note`.  The
/// line number's width pads the margin.
pub open spec fn token_message_spec(
    message: Seq<char>,
    tkn: TokenView,
    line_of_code: Seq<char>,
    color: Seq<char>,
    note: Seq<char>,
) -> Seq<char> {
    let ln = nat_text(tkn.line_number as nat);
    let pad = repeat_spec(' ', ln.len());
    red_code() + "error:"@ + clear_code() + " "@ + message + "\n"@
        + blue_code() + pad + "-->"@ + clear_code() + " "@ + tkn.file_name + ":"@ + ln + ":"@
        + nat_text(tkn.line_index as nat) + "\n"@
        + blue_code() + pad + " | "@ + clear_code() + "\n"@
        + blue_code() + ln + " | "@ + clear_code() + line_of_code + "\n"@
        + blue_code() + pad + " | "@ + clear_code() + repeat_spec(' ', (tkn.line_index - 1) as nat) + color
        + repeat_spec('^', tkn_len(tkn.token) as nat) + clear_code() + "\n"@
        + blue_code() + pad + ":::"@ + clear_code() + note + "\n"@ + "\n"@
}

/// Appends `n` copies of the one-character string `c` to `out`.
fn append_repeat(out: &mut String, c: &str, n: usize)
    requires
        c@.len() == 1,
    ensures
        final(out)@ == old(out)@ + repeat_spec(c@[0], n as nat),
{
    let ghost start = out@;
    let mut k: usize = 0;
    while k < n
        invariant
            k <= n,
            c@.len() == 1,
            out@ == start + repeat_spec(c@[0], k as nat),
        decreases n - k,
    {
        out.append(c);
        k += 1;
        assert(out@ =~= start + repeat_spec(c@[0], k as nat));
    }
}

/// The message for an error at `tkn` (see [`token_message_spec`]); the
/// text of its line is `line_of_code`.
pub fn token_message(message: &str, tkn: &Tkn, line_of_code: &str, color: &str, note: &str) -> (r: String)
    requires
        tkn.line_index >= 1,
        tkn_len(tkn.token@) <= usize::MAX,
    ensures
        r@ == token_message_spec(message@, tkn@, line_of_code@, color@, note@),
{
    proof {
        reveal_strlit("\x1b[91m");
        reveal_strlit("\x1b[1;94m");
        reveal_strlit("\x1b[0m");
        reveal_strlit("error:");
        reveal_strlit(" ");
        reveal_strlit("\n");
        reveal_strlit("-->");
        reveal_strlit(":");
        reveal_strlit(" | ");
        reveal_strlit(":::");
        reveal_strlit("^");
    }
    let red = "\x1b[91m";
    let blue = "\x1b[1;94m";
    let clear = "\x1b[0m";
    let ln = usize_text(tkn.line_number);
    let li = usize_text(tkn.line_index);
    let width = ln.as_str().unicode_len();
    let mut out = String::new();
    out.append(red);
    out.append("error:");
    out.append(clear);
    out.append(" ");
    out.append(message);
    out.append("\n");
    out.append(blue);
    append_repeat(&mut out, " ", width);
    out.append("-->");
    out.append(clear);
    out.append(" ");
    out.append(tkn.file_name.as_str());
    out.append(":");
    out.append(ln.as_str());
    out.append(":");
    out.append(li.as_str());
    out.append("\n");
    out.append(blue);
    append_repeat(&mut out, " ", width);
    out.append(" | ");
    out.append(clear);
    out.append("\n");
    out.append(blue);
    out.append(ln.as_str());
    out.append(" | ");
    out.append(clear);
    out.append(line_of_code);
    out.append("\n");
    out.append(blue);
    append_repeat(&mut out, " ", width);
    out.append(" | ");
    out.append(clear);
    append_repeat(&mut out, " ", tkn.line_index - 1);
    out.append(color);
    append_repeat(&mut out, "^", tkn.token.len());
    out.append(clear);
    out.append("\n");
    out.append(blue);
    append_repeat(&mut out, " ", width);
    out.append(":::");
    out.append(clear);
    out.append(note);
    out.append("\n");
    out.append("\n");
    assert(out@ =~= token_message_spec(message@, tkn@, line_of_code@, color@, note@));
    out
}

/// `s` right-aligned in `width` characters.
pub open spec fn right_align(s: Seq<char>, width: nat) -> Seq<char> {
    if s.len() < width {
        repeat_spec(' ', (width - s.len()) as nat) + s
    } else {
        s
    }
}

/// The message for an error at `tkn` that points back at an earlier token
/// `defined`: the token `defined` is underlined with `-` and `first_note`,
/// `tkn` with `^` and `second_note`.  On one line, the two marks share the
/// line of code `line_of_code` and `first_note` goes under a bar below; on
/// two lines, each line is shown (`defined_line` for `defined`'s), with
/// the line numbers right-aligned.
pub open spec fn two_token_message_spec(
    message: Seq<char>,
    first_note: Seq<char>,
    second_note: Seq<char>,
    tkn: TokenView,
    defined: TokenView,
    line_of_code: Seq<char>,
    defined_line: Seq<char>,
) -> Seq<char> {
    let ln = nat_text(tkn.line_number as nat);
    let pad = repeat_spec(' ', ln.len());
    let head = red_code() + "error:"@ + clear_code() + " "@ + message + "\n"@
        + blue_code() + pad + "-->"@ + clear_code() + " "@ + tkn.file_name + ":"@ + ln + ":"@
        + nat_text(tkn.line_index as nat) + "\n"@
        + blue_code() + pad + " | "@ + clear_code() + "\n"@;
    let line_len = tkn_len(defined.token);
    let arrow = repeat_spec('^', tkn_len(tkn.token) as nat);
    if tkn.line_number == defined.line_number {
        let line_pad = repeat_spec(' ', (defined.line_index - 1) as nat);
        let arrow_pad = repeat_spec(' ', (tkn.line_index - line_len - (defined.line_index - 1) - 1) as nat);
        head + blue_code() + ln + " | "@ + clear_code() + line_of_code + "\n"@
            + blue_code() + pad + " | "@ + clear_code() + line_pad + blue_code() + repeat_spec('-', line_len as nat)
            + clear_code() + arrow_pad + red_code() + arrow + " "@ + second_note + " "@ + clear_code() + "\n"@
            + blue_code() + pad + " | "@ + clear_code() + line_pad + blue_code() + "|"@ + clear_code() + "\n"@
            + blue_code() + pad + " | "@ + clear_code() + line_pad + blue_code() + first_note + clear_code() + "\n"@
            + blue_code() + pad + ":::"@ + clear_code() + "\n"@ + "\n"@
    } else {
        let dn = nat_text(defined.line_number as nat);
        let width = if ln.len() >= dn.len() { ln.len() } else { dn.len() };
        head + blue_code() + right_align(dn, width) + " | "@ + clear_code() + defined_line + "\n"@
            + blue_code() + pad + " | "@ + clear_code() + repeat_spec(' ', (defined.line_index - 1) as nat) + blue_code()
            + repeat_spec('-', line_len as nat) + " "@ + first_note + " "@ + clear_code() + "\n"@
            + blue_code() + right_align(ln, width) + " | "@ + clear_code() + line_of_code + "\n"@
            + blue_code() + pad + " | "@ + clear_code() + repeat_spec(' ', (tkn.line_index - 1) as nat) + red_code()
            + arrow + " "@ + second_note + " "@ + clear_code() + "\n"@
            + blue_code() + pad + ":::"@ + clear_code() + "\n"@ + "\n"@
    }
}

/// Appends `s` right-aligned in `width` characters to `out`.
fn append_right_aligned(out: &mut String, s: &str, width: usize)
    ensures
        final(out)@ == old(out)@ + right_align(s@, width as nat),
{
    let n = s.unicode_len();
    if n < width {
        proof {
            reveal_strlit(" ");
        }
        append_repeat(out, " ", width - n);
    }
    out.append(s);
    assert(out@ =~= old(out)@ + right_align(s@, width as nat));
}

/// The message for an error at `tkn` that points back at `defined` (see
/// [`two_token_message_spec`]).
pub fn two_token_message(
    message: &str,
    first_note: &str,
    second_note: &str,
    tkn: &Tkn,
    defined: &Tkn,
    line_of_code: &str,
    defined_line: &str,
) -> (r: String)
    requires
        tkn.line_index >= 1,
        defined.line_index >= 1,
        tkn_len(tkn.token@) <= usize::MAX,
        tkn_len(defined.token@) <= usize::MAX,
        tkn.line_number == defined.line_number ==> tkn_len(defined.token@) + defined.line_index <= tkn.line_index,
    ensures
        r@ == two_token_message_spec(
            message@,
            first_note@,
            second_note@,
            tkn@,
            defined@,
            line_of_code@,
            defined_line@,
        ),
{
    proof {
        reveal_strlit("\x1b[91m");
        reveal_strlit("\x1b[1;94m");
        reveal_strlit("\x1b[0m");
        reveal_strlit("error:");
        reveal_strlit(" ");
        reveal_strlit("\n");
        reveal_strlit("-->");
        reveal_strlit(":");
        reveal_strlit(" | ");
        reveal_strlit(":::");
        reveal_strlit("^");
        reveal_strlit("-");
        reveal_strlit("|");
    }
    let red = "\x1b[91m";
    let blue = "\x1b[1;94m";
    let clear = "\x1b[0m";
    let ln = usize_text(tkn.line_number);
    let li = usize_text(tkn.line_index);
    let width = ln.as_str().unicode_len();
    let line_len = defined.token.len();
    let arrow_len = tkn.token.len();
    let mut out = String::new();
    out.append(red);
    out.append("error:");
    out.append(clear);
    out.append(" ");
    out.append(message);
    out.append("\n");
    out.append(blue);
    append_repeat(&mut out, " ", width);
    out.append("-->");
    out.append(clear);
    out.append(" ");
    out.append(tkn.file_name.as_str());
    out.append(":");
    out.append(ln.as_str());
    out.append(":");
    out.append(li.as_str());
    out.append("\n");
    out.append(blue);
    append_repeat(&mut out, " ", width);
    out.append(" | ");
    out.append(clear);
    out.append("\n");
    if tkn.line_number == defined.line_number {
        let line_pad = defined.line_index - 1;
        out.append(blue);
        out.append(ln.as_str());
        out.append(" | ");
        out.append(clear);
        out.append(line_of_code);
        out.append("\n");
        out.append(blue);
        append_repeat(&mut out, " ", width);
        out.append(" | ");
        out.append(clear);
        append_repeat(&mut out, " ", line_pad);
        out.append(blue);
        append_repeat(&mut out, "-", line_len);
        out.append(clear);
        append_repeat(&mut out, " ", tkn.line_index - line_len - line_pad - 1);
        out.append(red);
        append_repeat(&mut out, "^", arrow_len);
        out.append(" ");
        out.append(second_note);
        out.append(" ");
        out.append(clear);
        out.append("\n");
        out.append(blue);
        append_repeat(&mut out, " ", width);
        out.append(" | ");
        out.append(clear);
        append_repeat(&mut out, " ", line_pad);
        out.append(blue);
        out.append("|");
        out.append(clear);
        out.append("\n");
        out.append(blue);
        append_repeat(&mut out, " ", width);
        out.append(" | ");
        out.append(clear);
        append_repeat(&mut out, " ", line_pad);
        out.append(blue);
        out.append(first_note);
        out.append(clear);
        out.append("\n");
    } else {
        let dn = usize_text(defined.line_number);
        let dwidth = dn.as_str().unicode_len();
        let both = if width >= dwidth {
            width
        } else {
            dwidth
        };
        out.append(blue);
        append_right_aligned(&mut out, dn.as_str(), both);
        out.append(" | ");
        out.append(clear);
        out.append(defined_line);
        out.append("\n");
        out.append(blue);
        append_repeat(&mut out, " ", width);
        out.append(" | ");
        out.append(clear);
        append_repeat(&mut out, " ", defined.line_index - 1);
        out.append(blue);
        append_repeat(&mut out, "-", line_len);
        out.append(" ");
        out.append(first_note);
        out.append(" ");
        out.append(clear);
        out.append("\n");
        out.append(blue);
        append_right_aligned(&mut out, ln.as_str(), both);
        out.append(" | ");
        out.append(clear);
        out.append(line_of_code);
        out.append("\n");
        out.append(blue);
        append_repeat(&mut out, " ", width);
        out.append(" | ");
        out.append(clear);
        append_repeat(&mut out, " ", tkn.line_index - 1);
        out.append(red);
        append_repeat(&mut out, "^", arrow_len);
        out.append(" ");
        out.append(second_note);
        out.append(" ");
        out.append(clear);
        out.append("\n");
    }
    out.append(blue);
    append_repeat(&mut out, " ", width);
    out.append(":::");
    out.append(clear);
    out.append("\n");
    out.append("\n");
    assert(out@ =~= two_token_message_spec(
        message@,
        first_note@,
        second_note@,
        tkn@,
        defined@,
        line_of_code@,
        defined_line@,
    ));
    out
}

/// The yellow terminal code that marks the lines left out of a message.
pub open spec fn yellow_code() -> Seq<char> {
    "\x1b[93m"@
}

/// The message for a mismatch of types over the tokens from `first` to
/// `last`: on one line they are underlined with `^` and the types named
/// after; over more lines the first and the last line are shown, marked
/// where the tokens start and end.
pub open spec fn type_message_spec(
    first: TokenView,
    last: TokenView,
    calculated: TypeView,
    expected: TypeView,
    first_line: Seq<char>,
    last_line: Seq<char>,
) -> Seq<char> {
    let ln = nat_text(first.line_number as nat);
    let pad = repeat_spec(' ', ln.len());
    let head = red_code() + "error:"@ + clear_code() + " Mismatched types\n"@
        + blue_code() + pad + "-->"@ + clear_code() + " "@ + first.file_name + ":"@ + ln + ":"@
        + nat_text(first.line_index as nat) + "\n"@;
    if first.line_number == last.line_number {
        let arrow_len = last.line_index - first.line_index + tkn_len(last.token);
        head + blue_code() + pad + " | "@ + clear_code() + "\n"@
            + blue_code() + ln + " | "@ + clear_code() + first_line + "\n"@
            + blue_code() + pad + " | "@ + clear_code() + repeat_spec(' ', (first.line_index - 1) as nat) + red_code()
            + repeat_spec('^', arrow_len as nat) + " expected "@ + type_text(expected) + ", found "@
            + type_text(calculated) + " "@ + clear_code() + "\n"@
            + blue_code() + pad + ":::"@ + clear_code() + " \n"@ + "\n"@
    } else {
        head + blue_code() + pad + " | "@ + clear_code() + repeat_spec(' ', (first.line_index - 1) as nat) + red_code()
            + " +-- expected "@ + type_text(expected) + ", found from here ... "@ + clear_code() + "\n"@
            + blue_code() + ln + " | "@ + clear_code() + first_line + "\n"@
            + yellow_code() + "..."@ + clear_code() + "\n"@
            + blue_code() + nat_text(last.line_number as nat) + " | "@ + clear_code() + last_line + "\n"@
            + blue_code() + pad + " | "@ + clear_code() + repeat_spec(' ', (last.line_index - 1) as nat) + red_code()
            + " +-- ... to here "@ + type_text(calculated) + " "@ + clear_code() + "\n"@
            + blue_code() + pad + ":::"@ + clear_code() + " \n"@ + "\n"@
    }
}

/// The message for a mismatch of types over `tkns` (see
/// [`type_message_spec`]); `first_line` and `last_line` are the texts of
/// the lines of its first and last token.
pub fn type_message(
    tkns: &[Tkn],
    calculated_type: &ExprType,
    expected_type: &ExprType,
    first_line: &str,
    last_line: &str,
) -> (r: String)
    requires
        tkns@.len() > 0,
        has_text(calculated_type@),
        has_text(expected_type@),
        tkns@[0].line_index >= 1,
        tkns@.last().line_index >= 1,
        tkn_len(tkns@.last().token@) <= usize::MAX,
        tkns@[0].line_number == tkns@.last().line_number ==> tkns@[0].line_index <= tkns@.last().line_index
            && tkns@.last().line_index - tkns@[0].line_index + tkn_len(tkns@.last().token@) <= usize::MAX,
    ensures
        r@ == type_message_spec(
            tkns@[0]@,
            tkns@.last()@,
            calculated_type@,
            expected_type@,
            first_line@,
            last_line@,
        ),
{
    proof {
        reveal_strlit("\x1b[91m");
        reveal_strlit("\x1b[1;94m");
        reveal_strlit("\x1b[0m");
        reveal_strlit("\x1b[93m");
        reveal_strlit("error:");
        reveal_strlit(" Mismatched types\n");
        reveal_strlit(" ");
        reveal_strlit("\n");
        reveal_strlit(" \n");
        reveal_strlit("-->");
        reveal_strlit(":");
        reveal_strlit(" | ");
        reveal_strlit(":::");
        reveal_strlit("^");
        reveal_strlit("...");
        reveal_strlit(" expected ");
        reveal_strlit(", found ");
        reveal_strlit(" +-- expected ");
        reveal_strlit(", found from here ... ");
        reveal_strlit(" +-- ... to here ");
    }
    let red = "\x1b[91m";
    let blue = "\x1b[1;94m";
    let clear = "\x1b[0m";
    let first = &tkns[0];
    let last = &tkns[tkns.len() - 1];
    let expected = expected_type.to_text();
    let calculated = calculated_type.to_text();
    let ln = usize_text(first.line_number);
    let li = usize_text(first.line_index);
    let width = ln.as_str().unicode_len();
    let mut out = String::new();
    out.append(red);
    out.append("error:");
    out.append(clear);
    out.append(" Mismatched types\n");
    out.append(blue);
    append_repeat(&mut out, " ", width);
    out.append("-->");
    out.append(clear);
    out.append(" ");
    out.append(first.file_name.as_str());
    out.append(":");
    out.append(ln.as_str());
    out.append(":");
    out.append(li.as_str());
    out.append("\n");
    if first.line_number == last.line_number {
        let arrow_len = last.line_index - first.line_index + last.token.len();
        out.append(blue);
        append_repeat(&mut out, " ", width);
        out.append(" | ");
        out.append(clear);
        out.append("\n");
        out.append(blue);
        out.append(ln.as_str());
        out.append(" | ");
        out.append(clear);
        out.append(first_line);
        out.append("\n");
        out.append(blue);
        append_repeat(&mut out, " ", width);
        out.append(" | ");
        out.append(clear);
        append_repeat(&mut out, " ", first.line_index - 1);
        out.append(red);
        append_repeat(&mut out, "^", arrow_len);
        out.append(" expected ");
        out.append(expected.as_str());
        out.append(", found ");
        out.append(calculated.as_str());
        out.append(" ");
        out.append(clear);
        out.append("\n");
    } else {
        let last_ln = usize_text(last.line_number);
        out.append(blue);
        append_repeat(&mut out, " ", width);
        out.append(" | ");
        out.append(clear);
        append_repeat(&mut out, " ", first.line_index - 1);
        out.append(red);
        out.append(" +-- expected ");
        out.append(expected.as_str());
        out.append(", found from here ... ");
        out.append(clear);
        out.append("\n");
        out.append(blue);
        out.append(ln.as_str());
        out.append(" | ");
        out.append(clear);
        out.append(first_line);
        out.append("\n");
        out.append("\x1b[93m");
        out.append("...");
        out.append(clear);
        out.append("\n");
        out.append(blue);
        out.append(last_ln.as_str());
        out.append(" | ");
        out.append(clear);
        out.append(last_line);
        out.append("\n");
        out.append(blue);
        append_repeat(&mut out, " ", width);
        out.append(" | ");
        out.append(clear);
        append_repeat(&mut out, " ", last.line_index - 1);
        out.append(red);
        out.append(" +-- ... to here ");
        out.append(calculated.as_str());
        out.append(" ");
        out.append(clear);
        out.append("\n");
    }
    out.append(blue);
    append_repeat(&mut out, " ", width);
    out.append(":::");
    out.append(clear);
    out.append(" \n");
    out.append("\n");
    assert(out@ =~= type_message_spec(
        tkns@[0]@,
        tkns@.last()@,
        calculated_type@,
        expected_type@,
        first_line@,
        last_line@,
    ));
    out
}

/// The number of whitespace characters at the end of `s`.
pub open spec fn trailing_whitespace(s: Seq<char>) -> nat
    decreases s.len(),
{
    if s.len() > 0 && is_whitespace_spec(s.last()) {
        trailing_whitespace(s.drop_last()) + 1
    } else {
        0
    }
}

/// `s` without the whitespace at its end.
pub open spec fn trim_end_spec(s: Seq<char>) -> Seq<char> {
    s.take(s.len() - trailing_whitespace(s))
}

/// Whether `src` has a line `n` (counted from 1).
pub open spec fn has_line(src: Seq<char>, n: nat) -> bool {
    line_start(src, lines_before(n)) <= src.len()
}

/// Line `n` of `src` as a message shows it: without its line break and
/// without the whitespace at its end.
pub open spec fn source_line_spec(src: Seq<char>, n: nat) -> Seq<char> {
    let start = line_start(src, lines_before(n));
    trim_end_spec(src.subrange(start, next_newline(src, start)))
}

/// Line `line_number` of the text `src` without the whitespace at its
/// end (see [`source_line_spec`]).
pub fn source_line(line_number: usize, src: &str) -> (r: &str)
    requires
        src@.len() < usize::MAX,
        has_line(src@, line_number as nat),
    ensures
        r@ == source_line_spec(src@, line_number as nat),
{
    let line = get_line_from_contents(line_number, src);
    let ghost l = line@;
    let mut end = line.unicode_len();
    assert(l.take(end as int) =~= l);
    while end > 0 && is_whitespace_char(line.get_char(end - 1))
        invariant
            l == line@,
            end <= l.len(),
            trailing_whitespace(l) == trailing_whitespace(l.take(end as int)) + (l.len() - end),
        decreases end,
    {
        assert(l.take(end as int).drop_last() =~= l.take(end - 1));
        end -= 1;
    }
    assert(l.take(0) =~= Seq::<char>::empty());
    line.substring_char(0, end)
}

/// The texts of the tokens `s`.
pub open spec fn token_texts(s: Seq<TknView>) -> Seq<Seq<char>> {
    s.map_values(|t: TknView| token_text_spec(t))
}

/// Whether the token `t` can be shown in a message on `src`: its line is in
/// `src`, it has a column, and its length fits in a `usize`.
pub open spec fn shown(src: Seq<char>, t: TokenView) -> bool {
    &&& has_line(src, t.line_number as nat)
    &&& t.line_index >= 1
    &&& tkn_len(t.token) <= usize::MAX
}

/// Whether a message can be written for `tkn` with `defined` marked before
/// it: on one line, `defined` must end before `tkn` starts.
pub open spec fn two_shown(src: Seq<char>, tkn: TokenView, defined: TokenView) -> bool {
    &&& shown(src, tkn)
    &&& shown(src, defined)
    &&& tkn.line_number == defined.line_number ==> tkn_len(defined.token) + defined.line_index <= tkn.line_index
}

/// Whether the error `e` has a message on the source `src`: it is one of
/// the errors that messages are written for, and the tokens it points at
/// can be shown (see [`shown`]).
pub open spec fn has_message(e: ParserErrorView, src: Seq<char>) -> bool {
    match e {
        ParserErrorView::ExpectedToken { tkn, .. } => shown(src, tkn),
        ParserErrorView::ExpectedTokens { tkn, .. } => shown(src, tkn),
        ParserErrorView::MissingAccessor { tkn } => shown(src, tkn),
        ParserErrorView::InvalidStatement { tkn } => shown(src, tkn),
        ParserErrorView::AlreadyDefinedWhitelist { tkn, defined_whitelist } => two_shown(src, tkn, defined_whitelist),
        ParserErrorView::AlreadyDefinedBlacklist { tkn, defined_blacklist } => two_shown(src, tkn, defined_blacklist),
        ParserErrorView::ExpectedClosingBrace { tkn, open_brace } => two_shown(src, tkn, open_brace),
        ParserErrorView::CouldNotMatchType { tkns, calculated_type, expected_type } => {
            &&& tkns.len() > 0
            &&& has_text(calculated_type)
            &&& has_text(expected_type)
            &&& has_line(src, tkns[0].line_number as nat)
            &&& has_line(src, tkns.last().line_number as nat)
            &&& tkns[0].line_index >= 1
            &&& tkns.last().line_index >= 1
            &&& tkn_len(tkns.last().token) <= usize::MAX
            &&& tkns[0].line_number == tkns.last().line_number ==> tkns[0].line_index <= tkns.last().line_index
                && tkns.last().line_index - tkns[0].line_index + tkn_len(tkns.last().token) <= usize::MAX
        },
        _ => false,
    }
}

/// The message that reports the error `e` on the source `src` (see
/// [`token_message_spec`], [`two_token_message_spec`] and
/// [`type_message_spec`]).
pub open spec fn message_spec(e: ParserErrorView, src: Seq<char>) -> Seq<char> {
    match e {
        ParserErrorView::ExpectedToken { tkn, expected } => token_message_spec(
            "Expected "@ + token_text_spec(expected) + " but received "@ + token_text_spec(tkn.token),
            tkn,
            source_line_spec(src, tkn.line_number as nat),
            yellow_code(),
            ""@,
        ),
        ParserErrorView::ExpectedTokens { tkn, received, expected } => token_message_spec(
            "Expected "@ + list_text(token_texts(expected)) + " but received "@ + list_text(token_texts(received)),
            tkn,
            source_line_spec(src, tkn.line_number as nat),
            yellow_code(),
            ""@,
        ),
        ParserErrorView::AlreadyDefinedWhitelist { tkn, defined_whitelist: d }
        | ParserErrorView::AlreadyDefinedBlacklist { tkn, defined_blacklist: d } => two_token_message_spec(
            "whitelist for accessor is already defined"@,
            "first declared here"@,
            "used more than once"@,
            tkn,
            d,
            source_line_spec(src, tkn.line_number as nat),
            source_line_spec(src, d.line_number as nat),
        ),
        ParserErrorView::ExpectedClosingBrace { tkn, open_brace } => two_token_message_spec(
            "expected closed curly brace '}' but received "@ + token_text_spec(tkn.token),
            "open brace here"@,
            "expected close brace before here"@,
            tkn,
            open_brace,
            source_line_spec(src, tkn.line_number as nat),
            source_line_spec(src, open_brace.line_number as nat),
        ),
        ParserErrorView::MissingAccessor { tkn } => token_message_spec(
            "Expected accessor like pub, prv, pkg, or a custom defined one but received "@ + token_text_spec(tkn.token),
            tkn,
            source_line_spec(src, tkn.line_number as nat),
            yellow_code(),
            ""@,
        ),
        ParserErrorView::InvalidStatement { tkn } => token_message_spec(
            "Expected beginning of accessor, struct, or function definition but received "@ + token_text_spec(tkn.token),
            tkn,
            source_line_spec(src, tkn.line_number as nat),
            red_code(),
            invalid_statement_note(),
        ),
        ParserErrorView::CouldNotMatchType { tkns, calculated_type, expected_type } => type_message_spec(
            tkns[0],
            tkns.last(),
            calculated_type,
            expected_type,
            source_line_spec(src, tkns[0].line_number as nat),
            source_line_spec(src, tkns.last().line_number as nat),
        ),
        _ => Seq::empty(),
    }
}

/// The note under a statement that is not one of the constructs read yet.
pub open spec fn invalid_statement_note() -> Seq<char> {
    " note = support for other constructs such as const declarations, traits, directives, etc. will be implemented in the future"@
}

/// The texts of the tokens `v`, in order.
fn token_text_list(v: &Vec<TknType>) -> (r: Vec<String>)
    ensures
        strings_of(r@) == token_texts(v@.map_values(|t: TknType| t@)),
{
    let mut out: Vec<String> = Vec::new();
    let mut k: usize = 0;
    while k < v.len()
        invariant
            k <= v@.len(),
            strings_of(out@) == token_texts(v@.map_values(|t: TknType| t@)).take(k as int),
        decreases v@.len() - k,
    {
        let ghost before = out@;
        out.push(v[k].to_text());
        assert(strings_of(out@) =~= strings_of(before).push(token_text_spec(v@[k as int]@)));
        k += 1;
        assert(strings_of(out@) =~= token_texts(v@.map_values(|t: TknType| t@)).take(k as int));
    }
    assert(token_texts(v@.map_values(|t: TknType| t@)).take(k as int) =~= token_texts(v@.map_values(|t: TknType| t@)));
    out
}

/// `a` followed by `b`, `c` and `d`.
fn join4(a: &str, b: &str, c: &str, d: &str) -> (r: String)
    ensures
        r@ == a@ + b@ + c@ + d@,
{
    let mut out = String::new();
    out.append(a);
    out.append(b);
    out.append(c);
    out.append(d);
    assert(out@ =~= a@ + b@ + c@ + d@);
    out
}

impl ParserError {
    /// The message that reports this error on the source `src` (see
    /// [`message_spec`]).
    pub fn message_text(&self, src: &str) -> (r: String)
        requires
            src@.len() < usize::MAX,
            has_message(self@, src@),
        ensures
            r@ == message_spec(self@, src@),
    {
        proof {
            reveal_strlit("\x1b[91m");
            reveal_strlit("\x1b[93m");
            reveal_strlit("");
            reveal_strlit("Expected ");
            reveal_strlit(" but received ");
            reveal_strlit("whitelist for accessor is already defined");
            reveal_strlit("first declared here");
            reveal_strlit("used more than once");
            reveal_strlit("expected closed curly brace '}' but received ");
            reveal_strlit("open brace here");
            reveal_strlit("expected close brace before here");
            reveal_strlit("Expected accessor like pub, prv, pkg, or a custom defined one but received ");
            reveal_strlit("Expected beginning of accessor, struct, or function definition but received ");
            reveal_strlit(" note = support for other constructs such as const declarations, traits, directives, etc. will be implemented in the future");
        }
        let red = "\x1b[91m";
        let yellow = "\x1b[93m";
        match self {
            ParserError::ExpectedToken { tkn, expected } => {
                let m = join4("Expected ", expected.to_text().as_str(), " but received ", tkn.token.to_text().as_str());
                token_message(m.as_str(), tkn, source_line(tkn.line_number, src), yellow, "")
            },
            ParserError::ExpectedTokens { tkn, received, expected } => {
                let e = slice_to_string(token_text_list(expected).as_slice());
                let g = slice_to_string(token_text_list(received).as_slice());
                let m = join4("Expected ", e.as_str(), " but received ", g.as_str());
                token_message(m.as_str(), tkn, source_line(tkn.line_number, src), yellow, "")
            },
            ParserError::AlreadyDefinedWhitelist { tkn, defined_whitelist: d }
            | ParserError::AlreadyDefinedBlacklist { tkn, defined_blacklist: d } => two_token_message(
                "whitelist for accessor is already defined",
                "first declared here",
                "used more than once",
                tkn,
                d,
                source_line(tkn.line_number, src),
                source_line(d.line_number, src),
            ),
            ParserError::ExpectedClosingBrace { tkn, open_brace } => {
                let m = join4("expected closed curly brace '}' but received ", tkn.token.to_text().as_str(), "", "");
                two_token_message(
                    m.as_str(),
                    "open brace here",
                    "expected close brace before here",
                    tkn,
                    open_brace,
                    source_line(tkn.line_number, src),
                    source_line(open_brace.line_number, src),
                )
            },
            ParserError::MissingAccessor { tkn } => {
                let m = join4(
                    "Expected accessor like pub, prv, pkg, or a custom defined one but received ",
                    tkn.token.to_text().as_str(),
                    "",
                    "",
                );
                token_message(m.as_str(), tkn, source_line(tkn.line_number, src), yellow, "")
            },
            ParserError::InvalidStatement { tkn } => {
                let m = join4(
                    "Expected beginning of accessor, struct, or function definition but received ",
                    tkn.token.to_text().as_str(),
                    "",
                    "",
                );
                token_message(
                    m.as_str(),
                    tkn,
                    source_line(tkn.line_number, src),
                    red,
                    " note = support for other constructs such as const declarations, traits, directives, etc. will be implemented in the future",
                )
            },
            ParserError::CouldNotMatchType { tkns, calculated_type, expected_type } => {
                assert(tkns@.map_values(|t: Tkn| t@)[0] == tkns@[0]@);
                assert(tkns@.map_values(|t: Tkn| t@).last() == tkns@.last()@);
                let first = source_line(tkns[0].line_number, src);
                let last = source_line(tkns[tkns.len() - 1].line_number, src);
                type_message(tkns.as_slice(), calculated_type, expected_type, first, last)
            },
            _ => vstd::pervasive::unreached(),
        }
    }
}

} // verus!
