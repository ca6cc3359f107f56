//! Functions: the built-in ones, and the definitions of those in the source.
use vstd::prelude::*;
use crate::full_result::FullResult;
use crate::lexer::token::{tkn_eq, Keyword, Operator, Tkn, TknType, TknView, TokenType, TokenView};
use crate::parser::accessors::{accessor_text, get_accessor_string};
use crate::parser::expr::{types_view, ExprType, TypeView};
use crate::parser::parser_error::{ParserError, ParserErrorView};
use crate::parser::structs::is_accessibility_token;
use crate::parser::tokens::{
    clone_tokens, expect_token, get_token, is_expected_token, is_expected_tokens, tkn_types_view, tkns_view,
    token_at_matches, tokens_at_match,
};
use crate::parser::{get_type_token_expr_type, names_view, type_end, written_type};

verus! {

/// A function that every program has.
#[allow(non_camel_case_types)]
#[derive(Clone, Copy, Debug, PartialEq, Eq, Structural)]
pub enum BuiltInFunction {
    print_string,
    print_i32,
    read_char,
    read_i32,
    panic,
}

/// The built-in function of a name.
pub open spec fn builtin_of(name: Seq<char>) -> Option<BuiltInFunction> {
    if name == "print_string"@ {
        Some(BuiltInFunction::print_string)
    } else if name == "print_i32"@ {
        Some(BuiltInFunction::print_i32)
    } else if name == "read_char"@ {
        Some(BuiltInFunction::read_char)
    } else if name == "read_i32"@ {
        Some(BuiltInFunction::read_i32)
    } else if name == "panic"@ {
        Some(BuiltInFunction::panic)
    } else {
        None
    }
}

/// An anonymous struct of a `value` of type `t` and a `success` flag.
pub open spec fn value_and_success(t: TypeView) -> TypeView {
    TypeView::AnonymousCustom { fields: seq![("value"@, t), ("success"@, TypeView::Bool)] }
}

/// The type of a built-in function.
pub open spec fn builtin_type(f: BuiltInFunction) -> TypeView {
    match f {
        BuiltInFunction::print_string => TypeView::Function {
            name: "print_string"@,
            return_type: Box::new(TypeView::Void),
            left_args: seq![],
            right_args: seq![TypeView::StringLiteral],
        },
        BuiltInFunction::print_i32 => TypeView::Function {
            name: "print_i32"@,
            return_type: Box::new(TypeView::Void),
            left_args: seq![],
            right_args: seq![TypeView::I32],
        },
        BuiltInFunction::read_char => TypeView::Function {
            name: "read_char"@,
            return_type: Box::new(value_and_success(TypeView::Char)),
            left_args: seq![],
            right_args: seq![],
        },
        BuiltInFunction::read_i32 => TypeView::Function {
            name: "read_i32"@,
            return_type: Box::new(value_and_success(TypeView::I32)),
            left_args: seq![],
            right_args: seq![],
        },
        BuiltInFunction::panic => TypeView::Function {
            name: "panic"@,
            return_type: Box::new(TypeView::Never),
            left_args: seq![],
            right_args: seq![TypeView::StringLiteral],
        },
    }
}

impl BuiltInFunction {
    /// The built-in function of a name (see [`builtin_of`]).
    pub fn from_name(name: &str) -> (r: Option<BuiltInFunction>)
        ensures
            r == builtin_of(name@),
    {
        let name = String::from_str(name);
        if name == String::from_str("print_string") {
            Some(BuiltInFunction::print_string)
        } else if name == String::from_str("print_i32") {
            Some(BuiltInFunction::print_i32)
        } else if name == String::from_str("read_char") {
            Some(BuiltInFunction::read_char)
        } else if name == String::from_str("read_i32") {
            Some(BuiltInFunction::read_i32)
        } else if name == String::from_str("panic") {
            Some(BuiltInFunction::panic)
        } else {
            None
        }
    }

    /// The type of this function (see [`builtin_type`]).
    pub fn get_type(&self) -> (r: ExprType)
        ensures
            r@ == builtin_type(*self),
    {
        proof {
            reveal_strlit("value");
            reveal_strlit("success");
        }
        let r = match self {
            BuiltInFunction::print_string => function_type("print_string", ExprType::Void, Some(ExprType::StringLiteral)),
            BuiltInFunction::print_i32 => function_type("print_i32", ExprType::Void, Some(ExprType::I32)),
            BuiltInFunction::read_char => function_type("read_char", value_and_success_type(ExprType::Char), None),
            BuiltInFunction::read_i32 => function_type("read_i32", value_and_success_type(ExprType::I32), None),
            BuiltInFunction::panic => function_type("panic", ExprType::Never, Some(ExprType::StringLiteral)),
        };
        r
    }

    /// Whether arguments of the types `left_args` and `right_args` are what
    /// this function takes.
    pub fn match_args(&self, left_args: &[ExprType], right_args: &[ExprType]) -> (r: bool)
        ensures
            r == (types_view(left_args@) == builtin_type(*self)->Function_left_args && types_view(right_args@)
                == builtin_type(*self)->Function_right_args),
    {
        let t = self.get_type();
        match t {
            ExprType::Function { left_args: want_left, right_args: want_right, .. } => {
                let a = same_type_list(left_args, &want_left);
                let b = same_type_list(right_args, &want_right);
                a && b
            },
            _ => vstd::pervasive::unreached(),
        }
    }
}

/// The type of a function named `name` that returns `return_type` and takes
/// no arguments on the left and, on the right, one of type `right` where
/// there is one.
fn function_type(name: &str, return_type: ExprType, right: Option<ExprType>) -> (r: ExprType)
    ensures
        r@ == (TypeView::Function {
            name: name@,
            return_type: Box::new(return_type@),
            left_args: seq![],
            right_args: match right {
                Some(t) => seq![t@],
                None => seq![],
            },
        }),
{
    let ghost rv = match &right {
        Some(t) => seq![t@],
        None => Seq::<TypeView>::empty(),
    };
    let mut right_args = Vec::new();
    match right {
        Some(t) => right_args.push(t),
        None => {},
    }
    let left_args: Vec<ExprType> = Vec::new();
    proof {
        crate::parser::expr::lemma_types_view(right_args@);
        crate::parser::expr::lemma_types_view(left_args@);
        assert(types_view(right_args@) =~= rv);
        assert(types_view(left_args@) =~= Seq::<TypeView>::empty());
    }
    ExprType::Function { name: String::from_str(name), return_type: Box::new(return_type), left_args, right_args }
}

/// An anonymous struct of a `value` of type `t` and a `success` flag.
fn value_and_success_type(t: ExprType) -> (r: ExprType)
    ensures
        r@ == value_and_success(t@),
{
    proof {
        reveal_strlit("value");
        reveal_strlit("success");
    }
    let mut fields = Vec::new();
    fields.push((String::from_str("value"), t));
    fields.push((String::from_str("success"), ExprType::Bool));
    proof {
        crate::parser::expr::lemma_fields_view(fields@);
        assert(crate::parser::expr::fields_view(fields@) =~= value_and_success(t@)->AnonymousCustom_fields);
    }
    ExprType::AnonymousCustom { fields }
}

/// Whether two lists of types are the same, type for type.
fn same_type_list(a: &[ExprType], b: &Vec<ExprType>) -> (r: bool)
    ensures
        r == (types_view(a@) == types_view(b@)),
{
    proof {
        crate::parser::expr::lemma_types_view(a@);
        crate::parser::expr::lemma_types_view(b@);
    }
    if a.len() != b.len() {
        return false;
    }
    let mut i: usize = 0;
    while i < a.len()
        invariant
            i <= a@.len(),
            a@.len() == b@.len(),
            types_view(a@).len() == a@.len(),
            types_view(b@).len() == b@.len(),
            forall|k: int| 0 <= k < a@.len() ==> #[trigger] types_view(a@)[k] == a@[k]@,
            forall|k: int| 0 <= k < b@.len() ==> #[trigger] types_view(b@)[k] == b@[k]@,
            forall|k: int| 0 <= k < i ==> types_view(a@)[k] == types_view(b@)[k],
        decreases a@.len() - i,
    {
        if !a[i].same_type(&b[i]) {
            assert(types_view(a@)[i as int] != types_view(b@)[i as int]);
            return false;
        }
        i += 1;
    }
    assert(types_view(a@) =~= types_view(b@));
    true
}

/// Where a function's arguments stand relative to its name.
#[derive(Clone, Copy, Debug, PartialEq, Eq, Structural)]
pub enum FnType {
    Prefix,
    Infix,
    Postfix,
}

/// Short name of [`FunctionParseState`].
pub type FnParseState = FunctionParseState;

/// How far the arguments of a function definition have been read.
#[derive(Clone, Copy, Debug, PartialEq, Eq, Structural)]
pub enum FunctionParseState {
    /// Nothing yet.
    NoDef,
    /// `prefix`, then nothing yet.
    NoDefPrefix,
    /// `prefix` and its arguments.
    FullyDefPrefix,
    /// Arguments, then nothing yet.
    ArgsDef,
    /// Arguments and `infix`, then nothing yet.
    ParDefInfix,
    /// Arguments, `infix` and arguments.
    FullyDefInfix,
    /// Arguments and `postfix`.
    FullyDefPostfix,
}

/// Short name of [`Encapsulation`].
pub type Enc = Encapsulation;

/// How a group of arguments is written: in parentheses, or after a `$`.
#[derive(Clone, Copy, Debug, PartialEq, Eq, Structural)]
pub enum Encapsulation {
    Parenthesis,
    Dollar,
}

/// Short name of [`FunctionParamater`].
pub type FnParam = FunctionParamater;

/// A parameter of a function: the token of its name, its type and its name.
#[derive(Debug)]
pub struct FunctionParamater {
    pub tkn: Tkn,
    pub param_type: ExprType,
    pub param_name: Option<String>,
}

/// A parameter as parsed: the token of its name, its type and its name.
pub struct ParamView {
    pub tkn: TokenView,
    pub param_type: TypeView,
    pub param_name: Seq<char>,
}

/// The view of a parameter.
pub open spec fn param_view(p: FunctionParamater) -> ParamView {
    ParamView {
        tkn: p.tkn@,
        param_type: p.param_type@,
        param_name: match p.param_name {
            Some(n) => n@,
            None => Seq::empty(),
        },
    }
}

/// The views of a list of parameters; each has a name.
pub open spec fn params_view(v: Seq<FunctionParamater>) -> Seq<ParamView> {
    v.map_values(|p: FunctionParamater| param_view(p))
}

impl FunctionParamater {
    /// A copy of this parameter.
    pub fn copy(&self) -> (r: FunctionParamater)
        ensures
            param_view(r) == param_view(*self),
            r.param_name == self.param_name,
    {
        FunctionParamater {
            tkn: self.tkn.clone(),
            param_type: self.param_type.copy(),
            param_name: match &self.param_name {
                Some(n) => Some(n.clone()),
                None => None,
            },
        }
    }
}

/// A copy of a list of parameters.
pub fn copy_params(v: &Vec<FunctionParamater>) -> (r: Vec<FunctionParamater>)
    ensures
        params_view(r@) == params_view(v@),
        r@.len() == v@.len(),
        forall|k: int| 0 <= k < v@.len() ==> #[trigger] r@[k].param_name == v@[k].param_name,
{
    let mut out: Vec<FunctionParamater> = Vec::new();
    let mut k: usize = 0;
    while k < v.len()
        invariant
            k <= v@.len(),
            out@.len() == k,
            params_view(out@) == params_view(v@).take(k as int),
            forall|j: int| 0 <= j < k ==> #[trigger] out@[j].param_name == v@[j].param_name,
        decreases v@.len() - k,
    {
        let ghost before = out@;
        out.push(v[k].copy());
        assert(params_view(out@) =~= params_view(before).push(param_view(v@[k as int])));
        k += 1;
        assert(params_view(out@) =~= params_view(v@).take(k as int));
    }
    assert(params_view(v@).take(k as int) =~= params_view(v@));
    out
}

/// Whether a group of arguments ends at `p`, and where reading goes on:
/// in parentheses at a `)`, which is taken; after a `$` at the end of the
/// tokens or at a `$`, `=`, `{`, `infix` or `postfix`, which is not.
/// `None` where a group in parentheses runs past the end of the tokens.
pub open spec fn closes_group(tokens: Seq<Tkn>, p: int, expect_closing: bool) -> Option<(bool, int)> {
    if expect_closing {
        if 0 <= p < tokens.len() {
            if tkn_eq(tokens[p].token@, TknView::CloseParen) {
                Some((true, p + 1))
            } else {
                Some((false, p))
            }
        } else {
            None
        }
    } else if p >= tokens.len() || (0 <= p && (tkn_eq(tokens[p].token@, TknView::Dollar) || tkn_eq(
        tokens[p].token@,
        TknView::Operation(Operator::Assign),
    ) || tkn_eq(tokens[p].token@, TknView::OpenCurlyBrace) || tkn_eq(
        tokens[p].token@,
        TknView::Keyword(Keyword::Infix),
    ) || tkn_eq(tokens[p].token@, TknView::Keyword(Keyword::Postfix)))) {
        Some((true, p))
    } else {
        Some((false, p))
    }
}

/// Whether a group of arguments ends at `index` (see [`closes_group`]).
pub fn expect_closing_group(tokens: &[Tkn], expect_closing: bool, index: &mut usize) -> (r: bool)
    requires
        closes_group(tokens@, *old(index) as int, expect_closing) is Some,
    ensures
        closes_group(tokens@, *old(index) as int, expect_closing) == Some((r, *final(index) as int)),
{
    let i = *index;
    if expect_closing && tokens[i].token.tkn_eq(&TokenType::CloseParen) {
        *index += 1;
        return true;
    } else if !expect_closing && (i >= tokens.len() || tokens[i].token.tkn_eq(&TokenType::Dollar)
        || tokens[i].token.tkn_eq(&TokenType::Operation(Operator::Assign)) || tokens[i].token.tkn_eq(
        &TokenType::OpenCurlyBrace,
    ) || tokens[i].token.tkn_eq(&TokenType::Keyword(Keyword::Infix)) || tokens[i].token.tkn_eq(
        &TokenType::Keyword(Keyword::Postfix),
    )) {
        return true;
    }
    false
}

/// How reading a group of parameters ends.
pub enum GroupEnd {
    /// The parameters, and where reading goes on.
    Params(Seq<ParamView>, int),
    /// A parameter is written wrongly.
    Error(ParserErrorView),
    /// Reading fails: a parameter without `:` or a type, or a group in
    /// parentheses that runs past the end of the tokens.
    Stuck,
}

/// Reads the parameters of a group from `p`, after `params`: each
/// `name: type`, separated by commas (see [`closes_group`]).
pub open spec fn group_params(
    tokens: Seq<Tkn>,
    p: int,
    expect_closing: bool,
    require_comma: bool,
    params: Seq<ParamView>,
    structs: Seq<Seq<char>>,
) -> GroupEnd
    decreases tokens.len() - p,
{
    match closes_group(tokens, p, expect_closing) {
        None => GroupEnd::Stuck,
        Some((true, q)) => GroupEnd::Params(params, q),
        Some((false, _)) => if p < 0 || p >= tokens.len() {
            GroupEnd::Stuck
        } else if require_comma {
            GroupEnd::Error(ParserErrorView::ExpectedToken { tkn: tokens[p]@, expected: TknView::Comma })
        } else if !(tokens[p].token@ is Identifier) {
            GroupEnd::Error(ParserErrorView::ExpectedIdentifier { tkn: tokens[p]@ })
        } else if !token_at_matches(tokens, p + 1, TknView::Colon) {
            GroupEnd::Stuck
        } else {
            match written_type(tokens, p + 2, structs) {
                None => GroupEnd::Stuck,
                Some(t) => {
                    let q = type_end(tokens, p + 2);
                    let comma = token_at_matches(tokens, q, TknView::Comma);
                    let next = if comma { q + 1 } else { q };
                    if next > tokens.len() {
                        GroupEnd::Stuck
                    } else {
                        group_params(
                            tokens,
                            next,
                            expect_closing,
                            !comma,
                            params.push(
                                ParamView {
                                    tkn: tokens[p]@,
                                    param_type: t,
                                    param_name: tokens[p].token@->Identifier_0,
                                },
                            ),
                            structs,
                        )
                    }
                },
            }
        },
    }
}

/// Reads a group of parameters at `i`: in parentheses, or after a `$`; where
/// there is neither, no parameters, and the token at `i` is passed over.
pub open spec fn group_spec(tokens: Seq<Tkn>, i: int, structs: Seq<Seq<char>>) -> GroupEnd {
    if token_at_matches(tokens, i, TknView::OpenParen) {
        group_params(tokens, i + 1, true, false, Seq::empty(), structs)
    } else if token_at_matches(tokens, i, TknView::Dollar) {
        group_params(tokens, i + 1, false, false, Seq::empty(), structs)
    } else {
        GroupEnd::Params(Seq::empty(), i + 1)
    }
}

/// A group of parameters read from `p` ends within the tokens, after `p`.
pub proof fn lemma_group_params_end(
    tokens: Seq<Tkn>,
    p: int,
    expect_closing: bool,
    require_comma: bool,
    params: Seq<ParamView>,
    structs: Seq<Seq<char>>,
)
    requires
        0 <= p <= tokens.len(),
    ensures
        group_params(tokens, p, expect_closing, require_comma, params, structs) matches GroupEnd::Params(_, q) ==> p
            <= q <= tokens.len(),
    decreases tokens.len() - p,
{
    match closes_group(tokens, p, expect_closing) {
        Some((false, _)) => {
            if 0 <= p < tokens.len() && !require_comma && tokens[p].token@ is Identifier && token_at_matches(
                tokens,
                p + 1,
                TknView::Colon,
            ) {
                match written_type(tokens, p + 2, structs) {
                    Some(t) => {
                        let q = type_end(tokens, p + 2);
                        let comma = token_at_matches(tokens, q, TknView::Comma);
                        let next = if comma { q + 1 } else { q };
                        if next <= tokens.len() {
                            lemma_group_params_end(
                                tokens,
                                next,
                                expect_closing,
                                !comma,
                                params.push(
                                    ParamView {
                                        tkn: tokens[p]@,
                                        param_type: t,
                                        param_name: tokens[p].token@->Identifier_0,
                                    },
                                ),
                                structs,
                            );
                        }
                    },
                    None => {},
                }
            }
        },
        _ => {},
    }
}

/// A group of parameters read at `i` ends after `i`, and within the tokens
/// where `i` is.
pub proof fn lemma_group_end(tokens: Seq<Tkn>, i: int, structs: Seq<Seq<char>>)
    requires
        0 <= i,
    ensures
        group_spec(tokens, i, structs) matches GroupEnd::Params(_, q) ==> i < q && (i < tokens.len() ==> q
            <= tokens.len()) && (i >= tokens.len() ==> q == i + 1),
{
    if token_at_matches(tokens, i, TknView::OpenParen) {
        lemma_group_params_end(tokens, i + 1, true, false, Seq::empty(), structs);
    } else if token_at_matches(tokens, i, TknView::Dollar) {
        lemma_group_params_end(tokens, i + 1, false, false, Seq::empty(), structs);
    }
}

/// Reads a group of parameters at `index` (see [`group_spec`]).
pub fn fn_group_to_params(tokens: &[Tkn], index: &mut usize, structs: &[&str]) -> (r: Result<
    Vec<FunctionParamater>,
    ParserError,
>)
    requires
        !(group_spec(tokens@, *old(index) as int, names_view(structs@)) is Stuck),
        *old(index) < usize::MAX,
    ensures
        match group_spec(tokens@, *old(index) as int, names_view(structs@)) {
            GroupEnd::Params(ps, next) => r matches Ok(v) && params_view(v@) == ps && *final(index) == next,
            GroupEnd::Error(e) => r matches Err(x) && x@ == e,
            GroupEnd::Stuck => false,
        },
        r is Ok ==> *old(index) < *final(index),
        r is Ok && *old(index) < tokens@.len() ==> *final(index) <= tokens@.len(),
        r is Ok && *old(index) >= tokens@.len() ==> *final(index) == *old(index) + 1,
{
    proof {
        lemma_group_end(tokens@, *old(index) as int, names_view(structs@));
    }
    let ghost goal = group_spec(tokens@, *old(index) as int, names_view(structs@));
    let mut fn_params: Vec<FunctionParamater> = Vec::new();
    let expect_closing;
    if is_expected_token(tokens, TokenType::OpenParen, index) {
        expect_closing = true;
    } else if is_expected_token(tokens, TokenType::Dollar, index) {
        expect_closing = false;
    } else {
        *index += 1;
        assert(params_view(fn_params@) =~= Seq::<ParamView>::empty());
        return Ok(fn_params);
    }
    let mut require_comma = false;
    let n = tokens.len();
    assert(params_view(fn_params@) =~= Seq::<ParamView>::empty());
    loop
        invariant
            n == tokens@.len(),
            goal == group_spec(tokens@, *old(index) as int, names_view(structs@)),
            goal matches GroupEnd::Params(_, q) ==> *old(index) < q && (*old(index) < tokens@.len() ==> q
                <= tokens@.len()) && (*old(index) >= tokens@.len() ==> q == *old(index) + 1),
            !(goal is Stuck),
            goal == group_params(
                tokens@,
                *index as int,
                expect_closing,
                require_comma,
                params_view(fn_params@),
                names_view(structs@),
            ),
            *index <= n,
        decreases n - *index,
    {
        let ghost at = *index;
        if expect_closing_group(tokens, expect_closing, index) {
            return Ok(fn_params);
        }
        if require_comma {
            return Err(ParserError::ExpectedToken { tkn: tokens[*index].clone(), expected: TokenType::Comma });
        }
        let ident = match get_token(tokens, *index) {
            Some(t) => match &t.token {
                TokenType::Identifier(ident) => ident.clone(),
                _ => {
                    return Err(ParserError::ExpectedIdentifier { tkn: tokens[*index].clone() });
                },
            },
            None => {
                return Err(ParserError::ExpectedIdentifier { tkn: tokens[*index].clone() });
            },
        };
        let tkn = tokens[*index].clone();
        *index += 1;
        let colon = expect_token(tokens, TokenType::Colon, index);
        if colon.is_none() {
            vstd::pervasive::unreached()
        }
        let expr_type = match get_type_token_expr_type(tokens, index, structs) {
            Some(t) => t,
            None => vstd::pervasive::unreached(),
        };
        let ghost before = fn_params@;
        fn_params.push(FunctionParamater { tkn, param_type: expr_type, param_name: Some(ident) });
        assert(params_view(fn_params@) =~= params_view(before).push(param_view(fn_params@.last())));
        if !is_expected_token(tokens, TokenType::Comma, index) {
            require_comma = true;
        } else {
            require_comma = false;
        }
    }
}

/// Where a marker for `kw` written at `p` ends: `(kw)`, `$ kw` or `kw`;
/// `None` where there is none.
pub open spec fn fix_marker(tokens: Seq<Tkn>, p: int, kw: Keyword) -> Option<int> {
    if tokens_at_match(tokens, p, seq![TknView::OpenParen, TknView::Keyword(kw), TknView::CloseParen]) {
        Some(p + 3)
    } else if tokens_at_match(tokens, p, seq![TknView::Dollar, TknView::Keyword(kw)]) {
        Some(p + 2)
    } else if token_at_matches(tokens, p, TknView::Keyword(kw)) {
        Some(p + 1)
    } else {
        None
    }
}

/// Takes a marker for `kw` at `index` (see [`fix_marker`]).
fn take_fix_marker(tokens: &[Tkn], index: &mut usize, kw: Keyword) -> (r: bool)
    ensures
        match fix_marker(tokens@, *old(index) as int, kw) {
            Some(q) => r && *final(index) == q,
            None => !r && *final(index) == *old(index),
        },
{
    let three = vec![TokenType::OpenParen, TokenType::Keyword(kw), TokenType::CloseParen];
    assert(tkn_types_view(three@) =~= seq![TknView::OpenParen, TknView::Keyword(kw), TknView::CloseParen]);
    if is_expected_tokens(tokens, three.as_slice(), index) {
        return true;
    }
    let two = vec![TokenType::Dollar, TokenType::Keyword(kw)];
    assert(tkn_types_view(two@) =~= seq![TknView::Dollar, TknView::Keyword(kw)]);
    if is_expected_tokens(tokens, two.as_slice(), index) {
        return true;
    }
    is_expected_token(tokens, TokenType::Keyword(kw), index)
}

/// How reading the arguments of a function definition ends.
pub enum ArgsEnd {
    /// The parameters on the left and on the right, and the return type.
    Args(Seq<ParamView>, Seq<ParamView>, TypeView),
    /// The arguments are written wrongly.
    Error(ParserErrorView),
    /// Reading fails (see [`GroupEnd::Stuck`], or a missing type after `=`
    /// at the end of the tokens).
    Stuck,
}

/// The return type written after the `=` at `p`: `None` where reading
/// fails, an error where there is no type.
pub open spec fn return_spec(tokens: Seq<Tkn>, p: int, structs: Seq<Seq<char>>) -> Option<Result<TypeView, ParserErrorView>> {
    match written_type(tokens, p + 1, structs) {
        Some(t) => Some(Ok(t)),
        None => if 0 <= p + 1 < tokens.len() {
            Some(Err(ParserErrorView::ExpectedType { tkn: tokens[p + 1]@ }))
        } else {
            None
        },
    }
}

/// The end of a function's arguments at `p`, with the parameters `left` and
/// `right` read: a return type after `=`, the end of the tokens (no return
/// type), or else the error `err`.
pub open spec fn args_end(
    tokens: Seq<Tkn>,
    p: int,
    left: Seq<ParamView>,
    right: Seq<ParamView>,
    structs: Seq<Seq<char>>,
    err: ParserErrorView,
) -> ArgsEnd {
    if token_at_matches(tokens, p, TknView::Operation(Operator::Assign)) {
        match return_spec(tokens, p, structs) {
            Some(Ok(t)) => ArgsEnd::Args(left, right, t),
            Some(Err(e)) => ArgsEnd::Error(e),
            None => ArgsEnd::Stuck,
        }
    } else if p >= tokens.len() {
        ArgsEnd::Args(left, right, TypeView::Void)
    } else {
        ArgsEnd::Error(err)
    }
}

/// The first (up to) `n` token types from `p`.
pub open spec fn received_tokens(tokens: Seq<Tkn>, p: int, n: int) -> Seq<TknView> {
    let hi = if p + n < tokens.len() { p + n } else { tokens.len() as int };
    if 0 <= p <= hi {
        tokens.subrange(p, hi).map_values(|t: Tkn| t.token@)
    } else {
        Seq::empty()
    }
}

/// Whether the end of a function's arguments at `p` can be read: a `=`
/// there is followed by a type or by a token to report.
pub open spec fn end_readable(tokens: Seq<Tkn>, p: int, structs: Seq<Seq<char>>) -> bool {
    token_at_matches(tokens, p, TknView::Operation(Operator::Assign)) ==> return_spec(tokens, p, structs) is Some
}

/// The arguments after `prefix`, which ends at `p1` (see [`args_spec`]).
pub open spec fn prefix_args_spec(tokens: Seq<Tkn>, p1: int, structs: Seq<Seq<char>>) -> ArgsEnd {
    match group_spec(tokens, p1, structs) {
        GroupEnd::Stuck => ArgsEnd::Stuck,
        GroupEnd::Error(e) => ArgsEnd::Error(e),
        GroupEnd::Params(right, p2) => args_end(
            tokens,
            p2,
            Seq::empty(),
            right,
            structs,
            ParserErrorView::DefinedIncorrectlyPlacedArgument {
                tkn: tokens[p2]@,
                arg_type: FnType::Postfix,
                fix_defined: tokens[p1 - 1]@,
                fix_type: FnType::Prefix,
            },
        ),
    }
}

/// The arguments after `infix`, which ends at `p4`, the left ones being
/// `first` (see [`args_spec`]).
pub open spec fn infix_args_spec(tokens: Seq<Tkn>, p4: int, first: Seq<ParamView>, structs: Seq<Seq<char>>) -> ArgsEnd {
    match group_spec(tokens, p4, structs) {
        GroupEnd::Stuck => ArgsEnd::Stuck,
        GroupEnd::Error(e) => ArgsEnd::Error(e),
        GroupEnd::Params(second, p5) => args_end(
            tokens,
            p5,
            first,
            second,
            structs,
            ParserErrorView::ExpectedTokens {
                tkn: tokens[p5]@,
                received: received_tokens(tokens, p5, 3),
                expected: seq![TknView::Operation(Operator::Assign), TknView::Colon, TknView::OpenCurlyBrace],
            },
        ),
    }
}

/// The arguments after a first group `first` that ends at `p2` (see
/// [`args_spec`]).
pub open spec fn after_first_spec(tokens: Seq<Tkn>, first: Seq<ParamView>, p2: int, structs: Seq<Seq<char>>) -> ArgsEnd {
    let infix = fix_marker(tokens, p2, Keyword::Infix);
    let p3 = match infix {
        Some(q) => q,
        None => p2,
    };
    let postfix = fix_marker(tokens, p3, Keyword::Postfix);
    let p4 = match postfix {
        Some(q) => q,
        None => p3,
    };
    if infix is Some {
        infix_args_spec(tokens, p4, first, structs)
    } else if postfix is Some {
        args_end(
            tokens,
            p4,
            first,
            Seq::empty(),
            structs,
            ParserErrorView::DefinedIncorrectlyPlacedArgument {
                tkn: tokens[p4]@,
                arg_type: FnType::Prefix,
                fix_defined: tokens[p2]@,
                fix_type: FnType::Postfix,
            },
        )
    } else {
        args_end(
            tokens,
            p4,
            Seq::empty(),
            first,
            structs,
            ParserErrorView::ExpectedEndOfFunctionDefinition { tkn: tokens[p4 - 1]@ },
        )
    }
}

/// Reads the arguments of a function definition: `prefix` and a group; or
/// a group, then `infix` and a group, or `postfix`; or one group.  Each
/// form may end with `=` and a return type.
pub open spec fn args_spec(tokens: Seq<Tkn>, structs: Seq<Seq<char>>) -> ArgsEnd {
    match fix_marker(tokens, 0, Keyword::Prefix) {
        Some(p1) => prefix_args_spec(tokens, p1, structs),
        None => match group_spec(tokens, 0, structs) {
            GroupEnd::Stuck => ArgsEnd::Stuck,
            GroupEnd::Error(e) => ArgsEnd::Error(e),
            GroupEnd::Params(first, p2) => after_first_spec(tokens, first, p2, structs),
        },
    }
}

/// Whether an outcome of reading arguments is what `r` holds.
pub open spec fn args_result(
    end: ArgsEnd,
    r: Result<(Vec<FunctionParamater>, Vec<FunctionParamater>, ExprType), ParserError>,
) -> bool {
    match end {
        ArgsEnd::Args(l, rt, ty) => r matches Ok((a, b, c)) && params_view(a@) == l && params_view(b@) == rt && c@ == ty,
        ArgsEnd::Error(e) => r matches Err(x) && x@ == e,
        ArgsEnd::Stuck => false,
    }
}

/// Reads the return type after the `=` at `peek - 1`.
fn read_return_type(tokens: &[Tkn], peek: &mut usize, structs: &[&str]) -> (r: Result<ExprType, ParserError>)
    requires
        *old(peek) >= 1,
        token_at_matches(tokens@, *old(peek) - 1, TknView::Operation(Operator::Assign)),
        return_spec(tokens@, *old(peek) - 1, names_view(structs@)) is Some,
    ensures
        match return_spec(tokens@, *old(peek) - 1, names_view(structs@))->0 {
            Ok(t) => r matches Ok(x) && x@ == t,
            Err(e) => r matches Err(x) && x@ == e,
        },
{
    match get_type_token_expr_type(tokens, peek, structs) {
        Some(t) => Ok(t),
        None => Err(ParserError::ExpectedType { tkn: tokens[*peek].clone() }),
    }
}

/// The first (up to) `n` token types from `p` (see [`received_tokens`]).
pub(crate) fn received_list(tokens: &[Tkn], p: usize, n: usize) -> (r: Vec<TknType>)
    requires
        p <= tokens@.len(),
        n < usize::MAX - p,
    ensures
        tkn_types_view(r@) == received_tokens(tokens@, p as int, n as int),
{
    let hi = if p + n < tokens.len() { p + n } else { tokens.len() };
    let mut out: Vec<TknType> = Vec::new();
    let mut k = p;
    while k < hi
        invariant
            p <= k <= hi <= tokens@.len(),
            out@.len() == k - p,
            forall|j: int| 0 <= j < out@.len() ==> #[trigger] out@[j]@ == tokens@[p + j].token@,
        decreases hi - k,
    {
        out.push(tokens[k].token.clone());
        k += 1;
    }
    assert(tkn_types_view(out@) =~= received_tokens(tokens@, p as int, n as int));
    out
}

/// The end of a function's arguments at `peek` with the parameters `left`
/// and `right` read (see [`args_end`]), where `err` is the error to give
/// where neither a `=` nor the end of the tokens is there.
fn finish_args(
    tokens: &[Tkn],
    peek: usize,
    left: Vec<FunctionParamater>,
    right: Vec<FunctionParamater>,
    structs: &[&str],
    Ghost(err): Ghost<ParserErrorView>,
) -> (r: Option<Result<(Vec<FunctionParamater>, Vec<FunctionParamater>, ExprType), ParserError>>)
    requires
        peek < usize::MAX,
        end_readable(tokens@, peek as int, names_view(structs@)),
    ensures
        match r {
            Some(res) => args_result(args_end(tokens@, peek as int, params_view(left@), params_view(right@), names_view(structs@), err), res),
            None => args_end(tokens@, peek as int, params_view(left@), params_view(right@), names_view(structs@), err) == ArgsEnd::Error(err)
                && peek < tokens@.len(),
        },
{
    let mut p = peek;
    if is_expected_token(tokens, TokenType::Operation(Operator::Assign), &mut p) {
        match read_return_type(tokens, &mut p, structs) {
            Ok(t) => Some(Ok((left, right, t))),
            Err(e) => Some(Err(e)),
        }
    } else if p >= tokens.len() {
        Some(Ok((left, right, ExprType::Void)))
    } else {
        None
    }
}

/// Reads the arguments of a function definition (see [`args_spec`]).
pub fn define_arguments(tokens: &[Tkn], structs: &[&str]) -> (r: Result<
    (Vec<FunctionParamater>, Vec<FunctionParamater>, ExprType),
    ParserError,
>)
    requires
        !(args_spec(tokens@, names_view(structs@)) is Stuck),
        tokens@.len() < usize::MAX - 8,
    ensures
        args_result(args_spec(tokens@, names_view(structs@)), r),
{
    let mut peek: usize = 0;
    if take_fix_marker(tokens, &mut peek, Keyword::Prefix) {
        return define_prefix_rest(tokens, peek, structs);
    }
    let first = match fn_group_to_params(tokens, &mut peek, structs) {
        Ok(v) => v,
        Err(e) => {
            return Err(e);
        },
    };
    define_after_first(tokens, peek, first, structs)
}

/// Reads the arguments after `prefix`, which ends at `peek` (see
/// [`prefix_args_spec`]).
fn define_prefix_rest(tokens: &[Tkn], peek: usize, structs: &[&str]) -> (r: Result<
    (Vec<FunctionParamater>, Vec<FunctionParamater>, ExprType),
    ParserError,
>)
    requires
        1 <= peek <= 3,
        !(prefix_args_spec(tokens@, peek as int, names_view(structs@)) is Stuck),
        tokens@.len() < usize::MAX - 8,
    ensures
        args_result(prefix_args_spec(tokens@, peek as int, names_view(structs@)), r),
{
    let id_token = peek - 1;
    let mut peek = peek;
    let right = match fn_group_to_params(tokens, &mut peek, structs) {
        Ok(v) => v,
        Err(e) => {
            return Err(e);
        },
    };
    let left: Vec<FunctionParamater> = Vec::new();
    assert(params_view(left@) =~= Seq::<ParamView>::empty());
    let ghost err = ParserErrorView::DefinedIncorrectlyPlacedArgument {
        tkn: tokens@[peek as int]@,
        arg_type: FnType::Postfix,
        fix_defined: tokens@[id_token as int]@,
        fix_type: FnType::Prefix,
    };
    match finish_args(tokens, peek, left, right, structs, Ghost(err)) {
        Some(res) => res,
        None => Err(
            ParserError::DefinedIncorrectlyPlacedArgument {
                tkn: tokens[peek].clone(),
                arg_type: FnType::Postfix,
                fix_defined: tokens[id_token].clone(),
                fix_type: FnType::Prefix,
            },
        ),
    }
}

/// Reads the arguments after a first group `first` that ends at `peek` (see
/// [`after_first_spec`]).
fn define_after_first(tokens: &[Tkn], peek: usize, first: Vec<FunctionParamater>, structs: &[&str]) -> (r: Result<
    (Vec<FunctionParamater>, Vec<FunctionParamater>, ExprType),
    ParserError,
>)
    requires
        1 <= peek <= tokens@.len() + 1,
        !(after_first_spec(tokens@, params_view(first@), peek as int, names_view(structs@)) is Stuck),
        tokens@.len() < usize::MAX - 8,
    ensures
        args_result(after_first_spec(tokens@, params_view(first@), peek as int, names_view(structs@)), r),
{
    let start_fix = peek;
    let mut peek = peek;
    let is_infix = take_fix_marker(tokens, &mut peek, Keyword::Infix);
    let is_postfix = take_fix_marker(tokens, &mut peek, Keyword::Postfix);
    if is_infix {
        define_infix_rest(tokens, peek, first, structs)
    } else if is_postfix {
        let none: Vec<FunctionParamater> = Vec::new();
        assert(params_view(none@) =~= Seq::<ParamView>::empty());
        let ghost err = ParserErrorView::DefinedIncorrectlyPlacedArgument {
            tkn: tokens@[peek as int]@,
            arg_type: FnType::Prefix,
            fix_defined: tokens@[start_fix as int]@,
            fix_type: FnType::Postfix,
        };
        match finish_args(tokens, peek, first, none, structs, Ghost(err)) {
            Some(res) => res,
            None => Err(
                ParserError::DefinedIncorrectlyPlacedArgument {
                    tkn: tokens[peek].clone(),
                    arg_type: FnType::Prefix,
                    fix_defined: tokens[start_fix].clone(),
                    fix_type: FnType::Postfix,
                },
            ),
        }
    } else {
        let none: Vec<FunctionParamater> = Vec::new();
        assert(params_view(none@) =~= Seq::<ParamView>::empty());
        let ghost err = ParserErrorView::ExpectedEndOfFunctionDefinition { tkn: tokens@[peek - 1]@ };
        match finish_args(tokens, peek, none, first, structs, Ghost(err)) {
            Some(res) => res,
            None => Err(ParserError::ExpectedEndOfFunctionDefinition { tkn: tokens[peek - 1].clone() }),
        }
    }
}

/// Reads the arguments after `infix`, which ends at `peek`, the left ones
/// being `first` (see [`infix_args_spec`]).
fn define_infix_rest(tokens: &[Tkn], peek: usize, first: Vec<FunctionParamater>, structs: &[&str]) -> (r: Result<
    (Vec<FunctionParamater>, Vec<FunctionParamater>, ExprType),
    ParserError,
>)
    requires
        peek <= tokens@.len() + 4,
        tokens@.len() < usize::MAX - 8,
        !(infix_args_spec(tokens@, peek as int, params_view(first@), names_view(structs@)) is Stuck),
    ensures
        args_result(infix_args_spec(tokens@, peek as int, params_view(first@), names_view(structs@)), r),
{
    let mut peek = peek;
    let second = match fn_group_to_params(tokens, &mut peek, structs) {
        Ok(v) => v,
        Err(e) => {
            return Err(e);
        },
    };
    let ghost err = ParserErrorView::ExpectedTokens {
        tkn: tokens@[peek as int]@,
        received: received_tokens(tokens@, peek as int, 3),
        expected: seq![TknView::Operation(Operator::Assign), TknView::Colon, TknView::OpenCurlyBrace],
    };
    match finish_args(tokens, peek, first, second, structs, Ghost(err)) {
        Some(res) => res,
        None => {
            let expected = vec![TokenType::Operation(Operator::Assign), TokenType::Colon, TokenType::OpenCurlyBrace];
            assert(tkn_types_view(expected@) =~= seq![
                TknView::Operation(Operator::Assign),
                TknView::Colon,
                TknView::OpenCurlyBrace,
            ]);
            let received = received_list(tokens, peek, 3);
            Err(ParserError::ExpectedTokens { tkn: tokens[peek].clone(), received, expected })
        },
    }
}

/// A function as it stands in the source: the token stating its
/// accessibility, its name, whether it is `mut` and `rec`, and the tokens of
/// its arguments and of its body (braces included).
#[derive(Debug)]
pub struct FunctionDefinition {
    pub accessibility: Option<Tkn>,
    pub name: String,
    pub mutable: bool,
    pub recursive: bool,
    pub arg_tokens: Vec<Tkn>,
    pub body_tokens: Vec<Tkn>,
}

/// Short name of [`FullFunctionDefinition`].
pub type FullFnDef = FullFunctionDefinition;

/// A function with its accessibility and arguments parsed.
#[derive(Debug)]
pub struct FullFunctionDefinition {
    pub accessibility: String,
    pub name: String,
    pub mutable: bool,
    pub recursive: bool,
    pub left_args: Vec<FunctionParamater>,
    pub right_args: Vec<FunctionParamater>,
    pub return_type: ExprType,
}

/// Scans a function's arguments from `p` for the `{` of its body: a `{`
/// that opens an anonymous struct type (after `:` or `=`) is passed over
/// with its `}`.  `None` where the tokens end first.
pub open spec fn fn_args_scan(tokens: Seq<Tkn>, p: int, level: nat) -> Option<int>
    decreases tokens.len() - p,
{
    if p < 0 || p >= tokens.len() {
        None
    } else if token_at_matches(tokens, p, TknView::OpenCurlyBrace) {
        if level > 0 {
            fn_args_scan(tokens, p + 1, level)
        } else {
            Some(p)
        }
    } else if p + 1 < tokens.len() && tokens_at_match(tokens, p, seq![TknView::Colon, TknView::OpenCurlyBrace]) {
        fn_args_scan(tokens, p + 2, level + 1)
    } else if p + 1 < tokens.len() && tokens_at_match(
        tokens,
        p,
        seq![TknView::Operation(Operator::Assign), TknView::OpenCurlyBrace],
    ) {
        fn_args_scan(tokens, p + 2, level + 1)
    } else if token_at_matches(tokens, p, TknView::CloseCurlyBrace) {
        fn_args_scan(tokens, p + 1, if level == 0 { 0 } else { (level - 1) as nat })
    } else {
        fn_args_scan(tokens, p + 1, level)
    }
}

/// Scans a function's body from `p`, with `count` braces open, for the `}`
/// that closes it.  `None` where the tokens end first.
pub open spec fn fn_body_scan(tokens: Seq<Tkn>, p: int, count: nat) -> Option<int>
    decreases tokens.len() - p,
{
    if p < 0 || p >= tokens.len() {
        None
    } else if token_at_matches(tokens, p, TknView::OpenCurlyBrace) {
        fn_body_scan(tokens, p + 1, count + 1)
    } else if token_at_matches(tokens, p, TknView::CloseCurlyBrace) {
        if count > 1 {
            fn_body_scan(tokens, p + 1, (count - 1) as nat)
        } else {
            Some(p)
        }
    } else {
        fn_body_scan(tokens, p + 1, count)
    }
}

/// What reading a function definition gives.
pub enum FnDefOutcome {
    /// There is no function definition here.
    Soft,
    /// There is one, without a name.
    Hard(ParserErrorView),
    /// The definition: its accessibility token, whether it is `mut` and
    /// `rec`, its name, where its arguments start and its body starts and
    /// ends (its `}` included), and the position after it.
    Defined {
        acc: Option<int>,
        mutable: bool,
        recursive: bool,
        name: Seq<char>,
        args_start: int,
        body_start: int,
        body_end: int,
    },
}

/// What reading `mut`, `rec`, `fn`, a name, arguments and a body from `p`
/// gives, for a definition whose accessibility token is `acc`.
pub open spec fn function_rest_spec(tokens: Seq<Tkn>, acc: Option<int>, p: int) -> Option<FnDefOutcome> {
    let mutable = token_at_matches(tokens, p, TknView::Keyword(Keyword::Mutable));
    let p1 = if mutable { p + 1 } else { p };
    let recursive = token_at_matches(tokens, p1, TknView::Keyword(Keyword::Recursive));
    let p2 = if recursive { p1 + 1 } else { p1 };
    if !token_at_matches(tokens, p2, TknView::Keyword(Keyword::Function)) {
        Some(FnDefOutcome::Soft)
    } else if !(p2 + 1 < tokens.len()) {
        None
    } else if !(tokens[p2 + 1].token@ is Identifier) {
        Some(FnDefOutcome::Hard(ParserErrorView::ExpectedIdentifier { tkn: tokens[p2 + 1]@ }))
    } else {
        match fn_args_scan(tokens, p2 + 2, 0) {
            None => None,
            Some(a) => match fn_body_scan(tokens, a, 0) {
                None => None,
                Some(b) => Some(
                    FnDefOutcome::Defined {
                        acc,
                        mutable,
                        recursive,
                        name: tokens[p2 + 1].token@->Identifier_0,
                        args_start: p2 + 2,
                        body_start: a,
                        body_end: b + 1,
                    },
                ),
            },
        }
    }
}

/// What reading a function definition at `i` gives: an optional
/// accessibility token, `mut`, `rec`, `fn`, a name, the arguments and a body
/// in braces.  `None` where the reading would fail on the tokens running
/// out.
pub open spec fn function_def_spec(tokens: Seq<Tkn>, i: int) -> Option<FnDefOutcome> {
    if !(0 <= i < tokens.len()) {
        None
    } else {
        let t = tokens[i].token@;
        if is_accessibility_token(t) {
            function_rest_spec(tokens, Some(i), i + 1)
        } else if t == TknView::Keyword(Keyword::Mutable) || t == TknView::Keyword(Keyword::Recursive) || t
            == TknView::Keyword(Keyword::Function) {
            function_rest_spec(tokens, None, i)
        } else {
            Some(FnDefOutcome::Soft)
        }
    }
}

/// Finds the `{` of a function's body from `p` (see [`fn_args_scan`]).
fn scan_fn_args(tokens: &[Tkn], p: usize) -> (r: usize)
    requires
        fn_args_scan(tokens@, p as int, 0) is Some,
    ensures
        fn_args_scan(tokens@, p as int, 0) == Some(r as int),
{
    let ghost goal = fn_args_scan(tokens@, p as int, 0);
    let n = tokens.len();
    let mut peek = p;
    let mut level: usize = 0;
    loop
        invariant
            n == tokens@.len(),
            goal == fn_args_scan(tokens@, p as int, 0),
            goal is Some,
            goal == fn_args_scan(tokens@, peek as int, level as nat),
            peek <= n,
            level <= peek,
        decreases n - peek,
    {
        let colon_brace = vec![TokenType::Colon, TokenType::OpenCurlyBrace];
        assert(tkn_types_view(colon_brace@) =~= seq![TknView::Colon, TknView::OpenCurlyBrace]);
        let assign_brace = vec![TokenType::Operation(Operator::Assign), TokenType::OpenCurlyBrace];
        assert(tkn_types_view(assign_brace@) =~= seq![TknView::Operation(Operator::Assign), TknView::OpenCurlyBrace]);
        let ghost at = peek as int;
        if is_expected_token(tokens, TokenType::OpenCurlyBrace, &mut peek) {
            if level > 0 {
                continue;
            }
            return peek - 1;
        } else if is_expected_tokens(tokens, colon_brace.as_slice(), &mut peek) {
            proof {
                crate::parser::tokens::lemma_tokens_match_bound(tokens@, at, tkn_types_view(colon_brace@), 0);
            }
            level += 1;
            continue;
        } else if is_expected_tokens(tokens, assign_brace.as_slice(), &mut peek) {
            proof {
                crate::parser::tokens::lemma_tokens_match_bound(tokens@, at, tkn_types_view(assign_brace@), 0);
            }
            level += 1;
            continue;
        } else if is_expected_token(tokens, TokenType::CloseCurlyBrace, &mut peek) {
            if level > 0 {
                level -= 1;
            }
            continue;
        }
        peek += 1;
    }
}

/// Finds the `}` that closes a function's body whose `{` is at `p` (see
/// [`fn_body_scan`]).
fn scan_fn_body(tokens: &[Tkn], p: usize) -> (r: usize)
    requires
        fn_body_scan(tokens@, p as int, 0) is Some,
    ensures
        fn_body_scan(tokens@, p as int, 0) == Some(r as int),
{
    let ghost goal = fn_body_scan(tokens@, p as int, 0);
    let n = tokens.len();
    let mut peek = p;
    let mut count: usize = 0;
    loop
        invariant
            n == tokens@.len(),
            goal == fn_body_scan(tokens@, p as int, 0),
            goal is Some,
            goal == fn_body_scan(tokens@, peek as int, count as nat),
            peek <= n,
            count <= peek,
        decreases n - peek,
    {
        if is_expected_token(tokens, TokenType::OpenCurlyBrace, &mut peek) {
            count += 1;
            continue;
        } else if is_expected_token(tokens, TokenType::CloseCurlyBrace, &mut peek) {
            if count > 1 {
                count -= 1;
                continue;
            }
            return peek - 1;
        }
        peek += 1;
    }
}

/// The scans of a function's arguments and body stay within the tokens.
pub proof fn lemma_fn_scans(tokens: Seq<Tkn>, p: int, level: nat)
    ensures
        fn_args_scan(tokens, p, level) matches Some(a) ==> p <= a < tokens.len(),
        fn_body_scan(tokens, p, level) matches Some(b) ==> p <= b < tokens.len(),
    decreases tokens.len() - p,
{
    if 0 <= p < tokens.len() {
        lemma_fn_scans(tokens, p + 1, level);
        lemma_fn_scans(tokens, p + 1, level + 1);
        if p + 2 <= tokens.len() {
            lemma_fn_scans(tokens, p + 2, level + 1);
        }
        lemma_fn_scans(tokens, p + 1, if level == 0 { 0 } else { (level - 1) as nat });
        if level > 1 {
            lemma_fn_scans(tokens, p + 1, (level - 1) as nat);
        }
    }
}

/// Reads a function definition at `index` (see [`function_def_spec`]).
pub fn define_function(tokens: &[Tkn], index: &mut usize) -> (r: FullResult<FunctionDefinition, (), ParserError>)
    requires
        function_def_spec(tokens@, *old(index) as int) is Some,
    ensures
        match function_def_spec(tokens@, *old(index) as int)->0 {
            FnDefOutcome::Soft => r is SoftErr && *final(index) == *old(index),
            FnDefOutcome::Hard(e) => r matches FullResult::HardErr(x) && x@ == e && *final(index) == *old(index),
            FnDefOutcome::Defined { acc, mutable, recursive, name, args_start, body_start, body_end } => r matches FullResult::Okay(d)
                && d.name@ == name && d.mutable == mutable && d.recursive == recursive && d.arg_tokens@
                == tokens@.subrange(args_start, body_start) && d.body_tokens@ == tokens@.subrange(body_start, body_end)
                && 0 <= args_start <= body_start <= body_end <= tokens@.len() && *final(index) == body_end && match acc {
                Some(a) => d.accessibility == Some(tokens@[a]),
                None => d.accessibility is None,
            },
        },
{
    let mut peek = *index;
    let accessibility = match &tokens[peek].token {
        TokenType::Keyword(Keyword::Public) | TokenType::Keyword(Keyword::Private) | TokenType::Keyword(
            Keyword::Package,
        ) | TokenType::Identifier(_) => {
            peek += 1;
            Some(tokens[peek - 1].clone())
        },
        TokenType::Keyword(Keyword::Mutable) | TokenType::Keyword(Keyword::Recursive) | TokenType::Keyword(
            Keyword::Function,
        ) => None,
        _ => {
            return FullResult::SoftErr(());
        },
    };
    let mutable = is_expected_token(tokens, TokenType::Keyword(Keyword::Mutable), &mut peek);
    let recursive = is_expected_token(tokens, TokenType::Keyword(Keyword::Recursive), &mut peek);
    if expect_token(tokens, TokenType::Keyword(Keyword::Function), &mut peek).is_none() {
        return FullResult::SoftErr(());
    }
    let name = match &tokens[peek].token {
        TokenType::Identifier(ident) => ident.clone(),
        _ => {
            return FullResult::HardErr(ParserError::ExpectedIdentifier { tkn: tokens[peek].clone() });
        },
    };
    peek += 1;
    let start = peek;
    proof {
        lemma_fn_scans(tokens@, start as int, 0);
    }
    let open = scan_fn_args(tokens, start);
    proof {
        lemma_fn_scans(tokens@, open as int, 0);
    }
    let close = scan_fn_body(tokens, open);
    let arg_tokens = clone_tokens(tokens, start, open);
    let body_tokens = clone_tokens(tokens, open, close + 1);
    *index = close + 1;
    FullResult::Okay(FunctionDefinition { accessibility, name, mutable, recursive, arg_tokens, body_tokens })
}

/// The accessibility of a function whose accessibility token is `token`:
/// what the token states (see [`accessor_text`]), and `private` for a
/// function written without one, such as `fn main`.
pub open spec fn fn_accessibility(token: Option<TknView>, accessors: Seq<Seq<char>>) -> Option<Seq<char>> {
    match token {
        None => Some("private"@),
        Some(_) => accessor_text(token, accessors),
    }
}

/// What completing a function definition gives: an error where its
/// accessibility token states no accessibility; else what reading its
/// arguments gives (see [`args_spec`]).
pub open spec fn full_def_spec(def: FunctionDefinition, accessors: Seq<Seq<char>>, structs: Seq<Seq<char>>) -> ArgsEnd {
    match fn_accessibility(crate::parser::structs::opt_tkn_view(def.accessibility), accessors) {
        None => ArgsEnd::Error(ParserErrorView::AccessorNotDefined { tkn: def.accessibility->0@ }),
        Some(_) => args_spec(def.arg_tokens@, structs),
    }
}

impl FullFunctionDefinition {
    /// A copy of this definition.
    pub fn copy(&self) -> (r: FullFunctionDefinition)
        ensures
            r.name == self.name,
            r.accessibility == self.accessibility,
            r.mutable == self.mutable,
            r.recursive == self.recursive,
            params_view(r.left_args@) == params_view(self.left_args@),
            params_view(r.right_args@) == params_view(self.right_args@),
            r.left_args@.len() == self.left_args@.len(),
            r.right_args@.len() == self.right_args@.len(),
            forall|k: int| 0 <= k < self.left_args@.len() ==> #[trigger] r.left_args@[k].param_name == self.left_args@[k].param_name,
            forall|k: int| 0 <= k < self.right_args@.len() ==> #[trigger] r.right_args@[k].param_name == self.right_args@[k].param_name,
            r.return_type@ == self.return_type@,
    {
        FullFunctionDefinition {
            accessibility: self.accessibility.clone(),
            name: self.name.clone(),
            mutable: self.mutable,
            recursive: self.recursive,
            left_args: copy_params(&self.left_args),
            right_args: copy_params(&self.right_args),
            return_type: self.return_type.copy(),
        }
    }

    /// Completes a function definition: its accessibility and its
    /// arguments (see [`full_def_spec`]); returns it with the tokens of its
    /// body.
    pub fn from_partial_fn_def(fn_def: FunctionDefinition, accessors: &[&str], struct_names: &[&str]) -> (r: Result<
        (FullFunctionDefinition, Vec<Tkn>),
        ParserError,
    >)
        requires
            !(full_def_spec(fn_def, names_view(accessors@), names_view(struct_names@)) is Stuck),
            fn_def.arg_tokens@.len() < usize::MAX - 8,
        ensures
            match full_def_spec(fn_def, names_view(accessors@), names_view(struct_names@)) {
                ArgsEnd::Args(l, rt, ty) => r matches Ok((d, body)) && params_view(d.left_args@) == l && params_view(
                    d.right_args@,
                ) == rt && d.return_type@ == ty && d.name@ == fn_def.name@ && d.mutable == fn_def.mutable
                    && d.recursive == fn_def.recursive && tkns_view(body@) == tkns_view(fn_def.body_tokens@)
                    && Some(d.accessibility@) == fn_accessibility(
                    crate::parser::structs::opt_tkn_view(fn_def.accessibility),
                    names_view(accessors@),
                ),
                ArgsEnd::Error(e) => r matches Err(x) && x@ == e,
                ArgsEnd::Stuck => false,
            },
    {
        proof {
            reveal_strlit("private");
        }
        let accessibility = match &fn_def.accessibility {
            None => String::from_str("private"),
            Some(t) => match get_accessor_string(Some(t), &mut 0, accessors) {
                Some(a) => a,
                None => {
                    return Err(ParserError::AccessorNotDefined { tkn: t.clone() });
                },
            },
        };
        let (left_args, right_args, return_type) = match define_arguments(fn_def.arg_tokens.as_slice(), struct_names) {
            Ok(x) => x,
            Err(e) => {
                return Err(e);
            },
        };
        let body = fn_def.body_tokens;
        Ok(
            (
                FullFunctionDefinition {
                    accessibility,
                    name: fn_def.name,
                    mutable: fn_def.mutable,
                    recursive: fn_def.recursive,
                    left_args,
                    right_args,
                    return_type,
                },
                body,
            ),
        )
    }
}

/// A function marked `prefix` takes all of its parameters on the right:
/// where `prefix` is followed by a group of parameters `ps`, the arguments
/// read, if any, have no left arguments and `ps` as right arguments, as a
/// function without a marker and with one group has.
pub proof fn lemma_prefix_parameters_are_right_arguments(
    tokens: Seq<Tkn>,
    structs: Seq<Seq<char>>,
    p1: int,
    ps: Seq<ParamView>,
    p2: int,
)
    requires
        fix_marker(tokens, 0, Keyword::Prefix) == Some(p1),
        group_spec(tokens, p1, structs) == GroupEnd::Params(ps, p2),
    ensures
        args_spec(tokens, structs) matches ArgsEnd::Args(l, r, _) ==> l.len() == 0 && r == ps,
{
}

/// A function without a marker whose one group of parameters `ps` is
/// followed by neither `infix` nor `postfix` takes them on the right too.
pub proof fn lemma_unmarked_parameters_are_right_arguments(
    tokens: Seq<Tkn>,
    structs: Seq<Seq<char>>,
    ps: Seq<ParamView>,
    p2: int,
)
    requires
        fix_marker(tokens, 0, Keyword::Prefix) is None,
        group_spec(tokens, 0, structs) == GroupEnd::Params(ps, p2),
        fix_marker(tokens, p2, Keyword::Infix) is None,
        fix_marker(tokens, p2, Keyword::Postfix) is None,
    ensures
        args_spec(tokens, structs) matches ArgsEnd::Args(l, r, _) ==> l.len() == 0 && r == ps,
{
}

} // verus!
