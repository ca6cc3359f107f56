//! Turning tokens into definitions, statements and expressions.
pub mod accessors;
pub mod expr;
pub mod expr_grammar;
pub mod expr_parse;
pub mod functions;
pub mod operators;
pub mod parse_atom;
pub mod parse_expr;
pub mod parse_group;
pub mod parse_set;
pub mod parse_stmt;
pub mod parse_struct;
pub mod parser_error;
pub mod patterns;
pub mod stmt;
pub mod stmt_grammar;
pub mod structs;
pub mod tokens;

use vstd::prelude::*;
use crate::lexer::token::{type_to_expr_type, Tkn, TknView, TokenType};
use crate::parser::expr::{ExprType, TypeView};
use crate::parser::structs::Struct;
use crate::parser::tokens::{is_expected_token, tkns_view, token_at_matches};
use crate::parser::accessors::{
    accessor_body_spec, accessor_def_spec, accessor_text, define_accessor, empty_accessor_state, parse_accessor,
    strings_view, Accessor, AccessorDefinition, AccessorState, DefOutcome,
};
use crate::parser::structs::{
    define_struct, fields_views, parse_struct, struct_def_spec, struct_fields_spec, FieldsEnd, StructDefinition,
};
use crate::parser::functions::{
    fn_accessibility,
    args_spec, define_function, function_def_spec, params_view, ArgsEnd, FnDefOutcome, FullFunctionDefinition,
    FunctionDefinition,
};
use crate::parser::parser_error::{errors_view, ParserError, ParserErrorView};
use crate::full_result::FullResult;

verus! {

/// Whether `a` and `b` are the same text.
pub fn same_text(a: &String, b: &str) -> (r: bool)
    ensures
        r == (a@ == b@),
{
    let b2 = String::from_str(b);
    *a == b2
}

/// The texts of a list of names.
pub open spec fn names_view(names: Seq<&str>) -> Seq<Seq<char>> {
    names.map_values(|s: &str| s@)
}

/// Whether `name` is one of `names`.
pub fn is_one_of(name: &String, names: &[&str]) -> (r: bool)
    ensures
        r == names_view(names@).contains(name@),
{
    let mut k: usize = 0;
    while k < names.len()
        invariant
            k <= names.len(),
            forall|j: int| 0 <= j < k ==> names@[j]@ != name@,
        decreases names.len() - k,
    {
        if same_text(name, names[k]) {
            assert(names_view(names@)[k as int] == name@);
            return true;
        }
        k += 1;
    }
    proof {
        if names_view(names@).contains(name@) {
            let j = choose|j: int| 0 <= j < names_view(names@).len() && names_view(names@)[j] == name@;
            assert(names@[j]@ == name@);
        }
    }
    false
}

/// The type that the token at `i` names: a primitive type, or a struct among
/// `structs`.
pub open spec fn named_type(tokens: Seq<Tkn>, i: int, structs: Seq<Struct>) -> Option<TypeView> {
    if 0 <= i < tokens.len() {
        match tokens[i].token@ {
            TknView::Type(t) => Some(type_to_expr_type(t)@),
            TknView::Identifier(name) => if exists|k: int| 0 <= k < structs.len() && #[trigger] structs[k].name@ == name {
                Some(TypeView::Custom { ident: name })
            } else {
                None
            },
            _ => None,
        }
    } else {
        None
    }
}

/// Takes the type that the token at `index` names (see [`named_type`]).
#[verifier::loop_isolation(false)]
pub fn get_type(tokens: &[Tkn], index: &mut usize, structs: &[Struct]) -> (r: Option<ExprType>)
    ensures
        named_type(tokens@, *old(index) as int, structs@) matches Some(t) ==> r matches Some(x) && x@ == t
            && *final(index) == *old(index) + 1,
        named_type(tokens@, *old(index) as int, structs@) is None ==> r is None && *final(index) == *old(index),
{
    if *index >= tokens.len() {
        return None;
    }
    match &tokens[*index].token {
        TokenType::Type(t) => {
            *index += 1;
            Some(t.to_expr_type())
        },
        TokenType::Identifier(name) => {
            let mut found = false;
            let mut k: usize = 0;
            while k < structs.len() && !found
                invariant
                    k <= structs.len(),
                    found ==> exists|j: int| 0 <= j < structs.len() && #[trigger] structs@[j].name@ == name@,
                    !found ==> forall|j: int| 0 <= j < k ==> #[trigger] structs@[j].name@ != name@,
                decreases structs.len() - k, if found { 0int } else { 1int },
            {
                if structs[k].name == *name {
                    found = true;
                } else {
                    k += 1;
                }
            }
            if found {
                *index += 1;
                Some(ExprType::Custom { ident: name.clone() })
            } else {
                None
            }
        },
        _ => None,
    }
}

/// Where a type written from `i` ends: a `{` is not passed over (an
/// anonymous struct type leaves the position at its `{`), anything else is
/// one token.
pub open spec fn type_end(tokens: Seq<Tkn>, i: int) -> int {
    if 0 <= i < tokens.len() && tokens[i].token@ is OpenCurlyBrace {
        i
    } else {
        i + 1
    }
}

/// The type written from `i`: a primitive type, a struct among `names`, or
/// an anonymous struct `{ name: type, ... }` (see [`anon_fields`]).
pub open spec fn written_type(tokens: Seq<Tkn>, i: int, names: Seq<Seq<char>>) -> Option<TypeView>
    decreases tokens.len() - i, 0int,
{
    if 0 <= i < tokens.len() {
        match tokens[i].token@ {
            TknView::Type(t) => Some(type_to_expr_type(t)@),
            TknView::Identifier(name) => if names.contains(name) {
                Some(TypeView::Custom { ident: name })
            } else {
                None
            },
            TknView::OpenCurlyBrace => match anon_fields(tokens, i + 1, names, false, Seq::empty()) {
                Some(fields) => Some(TypeView::AnonymousCustom { fields }),
                None => None,
            },
            _ => None,
        }
    } else {
        None
    }
}

/// The fields of an anonymous struct type from `p` on, after the fields
/// `fields`: up to a `}`, each `name: type`, separated by commas.
pub open spec fn anon_fields(
    tokens: Seq<Tkn>,
    p: int,
    names: Seq<Seq<char>>,
    need_comma: bool,
    fields: Seq<(Seq<char>, TypeView)>,
) -> Option<Seq<(Seq<char>, TypeView)>>
    decreases tokens.len() - p, 1int,
{
    if p < 0 || p >= tokens.len() {
        None
    } else if token_at_matches(tokens, p, TknView::CloseCurlyBrace) {
        Some(fields)
    } else if need_comma {
        None
    } else if !(tokens[p].token@ is Identifier) || !token_at_matches(tokens, p + 1, TknView::Colon) {
        None
    } else {
        let name = tokens[p].token@->Identifier_0;
        match written_type(tokens, p + 2, names) {
            Some(t) => {
                let q = type_end(tokens, p + 2);
                let comma = token_at_matches(tokens, q, TknView::Comma);
                let next = if comma { q + 1 } else { q };
                if next >= tokens.len() {
                    None
                } else {
                    anon_fields(tokens, next, names, !comma, fields.push((name, t)))
                }
            },
            None => None,
        }
    }
}

/// Takes the type written from `index` (see [`written_type`] and
/// [`type_end`]).
pub fn get_type_token_expr_type(tokens: &[Tkn], index: &mut usize, structs: &[&str]) -> (r: Option<ExprType>)
    ensures
        written_type(tokens@, *old(index) as int, names_view(structs@)) matches Some(t) ==> r matches Some(x) && x@
            == t && *final(index) == type_end(tokens@, *old(index) as int),
        written_type(tokens@, *old(index) as int, names_view(structs@)) is None ==> r is None && *final(index)
            == *old(index),
    decreases tokens.len() - *old(index),
{
    let peek = *index;
    if peek >= tokens.len() {
        return None;
    }
    match &tokens[peek].token {
        TokenType::Type(t) => {
            *index = peek + 1;
            Some(t.to_expr_type())
        },
        TokenType::Identifier(name) => {
            if is_one_of(name, structs) {
                *index = peek + 1;
                Some(ExprType::Custom { ident: name.clone() })
            } else {
                None
            }
        },
        TokenType::OpenCurlyBrace => {
            let mut p = peek + 1;
            let mut fields: Vec<(String, ExprType)> = Vec::new();
            let mut need_comma = false;
            let ghost goal = anon_fields(tokens@, p as int, names_view(structs@), false, Seq::empty());
            loop
                invariant
                    peek < p,
                    goal == anon_fields(tokens@, p as int, names_view(structs@), need_comma, crate::parser::expr::fields_view(fields@)),
                    written_type(tokens@, peek as int, names_view(structs@)) == match goal {
                        Some(fs) => Some(TypeView::AnonymousCustom { fields: fs }),
                        None => None,
                    },
                    *index == peek,
                    tokens@[peek as int].token@ is OpenCurlyBrace,
                    peek < tokens@.len(),
                decreases tokens.len() - p,
            {
                proof {
                    crate::parser::expr::lemma_fields_view(fields@);
                }
                if p >= tokens.len() {
                    return None;
                }
                if is_expected_token(tokens, TokenType::CloseCurlyBrace, &mut p) {
                    return Some(ExprType::AnonymousCustom { fields });
                }
                if need_comma {
                    return None;
                }
                let name = match &tokens[p].token {
                    TokenType::Identifier(n) => n.clone(),
                    _ => {
                        return None;
                    },
                };
                p += 1;
                if !is_expected_token(tokens, TokenType::Colon, &mut p) {
                    return None;
                }
                let ghost at = p;
                let field_type = match get_type_token_expr_type(tokens, &mut p, structs) {
                    Some(t) => t,
                    None => {
                        return None;
                    },
                };
                let ghost old_fields = fields@;
                fields.push((name, field_type));
                proof {
                    crate::parser::expr::lemma_fields_view(fields@);
                    crate::parser::expr::lemma_fields_view(old_fields);
                    assert(crate::parser::expr::fields_view(fields@) =~= crate::parser::expr::fields_view(old_fields).push(
                        (name@, field_type@),
                    ));
                }
                if !is_expected_token(tokens, TokenType::Comma, &mut p) {
                    need_comma = true;
                } else {
                    need_comma = false;
                }
            }
        },
        _ => None,
    }
}

/// `token` is an identifier that names no struct among `structs`.
pub open spec fn names_no_struct(token: Option<&Tkn>, structs: Seq<&str>) -> bool {
    match token {
        Some(t) => t.token@ is Identifier && !names_view(structs).contains(t.token@->Identifier_0),
        None => false,
    }
}

/// Takes the identifier `token` where it is one and names no struct among
/// `structs`; returns its text.
pub fn get_ident_token_string(token: Option<&Tkn>, index: &mut usize, structs: &[&str]) -> (r: Option<String>)
    requires
        *old(index) < usize::MAX,
    ensures
        names_no_struct(token, structs@) ==> (r matches Some(s) && s@ == token->0.token@->Identifier_0
            && *final(index) == *old(index) + 1),
        !names_no_struct(token, structs@) ==> r is None && *final(index) == *old(index),
{
    match token {
        Some(t) => match &t.token {
            TokenType::Identifier(ident) => {
                if is_one_of(ident, structs) {
                    return None;
                }
                *index += 1;
                Some(ident.clone())
            },
            _ => None,
        },
        None => None,
    }
}

// The definitions of a program.

/// What reading the definitions of a program gives.
pub enum DefsEnd {
    /// Reading fails (see the definitions' own readings).
    Stuck,
    /// A definition is written wrongly, or something other than a
    /// definition stands at the top level.
    Failed(Seq<ParserErrorView>),
    /// The accessors, structs and functions defined, each kind in order.
    Defs { accessors: Seq<DefOutcome>, structs: Seq<DefOutcome>, functions: Seq<FnDefOutcome> },
}

/// `rest` with one more definition in front, of the kind `kind`: 0 for an
/// accessor, 1 for a struct.
pub open spec fn with_def(kind: int, d: DefOutcome, rest: DefsEnd) -> DefsEnd {
    match rest {
        DefsEnd::Defs { accessors, structs, functions } => if kind == 0 {
            DefsEnd::Defs { accessors: seq![d] + accessors, structs, functions }
        } else {
            DefsEnd::Defs { accessors, structs: seq![d] + structs, functions }
        },
        other => other,
    }
}

/// `rest` with one more function definition in front.
pub open spec fn with_function(d: FnDefOutcome, rest: DefsEnd) -> DefsEnd {
    match rest {
        DefsEnd::Defs { accessors, structs, functions } => DefsEnd::Defs {
            accessors,
            structs,
            functions: seq![d] + functions,
        },
        other => other,
    }
}

/// Reads the definitions of a program from `i`: at each position an
/// accessor, else a struct, else a function; the reading ends at the end of
/// the tokens or at the end-of-file token, and fails at anything else.
pub open spec fn defs_spec(tokens: Seq<Tkn>, i: int) -> DefsEnd
    decreases tokens.len() - i,
{
    if i < 0 || i >= tokens.len() {
        DefsEnd::Defs { accessors: seq![], structs: seq![], functions: seq![] }
    } else {
        match accessor_def_spec(tokens, i) {
            None => DefsEnd::Stuck,
            Some(DefOutcome::Hard(es)) => DefsEnd::Failed(es),
            Some(DefOutcome::Defined { acc, name, body_start, body_end, next }) => if next <= i || next > tokens.len() {
                DefsEnd::Stuck
            } else {
                with_def(0, DefOutcome::Defined { acc, name, body_start, body_end, next }, defs_spec(tokens, next))
            },
            Some(DefOutcome::Soft) => match struct_def_spec(tokens, i) {
                None => DefsEnd::Stuck,
                Some(DefOutcome::Hard(es)) => DefsEnd::Failed(es),
                Some(DefOutcome::Defined { acc, name, body_start, body_end, next }) => if next <= i || next
                    > tokens.len() {
                    DefsEnd::Stuck
                } else {
                    with_def(1, DefOutcome::Defined { acc, name, body_start, body_end, next }, defs_spec(tokens, next))
                },
                Some(DefOutcome::Soft) => match function_def_spec(tokens, i) {
                    None => DefsEnd::Stuck,
                    Some(FnDefOutcome::Hard(e)) => DefsEnd::Failed(seq![e]),
                    Some(FnDefOutcome::Defined { acc, mutable, recursive, name, args_start, body_start, body_end }) =>
                        if body_end <= i || body_end > tokens.len() {
                        DefsEnd::Stuck
                    } else {
                        with_function(
                            FnDefOutcome::Defined { acc, mutable, recursive, name, args_start, body_start, body_end },
                            defs_spec(tokens, body_end),
                        )
                    },
                    Some(FnDefOutcome::Soft) => if token_at_matches(tokens, i, TknView::EndOfFile) {
                        DefsEnd::Defs { accessors: seq![], structs: seq![], functions: seq![] }
                    } else {
                        DefsEnd::Failed(seq![ParserErrorView::InvalidBlock { tkn: tokens[i]@ }])
                    },
                },
            },
        }
    }
}

/// The view of an accessor definition read from `tokens`.
pub open spec fn accessor_def_view(tokens: Seq<Tkn>, d: AccessorDefinition, o: DefOutcome) -> bool {
    o matches DefOutcome::Defined { name, body_start, body_end, .. } && d.name@ == name && d.body_tokens@
        == tokens.subrange(body_start, body_end) && 0 <= body_start <= body_end <= tokens.len()
}

/// The view of a struct definition read from `tokens`.
pub open spec fn struct_def_view(tokens: Seq<Tkn>, d: StructDefinition, o: DefOutcome) -> bool {
    o matches DefOutcome::Defined { acc, name, body_start, body_end, .. } && d.name@ == name && d.body_tokens@
        == tokens.subrange(body_start, body_end) && 0 <= body_start <= body_end <= tokens.len() && match acc {
        Some(a) => d.accessibility == Some(tokens[a]),
        None => d.accessibility is None,
    }
}

/// The view of a function definition read from `tokens`.
pub open spec fn function_def_view(tokens: Seq<Tkn>, d: FunctionDefinition, o: FnDefOutcome) -> bool {
    o matches FnDefOutcome::Defined { acc, mutable, recursive, name, args_start, body_start, body_end } && d.name@
        == name && d.mutable == mutable && d.recursive == recursive && d.arg_tokens@ == tokens.subrange(
        args_start,
        body_start,
    ) && d.body_tokens@ == tokens.subrange(body_start, body_end) && 0 <= args_start <= body_start <= body_end
        <= tokens.len() && match acc {
        Some(a) => d.accessibility == Some(tokens[a]),
        None => d.accessibility is None,
    }
}

/// Reads the definitions of a program (see [`defs_spec`]): its accessors,
/// structs and functions, each kind in order.
#[verifier::rlimit(50)]
fn define_all(tokens: &[Tkn]) -> (r: Result<
    (Vec<AccessorDefinition>, Vec<StructDefinition>, Vec<FunctionDefinition>),
    Vec<ParserError>,
>)
    requires
        !(defs_spec(tokens@, 0) is Stuck),
    ensures
        match defs_spec(tokens@, 0) {
            DefsEnd::Failed(es) => r matches Err(v) && errors_view(v@) == es,
            DefsEnd::Defs { accessors, structs, functions } => r matches Ok((a, s, f)) && a@.len()
                == accessors.len() && s@.len() == structs.len() && f@.len() == functions.len() && (forall|k: int|
                0 <= k < a@.len() ==> accessor_def_view(tokens@, #[trigger] a@[k], accessors[k])) && (forall|k: int|
                0 <= k < s@.len() ==> struct_def_view(tokens@, #[trigger] s@[k], structs[k])) && (forall|k: int|
                0 <= k < f@.len() ==> function_def_view(tokens@, #[trigger] f@[k], functions[k])),
            DefsEnd::Stuck => false,
        },
{
    let mut accessor_defs: Vec<AccessorDefinition> = Vec::new();
    let mut struct_defs: Vec<StructDefinition> = Vec::new();
    let mut function_defs: Vec<FunctionDefinition> = Vec::new();
    let ghost goal = defs_spec(tokens@, 0);
    let ghost mut pa: Seq<DefOutcome> = seq![];
    let ghost mut ps: Seq<DefOutcome> = seq![];
    let ghost mut pf: Seq<FnDefOutcome> = seq![];
    let mut index: usize = 0;
    let n = tokens.len();
    loop
        invariant
            n == tokens@.len(),
            index <= n,
            goal == defs_spec(tokens@, 0),
            match defs_spec(tokens@, index as int) {
                DefsEnd::Failed(es) => goal == DefsEnd::Failed(es),
                DefsEnd::Defs { accessors, structs, functions } => goal == (DefsEnd::Defs {
                    accessors: pa + accessors,
                    structs: ps + structs,
                    functions: pf + functions,
                }),
                DefsEnd::Stuck => false,
            },
            accessor_defs@.len() == pa.len(),
            struct_defs@.len() == ps.len(),
            function_defs@.len() == pf.len(),
            forall|k: int| 0 <= k < pa.len() ==> accessor_def_view(tokens@, #[trigger] accessor_defs@[k], pa[k]),
            forall|k: int| 0 <= k < ps.len() ==> struct_def_view(tokens@, #[trigger] struct_defs@[k], ps[k]),
            forall|k: int| 0 <= k < pf.len() ==> function_def_view(tokens@, #[trigger] function_defs@[k], pf[k]),
        ensures
            goal == (DefsEnd::Defs { accessors: pa, structs: ps, functions: pf }),
        decreases n - index,
    {
        if index >= n {
            assert(pa + seq![] =~= pa);
            assert(ps + seq![] =~= ps);
            assert(pf + seq![] =~= pf);
            break;
        }
        let ghost i0 = index as int;
        match define_accessor(tokens, &mut index) {
            FullResult::Okay(def) => {
                proof {
                    let d = accessor_def_spec(tokens@, i0)->0;
                    if let DefsEnd::Defs { accessors, structs, functions } = defs_spec(tokens@, index as int) {
                        assert(pa + (seq![d] + accessors) =~= pa.push(d) + accessors);
                    }
                    pa = pa.push(d);
                }
                accessor_defs.push(def);
                continue;
            },
            FullResult::SoftErr(()) => {},
            FullResult::HardErr(error) => {
                return Err(error);
            },
        }
        match define_struct(tokens, &mut index) {
            FullResult::Okay(def) => {
                proof {
                    let d = struct_def_spec(tokens@, i0)->0;
                    if let DefsEnd::Defs { accessors, structs, functions } = defs_spec(tokens@, index as int) {
                        assert(ps + (seq![d] + structs) =~= ps.push(d) + structs);
                    }
                    ps = ps.push(d);
                }
                struct_defs.push(def);
                continue;
            },
            FullResult::SoftErr(()) => {},
            FullResult::HardErr(error) => {
                return Err(error);
            },
        }
        match define_function(tokens, &mut index) {
            FullResult::Okay(def) => {
                proof {
                    let d = function_def_spec(tokens@, i0)->0;
                    if let DefsEnd::Defs { accessors, structs, functions } = defs_spec(tokens@, index as int) {
                        assert(pf + (seq![d] + functions) =~= pf.push(d) + functions);
                    }
                    pf = pf.push(d);
                }
                function_defs.push(def);
                continue;
            },
            FullResult::SoftErr(()) => {},
            FullResult::HardErr(error) => {
                let mut errors = Vec::new();
                errors.push(error);
                assert(errors_view(errors@) =~= seq![error@]);
                return Err(errors);
            },
        }
        if crate::parser::tokens::is_token(tokens, TokenType::EndOfFile, index) {
            assert(pa + seq![] =~= pa);
            assert(ps + seq![] =~= ps);
            assert(pf + seq![] =~= pf);
            break;
        } else {
            let mut errors = Vec::new();
            errors.push(ParserError::InvalidBlock { tkn: tokens[index].clone() });
            assert(errors_view(errors@) =~= seq![ParserErrorView::InvalidBlock { tkn: tokens@[index as int]@ }]);
            return Err(errors);
        }
    }
    Ok((accessor_defs, struct_defs, function_defs))
}

/// The names of definitions.
pub open spec fn def_names(defs: Seq<DefOutcome>) -> Seq<Seq<char>> {
    defs.map_values(|d: DefOutcome| d->Defined_name)
}

/// What parsing the body of an accessor defined in `tokens` gives.
pub open spec fn accessor_result(tokens: Seq<Tkn>, d: DefOutcome) -> Option<AccessorState> {
    accessor_body_spec(tokens.subrange(d->Defined_body_start, d->Defined_body_end), 0, empty_accessor_state())
}

/// The token that states the accessibility of a definition in `tokens`.
pub open spec fn acc_token(tokens: Seq<Tkn>, acc: Option<int>) -> Option<TknView> {
    match acc {
        Some(a) => Some(tokens[a].token@),
        None => None,
    }
}

/// What parsing the body of a struct defined in `tokens` gives, where the
/// accessors and structs named are `accs` and `structs`.
pub open spec fn struct_result(tokens: Seq<Tkn>, d: DefOutcome, accs: Seq<Seq<char>>, structs: Seq<Seq<char>>) -> FieldsEnd {
    struct_fields_spec(
        tokens.subrange(d->Defined_body_start, d->Defined_body_end),
        0,
        false,
        Seq::empty(),
        accs,
        structs,
    )
}

/// What parsing the accessibility and arguments of a function defined in
/// `tokens` gives.
pub open spec fn function_result(tokens: Seq<Tkn>, d: FnDefOutcome, accs: Seq<Seq<char>>, structs: Seq<Seq<char>>) -> ArgsEnd {
    match fn_accessibility(acc_token(tokens, d->Defined_acc), accs) {
        None => ArgsEnd::Error(ParserErrorView::AccessorNotDefined { tkn: tokens[d->Defined_acc->0]@ }),
        Some(_) => args_spec(tokens.subrange(d->Defined_args_start, d->Defined_body_start), structs),
    }
}

/// The errors found parsing the accessors `defs`, in order.
pub open spec fn accessor_errors(tokens: Seq<Tkn>, defs: Seq<DefOutcome>) -> Seq<ParserErrorView>
    decreases defs.len(),
{
    if defs.len() == 0 {
        Seq::empty()
    } else {
        accessor_errors(tokens, defs.drop_last()) + accessor_result(tokens, defs.last())->0.errors
    }
}

/// The errors found parsing the structs `defs`, in order.
pub open spec fn struct_errors(tokens: Seq<Tkn>, defs: Seq<DefOutcome>, accs: Seq<Seq<char>>, structs: Seq<Seq<char>>) -> Seq<ParserErrorView>
    decreases defs.len(),
{
    if defs.len() == 0 {
        Seq::empty()
    } else {
        struct_errors(tokens, defs.drop_last(), accs, structs) + match struct_result(tokens, defs.last(), accs, structs) {
            FieldsEnd::Error(e) => seq![e],
            _ => Seq::empty(),
        }
    }
}

/// The errors found parsing the functions `defs`, in order.
pub open spec fn function_errors(tokens: Seq<Tkn>, defs: Seq<FnDefOutcome>, accs: Seq<Seq<char>>, structs: Seq<Seq<char>>) -> Seq<ParserErrorView>
    decreases defs.len(),
{
    if defs.len() == 0 {
        Seq::empty()
    } else {
        function_errors(tokens, defs.drop_last(), accs, structs) + match function_result(tokens, defs.last(), accs, structs) {
            ArgsEnd::Error(e) => seq![e],
            _ => Seq::empty(),
        }
    }
}

/// Whether every definition can be parsed without the parse failing on
/// the tokens running out, a list that never ends, or a definition whose
/// accessibility the parse needs and cannot find.
pub open spec fn defs_parsable(tokens: Seq<Tkn>, d: DefsEnd) -> bool {
    d matches DefsEnd::Defs { accessors, structs, functions } && {
        let an = def_names(accessors);
        let sn = def_names(structs);
        &&& forall|k: int| 0 <= k < accessors.len() ==> #[trigger] accessor_result(tokens, accessors[k]) is Some
        &&& forall|k: int| 0 <= k < structs.len() ==> !(#[trigger] struct_result(tokens, structs[k], an, sn) is Stuck)
        &&& forall|k: int| 0 <= k < structs.len() ==> (#[trigger] struct_result(tokens, structs[k], an, sn) is Fields
            ==> accessor_text(acc_token(tokens, structs[k]->Defined_acc), an) is Some)
        &&& forall|k: int| 0 <= k < functions.len() ==> !(#[trigger] function_result(tokens, functions[k], an, sn) is Stuck)
    }
}

/// An accessor parsed as the accessor defined by `d` in `tokens`.
pub open spec fn accessor_matches(a: Accessor, tokens: Seq<Tkn>, d: DefOutcome) -> bool {
    let st = accessor_result(tokens, d)->0;
    a.name@ == d->Defined_name && strings_view(a.whitelist@) == st.whitelist && strings_view(a.blacklist@)
        == st.blacklist
}

/// A struct parsed as the struct defined by `d` in `tokens`.
pub open spec fn struct_matches(st: Struct, tokens: Seq<Tkn>, d: DefOutcome, accs: Seq<Seq<char>>, structs: Seq<Seq<char>>) -> bool {
    &&& st.name@ == d->Defined_name
    &&& st.location@ == Seq::<char>::empty()
    &&& fields_views(st.fields@) == struct_result(tokens, d, accs, structs)->Fields_0
    &&& st.accessibility@ == accessor_text(acc_token(tokens, d->Defined_acc), accs)->0
}

/// A function, with the tokens of its body, as defined by `d` in `tokens`.
pub open spec fn function_matches(
    f: (FullFunctionDefinition, Vec<Tkn>),
    tokens: Seq<Tkn>,
    d: FnDefOutcome,
    accs: Seq<Seq<char>>,
    structs: Seq<Seq<char>>,
) -> bool {
    let (def, body) = f;
    function_result(tokens, d, accs, structs) matches ArgsEnd::Args(l, rt, ty) && params_view(def.left_args@) == l
        && params_view(def.right_args@) == rt && def.return_type@ == ty && def.name@ == d->Defined_name
        && def.mutable == d->Defined_mutable && def.recursive == d->Defined_recursive && tkns_view(body@) == tkns_view(
        tokens.subrange(d->Defined_body_start, d->Defined_body_end),
    ) && Some(def.accessibility@) == fn_accessibility(acc_token(tokens, d->Defined_acc), accs)
}

/// A parsed program: its accessors, its structs, and its functions, each
/// with the tokens of its body, which are parsed as statements later.
pub struct Program {
    pub accessors: Vec<Accessor>,
    pub structs: Vec<Struct>,
    pub functions: Vec<(FullFunctionDefinition, Vec<Tkn>)>,
}

impl Program {
    /// Whether the program has an entry point: a function named `main`.
    pub fn has_entry_point(&self) -> (r: bool)
        ensures
            r == exists|k: int| 0 <= k < self.functions@.len() && (#[trigger] self.functions@[k]).0.name@ == "main"@,
    {
        proof {
            reveal_strlit("main");
        }
        let main = String::from_str("main");
        let mut k: usize = 0;
        while k < self.functions.len()
            invariant
                k <= self.functions@.len(),
                main@ == "main"@,
                forall|j: int| 0 <= j < k ==> (#[trigger] self.functions@[j]).0.name@ != "main"@,
            decreases self.functions@.len() - k,
        {
            if self.functions[k].0.name == main {
                return true;
            }
            k += 1;
        }
        false
    }
}

/// The errors that parsing the definitions of `tokens` gives (see
/// [`parse`]), or `None` where they parse without one.
#[verifier::opaque]
pub open spec fn definition_errors(tokens: Seq<Tkn>) -> Option<Seq<ParserErrorView>> {
    match defs_spec(tokens, 0) {
        DefsEnd::Failed(es) => Some(es),
        DefsEnd::Defs { accessors, structs, functions } => {
            let an = def_names(accessors);
            let sn = def_names(structs);
            let errs = accessor_errors(tokens, accessors) + struct_errors(tokens, structs, an, sn) + function_errors(
                tokens,
                functions,
                an,
                sn,
            );
            if errs.len() == 0 {
                None
            } else {
                Some(errs)
            }
        },
        DefsEnd::Stuck => None,
    }
}

/// Whether `p` is the program that [`parse`] gives for `tokens`: its
/// definitions parse without an error and `p` holds each of them.
#[verifier::opaque]
pub open spec fn program_matches(tokens: Seq<Tkn>, p: Program) -> bool {
    match defs_spec(tokens, 0) {
        DefsEnd::Defs { accessors, structs, functions } => {
            let an = def_names(accessors);
            let sn = def_names(structs);
            let errs = accessor_errors(tokens, accessors) + struct_errors(tokens, structs, an, sn) + function_errors(
                tokens,
                functions,
                an,
                sn,
            );
            errs.len() == 0 && p.accessors@.len() == accessors.len() && p.structs@.len() == structs.len()
                && p.functions@.len() == functions.len() && (forall|k: int|
                0 <= k < accessors.len() ==> accessor_matches(#[trigger] p.accessors@[k], tokens, accessors[k])) && (
            forall|k: int|
                0 <= k < structs.len() ==> struct_matches(#[trigger] p.structs@[k], tokens, structs[k], an, sn)) && (
            forall|k: int|
                0 <= k < functions.len() ==> function_matches(#[trigger] p.functions@[k], tokens, functions[k], an, sn))
        },
        _ => false,
    }
}

/// What [`parse`] gives, in the terms of [`definition_errors`] and
/// [`program_matches`].
pub proof fn lemma_parse_outcome(tokens: Seq<Tkn>, r: Result<Program, Vec<ParserError>>)
    requires
        !(defs_spec(tokens, 0) is Stuck),
        match defs_spec(tokens, 0) {
            DefsEnd::Failed(es) => r matches Err(v) && errors_view(v@) == es,
            DefsEnd::Defs { accessors, structs, functions } => {
                let an = def_names(accessors);
                let sn = def_names(structs);
                let errs = accessor_errors(tokens, accessors) + struct_errors(tokens, structs, an, sn)
                    + function_errors(tokens, functions, an, sn);
                if errs.len() == 0 {
                    r matches Ok(p) && p.accessors@.len() == accessors.len() && p.structs@.len() == structs.len()
                        && p.functions@.len() == functions.len() && (forall|k: int|
                        0 <= k < accessors.len() ==> accessor_matches(#[trigger] p.accessors@[k], tokens, accessors[k]))
                        && (forall|k: int|
                        0 <= k < structs.len() ==> struct_matches(#[trigger] p.structs@[k], tokens, structs[k], an, sn))
                        && (forall|k: int|
                        0 <= k < functions.len() ==> function_matches(#[trigger] p.functions@[k], tokens, functions[k], an, sn))
                } else {
                    r matches Err(v) && errors_view(v@) == errs
                }
            },
            DefsEnd::Stuck => false,
        },
    ensures
        match definition_errors(tokens) {
            Some(es) => r matches Err(v) && errors_view(v@) == es,
            None => r matches Ok(p) && program_matches(tokens, p),
        },
{
    reveal(definition_errors);
    reveal(program_matches);
}

/// A program with the same accessors, structs and functions as one that
/// matches `tokens` matches them too.
pub proof fn lemma_program_matches_same_parts(tokens: Seq<Tkn>, p: Program, q: Program)
    requires
        program_matches(tokens, p),
        q.accessors@ == p.accessors@,
        q.structs@ == p.structs@,
        q.functions@ == p.functions@,
    ensures
        program_matches(tokens, q),
{
    reveal(program_matches);
}

/// Parses a program: reads its definitions (see [`defs_spec`]), then
/// parses each accessor, each struct and each function's accessibility and
/// arguments, gathering the errors of all of them in that order.  The
/// program is returned where there are none.
#[verifier::rlimit(60)]
pub fn parse(tokens: &[Tkn]) -> (r: Result<Program, Vec<ParserError>>)
    requires
        tokens@.len() < usize::MAX - 8,
        !(defs_spec(tokens@, 0) is Stuck),
        defs_spec(tokens@, 0) is Defs ==> defs_parsable(tokens@, defs_spec(tokens@, 0)),
    ensures
        match defs_spec(tokens@, 0) {
            DefsEnd::Failed(es) => r matches Err(v) && errors_view(v@) == es,
            DefsEnd::Defs { accessors, structs, functions } => {
                let an = def_names(accessors);
                let sn = def_names(structs);
                let errs = accessor_errors(tokens@, accessors) + struct_errors(tokens@, structs, an, sn)
                    + function_errors(tokens@, functions, an, sn);
                if errs.len() == 0 {
                    r matches Ok(p) && p.accessors@.len() == accessors.len() && p.structs@.len() == structs.len()
                        && p.functions@.len() == functions.len() && (forall|k: int|
                        0 <= k < accessors.len() ==> accessor_matches(#[trigger] p.accessors@[k], tokens@, accessors[k]))
                        && (forall|k: int|
                        0 <= k < structs.len() ==> struct_matches(#[trigger] p.structs@[k], tokens@, structs[k], an, sn))
                        && (forall|k: int|
                        0 <= k < functions.len() ==> function_matches(
                            #[trigger] p.functions@[k],
                            tokens@,
                            functions[k],
                            an,
                            sn,
                        ))
                } else {
                    r matches Err(v) && errors_view(v@) == errs
                }
            },
            DefsEnd::Stuck => false,
        },
{
    let (accessor_defs, struct_defs, mut function_defs) = match define_all(tokens) {
        Ok(d) => d,
        Err(e) => {
            return Err(e);
        },
    };
    let ghost g = defs_spec(tokens@, 0);
    let ghost accs = g->Defs_accessors;
    let ghost sts = g->Defs_structs;
    let ghost fns = g->Defs_functions;
    let ghost an = def_names(accs);
    let ghost sn = def_names(sts);

    let mut accessor_names: Vec<&str> = Vec::new();
    let mut k: usize = 0;
    while k < accessor_defs.len()
        invariant
            k <= accessor_defs@.len() == accs.len(),
            forall|j: int| 0 <= j < accs.len() ==> accessor_def_view(tokens@, #[trigger] accessor_defs@[j], accs[j]),
            names_view(accessor_names@) == def_names(accs.take(k as int)),
        decreases accessor_defs@.len() - k,
    {
        assert(accessor_def_view(tokens@, accessor_defs@[k as int], accs[k as int]));
        let ghost before = accessor_names@;
        accessor_names.push(accessor_defs[k].name.as_str());
        assert(names_view(accessor_names@) =~= names_view(before).push(accs[k as int]->Defined_name));
        k += 1;
        assert(def_names(accs.take(k as int)) =~= def_names(accs.take(k - 1)).push(accs[k - 1]->Defined_name));
    }
    assert(accs.take(k as int) =~= accs);
    let mut struct_names: Vec<&str> = Vec::new();
    let mut k: usize = 0;
    while k < struct_defs.len()
        invariant
            k <= struct_defs@.len() == sts.len(),
            forall|j: int| 0 <= j < sts.len() ==> struct_def_view(tokens@, #[trigger] struct_defs@[j], sts[j]),
            names_view(struct_names@) == def_names(sts.take(k as int)),
        decreases struct_defs@.len() - k,
    {
        assert(struct_def_view(tokens@, struct_defs@[k as int], sts[k as int]));
        let ghost before = struct_names@;
        struct_names.push(struct_defs[k].name.as_str());
        assert(names_view(struct_names@) =~= names_view(before).push(sts[k as int]->Defined_name));
        k += 1;
        assert(def_names(sts.take(k as int)) =~= def_names(sts.take(k - 1)).push(sts[k - 1]->Defined_name));
    }
    assert(sts.take(k as int) =~= sts);

    let mut errors: Vec<ParserError> = Vec::new();
    let mut accessor_buffer: Vec<Accessor> = Vec::new();
    let mut k: usize = 0;
    while k < accessor_defs.len()
        invariant
            tokens@.len() < usize::MAX - 8,
            k <= accessor_defs@.len() == accs.len(),
            defs_parsable(tokens@, g),
            g == (DefsEnd::Defs { accessors: accs, structs: sts, functions: fns }),
            forall|j: int| 0 <= j < accs.len() ==> accessor_def_view(tokens@, #[trigger] accessor_defs@[j], accs[j]),
            errors_view(errors@) == accessor_errors(tokens@, accs.take(k as int)),
            accessor_errors(tokens@, accs.take(k as int)).len() == 0 ==> accessor_buffer@.len() == k,
            accessor_errors(tokens@, accs.take(k as int)).len() == 0 ==> forall|j: int|
                0 <= j < k ==> accessor_matches(#[trigger] accessor_buffer@[j], tokens@, accs[j]),
        decreases accessor_defs@.len() - k,
    {
        let ghost d = accs[k as int];
        assert(accs.take(k + 1).drop_last() =~= accs.take(k as int));
        assert(accessor_def_view(tokens@, accessor_defs@[k as int], d));
        assert(accessor_result(tokens@, d) is Some);
        match parse_accessor(&accessor_defs[k]) {
            Ok(a) => {
                accessor_buffer.push(a);
            },
            Err(mut e) => {
                let ghost before = errors@;
                errors.append(&mut e);
                assert(errors_view(errors@) =~= errors_view(before) + accessor_result(tokens@, d)->0.errors);
            },
        }
        k += 1;
    }
    assert(accs.take(k as int) =~= accs);

    let mut struct_buffer: Vec<Struct> = Vec::new();
    let mut k: usize = 0;
    while k < struct_defs.len()
        invariant
            tokens@.len() < usize::MAX - 8,
            k <= struct_defs@.len() == sts.len(),
            defs_parsable(tokens@, g),
            g == (DefsEnd::Defs { accessors: accs, structs: sts, functions: fns }),
            an == def_names(accs),
            sn == def_names(sts),
            names_view(accessor_names@) == an,
            names_view(struct_names@) == sn,
            forall|j: int| 0 <= j < sts.len() ==> struct_def_view(tokens@, #[trigger] struct_defs@[j], sts[j]),
            errors_view(errors@) == accessor_errors(tokens@, accs) + struct_errors(tokens@, sts.take(k as int), an, sn),
            struct_errors(tokens@, sts.take(k as int), an, sn).len() == 0 ==> struct_buffer@.len() == k,
            struct_errors(tokens@, sts.take(k as int), an, sn).len() == 0 ==> forall|j: int|
                0 <= j < k ==> struct_matches(#[trigger] struct_buffer@[j], tokens@, sts[j], an, sn),
        decreases struct_defs@.len() - k,
    {
        let ghost d = sts[k as int];
        assert(sts.take(k + 1).drop_last() =~= sts.take(k as int));
        assert(struct_def_view(tokens@, struct_defs@[k as int], d));
        assert(!(struct_result(tokens@, d, an, sn) is Stuck));
        match parse_struct(&struct_defs[k], accessor_names.as_slice(), struct_names.as_slice()) {
            Ok(st) => {
                struct_buffer.push(st);
            },
            Err(e) => {
                let ghost before = errors@;
                errors.push(e);
                assert(errors_view(errors@) =~= errors_view(before) + seq![e@]);
            },
        }
        k += 1;
    }
    assert(sts.take(k as int) =~= sts);

    let ghost all_fn_defs = function_defs@;
    let n = function_defs.len();
    let mut function_buffer: Vec<(FullFunctionDefinition, Vec<Tkn>)> = Vec::new();
    let mut k: usize = 0;
    while k < n
        invariant
            tokens@.len() < usize::MAX - 8,
            k <= n == all_fn_defs.len() == fns.len(),
            function_defs@ == all_fn_defs.subrange(k as int, n as int),
            defs_parsable(tokens@, g),
            g == (DefsEnd::Defs { accessors: accs, structs: sts, functions: fns }),
            an == def_names(accs),
            sn == def_names(sts),
            names_view(accessor_names@) == an,
            names_view(struct_names@) == sn,
            forall|j: int| 0 <= j < fns.len() ==> function_def_view(tokens@, #[trigger] all_fn_defs[j], fns[j]),
            errors_view(errors@) == accessor_errors(tokens@, accs) + struct_errors(tokens@, sts, an, sn)
                + function_errors(tokens@, fns.take(k as int), an, sn),
            function_errors(tokens@, fns.take(k as int), an, sn).len() == 0 ==> function_buffer@.len() == k,
            function_errors(tokens@, fns.take(k as int), an, sn).len() == 0 ==> forall|j: int|
                0 <= j < k ==> function_matches(#[trigger] function_buffer@[j], tokens@, fns[j], an, sn),
        decreases n - k,
    {
        let ghost d = fns[k as int];
        assert(fns.take(k + 1).drop_last() =~= fns.take(k as int));
        let def = function_defs.remove(0);
        assert(def == all_fn_defs[k as int]);
        assert(function_def_view(tokens@, def, d));
        assert(!(function_result(tokens@, d, an, sn) is Stuck));
        match FullFunctionDefinition::from_partial_fn_def(def, accessor_names.as_slice(), struct_names.as_slice()) {
            Ok(f) => {
                function_buffer.push(f);
            },
            Err(e) => {
                let ghost before = errors@;
                errors.push(e);
                assert(errors_view(errors@) =~= errors_view(before) + seq![e@]);
            },
        }
        k += 1;
        assert(function_defs@ =~= all_fn_defs.subrange(k as int, n as int));
    }
    assert(fns.take(k as int) =~= fns);
    if errors.len() == 0 {
        Ok(Program { accessors: accessor_buffer, structs: struct_buffer, functions: function_buffer })
    } else {
        Err(errors)
    }
}

} // verus!
