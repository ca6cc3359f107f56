//! Parsing the atoms of expressions: literals, names, calls, struct values
//! and fields.
use vstd::prelude::*;
use crate::lexer::token::{TknType, TknView, TokenType};
use crate::parser::expr::{ExprType, ExprTypeCons, Literal, TypeCells};
use crate::parser::operators::UnaryOperator;
use crate::parser::parser_error::ParserError;
use crate::parser::tokens::is_token;
use crate::parser::expr::{find_struct_index, fields_view, lemma_fields_view};
use crate::parser::functions::BuiltInFunction;

use crate::parser::expr_grammar::{Ctx, prefix_op, mk, atom_spec, atom_rest, anon_lit};
use crate::parser::expr_parse::{Expression, ExpressionData, ExprDataView, expr_view, data_view, dfields_view, get_in_stack, get_function, ExprContext, outcome, param_types, find_field_index, find_type_field, read_prefix_op, seen_view, token_types_from};
use crate::parser::parse_group::{group_exec, array_exec};
use crate::parser::parse_struct::struct_lit_exec;
use crate::parser::parse_set::set_exec;

verus! {

/// Parses an atom at `i` (see [`atom_spec`]).  On an error the position
/// stays at `i`: an atom that fails consumes no tokens.
pub(crate) fn atom_exec(cx: &ExprContext, i: usize, cells: &mut TypeCells) -> (r: (Result<Expression, ParserError>, usize))
    requires
        !(atom_spec(cx@, i as int, old(cells)@) is Stuck),
    ensures
        outcome(r.0, r.1 as int, final(cells)@) == atom_spec(cx@, i as int, old(cells)@),
        final(cells)@.len() >= old(cells)@.len(),
        i < cx.tokens@.len(),
        r.0 is Err ==> r.1 == i,
    decreases cx.tokens@.len() - i, 2int, 0int,
{
    let (r, p) = atom_parts_exec(cx, i, cells);
    match r {
        Ok(e) => (Ok(e), p),
        Err(x) => (Err(x), i),
    }
}

/// Parses an atom at `i` (see [`atom_spec`]); on an error, the position
/// where the error was found.
#[verifier::rlimit(40)]
fn atom_parts_exec(cx: &ExprContext, i: usize, cells: &mut TypeCells) -> (r: (Result<Expression, ParserError>, usize))
    requires
        !(atom_spec(cx@, i as int, old(cells)@) is Stuck),
    ensures
        outcome(r.0, r.1 as int, final(cells)@) == atom_spec(cx@, i as int, old(cells)@),
        final(cells)@.len() >= old(cells)@.len(),
        i < cx.tokens@.len(),
    decreases cx.tokens@.len() - i, 1int, 1int,
{
    proof {
        reveal(atom_spec);
    }
    let ghost ctx = cx@;
    let n = cx.tokens.len();
    let (op, p) = read_prefix_op(cx.tokens, i);
    assert(prefix_op(ctx, i as int) == prefix_op(
        Ctx { tokens: cx.tokens@, structs: seq![], fns: seq![], vars: seq![], line: 0 },
        i as int,
    ));
    match &cx.tokens[p].token {
        TokenType::Identifier(name) => {
            if let Some(f) = get_function(cx.functions, name) {
                let fdef = &cx.functions[f];
                let fty = ExprType::Function {
                    name: fdef.name.clone(),
                    return_type: Box::new(fdef.return_type.copy()),
                    left_args: param_types(&fdef.left_args),
                    right_args: param_types(&fdef.right_args),
                };
                let c = ExprTypeCons::new(cells, fty);
                return atom_rest_exec(cx, op, p + 1, ExpressionData::Identifier(name.clone()), c, cells);
            }
            if let Some(b) = BuiltInFunction::from_name(name.as_str()) {
                let c = ExprTypeCons::new(cells, b.get_type());
                return atom_rest_exec(cx, op, p + 1, ExpressionData::Identifier(name.clone()), c, cells);
            }
            if let Some(si) = find_struct_index(cx.structs, name) {
                if is_token(cx.tokens, TokenType::OpenCurlyBrace, p + 1) {
                    assert(dfields_view(Seq::<(String, ExpressionData)>::empty()) =~= seq![]);
                    assert(seen_view(Seq::<(String, usize)>::empty()) =~= seq![]);
                    return struct_lit_exec(cx, i, op, si, p + 2, false, Vec::new(), Vec::new(), cells);
                }
                return (
                    Err(ParserError::ExpectedToken { tkn: cx.tokens[p + 1].clone(), expected: TokenType::OpenCurlyBrace }),
                    p + 1,
                );
            }
            if let Some(v) = get_in_stack(cx.variables, name) {
                let c = cx.variables[v].1.expr_type.clone();
                return atom_rest_exec(cx, op, p + 1, ExpressionData::Identifier(name.clone()), c, cells);
            }
            (Err(ParserError::VariableDoesNotExist { tkn: cx.tokens[p].clone() }), p)
        },
        TokenType::OpenParen => {
            let (r, q) = group_exec(cx, p, cells);
            match r {
                Ok(e) => {
                    let Expression { line: _, expr_data, expr_type } = e;
                    atom_rest_exec(cx, op, q, *expr_data, expr_type, cells)
                },
                Err(x) => (Err(x), q),
            }
        },
        TokenType::OpenSquareBracket => {
            let (r, q) = array_exec(cx, p, cells);
            match r {
                Ok(e) => {
                    let Expression { line: _, expr_data, expr_type } = e;
                    atom_rest_exec(cx, op, q, *expr_data, expr_type, cells)
                },
                Err(x) => (Err(x), q),
            }
        },
        TokenType::Dollar => {
            let (r, q) = array_exec(cx, p, cells);
            match r {
                Ok(e) => {
                    let Expression { line: _, expr_data, expr_type } = e;
                    atom_rest_exec(cx, op, q, *expr_data, expr_type, cells)
                },
                Err(_) => {
                    let (r2, q2) = group_exec(cx, p, cells);
                    match r2 {
                        Ok(e) => {
                            let Expression { line: _, expr_data, expr_type } = e;
                            atom_rest_exec(cx, op, q2, *expr_data, expr_type, cells)
                        },
                        Err(_) => (Err(ParserError::InvalidDollarExpression { tkn: cx.tokens[p].clone() }), p),
                    }
                },
            }
        },
        TokenType::OpenCurlyBrace => {
            assert(dfields_view(Seq::<(String, ExpressionData)>::empty()) =~= seq![]);
            assert(fields_view(Seq::<(String, ExprType)>::empty()) =~= seq![]);
            anon_lit_exec(cx, i, op, p + 1, false, Vec::new(), Vec::new(), cells)
        },
        _ => {
            let lit: Option<(Literal, ExprType)> = match &cx.tokens[p].token {
                TokenType::IntegerLiteral { value, .. } => Some(
                    (
                        Literal::IntegerLiteral(*value),
                        if *value >= 0 {
                            ExprType::AmbiguousPosInteger
                        } else {
                            ExprType::AmbiguousNegInteger
                        },
                    ),
                ),
                TokenType::FloatLiteral { text, .. } => Some((Literal::FloatLiteral(text.clone()), ExprType::AmbiguousFloat)),
                TokenType::CharLiteral(ch) => Some((Literal::CharLiteral(*ch), ExprType::Char)),
                TokenType::StringLiteral(s) => Some((Literal::StringLiteral(s.clone()), ExprType::StringLiteral)),
                TokenType::BooleanLiteral(b) => Some((Literal::BooleanLiteral(*b), ExprType::Bool)),
                _ => None,
            };
            match lit {
                Some((l, t)) => {
                    let c = ExprTypeCons::new(cells, t);
                    atom_rest_exec(cx, op, p + 1, ExpressionData::Literal(l), c, cells)
                },
                None => (Err(ParserError::InvalidExpressionAtom { tkn: cx.tokens[p].clone() }), p),
            }
        },
    }
}

/// Reads `.field` accesses after an atom, then applies the prefix
/// operator (see [`atom_rest`]).
pub(crate) fn atom_rest_exec(
    cx: &ExprContext,
    op: Option<UnaryOperator>,
    p: usize,
    data: ExpressionData,
    ty: ExprTypeCons,
    cells: &mut TypeCells,
) -> (r: (Result<Expression, ParserError>, usize))
    requires
        !(atom_rest(cx@, op, p as int, data_view(data), ty@, old(cells)@) is Stuck),
    ensures
        outcome(r.0, r.1 as int, final(cells)@) == atom_rest(cx@, op, p as int, data_view(data), ty@, old(cells)@),
        final(cells)@.len() >= old(cells)@.len(),
    decreases cx.tokens@.len() - p, 0int, 0int,
{
    proof {
        reveal(atom_rest);
    }
    let ghost ctx = cx@;
    let n = cx.tokens.len();
    if is_token(cx.tokens, TokenType::Dot, p) {
        let q = p + 1;
        let t = ty.clone_inner(cells);
        if q < cx.tokens.len() {
            if let TokenType::Identifier(fname) = &cx.tokens[q].token {
                match &t {
                    ExprType::Custom { ident } => {
                        if let Some(si) = find_struct_index(cx.structs, ident) {
                            if let Some(fi) = find_field_index(&cx.structs[si].fields, fname) {
                                let field = &cx.structs[si].fields[fi];
                                let nty = ExprTypeCons::new(cells, field.field_type.copy());
                                let inner = Expression { line: cx.line, expr_data: Box::new(data), expr_type: ty };
                                let nd = ExpressionData::CustomField {
                                    data: Box::new(inner),
                                    field_name: field.field_name.clone(),
                                    field_type: field.field_type.copy(),
                                };
                                return atom_rest_exec(cx, op, q + 1, nd, nty, cells);
                            }
                        }
                    },
                    ExprType::AnonymousCustom { fields } => {
                        if let Some(k) = find_type_field(fields, fname) {
                            proof {
                                lemma_fields_view(fields@);
                            }
                            let nty = ExprTypeCons::new(cells, fields[k].1.copy());
                            let inner = Expression { line: cx.line, expr_data: Box::new(data), expr_type: ty };
                            let nd = ExpressionData::AnonymousCustomField {
                                data: Box::new(inner),
                                field_name: fields[k].0.clone(),
                            };
                            return atom_rest_exec(cx, op, q + 1, nd, nty, cells);
                        }
                    },
                    _ => {},
                }
            }
        }
        return (Err(ParserError::InvalidDotExpression { tkn: cx.tokens[p].clone(), expr_type: t }), p);
    }
    match op {
        None => (Ok(Expression { line: cx.line, expr_data: Box::new(data), expr_type: ty }), p),
        Some(o) => {
            let ghost dv = data_view(data);
            let inner = Expression { line: cx.line, expr_data: Box::new(data), expr_type: ty.clone() };
            assert(expr_view(inner) == mk(ctx, dv, ty@));
            let outer = Expression {
                line: cx.line,
                expr_data: Box::new(ExpressionData::UnaryOp(o, Box::new(inner))),
                expr_type: ty,
            };
            assert(expr_view(outer) == mk(ctx, ExprDataView::UnaryOp(o, Box::new(mk(ctx, dv, ty@))), ty@));
            (Ok(outer), p)
        },
    }
}

/// Reads the fields of a struct value without a name (see [`anon_lit`]).
#[verifier::rlimit(60)]
pub(crate) fn anon_lit_exec(
    cx: &ExprContext,
    i: usize,
    op: Option<UnaryOperator>,
    p: usize,
    need_comma: bool,
    datas: Vec<(String, ExpressionData)>,
    types: Vec<(String, ExprType)>,
    cells: &mut TypeCells,
) -> (r: (Result<Expression, ParserError>, usize))
    requires
        i <= p,
        !(anon_lit(cx@, i as int, op, p as int, need_comma, dfields_view(datas@), fields_view(types@), old(cells)@) is Stuck),
    ensures
        outcome(r.0, r.1 as int, final(cells)@) == anon_lit(
            cx@,
            i as int,
            op,
            p as int,
            need_comma,
            dfields_view(datas@),
            fields_view(types@),
            old(cells)@,
        ),
        final(cells)@.len() >= old(cells)@.len(),
    decreases cx.tokens@.len() - p, 4int, 0int,
{
    proof {
        reveal(anon_lit);
    }
    let ghost ctx = cx@;
    let n = cx.tokens.len();
    let mut datas = datas;
    let mut types = types;
    if is_token(cx.tokens, TokenType::CloseCurlyBrace, p) {
        let c = ExprTypeCons::new(cells, ExprType::AnonymousCustom { fields: types });
        return atom_rest_exec(cx, op, p + 1, ExpressionData::AnonymousCustom { fields: datas }, c, cells);
    }
    if need_comma {
        let mut expected: Vec<TknType> = Vec::new();
        expected.push(TokenType::Comma);
        expected.push(TokenType::CloseCurlyBrace);
        assert(expected@.map_values(|t: TknType| t@) =~= seq![TknView::Comma, TknView::CloseCurlyBrace]);
        let received = token_types_from(cx.tokens, i, 2);
        return (Err(ParserError::ExpectedTokens { tkn: cx.tokens[p].clone(), received, expected }), p);
    }
    match &cx.tokens[p].token {
        TokenType::Identifier(name) => {
            let p1 = p + 1;
            if !is_token(cx.tokens, TokenType::Colon, p1) {
                return (Err(ParserError::ExpectedToken { tkn: cx.tokens[p1].clone(), expected: TokenType::Colon }), p1);
            }
            let (r, q) = set_exec(cx, p1 + 1, cells);
            match r {
                Err(x) => (Err(x), q),
                Ok(e) => {
                    let t = e.expr_type.clone_inner(cells);
                    let comma = is_token(cx.tokens, TokenType::Comma, q);
                    let Expression { line: _, expr_data, expr_type: _ } = e;
                    let ghost db = datas@;
                    let ghost tb = types@;
                    datas.push((name.clone(), *expr_data));
                    types.push((name.clone(), t));
                    assert(datas@.drop_last() =~= db);
                    assert(types@.drop_last() =~= tb);
                    let next = if comma {
                        q + 1
                    } else {
                        q
                    };
                    anon_lit_exec(cx, i, op, next, need_comma || !comma, datas, types, cells)
                },
            }
        },
        _ => (Err(ParserError::ExpectedIdentifier { tkn: cx.tokens[p].clone() }), p),
    }
}

} // verus!
