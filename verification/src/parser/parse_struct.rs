//! Parsing the value of a struct written field by field.
use vstd::prelude::*;
use crate::lexer::token::{Tkn, TknView, TokenType};
use crate::parser::expr::{ExprType, ExprTypeCons, TypeCells};
use crate::parser::operators::UnaryOperator;
use crate::parser::parser_error::ParserError;
use crate::parser::tokens::{clone_tokens, is_token, token_at_matches};

use crate::parser::expr_grammar::{room, valid_ty, cells_match, tok, find_field, find_named, struct_lit};
use crate::parser::expr_parse::{Expression, ExpressionData, ExprDataView, data_view, dfields_view, get_in_stack, ExprContext, outcome, lemma_valid_grows, find_field_index, seen_view, find_seen};
use crate::parser::parse_atom::atom_rest_exec;
use crate::parser::parse_set::set_exec;

verus! {

/// Reads the fields of a struct value (see [`struct_lit`]).
pub(crate) fn struct_lit_exec(
    cx: &ExprContext,
    i: usize,
    op: Option<UnaryOperator>,
    si: usize,
    p: usize,
    need_comma: bool,
    fields: Vec<(String, ExpressionData)>,
    seen: Vec<(String, usize)>,
    cells: &mut TypeCells,
) -> (r: (Result<Expression, ParserError>, usize))
    requires
        !(struct_lit(cx@, i as int, op, si as int, p as int, need_comma, dfields_view(fields@), seen_view(seen@), old(cells)@)
            is Stuck),
    ensures
        outcome(r.0, r.1 as int, final(cells)@) == struct_lit(
            cx@,
            i as int,
            op,
            si as int,
            p as int,
            need_comma,
            dfields_view(fields@),
            seen_view(seen@),
            old(cells)@,
        ),
        final(cells)@.len() >= old(cells)@.len(),
    decreases cx.tokens@.len() - p, 4int, 0int,
{
    let ghost ctx = cx@;
    let n = cx.tokens.len();
    let sdef = &cx.structs[si];
    if p < n {
        if let TokenType::Identifier(fname) = &cx.tokens[p].token {
            if need_comma {
                return (Err(ParserError::ExpectedToken { tkn: cx.tokens[p].clone(), expected: TokenType::Comma }), p);
            }
            let fi = match find_field_index(&sdef.fields, fname) {
                None => {
                    return (
                        Err(ParserError::FieldDoesNotExist { tkn: cx.tokens[p].clone(), custom_struct: sdef.name.clone() }),
                        p,
                    );
                },
                Some(fi) => fi,
            };
            let field = &sdef.fields[fi];
            let p1 = p + 1;
            if let Some(k) = find_seen(&seen, &field.field_name) {
                return (
                    Err(ParserError::AlreadyDefinedField {
                        tkn: cx.tokens[p1].clone(),
                        defined_field: cx.tokens[seen[k].1].clone(),
                    }),
                    p1,
                );
            }
            if is_token(cx.tokens, TokenType::Colon, p1) {
                return struct_field_exec(cx, i, op, si, p, fi, fields, seen, cells);
            } else {
                return struct_shorthand_exec(cx, i, op, si, p, fi, fields, seen, cells);
            }
        }
    }
    if is_token(cx.tokens, TokenType::CloseCurlyBrace, p) {
        let c = ExprTypeCons::new(cells, ExprType::Custom { ident: sdef.name.clone() });
        return atom_rest_exec(cx, op, p + 1, ExpressionData::Custom { fields }, c, cells);
    }
    (Err(ParserError::ExpectedToken { tkn: cx.tokens[p].clone(), expected: TokenType::CloseCurlyBrace }), p)
}

/// Reads a field `name: expression` of a struct value at `p`, where `name`
/// is the `fi`-th field and not yet given, then the fields after it.
fn struct_field_exec(
    cx: &ExprContext,
    i: usize,
    op: Option<UnaryOperator>,
    si: usize,
    p: usize,
    fi: usize,
    fields: Vec<(String, ExpressionData)>,
    seen: Vec<(String, usize)>,
    cells: &mut TypeCells,
) -> (r: (Result<Expression, ParserError>, usize))
    requires
        si < cx.structs@.len(),
        p < cx.tokens@.len(),
        tok(cx@, p as int) is Identifier,
        fi < cx.structs@[si as int].fields@.len(),
        find_field(cx.structs@[si as int].fields@, tok(cx@, p as int)->Identifier_0) == Some(fi as int),
        find_named(seen_view(seen@), cx.structs@[si as int].fields@[fi as int].field_name@) is None,
        token_at_matches(cx.tokens@, p + 1, TknView::Colon),
        !(struct_lit(cx@, i as int, op, si as int, p as int, false, dfields_view(fields@), seen_view(seen@), old(cells)@)
            is Stuck),
    ensures
        outcome(r.0, r.1 as int, final(cells)@) == struct_lit(
            cx@,
            i as int,
            op,
            si as int,
            p as int,
            false,
            dfields_view(fields@),
            seen_view(seen@),
            old(cells)@,
        ),
        final(cells)@.len() >= old(cells)@.len(),
    decreases cx.tokens@.len() - p, 3int, 0int,
{
    let ghost ctx = cx@;
    let ghost c0 = cells@;
    let ghost fv = dfields_view(fields@);
    let ghost sv = seen_view(seen@);
    let n = cx.tokens.len();
    let mut fields = fields;
    let mut seen = seen;
    let field = &cx.structs[si].fields[fi];
    let start = p + 2;
    let (r, q) = set_exec(cx, start, cells);
    let e = match r {
        Err(x) => {
            return (Err(x), q);
        },
        Ok(e) => e,
    };
    let ghost c2 = cells@;
    let ghost ex = e@;
    assert(room(c2) && valid_ty(c2, ex.ty) && start <= q <= n);
    let Expression { line: _, expr_data, expr_type: ety } = e;
    let mut ety = ety;
    let ghost tcv = seq![c2.len() as usize];
    let ghost c3 = c2.push(field.field_type@);
    let mut tc = ExprTypeCons::new(cells, field.field_type.copy());
    assert(cells@ == c3);
    proof {
        lemma_valid_grows(c2, c3, ex.ty);
    }
    match ety.match_type(&mut tc, cells) {
        None => {
            assert(cells_match(c3, ex.ty, tcv) matches Some((false, _)));
            let calculated_type = ety.clone_inner(cells);
            (
                Err(ParserError::CouldNotMatchType {
                    tkns: clone_tokens(cx.tokens, start, q),
                    calculated_type,
                    expected_type: field.field_type.copy(),
                }),
                q,
            )
        },
        Some(_) => {
            assert(cells_match(c3, ex.ty, tcv) == Some((true, cells@)));
            let comma = is_token(cx.tokens, TokenType::Comma, q);
            let ghost fb = fields@;
            let ghost sb = seen@;
            fields.push((field.field_name.clone(), *expr_data));
            seen.push((field.field_name.clone(), p));
            assert(fields@.drop_last() =~= fb);
            assert(dfields_view(fields@) == fv.push((field.field_name@, ex.data)));
            assert(seen_view(seen@) =~= sv.push((field.field_name@, p as int)));
            let next = if comma {
                q + 1
            } else {
                q
            };
            struct_lit_exec(cx, i, op, si, next, !comma, fields, seen, cells)
        },
    }
}

/// Reads a field given by its name alone at `p`, whose value is the
/// variable of that name, where the name is the `fi`-th field and not yet
/// given; then the fields after it.
fn struct_shorthand_exec(
    cx: &ExprContext,
    i: usize,
    op: Option<UnaryOperator>,
    si: usize,
    p: usize,
    fi: usize,
    fields: Vec<(String, ExpressionData)>,
    seen: Vec<(String, usize)>,
    cells: &mut TypeCells,
) -> (r: (Result<Expression, ParserError>, usize))
    requires
        si < cx.structs@.len(),
        p < cx.tokens@.len(),
        tok(cx@, p as int) is Identifier,
        fi < cx.structs@[si as int].fields@.len(),
        find_field(cx.structs@[si as int].fields@, tok(cx@, p as int)->Identifier_0) == Some(fi as int),
        find_named(seen_view(seen@), cx.structs@[si as int].fields@[fi as int].field_name@) is None,
        !token_at_matches(cx.tokens@, p + 1, TknView::Colon),
        !(struct_lit(cx@, i as int, op, si as int, p as int, false, dfields_view(fields@), seen_view(seen@), old(cells)@)
            is Stuck),
    ensures
        outcome(r.0, r.1 as int, final(cells)@) == struct_lit(
            cx@,
            i as int,
            op,
            si as int,
            p as int,
            false,
            dfields_view(fields@),
            seen_view(seen@),
            old(cells)@,
        ),
        final(cells)@.len() >= old(cells)@.len(),
    decreases cx.tokens@.len() - p, 3int, 0int,
{
    let ghost ctx = cx@;
    let ghost c0 = cells@;
    let ghost fv = dfields_view(fields@);
    let ghost sv = seen_view(seen@);
    let n = cx.tokens.len();
    let mut fields = fields;
    let mut seen = seen;
    let field = &cx.structs[si].fields[fi];
    let p1 = p + 1;
    match get_in_stack(cx.variables, &field.field_name) {
        None => {
            (Err(ParserError::FieldExpressionNotDefined { tkn: cx.tokens[p1].clone(), field: field.field_name.clone() }), p1)
        },
        Some(v) => {
            let mut vty = cx.variables[v].1.expr_type.clone();
            let ghost vt = vty@;
            assert(valid_ty(c0, vt));
            let ghost tcv = seq![c0.len() as usize];
            let ghost c3 = c0.push(field.field_type@);
            let mut tc = ExprTypeCons::new(cells, field.field_type.copy());
            assert(cells@ == c3);
            proof {
                lemma_valid_grows(c0, c3, vt);
            }
            match vty.match_type(&mut tc, cells) {
                None => {
                    assert(cells_match(c3, vt, tcv) matches Some((false, _)));
                    let calculated_type = vty.clone_inner(cells);
                    let mut tkns: Vec<Tkn> = Vec::new();
                    tkns.push(cx.tokens[p1].clone());
                    assert(tkns@.map_values(|t: Tkn| t@) =~= seq![cx.tokens@[p1 as int]@]);
                    (Err(ParserError::CouldNotMatchType { tkns, calculated_type, expected_type: field.field_type.copy() }), p1)
                },
                Some(_) => {
                    assert(cells_match(c3, vt, tcv) == Some((true, cells@)));
                    let comma = is_token(cx.tokens, TokenType::Comma, p1);
                    let ghost fb = fields@;
                    let ghost sb = seen@;
                    let nm1 = field.field_name.clone();
                    let nm2 = field.field_name.clone();
                    assert(nm1@ == field.field_name@ && nm2@ == field.field_name@);
                    let ghost pair = (nm1, ExpressionData::Identifier(nm2));
                    assert(data_view(pair.1) == ExprDataView::Identifier(field.field_name@));
                    fields.push((nm1, ExpressionData::Identifier(nm2)));
                    seen.push((field.field_name.clone(), p));
                    assert(fields@.drop_last() =~= fb);
                    assert(dfields_view(fields@) == fv.push((field.field_name@, ExprDataView::Identifier(field.field_name@))));
                    assert(seen_view(seen@) =~= sv.push((field.field_name@, p as int)));
                    let next = if comma {
                        p1 + 1
                    } else {
                        p1
                    };
                    struct_lit_exec(cx, i, op, si, next, !comma, fields, seen, cells)
                },
            }
        },
    }
}

} // verus!
