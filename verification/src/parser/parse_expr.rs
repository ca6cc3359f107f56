//! Parsing an expression: an atom and the binary operators after it.
use vstd::prelude::*;
use crate::lexer::token::{TknType, TokenType};
use crate::parser::expr::{ExprTypeCons, TypeCells};
use crate::parser::operators::{bin_op_of, operator_info_spec, BinaryOperator, OperatorAssociativity};
use crate::parser::parser_error::{ParserError, ParserErrorView};
use crate::parser::tokens::clone_tokens;
use crate::parser::operators::operator_info;

use crate::parser::expr_grammar::{PEnd, room, type_of, valid_ty, bin_transform, tok, tokens_between, mk, expr_spec, operator_token, expr_loop};
use crate::parser::expr_parse::{Expression, ExpressionData, ExprDataView, data_view, ExprContext, outcome};
use crate::parser::parse_atom::atom_exec;

verus! {

/// Parses an expression at `i` (see [`expr_spec`]).
pub(crate) fn expr_exec(cx: &ExprContext, i: usize, min: u32, cells: &mut TypeCells) -> (r: (Result<Expression, ParserError>, usize))
    requires
        !(expr_spec(cx@, i as int, min as int, old(cells)@) is Stuck),
    ensures
        outcome(r.0, r.1 as int, final(cells)@) == expr_spec(cx@, i as int, min as int, old(cells)@),
        final(cells)@.len() >= old(cells)@.len(),
        i < cx.tokens@.len(),
    decreases cx.tokens@.len() - i, 3int, 0int,
{
    proof {
        reveal(expr_spec);
    }
    let (r, p) = atom_exec(cx, i, cells);
    match r {
        Ok(e) => {
            let Expression { line: _, expr_data, expr_type } = e;
            expr_loop_exec(cx, *expr_data, expr_type, p, min, cells)
        },
        Err(x) => (Err(x), p),
    }
}

/// Reads binary operators after a left operand (see [`expr_loop`]).
pub(crate) fn expr_loop_exec(
    cx: &ExprContext,
    data: ExpressionData,
    ty: ExprTypeCons,
    p: usize,
    min: u32,
    cells: &mut TypeCells,
) -> (r: (Result<Expression, ParserError>, usize))
    requires
        !(expr_loop(cx@, data_view(data), ty@, p as int, min as int, old(cells)@) is Stuck),
    ensures
        outcome(r.0, r.1 as int, final(cells)@) == expr_loop(cx@, data_view(data), ty@, p as int, min as int, old(cells)@),
        final(cells)@.len() >= old(cells)@.len(),
    decreases cx.tokens@.len() - p, 1int, 0int,
{
    proof {
        reveal(expr_loop);
    }
    let ghost ctx = cx@;
    let ghost c0 = cells@;
    let ghost dv = data_view(data);
    let n = cx.tokens.len();
    let t = &cx.tokens[p].token;
    let ot: Option<&TknType> = match t {
        TokenType::Either(l, r) => {
            if operator_info(l).is_some() {
                Some(&**l)
            } else if operator_info(r).is_some() {
                Some(&**r)
            } else {
                None
            }
        },
        _ => {
            if operator_info(t).is_some() {
                Some(t)
            } else {
                None
            }
        },
    };
    match ot {
        None => {
            assert(operator_token(tok(ctx, p as int)) is None);
            (Ok(Expression { line: cx.line, expr_data: Box::new(data), expr_type: ty }), p)
        },
        Some(ot) => {
            assert(operator_token(tok(ctx, p as int)) == Some(ot@));
            let info = operator_info(ot);
            let (prec, assoc) = info.unwrap();
            assert(operator_info_spec(ot@)->0 == (prec, assoc));
            let pv = prec.value();
            if pv < min {
                return (Ok(Expression { line: cx.line, expr_data: Box::new(data), expr_type: ty }), p);
            }
            let next = if assoc == OperatorAssociativity::Left {
                pv + 1
            } else {
                pv
            };
            assert(next as int == (if assoc is Left { pv + 1 } else { pv as int }));
            assert(expr_loop(ctx, dv, ty@, p as int, min as int, c0) == match expr_spec(ctx, p + 1, next as int, c0) {
                PEnd::Parsed(r, q, c2) => if !room(c2) || !valid_ty(c2, ty@) || !valid_ty(c2, r.ty) || q < p + 1
                    || q > ctx.tokens.len() {
                    PEnd::Stuck
                } else {
                    let op = bin_op_of(ot@->Operation_0)->0;
                    match bin_transform(op, c2, ty@, r.ty) {
                        (Some(nt), c3) => expr_loop(
                            ctx,
                            ExprDataView::BinaryOp(op, Box::new(mk(ctx, dv, nt)), Box::new(mk(ctx, r.data, r.ty))),
                            nt,
                            q,
                            min as int,
                            c3,
                        ),
                        (None, c3) => PEnd::Error(
                            ParserErrorView::CouldNotMatchType {
                                tkns: tokens_between(ctx, p + 1, q),
                                calculated_type: type_of(c3, r.ty),
                                expected_type: type_of(c3, ty@),
                            },
                            c3,
                        ),
                    }
                },
                other => other,
            });
            let (rr, q) = expr_exec(cx, p + 1, next, cells);
            match rr {
                Err(x) => (Err(x), q),
                Ok(re) => {
                    let ghost c2 = cells@;
                    assert(room(c2) && valid_ty(c2, ty@) && valid_ty(c2, re@.ty));
                    let op = BinaryOperator::get_bin_op(ot);
                    let Expression { line: _, expr_data: rdata, expr_type: rty } = re;
                    let mut lty = ty;
                    let mut rty = rty;
                    match op.transform_type(cells, &mut lty, &mut rty) {
                        Some(nt) => {
                            let left = Expression { line: cx.line, expr_data: Box::new(data), expr_type: nt.clone() };
                            let right = Expression { line: cx.line, expr_data: rdata, expr_type: rty };
                            let nd = ExpressionData::BinaryOp(op, Box::new(left), Box::new(right));
                            assert(data_view(nd) == ExprDataView::BinaryOp(op, Box::new(mk(ctx, dv, nt@)), Box::new(mk(ctx, data_view(*rdata), rty@))));
                            expr_loop_exec(cx, nd, nt, q, min, cells)
                        },
                        None => {
                            let calculated_type = rty.clone_inner(cells);
                            let expected_type = lty.clone_inner(cells);
                            (
                                Err(ParserError::CouldNotMatchType {
                                    tkns: clone_tokens(cx.tokens, p + 1, q),
                                    calculated_type,
                                    expected_type,
                                }),
                                q,
                            )
                        },
                    }
                },
            }
        },
    }
}

} // verus!
