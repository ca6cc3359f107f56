//! Parsing groups and arrays of expressions.
use vstd::prelude::*;
use crate::lexer::token::{TknType, TknView, TokenType};
use crate::parser::expr::{ExprType, ExprTypeCons, TypeCells};
use crate::parser::parser_error::ParserError;
use crate::parser::tokens::{clone_tokens, is_token};

use crate::parser::expr_grammar::{mk, group_spec, array_spec, array_loop};
use crate::parser::expr_parse::{Expression, ExpressionData, ExprDataView, expr_view, data_view, exprs_view, ExprContext, outcome, opt_ty, datas_view, token_types_from};
use crate::parser::parse_set::set_exec;
use crate::parser::parse_expr::expr_exec;

verus! {

/// Parses a group at `p` (see [`group_spec`]).
pub(crate) fn group_exec(cx: &ExprContext, p: usize, cells: &mut TypeCells) -> (r: (Result<Expression, ParserError>, usize))
    requires
        !(group_spec(cx@, p as int, old(cells)@) is Stuck),
    ensures
        outcome(r.0, r.1 as int, final(cells)@) == group_spec(cx@, p as int, old(cells)@),
        final(cells)@.len() >= old(cells)@.len(),
    decreases cx.tokens@.len() - p, 1int, 0int,
{
    let n = cx.tokens.len();
    if is_token(cx.tokens, TokenType::OpenParen, p) {
        let (r, q) = set_exec(cx, p + 1, cells);
        match r {
            Ok(e) => {
                if is_token(cx.tokens, TokenType::CloseParen, q) {
                    (Ok(e), q + 1)
                } else {
                    vstd::pervasive::unreached()
                }
            },
            Err(x) => (Err(x), q),
        }
    } else if is_token(cx.tokens, TokenType::Dollar, p) {
        set_exec(cx, p + 1, cells)
    } else {
        let mut expected: Vec<TknType> = Vec::new();
        expected.push(TokenType::OpenParen);
        expected.push(TokenType::Dollar);
        let received = token_types_from(cx.tokens, p, 2);
        assert(expected@.map_values(|t: TknType| t@) =~= seq![TknView::OpenParen, TknView::Dollar]);
        (Err(ParserError::ExpectedTokens { tkn: cx.tokens[p].clone(), received, expected }), p)
    }
}

/// Parses an array at `p` (see [`array_spec`]).
pub(crate) fn array_exec(cx: &ExprContext, p: usize, cells: &mut TypeCells) -> (r: (Result<Expression, ParserError>, usize))
    requires
        !(array_spec(cx@, p as int, old(cells)@) is Stuck),
    ensures
        outcome(r.0, r.1 as int, final(cells)@) == array_spec(cx@, p as int, old(cells)@),
        final(cells)@.len() >= old(cells)@.len(),
    decreases cx.tokens@.len() - p, 1int, 0int,
{
    proof {
        reveal(array_spec);
    }
    let n = cx.tokens.len();
    let none: Vec<ExpressionData> = Vec::new();
    assert(datas_view(none@) =~= Seq::<ExprDataView>::empty());
    if is_token(cx.tokens, TokenType::OpenSquareBracket, p) {
        assert(array_spec(cx@, p as int, cells@) == array_loop(cx@, p as int, true, p + 1, seq![], seq![], cells@));
        assert(opt_ty(None::<ExprTypeCons>) == Seq::<usize>::empty());
        assert(!(array_loop(cx@, p as int, true, p + 1, datas_view(none@), opt_ty(None), cells@) is Stuck));
        array_loop_exec(cx, p, true, p + 1, none, None, cells)
    } else if is_token(cx.tokens, TokenType::Dollar, p) {
        array_loop_exec(cx, p, false, p + 1, none, None, cells)
    } else {
        (Err(ParserError::ExpectedToken { tkn: cx.tokens[p].clone(), expected: TokenType::Dollar }), p)
    }
}

/// Reads the elements of an array (see [`array_loop`]).
pub(crate) fn array_loop_exec(
    cx: &ExprContext,
    start: usize,
    closing: bool,
    q: usize,
    elems: Vec<ExpressionData>,
    ty: Option<ExprTypeCons>,
    cells: &mut TypeCells,
) -> (r: (Result<Expression, ParserError>, usize))
    requires
        !(array_loop(cx@, start as int, closing, q as int, datas_view(elems@), opt_ty(ty), old(cells)@) is Stuck),
        (elems@.len() == 0) == (ty is None),
    ensures
        outcome(r.0, r.1 as int, final(cells)@) == array_loop(
            cx@,
            start as int,
            closing,
            q as int,
            datas_view(elems@),
            opt_ty(ty),
            old(cells)@,
        ),
        final(cells)@.len() >= old(cells)@.len(),
    decreases cx.tokens@.len() - q, 4int, 0int,
{
    proof {
        reveal(array_loop);
    }
    let ghost ctx = cx@;
    let ghost c0 = cells@;
    let n = cx.tokens.len();
    let mut elems = elems;
    let (r, q2) = expr_exec(cx, q, 0, cells);
    match r {
        Err(_) => {
            let aty = ty.unwrap();
            if closing && !is_token(cx.tokens, TokenType::CloseSquareBracket, q) {
                return (
                    Err(ParserError::ExpectedToken { tkn: cx.tokens[q].clone(), expected: TokenType::CloseAngularBracket }),
                    q,
                );
            }
            let count = elems.len();
            let elem_type = aty.clone_inner(cells);
            let ghost dv = datas_view(elems@);
            let ghost all = elems@;
            let mut out: Vec<Expression> = Vec::new();
            let mut k: usize = 0;
            while k < count
                invariant
                    k <= count == all.len(),
                    elems@ == all.subrange(k as int, count as int),
                    dv == datas_view(all),
                    exprs_view(out@) == dv.take(k as int).map_values(|d: ExprDataView| mk(ctx, d, aty@)),
                    cx@ == ctx,
                decreases count - k,
            {
                let d = elems.remove(0);
                let ghost before = out@;
                assert(d == all[k as int]);
                assert(dv[k as int] == data_view(d));
                let e = Expression { line: cx.line, expr_data: Box::new(d), expr_type: aty.clone() };
                assert(expr_view(e) == mk(ctx, dv[k as int], aty@));
                out.push(e);
                assert(out@.drop_last() =~= before);
                assert(exprs_view(out@) == exprs_view(before).push(mk(ctx, dv[k as int], aty@)));
                k += 1;
                assert(dv.take(k as int).map_values(|d: ExprDataView| mk(ctx, d, aty@)) =~= dv.take(k - 1).map_values(
                    |d: ExprDataView| mk(ctx, d, aty@),
                ).push(mk(ctx, data_view(all[k - 1]), aty@)));
                assert(elems@ =~= all.subrange(k as int, count as int));
            }
            assert(dv.take(count as int) =~= dv);
            let arr_ty = ExprTypeCons::new(cells, ExprType::Array { length: Some(count), expr_type: Box::new(elem_type) });
            let after = if closing {
                q + 1
            } else {
                q
            };
            (Ok(Expression { line: cx.line, expr_data: Box::new(ExpressionData::Array(out)), expr_type: arr_ty }), after)
        },
        Ok(e) => {
            let Expression { line: _, expr_data, expr_type: ety } = e;
            let ghost before = elems@;
            if elems.len() == 0 {
                elems.push(*expr_data);
                assert(datas_view(elems@) =~= datas_view(before).push(data_view(*expr_data)));
                return array_loop_exec(cx, start, closing, q2, elems, Some(ety), cells);
            }
            let mut aty = ty.unwrap();
            let mut ety = ety;
            match aty.match_type(&mut ety, cells) {
                None => {
                    let calculated_type = ety.clone_inner(cells);
                    let expected_type = aty.clone_inner(cells);
                    (Err(ParserError::CouldNotMatchType { tkns: clone_tokens(cx.tokens, q, q2), calculated_type, expected_type }), q2)
                },
                Some(combined) => {
                    elems.push(*expr_data);
                    assert(datas_view(elems@) =~= datas_view(before).push(data_view(*expr_data)));
                    array_loop_exec(cx, start, closing, q2, elems, Some(combined), cells)
                },
            }
        },
    }
}

} // verus!
