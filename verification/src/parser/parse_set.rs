//! Parsing sets of expressions and operators between them.
use vstd::prelude::*;
use crate::lexer::token::Tkn;
use crate::parser::expr::{types_view, ExprType, ExprTypeCons, TypeCells, TypeView};
use crate::parser::functions::FullFunctionDefinition;
use crate::parser::parser_error::ParserError;
use crate::parser::structs::Struct;
use crate::parser::tokens::{clone_tokens, ints};

use crate::parser::expr_grammar::{Ctx, PEnd, room, type_of, valid_ty, cells_match, mk, set_spec, set_loop, match_lefts, rargs};
use crate::parser::expr_parse::{Expression, ExpressionData, ExprView, expr_view, exprs_view, lemma_exprs_view, VariableData, find_function, ExprContext, outcome, lemma_valid_grows, vars_view};
use crate::parser::parse_expr::expr_exec;

verus! {

/// Parses an expression set at `i` (see [`set_spec`]).
pub(crate) fn set_exec(cx: &ExprContext, i: usize, cells: &mut TypeCells) -> (r: (Result<Expression, ParserError>, usize))
    requires
        !(set_spec(cx@, i as int, old(cells)@) is Stuck),
    ensures
        outcome(r.0, r.1 as int, final(cells)@) == set_spec(cx@, i as int, old(cells)@),
        final(cells)@.len() >= old(cells)@.len(),
        r.0 is Ok ==> i < r.1 < cx.tokens@.len(),
    decreases cx.tokens@.len() - i, 5int, 0int,
{
    proof {
        reveal(set_spec);
    }
    let none: Vec<Expression> = Vec::new();
    assert(exprs_view(none@) =~= seq![]);
    let s: Vec<usize> = Vec::new();
    let e: Vec<usize> = Vec::new();
    assert(ints(s@) =~= seq![]);
    assert(ints(e@) =~= seq![]);
    set_loop_exec(cx, i, i, none, s, e, cells)
}

/// The types of `exprs` as `cells` holds them.
fn expr_types(exprs: &Vec<Expression>, cells: &TypeCells) -> (r: Vec<ExprType>)
    requires
        forall|j: int| 0 <= j < exprs@.len() ==> valid_ty(cells@, #[trigger] exprs@[j].expr_type@),
    ensures
        types_view(r@) == exprs_view(exprs@).map_values(|x: ExprView| type_of(cells@, x.ty)),
{
    proof {
        lemma_exprs_view(exprs@);
    }
    let ghost ev = exprs_view(exprs@);
    let mut args: Vec<ExprType> = Vec::new();
    let mut k: usize = 0;
    while k < exprs.len()
        invariant
            k <= exprs@.len() == ev.len(),
            ev == exprs_view(exprs@),
            forall|j: int| 0 <= j < exprs@.len() ==> #[trigger] ev[j] == expr_view(exprs@[j]),
            forall|j: int| 0 <= j < exprs@.len() ==> valid_ty(cells@, #[trigger] exprs@[j].expr_type@),
            types_view(args@) == ev.take(k as int).map_values(|x: ExprView| type_of(cells@, x.ty)),
        decreases exprs@.len() - k,
    {
        let ghost before = args@;
        assert(valid_ty(cells@, exprs@[k as int].expr_type@));
        assert(ev[k as int] == expr_view(exprs@[k as int]));
        let t = exprs[k].expr_type.clone_inner(cells);
        args.push(t);
        assert(args@.drop_last() =~= before);
        assert(types_view(args@) == types_view(before).push(type_of(cells@, ev[k as int].ty)));
        k += 1;
        assert(ev.take(k as int).map_values(|x: ExprView| type_of(cells@, x.ty)) =~= ev.take(k - 1).map_values(
            |x: ExprView| type_of(cells@, x.ty),
        ).push(type_of(cells@, ev[k - 1].ty)));
    }
    assert(ev.take(k as int) =~= ev);
    args
}

/// Matches the expressions before a function's name against the types of
/// its left arguments (see [`match_lefts`]): the matched expressions, or
/// the error.
fn lefts_exec(
    cx: &ExprContext,
    begin: usize,
    q: usize,
    exprs: Vec<Expression>,
    starts: &Vec<usize>,
    ends: &Vec<usize>,
    left_args: &Vec<ExprType>,
    Ghost(name): Ghost<Seq<char>>,
    Ghost(rt): Ghost<TypeView>,
    Ghost(ra): Ghost<Seq<TypeView>>,
    cells: &mut TypeCells,
) -> (r: Result<Vec<Expression>, ParserError>)
    requires
        exprs@.len() == left_args@.len(),
        q <= cx.tokens@.len(),
        !(match_lefts(cx@, begin as int, q as int, exprs_view(exprs@), ints(starts@), ints(ends@), 0, seq![], name, rt, types_view(left_args@), ra, old(cells)@) is Stuck),
    ensures
        final(cells)@.len() >= old(cells)@.len(),
        match r {
            Ok(lefts) => match_lefts(cx@, begin as int, q as int, exprs_view(exprs@), ints(starts@), ints(ends@), 0, seq![], name, rt, types_view(left_args@), ra, old(cells)@)
                == rargs(cx@, begin as int, q as int, ints(starts@), ints(ends@), 0, exprs_view(lefts@), seq![], name, rt, ra, final(cells)@),
            Err(x) => match_lefts(cx@, begin as int, q as int, exprs_view(exprs@), ints(starts@), ints(ends@), 0, seq![], name, rt, types_view(left_args@), ra, old(cells)@)
                == PEnd::Error(x@, final(cells)@),
        },
{
    let ghost ctx = cx@;
    let ghost sv = ints(starts@);
    let ghost nv = ints(ends@);
    let ghost ev = exprs_view(exprs@);
    let ghost la = types_view(left_args@);
    let ghost all = exprs@;
    let ghost goal = match_lefts(ctx, begin as int, q as int, ev, sv, nv, 0, seq![], name, rt, la, ra, cells@);
    proof {
        lemma_exprs_view(exprs@);
        crate::parser::expr::lemma_types_view(left_args@);
    }
    let ghost c00 = cells@;
    let count = exprs.len();
    let mut exprs = exprs;
    let mut lefts: Vec<Expression> = Vec::new();
    assert(exprs_view(lefts@) =~= seq![]);
    let mut k: usize = 0;
    let mut failed: Option<ParserError> = None;
    while k < count
        invariant_except_break
            failed is None,
            exprs@ == all.subrange(k as int, count as int),
            goal == match_lefts(ctx, begin as int, q as int, ev, sv, nv, k as int, exprs_view(lefts@), name, rt, la, ra, cells@),
        invariant
            k <= count == all.len() == ev.len() == la.len() == left_args@.len(),
            ev == exprs_view(all),
            forall|j: int| 0 <= j < all.len() ==> #[trigger] ev[j] == expr_view(all[j]),
            la == types_view(left_args@),
            forall|j: int| 0 <= j < left_args@.len() ==> #[trigger] la[j] == left_args@[j]@,
            !(goal is Stuck),
            sv == ints(starts@),
            nv == ints(ends@),
            cx@ == ctx,
            cells@.len() >= c00.len(),
            q <= cx.tokens@.len(),
        ensures
            match failed {
                Some(err) => goal == PEnd::Error(err@, cells@),
                None => k == count && goal == match_lefts(ctx, begin as int, q as int, ev, sv, nv, k as int, exprs_view(lefts@), name, rt, la, ra, cells@),
            },
            cells@.len() >= c00.len(),
        decreases count - k,
    {
        let e = exprs.remove(0);
        assert(e == all[k as int]);
        let ghost ex = ev[k as int];
        assert(ex == expr_view(e));
        let ghost cb = cells@;
        let ghost lv = exprs_view(lefts@);
        let ghost g = match_lefts(ctx, begin as int, q as int, ev, sv, nv, k as int, lv, name, rt, la, ra, cb);
        assert(room(cb) && valid_ty(cb, ex.ty));
        let Expression { line: _, expr_data, expr_type: ety } = e;
        let mut ety = ety;
        let ghost tcv = seq![cb.len() as usize];
        let ghost c1 = cb.push(la[k as int]);
        let lak = left_args[k].copy();
        let mut tc = ExprTypeCons::new(cells, lak);
        assert(cells@ == c1);
        assert(tc@ == tcv);
        proof {
            lemma_valid_grows(cb, c1, ex.ty);
        }
        match ety.match_type(&mut tc, cells) {
            None => {
                assert(cells_match(c1, ex.ty, tcv) matches Some((false, _)));
                assert(k < starts@.len() && k < ends@.len());
                assert(sv[k as int] == starts@[k as int] && nv[k as int] == ends@[k as int]);
                let calculated_type = ety.clone_inner(cells);
                let tkns = clone_tokens(cx.tokens, starts[k], ends[k]);
                let expected_type = left_args[k].copy();
                let err = ParserError::CouldNotMatchType { tkns, calculated_type, expected_type };
                assert(g == PEnd::Error(err@, c1));
                failed = Some(err);
                break;
            },
            Some(combined) => {
                assert(cells_match(c1, ex.ty, tcv) == Some((true, cells@)));
                assert(combined@ == ex.ty + tcv);
                let ne = Expression { line: cx.line, expr_data, expr_type: combined };
                assert(expr_view(ne) == mk(ctx, ex.data, ex.ty + tcv));
                let ghost before = lefts@;
                lefts.push(ne);
                assert(lefts@.drop_last() =~= before);
                assert(exprs_view(lefts@) == lv.push(mk(ctx, ex.data, ex.ty + tcv)));
            },
        }
        k += 1;
        assert(exprs@ =~= all.subrange(k as int, count as int));
    }
    match failed {
        Some(err) => Err(err),
        None => Ok(lefts),
    }
}

/// Parses a function's right arguments at `q`, each matched against its
/// argument's type (see [`rargs`]): the arguments and the position after
/// them, or the error.
#[verifier::spinoff_prover]
#[verifier::rlimit(80)]
fn rights_exec(
    cx: &ExprContext,
    begin: usize,
    q: usize,
    starts: &Vec<usize>,
    ends: &Vec<usize>,
    Ghost(lv): Ghost<Seq<ExprView>>,
    Ghost(name): Ghost<Seq<char>>,
    Ghost(rt): Ghost<TypeView>,
    right_args: &Vec<ExprType>,
    cells: &mut TypeCells,
) -> (r: Result<(Vec<Expression>, usize), ParserError>)
    requires
        q <= cx.tokens@.len(),
        !(rargs(cx@, begin as int, q as int, ints(starts@), ints(ends@), 0, lv, seq![], name, rt, types_view(right_args@), old(cells)@) is Stuck),
    ensures
        final(cells)@.len() >= old(cells)@.len(),
        match r {
            Ok((rights, pp)) => q <= pp <= cx.tokens@.len()
                && rargs(cx@, begin as int, q as int, ints(starts@), ints(ends@), 0, lv, seq![], name, rt, types_view(right_args@), old(cells)@)
                == rargs(cx@, begin as int, pp as int, ints(starts@), ints(ends@), right_args@.len() as int, lv, exprs_view(rights@), name, rt, types_view(right_args@), final(cells)@),
            Err(x) => rargs(cx@, begin as int, q as int, ints(starts@), ints(ends@), 0, lv, seq![], name, rt, types_view(right_args@), old(cells)@)
                == PEnd::Error(x@, final(cells)@),
        },
    decreases cx.tokens@.len() - q, 4int, 0int,
{
    let ghost ctx = cx@;
    let ghost sv = ints(starts@);
    let ghost nv = ints(ends@);
    let ghost ra = types_view(right_args@);
    let ghost goal = rargs(ctx, begin as int, q as int, sv, nv, 0, lv, seq![], name, rt, ra, cells@);
    proof {
        crate::parser::expr::lemma_types_view(right_args@);
    }
    let ghost c00 = cells@;
    let n = cx.tokens.len();
    let rcount = right_args.len();
    let mut rights: Vec<Expression> = Vec::new();
    assert(exprs_view(rights@) =~= seq![]);
    let mut pp: usize = q;
    let mut j: usize = 0;
    let mut failed: Option<ParserError> = None;
    while j < rcount
        invariant_except_break
            failed is None,
            goal == rargs(ctx, begin as int, pp as int, sv, nv, j as int, lv, exprs_view(rights@), name, rt, ra, cells@),
        invariant
            j <= rcount == right_args@.len() == ra.len(),
            ra == types_view(right_args@),
            forall|m: int| 0 <= m < right_args@.len() ==> #[trigger] ra[m] == right_args@[m]@,
            !(goal is Stuck),
            sv == ints(starts@),
            nv == ints(ends@),
            cx@ == ctx,
            cells@.len() >= c00.len(),
            q <= pp <= cx.tokens@.len(),
            n == cx.tokens@.len(),
        ensures
            match failed {
                Some(err) => goal == PEnd::Error(err@, cells@),
                None => j == rcount && goal == rargs(ctx, begin as int, pp as int, sv, nv, j as int, lv, exprs_view(rights@), name, rt, ra, cells@),
            },
            cells@.len() >= c00.len(),
            q <= pp <= cx.tokens@.len(),
        decreases rcount - j,
    {
        let ghost cb = cells@;
        let ghost rv = exprs_view(rights@);
        let (rr, q2) = expr_exec(cx, pp, 0, cells);
        match rr {
            Err(x) => {
                failed = Some(x);
                break;
            },
            Ok(re) => {
                let ghost c2 = cells@;
                let ghost ex = re@;
                assert(room(c2) && valid_ty(c2, ex.ty) && pp <= q2 <= n);
                let Expression { line: _, expr_data, expr_type: ety } = re;
                let mut ety = ety;
                let ghost tcv = seq![c2.len() as usize];
                let ghost c3 = c2.push(ra[j as int]);
                let raj = right_args[j].copy();
                let mut tc = ExprTypeCons::new(cells, raj);
                assert(cells@ == c3);
                proof {
                    lemma_valid_grows(c2, c3, ex.ty);
                }
                match ety.match_type(&mut tc, cells) {
                    None => {
                        assert(cells_match(c3, ex.ty, tcv) matches Some((false, _)));
                        let calculated_type = ety.clone_inner(cells);
                        failed = Some(ParserError::CouldNotMatchType {
                            tkns: clone_tokens(cx.tokens, pp, q2),
                            calculated_type,
                            expected_type: right_args[j].copy(),
                        });
                        break;
                    },
                    Some(combined) => {
                        assert(cells_match(c3, ex.ty, tcv) == Some((true, cells@)));
                        assert(combined@ == ex.ty + tcv);
                        let ne = Expression { line: cx.line, expr_data, expr_type: combined };
                        assert(expr_view(ne) == mk(ctx, ex.data, ex.ty + tcv));
                        let ghost before = rights@;
                        rights.push(ne);
                        assert(rights@.drop_last() =~= before);
                        assert(exprs_view(rights@) == rv.push(mk(ctx, ex.data, ex.ty + tcv)));
                    },
                }
                pp = q2;
            },
        }
        j += 1;
    }
    match failed {
        Some(err) => Err(err),
        None => Ok((rights, pp)),
    }
}

/// Adding an expression whose type is valid in `c` to a list of such
/// expressions keeps all of their types valid.
proof fn lemma_push_keeps_valid(c: Seq<TypeView>, before: Seq<Expression>, e: Expression)
    requires
        forall|j: int| 0 <= j < before.len() ==> valid_ty(c, #[trigger] before[j].expr_type@),
        valid_ty(c, e.expr_type@),
    ensures
        forall|j: int| 0 <= j < before.push(e).len() ==> valid_ty(c, #[trigger] before.push(e)[j].expr_type@),
{
    assert forall|j: int| 0 <= j < before.push(e).len() implies valid_ty(c, #[trigger] before.push(e)[j].expr_type@) by {
        if j < before.len() {
            assert(before.push(e)[j] == before[j]);
        }
    }
}

/// Parses expressions of a set from `p` (see [`set_loop`]).
#[verifier::spinoff_prover]
#[verifier::rlimit(80)]
pub(crate) fn set_loop_exec(
    cx: &ExprContext,
    begin: usize,
    p: usize,
    exprs: Vec<Expression>,
    starts: Vec<usize>,
    ends: Vec<usize>,
    cells: &mut TypeCells,
) -> (r: (Result<Expression, ParserError>, usize))
    requires
        !(set_loop(cx@, begin as int, p as int, exprs_view(exprs@), ints(starts@), ints(ends@), old(cells)@) is Stuck),
        forall|j: int| 0 <= j < exprs@.len() ==> valid_ty(old(cells)@, #[trigger] exprs@[j].expr_type@),
        exprs@.len() > 0 ==> begin < p,
        begin <= p,
    ensures
        outcome(r.0, r.1 as int, final(cells)@) == set_loop(
            cx@,
            begin as int,
            p as int,
            exprs_view(exprs@),
            ints(starts@),
            ints(ends@),
            old(cells)@,
        ),
        final(cells)@.len() >= old(cells)@.len(),
        r.0 is Ok ==> begin < r.1 < cx.tokens@.len(),
    decreases cx.tokens@.len() - p, 4int, 0int,
{
    let ghost ctx = cx@;
    let ghost c0 = cells@;
    let ghost ev = exprs_view(exprs@);
    let ghost sv = ints(starts@);
    let ghost nv = ints(ends@);
    let n = cx.tokens.len();
    let mut exprs = exprs;
    let mut starts = starts;
    let mut ends = ends;
    proof {
        lemma_exprs_view(exprs@);
    }
    let (r, q) = expr_exec(cx, p, 0, cells);
    let e = match r {
        Err(err) => {
            if exprs.len() == 1 {
                return (Ok(exprs.remove(0)), p);
            } else if exprs.len() == 0 {
                return (Err(err), p);
            } else {
                return (Err(ParserError::MultipleExpressions { tkn: cx.tokens[begin].clone(), expr: exprs }), p);
            }
        },
        Ok(e) => e,
    };
    let ghost c2 = cells@;
    assert(p < q <= n && valid_ty(c2, e@.ty));
    assert forall|j: int| 0 <= j < exprs@.len() implies valid_ty(c2, #[trigger] exprs@[j].expr_type@) by {
        lemma_valid_grows(c0, c2, exprs@[j].expr_type@);
    }
    let t = e.expr_type.clone_inner(cells);
    match t {
        ExprType::Function { name, return_type, left_args, right_args } => {
            proof {
                crate::parser::expr::lemma_types_view(left_args@);
                crate::parser::expr::lemma_types_view(right_args@);
            }
            if exprs.len() != left_args.len() {
                let args = expr_types(&exprs, cells);
                let ghost fname = find_function(ctx.fns, name@);
                assert(q < n && fname is Some);
                return (
                    Err(ParserError::IncorrectNumberPrefixArguments {
                        tkn: cx.tokens[q].clone(),
                        args,
                        expected_args: left_args,
                        function: name,
                    }),
                    q,
                );
            }
            let ghost rt = return_type@;
            let ghost ra = types_view(right_args@);
            let lefts = match lefts_exec(cx, begin, q, exprs, &starts, &ends, &left_args, Ghost(name@), Ghost(rt), Ghost(ra), cells) {
                Ok(l) => l,
                Err(x) => {
                    return (Err(x), q);
                },
            };
            let ghost lv = exprs_view(lefts@);
            let (rights, pp) = match rights_exec(cx, begin, q, &starts, &ends, Ghost(lv), Ghost(name@), Ghost(rt), &right_args, cells) {
                Ok(v) => v,
                Err(x) => {
                    return (Err(x), q);
                },
            };
            let ghost c4 = cells@;
            assert(room(c4));
            let fty = ExprTypeCons::new(cells, *return_type);
            let call = Expression {
                line: cx.line,
                expr_data: Box::new(ExpressionData::Function { name, left_args: lefts, right_args: rights }),
                expr_type: fty,
            };
            let mut next: Vec<Expression> = Vec::new();
            let ghost cv = expr_view(call);
            next.push(call);
            assert(next@.drop_last() =~= Seq::<Expression>::empty());
            assert(exprs_view(Seq::<Expression>::empty()) =~= Seq::<ExprView>::empty());
            assert(exprs_view(next@.drop_last()) == Seq::<ExprView>::empty());
            assert(expr_view(next@.last()) == cv);
            assert(exprs_view(next@) =~= seq![cv]);
            assert(valid_ty(cells@, next@[0].expr_type@));
            set_loop_exec(cx, begin, pp, next, starts, ends, cells)
        },
        _ => {
            let ghost before = exprs@;
            let ghost ge = e;
            assert(valid_ty(c2, ge.expr_type@));
            exprs.push(e);
            assert(exprs@.drop_last() =~= before);
            assert(exprs_view(exprs@) == ev.push(ge@));
            starts.push(p);
            ends.push(q);
            assert(ints(starts@) =~= sv.push(p as int));
            assert(ints(ends@) =~= nv.push(q as int));
            proof {
                lemma_push_keeps_valid(c2, before, ge);
                assert(exprs@ =~= before.push(ge));
            }
            set_loop_exec(cx, begin, q, exprs, starts, ends, cells)
        },
    }
}

/// Parses the expression set that starts at `*index`: expressions one
/// after the other, where a function's name takes the expressions before it
/// as its left arguments and reads its right arguments after it (see
/// [`set_spec`]).  On success `*index` is the position after the set; on an
/// error it is left as it was.  The set must end: tokens that run out in
/// the middle of it, or that make the reading go round without end, are not
/// accepted.
pub fn parse_expression_set(
    structs: &[Struct],
    tokens: &[Tkn],
    index: &mut usize,
    line: usize,
    functions: &[FullFunctionDefinition],
    variables: &[(String, VariableData)],
    cells: &mut TypeCells,
) -> (r: Result<Expression, ParserError>)
    requires
        !(set_spec(
            Ctx { tokens: tokens@, structs: structs@, fns: functions@, vars: vars_view(variables@), line },
            *old(index) as int,
            old(cells)@,
        ) is Stuck),
    ensures
        ({
            let ctx = Ctx { tokens: tokens@, structs: structs@, fns: functions@, vars: vars_view(variables@), line };
            let goal = set_spec(ctx, *old(index) as int, old(cells)@);
            match r {
                Ok(e) => goal == PEnd::Parsed(e@, *final(index) as int, final(cells)@),
                Err(x) => goal == PEnd::Error(x@, final(cells)@) && *final(index) == *old(index),
            }
        }),
        final(cells)@.len() >= old(cells)@.len(),
        r is Ok ==> *old(index) < *final(index) < tokens@.len(),
{
    let cx = ExprContext { tokens, structs, functions, variables, line };
    let (r, q) = set_exec(&cx, *index, cells);
    if r.is_ok() {
        *index = q;
    }
    r
}

} // verus!
