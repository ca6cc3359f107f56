//! What parsing a statement at a position gives, stated as spec functions:
//! blocks, loops, chains of conditions, declarations, assignments, returns
//! and expression statements.
use vstd::prelude::*;
use crate::lexer::token::{Keyword, Operator, Tkn, TknView};
use crate::parser::expr::TypeView;
use crate::parser::expr_grammar::{cells_match, set_spec, tokens_between, type_of, types_from, valid_ty, Ctx, PEnd};
use crate::parser::expr_parse::{exprs_view, ExprView, Expression, VarView};
use crate::parser::parser_error::ParserErrorView;
use crate::parser::patterns::{assign_spec, cells_in, pattern_spec, AssignEnd, PatEnd};
use crate::parser::stmt::{assignment_ok, let_ok, let_spec, return_ok_spec, LetEnd, StackLocation, Statement, StmtData};
use crate::parser::tokens::token_at_matches;

verus! {

/// The mathematical value of a [`Statement`].
pub enum StmtView {
    Compound(Seq<StmtDataView>),
    While { cond: ExprView, body: Seq<StmtDataView> },
    Conditional { conds: Seq<ExprView>, bodies: Seq<Seq<StmtDataView>> },
    Return(Option<ExprView>),
    Declare(Seq<char>, StackLocation, Seq<usize>),
    Assign { variable: ExprView, assign: ExprView },
    Expr(ExprView),
}

/// The mathematical value of a [`StmtData`].
pub struct StmtDataView {
    pub line: usize,
    pub stmt: StmtView,
}

/// The view of a statement.
pub open spec fn stmt_view(s: StmtData) -> StmtDataView
    decreases s,
{
    StmtDataView {
        line: s.line,
        stmt: match s.stmt {
            Statement::Compound(v) => StmtView::Compound(stmts_view(v@)),
            Statement::While { cond, body } => StmtView::While { cond: cond@, body: stmts_view(body@) },
            Statement::Conditional { conds, bodies } => StmtView::Conditional {
                conds: exprs_view(conds@),
                bodies: bodies_view(bodies@),
            },
            Statement::Return(e) => StmtView::Return(
                match e {
                    Some(x) => Some(x@),
                    None => None,
                },
            ),
            Statement::Declare(name, loc, ty) => StmtView::Declare(name@, loc, ty@),
            Statement::Assign { variable, assign } => StmtView::Assign { variable: variable@, assign: assign@ },
            Statement::Expr(e) => StmtView::Expr(e@),
        },
    }
}

/// The views of a list of statements.
pub open spec fn stmts_view(s: Seq<StmtData>) -> Seq<StmtDataView>
    decreases s,
{
    if s.len() == 0 {
        Seq::empty()
    } else {
        stmts_view(s.drop_last()).push(stmt_view(s.last()))
    }
}

/// The views of the bodies of a chain of conditions.
pub open spec fn bodies_view(s: Seq<Vec<StmtData>>) -> Seq<Seq<StmtDataView>>
    decreases s,
{
    if s.len() == 0 {
        Seq::empty()
    } else {
        bodies_view(s.drop_last()).push(stmts_view(s.last()@))
    }
}

/// What reading a statement gives: it fails on the tokens running out, on
/// reading without end or on an input the grammar does not cover
/// (`Stuck`); a soft error (no statement starts here) or a hard error, each
/// with the cells as they were left; or the statements read, the position
/// after them, the cells and the variables in scope.
pub enum SEnd {
    Stuck,
    Soft(ParserErrorView, Seq<TypeView>),
    Hard(ParserErrorView, Seq<TypeView>),
    Parsed(Seq<StmtDataView>, int, Seq<TypeView>, Seq<VarView>),
}

/// What reading the statements of a block gives: stuck, a hard error with
/// the cells, or the statements, the position after the last one and the
/// cells.
pub enum BEnd {
    Stuck,
    Hard(ParserErrorView, Seq<TypeView>),
    Done(Seq<StmtDataView>, int, Seq<TypeView>),
}

/// `ctx` with the variables `vars` in scope.
pub open spec fn in_scope(ctx: Ctx, vars: Seq<VarView>) -> Ctx {
    Ctx { tokens: ctx.tokens, structs: ctx.structs, fns: ctx.fns, vars, line: ctx.line }
}

/// `ctx` for a statement on line `line`.
pub open spec fn on_line(ctx: Ctx, line: usize) -> Ctx {
    Ctx { tokens: ctx.tokens, structs: ctx.structs, fns: ctx.fns, vars: ctx.vars, line }
}

/// Whether every variable in scope names cells that are in `c`.
pub open spec fn scope_valid(ctx: Ctx, c: Seq<TypeView>) -> bool {
    forall|v: int| 0 <= v < ctx.vars.len() ==> cells_in(#[trigger] ctx.vars[v].3, c)
}

/// One statement on the line of `ctx`.
pub open spec fn one(ctx: Ctx, s: StmtView) -> Seq<StmtDataView> {
    seq![StmtDataView { line: ctx.line, stmt: s }]
}

/// An expression statement at `i`: an expression set and `;`.  Where no
/// expression set starts, the error is soft.
pub open spec fn expr_stmt_spec(ctx: Ctx, i: int, c: Seq<TypeView>) -> SEnd {
    match set_spec(ctx, i, c) {
        PEnd::Stuck => SEnd::Stuck,
        PEnd::Error(e, c2) => SEnd::Soft(e, c2),
        PEnd::Parsed(e, q, c2) => if token_at_matches(ctx.tokens, q, TknView::Semicolon) {
            SEnd::Parsed(one(ctx, StmtView::Expr(e)), q + 1, c2, ctx.vars)
        } else if 0 <= q < ctx.tokens.len() {
            SEnd::Hard(ParserErrorView::ExpectedToken { tkn: ctx.tokens[q]@, expected: TknView::Semicolon }, c2)
        } else {
            SEnd::Stuck
        },
    }
}

/// A return statement at `i` in a function returning `ret`: `return ;`, or
/// `return`, an expression set whose type is matched against `ret`, and
/// `;`.  Without `return` the error is soft.
pub open spec fn return_stmt_spec(ctx: Ctx, i: int, c: Seq<TypeView>, ret: TypeView) -> SEnd {
    let tokens = ctx.tokens;
    if !(0 <= i < tokens.len()) || !return_ok_spec(tokens, ctx, i, c, ret) {
        SEnd::Stuck
    } else if !token_at_matches(tokens, i, TknView::Keyword(Keyword::Return)) {
        SEnd::Soft(ParserErrorView::ExpectedToken { tkn: tokens[i]@, expected: TknView::Keyword(Keyword::Return) }, c)
    } else if token_at_matches(tokens, i + 1, TknView::Semicolon) {
        SEnd::Parsed(one(ctx, StmtView::Return(None)), i + 2, c, ctx.vars)
    } else {
        match set_spec(ctx, i + 1, c) {
            PEnd::Error(e, c2) => SEnd::Hard(e, c2),
            PEnd::Parsed(e, q, c2) => {
                let c4 = (cells_match(c2.push(ret), e.ty, seq![c2.len() as usize])->0).1;
                if token_at_matches(tokens, q, TknView::Semicolon) {
                    SEnd::Parsed(
                        one(ctx, StmtView::Return(Some(ExprView { line: ctx.line, data: e.data, ty: e.ty }))),
                        q + 1,
                        c4,
                        ctx.vars,
                    )
                } else if 0 <= q < tokens.len() {
                    SEnd::Hard(ParserErrorView::ExpectedToken { tkn: tokens[q]@, expected: TknView::Semicolon }, c4)
                } else {
                    SEnd::Stuck
                }
            },
            PEnd::Stuck => SEnd::Stuck,
        }
    }
}

/// An assignment at `i`: a pattern, `=`, an expression set and `;`.  Until
/// the `=` the errors are soft.
pub open spec fn assign_stmt_spec(ctx: Ctx, i: int, c: Seq<TypeView>) -> SEnd {
    let tokens = ctx.tokens;
    if !assignment_ok(tokens, ctx, i, c) || !scope_valid(ctx, c) {
        SEnd::Stuck
    } else {
        match pattern_spec(tokens, i) {
            PatEnd::Error(e) => SEnd::Soft(e, c),
            PatEnd::Parsed(pv, p1) => if !token_at_matches(tokens, p1, TknView::Operation(Operator::Assign)) {
                if 0 <= p1 < tokens.len() {
                    SEnd::Soft(
                        ParserErrorView::ExpectedToken { tkn: tokens[p1]@, expected: TknView::Operation(Operator::Assign) },
                        c,
                    )
                } else {
                    SEnd::Stuck
                }
            } else {
                match set_spec(ctx, p1 + 1, c) {
                    PEnd::Error(e, c2) => SEnd::Hard(e, c2),
                    PEnd::Parsed(e, q, c2) => {
                        let (ss, c3) = match assign_spec(ctx.vars, false, pv, e, tokens, i, ctx.line, c2) {
                            AssignEnd::Assigned(a, b, c3) => (one(ctx, StmtView::Assign { variable: a, assign: b }), c3),
                            _ => (Seq::empty(), c2),
                        };
                        match assign_spec(ctx.vars, false, pv, e, tokens, i, ctx.line, c2) {
                            AssignEnd::Error(err, c3) => SEnd::Hard(err, c3),
                            _ => if token_at_matches(tokens, q, TknView::Semicolon) {
                                SEnd::Parsed(ss, q + 1, c3, ctx.vars)
                            } else if 0 <= q < tokens.len() {
                                SEnd::Hard(ParserErrorView::ExpectedToken { tkn: tokens[q]@, expected: TknView::Semicolon }, c3)
                            } else {
                                SEnd::Stuck
                            },
                        }
                    },
                    PEnd::Stuck => SEnd::Stuck,
                }
            },
            PatEnd::Stuck => SEnd::Stuck,
        }
    }
}

/// The declaration statements that a list of recorded declarations stands
/// for.
pub open spec fn decl_stmts(d: Seq<Option<(usize, Seq<char>, StackLocation, Seq<usize>)>>) -> Seq<StmtDataView> {
    d.map_values(
        |x: Option<(usize, Seq<char>, StackLocation, Seq<usize>)>|
            StmtDataView { line: (x->0).0, stmt: StmtView::Declare((x->0).1, (x->0).2, (x->0).3) },
    )
}

/// A `let` statement at `i` (see [`let_spec`]).
pub open spec fn let_stmt_spec(ctx: Ctx, i: int, c: Seq<TypeView>) -> SEnd {
    if !let_ok(ctx, i, c) || !scope_valid(ctx, c) {
        SEnd::Stuck
    } else {
        match let_spec(ctx, i, c) {
            LetEnd::Stuck => SEnd::Stuck,
            LetEnd::Soft(e) => SEnd::Soft(e, c),
            LetEnd::Hard(e, c2) => SEnd::Hard(e, c2),
            LetEnd::Done(v, d, assigned, p, c2) => SEnd::Parsed(
                decl_stmts(d) + match assigned {
                    Some((a, b)) => one(ctx, StmtView::Assign { variable: a, assign: b }),
                    None => Seq::empty(),
                },
                p,
                c2,
                v,
            ),
        }
    }
}

/// The statements of a block from `p` on, in their own scope: statement
/// after statement until one does not start (a soft error), or a hard
/// error.
pub open spec fn block_spec(ctx: Ctx, p: int, c: Seq<TypeView>, ret: TypeView) -> BEnd
    decreases ctx.tokens.len() - p, 13int,
{
    if !(0 <= p < ctx.tokens.len()) {
        BEnd::Stuck
    } else {
        match stmt_spec(on_line(ctx, 0), p, c, ret) {
            SEnd::Stuck => BEnd::Stuck,
            SEnd::Soft(_, c2) => BEnd::Done(Seq::empty(), p, c2),
            SEnd::Hard(e, c2) => BEnd::Hard(e, c2),
            SEnd::Parsed(ss, q, c2, v) => if q <= p || q > ctx.tokens.len() {
                BEnd::Stuck
            } else {
                match block_spec(in_scope(ctx, v), q, c2, ret) {
                    BEnd::Done(rest, q2, c3) => BEnd::Done(ss + rest, q2, c3),
                    other => other,
                }
            },
        }
    }
}

/// A block whose statements start at `p`, closed by `}` when `open` (the
/// position of its `{`) is given; the statements are read in a scope of
/// their own.
pub open spec fn body_spec(ctx: Ctx, open: Option<int>, p: int, c: Seq<TypeView>, ret: TypeView) -> BEnd
    decreases ctx.tokens.len() - p, 14int,
{
    if !(0 <= p < ctx.tokens.len()) {
        BEnd::Stuck
    } else {
        match block_spec(ctx, p, c, ret) {
            BEnd::Done(ss, q, c2) => match open {
                None => BEnd::Done(ss, q, c2),
                Some(o) => if token_at_matches(ctx.tokens, q, TknView::CloseCurlyBrace) {
                    BEnd::Done(ss, q + 1, c2)
                } else if 0 <= q < ctx.tokens.len() && 0 <= o < ctx.tokens.len() {
                    BEnd::Hard(ParserErrorView::ExpectedClosingBrace { tkn: ctx.tokens[q]@, open_brace: ctx.tokens[o]@ }, c2)
                } else {
                    BEnd::Stuck
                },
            },
            other => other,
        }
    }
}

/// A compound statement at `i`: `$` and statements, or `{`, statements and
/// `}`.  Without `$` or `{` the error is soft.
#[verifier::opaque]
pub open spec fn compound_spec(ctx: Ctx, i: int, c: Seq<TypeView>, ret: TypeView) -> SEnd
    decreases ctx.tokens.len() - i, 8int,
{
    if !(0 <= i < ctx.tokens.len()) {
        SEnd::Stuck
    } else {
        let open = if token_at_matches(ctx.tokens, i, TknView::Dollar) {
            Some(None)
        } else if token_at_matches(ctx.tokens, i, TknView::OpenCurlyBrace) {
            Some(Some(i))
        } else {
            None
        };
        match open {
            None => SEnd::Soft(
                ParserErrorView::ExpectedTokens {
                    tkn: ctx.tokens[i]@,
                    received: types_from(ctx, i, ctx.tokens.len() - i),
                    expected: seq![TknView::Dollar, TknView::OpenCurlyBrace],
                },
                c,
            ),
            Some(o) => match body_spec(ctx, o, i + 1, c, ret) {
                BEnd::Stuck => SEnd::Stuck,
                BEnd::Hard(e, c2) => SEnd::Hard(e, c2),
                BEnd::Done(ss, q, c2) => SEnd::Parsed(one(ctx, StmtView::Compound(ss)), q, c2, ctx.vars),
            },
        }
    }
}

/// What a condition and its block at `p` give: the condition, an
/// expression set of type `bool`, then `{`, statements and `}`.
pub enum ArmEnd {
    Stuck,
    Hard(ParserErrorView, Seq<TypeView>),
    Done(ExprView, Seq<StmtDataView>, int, Seq<TypeView>),
}

/// A condition of type `bool` at `p` and the block after it.
pub open spec fn arm_spec(ctx: Ctx, p: int, c: Seq<TypeView>, ret: TypeView) -> ArmEnd
    decreases ctx.tokens.len() - p, 8int,
{
    if !(0 <= p <= ctx.tokens.len()) {
        ArmEnd::Stuck
    } else {
        match set_spec(ctx, p, c) {
            PEnd::Stuck => ArmEnd::Stuck,
            PEnd::Error(e, c2) => ArmEnd::Hard(e, c2),
            PEnd::Parsed(e, q, c2) => if q <= p || q > ctx.tokens.len() || !valid_ty(c2, e.ty) {
                ArmEnd::Stuck
            } else if type_of(c2, e.ty) != TypeView::Bool {
                ArmEnd::Hard(
                    ParserErrorView::CouldNotMatchType {
                        tkns: tokens_between(ctx, p, q),
                        calculated_type: type_of(c2, e.ty),
                        expected_type: TypeView::Bool,
                    },
                    c2,
                )
            } else if !token_at_matches(ctx.tokens, q, TknView::OpenCurlyBrace) {
                if q < ctx.tokens.len() {
                    ArmEnd::Hard(ParserErrorView::ExpectedToken { tkn: ctx.tokens[q]@, expected: TknView::OpenCurlyBrace }, c2)
                } else {
                    ArmEnd::Stuck
                }
            } else {
                match body_spec(ctx, Some(q), q + 1, c2, ret) {
                    BEnd::Stuck => ArmEnd::Stuck,
                    BEnd::Hard(e2, c3) => ArmEnd::Hard(e2, c3),
                    BEnd::Done(ss, q2, c3) => ArmEnd::Done(e, ss, q2, c3),
                }
            },
        }
    }
}

/// A while loop at `i`: `while`, a condition of type `bool` and a block.
/// Without `while` the error is soft.
#[verifier::opaque]
pub open spec fn while_spec(ctx: Ctx, i: int, c: Seq<TypeView>, ret: TypeView) -> SEnd
    decreases ctx.tokens.len() - i, 9int,
{
    if !(0 <= i < ctx.tokens.len()) {
        SEnd::Stuck
    } else if !token_at_matches(ctx.tokens, i, TknView::Keyword(Keyword::While)) {
        SEnd::Soft(ParserErrorView::ExpectedToken { tkn: ctx.tokens[i]@, expected: TknView::Keyword(Keyword::While) }, c)
    } else {
        match arm_spec(ctx, i + 1, c, ret) {
            ArmEnd::Stuck => SEnd::Stuck,
            ArmEnd::Hard(e, c2) => SEnd::Hard(e, c2),
            ArmEnd::Done(cond, body, q, c2) => SEnd::Parsed(one(ctx, StmtView::While { cond, body }), q, c2, ctx.vars),
        }
    }
}

/// The `else if` and `else` parts of a chain of conditions from `p`, with
/// the conditions and bodies read so far.
pub open spec fn else_spec(
    ctx: Ctx,
    p: int,
    conds: Seq<ExprView>,
    bodies: Seq<Seq<StmtDataView>>,
    c: Seq<TypeView>,
    ret: TypeView,
) -> SEnd
    decreases ctx.tokens.len() - p, 9int,
{
    if !(0 <= p <= ctx.tokens.len()) {
        SEnd::Stuck
    } else if !token_at_matches(ctx.tokens, p, TknView::Keyword(Keyword::Else)) {
        SEnd::Parsed(one(ctx, StmtView::Conditional { conds, bodies }), p, c, ctx.vars)
    } else if token_at_matches(ctx.tokens, p + 1, TknView::Keyword(Keyword::If)) {
        match arm_spec(ctx, p + 2, c, ret) {
            ArmEnd::Stuck => SEnd::Stuck,
            ArmEnd::Hard(e, c2) => SEnd::Hard(e, c2),
            ArmEnd::Done(cond, body, q, c2) => if q <= p || q > ctx.tokens.len() {
                SEnd::Stuck
            } else {
                else_spec(ctx, q, conds.push(cond), bodies.push(body), c2, ret)
            },
        }
    } else if !token_at_matches(ctx.tokens, p + 1, TknView::OpenCurlyBrace) {
        if p + 1 < ctx.tokens.len() {
            SEnd::Hard(ParserErrorView::ExpectedToken { tkn: ctx.tokens[p + 1]@, expected: TknView::OpenCurlyBrace }, c)
        } else {
            SEnd::Stuck
        }
    } else {
        match body_spec(ctx, Some(p + 1), p + 2, c, ret) {
            BEnd::Stuck => SEnd::Stuck,
            BEnd::Hard(e, c2) => SEnd::Hard(e, c2),
            BEnd::Done(ss, q, c2) => SEnd::Parsed(
                one(ctx, StmtView::Conditional { conds, bodies: bodies.push(ss) }),
                q,
                c2,
                ctx.vars,
            ),
        }
    }
}

/// A chain of conditions at `i`: `if`, a condition and a block, then any
/// number of `else if`, a condition and a block, and at most one `else`
/// and a block.  Every condition has type `bool`; every block has a scope
/// of its own.  Without `if` the error is soft.
#[verifier::opaque]
pub open spec fn conditional_spec(ctx: Ctx, i: int, c: Seq<TypeView>, ret: TypeView) -> SEnd
    decreases ctx.tokens.len() - i, 10int,
{
    if !(0 <= i < ctx.tokens.len()) {
        SEnd::Stuck
    } else if !token_at_matches(ctx.tokens, i, TknView::Keyword(Keyword::If)) {
        SEnd::Soft(ParserErrorView::ExpectedToken { tkn: ctx.tokens[i]@, expected: TknView::Keyword(Keyword::If) }, c)
    } else {
        match arm_spec(ctx, i + 1, c, ret) {
            ArmEnd::Stuck => SEnd::Stuck,
            ArmEnd::Hard(e, c2) => SEnd::Hard(e, c2),
            ArmEnd::Done(cond, body, q, c2) => if q <= i || q > ctx.tokens.len() {
                SEnd::Stuck
            } else {
                else_spec(ctx, q, seq![cond], seq![body], c2, ret)
            },
        }
    }
}

/// A statement at `i` in a function returning `ret`, on the line of its
/// first token: a compound statement, a while loop, a chain of conditions,
/// a declaration, an assignment, a return or an expression statement, the
/// first of these that starts there.  Where none does, the error is soft:
/// the token is no statement.
pub open spec fn stmt_spec(ctx: Ctx, i: int, c: Seq<TypeView>, ret: TypeView) -> SEnd
    decreases ctx.tokens.len() - i, 12int,
{
    if !(0 <= i < ctx.tokens.len()) {
        SEnd::Stuck
    } else {
        statement_kinds(on_line(ctx, ctx.tokens[i].line_number), i, c, ret)
    }
}

/// The first kind of statement that starts at `i`: a compound statement, a
/// while loop, a chain of conditions, or a statement that holds no block.
pub open spec fn statement_kinds(ctx: Ctx, i: int, c: Seq<TypeView>, ret: TypeView) -> SEnd
    decreases ctx.tokens.len() - i, 11int,
{
    match compound_spec(ctx, i, c, ret) {
        SEnd::Soft(_, _) => match while_spec(ctx, i, c, ret) {
            SEnd::Soft(_, _) => match conditional_spec(ctx, i, c, ret) {
                SEnd::Soft(_, _) => simple_stmt_spec(ctx, i, c, ret),
                other => other,
            },
            other => other,
        },
        other => other,
    }
}

/// A statement at `i` that holds no block: the first of a declaration, an
/// assignment, a return and an expression statement that starts there.
/// Where none does, the error is soft: the token is no statement.
#[verifier::opaque]
pub open spec fn simple_stmt_spec(ctx: Ctx, i: int, c: Seq<TypeView>, ret: TypeView) -> SEnd {
    if !(0 <= i < ctx.tokens.len()) {
        SEnd::Stuck
    } else {
        match let_stmt_spec(ctx, i, c) {
            SEnd::Soft(_, _) => match assign_stmt_spec(ctx, i, c) {
                SEnd::Soft(_, _) => match return_stmt_spec(ctx, i, c, ret) {
                    SEnd::Soft(_, _) => match expr_stmt_spec(ctx, i, c) {
                        SEnd::Soft(_, c2) => SEnd::Soft(ParserErrorView::InvalidStatement { tkn: ctx.tokens[i]@ }, c2),
                        other => other,
                    },
                    other => other,
                },
                other => other,
            },
            other => other,
        }
    }
}

} // verus!
