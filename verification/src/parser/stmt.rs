//! Statements.
use vstd::prelude::*;
use crate::full_result::FullResult;
use crate::lexer::token::{Keyword, Tkn, TknView, TokenType};
use crate::parser::expr::{type_view, ExprType, ExprTypeCons, TypeCells, TypeView};
use crate::parser::expr_grammar::{cells_match, room, set_spec, valid_ty, Ctx, PEnd};
use crate::parser::expr_parse::{ExprView, Expression, VariableData};
use crate::parser::functions::FullFunctionDefinition;
use crate::parser::parse_set::parse_expression_set;
use crate::parser::parser_error::{ParserError, ParserErrorView};
use crate::parser::structs::Struct;
use crate::parser::tokens::{is_token, token_at_matches};
use crate::parser::patterns::{assign_spec, assign_variable_pattern, parse_identifier_pattern, pattern_spec, AssignEnd, PatEnd};
use crate::lexer::token::Operator;
use crate::parser::expr_grammar::type_of;
use crate::parser::expr_parse::{find_variable, vars_view, VarView};
use crate::parser::{get_type, named_type};
use crate::parser::patterns::{
    cells_in, declare_spec, declare_variable_pattern, decls_view, lemma_declare_cells, DeclEnd, PatternView,
};

verus! {

/// Which stack a variable lives on: the one of owned values, or the one of
/// garbage-collected values.
#[derive(Clone, Copy, Debug, PartialEq, Eq, Structural)]
pub enum StackLocation {
    Oxy,
    GC,
}

/// A statement and the line it starts on.
#[derive(Debug)]
pub struct StmtData {
    pub line: usize,
    pub stmt: Statement,
}

/// Short name of [`Statement`].
pub type Stmt = Statement;

/// A statement: a block, a loop, a chain of conditions with their bodies,
/// a return, a variable's declaration (its name, stack and type), an
/// assignment, or an expression.
#[derive(Debug)]
pub enum Statement {
    Compound(Vec<StmtData>),
    While { cond: Expression, body: Vec<StmtData> },
    Conditional { conds: Vec<Expression>, bodies: Vec<Vec<StmtData>> },
    Return(Option<Expression>),
    Declare(String, StackLocation, ExprTypeCons),
    Assign { variable: Expression, assign: Expression },
    Expr(Expression),
}

/// Parses an expression statement at `*index`: an expression set, then
/// `;`.  Where no expression set starts there, the error is soft and the
/// parser may try another kind of statement; a set without its `;` is a
/// hard error.  On success `*index` is the position after the `;`; on an
/// error it is left as it was.
pub fn parse_expr_statement(
    structs: &[Struct],
    line: usize,
    functions: &[FullFunctionDefinition],
    variables: &[(String, VariableData)],
    tokens: &[Tkn],
    index: &mut usize,
    cells: &mut TypeCells,
) -> (r: FullResult<StmtData, ParserError, ParserError>)
    requires
        !(set_spec(
            Ctx { tokens: tokens@, structs: structs@, fns: functions@, vars: vars_view(variables@), line },
            *old(index) as int,
            old(cells)@,
        ) is Stuck),
    ensures
        ({
            let ctx = Ctx { tokens: tokens@, structs: structs@, fns: functions@, vars: vars_view(variables@), line };
            let goal = set_spec(ctx, *old(index) as int, old(cells)@);
            match r {
                FullResult::Okay(s) => {
                    &&& goal matches PEnd::Parsed(e, q, c)
                    &&& token_at_matches(tokens@, q, TknView::Semicolon)
                    &&& s.line == line
                    &&& s.stmt matches Statement::Expr(x)
                    &&& x@ == e
                    &&& *final(index) == q + 1
                    &&& final(cells)@ == c
                },
                FullResult::SoftErr(x) => goal == PEnd::Error(x@, final(cells)@) && *final(index) == *old(index),
                FullResult::HardErr(x) => {
                    &&& goal matches PEnd::Parsed(e, q, c)
                    &&& !token_at_matches(tokens@, q, TknView::Semicolon)
                    &&& q < tokens@.len()
                    &&& x@ == (ParserErrorView::ExpectedToken { tkn: tokens@[q]@, expected: TknView::Semicolon })
                    &&& *final(index) == *old(index)
                    &&& final(cells)@ == c
                },
            }
        }),
        final(cells)@.len() >= old(cells)@.len(),
{
    let n = tokens.len();
    let mut peek = *index;
    let e = match parse_expression_set(structs, tokens, &mut peek, line, functions, variables, cells) {
        Err(x) => {
            return FullResult::SoftErr(x);
        },
        Ok(e) => e,
    };
    if is_token(tokens, TokenType::Semicolon, peek) {
        *index = peek + 1;
        FullResult::Okay(StmtData { line, stmt: Statement::Expr(e) })
    } else {
        FullResult::HardErr(ParserError::ExpectedToken { tkn: tokens[peek].clone(), expected: TokenType::Semicolon })
    }
}

/// What a return statement at `i` gives: a soft error where `return` is
/// not there; `return ;` returns nothing; else the expression set after
/// `return` is matched against `expected` (whether or not they match) and
/// must end with `;`.
pub open spec fn return_ok_spec(
    tokens: Seq<Tkn>,
    ctx: Ctx,
    i: int,
    c: Seq<TypeView>,
    expected: TypeView,
) -> bool {
    token_at_matches(tokens, i, TknView::Keyword(Keyword::Return)) && !token_at_matches(tokens, i + 1, TknView::Semicolon)
        ==> {
        &&& !(set_spec(ctx, i + 1, c) is Stuck)
        &&& set_spec(ctx, i + 1, c) matches PEnd::Parsed(e, q, c2) ==> {
            &&& valid_ty(c2, e.ty)
            &&& room(c2)
            &&& cells_match(c2.push(expected), e.ty, seq![c2.len() as usize]) is Some
        }
    }
}

/// Parses a return statement at `*index`: `return ;`, or `return`, an
/// expression set and `;`.  The expression's type is matched against
/// `expected_type`, the type the function returns; a mismatch is not
/// reported here.  Without `return` the error is soft; after it, errors
/// are hard.  On success `*index` is the position after the `;`; on an
/// error it is left as it was.
pub fn parse_return(
    structs: &[Struct],
    line: usize,
    functions: &[FullFunctionDefinition],
    variables: &[(String, VariableData)],
    tokens: &[Tkn],
    expected_type: &ExprType,
    index: &mut usize,
    cells: &mut TypeCells,
) -> (r: FullResult<StmtData, ParserError, ParserError>)
    requires
        *old(index) < tokens@.len(),
        return_ok_spec(
            tokens@,
            Ctx { tokens: tokens@, structs: structs@, fns: functions@, vars: vars_view(variables@), line },
            *old(index) as int,
            old(cells)@,
            expected_type@,
        ),
    ensures
        ({
            let ctx = Ctx { tokens: tokens@, structs: structs@, fns: functions@, vars: vars_view(variables@), line };
            let i = *old(index) as int;
            if !token_at_matches(tokens@, i, TknView::Keyword(Keyword::Return)) {
                &&& r matches FullResult::SoftErr(x)
                &&& x@ == ParserErrorView::ExpectedToken { tkn: tokens@[i]@, expected: TknView::Keyword(Keyword::Return) }
                &&& *final(index) == *old(index)
                &&& final(cells)@ == old(cells)@
            } else if token_at_matches(tokens@, i + 1, TknView::Semicolon) {
                &&& r matches FullResult::Okay(s)
                &&& s.line == line
                &&& s.stmt matches Statement::Return(None)
                &&& *final(index) == i + 2
                &&& final(cells)@ == old(cells)@
            } else {
                match set_spec(ctx, i + 1, old(cells)@) {
                    PEnd::Error(e, c2) => {
                        &&& r matches FullResult::HardErr(x)
                        &&& x@ == e
                        &&& *final(index) == *old(index)
                        &&& final(cells)@ == c2
                    },
                    PEnd::Parsed(e, q, c2) => {
                        let c3 = c2.push(expected_type@);
                        let (_, c4) = cells_match(c3, e.ty, seq![c2.len() as usize])->0;
                        &&& final(cells)@ == c4
                        &&& if token_at_matches(tokens@, q, TknView::Semicolon) {
                            &&& r matches FullResult::Okay(s)
                            &&& s.line == line
                            &&& s.stmt matches Statement::Return(Some(x))
                            &&& x@ == ExprView { line, data: e.data, ty: e.ty }
                            &&& *final(index) == q + 1
                        } else {
                            &&& q < tokens@.len()
                            &&& r matches FullResult::HardErr(x)
                            &&& x@ == ParserErrorView::ExpectedToken { tkn: tokens@[q]@, expected: TknView::Semicolon }
                            &&& *final(index) == *old(index)
                        }
                    },
                    PEnd::Stuck => false,
                }
            }
        }),
{
    let n = tokens.len();
    let i = *index;
    if !is_token(tokens, TokenType::Keyword(Keyword::Return), i) {
        return FullResult::SoftErr(ParserError::ExpectedToken {
            tkn: tokens[i].clone(),
            expected: TokenType::Keyword(Keyword::Return),
        });
    }
    if is_token(tokens, TokenType::Semicolon, i + 1) {
        *index = i + 2;
        return FullResult::Okay(StmtData { line, stmt: Statement::Return(None) });
    }
    let mut peek = i + 1;
    let e = match parse_expression_set(structs, tokens, &mut peek, line, functions, variables, cells) {
        Err(x) => {
            return FullResult::HardErr(x);
        },
        Ok(e) => e,
    };
    let ghost c2 = cells@;
    let Expression { line: _, expr_data, expr_type } = e;
    let mut ety = expr_type;
    let mut target = ExprTypeCons::new(cells, expected_type.copy());
    proof {
        crate::parser::expr_parse::lemma_valid_grows(c2, cells@, ety@);
    }
    let _ = ety.match_type(&mut target, cells);
    if is_token(tokens, TokenType::Semicolon, peek) {
        *index = peek + 1;
        FullResult::Okay(StmtData { line, stmt: Statement::Return(Some(Expression { line, expr_data, expr_type: ety })) })
    } else {
        FullResult::HardErr(ParserError::ExpectedToken { tkn: tokens[peek].clone(), expected: TokenType::Semicolon })
    }
}

/// What an assignment statement at `i` needs to be read to its end: a
/// pattern that can be read, and after it and `=`, an expression set that
/// can be read, whose type is a type in the cells, matchable with the type
/// of the variable it is assigned to; the pattern must be a name or `_`.
pub open spec fn assignment_ok(tokens: Seq<Tkn>, ctx: Ctx, i: int, c: Seq<TypeView>) -> bool {
    &&& !(pattern_spec(tokens, i) is Stuck)
    &&& pattern_spec(tokens, i) matches PatEnd::Parsed(pv, p1) ==> {
        &&& p1 < tokens.len()
        &&& token_at_matches(tokens, p1, TknView::Operation(Operator::Assign)) ==> {
            &&& (pv is Ident || pv is DiscardSingle)
            &&& !(set_spec(ctx, p1 + 1, c) is Stuck)
            &&& set_spec(ctx, p1 + 1, c) matches PEnd::Parsed(e, q, c2) ==> {
                &&& valid_ty(c2, e.ty)
                &&& pv matches crate::parser::patterns::PatternView::Ident { name, .. } && find_variable(ctx.vars, name)
                    matches Some(v) ==> crate::parser::expr::match_result(
                    type_of(c2, ctx.vars[v].3),
                    type_of(c2, e.ty),
                ) is Some
            }
        }
    }
}

/// Parses an assignment statement at `*index`: a pattern, `=`, an
/// expression set and `;`; the expression is assigned to the pattern (see
/// [`assign_spec`]), reported at the statement's first token.  Until the
/// `=` the errors are soft; after it, hard.  On success `*index` is the
/// position after the `;`; on an error it is left as it was.
pub fn parse_variable_assignment(
    structs: &[Struct],
    line: usize,
    functions: &[FullFunctionDefinition],
    variables: &[(String, VariableData)],
    tokens: &[Tkn],
    index: &mut usize,
    cells: &mut TypeCells,
) -> (r: FullResult<Vec<StmtData>, ParserError, ParserError>)
    requires
        assignment_ok(
            tokens@,
            Ctx { tokens: tokens@, structs: structs@, fns: functions@, vars: vars_view(variables@), line },
            *old(index) as int,
            old(cells)@,
        ),
        forall|v: int| 0 <= v < variables@.len() ==> (#[trigger] variables@[v]).1.expr_type.valid_in(old(cells)@),
    ensures
        ({
            let ctx = Ctx { tokens: tokens@, structs: structs@, fns: functions@, vars: vars_view(variables@), line };
            let i = *old(index) as int;
            match pattern_spec(tokens@, i) {
                PatEnd::Error(e) => r matches FullResult::SoftErr(x) && x@ == e && *final(index) == *old(index)
                    && final(cells)@ == old(cells)@,
                PatEnd::Parsed(pv, p1) => if !token_at_matches(tokens@, p1, TknView::Operation(Operator::Assign)) {
                    &&& r matches FullResult::SoftErr(x)
                    &&& x@ == ParserErrorView::ExpectedToken {
                        tkn: tokens@[p1]@,
                        expected: TknView::Operation(Operator::Assign),
                    }
                    &&& *final(index) == *old(index)
                    &&& final(cells)@ == old(cells)@
                } else {
                    match set_spec(ctx, p1 + 1, old(cells)@) {
                        PEnd::Error(e, c2) => r matches FullResult::HardErr(x) && x@ == e && *final(index) == *old(index)
                            && final(cells)@ == c2,
                        PEnd::Parsed(e, q, c2) => match assign_spec(vars_view(variables@), false, pv, e, tokens@, i, line, c2) {
                            AssignEnd::Error(err, c3) => r matches FullResult::HardErr(x) && x@ == err
                                && *final(index) == *old(index) && final(cells)@ == c3,
                            AssignEnd::Assigned(a, b, c3) => {
                                &&& final(cells)@ == c3
                                &&& if token_at_matches(tokens@, q, TknView::Semicolon) {
                                    &&& r matches FullResult::Okay(stmts)
                                    &&& stmts@.len() == 1
                                    &&& stmts@[0].line == line
                                    &&& stmts@[0].stmt matches Statement::Assign { variable, assign }
                                    &&& variable@ == a
                                    &&& assign@ == b
                                    &&& *final(index) == q + 1
                                } else {
                                    &&& q < tokens@.len()
                                    &&& r matches FullResult::HardErr(x)
                                    &&& x@ == ParserErrorView::ExpectedToken { tkn: tokens@[q]@, expected: TknView::Semicolon }
                                    &&& *final(index) == *old(index)
                                }
                            },
                            AssignEnd::Nothing => {
                                &&& final(cells)@ == c2
                                &&& if token_at_matches(tokens@, q, TknView::Semicolon) {
                                    &&& r matches FullResult::Okay(stmts)
                                    &&& stmts@.len() == 0
                                    &&& *final(index) == q + 1
                                } else {
                                    &&& q < tokens@.len()
                                    &&& r matches FullResult::HardErr(x)
                                    &&& x@ == ParserErrorView::ExpectedToken { tkn: tokens@[q]@, expected: TknView::Semicolon }
                                    &&& *final(index) == *old(index)
                                }
                            },
                        },
                        PEnd::Stuck => false,
                    }
                },
                PatEnd::Stuck => false,
            }
        }),
{
    let n = tokens.len();
    let i = *index;
    let mut peek = i;
    let pattern = match parse_identifier_pattern(tokens, &mut peek) {
        Err(e) => {
            return FullResult::SoftErr(e);
        },
        Ok(p) => p,
    };
    if !is_token(tokens, TokenType::Operation(Operator::Assign), peek) {
        return FullResult::SoftErr(ParserError::ExpectedToken {
            tkn: tokens[peek].clone(),
            expected: TokenType::Operation(Operator::Assign),
        });
    }
    let ghost c0 = cells@;
    peek = peek + 1;
    let e = match parse_expression_set(structs, tokens, &mut peek, line, functions, variables, cells) {
        Err(x) => {
            return FullResult::HardErr(x);
        },
        Ok(e) => e,
    };
    let ghost c2 = cells@;
    assert forall|v: int| 0 <= v < variables@.len() implies (#[trigger] variables@[v]).1.expr_type.valid_in(c2) by {
        crate::parser::expr_parse::lemma_valid_grows(c0, c2, variables@[v].1.expr_type@);
    }
    proof {
        if let PatternView::Ident { name, .. } = pattern@ {
            if let Some(v) = find_variable(vars_view(variables@), name) {
                crate::parser::expr_parse::lemma_find_variable_bound(vars_view(variables@), name);
                assert(vars_view(variables@)[v].3 == variables@[v].1.expr_type@);
            }
        }
    }
    let stmts = match assign_variable_pattern(variables, false, &pattern, e, tokens, i, line, cells) {
        Err(x) => {
            return FullResult::HardErr(x);
        },
        Ok(stmts) => stmts,
    };
    if is_token(tokens, TokenType::Semicolon, peek) {
        *index = peek + 1;
        FullResult::Okay(stmts)
    } else {
        FullResult::HardErr(ParserError::ExpectedToken { tkn: tokens[peek].clone(), expected: TokenType::Semicolon })
    }
}

/// The stack that a `let` at `i` declares on: the oxidized one where `oxy`
/// follows `let`, else the collected one.
pub open spec fn let_location(tokens: Seq<Tkn>, i: int) -> StackLocation {
    if token_at_matches(tokens, i + 1, TknView::Keyword(Keyword::Oxidize)) {
        StackLocation::Oxy
    } else {
        StackLocation::GC
    }
}

/// Where the pattern of a `let` at `i` starts.
pub open spec fn let_pattern_start(tokens: Seq<Tkn>, i: int) -> int {
    if token_at_matches(tokens, i + 1, TknView::Keyword(Keyword::Oxidize)) {
        i + 2
    } else {
        i + 1
    }
}

/// The type a pattern that ends at `p` is declared with, and the position
/// after it: after `:` the type named there, else the ambiguous type;
/// `None` where `:` is followed by no type.
pub open spec fn let_type(tokens: Seq<Tkn>, p: int, structs: Seq<Struct>) -> Option<(TypeView, int)> {
    if token_at_matches(tokens, p, TknView::Colon) {
        match named_type(tokens, p + 1, structs) {
            Some(t) => Some((t, p + 2)),
            None => None,
        }
    } else {
        Some((TypeView::AmbiguousType, p))
    }
}

/// What the value of a `let` read at `k` in `ctx` needs: an expression set
/// that can be read, whose type is a type in the cells, matchable with the
/// type of the variable it is given to.
pub open spec fn let_value_ok(ctx: Ctx, pv: PatternView, k: int, c: Seq<TypeView>) -> bool {
    &&& !(set_spec(ctx, k, c) is Stuck)
    &&& set_spec(ctx, k, c) matches PEnd::Parsed(e, q, c2) ==> {
        &&& valid_ty(c2, e.ty)
        &&& pv matches PatternView::Ident { name, .. } && find_variable(ctx.vars, name) matches Some(v)
            ==> crate::parser::expr::match_result(type_of(c2, ctx.vars[v].3), type_of(c2, e.ty)) is Some
    }
}

/// What a `let` statement at `i` needs to be read to its end: a pattern
/// that can be read and declared, followed by tokens; where `=` follows,
/// the pattern is a name or `_`, and the value can be read in the scope
/// that holds the new variables (see [`let_value_ok`]).
pub open spec fn let_ok(ctx: Ctx, i: int, c: Seq<TypeView>) -> bool {
    let tokens = ctx.tokens;
    let j = let_pattern_start(tokens, i);
    &&& 0 <= i < tokens.len()
    &&& token_at_matches(tokens, i, TknView::Keyword(Keyword::Let)) ==> {
        &&& !(pattern_spec(tokens, j) is Stuck)
        &&& pattern_spec(tokens, j) matches PatEnd::Parsed(pv, p1) ==> {
            &&& j < tokens.len()
            &&& p1 < tokens.len()
            &&& token_at_matches(tokens, p1, TknView::Colon) ==> p1 + 1 < tokens.len()
            &&& let_type(tokens, p1, ctx.structs) matches Some((ty, p2)) ==> {
                &&& !(declare_spec(pv, let_location(tokens, i), ty, ctx.vars, c, tokens[j]@, ctx.line) is Stuck)
                &&& declare_spec(pv, let_location(tokens, i), ty, ctx.vars, c, tokens[j]@, ctx.line)
                    matches DeclEnd::Done(v, c1, _) ==> {
                    &&& p2 < tokens.len()
                    &&& token_at_matches(tokens, p2, TknView::Operation(Operator::Assign)) ==> {
                        &&& (pv is Ident || pv is DiscardSingle)
                        &&& let_value_ok(
                            Ctx { tokens, structs: ctx.structs, fns: ctx.fns, vars: v, line: ctx.line },
                            pv,
                            p2 + 1,
                            c1,
                        )
                    }
                }
            }
        }
    }
}

/// How a `let` statement whose pattern is declared ends, given the
/// position `p` after the value (or after the pattern and its type), the
/// variables in scope, the statements so far and the cells: with `;` at `p`, the statements and the
/// position after it; else the error at `p`.
pub open spec fn let_end(
    tokens: Seq<Tkn>,
    p: int,
    v: Seq<VarView>,
    d: Seq<Option<(usize, Seq<char>, StackLocation, Seq<usize>)>>,
    assigned: Option<(ExprView, ExprView)>,
    c: Seq<TypeView>,
) -> LetEnd {
    if token_at_matches(tokens, p, TknView::Semicolon) {
        LetEnd::Done(v, d, assigned, p + 1, c)
    } else {
        LetEnd::Hard(ParserErrorView::ExpectedToken { tkn: tokens[p]@, expected: TknView::Semicolon }, c)
    }
}

/// How reading a `let` statement ends: stuck (on tokens that run out or
/// an input the grammar does not cover), a soft error, a hard error with
/// the cells as they were left, or the variables in scope, the
/// declarations, the assignment of the value where there is one, the
/// position after the statement and the cells.
pub enum LetEnd {
    Stuck,
    Soft(ParserErrorView),
    Hard(ParserErrorView, Seq<TypeView>),
    Done(
        Seq<VarView>,
        Seq<Option<(usize, Seq<char>, StackLocation, Seq<usize>)>>,
        Option<(ExprView, ExprView)>,
        int,
        Seq<TypeView>,
    ),
}

/// How reading a `let` statement at `i` in `ctx` ends, the value being
/// read in the scope that holds the pattern's names: `let`, optionally `oxy`, a
/// pattern, optionally `:` and a type, optionally `=` and an expression
/// set, and `;`.  Before the pattern the error is soft; from it on, hard.
pub open spec fn let_spec(ctx: Ctx, i: int, c: Seq<TypeView>) -> LetEnd {
    let tokens = ctx.tokens;
    let j = let_pattern_start(tokens, i);
    if !token_at_matches(tokens, i, TknView::Keyword(Keyword::Let)) {
        LetEnd::Soft(ParserErrorView::ExpectedToken { tkn: tokens[i]@, expected: TknView::Keyword(Keyword::Let) })
    } else {
        match pattern_spec(tokens, j) {
            PatEnd::Parsed(pv, p1) => match let_type(tokens, p1, ctx.structs) {
                None => LetEnd::Hard(ParserErrorView::ExpectedType { tkn: tokens[p1 + 1]@ }, c),
                Some((ty, p2)) => match declare_spec(pv, let_location(tokens, i), ty, ctx.vars, c, tokens[j]@, ctx.line) {
                    DeclEnd::Done(v, c1, d) => if token_at_matches(tokens, p2, TknView::Operation(Operator::Assign)) {
                        let ctx2 = Ctx { tokens, structs: ctx.structs, fns: ctx.fns, vars: v, line: ctx.line };
                        match set_spec(ctx2, p2 + 1, c1) {
                            PEnd::Parsed(e, q, c2) => match assign_spec(v, true, pv, e, tokens, j, ctx.line, c2) {
                                AssignEnd::Error(err, c3) => LetEnd::Hard(err, c3),
                                AssignEnd::Assigned(a, b, c3) => let_end(tokens, q, v, d, Some((a, b)), c3),
                                AssignEnd::Nothing => let_end(tokens, q, v, d, None, c2),
                            },
                            PEnd::Error(e, c2) => LetEnd::Hard(e, c2),
                            PEnd::Stuck => LetEnd::Stuck,
                        }
                    } else {
                        let_end(tokens, p2, v, d, None, c1)
                    },
                    DeclEnd::Error(e, _, c1) => LetEnd::Hard(e, c1),
                    DeclEnd::Stuck => LetEnd::Stuck,
                },
            },
            PatEnd::Error(e) => LetEnd::Hard(e, c),
            PatEnd::Stuck => LetEnd::Stuck,
        }
    }
}

/// Parses a variable declaration at `*index`: `let`, optionally `oxy` for
/// the oxidized stack, a pattern, optionally `:` and a type, optionally `=`
/// and an expression set, and `;` (see [`let_spec`]).  The pattern's names
/// are declared (see [`declare_spec`]) into `variables`, and the value is
/// assigned to the pattern in the scope that holds them.  Before the
/// pattern the error is soft; from it on, hard.  On success `*index` is the
/// position after the `;`; on an error it is left as it was.
pub fn parse_variable_declaration(
    structs: &[Struct],
    line: usize,
    functions: &[FullFunctionDefinition],
    variables: &mut Vec<(String, VariableData)>,
    tokens: &[Tkn],
    index: &mut usize,
    cells: &mut TypeCells,
) -> (r: FullResult<Vec<StmtData>, ParserError, ParserError>)
    requires
        let_ok(
            Ctx { tokens: tokens@, structs: structs@, fns: functions@, vars: vars_view(old(variables)@), line },
            *old(index) as int,
            old(cells)@,
        ),
        forall|v: int| 0 <= v < old(variables)@.len() ==> (#[trigger] old(variables)@[v]).1.expr_type.valid_in(old(cells)@),
    ensures
        ({
            let ctx = Ctx { tokens: tokens@, structs: structs@, fns: functions@, vars: vars_view(old(variables)@), line };
            match let_spec(ctx, *old(index) as int, old(cells)@) {
                LetEnd::Stuck => false,
                LetEnd::Soft(e) => r matches FullResult::SoftErr(x) && x@ == e && *final(index) == *old(index)
                    && final(cells)@ == old(cells)@ && final(variables)@ == old(variables)@,
                LetEnd::Hard(e, c) => r matches FullResult::HardErr(x) && x@ == e && *final(index) == *old(index)
                    && final(cells)@ == c,
                LetEnd::Done(v, d, assigned, p, c) => {
                    &&& r matches FullResult::Okay(stmts)
                    &&& vars_view(final(variables)@) == v
                    &&& final(cells)@ == c
                    &&& *final(index) == p
                    &&& decls_view(stmts@.take(d.len() as int)) == d
                    &&& forall|k: int| 0 <= k < d.len() ==> #[trigger] d[k] is Some
                    &&& match assigned {
                        None => stmts@.len() == d.len(),
                        Some((a, b)) => {
                            &&& stmts@.len() == d.len() + 1
                            &&& stmts@.last().line == line
                            &&& stmts@.last().stmt matches Statement::Assign { variable, assign }
                            &&& variable@ == a
                            &&& assign@ == b
                        },
                    }
                },
            }
        }),
{
    let ghost ctx = Ctx { tokens: tokens@, structs: structs@, fns: functions@, vars: vars_view(variables@), line };
    let ghost c0 = cells@;
    let n = tokens.len();
    let i = *index;
    if !is_token(tokens, TokenType::Keyword(Keyword::Let), i) {
        return FullResult::SoftErr(ParserError::ExpectedToken {
            tkn: tokens[i].clone(),
            expected: TokenType::Keyword(Keyword::Let),
        });
    }
    let mut peek = i + 1;
    let stack_location = if is_token(tokens, TokenType::Keyword(Keyword::Oxidize), peek) {
        peek = peek + 1;
        StackLocation::Oxy
    } else {
        StackLocation::GC
    };
    let j = peek;
    let pattern = match parse_identifier_pattern(tokens, &mut peek) {
        Err(e) => {
            return FullResult::HardErr(e);
        },
        Ok(p) => p,
    };
    let ty = if is_token(tokens, TokenType::Colon, peek) {
        peek = peek + 1;
        match get_type(tokens, &mut peek, structs) {
            None => {
                return FullResult::HardErr(ParserError::ExpectedType { tkn: tokens[peek].clone() });
            },
            Some(t) => t,
        }
    } else {
        ExprType::AmbiguousType
    };
    proof {
        assert forall|k: int| 0 <= k < vars_view(variables@).len() implies cells_in(#[trigger] vars_view(variables@)[k].3, c0) by {
            assert(variables@[k].1.expr_type.valid_in(c0));
        }
        lemma_declare_cells(pattern@, stack_location, ty@, vars_view(variables@), c0, tokens@[j as int]@, line);
    }
    let mut stmts = match declare_variable_pattern(variables, &pattern, stack_location, ty, tokens, j, line, cells) {
        Err(e) => {
            return FullResult::HardErr(e);
        },
        Ok(s) => s,
    };
    let ghost c1 = cells@;
    let ghost d = decls_view(stmts@);
    assert(stmts@.take(d.len() as int) =~= stmts@);
    if is_token(tokens, TokenType::Operation(Operator::Assign), peek) {
        peek = peek + 1;
        let ghost ctx2 = Ctx { tokens: tokens@, structs: structs@, fns: functions@, vars: vars_view(variables@), line };
        assert(let_value_ok(ctx2, pattern@, peek as int, c1));
        let e = match parse_expression_set(structs, tokens, &mut peek, line, functions, variables.as_slice(), cells) {
            Err(x) => {
                return FullResult::HardErr(x);
            },
            Ok(e) => e,
        };
        let ghost c2 = cells@;
        assert forall|v: int| 0 <= v < variables@.len() implies (#[trigger] variables@[v]).1.expr_type.valid_in(c2) by {
            assert(cells_in(vars_view(variables@)[v].3, c1));
            crate::parser::expr_parse::lemma_valid_grows(c1, c2, variables@[v].1.expr_type@);
        }
        let more = match assign_variable_pattern(variables.as_slice(), true, &pattern, e, tokens, j, line, cells) {
            Err(x) => {
                return FullResult::HardErr(x);
            },
            Ok(s) => s,
        };
        if more.len() == 1 {
            let mut more = more;
            let s = more.remove(0);
            stmts.push(s);
            assert(stmts@.take(d.len() as int) =~= stmts@.drop_last());
        }
    }
    if is_token(tokens, TokenType::Semicolon, peek) {
        *index = peek + 1;
        FullResult::Okay(stmts)
    } else {
        FullResult::HardErr(ParserError::ExpectedToken { tkn: tokens[peek].clone(), expected: TokenType::Semicolon })
    }
}

} // verus!
