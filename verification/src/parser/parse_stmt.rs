//! Parsing statements: blocks, loops, chains of conditions, and the
//! statement that starts at a position.
use vstd::prelude::*;
use crate::full_result::FullResult;
use crate::lexer::token::{Keyword, Tkn, TknView, TokenType};
use crate::parser::expr::{ExprType, ExprTypeCons, TypeCells, TypeView};
use crate::parser::expr_grammar::Ctx;
use crate::parser::expr_parse::{exprs_view, vars_view, Expression, VarView, VariableData};
use crate::parser::functions::{param_view, params_view, FullFunctionDefinition, FunctionParamater, ParamView};
use crate::parser::parse_set::parse_expression_set;
use crate::parser::parser_error::ParserError;
use crate::parser::patterns::{cells_in, decl_view, decls_view};
use crate::parser::stmt::{
    parse_expr_statement, parse_return, parse_variable_assignment, parse_variable_declaration, LetEnd, Statement, StmtData,
};
use crate::parser::stmt_grammar::{
    arm_spec, block_spec, bodies_view, body_spec, compound_spec, conditional_spec, decl_stmts, else_spec, in_scope,
    on_line, let_stmt_spec, simple_stmt_spec, statement_kinds, stmt_spec, stmt_view, stmts_view, while_spec, ArmEnd, BEnd, SEnd,
    StmtDataView, StmtView,
};
use crate::parser::structs::Struct;
use crate::parser::{defs_parsable, defs_spec, definition_errors, parse, program_matches, Program};
use crate::parser::tokens::{clone_tokens, is_token};

verus! {

/// What statements are parsed with: the tokens, structs and functions, the
/// variables in scope and the line.
pub open spec fn stmt_ctx(
    tokens: Seq<Tkn>,
    structs: Seq<Struct>,
    fns: Seq<FullFunctionDefinition>,
    vars: Seq<VarView>,
    line: usize,
) -> Ctx {
    Ctx { tokens, structs, fns, vars, line }
}

/// What a statement parse gave, as an [`SEnd`], with the variables in
/// scope after it.
pub open spec fn stmts_outcome(
    r: FullResult<Vec<StmtData>, ParserError, ParserError>,
    index: int,
    c: Seq<TypeView>,
    vars: Seq<VarView>,
) -> SEnd {
    match r {
        FullResult::Okay(s) => SEnd::Parsed(stmts_view(s@), index, c, vars),
        FullResult::SoftErr(x) => SEnd::Soft(x@, c),
        FullResult::HardErr(x) => SEnd::Hard(x@, c),
    }
}

/// What a parse of one statement gave, as an [`SEnd`].
pub open spec fn stmt_outcome(
    r: FullResult<StmtData, ParserError, ParserError>,
    index: int,
    c: Seq<TypeView>,
    vars: Seq<VarView>,
) -> SEnd {
    match r {
        FullResult::Okay(s) => SEnd::Parsed(seq![stmt_view(s)], index, c, vars),
        FullResult::SoftErr(x) => SEnd::Soft(x@, c),
        FullResult::HardErr(x) => SEnd::Hard(x@, c),
    }
}

/// What a parse of a block gave, as a [`BEnd`].
pub open spec fn block_outcome(r: Result<Vec<StmtData>, ParserError>, index: int, c: Seq<TypeView>) -> BEnd {
    match r {
        Ok(s) => BEnd::Done(stmts_view(s@), index, c),
        Err(x) => BEnd::Hard(x@, c),
    }
}

/// What a parse of a condition and its block gave, as an [`ArmEnd`].
pub open spec fn arm_outcome(r: Result<(Expression, Vec<StmtData>), ParserError>, index: int, c: Seq<TypeView>) -> ArmEnd {
    match r {
        Ok((e, s)) => ArmEnd::Done(e@, stmts_view(s@), index, c),
        Err(x) => ArmEnd::Hard(x@, c),
    }
}

/// What the rest of a chain of conditions gave, as an [`SEnd`].
pub open spec fn chain_outcome(r: Result<StmtData, ParserError>, index: int, c: Seq<TypeView>, vars: Seq<VarView>) -> SEnd {
    match r {
        Ok(s) => SEnd::Parsed(seq![stmt_view(s)], index, c, vars),
        Err(x) => SEnd::Hard(x@, c),
    }
}

/// A position as a spec value.
pub open spec fn opt_pos(o: Option<usize>) -> Option<int> {
    match o {
        Some(x) => Some(x as int),
        None => None,
    }
}

/// The views of two lists of statements one after the other.
pub proof fn lemma_stmts_view_concat(a: Seq<StmtData>, b: Seq<StmtData>)
    ensures
        stmts_view(a + b) == stmts_view(a) + stmts_view(b),
    decreases b.len(),
{
    if b.len() == 0 {
        assert(a + b =~= a);
        assert(stmts_view(b) =~= Seq::<StmtDataView>::empty());
        assert(stmts_view(a) + stmts_view(b) =~= stmts_view(a));
    } else {
        assert((a + b).drop_last() =~= a + b.drop_last());
        assert((a + b).last() == b.last());
        lemma_stmts_view_concat(a, b.drop_last());
        assert(stmts_view(a) + stmts_view(b) =~= (stmts_view(a) + stmts_view(b.drop_last())).push(stmt_view(b.last())));
    }
}

/// The view of a list of one statement.
pub proof fn lemma_stmts_view_one(s: Seq<StmtData>)
    requires
        s.len() == 1,
    ensures
        stmts_view(s) == seq![stmt_view(s[0])],
{
    assert(s.drop_last().len() == 0);
    assert(stmts_view(s.drop_last()) =~= Seq::<StmtDataView>::empty());
    assert(stmts_view(s) =~= seq![stmt_view(s[0])]);
}

/// The views of a list of statements, one by one.
pub proof fn lemma_stmts_view_index(s: Seq<StmtData>)
    ensures
        stmts_view(s).len() == s.len(),
        forall|k: int| 0 <= k < s.len() ==> #[trigger] stmts_view(s)[k] == stmt_view(s[k]),
    decreases s.len(),
{
    if s.len() > 0 {
        lemma_stmts_view_index(s.drop_last());
    }
}

/// Recorded declarations, every one of them there, are the declaration
/// statements they record.
pub proof fn lemma_decls_are_statements(s: Seq<StmtData>, d: Seq<Option<(usize, Seq<char>, crate::parser::stmt::StackLocation, Seq<usize>)>>)
    requires
        decls_view(s) == d,
        forall|k: int| 0 <= k < d.len() ==> #[trigger] d[k] is Some,
    ensures
        stmts_view(s) == decl_stmts(d),
{
    lemma_stmts_view_index(s);
    assert forall|k: int| 0 <= k < s.len() implies #[trigger] stmts_view(s)[k] == decl_stmts(d)[k] by {
        assert(decls_view(s)[k] == decl_view(s[k]));
        assert(d[k] is Some);
    }
    assert(stmts_view(s) =~= decl_stmts(d));
}

/// A copy of the variables in scope.
fn copy_vars(v: &[(String, VariableData)]) -> (r: Vec<(String, VariableData)>)
    ensures
        vars_view(r@) == vars_view(v@),
{
    let mut out: Vec<(String, VariableData)> = Vec::new();
    let mut k: usize = 0;
    while k < v.len()
        invariant
            k <= v@.len(),
            vars_view(out@) == vars_view(v@).take(k as int),
        decreases v@.len() - k,
    {
        let ghost before = out@;
        let e = (v[k].0.clone(), VariableData {
            tkn: v[k].1.tkn.clone(),
            mutable: v[k].1.mutable,
            expr_type: v[k].1.expr_type.clone(),
        });
        out.push(e);
        assert(vars_view(out@) =~= vars_view(before).push(vars_view(v@)[k as int]));
        k += 1;
        assert(vars_view(out@) =~= vars_view(v@).take(k as int));
    }
    assert(vars_view(v@).take(k as int) =~= vars_view(v@));
    out
}

/// `a` followed by `b`.
fn join_stmts(a: Vec<StmtData>, b: Vec<StmtData>) -> (r: Vec<StmtData>)
    ensures
        r@ == a@ + b@,
{
    let mut out = a;
    let ghost start = out@;
    let ghost all = b@;
    let mut b = b;
    let n = b.len();
    let mut k: usize = 0;
    while k < n
        invariant
            k <= n == all.len(),
            b@ == all.subrange(k as int, n as int),
            out@ == start + all.take(k as int),
        decreases n - k,
    {
        let d = b.remove(0);
        out.push(d);
        k += 1;
        assert(out@ =~= start + all.take(k as int));
        assert(b@ =~= all.subrange(k as int, n as int));
    }
    assert(all.take(n as int) =~= all);
    out
}

/// The statements of a block from `p` on (see [`block_spec`]), read with
/// the variables of `scope`, which the declarations among them extend.
#[verifier::spinoff_prover]
fn block_exec(
    structs: &[Struct],
    functions: &[FullFunctionDefinition],
    tokens: &[Tkn],
    ret: &ExprType,
    line: usize,
    scope: &mut Vec<(String, VariableData)>,
    p: usize,
    cells: &mut TypeCells,
) -> (r: (Result<Vec<StmtData>, ParserError>, usize))
    requires
        !(block_spec(stmt_ctx(tokens@, structs@, functions@, vars_view(old(scope)@), line), p as int, old(cells)@, ret@)
            is Stuck),
    ensures
        block_outcome(r.0, r.1 as int, final(cells)@) == block_spec(
            stmt_ctx(tokens@, structs@, functions@, vars_view(old(scope)@), line),
            p as int,
            old(cells)@,
            ret@,
        ),
    decreases tokens@.len() - p, 13int,
{
    let ghost ctx = stmt_ctx(tokens@, structs@, functions@, vars_view(scope@), line);
    assert(on_line(ctx, 0) == stmt_ctx(tokens@, structs@, functions@, vars_view(scope@), 0));
    let mut idx = p;
    let r = parse_statement(structs, functions, scope, tokens, ret, &mut idx, cells);
    match r {
        FullResult::SoftErr(_) => (Ok(Vec::new()), p),
        FullResult::HardErr(e) => (Err(e), p),
        FullResult::Okay(ss) => {
            assert(in_scope(ctx, vars_view(scope@)) == stmt_ctx(tokens@, structs@, functions@, vars_view(scope@), line));
            let (rest, q) = block_exec(structs, functions, tokens, ret, line, scope, idx, cells);
            match rest {
                Err(e) => (Err(e), q),
                Ok(rest) => {
                    proof {
                        lemma_stmts_view_concat(ss@, rest@);
                    }
                    (Ok(join_stmts(ss, rest)), q)
                },
            }
        },
    }
}

/// A block from `p` (see [`body_spec`]), in a scope of its own that starts
/// with the variables of `variables`; closed by `}` where `open` is given.
fn body_exec(
    structs: &[Struct],
    functions: &[FullFunctionDefinition],
    tokens: &[Tkn],
    ret: &ExprType,
    line: usize,
    variables: &[(String, VariableData)],
    open: Option<usize>,
    p: usize,
    cells: &mut TypeCells,
) -> (r: (Result<Vec<StmtData>, ParserError>, usize))
    requires
        !(body_spec(stmt_ctx(tokens@, structs@, functions@, vars_view(variables@), line), opt_pos(open), p as int, old(cells)@, ret@)
            is Stuck),
    ensures
        block_outcome(r.0, r.1 as int, final(cells)@) == body_spec(
            stmt_ctx(tokens@, structs@, functions@, vars_view(variables@), line),
            opt_pos(open),
            p as int,
            old(cells)@,
            ret@,
        ),
    decreases tokens@.len() - p, 14int,
{
    let n = tokens.len();
    let mut scope = copy_vars(variables);
    let (r, q) = block_exec(structs, functions, tokens, ret, line, &mut scope, p, cells);
    match r {
        Err(e) => (Err(e), q),
        Ok(ss) => match open {
            None => (Ok(ss), q),
            Some(o) => if is_token(tokens, TokenType::CloseCurlyBrace, q) {
                (Ok(ss), q + 1)
            } else {
                (Err(ParserError::ExpectedClosingBrace { tkn: tokens[q].clone(), open_brace: tokens[o].clone() }), q)
            },
        },
    }
}

/// A condition of type `bool` at `p` and the block after it (see
/// [`arm_spec`]).
fn arm_exec(
    structs: &[Struct],
    functions: &[FullFunctionDefinition],
    tokens: &[Tkn],
    ret: &ExprType,
    line: usize,
    variables: &[(String, VariableData)],
    p: usize,
    cells: &mut TypeCells,
) -> (r: (Result<(Expression, Vec<StmtData>), ParserError>, usize))
    requires
        !(arm_spec(stmt_ctx(tokens@, structs@, functions@, vars_view(variables@), line), p as int, old(cells)@, ret@) is Stuck),
    ensures
        arm_outcome(r.0, r.1 as int, final(cells)@) == arm_spec(
            stmt_ctx(tokens@, structs@, functions@, vars_view(variables@), line),
            p as int,
            old(cells)@,
            ret@,
        ),
    decreases tokens@.len() - p, 8int,
{
    let n = tokens.len();
    let mut q = p;
    let e = match parse_expression_set(structs, tokens, &mut q, line, functions, variables, cells) {
        Err(x) => {
            return (Err(x), p);
        },
        Ok(e) => e,
    };
    let t = e.expr_type.clone_inner(cells);
    match t {
        ExprType::Bool => {},
        _ => {
            let tkns = clone_tokens(tokens, p, q);
            assert(tkns@.map_values(|x: Tkn| x@) =~= tokens@.subrange(p as int, q as int).map_values(|x: Tkn| x@));
            return (Err(ParserError::CouldNotMatchType { tkns, calculated_type: t, expected_type: ExprType::Bool }), p);
        },
    }
    if !is_token(tokens, TokenType::OpenCurlyBrace, q) {
        return (Err(ParserError::ExpectedToken { tkn: tokens[q].clone(), expected: TokenType::OpenCurlyBrace }), p);
    }
    let (b, q2) = body_exec(structs, functions, tokens, ret, line, variables, Some(q), q + 1, cells);
    match b {
        Err(x) => (Err(x), q2),
        Ok(ss) => (Ok((e, ss)), q2),
    }
}

/// Parses a compound statement at `*index` (see [`compound_spec`]): `$`
/// and statements, or `{`, statements and `}`, read in a scope of their
/// own.  Without `$` or `{` the error is soft.  On success `*index` is the
/// position after the statement; on an error it is left as it was.
pub fn parse_compound_statement(
    structs: &[Struct],
    line: usize,
    functions: &[FullFunctionDefinition],
    variables: &[(String, VariableData)],
    tokens: &[Tkn],
    expected_type: &ExprType,
    index: &mut usize,
    cells: &mut TypeCells,
) -> (r: FullResult<StmtData, ParserError, ParserError>)
    requires
        !(compound_spec(
            stmt_ctx(tokens@, structs@, functions@, vars_view(variables@), line),
            *old(index) as int,
            old(cells)@,
            expected_type@,
        ) is Stuck),
    ensures
        stmt_outcome(r, *final(index) as int, final(cells)@, vars_view(variables@)) == compound_spec(
            stmt_ctx(tokens@, structs@, functions@, vars_view(variables@), line),
            *old(index) as int,
            old(cells)@,
            expected_type@,
        ),
        !(r is Okay) ==> *final(index) == *old(index),
        r is SoftErr ==> final(cells)@ == old(cells)@,
    decreases tokens@.len() - *old(index), 8int,
{
    proof {
        reveal(compound_spec);
    }
    let n = tokens.len();
    let i = *index;
    let open = if is_token(tokens, TokenType::Dollar, i) {
        None
    } else if is_token(tokens, TokenType::OpenCurlyBrace, i) {
        Some(i)
    } else {
        let received = crate::parser::expr_parse::token_types_from(tokens, i, n - i);
        let expected = vec![TokenType::Dollar, TokenType::OpenCurlyBrace];
        assert(expected@.map_values(|t: TokenType| t@) =~= seq![TknView::Dollar, TknView::OpenCurlyBrace]);
        assert(received@.map_values(|t: TokenType| t@) =~= crate::parser::expr_grammar::types_from(
            stmt_ctx(tokens@, structs@, functions@, vars_view(variables@), line),
            i as int,
            (n - i) as int,
        ));
        return FullResult::SoftErr(ParserError::ExpectedTokens {
            tkn: tokens[i].clone(),
            received,
            expected,
        });
    };
    let (b, q) = body_exec(structs, functions, tokens, expected_type, line, variables, open, i + 1, cells);
    match b {
        Err(x) => FullResult::HardErr(x),
        Ok(ss) => {
            *index = q;
            FullResult::Okay(StmtData { line, stmt: Statement::Compound(ss) })
        },
    }
}

/// Parses a while loop at `*index` (see [`while_spec`]): `while`, a
/// condition of type `bool`, and a block in a scope of its own.  Without
/// `while` the error is soft.  On success `*index` is the position after
/// the loop; on an error it is left as it was.
pub fn parse_while_statement(
    structs: &[Struct],
    line: usize,
    functions: &[FullFunctionDefinition],
    variables: &[(String, VariableData)],
    tokens: &[Tkn],
    expected_type: &ExprType,
    index: &mut usize,
    cells: &mut TypeCells,
) -> (r: FullResult<StmtData, ParserError, ParserError>)
    requires
        !(while_spec(
            stmt_ctx(tokens@, structs@, functions@, vars_view(variables@), line),
            *old(index) as int,
            old(cells)@,
            expected_type@,
        ) is Stuck),
    ensures
        stmt_outcome(r, *final(index) as int, final(cells)@, vars_view(variables@)) == while_spec(
            stmt_ctx(tokens@, structs@, functions@, vars_view(variables@), line),
            *old(index) as int,
            old(cells)@,
            expected_type@,
        ),
        !(r is Okay) ==> *final(index) == *old(index),
        r is SoftErr ==> final(cells)@ == old(cells)@,
    decreases tokens@.len() - *old(index), 9int,
{
    proof {
        reveal(while_spec);
    }
    let n = tokens.len();
    let i = *index;
    if !is_token(tokens, TokenType::Keyword(Keyword::While), i) {
        return FullResult::SoftErr(ParserError::ExpectedToken {
            tkn: tokens[i].clone(),
            expected: TokenType::Keyword(Keyword::While),
        });
    }
    let (a, q) = arm_exec(structs, functions, tokens, expected_type, line, variables, i + 1, cells);
    match a {
        Err(x) => FullResult::HardErr(x),
        Ok((cond, body)) => {
            *index = q;
            FullResult::Okay(StmtData { line, stmt: Statement::While { cond, body } })
        },
    }
}

/// The `else if` and `else` parts of a chain of conditions from `p` (see
/// [`else_spec`]), with the conditions and bodies read so far.
fn else_exec(
    structs: &[Struct],
    functions: &[FullFunctionDefinition],
    tokens: &[Tkn],
    ret: &ExprType,
    line: usize,
    variables: &[(String, VariableData)],
    p: usize,
    conds: Vec<Expression>,
    bodies: Vec<Vec<StmtData>>,
    cells: &mut TypeCells,
) -> (r: (Result<StmtData, ParserError>, usize))
    requires
        !(else_spec(
            stmt_ctx(tokens@, structs@, functions@, vars_view(variables@), line),
            p as int,
            exprs_view(conds@),
            bodies_view(bodies@),
            old(cells)@,
            ret@,
        ) is Stuck),
    ensures
        chain_outcome(r.0, r.1 as int, final(cells)@, vars_view(variables@)) == else_spec(
            stmt_ctx(tokens@, structs@, functions@, vars_view(variables@), line),
            p as int,
            exprs_view(conds@),
            bodies_view(bodies@),
            old(cells)@,
            ret@,
        ),
    decreases tokens@.len() - p, 9int,
{
    let n = tokens.len();
    let mut conds = conds;
    let mut bodies = bodies;
    if !is_token(tokens, TokenType::Keyword(Keyword::Else), p) {
        return (Ok(StmtData { line, stmt: Statement::Conditional { conds, bodies } }), p);
    }
    if is_token(tokens, TokenType::Keyword(Keyword::If), p + 1) {
        let (a, q) = arm_exec(structs, functions, tokens, ret, line, variables, p + 2, cells);
        match a {
            Err(x) => (Err(x), q),
            Ok((cond, body)) => {
                let ghost cv = exprs_view(conds@);
                let ghost bv = bodies_view(bodies@);
                let ghost cond_v = cond@;
                let ghost body_v = stmts_view(body@);
                let ghost c0 = conds@;
                let ghost b0 = bodies@;
                conds.push(cond);
                bodies.push(body);
                assert(conds@.drop_last() =~= c0);
                assert(bodies@.drop_last() =~= b0);
                assert(exprs_view(conds@) == cv.push(cond_v));
                assert(bodies_view(bodies@) == bv.push(body_v));
                else_exec(structs, functions, tokens, ret, line, variables, q, conds, bodies, cells)
            },
        }
    } else if !is_token(tokens, TokenType::OpenCurlyBrace, p + 1) {
        (Err(ParserError::ExpectedToken { tkn: tokens[p + 1].clone(), expected: TokenType::OpenCurlyBrace }), p)
    } else {
        let (b, q) = body_exec(structs, functions, tokens, ret, line, variables, Some(p + 1), p + 2, cells);
        match b {
            Err(x) => (Err(x), q),
            Ok(ss) => {
                let ghost bv = bodies_view(bodies@);
                let ghost body_v = stmts_view(ss@);
                let ghost b0 = bodies@;
                bodies.push(ss);
                assert(bodies@.drop_last() =~= b0);
                assert(bodies_view(bodies@) == bv.push(body_v));
                (Ok(StmtData { line, stmt: Statement::Conditional { conds, bodies } }), q)
            },
        }
    }
}

/// Parses a chain of conditions at `*index` (see [`conditional_spec`]):
/// `if`, a condition and a block, any number of `else if`, a condition and
/// a block, and at most one `else` and a block.  Each condition has type
/// `bool`; each block has a scope of its own.  Without `if` the error is
/// soft.  On success `*index` is the position after the chain; on an
/// error it is left as it was.
pub fn parse_conditional_statement(
    structs: &[Struct],
    line: usize,
    functions: &[FullFunctionDefinition],
    variables: &[(String, VariableData)],
    tokens: &[Tkn],
    expected_type: &ExprType,
    index: &mut usize,
    cells: &mut TypeCells,
) -> (r: FullResult<StmtData, ParserError, ParserError>)
    requires
        !(conditional_spec(
            stmt_ctx(tokens@, structs@, functions@, vars_view(variables@), line),
            *old(index) as int,
            old(cells)@,
            expected_type@,
        ) is Stuck),
    ensures
        stmt_outcome(r, *final(index) as int, final(cells)@, vars_view(variables@)) == conditional_spec(
            stmt_ctx(tokens@, structs@, functions@, vars_view(variables@), line),
            *old(index) as int,
            old(cells)@,
            expected_type@,
        ),
        !(r is Okay) ==> *final(index) == *old(index),
        r is SoftErr ==> final(cells)@ == old(cells)@,
    decreases tokens@.len() - *old(index), 10int,
{
    proof {
        reveal(conditional_spec);
    }
    let n = tokens.len();
    let i = *index;
    if !is_token(tokens, TokenType::Keyword(Keyword::If), i) {
        return FullResult::SoftErr(ParserError::ExpectedToken {
            tkn: tokens[i].clone(),
            expected: TokenType::Keyword(Keyword::If),
        });
    }
    let (a, q) = arm_exec(structs, functions, tokens, expected_type, line, variables, i + 1, cells);
    match a {
        Err(x) => FullResult::HardErr(x),
        Ok((cond, body)) => {
            let mut conds: Vec<Expression> = Vec::new();
            let mut bodies: Vec<Vec<StmtData>> = Vec::new();
            let ghost cond_v = cond@;
            let ghost body_v = stmts_view(body@);
            conds.push(cond);
            bodies.push(body);
            assert(conds@.drop_last() =~= Seq::<Expression>::empty());
            assert(bodies@.drop_last() =~= Seq::<Vec<StmtData>>::empty());
            assert(exprs_view(Seq::<Expression>::empty()) =~= Seq::<crate::parser::expr_parse::ExprView>::empty());
            assert(bodies_view(Seq::<Vec<StmtData>>::empty()) =~= Seq::<Seq<StmtDataView>>::empty());
            assert(exprs_view(conds@) =~= seq![cond_v]);
            assert(bodies_view(bodies@) =~= seq![body_v]);
            let (r, q2) = else_exec(structs, functions, tokens, expected_type, line, variables, q, conds, bodies, cells);
            match r {
                Err(x) => FullResult::HardErr(x),
                Ok(s) => {
                    *index = q2;
                    FullResult::Okay(s)
                },
            }
        },
    }
}

/// One statement in a list.
fn single(s: StmtData) -> (r: Vec<StmtData>)
    ensures
        stmts_view(r@) == seq![stmt_view(s)],
{
    let mut v: Vec<StmtData> = Vec::new();
    v.push(s);
    proof {
        lemma_stmts_view_one(v@);
    }
    v
}

/// Parses the statement at `*index` in a function returning
/// `expected_type` (see [`stmt_spec`]): the first of a compound statement,
/// a while loop, a chain of conditions, a declaration, an assignment, a
/// return and an expression statement that starts there, on the line of
/// its first token.  A declaration adds its variables to `variables`.
/// Where no statement starts, the error is soft.  On success `*index` is
/// the position after the statement; on an error it is left as it was.
#[verifier::rlimit(100)]
#[verifier::spinoff_prover]
pub fn parse_statement(
    structs: &[Struct],
    functions: &[FullFunctionDefinition],
    variables: &mut Vec<(String, VariableData)>,
    tokens: &[Tkn],
    expected_type: &ExprType,
    index: &mut usize,
    cells: &mut TypeCells,
) -> (r: FullResult<Vec<StmtData>, ParserError, ParserError>)
    requires
        !(stmt_spec(stmt_ctx(tokens@, structs@, functions@, vars_view(old(variables)@), 0), *old(index) as int, old(cells)@, expected_type@)
            is Stuck),
    ensures
        stmts_outcome(r, *final(index) as int, final(cells)@, vars_view(final(variables)@)) == stmt_spec(
            stmt_ctx(tokens@, structs@, functions@, vars_view(old(variables)@), 0),
            *old(index) as int,
            old(cells)@,
            expected_type@,
        ),
        !(r is Okay) ==> *final(index) == *old(index),
        r is SoftErr ==> vars_view(final(variables)@) == vars_view(old(variables)@),
    decreases tokens@.len() - *old(index), 12int,
{
    let ghost ctx0 = stmt_ctx(tokens@, structs@, functions@, vars_view(variables@), 0);
    let ghost c0 = cells@;
    let ghost v0 = vars_view(variables@);
    let ghost i0 = *index as int;
    let n = tokens.len();
    let i = *index;
    let line = tokens[i].line_number;
    let ghost cx = on_line(ctx0, line);
    assert(cx == stmt_ctx(tokens@, structs@, functions@, vars_view(variables@), line));
    assert(stmt_spec(ctx0, i0, c0, expected_type@) == statement_kinds(cx, i0, c0, expected_type@));
    match parse_compound_statement(structs, line, functions, variables.as_slice(), tokens, expected_type, index, cells) {
        FullResult::Okay(s) => {
            return FullResult::Okay(single(s));
        },
        FullResult::HardErr(e) => {
            return FullResult::HardErr(e);
        },
        FullResult::SoftErr(_) => {},
    }
    match parse_while_statement(structs, line, functions, variables.as_slice(), tokens, expected_type, index, cells) {
        FullResult::Okay(s) => {
            return FullResult::Okay(single(s));
        },
        FullResult::HardErr(e) => {
            return FullResult::HardErr(e);
        },
        FullResult::SoftErr(_) => {},
    }
    match parse_conditional_statement(structs, line, functions, variables.as_slice(), tokens, expected_type, index, cells) {
        FullResult::Okay(s) => {
            return FullResult::Okay(single(s));
        },
        FullResult::HardErr(e) => {
            return FullResult::HardErr(e);
        },
        FullResult::SoftErr(_) => {},
    }
    parse_simple_statement(structs, line, functions, variables, tokens, expected_type, index, cells)
}

/// A declaration at `*index` (see [`let_stmt_spec`]), its statements as a
/// list.
fn let_stmt_exec(
    structs: &[Struct],
    line: usize,
    functions: &[FullFunctionDefinition],
    variables: &mut Vec<(String, VariableData)>,
    tokens: &[Tkn],
    index: &mut usize,
    cells: &mut TypeCells,
) -> (r: FullResult<Vec<StmtData>, ParserError, ParserError>)
    requires
        !(let_stmt_spec(stmt_ctx(tokens@, structs@, functions@, vars_view(old(variables)@), line), *old(index) as int, old(cells)@)
            is Stuck),
    ensures
        stmts_outcome(r, *final(index) as int, final(cells)@, vars_view(final(variables)@)) == let_stmt_spec(
            stmt_ctx(tokens@, structs@, functions@, vars_view(old(variables)@), line),
            *old(index) as int,
            old(cells)@,
        ),
        !(r is Okay) ==> *final(index) == *old(index),
        r is SoftErr ==> vars_view(final(variables)@) == vars_view(old(variables)@),
{
    let ghost cx = stmt_ctx(tokens@, structs@, functions@, vars_view(variables@), line);
    let ghost c0 = cells@;
    let ghost i0 = *index as int;
    proof {
        assert forall|v: int| 0 <= v < variables@.len() implies (#[trigger] variables@[v]).1.expr_type.valid_in(c0) by {
            assert(cells_in(cx.vars[v].3, c0));
        }
    }
    let ghost lres = crate::parser::stmt::let_spec(cx, i0, c0);
    let r = parse_variable_declaration(structs, line, functions, variables, tokens, index, cells);
    proof {
        if r is Okay {
            let s = r->Okay_0;
            if let LetEnd::Done(v, d, assigned, p, c2) = lres {
                let k = d.len() as int;
                assert(s@ =~= s@.take(k) + s@.skip(k));
                lemma_decls_are_statements(s@.take(k), d);
                lemma_stmts_view_concat(s@.take(k), s@.skip(k));
                match assigned {
                    Some((a, b)) => {
                        lemma_stmts_view_one(s@.skip(k));
                        assert(s@.skip(k)[0] == s@.last());
                    },
                    None => {
                        assert(s@.skip(k).len() == 0);
                        assert(stmts_view(s@.skip(k)) =~= Seq::<StmtDataView>::empty());
                    },
                }
            }
        }
    }
    r
}

/// Parses a statement at `*index` that holds no block (see
/// [`simple_stmt_spec`]): the first of a declaration, an assignment, a
/// return and an expression statement that starts there.
#[verifier::spinoff_prover]
fn parse_simple_statement(
    structs: &[Struct],
    line: usize,
    functions: &[FullFunctionDefinition],
    variables: &mut Vec<(String, VariableData)>,
    tokens: &[Tkn],
    expected_type: &ExprType,
    index: &mut usize,
    cells: &mut TypeCells,
) -> (r: FullResult<Vec<StmtData>, ParserError, ParserError>)
    requires
        !(simple_stmt_spec(
            stmt_ctx(tokens@, structs@, functions@, vars_view(old(variables)@), line),
            *old(index) as int,
            old(cells)@,
            expected_type@,
        ) is Stuck),
    ensures
        stmts_outcome(r, *final(index) as int, final(cells)@, vars_view(final(variables)@)) == simple_stmt_spec(
            stmt_ctx(tokens@, structs@, functions@, vars_view(old(variables)@), line),
            *old(index) as int,
            old(cells)@,
            expected_type@,
        ),
        !(r is Okay) ==> *final(index) == *old(index),
        r is SoftErr ==> vars_view(final(variables)@) == vars_view(old(variables)@),
{
    proof {
        reveal(simple_stmt_spec);
    }
    let ghost cx = stmt_ctx(tokens@, structs@, functions@, vars_view(variables@), line);
    let ghost c0 = cells@;
    let i = *index;
    match let_stmt_exec(structs, line, functions, variables, tokens, index, cells) {
        FullResult::Okay(s) => {
            return FullResult::Okay(s);
        },
        FullResult::HardErr(e) => {
            return FullResult::HardErr(e);
        },
        FullResult::SoftErr(_) => {},
    }
    assert(stmt_ctx(tokens@, structs@, functions@, vars_view(variables@), line) == cx);
    proof {
        assert forall|v: int| 0 <= v < variables@.len() implies (#[trigger] variables@[v]).1.expr_type.valid_in(c0) by {
            assert(cells_in(cx.vars[v].3, c0));
        }
    }
    match parse_variable_assignment(structs, line, functions, variables.as_slice(), tokens, index, cells) {
        FullResult::Okay(s) => {
            proof {
                if s@.len() == 1 {
                    lemma_stmts_view_one(s@);
                } else {
                    assert(stmts_view(s@) =~= Seq::<StmtDataView>::empty());
                }
            }
            return FullResult::Okay(s);
        },
        FullResult::HardErr(e) => {
            return FullResult::HardErr(e);
        },
        FullResult::SoftErr(_) => {},
    }
    match parse_return(structs, line, functions, variables.as_slice(), tokens, expected_type, index, cells) {
        FullResult::Okay(s) => {
            return FullResult::Okay(single(s));
        },
        FullResult::HardErr(e) => {
            return FullResult::HardErr(e);
        },
        FullResult::SoftErr(_) => {},
    }
    match parse_expr_statement(structs, line, functions, variables.as_slice(), tokens, index, cells) {
        FullResult::Okay(s) => FullResult::Okay(single(s)),
        FullResult::HardErr(e) => FullResult::HardErr(e),
        FullResult::SoftErr(_) => FullResult::SoftErr(ParserError::InvalidStatement { tkn: tokens[i].clone() }),
    }
}

/// A function whose body is parsed into statements.
pub struct Function {
    pub location: String,
    pub name: String,
    pub accessibility: String,
    pub mutable: bool,
    pub recursive: bool,
    pub left_args: Vec<FunctionParamater>,
    pub right_args: Vec<FunctionParamater>,
    pub return_type: ExprType,
    pub body: Vec<StmtData>,
}

/// The variables that the parameters `ps` become, each in a new cell after
/// the `n` there are.
pub open spec fn params_vars(ps: Seq<ParamView>, n: nat) -> Seq<VarView> {
    Seq::new(ps.len(), |k: int| (ps[k].param_name, ps[k].tkn, false, seq![(n + k) as usize]))
}

/// The cells `c` with a new cell for the type of each of the parameters
/// `ps`.
pub open spec fn params_cells(ps: Seq<ParamView>, c: Seq<TypeView>) -> Seq<TypeView> {
    c + Seq::new(ps.len(), |k: int| ps[k].param_type)
}

/// The statements of a function's body from `p` on: statement after
/// statement until the tokens end, or one does not start (a soft error),
/// or a hard error.
pub open spec fn function_body_spec(ctx: Ctx, p: int, c: Seq<TypeView>, ret: TypeView) -> BEnd
    decreases ctx.tokens.len() - p,
{
    if p < 0 {
        BEnd::Stuck
    } else if p >= ctx.tokens.len() {
        BEnd::Done(Seq::empty(), p, c)
    } else {
        match stmt_spec(on_line(ctx, 0), p, c, ret) {
            SEnd::Stuck => BEnd::Stuck,
            SEnd::Soft(_, c2) => BEnd::Done(Seq::empty(), p, c2),
            SEnd::Hard(e, c2) => BEnd::Hard(e, c2),
            SEnd::Parsed(ss, q, c2, v) => if q <= p || q > ctx.tokens.len() {
                BEnd::Stuck
            } else {
                match function_body_spec(in_scope(ctx, v), q, c2, ret) {
                    BEnd::Done(rest, q2, c3) => BEnd::Done(ss + rest, q2, c3),
                    other => other,
                }
            },
        }
    }
}

/// The statements of a function's body from `p` on (see
/// [`function_body_spec`]).
fn function_body_exec(
    structs: &[Struct],
    functions: &[FullFunctionDefinition],
    tokens: &[Tkn],
    ret: &ExprType,
    scope: &mut Vec<(String, VariableData)>,
    p: usize,
    cells: &mut TypeCells,
) -> (r: (Result<Vec<StmtData>, ParserError>, usize))
    requires
        !(function_body_spec(stmt_ctx(tokens@, structs@, functions@, vars_view(old(scope)@), 0), p as int, old(cells)@, ret@)
            is Stuck),
    ensures
        block_outcome(r.0, r.1 as int, final(cells)@) == function_body_spec(
            stmt_ctx(tokens@, structs@, functions@, vars_view(old(scope)@), 0),
            p as int,
            old(cells)@,
            ret@,
        ),
    decreases tokens@.len() - p,
{
    let ghost ctx = stmt_ctx(tokens@, structs@, functions@, vars_view(scope@), 0);
    if p >= tokens.len() {
        return (Ok(Vec::new()), p);
    }
    assert(on_line(ctx, 0) == ctx);
    let mut idx = p;
    let r = parse_statement(structs, functions, scope, tokens, ret, &mut idx, cells);
    match r {
        FullResult::SoftErr(_) => (Ok(Vec::new()), p),
        FullResult::HardErr(e) => (Err(e), p),
        FullResult::Okay(ss) => {
            assert(in_scope(ctx, vars_view(scope@)) == stmt_ctx(tokens@, structs@, functions@, vars_view(scope@), 0));
            let (rest, q) = function_body_exec(structs, functions, tokens, ret, scope, idx, cells);
            match rest {
                Err(e) => (Err(e), q),
                Ok(rest) => {
                    proof {
                        lemma_stmts_view_concat(ss@, rest@);
                    }
                    (Ok(join_stmts(ss, rest)), q)
                },
            }
        },
    }
}

/// Adds a variable for each of the parameters `ps`, each in a new cell of
/// its type.
fn add_params(scope: &mut Vec<(String, VariableData)>, ps: &Vec<FunctionParamater>, cells: &mut TypeCells)
    requires
        forall|k: int| 0 <= k < ps@.len() ==> #[trigger] ps@[k].param_name is Some,
        old(cells)@.len() + ps@.len() < usize::MAX,
    ensures
        vars_view(final(scope)@) == vars_view(old(scope)@) + params_vars(params_view(ps@), old(cells)@.len()),
        final(cells)@ == params_cells(params_view(ps@), old(cells)@),
{
    let ghost v0 = vars_view(scope@);
    let ghost c0 = cells@;
    let ghost pv = params_view(ps@);
    let mut k: usize = 0;
    while k < ps.len()
        invariant
            k <= ps@.len(),
            pv == params_view(ps@),
            forall|j: int| 0 <= j < ps@.len() ==> #[trigger] ps@[j].param_name is Some,
            c0.len() + ps@.len() < usize::MAX,
            vars_view(scope@) == v0 + params_vars(pv, c0.len()).take(k as int),
            cells@ == params_cells(pv.take(k as int), c0),
        decreases ps@.len() - k,
    {
        let ghost before = scope@;
        let ghost cb = cells@;
        assert(cells@.len() == c0.len() + k);
        let name = match &ps[k].param_name {
            Some(n) => n.clone(),
            None => String::new(),
        };
        let cell = ExprTypeCons::new(cells, ps[k].param_type.copy());
        scope.push((name, VariableData { tkn: ps[k].tkn.clone(), mutable: false, expr_type: cell }));
        assert(pv[k as int] == param_view(ps@[k as int]));
        assert(vars_view(scope@) =~= vars_view(before).push(params_vars(pv, c0.len())[k as int]));
        k += 1;
        assert(vars_view(scope@) =~= v0 + params_vars(pv, c0.len()).take(k as int));
        assert(cells@ =~= params_cells(pv.take(k as int), c0));
    }
    assert(pv.take(k as int) =~= pv);
}

/// What the body of the function `f`, the tokens `tokens` of its braces
/// included, is read in: the tokens inside the braces, and its parameters,
/// left ones first, as variables.
pub open spec fn function_ctx(
    structs: Seq<Struct>,
    functions: Seq<FullFunctionDefinition>,
    f: FullFunctionDefinition,
    tokens: Seq<Tkn>,
    c: Seq<TypeView>,
) -> Ctx {
    stmt_ctx(
        tokens.subrange(1, tokens.len() - 1),
        structs,
        functions,
        params_vars(params_view(f.left_args@) + params_view(f.right_args@), c.len()),
        0,
    )
}

/// Parses the body of the function `fn_def`, given by the tokens of its
/// braces and what is between them (see [`function_body_spec`]): its
/// parameters, left ones first, are variables in new cells; the statements
/// are read until the tokens end or one does not start.  A hard error in
/// the body is the function's error.
pub fn parse_function(
    structs: &[Struct],
    functions: &[FullFunctionDefinition],
    fn_def: FullFunctionDefinition,
    tokens: &[Tkn],
    cells: &mut TypeCells,
) -> (r: Result<Function, ParserError>)
    requires
        tokens@.len() >= 2,
        forall|k: int| 0 <= k < fn_def.left_args@.len() ==> #[trigger] fn_def.left_args@[k].param_name is Some,
        forall|k: int| 0 <= k < fn_def.right_args@.len() ==> #[trigger] fn_def.right_args@[k].param_name is Some,
        old(cells)@.len() + fn_def.left_args@.len() + fn_def.right_args@.len() < usize::MAX,
        !(function_body_spec(
            function_ctx(structs@, functions@, fn_def, tokens@, old(cells)@),
            0,
            params_cells(params_view(fn_def.left_args@) + params_view(fn_def.right_args@), old(cells)@),
            fn_def.return_type@,
        ) is Stuck),
    ensures
        match function_body_spec(
            function_ctx(structs@, functions@, fn_def, tokens@, old(cells)@),
            0,
            params_cells(params_view(fn_def.left_args@) + params_view(fn_def.right_args@), old(cells)@),
            fn_def.return_type@,
        ) {
            BEnd::Done(ss, _, c) => {
                &&& r matches Ok(f)
                &&& stmts_view(f.body@) == ss
                &&& f.name == fn_def.name
                &&& f.accessibility == fn_def.accessibility
                &&& f.location@ == Seq::<char>::empty()
                &&& f.mutable == fn_def.mutable
                &&& f.recursive == fn_def.recursive
                &&& params_view(f.left_args@) == params_view(fn_def.left_args@)
                &&& params_view(f.right_args@) == params_view(fn_def.right_args@)
                &&& f.return_type@ == fn_def.return_type@
                &&& final(cells)@ == c
            },
            BEnd::Hard(e, c) => r matches Err(x) && x@ == e && final(cells)@ == c,
            BEnd::Stuck => false,
        },
{
    let ghost c0 = cells@;
    let ghost lv = params_view(fn_def.left_args@);
    let ghost rv = params_view(fn_def.right_args@);
    let mut scope: Vec<(String, VariableData)> = Vec::new();
    assert(vars_view(scope@) =~= Seq::<VarView>::empty());
    add_params(&mut scope, &fn_def.left_args, cells);
    let ghost c1 = cells@;
    add_params(&mut scope, &fn_def.right_args, cells);
    proof {
        assert(params_vars(lv, c0.len()) + params_vars(rv, c1.len()) =~= params_vars(lv + rv, c0.len()));
        assert(params_cells(rv, params_cells(lv, c0)) =~= params_cells(lv + rv, c0));
        assert(vars_view(scope@) =~= params_vars(lv + rv, c0.len()));
    }
    let body = clone_tokens(tokens, 1, tokens.len() - 1);
    let ret = fn_def.return_type.copy();
    let (r, _) = function_body_exec(structs, functions, body.as_slice(), &ret, &mut scope, 0, cells);
    match r {
        Err(e) => Err(e),
        Ok(stmts) => {
            let FullFunctionDefinition { accessibility, name, mutable, recursive, left_args, right_args, return_type } = fn_def;
            Ok(Function {
                location: String::new(),
                name,
                accessibility,
                mutable,
                recursive,
                left_args,
                right_args,
                return_type,
                body: stmts,
            })
        },
    }
}

/// Whether the body `body` of the function `f` can be read with the cells
/// `c`: its braces are there, its parameters have names, and the cells
/// have room for one per parameter.
pub open spec fn function_readable(f: FullFunctionDefinition, body: Seq<Tkn>, c: Seq<TypeView>) -> bool {
    &&& body.len() >= 2
    &&& forall|k: int| 0 <= k < f.left_args@.len() ==> #[trigger] f.left_args@[k].param_name is Some
    &&& forall|k: int| 0 <= k < f.right_args@.len() ==> #[trigger] f.right_args@[k].param_name is Some
    &&& c.len() + f.left_args@.len() + f.right_args@.len() < usize::MAX
}

/// What reading the body of the function `f` gives (see
/// [`function_body_spec`]).
pub open spec fn function_spec(
    structs: Seq<Struct>,
    functions: Seq<FullFunctionDefinition>,
    f: FullFunctionDefinition,
    body: Seq<Tkn>,
    c: Seq<TypeView>,
) -> BEnd {
    if !function_readable(f, body, c) {
        BEnd::Stuck
    } else {
        function_body_spec(
            function_ctx(structs, functions, f, body, c),
            0,
            params_cells(params_view(f.left_args@) + params_view(f.right_args@), c),
            f.return_type@,
        )
    }
}

/// What reading the bodies of the functions from the `k`-th on gives:
/// stuck, or the names and statements of the functions read, in order, the
/// errors of those whose bodies hold one, and the cells.  A function with
/// no body is passed over.
pub open spec fn functions_spec(
    structs: Seq<Struct>,
    functions: Seq<FullFunctionDefinition>,
    bodies: Seq<Vec<Tkn>>,
    k: int,
    c: Seq<TypeView>,
) -> Option<(Seq<(Seq<char>, Seq<StmtDataView>)>, Seq<crate::parser::parser_error::ParserErrorView>, Seq<TypeView>)>
    decreases bodies.len() - k,
{
    if k < 0 || k >= bodies.len() || k >= functions.len() {
        Some((Seq::empty(), Seq::empty(), c))
    } else if bodies[k]@.len() == 0 {
        functions_spec(structs, functions, bodies, k + 1, c)
    } else {
        match function_spec(structs, functions, functions[k], bodies[k]@, c) {
            BEnd::Stuck => None,
            BEnd::Done(ss, _, c2) => match functions_spec(structs, functions, bodies, k + 1, c2) {
                Some((fs, es, c3)) => Some((seq![(functions[k].name@, ss)] + fs, es, c3)),
                None => None,
            },
            BEnd::Hard(e, c2) => match functions_spec(structs, functions, bodies, k + 1, c2) {
                Some((fs, es, c3)) => Some((fs, seq![e] + es, c3)),
                None => None,
            },
        }
    }
}

/// The names and statements of functions.
pub open spec fn functions_view(fs: Seq<Function>) -> Seq<(Seq<char>, Seq<StmtDataView>)> {
    fs.map_values(|f: Function| (f.name@, stmts_view(f.body@)))
}

/// Parses the bodies of the functions `functions` from the `k`-th on,
/// whose body tokens are `bodies` (see [`functions_spec`]).
fn parse_functions_from(
    structs: &[Struct],
    functions: &[FullFunctionDefinition],
    bodies: &[Vec<Tkn>],
    k: usize,
    cells: &mut TypeCells,
) -> (r: (Vec<Function>, Vec<ParserError>))
    requires
        functions_spec(structs@, functions@, bodies@, k as int, old(cells)@) is Some,
    ensures
        functions_spec(structs@, functions@, bodies@, k as int, old(cells)@) == Some(
            (functions_view(r.0@), crate::parser::parser_error::errors_view(r.1@), final(cells)@),
        ),
    decreases bodies@.len() - k,
{
    if k >= bodies.len() || k >= functions.len() {
        let fs: Vec<Function> = Vec::new();
        let es: Vec<ParserError> = Vec::new();
        assert(functions_view(fs@) =~= Seq::empty());
        assert(crate::parser::parser_error::errors_view(es@) =~= Seq::empty());
        return (fs, es);
    }
    if bodies[k].len() == 0 {
        return parse_functions_from(structs, functions, bodies, k + 1, cells);
    }
    let d = functions[k].copy();
    proof {
        assert(function_ctx(structs@, functions@, d, bodies@[k as int]@, cells@) == function_ctx(
            structs@,
            functions@,
            functions@[k as int],
            bodies@[k as int]@,
            cells@,
        ));
    }
    let r = parse_function(structs, functions, d, bodies[k].as_slice(), cells);
    let (fs, es) = parse_functions_from(structs, functions, bodies, k + 1, cells);
    match r {
        Ok(f) => {
            let mut out: Vec<Function> = Vec::new();
            let ghost fv = (f.name@, stmts_view(f.body@));
            out.push(f);
            let all = join_functions(out, fs);
            assert(functions_view(all@) =~= seq![fv] + functions_view(fs@));
            (all, es)
        },
        Err(e) => {
            let mut out: Vec<ParserError> = Vec::new();
            let ghost ev = e@;
            out.push(e);
            let all = join_errors(out, es);
            assert(crate::parser::parser_error::errors_view(all@) =~= seq![ev] + crate::parser::parser_error::errors_view(es@));
            (fs, all)
        },
    }
}

/// `a` followed by `b`.
fn join_functions(a: Vec<Function>, b: Vec<Function>) -> (r: Vec<Function>)
    ensures
        r@ == a@ + b@,
{
    let mut out = a;
    let ghost start = out@;
    let ghost all = b@;
    let mut b = b;
    let n = b.len();
    let mut k: usize = 0;
    while k < n
        invariant
            k <= n == all.len(),
            b@ == all.subrange(k as int, n as int),
            out@ == start + all.take(k as int),
        decreases n - k,
    {
        let d = b.remove(0);
        out.push(d);
        k += 1;
        assert(out@ =~= start + all.take(k as int));
        assert(b@ =~= all.subrange(k as int, n as int));
    }
    assert(all.take(n as int) =~= all);
    out
}

/// `a` followed by `b`.
fn join_errors(a: Vec<ParserError>, b: Vec<ParserError>) -> (r: Vec<ParserError>)
    ensures
        r@ == a@ + b@,
{
    let mut out = a;
    let ghost start = out@;
    let ghost all = b@;
    let mut b = b;
    let n = b.len();
    let mut k: usize = 0;
    while k < n
        invariant
            k <= n == all.len(),
            b@ == all.subrange(k as int, n as int),
            out@ == start + all.take(k as int),
        decreases n - k,
    {
        let d = b.remove(0);
        out.push(d);
        k += 1;
        assert(out@ =~= start + all.take(k as int));
        assert(b@ =~= all.subrange(k as int, n as int));
    }
    assert(all.take(n as int) =~= all);
    out
}

/// Parses the bodies of the functions `functions`, whose body tokens are
/// `bodies` (see [`functions_spec`]): each function with a body is read
/// with [`parse_function`]; the functions read come in order, and so do the
/// errors of those whose bodies hold one.
pub fn parse_functions(
    structs: &[Struct],
    functions: &[FullFunctionDefinition],
    bodies: &[Vec<Tkn>],
    cells: &mut TypeCells,
) -> (r: (Vec<Function>, Vec<ParserError>))
    requires
        functions_spec(structs@, functions@, bodies@, 0, old(cells)@) is Some,
    ensures
        functions_spec(structs@, functions@, bodies@, 0, old(cells)@) == Some(
            (functions_view(r.0@), crate::parser::parser_error::errors_view(r.1@), final(cells)@),
        ),
{
    parse_functions_from(structs, functions, bodies, 0, cells)
}

/// The definitions of the functions of `p`.
pub open spec fn definitions_of(p: Program) -> Seq<FullFunctionDefinition> {
    p.functions@.map_values(|e: (FullFunctionDefinition, Vec<Tkn>)| e.0)
}

/// The body tokens of the functions of `p`.
pub open spec fn bodies_of(p: Program) -> Seq<Vec<Tkn>> {
    p.functions@.map_values(|e: (FullFunctionDefinition, Vec<Tkn>)| e.1)
}

/// What parsing the bodies of the functions of `p` gives, from the type
/// cells `c` (see [`parse_functions`]).
pub open spec fn program_bodies(
    p: Program,
    c: Seq<TypeView>,
) -> Option<(Seq<(Seq<char>, Seq<StmtDataView>)>, Seq<crate::parser::parser_error::ParserErrorView>, Seq<TypeView>)> {
    functions_spec(p.structs@, definitions_of(p), bodies_of(p), 0, c)
}

/// [`parse`], with what it gives stated in the terms of
/// [`definition_errors`] and [`program_matches`].
fn parse_definitions(tokens: &[Tkn]) -> (r: Result<Program, Vec<ParserError>>)
    requires
        tokens@.len() < usize::MAX - 8,
        !(defs_spec(tokens@, 0) is Stuck),
        defs_spec(tokens@, 0) is Defs ==> defs_parsable(tokens@, defs_spec(tokens@, 0)),
    ensures
        match definition_errors(tokens@) {
            Some(es) => r matches Err(v) && crate::parser::parser_error::errors_view(v@) == es,
            None => r matches Ok(p) && program_matches(tokens@, p),
        },
{
    let parsed = parse(tokens);
    proof {
        crate::parser::lemma_parse_outcome(tokens@, parsed);
    }
    parsed
}

/// Parses a whole program: its definitions (see [`parse`]) and then the
/// bodies of its functions (see [`parse_functions`]).  The errors of the
/// definitions come first; where there are none, the program is returned
/// with its functions where its bodies parse, and else the errors of the
/// bodies.
pub fn parse_program(tokens: &[Tkn], cells: &mut TypeCells) -> (r: Result<(Program, Vec<Function>), Vec<ParserError>>)
    requires
        tokens@.len() < usize::MAX - 8,
        !(defs_spec(tokens@, 0) is Stuck),
        defs_spec(tokens@, 0) is Defs ==> defs_parsable(tokens@, defs_spec(tokens@, 0)),
        forall|p: Program| program_matches(tokens@, p) ==> #[trigger] program_bodies(p, old(cells)@) is Some,
    ensures
        match definition_errors(tokens@) {
            Some(es) => r matches Err(v) && crate::parser::parser_error::errors_view(v@) == es,
            None => match r {
                Ok((p, fs)) => program_matches(tokens@, p) && program_bodies(p, old(cells)@) == Some(
                    (functions_view(fs@), Seq::<crate::parser::parser_error::ParserErrorView>::empty(), final(cells)@),
                ),
                Err(v) => exists|p: Program|
                    program_matches(tokens@, p) && (#[trigger] program_bodies(p, old(cells)@) matches Some(
                        (_, es, c),
                    ) && es.len() > 0 && es == crate::parser::parser_error::errors_view(v@) && c == final(cells)@),
            },
        },
{
    let p = match parse_definitions(tokens) {
        Err(v) => {
            return Err(v);
        },
        Ok(p) => p,
    };
    let ghost p0 = p;
    let Program { accessors, structs, functions } = p;
    let ghost orig = functions@;
    let mut rest = functions;
    let mut defs: Vec<FullFunctionDefinition> = Vec::new();
    let mut bodies: Vec<Vec<Tkn>> = Vec::new();
    while rest.len() > 0
        invariant
            defs@.len() + rest@.len() == orig.len(),
            bodies@.len() == defs@.len(),
            rest@ == orig.subrange(defs@.len() as int, orig.len() as int),
            forall|k: int| 0 <= k < defs@.len() ==> #[trigger] defs@[k] == orig[k].0,
            forall|k: int| 0 <= k < bodies@.len() ==> #[trigger] bodies@[k] == orig[k].1,
        decreases rest@.len(),
    {
        let (d, b) = rest.remove(0);
        defs.push(d);
        bodies.push(b);
    }
    assert(defs@ =~= definitions_of(p0));
    assert(bodies@ =~= bodies_of(p0));
    let (fs, errs) = parse_functions(&structs, &defs, &bodies, cells);
    if errs.len() > 0 {
        return Err(errs);
    }
    let mut pairs: Vec<(FullFunctionDefinition, Vec<Tkn>)> = Vec::new();
    let ghost n = defs@.len();
    let ghost dv = defs@;
    let ghost bv = bodies@;
    while defs.len() > 0
        invariant
            pairs@.len() + defs@.len() == n,
            bodies@.len() == defs@.len(),
            n == orig.len(),
            dv.len() == n,
            bv.len() == n,
            defs@ == dv.subrange(pairs@.len() as int, n as int),
            bodies@ == bv.subrange(pairs@.len() as int, n as int),
            forall|k: int| 0 <= k < n ==> #[trigger] dv[k] == orig[k].0,
            forall|k: int| 0 <= k < n ==> #[trigger] bv[k] == orig[k].1,
            forall|k: int| 0 <= k < pairs@.len() ==> #[trigger] pairs@[k] == orig[k],
        decreases defs@.len(),
    {
        let d = defs.remove(0);
        let b = bodies.remove(0);
        pairs.push((d, b));
    }
    assert(pairs@ =~= orig);
    let program = Program { accessors, structs, functions: pairs };
    proof {
        crate::parser::lemma_program_matches_same_parts(tokens@, p0, program);
    }
    assert(program_bodies(program, old(cells)@) == program_bodies(p0, old(cells)@)) by {
        assert(definitions_of(program) =~= definitions_of(p0));
        assert(bodies_of(program) =~= bodies_of(p0));
    }
    Ok((program, fs))
}

} // verus!
