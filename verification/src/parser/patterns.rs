//! Patterns: what the left side of a declaration or an assignment names.
use vstd::prelude::*;
use crate::lexer::token::{Keyword, Tkn, TknView, TokenType, TokenView};
use crate::parser::parser_error::{ParserError, ParserErrorView};
use crate::parser::expr::{lemma_types_view, match_result, type_view, types_view, write_cells, ExprType, ExprTypeCons, TypeCells, TypeView};
use crate::parser::expr_grammar::type_of;
use crate::parser::expr_parse::{
    data_view, find_variable, get_in_stack, vars_view, ExprDataView, ExprView, Expression, ExpressionData, VariableData,
    VarView,
};
use crate::parser::stmt::{StackLocation, Statement, StmtData};
use crate::parser::tokens::{is_token, token_at_matches};

verus! {

/// A pattern: a name (with the token it starts at, and whether `mut` comes
/// first), a tuple or an array of patterns before and after a `..`, or `_`.
#[derive(Debug)]
pub enum Pattern {
    Ident { tkn: Tkn, mutable: bool, name: String },
    Tuple { start: Vec<Pattern>, end: Vec<Pattern> },
    Array { start: Vec<Pattern>, end: Vec<Pattern> },
    AmbiguousGroup { start: Vec<Pattern>, end: Vec<Pattern> },
    DiscardSingle,
}

/// The mathematical value of a [`Pattern`].
pub enum PatternView {
    Ident { tkn: TokenView, mutable: bool, name: Seq<char> },
    Tuple { start: Seq<PatternView>, end: Seq<PatternView> },
    Array { start: Seq<PatternView>, end: Seq<PatternView> },
    AmbiguousGroup { start: Seq<PatternView>, end: Seq<PatternView> },
    DiscardSingle,
}

/// The view of a pattern.
pub open spec fn pattern_view(p: Pattern) -> PatternView
    decreases p,
{
    match p {
        Pattern::Ident { tkn, mutable, name } => PatternView::Ident { tkn: tkn@, mutable, name: name@ },
        Pattern::Tuple { start, end } => PatternView::Tuple { start: patterns_view(start@), end: patterns_view(end@) },
        Pattern::Array { start, end } => PatternView::Array { start: patterns_view(start@), end: patterns_view(end@) },
        Pattern::AmbiguousGroup { start, end } => PatternView::AmbiguousGroup {
            start: patterns_view(start@),
            end: patterns_view(end@),
        },
        Pattern::DiscardSingle => PatternView::DiscardSingle,
    }
}

/// The views of a list of patterns.
pub open spec fn patterns_view(s: Seq<Pattern>) -> Seq<PatternView>
    decreases s,
{
    if s.len() == 0 {
        Seq::empty()
    } else {
        patterns_view(s.drop_last()).push(pattern_view(s.last()))
    }
}

impl View for Pattern {
    type V = PatternView;

    open spec fn view(&self) -> PatternView {
        pattern_view(*self)
    }
}

/// What reading a pattern gives: it fails on the tokens running out or on
/// reading without end (`Stuck`), or gives an error, or a pattern and the
/// position after it.
pub enum PatEnd {
    Stuck,
    Error(ParserErrorView),
    Parsed(PatternView, int),
}

/// What reading the patterns of a group gives: as [`PatEnd`], where a group
/// gives the patterns before and after its `..`.
pub enum GroupEnd {
    Stuck,
    Error(ParserErrorView),
    Done(Seq<PatternView>, Seq<PatternView>),
}

/// The pattern at `i`.  A name (after `mut` or alone) moves past itself; a
/// tuple `( .. )` of patterns, an array `[ .. ]` of patterns and `_` are
/// read, but the position stays at `i`.
pub open spec fn pattern_spec(ts: Seq<Tkn>, i: int) -> PatEnd
    decreases ts.len() - i, 0int,
{
    if !(0 <= i <= ts.len()) {
        PatEnd::Stuck
    } else if i + 1 < ts.len() && ts[i].token@ == TknView::Keyword(Keyword::Mutable) && ts[i + 1].token@ is Identifier {
        PatEnd::Parsed(PatternView::Ident { tkn: ts[i]@, mutable: true, name: ts[i + 1].token@->Identifier_0 }, i + 2)
    } else if i < ts.len() && ts[i].token@ is Identifier {
        PatEnd::Parsed(PatternView::Ident { tkn: ts[i]@, mutable: false, name: ts[i].token@->Identifier_0 }, i + 1)
    } else if token_at_matches(ts, i, TknView::OpenParen) {
        match pattern_group_spec(ts, i + 1, TknView::CloseParen, None, seq![], seq![]) {
            GroupEnd::Done(start, end) => PatEnd::Parsed(PatternView::Tuple { start, end }, i),
            GroupEnd::Error(e) => PatEnd::Error(e),
            GroupEnd::Stuck => PatEnd::Stuck,
        }
    } else if token_at_matches(ts, i, TknView::OpenSquareBracket) {
        match pattern_group_spec(ts, i + 1, TknView::CloseSquareBracket, None, seq![], seq![]) {
            GroupEnd::Done(start, end) => PatEnd::Parsed(PatternView::Array { start, end }, i),
            GroupEnd::Error(e) => PatEnd::Error(e),
            GroupEnd::Stuck => PatEnd::Stuck,
        }
    } else if token_at_matches(ts, i, TknView::DiscardSingle) {
        PatEnd::Parsed(PatternView::DiscardSingle, i)
    } else if token_at_matches(ts, i, TknView::Dollar) {
        PatEnd::Stuck
    } else if i < ts.len() {
        PatEnd::Error(ParserErrorView::InvalidPattern { tkn: ts[i]@ })
    } else {
        PatEnd::Stuck
    }
}

/// The patterns of a group from `p` up to its closing token `close`: those
/// before a `..` go to `start`, those after it (once `discard` holds the
/// position of the `..`) to `end`.  A second `..` is an error.
pub open spec fn pattern_group_spec(
    ts: Seq<Tkn>,
    p: int,
    close: TknView,
    discard: Option<int>,
    start: Seq<PatternView>,
    end: Seq<PatternView>,
) -> GroupEnd
    decreases ts.len() - p, 1int,
{
    if !(0 <= p <= ts.len()) {
        GroupEnd::Stuck
    } else if token_at_matches(ts, p, close) {
        GroupEnd::Done(start, end)
    } else if token_at_matches(ts, p, TknView::DiscardMany) {
        match discard {
            None => pattern_group_spec(ts, p + 1, close, Some(p), start, end),
            Some(d) => if 0 <= d < ts.len() {
                GroupEnd::Error(ParserErrorView::SecondDiscardMany { tkn: ts[p]@, first_discard_many: ts[d]@ })
            } else {
                GroupEnd::Stuck
            },
        }
    } else {
        match pattern_spec(ts, p) {
            PatEnd::Parsed(pt, q) => if q <= p || q > ts.len() {
                GroupEnd::Stuck
            } else if discard is None {
                pattern_group_spec(ts, q, close, discard, start.push(pt), end)
            } else {
                pattern_group_spec(ts, q, close, discard, start, end.push(pt))
            },
            PatEnd::Error(e) => GroupEnd::Error(e),
            PatEnd::Stuck => GroupEnd::Stuck,
        }
    }
}

/// Reads the pattern at `*index` (see [`pattern_spec`]).  On success
/// `*index` is the position that [`pattern_spec`] gives; on an error it is
/// left as it was.
pub fn parse_identifier_pattern(tokens: &[Tkn], index: &mut usize) -> (r: Result<Pattern, ParserError>)
    requires
        !(pattern_spec(tokens@, *old(index) as int) is Stuck),
    ensures
        match r {
            Ok(p) => pattern_spec(tokens@, *old(index) as int) == PatEnd::Parsed(p@, *final(index) as int),
            Err(e) => pattern_spec(tokens@, *old(index) as int) == PatEnd::Error(e@) && *final(index) == *old(index),
        },
    decreases tokens@.len() - *old(index), 0int,
{
    let n = tokens.len();
    let i = *index;
    if i + 1 < n {
        if let TokenType::Keyword(Keyword::Mutable) = &tokens[i].token {
            if let TokenType::Identifier(ident) = &tokens[i + 1].token {
                let tkn = tokens[i].clone();
                *index = i + 2;
                return Ok(Pattern::Ident { tkn, mutable: true, name: ident.clone() });
            }
        }
    }
    if i < n {
        if let TokenType::Identifier(ident) = &tokens[i].token {
            let tkn = tokens[i].clone();
            *index = i + 1;
            return Ok(Pattern::Ident { tkn, mutable: false, name: ident.clone() });
        }
    }
    if is_token(tokens, TokenType::OpenParen, i) {
        let none: Vec<Pattern> = Vec::new();
        let none2: Vec<Pattern> = Vec::new();
        assert(patterns_view(none@) =~= seq![]);
        assert(patterns_view(none2@) =~= seq![]);
        return match pattern_group_exec(tokens, i + 1, TokenType::CloseParen, None, none, none2) {
            Ok((start, end)) => Ok(Pattern::Tuple { start, end }),
            Err(e) => Err(e),
        };
    }
    if is_token(tokens, TokenType::OpenSquareBracket, i) {
        let none: Vec<Pattern> = Vec::new();
        let none2: Vec<Pattern> = Vec::new();
        assert(patterns_view(none@) =~= seq![]);
        assert(patterns_view(none2@) =~= seq![]);
        return match pattern_group_exec(tokens, i + 1, TokenType::CloseSquareBracket, None, none, none2) {
            Ok((start, end)) => Ok(Pattern::Array { start, end }),
            Err(e) => Err(e),
        };
    }
    if is_token(tokens, TokenType::DiscardSingle, i) {
        return Ok(Pattern::DiscardSingle);
    }
    Err(ParserError::InvalidPattern { tkn: tokens[i].clone() })
}

/// Reads the patterns of a group from `p` (see [`pattern_group_spec`]).
fn pattern_group_exec(
    tokens: &[Tkn],
    p: usize,
    close: TokenType,
    discard: Option<usize>,
    start: Vec<Pattern>,
    end: Vec<Pattern>,
) -> (r: Result<(Vec<Pattern>, Vec<Pattern>), ParserError>)
    requires
        !(pattern_group_spec(
            tokens@,
            p as int,
            close@,
            match discard {
                Some(d) => Some(d as int),
                None => None,
            },
            patterns_view(start@),
            patterns_view(end@),
        ) is Stuck),
    ensures
        ({
            let g = pattern_group_spec(
                tokens@,
                p as int,
                close@,
                match discard {
                    Some(d) => Some(d as int),
                    None => None,
                },
                patterns_view(start@),
                patterns_view(end@),
            );
            match r {
                Ok((s, e)) => g == GroupEnd::Done(patterns_view(s@), patterns_view(e@)),
                Err(x) => g == GroupEnd::Error(x@),
            }
        }),
    decreases tokens@.len() - p, 1int,
{
    let n = tokens.len();
    let mut start = start;
    let mut end = end;
    if is_token(tokens, close.clone(), p) {
        return Ok((start, end));
    }
    if is_token(tokens, TokenType::DiscardMany, p) {
        return match discard {
            None => pattern_group_exec(tokens, p + 1, close, Some(p), start, end),
            Some(d) => Err(ParserError::SecondDiscardMany { tkn: tokens[p].clone(), first_discard_many: tokens[d].clone() }),
        };
    }
    let mut peek = p;
    let pt = match parse_identifier_pattern(tokens, &mut peek) {
        Ok(pt) => pt,
        Err(e) => {
            return Err(e);
        },
    };
    let ghost pv = pt@;
    if discard.is_none() {
        let ghost before = start@;
        start.push(pt);
        assert(start@.drop_last() =~= before);
        assert(patterns_view(start@) == patterns_view(before).push(pv));
    } else {
        let ghost before = end@;
        end.push(pt);
        assert(end@.drop_last() =~= before);
        assert(patterns_view(end@) == patterns_view(before).push(pv));
    }
    pattern_group_exec(tokens, peek, close, discard, start, end)
}

/// What assigning an expression (viewed as `e`) to the pattern `p` gives,
/// where the cells are `c` and `tokens[index]` is the token the assignment
/// is reported at (see [`assign_variable_pattern`]).
pub enum AssignEnd {
    Error(ParserErrorView, Seq<TypeView>),
    /// The two sides of the one assignment, and the cells after.
    Assigned(ExprView, ExprView, Seq<TypeView>),
    /// Nothing is assigned.
    Nothing,
}

/// The outcome of assigning `e` to `p` (see [`AssignEnd`]): a name must be
/// a variable; unless the assignment declares it, the name must not be
/// written with `mut` and the variable must be mutable; then the two types
/// are matched, and both sides get the matched type.
pub open spec fn assign_spec(
    variables: Seq<VarView>,
    declaration: bool,
    p: PatternView,
    e: ExprView,
    tokens: Seq<Tkn>,
    index: int,
    line: usize,
    c: Seq<TypeView>,
) -> AssignEnd {
    match p {
        PatternView::Ident { mutable, name, .. } => match find_variable(variables, name) {
            None => AssignEnd::Error(ParserErrorView::VariableDoesNotExist { tkn: tokens[index]@ }, c),
            Some(v) => {
                let var = variables[v];
                if !declaration && mutable {
                    AssignEnd::Error(ParserErrorView::InvalidMut { tkn: tokens[index]@ }, c)
                } else if !declaration && !var.2 {
                    AssignEnd::Error(
                        ParserErrorView::CannotMutateImmutable { tkn: tokens[index]@, variable_def: var.1 },
                        c,
                    )
                } else {
                    let (ok, l, rt) = match_result(type_of(c, var.3), type_of(c, e.ty))->0;
                    let ty = var.3 + e.ty;
                    if ok {
                        AssignEnd::Assigned(
                            ExprView { line, data: ExprDataView::Identifier(name), ty },
                            ExprView { line, data: e.data, ty },
                            write_cells(write_cells(c, var.3, l), e.ty, rt),
                        )
                    } else {
                        AssignEnd::Error(
                            ParserErrorView::CouldNotMatchType {
                                tkns: seq![tokens[index]@],
                                calculated_type: type_of(c, var.3),
                                expected_type: type_of(c, e.ty),
                            },
                            c,
                        )
                    }
                }
            },
        },
        _ => AssignEnd::Nothing,
    }
}

/// Assigns `expr` to what `pattern` names (see [`assign_spec`]): an error,
/// one assignment, or for `_` nothing.
pub fn assign_variable_pattern(
    variables: &[(String, VariableData)],
    declaration: bool,
    pattern: &Pattern,
    expr: Expression,
    tokens: &[Tkn],
    index: usize,
    line: usize,
    cells: &mut TypeCells,
) -> (r: Result<Vec<StmtData>, ParserError>)
    requires
        index < tokens@.len(),
        pattern is Ident || pattern is DiscardSingle,
        expr.expr_type.valid_in(old(cells)@),
        forall|v: int| 0 <= v < variables@.len() ==> (#[trigger] variables@[v]).1.expr_type.valid_in(old(cells)@),
        pattern matches Pattern::Ident { name, .. } && find_variable(vars_view(variables@), name@) matches Some(v) ==> match_result(
            variables@[v].1.expr_type.type_in(old(cells)@),
            expr.expr_type.type_in(old(cells)@),
        ) is Some,
    ensures
        match assign_spec(vars_view(variables@), declaration, pattern@, expr@, tokens@, index as int, line, old(cells)@) {
            AssignEnd::Error(e, c) => r matches Err(x) && x@ == e && final(cells)@ == c,
            AssignEnd::Assigned(a, b, c) => {
                &&& r matches Ok(stmts)
                &&& stmts@.len() == 1
                &&& stmts@[0].line == line
                &&& stmts@[0].stmt matches Statement::Assign { variable, assign }
                &&& variable@ == a
                &&& assign@ == b
                &&& final(cells)@ == c
            },
            AssignEnd::Nothing => r matches Ok(stmts) && stmts@.len() == 0 && final(cells)@ == old(cells)@,
        },
{
    match pattern {
        Pattern::Ident { mutable, name, .. } => {
            let v = match get_in_stack(variables, name) {
                None => {
                    return Err(ParserError::VariableDoesNotExist { tkn: tokens[index].clone() });
                },
                Some(v) => v,
            };
            let var = &variables[v].1;
            assert(vars_view(variables@)[v as int] == (variables@[v as int].0@, var.tkn@, var.mutable, var.expr_type@));
            if !declaration {
                if *mutable {
                    return Err(ParserError::InvalidMut { tkn: tokens[index].clone() });
                }
                if !var.mutable {
                    return Err(ParserError::CannotMutateImmutable {
                        tkn: tokens[index].clone(),
                        variable_def: var.tkn.clone(),
                    });
                }
            }
            let Expression { line: _, expr_data, expr_type } = expr;
            let mut ety = expr_type;
            let mut ity = var.expr_type.clone();
            match ity.match_type(&mut ety, cells) {
                None => {
                    let calculated_type = ity.clone_inner(cells);
                    let expected_type = ety.clone_inner(cells);
                    let mut tkns: Vec<Tkn> = Vec::new();
                    tkns.push(tokens[index].clone());
                    assert(tkns@.map_values(|t: Tkn| t@) =~= seq![tokens@[index as int]@]);
                    Err(ParserError::CouldNotMatchType { tkns, calculated_type, expected_type })
                },
                Some(combined) => {
                    let variable = Expression {
                        line,
                        expr_data: Box::new(ExpressionData::Identifier(name.clone())),
                        expr_type: combined.clone(),
                    };
                    let assign = Expression { line, expr_data, expr_type: combined };
                    let mut out: Vec<StmtData> = Vec::new();
                    out.push(StmtData { line, stmt: Statement::Assign { variable, assign } });
                    Ok(out)
                },
            }
        },
        _ => Ok(Vec::new()),
    }
}

/// A declaration statement as it is recorded: its line, the name, the
/// stack and the cells of the type; `None` for another statement.
pub open spec fn decl_view(d: StmtData) -> Option<(usize, Seq<char>, StackLocation, Seq<usize>)> {
    match d.stmt {
        Statement::Declare(name, loc, ty) => Some((d.line, name@, loc, ty@)),
        _ => None,
    }
}

/// The views of a list of declarations.
pub open spec fn decls_view(s: Seq<StmtData>) -> Seq<Option<(usize, Seq<char>, StackLocation, Seq<usize>)>> {
    s.map_values(|d: StmtData| decl_view(d))
}

/// What declaring a pattern gives: an error (with the variables and cells
/// as they were left), or the variables, the cells and the declarations.
pub enum DeclEnd {
    Stuck,
    Error(ParserErrorView, Seq<VarView>, Seq<TypeView>),
    Done(Seq<VarView>, Seq<TypeView>, Seq<Option<(usize, Seq<char>, StackLocation, Seq<usize>)>>),
}

/// Declares the pattern `p` of type `ty` on line `line`: a name becomes a
/// new variable with a new cell holding `ty`, and one declaration; a tuple
/// pattern takes the types of a tuple type in order (its patterns after
/// `..` take the types from where those before it stop), or, of a type not
/// yet known, unknown types; an array pattern gives each of its patterns
/// the element type, where the array is long enough; `_` declares nothing.
/// Another type is an error at `err`.
pub open spec fn declare_spec(
    p: PatternView,
    loc: StackLocation,
    ty: TypeView,
    vars: Seq<VarView>,
    c: Seq<TypeView>,
    err: TokenView,
    line: usize,
) -> DeclEnd
    decreases p, 0int,
{
    let mismatch = DeclEnd::Error(
        ParserErrorView::PatternNotMatchExpectedType { tkn: err, pattern: p, expected_type: ty },
        vars,
        c,
    );
    match p {
        PatternView::Ident { tkn, mutable, name } => if c.len() + 1 >= usize::MAX {
            DeclEnd::Stuck
        } else {
            DeclEnd::Done(
                vars.push((name, tkn, mutable, seq![c.len() as usize])),
                c.push(ty),
                seq![Some((line, name, loc, seq![c.len() as usize]))],
            )
        },
        PatternView::Tuple { start, end } => {
            let split = match ty {
                TypeView::AmbiguousType => Some(
                    (
                        Seq::new(start.len(), |_i: int| TypeView::AmbiguousType),
                        Seq::new(end.len(), |_i: int| TypeView::AmbiguousType),
                    ),
                ),
                TypeView::Tuple { start: g, .. } => if start.len() + end.len() > g.len() {
                    None
                } else {
                    Some((g.take(start.len() as int), g.skip(start.len() as int)))
                },
                _ => None,
            };
            match split {
                None => mismatch,
                Some((ts, te)) => match declare_list(start, ts, 0, loc, vars, c, seq![], err, line) {
                    DeclEnd::Done(v, c2, d) => declare_list(end, te, 0, loc, v, c2, d, err, line),
                    other => other,
                },
            }
        },
        PatternView::Array { start, end } => {
            let elem = match ty {
                TypeView::AmbiguousType => Some(TypeView::AmbiguousType),
                TypeView::Array { length, expr_type } => if length is None || length->0 >= start.len() + end.len() {
                    Some(*expr_type)
                } else {
                    None
                },
                _ => None,
            };
            match elem {
                None => mismatch,
                Some(e) => match declare_list(start, Seq::new(start.len(), |_i: int| e), 0, loc, vars, c, seq![], err, line) {
                    DeclEnd::Done(v, c2, d) => declare_list(end, Seq::new(end.len(), |_i: int| e), 0, loc, v, c2, d, err, line),
                    other => other,
                },
            }
        },
        PatternView::AmbiguousGroup { .. } => DeclEnd::Stuck,
        PatternView::DiscardSingle => DeclEnd::Done(vars, c, seq![]),
    }
}

/// Declares the patterns of `ps` from the `k`-th on, each with the type of
/// the same place in `tys`, as far as both go; `acc` holds the
/// declarations so far.
pub open spec fn declare_list(
    ps: Seq<PatternView>,
    tys: Seq<TypeView>,
    k: int,
    loc: StackLocation,
    vars: Seq<VarView>,
    c: Seq<TypeView>,
    acc: Seq<Option<(usize, Seq<char>, StackLocation, Seq<usize>)>>,
    err: TokenView,
    line: usize,
) -> DeclEnd
    decreases ps, ps.len() - k,
{
    if k < 0 || k >= ps.len() || k >= tys.len() {
        DeclEnd::Done(vars, c, acc)
    } else {
        match declare_spec(ps[k], loc, tys[k], vars, c, err, line) {
            DeclEnd::Done(v, c2, d) => declare_list(ps, tys, k + 1, loc, v, c2, acc + d, err, line),
            other => other,
        }
    }
}

/// Whether the cells `t` of a variable are cells of `c`.
pub open spec fn cells_in(t: Seq<usize>, c: Seq<TypeView>) -> bool {
    &&& t.len() > 0
    &&& forall|j: int| 0 <= j < t.len() ==> #[trigger] t[j] < c.len()
}

/// Declaring a pattern only adds cells, and leaves every variable with cells
/// that are there.
pub proof fn lemma_declare_cells(
    p: PatternView,
    loc: StackLocation,
    ty: TypeView,
    vars: Seq<VarView>,
    c: Seq<TypeView>,
    err: TokenView,
    line: usize,
)
    requires
        forall|k: int| 0 <= k < vars.len() ==> cells_in(#[trigger] vars[k].3, c),
    ensures
        declare_spec(p, loc, ty, vars, c, err, line) matches DeclEnd::Done(v, c1, _) ==> c1.len() >= c.len()
            && forall|k: int| 0 <= k < v.len() ==> cells_in(#[trigger] v[k].3, c1),
        declare_spec(p, loc, ty, vars, c, err, line) matches DeclEnd::Done(_, _, d) ==> forall|k: int|
            0 <= k < d.len() ==> #[trigger] d[k] is Some,
    decreases p, 0int,
{
    match p {
        PatternView::Tuple { start, end } => {
            let split = match ty {
                TypeView::AmbiguousType => Some(
                    (
                        Seq::new(start.len(), |_i: int| TypeView::AmbiguousType),
                        Seq::new(end.len(), |_i: int| TypeView::AmbiguousType),
                    ),
                ),
                TypeView::Tuple { start: g, .. } => if start.len() + end.len() > g.len() {
                    None
                } else {
                    Some((g.take(start.len() as int), g.skip(start.len() as int)))
                },
                _ => None,
            };
            if let Some((ts, te)) = split {
                lemma_declare_list_cells(start, ts, 0, loc, vars, c, seq![], err, line);
                if let DeclEnd::Done(v, c2, d) = declare_list(start, ts, 0, loc, vars, c, seq![], err, line) {
                    lemma_declare_list_cells(end, te, 0, loc, v, c2, d, err, line);
                }
            }
        },
        PatternView::Array { start, end } => {
            let elem = match ty {
                TypeView::AmbiguousType => Some(TypeView::AmbiguousType),
                TypeView::Array { length, expr_type } => if length is None || length->0 >= start.len() + end.len() {
                    Some(*expr_type)
                } else {
                    None
                },
                _ => None,
            };
            if let Some(e) = elem {
                let ts = Seq::new(start.len(), |_i: int| e);
                let te = Seq::new(end.len(), |_i: int| e);
                lemma_declare_list_cells(start, ts, 0, loc, vars, c, seq![], err, line);
                if let DeclEnd::Done(v, c2, d) = declare_list(start, ts, 0, loc, vars, c, seq![], err, line) {
                    lemma_declare_list_cells(end, te, 0, loc, v, c2, d, err, line);
                }
            }
        },
        PatternView::Ident { tkn, mutable, name } => {
            if let DeclEnd::Done(v, c1, _) = declare_spec(p, loc, ty, vars, c, err, line) {
                assert forall|k: int| 0 <= k < v.len() implies cells_in(#[trigger] v[k].3, c1) by {
                    if k < vars.len() {
                        assert(v[k] == vars[k]);
                        assert(cells_in(vars[k].3, c));
                    }
                }
            }
        },
        _ => {},
    }
}

/// Declaring a list of patterns only adds cells, and leaves every variable
/// with cells that are there.
pub proof fn lemma_declare_list_cells(
    ps: Seq<PatternView>,
    tys: Seq<TypeView>,
    k: int,
    loc: StackLocation,
    vars: Seq<VarView>,
    c: Seq<TypeView>,
    acc: Seq<Option<(usize, Seq<char>, StackLocation, Seq<usize>)>>,
    err: TokenView,
    line: usize,
)
    requires
        forall|i: int| 0 <= i < vars.len() ==> cells_in(#[trigger] vars[i].3, c),
        forall|i: int| 0 <= i < acc.len() ==> #[trigger] acc[i] is Some,
    ensures
        declare_list(ps, tys, k, loc, vars, c, acc, err, line) matches DeclEnd::Done(v, c1, _) ==> c1.len() >= c.len()
            && forall|i: int| 0 <= i < v.len() ==> cells_in(#[trigger] v[i].3, c1),
        declare_list(ps, tys, k, loc, vars, c, acc, err, line) matches DeclEnd::Done(_, _, d) ==> forall|i: int|
            0 <= i < d.len() ==> #[trigger] d[i] is Some,
    decreases ps, ps.len() - k,
{
    if !(k < 0 || k >= ps.len() || k >= tys.len()) {
        lemma_declare_cells(ps[k], loc, tys[k], vars, c, err, line);
        if let DeclEnd::Done(v, c2, d) = declare_spec(ps[k], loc, tys[k], vars, c, err, line) {
            assert forall|i: int| 0 <= i < (acc + d).len() implies #[trigger] (acc + d)[i] is Some by {
                if i < acc.len() {
                    assert((acc + d)[i] == acc[i]);
                } else {
                    assert((acc + d)[i] == d[i - acc.len()]);
                }
            }
            lemma_declare_list_cells(ps, tys, k + 1, loc, v, c2, acc + d, err, line);
        }
    }
}

/// The view of a list of patterns is the list of their views.
pub proof fn lemma_patterns_view(s: Seq<Pattern>)
    ensures
        patterns_view(s).len() == s.len(),
        forall|i: int| 0 <= i < s.len() ==> #[trigger] patterns_view(s)[i] == pattern_view(s[i]),
    decreases s.len(),
{
    if s.len() > 0 {
        lemma_patterns_view(s.drop_last());
    }
}

/// A copy of a pattern.
fn copy_pattern(p: &Pattern) -> (r: Pattern)
    ensures
        r@ == p@,
    decreases *p, 0int,
{
    match p {
        Pattern::Ident { tkn, mutable, name } => Pattern::Ident { tkn: tkn.clone(), mutable: *mutable, name: name.clone() },
        Pattern::Tuple { start, end } => {
            assert(pattern_view(*p) == PatternView::Tuple { start: patterns_view(start@), end: patterns_view(end@) });
            Pattern::Tuple { start: copy_patterns(start), end: copy_patterns(end) }
        },
        Pattern::Array { start, end } => {
            assert(pattern_view(*p) == PatternView::Array { start: patterns_view(start@), end: patterns_view(end@) });
            Pattern::Array { start: copy_patterns(start), end: copy_patterns(end) }
        },
        Pattern::AmbiguousGroup { start, end } => {
            assert(pattern_view(*p) == PatternView::AmbiguousGroup {
                start: patterns_view(start@),
                end: patterns_view(end@),
            });
            Pattern::AmbiguousGroup { start: copy_patterns(start), end: copy_patterns(end) }
        },
        Pattern::DiscardSingle => Pattern::DiscardSingle,
    }
}

/// A copy of a list of patterns.
fn copy_patterns(v: &Vec<Pattern>) -> (r: Vec<Pattern>)
    ensures
        patterns_view(r@) == patterns_view(v@),
    decreases v@, 1int,
{
    proof {
        lemma_patterns_view(v@);
    }
    let mut out: Vec<Pattern> = Vec::new();
    let mut k: usize = 0;
    while k < v.len()
        invariant
            k <= v@.len(),
            patterns_view(out@) == patterns_view(v@).take(k as int),
            patterns_view(v@).len() == v@.len(),
            forall|i: int| 0 <= i < v@.len() ==> #[trigger] patterns_view(v@)[i] == pattern_view(v@[i]),
        decreases v@.len() - k,
    {
        let ghost before = out@;
        assert(patterns_view(v@)[k as int] == pattern_view(v@[k as int]));
        let c = copy_pattern(&v[k]);
        out.push(c);
        assert(out@.drop_last() =~= before);
        assert(patterns_view(v@).take(k + 1) =~= patterns_view(v@).take(k as int).push(pattern_view(v@[k as int])));
        k += 1;
    }
    assert(patterns_view(v@).take(k as int) =~= patterns_view(v@));
    out
}

/// `n` copies of the type `t`.
fn copies_of(t: &ExprType, n: usize) -> (r: Vec<ExprType>)
    ensures
        types_view(r@) == Seq::new(n as nat, |_i: int| t@),
{
    let mut out: Vec<ExprType> = Vec::new();
    let mut k: usize = 0;
    while k < n
        invariant
            k <= n,
            types_view(out@) == Seq::new(k as nat, |_i: int| t@),
        decreases n - k,
    {
        let ghost before = out@;
        out.push(t.copy());
        assert(out@.drop_last() =~= before);
        k += 1;
        assert(types_view(out@) =~= Seq::new(k as nat, |_i: int| t@));
    }
    out
}

/// Copies of the types of `g` from `a` up to `b`.
fn types_between(g: &Vec<ExprType>, a: usize, b: usize) -> (r: Vec<ExprType>)
    requires
        a <= b <= g@.len(),
    ensures
        types_view(r@) == types_view(g@).subrange(a as int, b as int),
{
    proof {
        lemma_types_view(g@);
    }
    let mut out: Vec<ExprType> = Vec::new();
    let mut k: usize = a;
    while k < b
        invariant
            a <= k <= b <= g@.len(),
            types_view(g@).len() == g@.len(),
            forall|i: int| 0 <= i < g@.len() ==> #[trigger] types_view(g@)[i] == type_view(g@[i]),
            types_view(out@) == types_view(g@).subrange(a as int, k as int),
        decreases b - k,
    {
        let ghost before = out@;
        out.push(g[k].copy());
        assert(out@.drop_last() =~= before);
        assert(types_view(g@)[k as int] == type_view(g@[k as int]));
        k += 1;
        assert(types_view(out@) =~= types_view(g@).subrange(a as int, k as int));
    }
    out
}

/// Moves the statements of `from` to the end of `out`.
fn move_stmts(out: &mut Vec<StmtData>, from: Vec<StmtData>)
    ensures
        decls_view(final(out)@) == decls_view(old(out)@) + decls_view(from@),
{
    let ghost start = out@;
    let ghost all = from@;
    let mut from = from;
    let n = from.len();
    let mut k: usize = 0;
    while k < n
        invariant
            k <= n == all.len(),
            from@ == all.subrange(k as int, n as int),
            decls_view(out@) == decls_view(start) + decls_view(all.take(k as int)),
        decreases n - k,
    {
        let d = from.remove(0);
        assert(d == all[k as int]);
        let ghost before = out@;
        out.push(d);
        assert(decls_view(out@) =~= decls_view(before).push(decl_view(d)));
        k += 1;
        assert(all.take(k as int) =~= all.take(k - 1).push(d));
        assert(decls_view(all.take(k as int)) =~= decls_view(all.take(k - 1)).push(decl_view(d)));
        assert(decls_view(out@) =~= decls_view(start) + decls_view(all.take(k as int)));
        assert(from@ =~= all.subrange(k as int, n as int));
    }
    assert(all.take(n as int) =~= all);
}

/// Declares `pattern` of type `expr_type` (see [`declare_spec`]), adding
/// its declarations to `out`.
fn declare_into(
    variables: &mut Vec<(String, VariableData)>,
    pattern: &Pattern,
    stack_location: StackLocation,
    expr_type: ExprType,
    tokens: &[Tkn],
    index: usize,
    line: usize,
    cells: &mut TypeCells,
    out: &mut Vec<StmtData>,
) -> (r: Result<(), ParserError>)
    requires
        index < tokens@.len(),
        !(declare_spec(pattern@, stack_location, expr_type@, vars_view(old(variables)@), old(cells)@, tokens@[index as int]@, line)
            is Stuck),
    ensures
        match declare_spec(pattern@, stack_location, expr_type@, vars_view(old(variables)@), old(cells)@, tokens@[index as int]@, line) {
            DeclEnd::Done(v, c, d) => r is Ok && decls_view(final(out)@) == decls_view(old(out)@) + d
                && vars_view(final(variables)@) == v && final(cells)@ == c,
            DeclEnd::Error(e, v, c) => r matches Err(x) && x@ == e && vars_view(final(variables)@) == v
                && final(cells)@ == c,
            DeclEnd::Stuck => false,
        },
    decreases *pattern, 0int,
{
    let ghost vars0 = vars_view(variables@);
    let ghost c0 = cells@;
    let ghost ety = expr_type@;
    match pattern {
        Pattern::Ident { tkn, mutable, name } => {
            let cell = ExprTypeCons::new(cells, expr_type);
            let var = VariableData { tkn: tkn.clone(), mutable: *mutable, expr_type: cell.clone() };
            variables.push((name.clone(), var));
            assert(vars_view(variables@) =~= vars0.push((name@, tkn@, *mutable, seq![c0.len() as usize])));
            let ghost before = out@;
            out.push(StmtData { line, stmt: Statement::Declare(name.clone(), stack_location, cell) });
            assert(decls_view(out@) =~= decls_view(before) + seq![Some((line, name@, stack_location, seq![c0.len() as usize]))]);
            Ok(())
        },
        Pattern::DiscardSingle => {
            assert(decls_view(out@) =~= decls_view(out@) + Seq::<Option<(usize, Seq<char>, StackLocation, Seq<usize>)>>::empty());
            Ok(())
        },
        Pattern::Tuple { start, end } => {
            assert(pattern_view(*pattern) == PatternView::Tuple { start: patterns_view(start@), end: patterns_view(end@) });
            proof {
                lemma_patterns_view(start@);
                lemma_patterns_view(end@);
            }
            let split: Option<(Vec<ExprType>, Vec<ExprType>)> = match &expr_type {
                ExprType::AmbiguousType => Some((copies_of(&expr_type, start.len()), copies_of(&expr_type, end.len()))),
                ExprType::Tuple { start: g, .. } => {
                    proof {
                        lemma_types_view(g@);
                    }
                    if start.len() > g.len() || end.len() > g.len() - start.len() {
                        None
                    } else {
                        let ts = types_between(g, 0, start.len());
                        let te = types_between(g, start.len(), g.len());
                        assert(types_view(g@).subrange(0, start@.len() as int) =~= types_view(g@).take(start@.len() as int));
                        assert(types_view(g@).subrange(start@.len() as int, g@.len() as int) =~= types_view(g@).skip(start@.len() as int));
                        Some((ts, te))
                    }
                },
                _ => None,
            };
            match split {
                None => {
                    let p = copy_pattern(pattern);
                    Err(ParserError::PatternNotMatchExpectedType { tkn: tokens[index].clone(), pattern: p, expected_type: expr_type })
                },
                Some((ts, te)) => {
                    let mut inner: Vec<StmtData> = Vec::new();
                    assert(decls_view(inner@) =~= seq![]);
                    match declare_list_into(variables, start, &ts, 0, stack_location, tokens, index, line, cells, &mut inner) {
                        Err(e) => {
                            return Err(e);
                        },
                        Ok(()) => {},
                    }
                    match declare_list_into(variables, end, &te, 0, stack_location, tokens, index, line, cells, &mut inner) {
                        Err(e) => {
                            return Err(e);
                        },
                        Ok(()) => {},
                    }
                    move_stmts(out, inner);
                    Ok(())
                },
            }
        },
        Pattern::Array { start, end } => {
            assert(pattern_view(*pattern) == PatternView::Array { start: patterns_view(start@), end: patterns_view(end@) });
            proof {
                lemma_patterns_view(start@);
                lemma_patterns_view(end@);
            }
            let elem: Option<ExprType> = match &expr_type {
                ExprType::AmbiguousType => Some(ExprType::AmbiguousType),
                ExprType::Array { length, expr_type: a } => {
                    let fits = match length {
                        None => true,
                        Some(l) => start.len() <= *l && end.len() <= *l - start.len(),
                    };
                    if fits {
                        Some(a.copy())
                    } else {
                        None
                    }
                },
                _ => None,
            };
            match elem {
                None => {
                    let p = copy_pattern(pattern);
                    Err(ParserError::PatternNotMatchExpectedType { tkn: tokens[index].clone(), pattern: p, expected_type: expr_type })
                },
                Some(e) => {
                    let ts = copies_of(&e, start.len());
                    let te = copies_of(&e, end.len());
                    let mut inner: Vec<StmtData> = Vec::new();
                    assert(decls_view(inner@) =~= seq![]);
                    match declare_list_into(variables, start, &ts, 0, stack_location, tokens, index, line, cells, &mut inner) {
                        Err(x) => {
                            return Err(x);
                        },
                        Ok(()) => {},
                    }
                    match declare_list_into(variables, end, &te, 0, stack_location, tokens, index, line, cells, &mut inner) {
                        Err(x) => {
                            return Err(x);
                        },
                        Ok(()) => {},
                    }
                    move_stmts(out, inner);
                    Ok(())
                },
            }
        },
        Pattern::AmbiguousGroup { .. } => vstd::pervasive::unreached(),
    }
}

/// Declares the patterns of `pats` from the `k`-th on with the types of
/// `tys` (see [`declare_list`]), adding their declarations to `out`.
fn declare_list_into(
    variables: &mut Vec<(String, VariableData)>,
    pats: &Vec<Pattern>,
    tys: &Vec<ExprType>,
    k: usize,
    stack_location: StackLocation,
    tokens: &[Tkn],
    index: usize,
    line: usize,
    cells: &mut TypeCells,
    out: &mut Vec<StmtData>,
) -> (r: Result<(), ParserError>)
    requires
        index < tokens@.len(),
        k <= pats@.len(),
        !(declare_list(
            patterns_view(pats@),
            types_view(tys@),
            k as int,
            stack_location,
            vars_view(old(variables)@),
            old(cells)@,
            decls_view(old(out)@),
            tokens@[index as int]@,
            line,
        ) is Stuck),
    ensures
        match declare_list(
            patterns_view(pats@),
            types_view(tys@),
            k as int,
            stack_location,
            vars_view(old(variables)@),
            old(cells)@,
            decls_view(old(out)@),
            tokens@[index as int]@,
            line,
        ) {
            DeclEnd::Done(v, c, d) => r is Ok && decls_view(final(out)@) == d && vars_view(final(variables)@) == v
                && final(cells)@ == c,
            DeclEnd::Error(e, v, c) => r matches Err(x) && x@ == e && vars_view(final(variables)@) == v
                && final(cells)@ == c,
            DeclEnd::Stuck => false,
        },
    decreases pats@, pats@.len() - k,
{
    proof {
        lemma_patterns_view(pats@);
        lemma_types_view(tys@);
    }
    if k >= pats.len() || k >= tys.len() {
        return Ok(());
    }
    assert(patterns_view(pats@)[k as int] == pattern_view(pats@[k as int]));
    assert(types_view(tys@)[k as int] == tys@[k as int]@);
    let t = tys[k].copy();
    match declare_into(variables, &pats[k], stack_location, t, tokens, index, line, cells, out) {
        Err(e) => Err(e),
        Ok(()) => declare_list_into(variables, pats, tys, k + 1, stack_location, tokens, index, line, cells, out),
    }
}

/// Declares the variables that `pattern` names, of type `expr_type`, on
/// the stack `stack_location` (see [`declare_spec`]): each name becomes a
/// variable in a new cell and a declaration; an error is reported at
/// `tokens[index]`.
pub fn declare_variable_pattern(
    variables: &mut Vec<(String, VariableData)>,
    pattern: &Pattern,
    stack_location: StackLocation,
    expr_type: ExprType,
    tokens: &[Tkn],
    index: usize,
    line: usize,
    cells: &mut TypeCells,
) -> (r: Result<Vec<StmtData>, ParserError>)
    requires
        index < tokens@.len(),
        !(declare_spec(pattern@, stack_location, expr_type@, vars_view(old(variables)@), old(cells)@, tokens@[index as int]@, line)
            is Stuck),
    ensures
        match declare_spec(pattern@, stack_location, expr_type@, vars_view(old(variables)@), old(cells)@, tokens@[index as int]@, line) {
            DeclEnd::Done(v, c, d) => r matches Ok(s) && decls_view(s@) == d && vars_view(final(variables)@) == v
                && final(cells)@ == c,
            DeclEnd::Error(e, v, c) => r matches Err(x) && x@ == e && vars_view(final(variables)@) == v
                && final(cells)@ == c,
            DeclEnd::Stuck => false,
        },
{
    let mut out: Vec<StmtData> = Vec::new();
    assert(decls_view(out@) =~= seq![]);
    match declare_into(variables, pattern, stack_location, expr_type, tokens, index, line, cells, &mut out) {
        Err(e) => Err(e),
        Ok(()) => {
            assert(decls_view(out@) =~= Seq::<Option<(usize, Seq<char>, StackLocation, Seq<usize>)>>::empty() + decls_view(out@));
            Ok(out)
        },
    }
}

} // verus!
