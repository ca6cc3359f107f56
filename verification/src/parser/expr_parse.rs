//! Expressions: the trees that the parser builds from tokens, their views,
//! the variables and functions that names refer to, and the small readers
//! that parsing expressions shares.
use vstd::prelude::*;
use crate::lexer::token::{Keyword, Operator, Tkn, TknType, TokenType, TokenView};
use crate::parser::expr::{type_view, types_view, ExprType, ExprTypeCons, Literal, TypeCells, TypeView};
use crate::parser::functions::{FullFunctionDefinition, FunctionParamater};
use crate::parser::operators::{BinaryOperator, UnaryOperator};
use crate::parser::parser_error::ParserError;
use crate::parser::structs::{Field, Struct};
use crate::parser::expr::{fields_view, lemma_fields_view};

use crate::parser::expr_grammar::{Ctx, PEnd, valid_ty, types_from, prefix_op, find_field, find_named, params_types};
verus! {

/// Short name of [`Expression`].
pub type Expr = Expression;

/// An expression: the line it is on, what it is, and the cells that hold
/// its type.
#[derive(Debug)]
pub struct Expression {
    pub line: usize,
    pub expr_data: Box<ExpressionData>,
    pub expr_type: ExprTypeCons,
}

/// Short name of [`ExpressionData`].
pub type ExprData = ExpressionData;

/// What an expression is.
#[derive(Debug)]
pub enum ExpressionData {
    Identifier(String),
    Literal(Literal),
    /// A value of a struct, field by field in the order written.
    Custom { fields: Vec<(String, ExpressionData)> },
    /// A value of a struct without a name, field by field.
    AnonymousCustom { fields: Vec<(String, ExpressionData)> },
    /// A field of a struct value: its name and type.
    CustomField { data: Box<Expression>, field_name: String, field_type: ExprType },
    AnonymousCustomField { data: Box<Expression>, field_name: String },
    Function { name: String, left_args: Vec<Expression>, right_args: Vec<Expression> },
    BinaryOp(BinaryOperator, Box<Expression>, Box<Expression>),
    UnaryOp(UnaryOperator, Box<Expression>),
    Array(Vec<Expression>),
}

/// The mathematical value of an [`Expression`].
pub struct ExprView {
    pub line: usize,
    pub data: ExprDataView,
    pub ty: Seq<usize>,
}

/// The mathematical value of an [`ExpressionData`]: names become sequences
/// of characters and lists become sequences.
pub enum ExprDataView {
    Identifier(Seq<char>),
    Literal(Literal),
    Custom { fields: Seq<(Seq<char>, ExprDataView)> },
    AnonymousCustom { fields: Seq<(Seq<char>, ExprDataView)> },
    CustomField { data: Box<ExprView>, field_name: Seq<char>, field_type: TypeView },
    AnonymousCustomField { data: Box<ExprView>, field_name: Seq<char> },
    Function { name: Seq<char>, left_args: Seq<ExprView>, right_args: Seq<ExprView> },
    BinaryOp(BinaryOperator, Box<ExprView>, Box<ExprView>),
    UnaryOp(UnaryOperator, Box<ExprView>),
    Array(Seq<ExprView>),
}

/// The view of an expression.
pub open spec fn expr_view(e: Expression) -> ExprView
    decreases e,
{
    ExprView { line: e.line, data: data_view(*e.expr_data), ty: e.expr_type@ }
}

/// The view of what an expression is.
pub open spec fn data_view(d: ExpressionData) -> ExprDataView
    decreases d,
{
    match d {
        ExpressionData::Identifier(s) => ExprDataView::Identifier(s@),
        ExpressionData::Literal(l) => ExprDataView::Literal(l),
        ExpressionData::Custom { fields } => ExprDataView::Custom { fields: dfields_view(fields@) },
        ExpressionData::AnonymousCustom { fields } => ExprDataView::AnonymousCustom { fields: dfields_view(fields@) },
        ExpressionData::CustomField { data, field_name, field_type } => ExprDataView::CustomField {
            data: Box::new(expr_view(*data)),
            field_name: field_name@,
            field_type: type_view(field_type),
        },
        ExpressionData::AnonymousCustomField { data, field_name } => ExprDataView::AnonymousCustomField {
            data: Box::new(expr_view(*data)),
            field_name: field_name@,
        },
        ExpressionData::Function { name, left_args, right_args } => ExprDataView::Function {
            name: name@,
            left_args: exprs_view(left_args@),
            right_args: exprs_view(right_args@),
        },
        ExpressionData::BinaryOp(op, l, r) => ExprDataView::BinaryOp(op, Box::new(expr_view(*l)), Box::new(expr_view(*r))),
        ExpressionData::UnaryOp(op, e) => ExprDataView::UnaryOp(op, Box::new(expr_view(*e))),
        ExpressionData::Array(v) => ExprDataView::Array(exprs_view(v@)),
    }
}

/// The views of a list of expressions.
pub open spec fn exprs_view(s: Seq<Expression>) -> Seq<ExprView>
    decreases s,
{
    if s.len() == 0 {
        Seq::empty()
    } else {
        exprs_view(s.drop_last()).push(expr_view(s.last()))
    }
}

/// The views of a list of named values.
pub open spec fn dfields_view(s: Seq<(String, ExpressionData)>) -> Seq<(Seq<char>, ExprDataView)>
    decreases s,
{
    if s.len() == 0 {
        Seq::empty()
    } else {
        dfields_view(s.drop_last()).push((s.last().0@, data_view(s.last().1)))
    }
}

impl View for Expression {
    type V = ExprView;

    open spec fn view(&self) -> ExprView {
        expr_view(*self)
    }
}

/// The length and elements of the view of a list of expressions.
pub proof fn lemma_exprs_view(s: Seq<Expression>)
    ensures
        exprs_view(s).len() == s.len(),
        forall|i: int| 0 <= i < s.len() ==> #[trigger] exprs_view(s)[i] == expr_view(s[i]),
    decreases s.len(),
{
    if s.len() > 0 {
        lemma_exprs_view(s.drop_last());
    }
}

// Variables and functions.

/// A variable as the parser knows it: the token that declares it, whether
/// it is mutable, and the cells of its type.
#[derive(Debug)]
pub struct VariableData {
    pub tkn: Tkn,
    pub mutable: bool,
    pub expr_type: ExprTypeCons,
}

impl VariableData {
    /// A variable declared by `tkn`, of the type that `expr_type` holds.
    pub fn new(tkn: Tkn, mutable: bool, expr_type: ExprTypeCons) -> (r: VariableData)
        ensures
            r.tkn == tkn,
            r.mutable == mutable,
            r.expr_type == expr_type,
    {
        VariableData { tkn, mutable, expr_type }
    }

    /// A copy of the variable's type as `cells` holds it.
    pub fn get_type(&self, cells: &TypeCells) -> (r: ExprType)
        requires
            self.expr_type.valid_in(cells@),
        ensures
            r@ == self.expr_type.type_in(cells@),
    {
        self.expr_type.clone_inner(cells)
    }
}

/// The position of the last variable named `name`: a later one shadows an
/// earlier one.
pub open spec fn find_variable(vars: Seq<VarView>, name: Seq<char>) -> Option<int>
    decreases vars.len(),
{
    if vars.len() == 0 {
        None
    } else if vars.last().0 == name {
        Some(vars.len() - 1)
    } else {
        find_variable(vars.drop_last(), name)
    }
}

/// A variable that is found is in the list.
pub proof fn lemma_find_variable_bound(vars: Seq<VarView>, name: Seq<char>)
    ensures
        find_variable(vars, name) matches Some(v) ==> 0 <= v < vars.len() && vars[v].0 == name,
    decreases vars.len(),
{
    if vars.len() > 0 && vars.last().0 != name {
        lemma_find_variable_bound(vars.drop_last(), name);
    }
}

/// The position of the last function named `name`: a later definition
/// replaces an earlier one.
pub open spec fn find_function(fns: Seq<FullFunctionDefinition>, name: Seq<char>) -> Option<int>
    decreases fns.len(),
{
    if fns.len() == 0 {
        None
    } else if fns.last().name@ == name {
        Some(fns.len() - 1)
    } else {
        find_function(fns.drop_last(), name)
    }
}

/// A variable as declarations record it: its name, the token it is
/// declared at, whether it is mutable, and the cells of its type.
pub type VarView = (Seq<char>, TokenView, bool, Seq<usize>);

/// The views of the variables in scope.
pub open spec fn vars_view(s: Seq<(String, VariableData)>) -> Seq<VarView> {
    s.map_values(|e: (String, VariableData)| (e.0@, e.1.tkn@, e.1.mutable, e.1.expr_type@))
}

/// The last variable named `name` (see [`find_variable`]).
pub fn get_in_stack(variables: &[(String, VariableData)], name: &String) -> (r: Option<usize>)
    ensures
        r matches Some(i) ==> find_variable(vars_view(variables@), name@) == Some(i as int) && i < variables@.len(),
        r is None ==> find_variable(vars_view(variables@), name@) is None,
{
    let ghost vv = vars_view(variables@);
    let mut k: usize = variables.len();
    assert(vv.take(k as int) =~= vv);
    while k > 0
        invariant
            k <= variables@.len(),
            vv == vars_view(variables@),
            find_variable(vv, name@) == find_variable(vv.take(k as int), name@),
        decreases k,
    {
        assert(vv.take(k as int).drop_last() =~= vv.take(k - 1));
        assert(vv.take(k as int).last().0 == variables@[k - 1].0@);
        if variables[k - 1].0 == *name {
            return Some(k - 1);
        }
        k -= 1;
    }
    None
}

/// The last function named `name` (see [`find_function`]).
pub fn get_function(functions: &[FullFunctionDefinition], name: &String) -> (r: Option<usize>)
    ensures
        r matches Some(i) ==> find_function(functions@, name@) == Some(i as int) && i < functions@.len(),
        r is None ==> find_function(functions@, name@) is None,
{
    let mut k: usize = functions.len();
    assert(functions@.take(k as int) =~= functions@);
    while k > 0
        invariant
            k <= functions@.len(),
            find_function(functions@, name@) == find_function(functions@.take(k as int), name@),
        decreases k,
    {
        assert(functions@.take(k as int).drop_last() =~= functions@.take(k - 1));
        if functions[k - 1].name == *name {
            return Some(k - 1);
        }
        k -= 1;
    }
    None
}

// Parsing expressions.

/// What expressions are parsed with (see [`Ctx`]).
pub struct ExprContext<'a> {
    pub tokens: &'a [Tkn],
    pub structs: &'a [Struct],
    pub functions: &'a [FullFunctionDefinition],
    pub variables: &'a [(String, VariableData)],
    pub line: usize,
}

impl<'a> View for ExprContext<'a> {
    type V = Ctx;

    open spec fn view(&self) -> Ctx {
        Ctx { tokens: self.tokens@, structs: self.structs@, fns: self.functions@, vars: vars_view(self.variables@), line: self.line }
    }
}

/// Whether every variable's type is a container in `c`.
pub open spec fn vars_valid(ctx: Ctx, c: Seq<TypeView>) -> bool {
    forall|v: int| 0 <= v < ctx.vars.len() ==> valid_ty(c, #[trigger] ctx.vars[v].3)
}

/// What an exec parse gave, as a [`PEnd`].
pub open spec fn outcome(r: Result<Expression, ParserError>, index: int, c: Seq<TypeView>) -> PEnd {
    match r {
        Ok(e) => PEnd::Parsed(e@, index, c),
        Err(x) => PEnd::Error(x@, c),
    }
}

/// Cells only grow, so containers stay valid.
pub(crate) proof fn lemma_valid_grows(c: Seq<TypeView>, d: Seq<TypeView>, ty: Seq<usize>)
    requires
        valid_ty(c, ty),
        c.len() <= d.len(),
    ensures
        valid_ty(d, ty),
{
}

/// The types of a list of parameters (see [`params_types`]).
pub(crate) fn param_types(ps: &Vec<FunctionParamater>) -> (r: Vec<ExprType>)
    ensures
        types_view(r@) == params_types(ps@),
{
    let mut out: Vec<ExprType> = Vec::new();
    let mut k: usize = 0;
    while k < ps.len()
        invariant
            k <= ps@.len(),
            types_view(out@) == params_types(ps@.take(k as int)),
        decreases ps@.len() - k,
    {
        let ghost before = out@;
        out.push(ps[k].param_type.copy());
        assert(out@.drop_last() =~= before);
        k += 1;
        assert(params_types(ps@.take(k as int)) =~= params_types(ps@.take(k - 1)).push(ps@[k - 1].param_type@));
    }
    assert(ps@.take(k as int) =~= ps@);
    out
}

/// The first field of `fields` named `name` (see [`find_field`]).
pub(crate) fn find_field_index(fields: &Vec<Field>, name: &String) -> (r: Option<usize>)
    ensures
        r matches Some(i) ==> find_field(fields@, name@) == Some(i as int) && i < fields@.len(),
        r is None ==> find_field(fields@, name@) is None,
{
    let mut i: usize = 0;
    while i < fields.len()
        invariant
            i <= fields@.len(),
            find_field(fields@.take(i as int), name@) is None,
        decreases fields@.len() - i,
    {
        assert(fields@.take(i + 1).drop_last() =~= fields@.take(i as int));
        if fields[i].field_name == *name {
            proof {
                lemma_find_field_prefix(fields@, i + 1, name@);
            }
            return Some(i);
        }
        i += 1;
    }
    assert(fields@.take(i as int) =~= fields@);
    None
}

/// The first field with a name in a prefix is the first in the whole list.
pub(crate) proof fn lemma_find_field_prefix(fields: Seq<Field>, n: int, name: Seq<char>)
    requires
        0 <= n <= fields.len(),
        find_field(fields.take(n), name) is Some,
    ensures
        find_field(fields, name) == find_field(fields.take(n), name),
    decreases fields.len() - n,
{
    if n < fields.len() {
        assert(fields.take(n + 1).drop_last() =~= fields.take(n));
        lemma_find_field_prefix(fields, n + 1, name);
    } else {
        assert(fields.take(n) =~= fields);
    }
}

/// The first named entry with a name in a prefix is the first in the
/// whole list.
pub(crate) proof fn lemma_find_named_prefix<T>(fields: Seq<(Seq<char>, T)>, n: int, name: Seq<char>)
    requires
        0 <= n <= fields.len(),
        find_named(fields.take(n), name) is Some,
    ensures
        find_named(fields, name) == find_named(fields.take(n), name),
    decreases fields.len() - n,
{
    if n < fields.len() {
        assert(fields.take(n + 1).drop_last() =~= fields.take(n));
        lemma_find_named_prefix(fields, n + 1, name);
    } else {
        assert(fields.take(n) =~= fields);
    }
}

/// The first of the named types `fields` named `name` (see [`find_named`]).
pub(crate) fn find_type_field(fields: &Vec<(String, ExprType)>, name: &String) -> (r: Option<usize>)
    ensures
        r matches Some(i) ==> find_named(crate::parser::expr::fields_view(fields@), name@) == Some(i as int) && i
            < fields@.len(),
        r is None ==> find_named(crate::parser::expr::fields_view(fields@), name@) is None,
{
    let ghost fv = crate::parser::expr::fields_view(fields@);
    proof {
        crate::parser::expr::lemma_fields_view(fields@);
    }
    let mut i: usize = 0;
    while i < fields.len()
        invariant
            i <= fields@.len() == fv.len(),
            fv == crate::parser::expr::fields_view(fields@),
            forall|j: int| 0 <= j < fields@.len() ==> #[trigger] fv[j] == (fields@[j].0@, type_view(fields@[j].1)),
            find_named(fv.take(i as int), name@) is None,
        decreases fields@.len() - i,
    {
        assert(fv.take(i + 1).drop_last() =~= fv.take(i as int));
        if fields[i].0 == *name {
            proof {
                lemma_find_named_prefix(fv, i + 1, name@);
            }
            return Some(i);
        }
        i += 1;
    }
    assert(fv.take(i as int) =~= fv);
    None
}

/// The prefix operator at `i` (see [`prefix_op`]).
pub(crate) fn read_prefix_op(tokens: &[Tkn], i: usize) -> (r: (Option<UnaryOperator>, usize))
    requires
        i < tokens@.len(),
    ensures
        r.0 == prefix_op(Ctx { tokens: tokens@, structs: seq![], fns: seq![], vars: seq![], line: 0 }, i as int).0,
        r.1 == prefix_op(Ctx { tokens: tokens@, structs: seq![], fns: seq![], vars: seq![], line: 0 }, i as int).1,
{
    match &tokens[i].token {
        TokenType::Operation(Operator::PlusFloat) => (Some(UnaryOperator::PlusFloat), i + 1),
        TokenType::Operation(Operator::Plus) => (Some(UnaryOperator::Plus), i + 1),
        TokenType::Operation(Operator::MinusFloat) => (Some(UnaryOperator::MinusFloat), i + 1),
        TokenType::Operation(Operator::Minus) => (Some(UnaryOperator::Minus), i + 1),
        TokenType::Operation(Operator::LogicNot) => (Some(UnaryOperator::LogicNot), i + 1),
        TokenType::Operation(Operator::BitwiseNegate) => (Some(UnaryOperator::BitwiseNegate), i + 1),
        TokenType::Borrow => {
            if i + 1 < tokens.len() {
                match &tokens[i + 1].token {
                    TokenType::Keyword(Keyword::Mutable) => {
                        return (Some(UnaryOperator::BorrowMutable), i + 2);
                    },
                    TokenType::Keyword(Keyword::InteriorMutable) => {
                        return (Some(UnaryOperator::BorrowInteriorMutable), i + 2);
                    },
                    _ => {},
                }
            }
            (Some(UnaryOperator::Borrow), i + 1)
        },
        _ => (None, i),
    }
}

/// The view of a list of positions.
pub open spec fn seen_view(seen: Seq<(String, usize)>) -> Seq<(Seq<char>, int)> {
    seen.map_values(|e: (String, usize)| (e.0@, e.1 as int))
}

/// The view of an optional type container; an empty list for none.
pub open spec fn opt_ty(t: Option<ExprTypeCons>) -> Seq<usize> {
    match t {
        Some(c) => c@,
        None => seq![],
    }
}

/// The views of a list of expression data.
pub open spec fn datas_view(s: Seq<ExpressionData>) -> Seq<ExprDataView> {
    s.map_values(|d: ExpressionData| data_view(d))
}

/// The first entry of `seen` named `name` (see [`find_named`]).
pub(crate) fn find_seen(seen: &Vec<(String, usize)>, name: &String) -> (r: Option<usize>)
    ensures
        r matches Some(i) ==> find_named(seen_view(seen@), name@) == Some(i as int) && i < seen@.len(),
        r is None ==> find_named(seen_view(seen@), name@) is None,
{
    let ghost sv = seen_view(seen@);
    let mut i: usize = 0;
    while i < seen.len()
        invariant
            i <= seen@.len() == sv.len(),
            sv == seen_view(seen@),
            find_named(sv.take(i as int), name@) is None,
        decreases seen@.len() - i,
    {
        assert(sv.take(i + 1).drop_last() =~= sv.take(i as int));
        if seen[i].0 == *name {
            proof {
                lemma_find_named_prefix(sv, i + 1, name@);
            }
            return Some(i);
        }
        i += 1;
    }
    assert(sv.take(i as int) =~= sv);
    None
}

/// The types of the tokens from `a`, as many as `n` and as there are.
pub(crate) fn token_types_from(tokens: &[Tkn], a: usize, n: usize) -> (r: Vec<TknType>)
    requires
        a <= tokens@.len(),
    ensures
        r@.map_values(|t: TknType| t@) == types_from(
            Ctx { tokens: tokens@, structs: seq![], fns: seq![], vars: seq![], line: 0 },
            a as int,
            n as int,
        ),
{
    let b = if n <= tokens.len() - a {
        a + n
    } else {
        tokens.len()
    };
    let mut out: Vec<TknType> = Vec::new();
    let mut k = a;
    while k < b
        invariant
            a <= k <= b <= tokens@.len(),
            out@.len() == k - a,
            forall|j: int| 0 <= j < out@.len() ==> #[trigger] out@[j]@ == tokens@[a + j].token@,
        decreases b - k,
    {
        out.push(tokens[k].token.clone());
        k += 1;
    }
    assert(out@.map_values(|t: TknType| t@) =~= tokens@.subrange(a as int, b as int).map_values(|t: Tkn| t.token@));
    out
}

} // verus!
