//! The grammar of expressions as spec functions: what parsing an
//! expression at a position gives.
use vstd::prelude::*;
use crate::lexer::token::{Keyword, Operator, Tkn, TknView, TokenType, TokenView};
use crate::parser::expr::{find_struct, match_result, write_cells, ExprTypeCons, Literal, TypeView};
use crate::parser::functions::{builtin_of, builtin_type, FullFunctionDefinition, FunctionParamater};
use crate::parser::operators::{bin_op_of, bin_rule, operator_info_spec, prec_value, BinRule, BinaryOperator, UnaryOperator};
use crate::parser::parser_error::ParserErrorView;
use crate::parser::structs::{Field, Struct};
use crate::parser::tokens::token_at_matches;

use crate::parser::expr_parse::{ExprView, ExprDataView, VarView, find_variable, find_function};

verus! {

// What parsing an expression gives.

/// What an expression is parsed with: the tokens, the structs, the
/// functions and variables that names refer to, and the line that the
/// expressions are on.
pub struct Ctx {
    pub tokens: Seq<Tkn>,
    pub structs: Seq<Struct>,
    pub fns: Seq<FullFunctionDefinition>,
    pub vars: Seq<VarView>,
    pub line: usize,
}

/// What a parse gives: it fails on the tokens running out or going round
/// without end (`Stuck`), or gives an error or an expression and the
/// position after it, each with the type cells as the parse leaves them.
pub enum PEnd {
    Stuck,
    Error(ParserErrorView, Seq<TypeView>),
    Parsed(ExprView, int, Seq<TypeView>),
}

/// Whether two more cells fit.
pub open spec fn room(c: Seq<TypeView>) -> bool {
    c.len() + 2 < usize::MAX
}

/// The type that the cells `ty` hold.
pub open spec fn type_of(c: Seq<TypeView>, ty: Seq<usize>) -> TypeView {
    c[ty[0] as int]
}

/// Whether the cells `ty` are a type container in `c`.
pub open spec fn valid_ty(c: Seq<TypeView>, ty: Seq<usize>) -> bool {
    ty.len() > 0 && forall|j: int| 0 <= j < ty.len() ==> #[trigger] ty[j] < c.len()
}

/// Matching the types held by `a` and `b` (see
/// [`ExprTypeCons::match_type`]): whether they match and the cells after;
/// `None` where the match fails.
pub open spec fn cells_match(c: Seq<TypeView>, a: Seq<usize>, b: Seq<usize>) -> Option<(bool, Seq<TypeView>)> {
    match match_result(type_of(c, a), type_of(c, b)) {
        None => None,
        Some((ok, l, r)) => Some((ok, if ok { write_cells(write_cells(c, a, l), b, r) } else { c })),
    }
}

/// The type of `op` on operands held by `l` and `r`, and the cells after
/// (see [`BinaryOperator::transform_type`]).
pub open spec fn bin_transform(op: BinaryOperator, c: Seq<TypeView>, l: Seq<usize>, r: Seq<usize>) -> (Option<Seq<usize>>, Seq<TypeView>) {
    let after = match match_result(type_of(c, l), type_of(c, r)) {
        Some((true, nl, nr)) => write_cells(write_cells(c, l, nl), r, nr),
        _ => c,
    };
    let matched = match match_result(type_of(c, l), type_of(c, r)) {
        Some((b, _, _)) => b,
        None => false,
    };
    match bin_rule(op, type_of(c, l), type_of(c, r)) {
        BinRule::Never => (Some(seq![c.len() as usize]), c.push(TypeView::Never)),
        BinRule::KeepLeft => (Some(l), c),
        BinRule::Bool => (Some(seq![c.len() as usize]), c.push(TypeView::Bool)),
        BinRule::Match => (if matched { Some(l + r) } else { None }, after),
        BinRule::MatchThenBool => (Some(seq![after.len() as usize]), after.push(TypeView::Bool)),
        BinRule::Reject => (None, c),
    }
}

/// The token at `i`.
pub open spec fn tok(ctx: Ctx, i: int) -> TknView {
    ctx.tokens[i].token@
}

/// The views of the tokens from `a` to `b`.
pub open spec fn tokens_between(ctx: Ctx, a: int, b: int) -> Seq<TokenView> {
    ctx.tokens.subrange(a, b).map_values(|t: Tkn| t@)
}

/// The views of the token types from `a`, as many as `n` and as there are.
pub open spec fn types_from(ctx: Ctx, a: int, n: int) -> Seq<TknView> {
    let b = if a + n <= ctx.tokens.len() { a + n } else { ctx.tokens.len() as int };
    ctx.tokens.subrange(a, b).map_values(|t: Tkn| t.token@)
}

/// The prefix operator at `i`, and the position after it.
pub open spec fn prefix_op(ctx: Ctx, i: int) -> (Option<UnaryOperator>, int) {
    if !(0 <= i < ctx.tokens.len()) {
        (None, i)
    } else {
        match tok(ctx, i) {
            TknView::Operation(Operator::PlusFloat) => (Some(UnaryOperator::PlusFloat), i + 1),
            TknView::Operation(Operator::Plus) => (Some(UnaryOperator::Plus), i + 1),
            TknView::Operation(Operator::MinusFloat) => (Some(UnaryOperator::MinusFloat), i + 1),
            TknView::Operation(Operator::Minus) => (Some(UnaryOperator::Minus), i + 1),
            TknView::Operation(Operator::LogicNot) => (Some(UnaryOperator::LogicNot), i + 1),
            TknView::Operation(Operator::BitwiseNegate) => (Some(UnaryOperator::BitwiseNegate), i + 1),
            TknView::Borrow => if i + 1 < ctx.tokens.len() && tok(ctx, i + 1) == TknView::Keyword(Keyword::Mutable) {
                (Some(UnaryOperator::BorrowMutable), i + 2)
            } else if i + 1 < ctx.tokens.len() && tok(ctx, i + 1) == TknView::Keyword(Keyword::InteriorMutable) {
                (Some(UnaryOperator::BorrowInteriorMutable), i + 2)
            } else {
                (Some(UnaryOperator::Borrow), i + 1)
            },
            _ => (None, i),
        }
    }
}

/// The position of the first field of `fields` named `name`.
pub open spec fn find_field(fields: Seq<Field>, name: Seq<char>) -> Option<int>
    decreases fields.len(),
{
    if fields.len() == 0 {
        None
    } else {
        match find_field(fields.drop_last(), name) {
            Some(k) => Some(k),
            None => if fields.last().field_name@ == name {
                Some(fields.len() - 1)
            } else {
                None
            },
        }
    }
}

/// The position of the first of `fields` named `name`.
pub open spec fn find_named<T>(fields: Seq<(Seq<char>, T)>, name: Seq<char>) -> Option<int>
    decreases fields.len(),
{
    if fields.len() == 0 {
        None
    } else {
        match find_named(fields.drop_last(), name) {
            Some(k) => Some(k),
            None => if fields.last().0 == name {
                Some(fields.len() - 1)
            } else {
                None
            },
        }
    }
}

/// The literal of the literal token at `p`, and the type of its cell.
pub open spec fn literal_at(ctx: Ctx, p: int) -> Option<(Literal, TypeView)> {
    match ctx.tokens[p].token {
        TokenType::IntegerLiteral { value, .. } => Some(
            (
                Literal::IntegerLiteral(value),
                if value >= 0 {
                    TypeView::AmbiguousPosInteger
                } else {
                    TypeView::AmbiguousNegInteger
                },
            ),
        ),
        TokenType::FloatLiteral { text, .. } => Some((Literal::FloatLiteral(text), TypeView::AmbiguousFloat)),
        TokenType::CharLiteral(ch) => Some((Literal::CharLiteral(ch), TypeView::Char)),
        TokenType::StringLiteral(s) => Some((Literal::StringLiteral(s), TypeView::StringLiteral)),
        TokenType::BooleanLiteral(b) => Some((Literal::BooleanLiteral(b), TypeView::Bool)),
        _ => None,
    }
}

/// The type of a function defined in the program, as its name is typed.
pub open spec fn function_type(f: FullFunctionDefinition) -> TypeView {
    TypeView::Function {
        name: f.name@,
        return_type: Box::new(f.return_type@),
        left_args: params_types(f.left_args@),
        right_args: params_types(f.right_args@),
    }
}

/// The types of a list of parameters.
pub open spec fn params_types(ps: Seq<FunctionParamater>) -> Seq<TypeView> {
    ps.map_values(|p: FunctionParamater| p.param_type@)
}

/// An expression on the context's line.
pub open spec fn mk(ctx: Ctx, data: ExprDataView, ty: Seq<usize>) -> ExprView {
    ExprView { line: ctx.line, data, ty }
}

/// Parses an expression set at `i` (see [`set_loop`]).
#[verifier::opaque]
pub open spec fn set_spec(ctx: Ctx, i: int, c: Seq<TypeView>) -> PEnd
    decreases ctx.tokens.len() - i, 5int, 0int,
{
    if !(0 <= i <= ctx.tokens.len()) {
        PEnd::Stuck
    } else {
        set_loop(ctx, i, i, seq![], seq![], seq![], c)
    }
}

/// Parses expressions from `p` for as long as there are: a function's name
/// takes the expressions before it as its left arguments and parses its
/// right arguments after it.  One expression is the result; none gives the
/// error that ended the reading; more give an error.
pub open spec fn set_loop(
    ctx: Ctx,
    begin: int,
    p: int,
    exprs: Seq<ExprView>,
    starts: Seq<int>,
    ends: Seq<int>,
    c: Seq<TypeView>,
) -> PEnd
    decreases ctx.tokens.len() - p, 4int, 0int,
{
    if !(0 <= p <= ctx.tokens.len()) {
        PEnd::Stuck
    } else {
        match expr_spec(ctx, p, 0, c) {
            PEnd::Stuck => PEnd::Stuck,
            PEnd::Error(err, c2) => if exprs.len() == 1 {
                PEnd::Parsed(exprs[0], p, c2)
            } else if exprs.len() == 0 {
                PEnd::Error(err, c2)
            } else if begin < ctx.tokens.len() {
                PEnd::Error(ParserErrorView::MultipleExpressions { tkn: ctx.tokens[begin]@, expr: exprs }, c2)
            } else {
                PEnd::Stuck
            },
            PEnd::Parsed(e, q, c2) => if q <= p || q > ctx.tokens.len() || !valid_ty(c2, e.ty) {
                PEnd::Stuck
            } else {
                match type_of(c2, e.ty) {
                    TypeView::Function { name, return_type, left_args, right_args } => if exprs.len() != left_args.len() {
                        if q < ctx.tokens.len() && find_function(ctx.fns, name) is Some {
                            PEnd::Error(
                                ParserErrorView::IncorrectNumberPrefixArguments {
                                    tkn: ctx.tokens[q]@,
                                    args: exprs.map_values(|x: ExprView| type_of(c2, x.ty)),
                                    expected_args: left_args,
                                    function: name,
                                },
                                c2,
                            )
                        } else {
                            PEnd::Stuck
                        }
                    } else {
                        match_lefts(ctx, begin, q, exprs, starts, ends, 0, seq![], name, *return_type, left_args, right_args, c2)
                    },
                    _ => set_loop(ctx, begin, q, exprs.push(e), starts.push(p), ends.push(q), c2),
                }
            },
        }
    }
}

/// Matches the expressions before a function's name, from the `k`-th on,
/// against the types of its left arguments.
pub open spec fn match_lefts(
    ctx: Ctx,
    begin: int,
    q: int,
    exprs: Seq<ExprView>,
    starts: Seq<int>,
    ends: Seq<int>,
    k: int,
    lefts: Seq<ExprView>,
    name: Seq<char>,
    ret: TypeView,
    left_args: Seq<TypeView>,
    right_args: Seq<TypeView>,
    c: Seq<TypeView>,
) -> PEnd
    decreases ctx.tokens.len() - q, 4int, 2 + right_args.len() + exprs.len() - k,
{
    if !(0 <= q <= ctx.tokens.len()) || k < 0 || k > exprs.len() || exprs.len() != left_args.len() {
        PEnd::Stuck
    } else if k == exprs.len() {
        rargs(ctx, begin, q, starts, ends, 0, lefts, seq![], name, ret, right_args, c)
    } else if !room(c) || !valid_ty(c, exprs[k].ty) {
        PEnd::Stuck
    } else {
        let tc = seq![c.len() as usize];
        let c1 = c.push(left_args[k]);
        match cells_match(c1, exprs[k].ty, tc) {
            None => PEnd::Stuck,
            Some((false, _)) => if k < starts.len() && k < ends.len() && 0 <= starts[k] <= ends[k] <= ctx.tokens.len() {
                PEnd::Error(
                    ParserErrorView::CouldNotMatchType {
                        tkns: tokens_between(ctx, starts[k], ends[k]),
                        calculated_type: type_of(c1, exprs[k].ty),
                        expected_type: left_args[k],
                    },
                    c1,
                )
            } else {
                PEnd::Stuck
            },
            Some((true, c2)) => match_lefts(
                ctx,
                begin,
                q,
                exprs,
                starts,
                ends,
                k + 1,
                lefts.push(mk(ctx, exprs[k].data, exprs[k].ty + tc)),
                name,
                ret,
                left_args,
                right_args,
                c2,
            ),
        }
    }
}

/// Parses a function's right arguments from the `k`-th on at `p`, each an
/// expression matched against the argument's type; then the call is the
/// one expression read so far, and the set goes on.
pub open spec fn rargs(
    ctx: Ctx,
    begin: int,
    p: int,
    starts: Seq<int>,
    ends: Seq<int>,
    k: int,
    lefts: Seq<ExprView>,
    rights: Seq<ExprView>,
    name: Seq<char>,
    ret: TypeView,
    right_args: Seq<TypeView>,
    c: Seq<TypeView>,
) -> PEnd
    decreases ctx.tokens.len() - p, 4int, 1 + right_args.len() - k,
{
    if !(0 <= p <= ctx.tokens.len()) || k < 0 || k > right_args.len() {
        PEnd::Stuck
    } else if k == right_args.len() {
        if !room(c) {
            PEnd::Stuck
        } else {
            let call = mk(
                ctx,
                ExprDataView::Function { name, left_args: lefts, right_args: rights },
                seq![c.len() as usize],
            );
            set_loop(ctx, begin, p, seq![call], starts, ends, c.push(ret))
        }
    } else {
        match expr_spec(ctx, p, 0, c) {
            PEnd::Stuck => PEnd::Stuck,
            PEnd::Error(err, c2) => PEnd::Error(err, c2),
            PEnd::Parsed(e, q, c2) => if !room(c2) || !valid_ty(c2, e.ty) || q < p || q > ctx.tokens.len() {
                PEnd::Stuck
            } else {
                let tc = seq![c2.len() as usize];
                let c3 = c2.push(right_args[k]);
                match cells_match(c3, e.ty, tc) {
                    None => PEnd::Stuck,
                    Some((false, _)) => PEnd::Error(
                        ParserErrorView::CouldNotMatchType {
                            tkns: tokens_between(ctx, p, q),
                            calculated_type: type_of(c3, e.ty),
                            expected_type: right_args[k],
                        },
                        c3,
                    ),
                    Some((true, c4)) => rargs(
                        ctx,
                        begin,
                        q,
                        starts,
                        ends,
                        k + 1,
                        lefts,
                        rights.push(mk(ctx, e.data, e.ty + tc)),
                        name,
                        ret,
                        right_args,
                        c4,
                    ),
                }
            },
        }
    }
}

/// Parses an expression at `i` whose operators bind at least as tightly as
/// `min`: an atom, then binary operators by precedence climbing.
pub open spec fn expr_spec(ctx: Ctx, i: int, min: int, c: Seq<TypeView>) -> PEnd
    decreases ctx.tokens.len() - i, 3int, 0int,
{
    if !(0 <= i <= ctx.tokens.len()) {
        PEnd::Stuck
    } else {
        match atom_spec(ctx, i, c) {
            PEnd::Parsed(e, p, c2) => if p < i || p > ctx.tokens.len() {
                PEnd::Stuck
            } else {
                expr_loop(ctx, e.data, e.ty, p, min, c2)
            },
            other => other,
        }
    }
}

/// The binary operator that the token at `p` stands for, if any: of a token
/// that reads two ways, the first way that is an operator.
pub open spec fn operator_token(t: TknView) -> Option<TknView> {
    match t {
        TknView::Either(l, r) => if operator_info_spec(*l) is Some {
            Some(*l)
        } else if operator_info_spec(*r) is Some {
            Some(*r)
        } else {
            None
        },
        _ => if operator_info_spec(t) is Some {
            Some(t)
        } else {
            None
        },
    }
}

/// After a left operand `data` of type `ty`, reads operators binding at
/// least as tightly as `min`, each with its right operand.
pub open spec fn expr_loop(ctx: Ctx, data: ExprDataView, ty: Seq<usize>, p: int, min: int, c: Seq<TypeView>) -> PEnd
    decreases ctx.tokens.len() - p, 1int, 0int,
{
    if !(0 <= p < ctx.tokens.len()) {
        PEnd::Stuck
    } else {
        match operator_token(tok(ctx, p)) {
            None => PEnd::Parsed(mk(ctx, data, ty), p, c),
            Some(ot) => {
                let (prec, assoc) = operator_info_spec(ot)->0;
                let pv = prec_value(prec) as int;
                if pv < min {
                    PEnd::Parsed(mk(ctx, data, ty), p, c)
                } else {
                    let next = if assoc is Left { pv + 1 } else { pv };
                    match expr_spec(ctx, p + 1, next, c) {
                        PEnd::Parsed(r, q, c2) => if !room(c2) || !valid_ty(c2, ty) || !valid_ty(c2, r.ty) || q < p + 1
                            || q > ctx.tokens.len() {
                            PEnd::Stuck
                        } else {
                            let op = bin_op_of(ot->Operation_0)->0;
                            match bin_transform(op, c2, ty, r.ty) {
                                (Some(nt), c3) => expr_loop(
                                    ctx,
                                    ExprDataView::BinaryOp(op, Box::new(mk(ctx, data, nt)), Box::new(mk(ctx, r.data, r.ty))),
                                    nt,
                                    q,
                                    min,
                                    c3,
                                ),
                                (None, c3) => PEnd::Error(
                                    ParserErrorView::CouldNotMatchType {
                                        tkns: tokens_between(ctx, p + 1, q),
                                        calculated_type: type_of(c3, r.ty),
                                        expected_type: type_of(c3, ty),
                                    },
                                    c3,
                                ),
                            }
                        },
                        other => other,
                    }
                }
            },
        }
    }
}

/// Parses an atom at `i`: an optional prefix operator, then a name (of a
/// function, a built-in function, a struct whose value follows, or a
/// variable), a literal, a group, an array, a `$` expression or a struct
/// value without a name; then its fields (see [`atom_rest`]).
pub open spec fn atom_spec(ctx: Ctx, i: int, c: Seq<TypeView>) -> PEnd
    decreases ctx.tokens.len() - i, 2int, 0int,
{
    let (op, p) = prefix_op(ctx, i);
    if !(0 <= i <= p < ctx.tokens.len()) || !room(c) {
        PEnd::Stuck
    } else {
        match tok(ctx, p) {
            TknView::Identifier(name) => match find_function(ctx.fns, name) {
                Some(f) => atom_rest(
                    ctx,
                    op,
                    p + 1,
                    ExprDataView::Identifier(name),
                    seq![c.len() as usize],
                    c.push(function_type(ctx.fns[f])),
                ),
                None => match builtin_of(name) {
                    Some(b) => atom_rest(
                        ctx,
                        op,
                        p + 1,
                        ExprDataView::Identifier(name),
                        seq![c.len() as usize],
                        c.push(builtin_type(b)),
                    ),
                    None => match find_struct(ctx.structs, name) {
                        Some(si) => if token_at_matches(ctx.tokens, p + 1, TknView::OpenCurlyBrace) {
                            struct_lit(ctx, i, op, si, p + 2, false, seq![], seq![], c)
                        } else if p + 1 < ctx.tokens.len() {
                            PEnd::Error(
                                ParserErrorView::ExpectedToken { tkn: ctx.tokens[p + 1]@, expected: TknView::OpenCurlyBrace },
                                c,
                            )
                        } else {
                            PEnd::Stuck
                        },
                        None => match find_variable(ctx.vars, name) {
                            Some(v) => atom_rest(
                                ctx,
                                op,
                                p + 1,
                                ExprDataView::Identifier(name),
                                ctx.vars[v].3,
                                c,
                            ),
                            None => PEnd::Error(ParserErrorView::VariableDoesNotExist { tkn: ctx.tokens[p]@ }, c),
                        },
                    },
                },
            },
            TknView::OpenParen => match group_spec(ctx, p, c) {
                PEnd::Parsed(e, q, c2) => if q < p {
                    PEnd::Stuck
                } else {
                    atom_rest(ctx, op, q, e.data, e.ty, c2)
                },
                other => other,
            },
            TknView::OpenSquareBracket => match array_spec(ctx, p, c) {
                PEnd::Parsed(e, q, c2) => if q < p {
                    PEnd::Stuck
                } else {
                    atom_rest(ctx, op, q, e.data, e.ty, c2)
                },
                other => other,
            },
            TknView::Dollar => match array_spec(ctx, p, c) {
                PEnd::Parsed(e, q, c2) => if q < p {
                    PEnd::Stuck
                } else {
                    atom_rest(ctx, op, q, e.data, e.ty, c2)
                },
                PEnd::Stuck => PEnd::Stuck,
                PEnd::Error(_, c2) => match group_spec(ctx, p, c2) {
                    PEnd::Parsed(e, q, c3) => if q < p {
                        PEnd::Stuck
                    } else {
                        atom_rest(ctx, op, q, e.data, e.ty, c3)
                    },
                    PEnd::Stuck => PEnd::Stuck,
                    PEnd::Error(_, c3) => PEnd::Error(ParserErrorView::InvalidDollarExpression { tkn: ctx.tokens[p]@ }, c3),
                },
            },
            TknView::OpenCurlyBrace => anon_lit(ctx, i, op, p + 1, false, seq![], seq![], c),
            _ => match literal_at(ctx, p) {
                Some((lit, t)) => atom_rest(
                    ctx,
                    op,
                    p + 1,
                    ExprDataView::Literal(lit),
                    seq![c.len() as usize],
                    c.push(t),
                ),
                None => PEnd::Error(ParserErrorView::InvalidExpressionAtom { tkn: ctx.tokens[p]@ }, c),
            },
        }
    }
}

/// After an atom `data` of type `ty` at `p`, reads `.field` accesses of
/// struct values; then applies the prefix operator `op`, which keeps the
/// type.
pub open spec fn atom_rest(
    ctx: Ctx,
    op: Option<UnaryOperator>,
    p: int,
    data: ExprDataView,
    ty: Seq<usize>,
    c: Seq<TypeView>,
) -> PEnd
    decreases ctx.tokens.len() - p, 0int, 0int,
{
    if !(0 <= p <= ctx.tokens.len()) || !valid_ty(c, ty) || !room(c) {
        PEnd::Stuck
    } else if token_at_matches(ctx.tokens, p, TknView::Dot) {
        let q = p + 1;
        let err = PEnd::Error(
            ParserErrorView::InvalidDotExpression { tkn: ctx.tokens[p]@, expr_type: type_of(c, ty) },
            c,
        );
        if q < ctx.tokens.len() && tok(ctx, q) is Identifier {
            let fname = tok(ctx, q)->Identifier_0;
            match type_of(c, ty) {
                TypeView::Custom { ident } => match find_struct(ctx.structs, ident) {
                    Some(si) => match find_field(ctx.structs[si].fields@, fname) {
                        Some(fi) => {
                            let field = ctx.structs[si].fields@[fi];
                            atom_rest(
                                ctx,
                                op,
                                q + 1,
                                ExprDataView::CustomField {
                                    data: Box::new(mk(ctx, data, ty)),
                                    field_name: field.field_name@,
                                    field_type: field.field_type@,
                                },
                                seq![c.len() as usize],
                                c.push(field.field_type@),
                            )
                        },
                        None => err,
                    },
                    None => err,
                },
                TypeView::AnonymousCustom { fields } => match find_named(fields, fname) {
                    Some(k) => atom_rest(
                        ctx,
                        op,
                        q + 1,
                        ExprDataView::AnonymousCustomField { data: Box::new(mk(ctx, data, ty)), field_name: fields[k].0 },
                        seq![c.len() as usize],
                        c.push(fields[k].1),
                    ),
                    None => err,
                },
                _ => err,
            }
        } else {
            err
        }
    } else {
        match op {
            None => PEnd::Parsed(mk(ctx, data, ty), p, c),
            Some(o) => PEnd::Parsed(mk(ctx, ExprDataView::UnaryOp(o, Box::new(mk(ctx, data, ty))), ty), p, c),
        }
    }
}

/// Reads the fields of a value of the `si`-th struct from `p`: each a
/// field's name, then `: expression` or, alone, a variable of that name,
/// separated by commas; then `}`.
pub open spec fn struct_lit(
    ctx: Ctx,
    i: int,
    op: Option<UnaryOperator>,
    si: int,
    p: int,
    need_comma: bool,
    fields: Seq<(Seq<char>, ExprDataView)>,
    seen: Seq<(Seq<char>, int)>,
    c: Seq<TypeView>,
) -> PEnd
    decreases ctx.tokens.len() - p, 4int, 0int,
{
    if !(0 <= p <= ctx.tokens.len()) || !(0 <= si < ctx.structs.len()) || !room(c) {
        PEnd::Stuck
    } else if p < ctx.tokens.len() && tok(ctx, p) is Identifier {
        let fname = tok(ctx, p)->Identifier_0;
        let sdef = ctx.structs[si];
        if need_comma {
            PEnd::Error(ParserErrorView::ExpectedToken { tkn: ctx.tokens[p]@, expected: TknView::Comma }, c)
        } else {
            match find_field(sdef.fields@, fname) {
                None => PEnd::Error(
                    ParserErrorView::FieldDoesNotExist { tkn: ctx.tokens[p]@, custom_struct: sdef.name@ },
                    c,
                ),
                Some(fi) => {
                    let field = sdef.fields@[fi];
                    let p1 = p + 1;
                    match find_named(seen, field.field_name@) {
                        Some(k) => if p1 < ctx.tokens.len() && 0 <= seen[k].1 < ctx.tokens.len() {
                            PEnd::Error(
                                ParserErrorView::AlreadyDefinedField {
                                    tkn: ctx.tokens[p1]@,
                                    defined_field: ctx.tokens[seen[k].1]@,
                                },
                                c,
                            )
                        } else {
                            PEnd::Stuck
                        },
                        None => if token_at_matches(ctx.tokens, p1, TknView::Colon) {
                            let start = p1 + 1;
                            match set_spec(ctx, start, c) {
                                PEnd::Parsed(e, q, c2) => if !room(c2) || !valid_ty(c2, e.ty) || q < start
                                    || q > ctx.tokens.len() {
                                    PEnd::Stuck
                                } else {
                                    let tc = seq![c2.len() as usize];
                                    let c3 = c2.push(field.field_type@);
                                    match cells_match(c3, e.ty, tc) {
                                        None => PEnd::Stuck,
                                        Some((false, _)) => PEnd::Error(
                                            ParserErrorView::CouldNotMatchType {
                                                tkns: tokens_between(ctx, start, q),
                                                calculated_type: type_of(c3, e.ty),
                                                expected_type: field.field_type@,
                                            },
                                            c3,
                                        ),
                                        Some((true, c4)) => {
                                            let comma = token_at_matches(ctx.tokens, q, TknView::Comma);
                                            struct_lit(
                                                ctx,
                                                i,
                                                op,
                                                si,
                                                if comma { q + 1 } else { q },
                                                !comma,
                                                fields.push((field.field_name@, e.data)),
                                                seen.push((field.field_name@, p)),
                                                c4,
                                            )
                                        },
                                    }
                                },
                                other => other,
                            }
                        } else {
                            match find_variable(ctx.vars, field.field_name@) {
                                None => if p1 < ctx.tokens.len() {
                                    PEnd::Error(
                                        ParserErrorView::FieldExpressionNotDefined {
                                            tkn: ctx.tokens[p1]@,
                                            field: field.field_name@,
                                        },
                                        c,
                                    )
                                } else {
                                    PEnd::Stuck
                                },
                                Some(v) => {
                                    let vty = ctx.vars[v].3;
                                    let tc = seq![c.len() as usize];
                                    let c3 = c.push(field.field_type@);
                                    if !valid_ty(c, vty) {
                                        PEnd::Stuck
                                    } else {
                                        match cells_match(c3, vty, tc) {
                                            None => PEnd::Stuck,
                                            Some((false, _)) => if p1 < ctx.tokens.len() {
                                                PEnd::Error(
                                                    ParserErrorView::CouldNotMatchType {
                                                        tkns: seq![ctx.tokens[p1]@],
                                                        calculated_type: type_of(c3, vty),
                                                        expected_type: field.field_type@,
                                                    },
                                                    c3,
                                                )
                                            } else {
                                                PEnd::Stuck
                                            },
                                            Some((true, c4)) => {
                                                let comma = token_at_matches(ctx.tokens, p1, TknView::Comma);
                                                struct_lit(
                                                    ctx,
                                                    i,
                                                    op,
                                                    si,
                                                    if comma { p1 + 1 } else { p1 },
                                                    !comma,
                                                    fields.push((field.field_name@, ExprDataView::Identifier(field.field_name@))),
                                                    seen.push((field.field_name@, p)),
                                                    c4,
                                                )
                                            },
                                        }
                                    }
                                },
                            }
                        },
                    }
                },
            }
        }
    } else if token_at_matches(ctx.tokens, p, TknView::CloseCurlyBrace) {
        atom_rest(
            ctx,
            op,
            p + 1,
            ExprDataView::Custom { fields },
            seq![c.len() as usize],
            c.push(TypeView::Custom { ident: ctx.structs[si].name@ }),
        )
    } else if p < ctx.tokens.len() {
        PEnd::Error(ParserErrorView::ExpectedToken { tkn: ctx.tokens[p]@, expected: TknView::CloseCurlyBrace }, c)
    } else {
        PEnd::Stuck
    }
}

/// Reads the fields of a struct value without a name from `p`: each a
/// name, `:` and an expression set, separated by commas, up to `}`.
pub open spec fn anon_lit(
    ctx: Ctx,
    i: int,
    op: Option<UnaryOperator>,
    p: int,
    need_comma: bool,
    datas: Seq<(Seq<char>, ExprDataView)>,
    types: Seq<(Seq<char>, TypeView)>,
    c: Seq<TypeView>,
) -> PEnd
    decreases ctx.tokens.len() - p, 4int, 0int,
{
    if !(0 <= p <= ctx.tokens.len()) || !room(c) {
        PEnd::Stuck
    } else if token_at_matches(ctx.tokens, p, TknView::CloseCurlyBrace) {
        atom_rest(
            ctx,
            op,
            p + 1,
            ExprDataView::AnonymousCustom { fields: datas },
            seq![c.len() as usize],
            c.push(TypeView::AnonymousCustom { fields: types }),
        )
    } else if !(p < ctx.tokens.len()) {
        PEnd::Stuck
    } else if need_comma {
        PEnd::Error(
            ParserErrorView::ExpectedTokens {
                tkn: ctx.tokens[p]@,
                received: types_from(ctx, i, 2),
                expected: seq![TknView::Comma, TknView::CloseCurlyBrace],
            },
            c,
        )
    } else if !(tok(ctx, p) is Identifier) {
        PEnd::Error(ParserErrorView::ExpectedIdentifier { tkn: ctx.tokens[p]@ }, c)
    } else {
        let name = tok(ctx, p)->Identifier_0;
        let p1 = p + 1;
        if !token_at_matches(ctx.tokens, p1, TknView::Colon) {
            if p1 < ctx.tokens.len() {
                PEnd::Error(ParserErrorView::ExpectedToken { tkn: ctx.tokens[p1]@, expected: TknView::Colon }, c)
            } else {
                PEnd::Stuck
            }
        } else {
            match set_spec(ctx, p1 + 1, c) {
                PEnd::Parsed(e, q, c2) => if q < p1 + 1 || q > ctx.tokens.len() || !valid_ty(c2, e.ty) {
                    PEnd::Stuck
                } else {
                    let comma = token_at_matches(ctx.tokens, q, TknView::Comma);
                    anon_lit(
                        ctx,
                        i,
                        op,
                        if comma { q + 1 } else { q },
                        need_comma || !comma,
                        datas.push((name, e.data)),
                        types.push((name, type_of(c2, e.ty))),
                        c2,
                    )
                },
                other => other,
            }
        }
    }
}

/// Parses a group at `p`: `( set )` or `$ set`.
pub open spec fn group_spec(ctx: Ctx, p: int, c: Seq<TypeView>) -> PEnd
    decreases ctx.tokens.len() - p, 1int, 0int,
{
    if !(0 <= p <= ctx.tokens.len()) {
        PEnd::Stuck
    } else if token_at_matches(ctx.tokens, p, TknView::OpenParen) {
        match set_spec(ctx, p + 1, c) {
            PEnd::Parsed(e, q, c2) => if token_at_matches(ctx.tokens, q, TknView::CloseParen) {
                PEnd::Parsed(e, q + 1, c2)
            } else {
                PEnd::Stuck
            },
            other => other,
        }
    } else if token_at_matches(ctx.tokens, p, TknView::Dollar) {
        set_spec(ctx, p + 1, c)
    } else if p < ctx.tokens.len() {
        PEnd::Error(
            ParserErrorView::ExpectedTokens {
                tkn: ctx.tokens[p]@,
                received: types_from(ctx, p, 2),
                expected: seq![TknView::OpenParen, TknView::Dollar],
            },
            c,
        )
    } else {
        PEnd::Stuck
    }
}

/// Parses an array at `p`: `[` or `$`, then expressions of one type; a `[`
/// array ends with `]`.  The parse goes on after the `]`, or after the last
/// element of a `$` array.
pub open spec fn array_spec(ctx: Ctx, p: int, c: Seq<TypeView>) -> PEnd
    decreases ctx.tokens.len() - p, 1int, 0int,
{
    if !(0 <= p <= ctx.tokens.len()) {
        PEnd::Stuck
    } else if token_at_matches(ctx.tokens, p, TknView::OpenSquareBracket) {
        array_loop(ctx, p, true, p + 1, seq![], seq![], c)
    } else if token_at_matches(ctx.tokens, p, TknView::Dollar) {
        array_loop(ctx, p, false, p + 1, seq![], seq![], c)
    } else if p < ctx.tokens.len() {
        PEnd::Error(ParserErrorView::ExpectedToken { tkn: ctx.tokens[p]@, expected: TknView::Dollar }, c)
    } else {
        PEnd::Stuck
    }
}

/// Reads the elements of an array from `q` for as long as there are,
/// matching each element's type with those before; `ty` is empty before
/// the first.
pub open spec fn array_loop(
    ctx: Ctx,
    start: int,
    closing: bool,
    q: int,
    elems: Seq<ExprDataView>,
    ty: Seq<usize>,
    c: Seq<TypeView>,
) -> PEnd
    decreases ctx.tokens.len() - q, 4int, 0int,
{
    if !(0 <= q <= ctx.tokens.len()) {
        PEnd::Stuck
    } else {
        match expr_spec(ctx, q, 0, c) {
            PEnd::Stuck => PEnd::Stuck,
            PEnd::Error(_, c2) => if elems.len() == 0 || !valid_ty(c2, ty) || !room(c2) {
                PEnd::Stuck
            } else if closing && !token_at_matches(ctx.tokens, q, TknView::CloseSquareBracket) {
                if q < ctx.tokens.len() {
                    PEnd::Error(
                        ParserErrorView::ExpectedToken { tkn: ctx.tokens[q]@, expected: TknView::CloseAngularBracket },
                        c2,
                    )
                } else {
                    PEnd::Stuck
                }
            } else {
                PEnd::Parsed(
                    mk(
                        ctx,
                        ExprDataView::Array(elems.map_values(|d: ExprDataView| mk(ctx, d, ty))),
                        seq![c2.len() as usize],
                    ),
                    if closing {
                        q + 1
                    } else {
                        q
                    },
                    c2.push(TypeView::Array { length: Some(elems.len() as usize), expr_type: Box::new(type_of(c2, ty)) }),
                )
            },
            PEnd::Parsed(e, q2, c2) => if q2 <= q || q2 > ctx.tokens.len() || !valid_ty(c2, e.ty) {
                PEnd::Stuck
            } else if elems.len() == 0 {
                array_loop(ctx, start, closing, q2, elems.push(e.data), e.ty, c2)
            } else if !valid_ty(c2, ty) {
                PEnd::Stuck
            } else {
                match cells_match(c2, ty, e.ty) {
                    None => PEnd::Stuck,
                    Some((false, _)) => PEnd::Error(
                        ParserErrorView::CouldNotMatchType {
                            tkns: tokens_between(ctx, q, q2),
                            calculated_type: type_of(c2, e.ty),
                            expected_type: type_of(c2, ty),
                        },
                        c2,
                    ),
                    Some((true, c3)) => array_loop(ctx, start, closing, q2, elems.push(e.data), ty + e.ty, c3),
                }
            },
        }
    }
}

} // verus!
