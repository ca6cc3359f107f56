//! Unary and binary operators: which operand types they take and what type
//! they give, and how tightly and to which side they bind.
use vstd::prelude::*;
use crate::lexer::token::{Operator, TknType, TknView, TokenType};
use crate::parser::expr::{
    is_float_view, match_result, write_cells, ExprType, ExprTypeCons, TypeCells, TypeView,
};

verus! {

/// Short name of [`UnaryOperator`].
pub type UnOp = UnaryOperator;

/// An operator written before its one operand.
#[derive(Clone, Copy, Debug, PartialEq, Eq, Structural)]
pub enum UnaryOperator {
    PlusFloat,
    Plus,
    MinusFloat,
    Minus,
    LogicNot,
    BitwiseNegate,
    Borrow,
    BorrowInteriorMutable,
    BorrowMutable,
}

/// The integer types of fixed width other than `isize` and `usize`.
pub open spec fn is_sized_int(t: TypeView) -> bool {
    is_sized_signed(t) || is_sized_unsigned(t)
}

/// `i8` to `i128`.
pub open spec fn is_sized_signed(t: TypeView) -> bool {
    t is I8 || t is I16 || t is I32 || t is I64 || t is I128
}

/// `u8` to `u128`.
pub open spec fn is_sized_unsigned(t: TypeView) -> bool {
    t is U8 || t is U16 || t is U32 || t is U64 || t is U128
}

/// An integer literal whose width is not known yet.
pub open spec fn is_ambiguous_int(t: TypeView) -> bool {
    t is AmbiguousPosInteger || t is AmbiguousNegInteger
}

/// Whether a unary operator takes an operand of type `t` (and gives the
/// same type back).
pub open spec fn unop_accepts(op: UnaryOperator, t: TypeView) -> bool {
    ||| t is Never
    ||| op is LogicNot && t is Bool
    ||| (op is PlusFloat || op is MinusFloat) && (t is AmbiguousFloat || is_float_view(t))
    ||| op is Plus && (is_ambiguous_int(t) || is_sized_int(t))
    ||| op is Minus && (t is AmbiguousNegInteger || is_sized_signed(t))
    ||| op is BitwiseNegate && (is_ambiguous_int(t) || is_sized_int(t))
}

impl UnaryOperator {
    /// The type of the operator applied to an operand of type `expr_type`:
    /// the same type, where the operator takes it (see [`unop_accepts`]).
    pub fn transform_type(self, expr_type: ExprTypeCons, cells: &TypeCells) -> (r: Option<ExprTypeCons>)
        requires
            expr_type.valid_in(cells@),
        ensures
            unop_accepts(self, expr_type.type_in(cells@)) ==> r == Some(expr_type),
            !unop_accepts(self, expr_type.type_in(cells@)) ==> r is None,
    {
        let t = expr_type.get(cells);
        let ok = match (self, t) {
            (_, ExprType::Never) => true,
            (UnaryOperator::LogicNot, ExprType::Bool) => true,
            (UnaryOperator::PlusFloat, ExprType::AmbiguousFloat | ExprType::F32 | ExprType::F64) => true,
            (UnaryOperator::MinusFloat, ExprType::AmbiguousFloat | ExprType::F32 | ExprType::F64) => true,
            (
                UnaryOperator::Plus,
                ExprType::AmbiguousNegInteger | ExprType::I8 | ExprType::I16 | ExprType::I32 | ExprType::I64
                | ExprType::I128 | ExprType::AmbiguousPosInteger | ExprType::U8 | ExprType::U16 | ExprType::U32
                | ExprType::U64 | ExprType::U128,
            ) => true,
            (
                UnaryOperator::BitwiseNegate,
                ExprType::AmbiguousNegInteger | ExprType::I8 | ExprType::I16 | ExprType::I32 | ExprType::I64
                | ExprType::I128 | ExprType::AmbiguousPosInteger | ExprType::U8 | ExprType::U16 | ExprType::U32
                | ExprType::U64 | ExprType::U128,
            ) => true,
            (
                UnaryOperator::Minus,
                ExprType::AmbiguousNegInteger | ExprType::I8 | ExprType::I16 | ExprType::I32 | ExprType::I64
                | ExprType::I128,
            ) => true,
            _ => false,
        };
        if ok {
            Some(expr_type)
        } else {
            None
        }
    }
}

/// Short name of [`BinaryOperator`].
pub type BinOp = BinaryOperator;

/// An operator written between its two operands.
#[derive(Clone, Copy, Debug, PartialEq, Eq, Structural)]
pub enum BinaryOperator {
    /// `!..=`
    BangRangeEquals,
    /// `!..`
    BangRange,
    /// `..=`
    RangeEquals,
    /// `..`
    Range,
    /// `==`
    Equals,
    /// `!=`
    NotEquals,
    /// `<=`
    LessThanEqualTo,
    /// `>=`
    GreaterThanEqualTo,
    /// `<`
    LessThan,
    /// `>`
    GreaterThan,
    /// `++`
    Concat,
    /// `+`
    Plus,
    /// `+.`
    PlusFloat,
    /// `-`
    Minus,
    /// `-.`
    MinusFloat,
    /// `**`
    Exponent,
    /// `**.`
    ExponentFloat,
    /// `*`
    Multiply,
    /// `*.`
    MultiplyFloat,
    /// `/`
    Divide,
    /// `/.`
    DivideFloat,
    /// `%`
    Modulo,
    /// `%.`
    ModuloFloat,
    /// `&&`
    LogicAnd,
    /// `||`
    LogicOr,
    /// `&`
    BitwiseAnd,
    /// `|`
    BitwiseOr,
    /// `^`
    BitwiseXor,
    /// `<<`
    BitwiseShiftLeft,
    /// `>>`
    BitwiseShiftRight,
}

/// The integer arithmetic and bitwise operators.
pub open spec fn is_int_op(op: BinaryOperator) -> bool {
    ||| op is Plus
    ||| op is Minus
    ||| op is Exponent
    ||| op is Multiply
    ||| op is Divide
    ||| op is Modulo
    ||| op is BitwiseAnd
    ||| op is BitwiseOr
    ||| op is BitwiseXor
    ||| op is BitwiseShiftLeft
    ||| op is BitwiseShiftRight
}

/// The floating-point arithmetic operators.
pub open spec fn is_float_op(op: BinaryOperator) -> bool {
    ||| op is PlusFloat
    ||| op is MinusFloat
    ||| op is ExponentFloat
    ||| op is MultiplyFloat
    ||| op is DivideFloat
    ||| op is ModuloFloat
}

/// The comparisons.
pub open spec fn is_comparison_op(op: BinaryOperator) -> bool {
    op is Equals || is_order_op(op)
}

/// The comparisons other than `==`.
pub open spec fn is_order_op(op: BinaryOperator) -> bool {
    ||| op is NotEquals
    ||| op is LessThanEqualTo
    ||| op is GreaterThanEqualTo
    ||| op is LessThan
    ||| op is GreaterThan
}

/// What a binary operator does with the types of its operands.
pub enum BinRule {
    /// An operand can never be: so is the result.
    Never,
    /// The result has the left operand's type.
    KeepLeft,
    /// The result is a `bool`.
    Bool,
    /// The operands are matched against each other; where they match the
    /// result has both their types.
    Match,
    /// The operands are matched against each other, and the result is a
    /// `bool` whether or not they match.
    MatchThenBool,
    /// The operator does not take these operands.
    Reject,
}

/// The rule for `op` on operands of types `l` and `r`.
pub open spec fn bin_rule(op: BinaryOperator, l: TypeView, r: TypeView) -> BinRule {
    if l is Never || r is Never {
        BinRule::Never
    } else if is_int_op(op) && is_sized_int(l) && is_sized_int(r) && l == r {
        BinRule::KeepLeft
    } else if is_float_op(op) && is_float_view(l) && is_float_view(r) && l == r {
        BinRule::KeepLeft
    } else if is_comparison_op(op) && is_sized_int(l) && is_sized_int(r) && l == r {
        BinRule::Bool
    } else if is_comparison_op(op) && is_float_view(l) && is_float_view(r) && l == r {
        BinRule::Bool
    } else if is_comparison_op(op) && l is Char && r is Char {
        BinRule::Bool
    } else if is_int_op(op) && (
        (is_ambiguous_int(l) && is_sized_signed(r))
        || (is_sized_signed(l) && is_ambiguous_int(r))
        || (l is AmbiguousPosInteger && is_sized_unsigned(r))
        || (is_sized_unsigned(l) && r is AmbiguousPosInteger)
        || (is_ambiguous_int(l) && is_ambiguous_int(r))
    ) {
        BinRule::Match
    } else if is_float_op(op) && (
        (l is AmbiguousFloat && is_float_view(r))
        || (is_float_view(l) && r is AmbiguousFloat)
        || (l is AmbiguousFloat && r is AmbiguousFloat)
    ) {
        BinRule::Match
    } else if is_comparison_op(op) && (
        (is_ambiguous_int(l) && is_sized_signed(r))
        || (is_sized_signed(l) && is_ambiguous_int(r))
        || (l is AmbiguousPosInteger && is_sized_unsigned(r))
        || (is_sized_unsigned(l) && r is AmbiguousPosInteger)
    ) {
        BinRule::MatchThenBool
    } else if is_order_op(op) && (
        (l is AmbiguousFloat && is_float_view(r))
        || (is_float_view(l) && r is AmbiguousFloat)
    ) {
        BinRule::MatchThenBool
    } else if (op is LogicAnd || op is LogicOr || op is BitwiseXor) && l is Bool && r is Bool {
        BinRule::KeepLeft
    } else {
        BinRule::Reject
    }
}

/// What matching the two operands' types does to the cells: the cells
/// take what each side learnt where they match, and stay as they are where
/// they do not.
pub open spec fn cells_after_match(
    cells: Seq<TypeView>,
    left: ExprTypeCons,
    right: ExprTypeCons,
) -> Seq<TypeView> {
    let (b, l, r) = match_result(left.type_in(cells), right.type_in(cells))->0;
    if b {
        write_cells(write_cells(cells, left@, l), right@, r)
    } else {
        cells
    }
}

/// Whether the two operands' types match.
pub open spec fn operands_match(cells: Seq<TypeView>, left: ExprTypeCons, right: ExprTypeCons) -> bool {
    (match_result(left.type_in(cells), right.type_in(cells))->0).0
}

/// Matching two types that are both without parts always goes through.
proof fn lemma_flat_match(l: TypeView, r: TypeView)
    requires
        !(l is Ref || l is MutRef || l is Array || l is Tuple || l is AmbiguousGroup || l is Function
            || l is FunctionPass || l is AnonymousCustom),
        !(r is Ref || r is MutRef || r is Array || r is Tuple || r is AmbiguousGroup || r is Function
            || r is FunctionPass || r is AnonymousCustom),
    ensures
        match_result(l, r) is Some,
{
}

impl BinaryOperator {
    /// The type of the operator applied to operands whose types are held by
    /// `left` and `right` (see [`bin_rule`]).  Where it matches the two
    /// types, the cells are changed as [`ExprTypeCons::match_type`] changes
    /// them.  A result of type `!` or `bool` is a new cell.
    pub fn transform_type(
        self,
        cells: &mut TypeCells,
        left: &mut ExprTypeCons,
        right: &mut ExprTypeCons,
    ) -> (r: Option<ExprTypeCons>)
        requires
            old(left).valid_in(old(cells)@),
            old(right).valid_in(old(cells)@),
            old(cells)@.len() + 1 < usize::MAX,
        ensures
            *final(left) == *old(left),
            *final(right) == *old(right),
            ({
                let c = old(cells)@;
                let l = old(left).type_in(c);
                let rt = old(right).type_in(c);
                match bin_rule(self, l, rt) {
                    BinRule::Never => r matches Some(x) && x@ == seq![c.len() as usize]
                        && final(cells)@ == c.push(TypeView::Never),
                    BinRule::KeepLeft => r matches Some(x) && x@ == old(left)@ && final(cells)@ == c,
                    BinRule::Bool => r matches Some(x) && x@ == seq![c.len() as usize]
                        && final(cells)@ == c.push(TypeView::Bool),
                    BinRule::Match => final(cells)@ == cells_after_match(c, *old(left), *old(right))
                        && if operands_match(c, *old(left), *old(right)) {
                            r matches Some(x) && x@ == old(left)@ + old(right)@
                        } else {
                            r is None
                        },
                    BinRule::MatchThenBool => {
                        let c2 = cells_after_match(c, *old(left), *old(right));
                        r matches Some(x) && x@ == seq![c2.len() as usize] && final(cells)@ == c2.push(TypeView::Bool)
                    },
                    BinRule::Reject => r is None && final(cells)@ == c,
                }
            }),
    {
        let lt = left.clone_inner(cells);
        let rt = right.clone_inner(cells);
        let op = self;
        if matches!(lt, ExprType::Never) || matches!(rt, ExprType::Never) {
            return Some(ExprTypeCons::new(cells, ExprType::Never));
        }
        let int_op = matches!(op, BinaryOperator::Plus | BinaryOperator::Minus | BinaryOperator::Exponent
            | BinaryOperator::Multiply | BinaryOperator::Divide | BinaryOperator::Modulo | BinaryOperator::BitwiseAnd
            | BinaryOperator::BitwiseOr | BinaryOperator::BitwiseXor | BinaryOperator::BitwiseShiftLeft
            | BinaryOperator::BitwiseShiftRight);
        let float_op = matches!(op, BinaryOperator::PlusFloat | BinaryOperator::MinusFloat
            | BinaryOperator::ExponentFloat | BinaryOperator::MultiplyFloat | BinaryOperator::DivideFloat
            | BinaryOperator::ModuloFloat);
        let order_op = matches!(op, BinaryOperator::NotEquals | BinaryOperator::LessThanEqualTo
            | BinaryOperator::GreaterThanEqualTo | BinaryOperator::LessThan | BinaryOperator::GreaterThan);
        let comparison_op = order_op || matches!(op, BinaryOperator::Equals);
        let l_signed = matches!(lt, ExprType::I8 | ExprType::I16 | ExprType::I32 | ExprType::I64 | ExprType::I128);
        let r_signed = matches!(rt, ExprType::I8 | ExprType::I16 | ExprType::I32 | ExprType::I64 | ExprType::I128);
        let l_unsigned = matches!(lt, ExprType::U8 | ExprType::U16 | ExprType::U32 | ExprType::U64 | ExprType::U128);
        let r_unsigned = matches!(rt, ExprType::U8 | ExprType::U16 | ExprType::U32 | ExprType::U64 | ExprType::U128);
        let l_int = l_signed || l_unsigned;
        let r_int = r_signed || r_unsigned;
        let l_float = matches!(lt, ExprType::F32 | ExprType::F64);
        let r_float = matches!(rt, ExprType::F32 | ExprType::F64);
        let l_amb = matches!(lt, ExprType::AmbiguousPosInteger | ExprType::AmbiguousNegInteger);
        let r_amb = matches!(rt, ExprType::AmbiguousPosInteger | ExprType::AmbiguousNegInteger);
        let l_pos = matches!(lt, ExprType::AmbiguousPosInteger);
        let r_pos = matches!(rt, ExprType::AmbiguousPosInteger);
        let l_amb_float = matches!(lt, ExprType::AmbiguousFloat);
        let r_amb_float = matches!(rt, ExprType::AmbiguousFloat);
        let same = lt.same_type(&rt);
        if int_op && l_int && r_int && same {
            return Some(left.clone());
        }
        if float_op && l_float && r_float && same {
            return Some(left.clone());
        }
        if comparison_op && l_int && r_int && same {
            return Some(ExprTypeCons::new(cells, ExprType::Bool));
        }
        if comparison_op && l_float && r_float && same {
            return Some(ExprTypeCons::new(cells, ExprType::Bool));
        }
        if comparison_op && matches!(lt, ExprType::Char) && matches!(rt, ExprType::Char) {
            return Some(ExprTypeCons::new(cells, ExprType::Bool));
        }
        if int_op && ((l_amb && r_signed) || (l_signed && r_amb) || (l_pos && r_unsigned) || (l_unsigned && r_pos)
            || (l_amb && r_amb)) {
            proof {
                lemma_flat_match(lt@, rt@);
            }
            return left.match_type(right, cells);
        }
        if float_op && ((l_amb_float && r_float) || (l_float && r_amb_float) || (l_amb_float && r_amb_float)) {
            proof {
                lemma_flat_match(lt@, rt@);
            }
            return left.match_type(right, cells);
        }
        if (comparison_op && ((l_amb && r_signed) || (l_signed && r_amb) || (l_pos && r_unsigned) || (l_unsigned && r_pos)))
            || (order_op && ((l_amb_float && r_float) || (l_float && r_amb_float))) {
            proof {
                lemma_flat_match(lt@, rt@);
            }
            let _ = left.match_type(right, cells);
            return Some(ExprTypeCons::new(cells, ExprType::Bool));
        }
        if matches!(op, BinaryOperator::LogicAnd | BinaryOperator::LogicOr | BinaryOperator::BitwiseXor)
            && matches!(lt, ExprType::Bool) && matches!(rt, ExprType::Bool) {
            return Some(left.clone());
        }
        None
    }

    /// The binary operator that an operator token stands for.
    pub fn get_bin_op(operator: &TknType) -> (r: BinaryOperator)
        requires
            operator@ matches TknView::Operation(op) && bin_op_of(op) is Some,
        ensures
            operator@ matches TknView::Operation(op) && bin_op_of(op) == Some(r),
    {
        match operator {
            TokenType::Operation(op) => match op {
                Operator::ExponentFloat => BinaryOperator::ExponentFloat,
                Operator::Exponent => BinaryOperator::Exponent,
                Operator::MultiplyFloat => BinaryOperator::MultiplyFloat,
                Operator::Multiply => BinaryOperator::Multiply,
                Operator::DivideFloat => BinaryOperator::DivideFloat,
                Operator::Divide => BinaryOperator::Divide,
                Operator::ModuloFloat => BinaryOperator::ModuloFloat,
                Operator::Modulo => BinaryOperator::Modulo,
                Operator::PlusFloat => BinaryOperator::PlusFloat,
                Operator::Plus => BinaryOperator::Plus,
                Operator::MinusFloat => BinaryOperator::MinusFloat,
                Operator::Minus => BinaryOperator::Minus,
                Operator::BitwiseShiftLeft => BinaryOperator::BitwiseShiftLeft,
                Operator::BitwiseShiftRight => BinaryOperator::BitwiseShiftRight,
                Operator::BitwiseAnd => BinaryOperator::BitwiseAnd,
                Operator::BitwiseXor => BinaryOperator::BitwiseXor,
                Operator::BitwiseOr => BinaryOperator::BitwiseOr,
                Operator::Equals => BinaryOperator::Equals,
                Operator::NotEquals => BinaryOperator::NotEquals,
                Operator::LessThan => BinaryOperator::LessThan,
                Operator::GreaterThan => BinaryOperator::GreaterThan,
                Operator::LessThanEqualTo => BinaryOperator::LessThanEqualTo,
                Operator::GreaterThanEqualTo => BinaryOperator::GreaterThanEqualTo,
                Operator::LogicAnd => BinaryOperator::LogicAnd,
                Operator::LogicOr => BinaryOperator::LogicOr,
                Operator::BangRangeEquals => BinaryOperator::BangRangeEquals,
                Operator::BangRange => BinaryOperator::BangRange,
                Operator::RangeEquals => BinaryOperator::RangeEquals,
                Operator::Range => BinaryOperator::Range,
                Operator::PlusPlus => BinaryOperator::Concat,
                _ => vstd::pervasive::unreached(),
            },
            _ => vstd::pervasive::unreached(),
        }
    }
}

/// The binary operator that an operator stands for; `None` for the
/// assignments, `!`, `~` and `->`.
pub open spec fn bin_op_of(op: Operator) -> Option<BinaryOperator> {
    match op {
        Operator::ExponentFloat => Some(BinaryOperator::ExponentFloat),
        Operator::Exponent => Some(BinaryOperator::Exponent),
        Operator::MultiplyFloat => Some(BinaryOperator::MultiplyFloat),
        Operator::Multiply => Some(BinaryOperator::Multiply),
        Operator::DivideFloat => Some(BinaryOperator::DivideFloat),
        Operator::Divide => Some(BinaryOperator::Divide),
        Operator::ModuloFloat => Some(BinaryOperator::ModuloFloat),
        Operator::Modulo => Some(BinaryOperator::Modulo),
        Operator::PlusFloat => Some(BinaryOperator::PlusFloat),
        Operator::Plus => Some(BinaryOperator::Plus),
        Operator::MinusFloat => Some(BinaryOperator::MinusFloat),
        Operator::Minus => Some(BinaryOperator::Minus),
        Operator::BitwiseShiftLeft => Some(BinaryOperator::BitwiseShiftLeft),
        Operator::BitwiseShiftRight => Some(BinaryOperator::BitwiseShiftRight),
        Operator::BitwiseAnd => Some(BinaryOperator::BitwiseAnd),
        Operator::BitwiseXor => Some(BinaryOperator::BitwiseXor),
        Operator::BitwiseOr => Some(BinaryOperator::BitwiseOr),
        Operator::Equals => Some(BinaryOperator::Equals),
        Operator::NotEquals => Some(BinaryOperator::NotEquals),
        Operator::LessThan => Some(BinaryOperator::LessThan),
        Operator::GreaterThan => Some(BinaryOperator::GreaterThan),
        Operator::LessThanEqualTo => Some(BinaryOperator::LessThanEqualTo),
        Operator::GreaterThanEqualTo => Some(BinaryOperator::GreaterThanEqualTo),
        Operator::LogicAnd => Some(BinaryOperator::LogicAnd),
        Operator::LogicOr => Some(BinaryOperator::LogicOr),
        Operator::BangRangeEquals => Some(BinaryOperator::BangRangeEquals),
        Operator::BangRange => Some(BinaryOperator::BangRange),
        Operator::RangeEquals => Some(BinaryOperator::RangeEquals),
        Operator::Range => Some(BinaryOperator::Range),
        Operator::PlusPlus => Some(BinaryOperator::Concat),
        _ => None,
    }
}

/// Short name of [`OperatorPrecedence`].
pub type OpPrec = OperatorPrecedence;

/// How tightly a binary operator binds, from loosest to tightest.
#[derive(Clone, Copy, Debug, PartialEq, Eq, Structural)]
pub enum OperatorPrecedence {
    Concatenation,
    Ranges,
    LogicOr,
    LogicXor,
    LogicAnd,
    Relational,
    BitwiseOr,
    BitwiseXor,
    BitwiseAnd,
    BitwiseShift,
    AdditionSubtraction,
    MultiplicationDivisionModulo,
    Exponent,
    Casting,
}

/// The number of a precedence level, from 1 (loosest) to 14.
pub open spec fn prec_value(p: OperatorPrecedence) -> u32 {
    match p {
            OperatorPrecedence::Concatenation => 1,
            OperatorPrecedence::Ranges => 2,
            OperatorPrecedence::LogicOr => 3,
            OperatorPrecedence::LogicXor => 4,
            OperatorPrecedence::LogicAnd => 5,
            OperatorPrecedence::Relational => 6,
            OperatorPrecedence::BitwiseOr => 7,
            OperatorPrecedence::BitwiseXor => 8,
            OperatorPrecedence::BitwiseAnd => 9,
            OperatorPrecedence::BitwiseShift => 10,
            OperatorPrecedence::AdditionSubtraction => 11,
            OperatorPrecedence::MultiplicationDivisionModulo => 12,
            OperatorPrecedence::Exponent => 13,
            OperatorPrecedence::Casting => 14,
    }
}

impl OperatorPrecedence {
    /// The number of this level (see [`prec_value`]).
    pub fn value(self) -> (r: u32)
        ensures
            r == prec_value(self),
    {
        match self {
            OperatorPrecedence::Concatenation => 1,
            OperatorPrecedence::Ranges => 2,
            OperatorPrecedence::LogicOr => 3,
            OperatorPrecedence::LogicXor => 4,
            OperatorPrecedence::LogicAnd => 5,
            OperatorPrecedence::Relational => 6,
            OperatorPrecedence::BitwiseOr => 7,
            OperatorPrecedence::BitwiseXor => 8,
            OperatorPrecedence::BitwiseAnd => 9,
            OperatorPrecedence::BitwiseShift => 10,
            OperatorPrecedence::AdditionSubtraction => 11,
            OperatorPrecedence::MultiplicationDivisionModulo => 12,
            OperatorPrecedence::Exponent => 13,
            OperatorPrecedence::Casting => 14,
        }
    }
}

/// Short name of [`OperatorAssociativity`].
pub type OpAssoc = OperatorAssociativity;

/// The side to which operators of one precedence group.
#[derive(Clone, Copy, Debug, PartialEq, Eq, Structural)]
pub enum OperatorAssociativity {
    Left,
    Right,
}

/// The precedence and associativity of the binary operator that a token
/// stands for; `None` for a token that is not one.  Each floating-point
/// operator binds as the integer operator it is spelled after.
pub open spec fn operator_info_spec(t: TknView) -> Option<(OperatorPrecedence, OperatorAssociativity)> {
    match t {
        TknView::Operation(op) => match op {
            Operator::Exponent => Some((OperatorPrecedence::Exponent, OperatorAssociativity::Right)),
            Operator::ExponentFloat => Some((OperatorPrecedence::Exponent, OperatorAssociativity::Right)),
            Operator::MultiplyFloat => Some((OperatorPrecedence::MultiplicationDivisionModulo, OperatorAssociativity::Left)),
            Operator::ModuloFloat => Some((OperatorPrecedence::MultiplicationDivisionModulo, OperatorAssociativity::Left)),
            Operator::PlusFloat => Some((OperatorPrecedence::AdditionSubtraction, OperatorAssociativity::Left)),
            Operator::MinusFloat => Some((OperatorPrecedence::AdditionSubtraction, OperatorAssociativity::Left)),
            Operator::Multiply => Some((OperatorPrecedence::MultiplicationDivisionModulo, OperatorAssociativity::Left)),
            Operator::DivideFloat => Some((OperatorPrecedence::MultiplicationDivisionModulo, OperatorAssociativity::Left)),
            Operator::Divide => Some((OperatorPrecedence::MultiplicationDivisionModulo, OperatorAssociativity::Left)),
            Operator::Modulo => Some((OperatorPrecedence::MultiplicationDivisionModulo, OperatorAssociativity::Left)),
            Operator::Plus => Some((OperatorPrecedence::AdditionSubtraction, OperatorAssociativity::Left)),
            Operator::Minus => Some((OperatorPrecedence::AdditionSubtraction, OperatorAssociativity::Left)),
            Operator::BitwiseShiftLeft => Some((OperatorPrecedence::BitwiseShift, OperatorAssociativity::Left)),
            Operator::BitwiseShiftRight => Some((OperatorPrecedence::BitwiseShift, OperatorAssociativity::Left)),
            Operator::BitwiseAnd => Some((OperatorPrecedence::BitwiseAnd, OperatorAssociativity::Left)),
            Operator::BitwiseXor => Some((OperatorPrecedence::BitwiseXor, OperatorAssociativity::Left)),
            Operator::BitwiseOr => Some((OperatorPrecedence::BitwiseOr, OperatorAssociativity::Left)),
            Operator::Equals => Some((OperatorPrecedence::Relational, OperatorAssociativity::Left)),
            Operator::NotEquals => Some((OperatorPrecedence::Relational, OperatorAssociativity::Left)),
            Operator::LessThan => Some((OperatorPrecedence::Relational, OperatorAssociativity::Left)),
            Operator::GreaterThan => Some((OperatorPrecedence::Relational, OperatorAssociativity::Left)),
            Operator::LessThanEqualTo => Some((OperatorPrecedence::Relational, OperatorAssociativity::Left)),
            Operator::GreaterThanEqualTo => Some((OperatorPrecedence::Relational, OperatorAssociativity::Left)),
            Operator::LogicAnd => Some((OperatorPrecedence::LogicAnd, OperatorAssociativity::Left)),
            Operator::LogicOr => Some((OperatorPrecedence::LogicOr, OperatorAssociativity::Left)),
            Operator::BangRangeEquals => Some((OperatorPrecedence::Ranges, OperatorAssociativity::Left)),
            Operator::BangRange => Some((OperatorPrecedence::Ranges, OperatorAssociativity::Left)),
            Operator::RangeEquals => Some((OperatorPrecedence::Ranges, OperatorAssociativity::Left)),
            Operator::Range => Some((OperatorPrecedence::Ranges, OperatorAssociativity::Left)),
            Operator::PlusPlus => Some((OperatorPrecedence::Concatenation, OperatorAssociativity::Left)),
            _ => None,
        },
        _ => None,
    }
}

/// The precedence and associativity of the binary operator that a token
/// stands for (see [`operator_info_spec`]).
pub fn operator_info(t: &TknType) -> (r: Option<(OperatorPrecedence, OperatorAssociativity)>)
    ensures
        r == operator_info_spec(t@),
{
    match t {
        TokenType::Operation(op) => match op {
                Operator::Exponent => Some((OperatorPrecedence::Exponent, OperatorAssociativity::Right)),
                Operator::ExponentFloat => Some((OperatorPrecedence::Exponent, OperatorAssociativity::Right)),
                Operator::MultiplyFloat => Some((OperatorPrecedence::MultiplicationDivisionModulo, OperatorAssociativity::Left)),
                Operator::ModuloFloat => Some((OperatorPrecedence::MultiplicationDivisionModulo, OperatorAssociativity::Left)),
                Operator::PlusFloat => Some((OperatorPrecedence::AdditionSubtraction, OperatorAssociativity::Left)),
                Operator::MinusFloat => Some((OperatorPrecedence::AdditionSubtraction, OperatorAssociativity::Left)),
                Operator::Multiply => Some((OperatorPrecedence::MultiplicationDivisionModulo, OperatorAssociativity::Left)),
                Operator::DivideFloat => Some((OperatorPrecedence::MultiplicationDivisionModulo, OperatorAssociativity::Left)),
                Operator::Divide => Some((OperatorPrecedence::MultiplicationDivisionModulo, OperatorAssociativity::Left)),
                Operator::Modulo => Some((OperatorPrecedence::MultiplicationDivisionModulo, OperatorAssociativity::Left)),
                Operator::Plus => Some((OperatorPrecedence::AdditionSubtraction, OperatorAssociativity::Left)),
                Operator::Minus => Some((OperatorPrecedence::AdditionSubtraction, OperatorAssociativity::Left)),
                Operator::BitwiseShiftLeft => Some((OperatorPrecedence::BitwiseShift, OperatorAssociativity::Left)),
                Operator::BitwiseShiftRight => Some((OperatorPrecedence::BitwiseShift, OperatorAssociativity::Left)),
                Operator::BitwiseAnd => Some((OperatorPrecedence::BitwiseAnd, OperatorAssociativity::Left)),
                Operator::BitwiseXor => Some((OperatorPrecedence::BitwiseXor, OperatorAssociativity::Left)),
                Operator::BitwiseOr => Some((OperatorPrecedence::BitwiseOr, OperatorAssociativity::Left)),
                Operator::Equals => Some((OperatorPrecedence::Relational, OperatorAssociativity::Left)),
                Operator::NotEquals => Some((OperatorPrecedence::Relational, OperatorAssociativity::Left)),
                Operator::LessThan => Some((OperatorPrecedence::Relational, OperatorAssociativity::Left)),
                Operator::GreaterThan => Some((OperatorPrecedence::Relational, OperatorAssociativity::Left)),
                Operator::LessThanEqualTo => Some((OperatorPrecedence::Relational, OperatorAssociativity::Left)),
                Operator::GreaterThanEqualTo => Some((OperatorPrecedence::Relational, OperatorAssociativity::Left)),
                Operator::LogicAnd => Some((OperatorPrecedence::LogicAnd, OperatorAssociativity::Left)),
                Operator::LogicOr => Some((OperatorPrecedence::LogicOr, OperatorAssociativity::Left)),
                Operator::BangRangeEquals => Some((OperatorPrecedence::Ranges, OperatorAssociativity::Left)),
                Operator::BangRange => Some((OperatorPrecedence::Ranges, OperatorAssociativity::Left)),
                Operator::RangeEquals => Some((OperatorPrecedence::Ranges, OperatorAssociativity::Left)),
                Operator::Range => Some((OperatorPrecedence::Ranges, OperatorAssociativity::Left)),
                Operator::PlusPlus => Some((OperatorPrecedence::Concatenation, OperatorAssociativity::Left)),
            _ => None,
        },
        _ => None,
    }
}

/// Only the exponent operators `**` and `**.` associate to the right:
/// every other binary operator associates to the left, so `a / b / c` is
/// `(a / b) / c`.
pub proof fn lemma_only_exponents_associate_right(t: TknView)
    ensures
        operator_info_spec(t) matches Some((_, a)) ==> ((a == OperatorAssociativity::Right) <==> (t
            == TknView::Operation(Operator::Exponent) || t == TknView::Operation(Operator::ExponentFloat))),
{
}

/// Multiplication, division and modulo share one precedence, and so do
/// addition and subtraction; each floating-point operator binds as the
/// integer operator it is spelled after.
pub proof fn lemma_operator_groups()
    ensures
        operator_info_spec(TknView::Operation(Operator::Divide)) == operator_info_spec(
            TknView::Operation(Operator::Multiply),
        ),
        operator_info_spec(TknView::Operation(Operator::Modulo)) == operator_info_spec(
            TknView::Operation(Operator::Multiply),
        ),
        operator_info_spec(TknView::Operation(Operator::Minus)) == operator_info_spec(
            TknView::Operation(Operator::Plus),
        ),
        operator_info_spec(TknView::Operation(Operator::DivideFloat)) == operator_info_spec(
            TknView::Operation(Operator::Divide),
        ),
        operator_info_spec(TknView::Operation(Operator::MultiplyFloat)) == operator_info_spec(
            TknView::Operation(Operator::Multiply),
        ),
        operator_info_spec(TknView::Operation(Operator::ModuloFloat)) == operator_info_spec(
            TknView::Operation(Operator::Modulo),
        ),
        operator_info_spec(TknView::Operation(Operator::PlusFloat)) == operator_info_spec(
            TknView::Operation(Operator::Plus),
        ),
        operator_info_spec(TknView::Operation(Operator::MinusFloat)) == operator_info_spec(
            TknView::Operation(Operator::Minus),
        ),
        operator_info_spec(TknView::Operation(Operator::ExponentFloat)) == operator_info_spec(
            TknView::Operation(Operator::Exponent),
        ),
{
}

} // verus!
