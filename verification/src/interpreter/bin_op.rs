//! Binary operators on the values of the interpreter.
use vstd::prelude::*;
use crate::interpreter::{align_up, literal_bytes, literal_of_bytes, offset_of, read_width, stack_of, Stack, VariableData, STACK_SIZE};
use crate::parser::expr::{ExprTypeCons, Literal, TypeCells, TypeView};
use crate::parser::operators::{bin_rule, BinRule, BinaryOperator};
use crate::parser::structs::Struct;

verus! {

/// `a` to the power `e`.
pub open spec fn int_pow(a: int, e: nat) -> int
    decreases e,
{
    if e == 0 {
        1
    } else {
        a * int_pow(a, (e - 1) as nat)
    }
}

/// The absolute value of `a`.
pub open spec fn abs(a: int) -> int {
    if a < 0 {
        -a
    } else {
        a
    }
}

/// Division rounding toward zero, as Rust's `/` on integers.
pub open spec fn trunc_div(a: int, b: int) -> int {
    let q = abs(a) / abs(b);
    if (a < 0) == (b < 0) {
        q
    } else {
        -q
    }
}

/// The remainder that goes with [`trunc_div`]: it has the sign of `a`, as
/// Rust's `%` on integers.
pub open spec fn trunc_rem(a: int, b: int) -> int {
    let m = abs(a) % abs(b);
    if a < 0 {
        -m
    } else {
        m
    }
}

/// Whether `x` fits in an `i128`.
pub open spec fn in_i128(x: int) -> bool {
    i128::MIN <= x <= i128::MAX
}

/// The arithmetic operators on two integers; `None` for the operators that
/// are not arithmetic ones and where the operation fails: a negative
/// exponent, a division or remainder by zero.  The exponent is taken
/// modulo 2^32, as it is cast to a `u32`.
pub open spec fn int_arith(op: BinaryOperator, a: int, b: int) -> Option<int> {
    match op {
        BinaryOperator::Plus => Some(a + b),
        BinaryOperator::Minus => Some(a - b),
        BinaryOperator::Multiply => Some(a * b),
        BinaryOperator::Exponent => if b >= 0 {
            Some(int_pow(a, (b % 0x1_0000_0000) as nat))
        } else {
            None
        },
        BinaryOperator::Divide => if b != 0 {
            Some(trunc_div(a, b))
        } else {
            None
        },
        BinaryOperator::Modulo => if b != 0 {
            Some(trunc_rem(a, b))
        } else {
            None
        },
        _ => None,
    }
}

/// The bitwise operators on two integers; `None` for the other operators
/// and for a shift by less than 0 or by 128 bits or more.
pub open spec fn int_bits(op: BinaryOperator, a: i128, b: i128) -> Option<i128> {
    match op {
        BinaryOperator::BitwiseAnd => Some(a & b),
        BinaryOperator::BitwiseOr => Some(a | b),
        BinaryOperator::BitwiseXor => Some(a ^ b),
        BinaryOperator::BitwiseShiftLeft => if 0 <= b < 128 {
            Some(a << (b as u32))
        } else {
            None
        },
        BinaryOperator::BitwiseShiftRight => if 0 <= b < 128 {
            Some(a >> (b as u32))
        } else {
            None
        },
        _ => None,
    }
}

/// The comparisons of two integers; `None` for the other operators.
pub open spec fn int_compare(op: BinaryOperator, a: int, b: int) -> Option<bool> {
    match op {
        BinaryOperator::Equals => Some(a == b),
        BinaryOperator::NotEquals => Some(a != b),
        BinaryOperator::LessThan => Some(a < b),
        BinaryOperator::LessThanEqualTo => Some(a <= b),
        BinaryOperator::GreaterThan => Some(a > b),
        BinaryOperator::GreaterThanEqualTo => Some(a >= b),
        _ => None,
    }
}

/// The operators on two booleans; `None` for the others.
pub open spec fn bool_op(op: BinaryOperator, a: bool, b: bool) -> Option<bool> {
    match op {
        BinaryOperator::LogicAnd => Some(a && b),
        BinaryOperator::LogicOr => Some(a || b),
        BinaryOperator::BitwiseXor => Some(a != b),
        BinaryOperator::Equals => Some(a == b),
        BinaryOperator::NotEquals => Some(a != b),
        _ => None,
    }
}

/// The value of `op` applied to the literals `l` and `r`; `None` where the
/// interpreter stops instead: an operator that does not take these
/// operands, an operation that fails, or an integer result that does not
/// fit in an `i128`.  Floating-point operands are evaluated by the program
/// around the library, and are `None` here.
pub open spec fn bin_op_spec(op: BinaryOperator, l: Literal, r: Literal) -> Option<Literal> {
    match (l, r) {
        (Literal::IntegerLiteral(a), Literal::IntegerLiteral(b)) => match int_compare(op, a as int, b as int) {
            Some(c) => Some(Literal::BooleanLiteral(c)),
            None => match int_arith(op, a as int, b as int) {
                Some(x) => if in_i128(x) {
                    Some(Literal::IntegerLiteral(x as i128))
                } else {
                    None
                },
                None => match int_bits(op, a, b) {
                    Some(x) => Some(Literal::IntegerLiteral(x)),
                    None => None,
                },
            },
        },
        (Literal::BooleanLiteral(a), Literal::BooleanLiteral(b)) => match bool_op(op, a, b) {
            Some(c) => Some(Literal::BooleanLiteral(c)),
            None => None,
        },
        _ => None,
    }
}

/// `|a^k|` at least doubles with each step of `k` where `|a| >= 2`.
proof fn lemma_pow_grows(a: int, k: nat, e: nat)
    requires
        abs(a) >= 2,
        k < e,
    ensures
        2 * abs(int_pow(a, k)) <= abs(int_pow(a, e)),
    decreases e,
{
    let p = int_pow(a, (e - 1) as nat);
    assert(abs(a * p) >= 2 * abs(p) && abs(a * p) >= abs(p)) by (nonlinear_arith)
        requires
            abs(a) >= 2,
    ;
    if k < e - 1 {
        lemma_pow_grows(a, k, (e - 1) as nat);
    }
}

/// The powers of 0, 1 and -1.
proof fn lemma_pow_small(a: int, e: nat)
    requires
        abs(a) <= 1,
    ensures
        int_pow(a, e) == if a == 0 {
            if e == 0 {
                1int
            } else {
                0int
            }
        } else if a == 1 || e % 2 == 0 {
            1int
        } else {
            -1int
        },
    decreases e,
{
    if e > 0 {
        lemma_pow_small(a, (e - 1) as nat);
    }
}

/// `a` to the power `e`, where the result fits in an `i128`.
fn pow_i128(a: i128, e: u32) -> (r: i128)
    requires
        in_i128(int_pow(a as int, e as nat)),
    ensures
        r == int_pow(a as int, e as nat),
{
    if -1 <= a && a <= 1 {
        proof {
            lemma_pow_small(a as int, e as nat);
        }
        if a == 0 {
            return if e == 0 {
                1
            } else {
                0
            };
        } else if a == 1 || e % 2 == 0 {
            return 1;
        } else {
            return -1;
        }
    }
    let mut acc: i128 = 1;
    let mut k: u32 = 0;
    while k < e
        invariant
            k <= e,
            abs(a as int) >= 2,
            acc == int_pow(a as int, k as nat),
            in_i128(int_pow(a as int, e as nat)),
        decreases e - k,
    {
        proof {
            if k + 1 < e {
                lemma_pow_grows(a as int, (k + 1) as nat, e as nat);
            }
            assert(int_pow(a as int, (k + 1) as nat) == a * int_pow(a as int, k as nat));
        }
        acc = acc * a;
        k += 1;
    }
    acc
}

/// The absolute value of `a`, which always fits in a `u128`.
fn abs_u128(a: i128) -> (r: u128)
    ensures
        r == abs(a as int),
{
    if a >= 0 {
        a as u128
    } else {
        ((-(a + 1)) as u128) + 1
    }
}

/// `x` or `-x` as an `i128`, where that fits.
fn signed_i128(x: u128, negative: bool) -> (r: i128)
    requires
        negative ==> x <= 0x8000_0000_0000_0000_0000_0000_0000_0000,
        !negative ==> x <= i128::MAX,
    ensures
        r == if negative {
            -(x as int)
        } else {
            x as int
        },
{
    if negative {
        if x == 0 {
            0
        } else {
            -((x - 1) as i128) - 1
        }
    } else {
        x as i128
    }
}

/// The value of `op` applied to `left` and `right` (see [`bin_op_spec`]).
pub fn bin_op_value(op: BinaryOperator, left: &Literal, right: &Literal) -> (r: Literal)
    requires
        bin_op_spec(op, *left, *right) is Some,
    ensures
        r == bin_op_spec(op, *left, *right)->0,
{
    match (left, right) {
        (Literal::IntegerLiteral(a), Literal::IntegerLiteral(b)) => {
            let a = *a;
            let b = *b;
            match op {
                BinaryOperator::Equals => Literal::BooleanLiteral(a == b),
                BinaryOperator::NotEquals => Literal::BooleanLiteral(a != b),
                BinaryOperator::LessThan => Literal::BooleanLiteral(a < b),
                BinaryOperator::LessThanEqualTo => Literal::BooleanLiteral(a <= b),
                BinaryOperator::GreaterThan => Literal::BooleanLiteral(a > b),
                BinaryOperator::GreaterThanEqualTo => Literal::BooleanLiteral(a >= b),
                BinaryOperator::Plus => Literal::IntegerLiteral(a + b),
                BinaryOperator::Minus => Literal::IntegerLiteral(a - b),
                BinaryOperator::Multiply => Literal::IntegerLiteral(a * b),
                BinaryOperator::Exponent => {
                    let e = (b % 0x1_0000_0000) as u32;
                    Literal::IntegerLiteral(pow_i128(a, e))
                },
                BinaryOperator::Divide => {
                    let ua = abs_u128(a);
                    let ub = abs_u128(b);
                    let q = ua / ub;
                    proof {
                        assert(q <= ua) by (nonlinear_arith)
                            requires
                                q == ua / ub,
                                ub >= 1,
                        ;
                    }
                    Literal::IntegerLiteral(signed_i128(q, (a < 0) != (b < 0)))
                },
                BinaryOperator::Modulo => {
                    let ua = abs_u128(a);
                    let ub = abs_u128(b);
                    let m = ua % ub;
                    Literal::IntegerLiteral(signed_i128(m, a < 0))
                },
                BinaryOperator::BitwiseAnd => Literal::IntegerLiteral(a & b),
                BinaryOperator::BitwiseOr => Literal::IntegerLiteral(a | b),
                BinaryOperator::BitwiseXor => Literal::IntegerLiteral(a ^ b),
                BinaryOperator::BitwiseShiftLeft => Literal::IntegerLiteral(a << (b as u32)),
                _ => Literal::IntegerLiteral(a >> (b as u32)),
            }
        },
        (Literal::BooleanLiteral(a), Literal::BooleanLiteral(b)) => {
            let a = *a;
            let b = *b;
            match op {
                BinaryOperator::LogicAnd => Literal::BooleanLiteral(a && b),
                BinaryOperator::LogicOr => Literal::BooleanLiteral(a || b),
                BinaryOperator::Equals => Literal::BooleanLiteral(a == b),
                _ => Literal::BooleanLiteral(a != b),
            }
        },
        _ => Literal::BooleanLiteral(false),
    }
}

/// The type of the value of `op` applied to values of types `l` and `r`,
/// where the operator takes them (see [`bin_rule`]).
pub open spec fn bin_out_type(op: BinaryOperator, l: TypeView, r: TypeView) -> TypeView {
    match bin_rule(op, l, r) {
        BinRule::Bool => TypeView::Bool,
        _ => l,
    }
}

/// The literal that the value at `v` on the stack `s` holds.
pub open spec fn value_at(s: crate::interpreter::StackView, v: VariableData) -> Literal {
    let i = offset_of(v.index);
    literal_of_bytes(stack_of(s, v.index).subrange(i, i + read_width(v.expr_type@)->0), v.expr_type@)
}

/// Whether the value at `v` can be read from the stack `s` as a literal.
pub open spec fn readable_at(v: VariableData) -> bool {
    read_width(v.expr_type@) matches Some(n) && offset_of(v.index) + n <= STACK_SIZE
}

/// Evaluates `op` on the values at `left` and `right`: reads both, applies
/// the operator, and places the result, as a value of the type that the
/// operator gives (see [`bin_out_type`]), on the oxy stack.  The result is
/// written in that type's width, so an integer that does not fit it wraps.
pub fn evaluate_bin_op(
    stack: &mut Stack,
    line: usize,
    defs: &[Struct],
    op: BinaryOperator,
    left: &VariableData,
    right: &VariableData,
) -> (r: VariableData)
    requires
        old(stack).wf(),
        readable_at(*left),
        readable_at(*right),
        bin_rule(op, left.expr_type@, right.expr_type@) is KeepLeft || bin_rule(
            op,
            left.expr_type@,
            right.expr_type@,
        ) is Bool,
        bin_op_spec(op, value_at(old(stack)@, *left), value_at(old(stack)@, *right)) matches Some(v) && (
        literal_bytes(v, bin_out_type(op, left.expr_type@, right.expr_type@)) matches Some(b)
            && align_up(old(stack)@.oxy_ptr, b.len()) + b.len() <= STACK_SIZE),
    ensures
        final(stack).wf(),
        ({
            let v = bin_op_spec(op, value_at(old(stack)@, *left), value_at(old(stack)@, *right))->0;
            let t = bin_out_type(op, left.expr_type@, right.expr_type@);
            let b = literal_bytes(v, t)->0;
            let start = align_up(old(stack)@.oxy_ptr, b.len());
            &&& r.expr_type@ == t
            &&& r.index is Oxy
            &&& offset_of(r.index) == start
            &&& final(stack)@.oxy_ptr == start + b.len()
            &&& final(stack)@.oxy == old(stack)@.oxy.subrange(0, start as int) + b + old(stack)@.oxy.subrange(
                (start + b.len()) as int,
                STACK_SIZE as int,
            )
            &&& final(stack)@.gc == old(stack)@.gc
            &&& final(stack)@.gc_ptr == old(stack)@.gc_ptr
        }),
{
    let l = stack.get_expr_from_variable_data(left);
    let r = stack.get_expr_from_variable_data(right);
    let mut cells = TypeCells::new();
    let mut lc = ExprTypeCons::new(&mut cells, left.expr_type.copy());
    let mut rc = ExprTypeCons::new(&mut cells, right.expr_type.copy());
    let out = op.transform_type(&mut cells, &mut lc, &mut rc).unwrap();
    let out_type = out.clone_inner(&cells);
    let value = bin_op_value(op, &l, &r);
    stack.evaluate_literal(line, defs, &value, out_type)
}

/// Whether the comparison `op` holds of the integers `a` and `b` (see
/// [`bin_op_spec`]).
pub open spec fn compares(op: BinaryOperator, a: i128, b: i128) -> bool {
    bin_op_spec(op, Literal::IntegerLiteral(a), Literal::IntegerLiteral(b)) == Some(Literal::BooleanLiteral(true))
}

/// The comparisons on integers agree with each other: each gives a
/// boolean; `>=` is the negation of `<` and `<=` that of `>`; `>` and
/// `>=` are `<` and `<=` with the operands swapped; `!=` is the negation
/// of `==`; `==`, `<=` and `>=` hold of equal operands, `<`, `>` and `!=`
/// do not; and of two integers exactly one of `<`, `==`, `>` holds.
pub proof fn lemma_integer_comparisons_agree(a: i128, b: i128)
    ensures
        forall|op: BinaryOperator|
            #![trigger bin_op_spec(op, Literal::IntegerLiteral(a), Literal::IntegerLiteral(b))]
            (op == BinaryOperator::Equals || op == BinaryOperator::NotEquals || op == BinaryOperator::LessThan || op
                == BinaryOperator::LessThanEqualTo || op == BinaryOperator::GreaterThan || op
                == BinaryOperator::GreaterThanEqualTo) ==> bin_op_spec(
                op,
                Literal::IntegerLiteral(a),
                Literal::IntegerLiteral(b),
            ) matches Some(Literal::BooleanLiteral(_)),
        compares(BinaryOperator::GreaterThanEqualTo, a, b) == !compares(BinaryOperator::LessThan, a, b),
        compares(BinaryOperator::LessThanEqualTo, a, b) == !compares(BinaryOperator::GreaterThan, a, b),
        compares(BinaryOperator::GreaterThan, a, b) == compares(BinaryOperator::LessThan, b, a),
        compares(BinaryOperator::GreaterThanEqualTo, a, b) == compares(BinaryOperator::LessThanEqualTo, b, a),
        compares(BinaryOperator::NotEquals, a, b) == !compares(BinaryOperator::Equals, a, b),
        compares(BinaryOperator::Equals, a, b) == (a == b),
        compares(BinaryOperator::Equals, a, a),
        compares(BinaryOperator::LessThanEqualTo, a, a),
        compares(BinaryOperator::GreaterThanEqualTo, a, a),
        !compares(BinaryOperator::LessThan, a, a),
        !compares(BinaryOperator::GreaterThan, a, a),
        !compares(BinaryOperator::NotEquals, a, a),
        compares(BinaryOperator::LessThan, a, b) || compares(BinaryOperator::Equals, a, b) || compares(
            BinaryOperator::GreaterThan,
            a,
            b,
        ),
        !(compares(BinaryOperator::LessThan, a, b) && compares(BinaryOperator::Equals, a, b)),
        !(compares(BinaryOperator::LessThan, a, b) && compares(BinaryOperator::GreaterThan, a, b)),
        !(compares(BinaryOperator::Equals, a, b) && compares(BinaryOperator::GreaterThan, a, b)),
{
}

} // verus!
