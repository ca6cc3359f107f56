//! Unary operators on the values of the interpreter.
use vstd::prelude::*;
use crate::interpreter::bin_op::{readable_at, value_at};
use crate::interpreter::{align_up, literal_bytes, offset_of, Stack, VariableData, STACK_SIZE};
use crate::parser::expr::{ExprTypeCons, Literal, TypeCells};
use crate::parser::operators::{unop_accepts, UnaryOperator};
use crate::parser::structs::Struct;

verus! {

/// The value of `op` applied to the literal `l`; `None` where the
/// interpreter stops instead: an operator that does not take the operand,
/// or the negation of the smallest `i128`.  Floating-point operands are
/// evaluated by the program around the library, and are `None` here.
pub open spec fn un_op_spec(op: UnaryOperator, l: Literal) -> Option<Literal> {
    match (op, l) {
        (UnaryOperator::Plus, Literal::IntegerLiteral(a)) => Some(Literal::IntegerLiteral(a)),
        (UnaryOperator::Minus, Literal::IntegerLiteral(a)) => if a > i128::MIN {
            Some(Literal::IntegerLiteral((-a) as i128))
        } else {
            None
        },
        (UnaryOperator::LogicNot, Literal::BooleanLiteral(b)) => Some(Literal::BooleanLiteral(!b)),
        (UnaryOperator::BitwiseNegate, Literal::IntegerLiteral(a)) => Some(Literal::IntegerLiteral(!a)),
        _ => None,
    }
}

/// The value of `op` applied to `literal` (see [`un_op_spec`]).
pub fn un_op_value(op: UnaryOperator, literal: &Literal) -> (r: Literal)
    requires
        un_op_spec(op, *literal) is Some,
    ensures
        r == un_op_spec(op, *literal)->0,
{
    match (op, literal) {
        (UnaryOperator::Plus, Literal::IntegerLiteral(a)) => Literal::IntegerLiteral(*a),
        (UnaryOperator::Minus, Literal::IntegerLiteral(a)) => Literal::IntegerLiteral(-*a),
        (UnaryOperator::BitwiseNegate, Literal::IntegerLiteral(a)) => Literal::IntegerLiteral(!*a),
        (_, Literal::BooleanLiteral(b)) => Literal::BooleanLiteral(!*b),
        _ => Literal::BooleanLiteral(false),
    }
}

/// Evaluates `op` on the value at `operand`: reads it, applies the
/// operator, and places the result, a value of the operand's type, on the
/// oxy stack.
pub fn evaluate_un_op(
    stack: &mut Stack,
    line: usize,
    defs: &[Struct],
    op: UnaryOperator,
    operand: &VariableData,
) -> (r: VariableData)
    requires
        old(stack).wf(),
        readable_at(*operand),
        unop_accepts(op, operand.expr_type@),
        un_op_spec(op, value_at(old(stack)@, *operand)) matches Some(v) && (literal_bytes(
            v,
            operand.expr_type@,
        ) matches Some(b) && align_up(old(stack)@.oxy_ptr, b.len()) + b.len() <= STACK_SIZE),
    ensures
        final(stack).wf(),
        ({
            let v = un_op_spec(op, value_at(old(stack)@, *operand))->0;
            let b = literal_bytes(v, operand.expr_type@)->0;
            let start = align_up(old(stack)@.oxy_ptr, b.len());
            &&& r.expr_type@ == operand.expr_type@
            &&& r.index is Oxy
            &&& offset_of(r.index) == start
            &&& final(stack)@.oxy_ptr == start + b.len()
            &&& final(stack)@.oxy == old(stack)@.oxy.subrange(0, start as int) + b + old(stack)@.oxy.subrange(
                (start + b.len()) as int,
                STACK_SIZE as int,
            )
            &&& final(stack)@.gc == old(stack)@.gc
            &&& final(stack)@.gc_ptr == old(stack)@.gc_ptr
        }),
{
    let l = stack.get_expr_from_variable_data(operand);
    let mut cells = TypeCells::new();
    let c = ExprTypeCons::new(&mut cells, operand.expr_type.copy());
    let out = op.transform_type(c, &cells).unwrap();
    let out_type = out.clone_inner(&cells);
    let value = un_op_value(op, &l);
    stack.evaluate_literal(line, defs, &value, out_type)
}

} // verus!
