//! Running a parsed program: evaluating expressions and executing
//! statements on the two stacks, with the variables of each function call
//! in a frame of their own.  What the program prints is collected; the run
//! stops at a panic of the program or when its fuel, a bound on the steps
//! taken, runs out.
use vstd::prelude::*;
use vstd::string::*;
use crate::interpreter::bin_op::{bin_op_spec, evaluate_bin_op};
use crate::interpreter::un_op::{evaluate_un_op, un_op_spec};
use crate::interpreter::{
    align_up, int_width, literal_bytes, literal_of_bytes, offset_of, ptr_of, read_width, stack_of, Stack, StackIndex, StackView,
    VariableData, STACK_SIZE,
};
use crate::lexer::token::int_text;
use crate::parser::expr::{is_real_view, nat_text, type_size, ExprType, Literal, TypeCells, TypeView};
use crate::parser::expr_grammar::{type_of, valid_ty};
use crate::parser::expr_parse::{exprs_view, lemma_exprs_view, ExprDataView, ExprView, Expression, ExpressionData};
use crate::parser::functions::{builtin_of, BuiltInFunction};
use crate::parser::operators::{bin_rule, unop_accepts, BinaryOperator, UnaryOperator};
use crate::parser::parse_stmt::{lemma_stmts_view_index, Function};
use crate::parser::stmt::{StackLocation, Statement, StmtData};
use crate::parser::stmt_grammar::{bodies_view, stmts_view, StmtDataView, StmtView};
use crate::parser::structs::Struct;

verus! {

/// What `unicode_escape::decode` gives for the text `s`: the text with its
/// escapes decoded, or `None` where an escape is malformed.
pub uninterp spec fn unicode_decode(s: Seq<char>) -> Option<Seq<char>>;

/// Calls `unicode_escape::decode`, which replaces the escapes of `s`
/// (`\n`, `\t`, `\x41`, `\u{2764}` and the like) by the characters they
/// stand for and fails on a malformed one.  Its result is named, as a
/// function of `s` alone.
#[verifier::external_body]
fn decode_escapes(s: &str) -> (r: Option<String>)
    ensures
        match r {
            Some(t) => unicode_decode(s@) == Some(t@),
            None => unicode_decode(s@) is None,
        },
{
    unicode_escape::decode(s).ok()
}

/// A value's place and type.
pub type VarIx = (StackIndex, TypeView);

/// The variables of a function call, the last declared last.
pub type FrameView = Seq<(Seq<char>, VarIx)>;

/// The mathematical value of a [`Run`].
pub struct RunView {
    pub stack: StackView,
    pub frames: Seq<FrameView>,
    pub out: Seq<char>,
}

/// The state of a running program: the stacks, the variables of each
/// function call under way (the innermost last), and what the program has
/// printed so far.
pub struct Run {
    pub stack: Stack,
    pub frames: Vec<Vec<(String, VariableData)>>,
    pub out: String,
}

/// The view of a frame.
pub open spec fn frame_view(f: Seq<(String, VariableData)>) -> FrameView {
    f.map_values(|e: (String, VariableData)| (e.0@, (e.1.index, e.1.expr_type@)))
}

impl View for Run {
    type V = RunView;

    open spec fn view(&self) -> RunView {
        RunView {
            stack: self.stack@,
            frames: self.frames@.map_values(|f: Vec<(String, VariableData)>| frame_view(f@)),
            out: self.out@,
        }
    }
}

/// What a program is run with: its structs, its functions and the cells of
/// the types of its expressions.
pub struct Prog {
    pub defs: Seq<Struct>,
    pub funs: Seq<Function>,
    pub cells: Seq<TypeView>,
}

/// What evaluating an expression gives: stuck (a case the program's
/// own panics or an unsupported value leave open), out of fuel, a panic of
/// the program with its message, or the value (none for a call that
/// returns nothing) with the state after.
pub enum Ev {
    Stuck,
    OutOfFuel,
    Panic(Seq<char>, RunView),
    Val(Option<VarIx>, RunView),
}

/// What executing statements gives: stuck, out of fuel, a panic, the end
/// of the statements, a `return ;` that leaves the innermost block, or a
/// `return` with its value.
pub enum Ex {
    Stuck,
    OutOfFuel,
    Panic(Seq<char>, RunView),
    Normal(RunView),
    Exit(RunView),
    Returned(VarIx, RunView),
}

/// What binding arguments to parameters gives: stuck, out of fuel, a
/// panic, or the frame of the call and the state after.
pub enum Bind {
    Stuck,
    OutOfFuel,
    Panic(Seq<char>, RunView),
    Bound(FrameView, RunView),
}

/// `r` with the stacks `s`.
pub open spec fn with_stack(r: RunView, s: StackView) -> RunView {
    RunView { stack: s, frames: r.frames, out: r.out }
}

/// The last variable named `name` in `f`.
pub open spec fn lookup(f: FrameView, name: Seq<char>) -> Option<VarIx>
    decreases f.len(),
{
    if f.len() == 0 {
        None
    } else if f.last().0 == name {
        Some(f.last().1)
    } else {
        lookup(f.drop_last(), name)
    }
}

/// The variable named `name` in the innermost call.
pub open spec fn cur_lookup(r: RunView, name: Seq<char>) -> Option<VarIx> {
    if r.frames.len() == 0 {
        None
    } else {
        lookup(r.frames.last(), name)
    }
}

/// `r` with the variable `name` at `v` added to the innermost call.
pub open spec fn push_var(r: RunView, name: Seq<char>, v: VarIx) -> RunView {
    RunView {
        stack: r.stack,
        frames: r.frames.update(r.frames.len() - 1, r.frames.last().push((name, v))),
        out: r.out,
    }
}

/// `r` with the innermost call keeping only its first `n` variables.
pub open spec fn keep_vars(r: RunView, n: nat) -> RunView {
    RunView {
        stack: r.stack,
        frames: r.frames.update(r.frames.len() - 1, r.frames.last().take(n as int)),
        out: r.out,
    }
}

/// The stacks `s` with `bytes` written from `idx` on.
pub open spec fn write_spec(s: StackView, idx: StackIndex, bytes: Seq<u8>) -> StackView {
    let i = offset_of(idx);
    let st = stack_of(s, idx);
    let new = st.subrange(0, i) + bytes + st.subrange(i + bytes.len(), STACK_SIZE as int);
    match idx {
        StackIndex::GC(_) => StackView { oxy: s.oxy, oxy_ptr: s.oxy_ptr, gc: new, gc_ptr: s.gc_ptr },
        StackIndex::Oxy(_) => StackView { oxy: new, oxy_ptr: s.oxy_ptr, gc: s.gc, gc_ptr: s.gc_ptr },
    }
}

/// A value of type `t` placed on the stack `loc` (see
/// [`Stack::stack_alloc`]): `None` where the type has no size, is not a
/// type of values, or does not fit.
pub open spec fn alloc_spec(s: StackView, t: TypeView, defs: Seq<Struct>, loc: StackLocation) -> Option<(StackView, StackIndex)> {
    match type_size(t, defs) {
        Some(n) => if n > 0 && is_real_view(t) && align_up(ptr_of(s, loc), n) + n <= STACK_SIZE {
            let start = align_up(ptr_of(s, loc), n);
            let zeros = Seq::new(n, |i: int| 0u8);
            match loc {
                StackLocation::GC => Some(
                    (
                        StackView {
                            oxy: s.oxy,
                            oxy_ptr: s.oxy_ptr,
                            gc: s.gc.subrange(0, start as int) + zeros + s.gc.subrange((start + n) as int, STACK_SIZE as int),
                            gc_ptr: start + n,
                        },
                        StackIndex::GC(start as usize),
                    ),
                ),
                StackLocation::Oxy => Some(
                    (
                        StackView {
                            oxy: s.oxy.subrange(0, start as int) + zeros + s.oxy.subrange((start + n) as int, STACK_SIZE as int),
                            oxy_ptr: start + n,
                            gc: s.gc,
                            gc_ptr: s.gc_ptr,
                        },
                        StackIndex::Oxy(start as usize),
                    ),
                ),
            }
        } else {
            None
        },
        None => None,
    }
}

/// A literal of type `t` placed on the oxy stack (see
/// [`Stack::evaluate_literal`]): `None` where the two do not go together
/// or the value does not fit.
pub open spec fn lit_spec(s: StackView, l: Literal, t: TypeView) -> Option<(StackView, VarIx)> {
    match literal_bytes(l, t) {
        Some(b) => if align_up(s.oxy_ptr, b.len()) + b.len() <= STACK_SIZE {
            let start = align_up(s.oxy_ptr, b.len());
            Some(
                (
                    StackView {
                        oxy: s.oxy.subrange(0, start as int) + b + s.oxy.subrange((start + b.len()) as int, STACK_SIZE as int),
                        oxy_ptr: start + b.len(),
                        gc: s.gc,
                        gc_ptr: s.gc_ptr,
                    },
                    (StackIndex::Oxy(start as usize), t),
                ),
            )
        } else {
            None
        },
        None => None,
    }
}

/// Whether the value at `v` can be read as a literal.
pub open spec fn readable(v: VarIx) -> bool {
    read_width(v.1) matches Some(n) && offset_of(v.0) + n <= STACK_SIZE
}

/// The literal that the value at `v` holds.
pub open spec fn read_val(s: StackView, v: VarIx) -> Literal {
    let i = offset_of(v.0);
    literal_of_bytes(stack_of(s, v.0).subrange(i, i + read_width(v.1)->0), v.1)
}

/// `op` applied to the values at `l` and `r` (see [`evaluate_bin_op`]).
pub open spec fn bin_spec(s: StackView, op: BinaryOperator, l: VarIx, r: VarIx) -> Option<(StackView, VarIx)> {
    if readable(l) && readable(r) && (bin_rule(op, l.1, r.1) is KeepLeft || bin_rule(op, l.1, r.1) is Bool) {
        match bin_op_spec(op, read_val(s, l), read_val(s, r)) {
            Some(v) => lit_spec(s, v, crate::interpreter::bin_op::bin_out_type(op, l.1, r.1)),
            None => None,
        }
    } else {
        None
    }
}

/// `op` applied to the value at `v` (see [`evaluate_un_op`]).
pub open spec fn un_spec(s: StackView, op: UnaryOperator, v: VarIx) -> Option<(StackView, VarIx)> {
    if readable(v) && unop_accepts(op, v.1) {
        match un_op_spec(op, read_val(s, v)) {
            Some(x) => lit_spec(s, x, v.1),
            None => None,
        }
    } else {
        None
    }
}

/// The first function named `name` from the `k`-th on.
pub open spec fn find_fun(funs: Seq<Function>, name: Seq<char>, k: int) -> Option<int>
    decreases funs.len() - k,
{
    if k < 0 || k >= funs.len() {
        None
    } else if funs[k].name@ == name {
        Some(k)
    } else {
        find_fun(funs, name, k + 1)
    }
}

/// The message a panic of the program on line `line` with the text `t`
/// is given.
pub open spec fn panic_text(line: usize, t: Seq<char>) -> Seq<char> {
    "line "@ + nat_text(line as nat) + ": "@ + t
}

/// The message for a text whose escapes do not decode.
pub open spec fn invalid_text(s: Seq<char>) -> Seq<char> {
    s + " was an invalid string"@
}

/// The string literal that `e` is, if it is one.
pub open spec fn string_arg(e: ExprView) -> Option<Seq<char>> {
    match e.data {
        ExprDataView::Literal(Literal::StringLiteral(s)) => Some(s@),
        _ => None,
    }
}

/// Evaluates `e` (see [`Run::evaluate_expression`]).
pub open spec fn eval_spec(p: Prog, st: RunView, e: ExprView, fuel: nat) -> Ev
    decreases fuel, 0nat,
{
    if fuel == 0 {
        Ev::OutOfFuel
    } else {
        let f = (fuel - 1) as nat;
        match e.data {
            ExprDataView::Identifier(name) => match cur_lookup(st, name) {
                Some(v) => Ev::Val(Some(v), st),
                None => Ev::Stuck,
            },
            ExprDataView::Literal(l) => if !valid_ty(p.cells, e.ty) {
                Ev::Stuck
            } else {
                match lit_spec(st.stack, l, type_of(p.cells, e.ty)) {
                    Some((s2, v)) => Ev::Val(Some(v), with_stack(st, s2)),
                    None => Ev::Stuck,
                }
            },
            ExprDataView::BinaryOp(op, l, r) => match eval_spec(p, st, *l, f) {
                Ev::Val(Some(lv), s1) => match eval_spec(p, s1, *r, f) {
                    Ev::Val(Some(rv), s2) => match bin_spec(s2.stack, op, lv, rv) {
                        Some((s3, v)) => Ev::Val(Some(v), with_stack(s2, s3)),
                        None => Ev::Stuck,
                    },
                    other => other,
                },
                other => other,
            },
            ExprDataView::UnaryOp(op, x) => match eval_spec(p, st, *x, f) {
                Ev::Val(Some(v), s1) => match un_spec(s1.stack, op, v) {
                    Some((s2, w)) => Ev::Val(Some(w), with_stack(s1, s2)),
                    None => Ev::Stuck,
                },
                other => other,
            },
            ExprDataView::Function { name, left_args, right_args } => match builtin_of(name) {
                Some(b) => builtin_spec(p, st, e.line, b, left_args, right_args, f),
                None => call_spec(p, st, name, left_args, right_args, f),
            },
            _ => Ev::Stuck,
        }
    }
}

/// Calls the built-in `b`: `print_string` and `print_i32` print, `panic`
/// stops the program; the others are left open.
pub open spec fn builtin_spec(
    p: Prog,
    st: RunView,
    line: usize,
    b: BuiltInFunction,
    left: Seq<ExprView>,
    right: Seq<ExprView>,
    fuel: nat,
) -> Ev
    decreases fuel, 1nat,
{
    if left.len() != 0 || right.len() != 1 {
        Ev::Stuck
    } else {
        match b {
            BuiltInFunction::print_string => match string_arg(right[0]) {
                Some(s) => match unicode_decode(s) {
                    Some(t) => Ev::Val(None, RunView { stack: st.stack, frames: st.frames, out: st.out + t }),
                    None => Ev::Panic(invalid_text(s), st),
                },
                None => Ev::Stuck,
            },
            BuiltInFunction::panic => match string_arg(right[0]) {
                Some(s) => match unicode_decode(s) {
                    Some(t) => Ev::Panic(panic_text(line, t), st),
                    None => Ev::Panic(invalid_text(s), st),
                },
                None => Ev::Stuck,
            },
            BuiltInFunction::print_i32 => match eval_spec(p, st, right[0], fuel) {
                Ev::Val(Some(v), s1) => if readable(v) && read_val(s1.stack, v) is IntegerLiteral {
                    Ev::Val(
                        None,
                        RunView {
                            stack: s1.stack,
                            frames: s1.frames,
                            out: s1.out + int_text(read_val(s1.stack, v)->IntegerLiteral_0 as int),
                        },
                    )
                } else {
                    Ev::Stuck
                },
                Ev::Val(None, _) => Ev::Stuck,
                other => other,
            },
            _ => Ev::Stuck,
        }
    }
}

/// Binds the arguments `args` from the `k`-th on to the parameters
/// `params` of a call, as far as both go: each argument is evaluated in
/// the caller's variables, and its bytes are copied into a new value of
/// the parameter's type on the oxy stack, added to `frame`.
pub open spec fn bind_spec(
    p: Prog,
    st: RunView,
    params: Seq<crate::parser::functions::FunctionParamater>,
    args: Seq<ExprView>,
    k: int,
    frame: FrameView,
    fuel: nat,
) -> Bind
    decreases fuel, args.len() - k + 2,
{
    if k < 0 || k >= params.len() || k >= args.len() {
        Bind::Bound(frame, st)
    } else {
        match eval_spec(p, st, args[k], fuel) {
            Ev::Val(Some(v), s1) => match (type_size(v.1, p.defs), params[k].param_name) {
                (Some(n), Some(pname)) => if offset_of(v.0) + n <= STACK_SIZE {
                    let i = offset_of(v.0);
                    let bytes = stack_of(s1.stack, v.0).subrange(i, i + n);
                    let pt = params[k].param_type@;
                    match alloc_spec(s1.stack, pt, p.defs, StackLocation::Oxy) {
                        Some((s2, idx)) => if offset_of(idx) + n <= STACK_SIZE {
                            let s3 = write_spec(s2, idx, bytes);
                            bind_spec(p, with_stack(s1, s3), params, args, k + 1, frame.push((pname@, (idx, pt))), fuel)
                        } else {
                            Bind::Stuck
                        },
                        None => Bind::Stuck,
                    }
                } else {
                    Bind::Stuck
                },
                _ => Bind::Stuck,
            },
            Ev::Val(None, _) => Bind::Stuck,
            Ev::Stuck => Bind::Stuck,
            Ev::OutOfFuel => Bind::OutOfFuel,
            Ev::Panic(m, s) => Bind::Panic(m, s),
        }
    }
}

/// `r` with the innermost call's frame removed and the oxy stack's fill
/// level set back to `oxy_ptr`.
pub open spec fn leave_call(r: RunView, oxy_ptr: nat) -> RunView {
    RunView {
        stack: StackView { oxy: r.stack.oxy, oxy_ptr, gc: r.stack.gc, gc_ptr: r.stack.gc_ptr },
        frames: r.frames.drop_last(),
        out: r.out,
    }
}

/// What a call gives once its body has run: the value `x`, with the
/// call's frame left (see [`leave_call`]).
pub open spec fn end_call(x: Option<VarIx>, r: RunView, oxy_ptr: nat) -> Ev {
    if r.frames.len() == 0 {
        Ev::Stuck
    } else {
        Ev::Val(x, leave_call(r, oxy_ptr))
    }
}

/// Calls the function named `name`: its left and then its right arguments
/// are bound to its parameters in a new frame, its body is executed, and
/// the frame is left with the oxy stack as it was before the arguments.
/// The call gives what a `return` gave, or nothing.
pub open spec fn call_spec(p: Prog, st: RunView, name: Seq<char>, left: Seq<ExprView>, right: Seq<ExprView>, fuel: nat) -> Ev
    decreases fuel, 1nat,
{
    let f = (fuel - 1) as nat;
    if fuel == 0 {
        Ev::OutOfFuel
    } else {
    match find_fun(p.funs, name, 0) {
        None => Ev::Stuck,
        Some(fi) => {
            let fun = p.funs[fi];
            let o0 = st.stack.oxy_ptr;
            match bind_spec(p, st, fun.left_args@, left, 0, Seq::empty(), f) {
                Bind::Bound(fr1, s1) => match bind_spec(p, s1, fun.right_args@, right, 0, fr1, f) {
                    Bind::Bound(fr2, s2) => {
                        let s3 = RunView { stack: s2.stack, frames: s2.frames.push(fr2), out: s2.out };
                        match list_spec(p, s3, stmts_view(fun.body@), 0, s3.stack.oxy_ptr, s3.stack.gc_ptr, f) {
                            Ex::Returned(v, s4) => end_call(Some(v), s4, o0),
                            Ex::Normal(s4) => end_call(None, s4, o0),
                            Ex::Exit(s4) => end_call(None, s4, o0),
                            Ex::Stuck => Ev::Stuck,
                            Ex::OutOfFuel => Ev::OutOfFuel,
                            Ex::Panic(m, s4) => Ev::Panic(m, s4),
                        }
                    },
                    Bind::Stuck => Ev::Stuck,
                    Bind::OutOfFuel => Ev::OutOfFuel,
                    Bind::Panic(m, s) => Ev::Panic(m, s),
                },
                Bind::Stuck => Ev::Stuck,
                Bind::OutOfFuel => Ev::OutOfFuel,
                Bind::Panic(m, s) => Ev::Panic(m, s),
            }
        },
    }
    }
}

/// `r` with both stacks' fill levels set back.
pub open spec fn restore(r: RunView, oxy_ptr: nat, gc_ptr: nat) -> RunView {
    RunView { stack: StackView { oxy: r.stack.oxy, oxy_ptr, gc: r.stack.gc, gc_ptr }, frames: r.frames, out: r.out }
}

/// Executes the statements `stmts` from the `k`-th on (see
/// [`Run::interpret_statements`]); at their end both stacks' fill levels go
/// back to `oxy_ptr` and `gc_ptr`, where they stood when the statements
/// began.
pub open spec fn list_spec(p: Prog, st: RunView, stmts: Seq<StmtDataView>, k: int, oxy_ptr: nat, gc_ptr: nat, fuel: nat) -> Ex
    decreases fuel, stmts.len() - k + 2,
{
    if k < 0 || k >= stmts.len() {
        Ex::Normal(restore(st, oxy_ptr, gc_ptr))
    } else {
        match stmt_exec_spec(p, st, stmts[k], fuel) {
            Ex::Normal(s) => list_spec(p, s, stmts, k + 1, oxy_ptr, gc_ptr, fuel),
            Ex::Exit(s) => Ex::Normal(s),
            other => other,
        }
    }
}

/// Executes `body` in a scope of its own: the variables it declares are
/// dropped after it.
pub open spec fn block_exec_spec(p: Prog, st: RunView, body: Seq<StmtDataView>, fuel: nat) -> Ex
    decreases fuel, 1nat,
{
    if fuel == 0 {
        Ex::OutOfFuel
    } else if st.frames.len() == 0 {
        Ex::Stuck
    } else {
        let n = st.frames.last().len();
        match list_spec(p, st, body, 0, st.stack.oxy_ptr, st.stack.gc_ptr, (fuel - 1) as nat) {
            Ex::Normal(s) => if s.frames.len() == st.frames.len() && s.frames.last().len() >= n {
                Ex::Normal(keep_vars(s, n))
            } else {
                Ex::Stuck
            },
            Ex::Returned(v, s) => if s.frames.len() == st.frames.len() && s.frames.last().len() >= n {
                Ex::Returned(v, keep_vars(s, n))
            } else {
                Ex::Stuck
            },
            other => other,
        }
    }
}

/// A condition evaluated to a boolean.
pub enum CondEnd {
    Stuck,
    OutOfFuel,
    Panic(Seq<char>, RunView),
    Is(bool, RunView),
}

/// Evaluates the condition `c`: its value must be a boolean.
pub open spec fn cond_spec(p: Prog, st: RunView, c: ExprView, fuel: nat) -> CondEnd
    decreases fuel, 1nat,
{
    match eval_spec(p, st, c, fuel) {
        Ev::Val(Some(v), s1) => if v.1 == TypeView::Bool && readable(v) {
            CondEnd::Is(read_val(s1.stack, v)->BooleanLiteral_0, s1)
        } else {
            CondEnd::Stuck
        },
        Ev::Val(None, _) => CondEnd::Stuck,
        Ev::Stuck => CondEnd::Stuck,
        Ev::OutOfFuel => CondEnd::OutOfFuel,
        Ev::Panic(m, s) => CondEnd::Panic(m, s),
    }
}

/// A while loop: while its condition holds, its body runs in a scope of
/// its own.
pub open spec fn while_exec_spec(p: Prog, st: RunView, cond: ExprView, body: Seq<StmtDataView>, fuel: nat) -> Ex
    decreases fuel, 0nat,
{
    if fuel == 0 {
        Ex::OutOfFuel
    } else {
        let f = (fuel - 1) as nat;
        match cond_spec(p, st, cond, f) {
            CondEnd::Is(false, s1) => Ex::Normal(s1),
            CondEnd::Is(true, s1) => match block_exec_spec(p, s1, body, f) {
                Ex::Normal(s2) => while_exec_spec(p, s2, cond, body, f),
                other => other,
            },
            CondEnd::Stuck => Ex::Stuck,
            CondEnd::OutOfFuel => Ex::OutOfFuel,
            CondEnd::Panic(m, s) => Ex::Panic(m, s),
        }
    }
}

/// A chain of conditions from the `k`-th: the body of the first condition
/// that holds runs; where none does, the `else` body, if there is one.
pub open spec fn chain_exec_spec(
    p: Prog,
    st: RunView,
    conds: Seq<ExprView>,
    bodies: Seq<Seq<StmtDataView>>,
    k: int,
    fuel: nat,
) -> Ex
    decreases fuel, conds.len() - k + 2,
{
    if k < 0 || k > conds.len() {
        Ex::Stuck
    } else if k == conds.len() {
        if bodies.len() > conds.len() {
            block_exec_spec(p, st, bodies.last(), fuel)
        } else {
            Ex::Normal(st)
        }
    } else if k >= bodies.len() {
        Ex::Stuck
    } else {
        match cond_spec(p, st, conds[k], fuel) {
            CondEnd::Is(true, s1) => block_exec_spec(p, s1, bodies[k], fuel),
            CondEnd::Is(false, s1) => chain_exec_spec(p, s1, conds, bodies, k + 1, fuel),
            CondEnd::Stuck => Ex::Stuck,
            CondEnd::OutOfFuel => Ex::OutOfFuel,
            CondEnd::Panic(m, s) => Ex::Panic(m, s),
        }
    }
}

/// Executes one statement.
pub open spec fn stmt_exec_spec(p: Prog, st: RunView, s: StmtDataView, fuel: nat) -> Ex
    decreases fuel, 0nat,
{
    if fuel == 0 {
        Ex::OutOfFuel
    } else {
        let f = (fuel - 1) as nat;
        match s.stmt {
            StmtView::Compound(body) => block_exec_spec(p, st, body, f),
            StmtView::While { cond, body } => while_exec_spec(p, st, cond, body, f),
            StmtView::Conditional { conds, bodies } => chain_exec_spec(p, st, conds, bodies, 0, f),
            StmtView::Return(None) => Ex::Exit(st),
            StmtView::Return(Some(e)) => match eval_spec(p, st, e, f) {
                Ev::Val(Some(v), s1) => Ex::Returned(v, s1),
                Ev::Val(None, _) => Ex::Stuck,
                Ev::Stuck => Ex::Stuck,
                Ev::OutOfFuel => Ex::OutOfFuel,
                Ev::Panic(m, s1) => Ex::Panic(m, s1),
            },
            StmtView::Declare(name, loc, ty) => if st.frames.len() == 0 || !valid_ty(p.cells, ty) {
                Ex::Stuck
            } else {
                let t = type_of(p.cells, ty);
                match alloc_spec(st.stack, t, p.defs, loc) {
                    Some((s2, idx)) => Ex::Normal(push_var(with_stack(st, s2), name, (idx, t))),
                    None => Ex::Stuck,
                }
            },
            StmtView::Assign { variable, assign } => match variable.data {
                ExprDataView::Identifier(name) => match eval_spec(p, st, assign, f) {
                    Ev::Val(Some(v), s1) => if readable(v) {
                        match literal_bytes(read_val(s1.stack, v), v.1) {
                            Some(bytes) => match cur_lookup(s1, name) {
                                Some(target) => if offset_of(target.0) + bytes.len() <= STACK_SIZE {
                                    Ex::Normal(with_stack(s1, write_spec(s1.stack, target.0, bytes)))
                                } else {
                                    Ex::Stuck
                                },
                                None => Ex::Stuck,
                            },
                            None => Ex::Stuck,
                        }
                    } else {
                        Ex::Stuck
                    },
                    Ev::Val(None, _) => Ex::Stuck,
                    Ev::Stuck => Ex::Stuck,
                    Ev::OutOfFuel => Ex::OutOfFuel,
                    Ev::Panic(m, s1) => Ex::Panic(m, s1),
                },
                _ => Ex::Stuck,
            },
            StmtView::Expr(e) => match eval_spec(p, st, e, f) {
                Ev::Val(_, s1) => Ex::Normal(s1),
                Ev::Stuck => Ex::Stuck,
                Ev::OutOfFuel => Ex::OutOfFuel,
                Ev::Panic(m, s1) => Ex::Panic(m, s1),
            },
        }
    }
}


/// What evaluating an expression gave.
pub enum EvalOut {
    OutOfFuel,
    Panic(String),
    Value(Option<VariableData>),
}

/// What executing statements gave.
pub enum ExecOut {
    OutOfFuel,
    Panic(String),
    Normal,
    Exit,
    Returned(VariableData),
}

/// What binding arguments gave.
pub enum BindOut {
    OutOfFuel,
    Panic(String),
    Bound,
}

/// What evaluating a condition gave.
pub enum CondOut {
    OutOfFuel,
    Panic(String),
    Is(bool),
}

/// A value's place and type, as a spec value.
pub open spec fn ix(v: VariableData) -> VarIx {
    (v.index, v.expr_type@)
}

/// The [`Ev`] that an evaluation gave, with the state after it.
pub open spec fn ev_of(r: EvalOut, st: RunView) -> Ev {
    match r {
        EvalOut::OutOfFuel => Ev::OutOfFuel,
        EvalOut::Panic(m) => Ev::Panic(m@, st),
        EvalOut::Value(None) => Ev::Val(None, st),
        EvalOut::Value(Some(v)) => Ev::Val(Some(ix(v)), st),
    }
}

/// The [`Ex`] that an execution gave, with the state after it.
pub open spec fn ex_of(r: ExecOut, st: RunView) -> Ex {
    match r {
        ExecOut::OutOfFuel => Ex::OutOfFuel,
        ExecOut::Panic(m) => Ex::Panic(m@, st),
        ExecOut::Normal => Ex::Normal(st),
        ExecOut::Exit => Ex::Exit(st),
        ExecOut::Returned(v) => Ex::Returned(ix(v), st),
    }
}

/// The [`Bind`] that a binding gave, with the frame and state after it.
pub open spec fn bind_of(r: BindOut, fr: FrameView, st: RunView) -> Bind {
    match r {
        BindOut::OutOfFuel => Bind::OutOfFuel,
        BindOut::Panic(m) => Bind::Panic(m@, st),
        BindOut::Bound => Bind::Bound(fr, st),
    }
}

/// The [`CondEnd`] that a condition gave, with the state after it.
pub open spec fn cond_of(r: CondOut, st: RunView) -> CondEnd {
    match r {
        CondOut::OutOfFuel => CondEnd::OutOfFuel,
        CondOut::Panic(m) => CondEnd::Panic(m@, st),
        CondOut::Is(b) => CondEnd::Is(b, st),
    }
}

/// The bodies of a chain of conditions, one by one.
pub proof fn lemma_bodies_view_index(s: Seq<Vec<StmtData>>)
    ensures
        bodies_view(s).len() == s.len(),
        forall|k: int| 0 <= k < s.len() ==> #[trigger] bodies_view(s)[k] == stmts_view(s[k]@),
    decreases s.len(),
{
    if s.len() > 0 {
        lemma_bodies_view_index(s.drop_last());
    }
}

/// A copy of a value's place and type.
fn copy_var(v: &VariableData) -> (r: VariableData)
    ensures
        ix(r) == ix(*v),
{
    VariableData { index: v.index, expr_type: v.expr_type.copy() }
}

/// The last variable named `name` in `frame` (see [`lookup`]).
fn lookup_exec(frame: &Vec<(String, VariableData)>, name: &String) -> (r: Option<VariableData>)
    ensures
        match r {
            Some(v) => lookup(frame_view(frame@), name@) == Some(ix(v)),
            None => lookup(frame_view(frame@), name@) is None,
        },
{
    let ghost fv = frame_view(frame@);
    let mut k: usize = frame.len();
    assert(fv.take(k as int) =~= fv);
    while k > 0
        invariant
            k <= frame@.len(),
            fv == frame_view(frame@),
            lookup(fv, name@) == lookup(fv.take(k as int), name@),
        decreases k,
    {
        assert(fv.take(k as int).drop_last() =~= fv.take(k - 1));
        assert(fv.take(k as int).last() == (frame@[k - 1].0@, ix(frame@[k - 1].1)));
        if frame[k - 1].0 == *name {
            return Some(copy_var(&frame[k - 1].1));
        }
        k -= 1;
    }
    None
}

/// The first function named `name` (see [`find_fun`]).
fn find_fun_exec(funs: &[Function], name: &String) -> (r: Option<usize>)
    ensures
        match r {
            Some(i) => find_fun(funs@, name@, 0) == Some(i as int) && i < funs@.len(),
            None => find_fun(funs@, name@, 0) is None,
        },
{
    let mut k: usize = 0;
    while k < funs.len()
        invariant
            k <= funs@.len(),
            find_fun(funs@, name@, 0) == find_fun(funs@, name@, k as int),
        decreases funs@.len() - k,
    {
        if funs[k].name == *name {
            return Some(k);
        }
        k += 1;
    }
    None
}

/// The decimal text of `v`, with a `-` before a negative one.
fn i128_text(v: i128) -> (r: String)
    ensures
        r@ == int_text(v as int),
{
    proof {
        reveal_strlit("-");
    }
    if v < 0 {
        let m: u128 = ((-(v + 1)) as u128) + 1;
        let digits = crate::parser::expr::u128_text(m);
        String::from_str("-").concat(digits.as_str())
    } else {
        crate::parser::expr::u128_text(v as u128)
    }
}

/// What an assignment writes is what the variable then reads: where
/// `name = assign ;` ends normally and the variable has the type of the
/// assigned value, the variable afterwards holds that value.
pub proof fn lemma_assigned_value_reads_back(
    p: Prog,
    st: RunView,
    s: StmtDataView,
    fuel: nat,
    name: Seq<char>,
    assign: ExprView,
    v: VarIx,
    s1: RunView,
    target: VarIx,
)
    requires
        fuel > 0,
        s.stmt matches StmtView::Assign { variable, assign: a } && variable.data == ExprDataView::Identifier(name)
            && a == assign,
        eval_spec(p, st, assign, (fuel - 1) as nat) == Ev::Val(Some(v), s1),
        cur_lookup(s1, name) == Some(target),
        target.1 == v.1,
        s1.stack.oxy.len() == STACK_SIZE,
        s1.stack.gc.len() == STACK_SIZE,
    ensures
        stmt_exec_spec(p, st, s, fuel) matches Ex::Normal(after) ==> cur_lookup(after, name) == Some(target)
            && read_val(after.stack, target) == read_val(s1.stack, v),
{
    if let Ex::Normal(after) = stmt_exec_spec(p, st, s, fuel) {
        let t = v.1;
        let lit = read_val(s1.stack, v);
        let bytes = literal_bytes(lit, t)->0;
        let i = offset_of(v.0);
        let b = stack_of(s1.stack, v.0).subrange(i, i + read_width(t)->0);
        assert(after == with_stack(s1, write_spec(s1.stack, target.0, bytes)));
        let j = offset_of(target.0);
        let before = stack_of(s1.stack, target.0);
        assert(stack_of(after.stack, target.0) == before.subrange(0, j) + bytes + before.subrange(
            j + bytes.len(),
            STACK_SIZE as int,
        ));
        if t is Bool {
            assert(bytes.len() == 1);
        } else {
            assert(int_width(t) is Some);
            assert(read_width(t) == int_width(t));
            assert(b.len() == read_width(t)->0);
            crate::interpreter::lemma_bytes_roundtrip(b, t);
            assert(bytes == b);
        }
        crate::interpreter::lemma_read_after_write(before, j, bytes);
        assert(stack_of(after.stack, target.0).subrange(j, j + read_width(t)->0) == bytes);
        if t is Bool {
            assert(read_val(after.stack, target) == lit);
        }
    }
}

/// A block drops the variables it declared: where it ends normally or
/// with a `return` of a value, the state after it has as many frames as
/// before, the innermost holding as many variables as before.
pub proof fn lemma_block_drops_its_variables(p: Prog, st: RunView, body: Seq<StmtDataView>, fuel: nat)
    ensures
        (block_exec_spec(p, st, body, fuel) matches Ex::Normal(s) ==> s.frames.len() == st.frames.len()
            && s.frames.last().len() == st.frames.last().len()),
        (block_exec_spec(p, st, body, fuel) matches Ex::Returned(_, s) ==> s.frames.len() == st.frames.len()
            && s.frames.last().len() == st.frames.last().len()),
{
}

/// The state before a program runs: two stacks of zero bytes, both empty,
/// no call under way and nothing printed.
pub open spec fn fresh_run() -> RunView {
    RunView {
        stack: StackView {
            oxy: Seq::new(STACK_SIZE as nat, |i: int| 0u8),
            oxy_ptr: 0,
            gc: Seq::new(STACK_SIZE as nat, |i: int| 0u8),
            gc_ptr: 0,
        },
        frames: Seq::empty(),
        out: Seq::empty(),
    }
}

/// How running a whole program ended.
pub enum RunOutcome {
    /// No function is named `main`.
    NoEntryPoint,
    /// `main` takes arguments.
    MainHasArguments,
    /// `main` returns a value.
    MainHasReturnType,
    /// `main` ran to its end, or to a `return ;`.
    Finished,
    /// `main` gave a value back with `return`.
    ReturnedValue,
    /// The program panicked with this message.
    Panicked(String),
    /// The fuel ran out before the program ended.
    OutOfFuel,
}

/// How running a program ends, as a spec value, with what it printed.
pub enum RunEnd {
    Stuck,
    NoEntryPoint,
    MainHasArguments,
    MainHasReturnType,
    Finished(Seq<char>),
    ReturnedValue(Seq<char>),
    Panicked(Seq<char>, Seq<char>),
    OutOfFuel,
}

/// Runs the program `p` (see [`interpret`]): the first function named
/// `main`, which must take no arguments and return nothing, has its body
/// executed in a frame of its own from a fresh state.
pub open spec fn run_spec(p: Prog, fuel: nat) -> RunEnd {
    match find_fun(p.funs, "main"@, 0) {
        None => RunEnd::NoEntryPoint,
        Some(i) => {
            let m = p.funs[i];
            if m.left_args@.len() != 0 || m.right_args@.len() != 0 {
                RunEnd::MainHasArguments
            } else if m.return_type@ != TypeView::Void {
                RunEnd::MainHasReturnType
            } else {
                let st0 = RunView { stack: fresh_run().stack, frames: seq![Seq::empty()], out: Seq::empty() };
                match list_spec(p, st0, stmts_view(m.body@), 0, 0, 0, fuel) {
                    Ex::Normal(s) => RunEnd::Finished(s.out),
                    Ex::Exit(s) => RunEnd::Finished(s.out),
                    Ex::Returned(_, s) => RunEnd::ReturnedValue(s.out),
                    Ex::Panic(msg, s) => RunEnd::Panicked(msg, s.out),
                    Ex::OutOfFuel => RunEnd::OutOfFuel,
                    Ex::Stuck => RunEnd::Stuck,
                }
            }
        },
    }
}

/// The [`RunEnd`] that a run gave, with what it printed.
pub open spec fn end_of(r: RunOutcome, out: Seq<char>) -> RunEnd {
    match r {
        RunOutcome::NoEntryPoint => RunEnd::NoEntryPoint,
        RunOutcome::MainHasArguments => RunEnd::MainHasArguments,
        RunOutcome::MainHasReturnType => RunEnd::MainHasReturnType,
        RunOutcome::Finished => RunEnd::Finished(out),
        RunOutcome::ReturnedValue => RunEnd::ReturnedValue(out),
        RunOutcome::Panicked(m) => RunEnd::Panicked(m@, out),
        RunOutcome::OutOfFuel => RunEnd::OutOfFuel,
    }
}

/// Runs a program: finds its entry point `main`, checks that it takes no
/// arguments and returns nothing, and executes its body with at most
/// `fuel` steps.  Gives how the run ended and what the program printed
/// (nothing where it never started or ran out of fuel).
pub fn interpret(defs: &[Struct], funs: &[Function], cells: &TypeCells, fuel: u64) -> (r: (RunOutcome, String))
    requires
        !(run_spec(Prog { defs: defs@, funs: funs@, cells: cells@ }, fuel as nat) is Stuck),
    ensures
        end_of(r.0, r.1@) == run_spec(Prog { defs: defs@, funs: funs@, cells: cells@ }, fuel as nat),
{
    let main_name = String::from_str("main");
    proof {
        reveal_strlit("main");
    }
    let found = find_fun_exec(funs, &main_name);
    let empty = String::new();
    proof {
        reveal_strlit("");
    }
    let i = match found {
        None => return (RunOutcome::NoEntryPoint, empty),
        Some(i) => i,
    };
    let m = &funs[i];
    if m.left_args.len() != 0 || m.right_args.len() != 0 {
        return (RunOutcome::MainHasArguments, empty);
    }
    match m.return_type {
        ExprType::Void => {},
        _ => return (RunOutcome::MainHasReturnType, empty),
    }
    let mut run = Run::new();
    let first: Vec<(String, VariableData)> = Vec::new();
    proof {
        assert(frame_view(first@) =~= Seq::<(Seq<char>, VarIx)>::empty());
    }
    assert(run.frames@.len() == 0) by {
        assert(run@.frames.len() == run.frames@.len());
    }
    run.frames.push(first);
    proof {
        assert(run.frames@[0] == first);
        assert(run@.frames[0] == frame_view(first@));
        assert(run@.frames =~= seq![Seq::<(Seq<char>, VarIx)>::empty()]);
    }
    let res = run.interpret_statements(defs, funs, cells, &m.body, 0, 0, 0, fuel);
    match res {
        ExecOut::Normal => (RunOutcome::Finished, run.out),
        ExecOut::Exit => (RunOutcome::Finished, run.out),
        ExecOut::Returned(_) => (RunOutcome::ReturnedValue, run.out),
        ExecOut::Panic(msg) => (RunOutcome::Panicked(msg), run.out),
        ExecOut::OutOfFuel => (RunOutcome::OutOfFuel, empty),
    }
}

impl Run {
    /// The stacks are well formed.
    pub open spec fn wf(&self) -> bool {
        self.stack.wf()
    }

    /// A run that has not started: empty stacks, no calls, nothing printed.
    pub fn new() -> (r: Run)
        ensures
            r.wf(),
            r@ == fresh_run(),
    {
        let r = Run { stack: Stack::new(), frames: Vec::new(), out: String::new() };
        assert(r@.out =~= Seq::<char>::empty()) by {
            reveal_strlit("");
        }
        assert(r@.frames =~= Seq::<FrameView>::empty());
        r
    }

    /// Adds the variable `name` at `v` to the innermost call.
    fn push_var_exec(&mut self, name: String, v: VariableData)
        requires
            old(self)@.frames.len() > 0,
        ensures
            final(self)@ == push_var(old(self)@, name@, ix(v)),
            final(self).stack == old(self).stack,
    {
        let ghost before = self@;
        let ghost fs = self.frames@;
        let mut f = self.frames.pop().unwrap();
        assert(self.frames@ == fs.drop_last());
        let ghost f0 = f@;
        assert(frame_view(f0) == before.frames.last());
        let ghost nm = name@;
        let ghost vi = ix(v);
        f.push((name, v));
        assert(frame_view(f@) =~= frame_view(f0).push((nm, vi)));
        self.frames.push(f);
        proof {
            assert(self@.frames =~= before.frames.update(before.frames.len() - 1, before.frames.last().push((nm, vi))));
        }
    }

    /// Declares the variable `name` of type `expr_type` in the innermost
    /// call: a value of zero bytes is placed on the stack `loc` (see
    /// [`alloc_spec`]) and the name is bound to it.
    pub fn push_variable(&mut self, line: usize, defs: &[Struct], name: &String, expr_type: ExprType, loc: StackLocation)
        requires
            old(self).wf(),
            old(self)@.frames.len() > 0,
            alloc_spec(old(self)@.stack, expr_type@, defs@, loc) is Some,
        ensures
            final(self).wf(),
            ({
                let (s2, idx) = alloc_spec(old(self)@.stack, expr_type@, defs@, loc)->0;
                final(self)@ == push_var(with_stack(old(self)@, s2), name@, (idx, expr_type@))
            }),
    {
        let ghost t = expr_type@;
        let v = self.stack.stack_alloc(line, defs, expr_type, loc);
        proof {
            let (s2, idx) = alloc_spec(old(self)@.stack, t, defs@, loc)->0;
            assert(self.stack@ =~= s2);
            assert(v.index == idx);
        }
        self.push_var_exec(name.clone(), v);
    }

    /// Writes `bytes` into the variable `name` of the innermost call.
    pub fn write_variable(&mut self, name: &String, bytes: &[u8])
        requires
            old(self).wf(),
            cur_lookup(old(self)@, name@) matches Some(t) && offset_of(t.0) + bytes@.len() <= STACK_SIZE,
        ensures
            final(self).wf(),
            final(self)@ == with_stack(old(self)@, write_spec(old(self)@.stack, (cur_lookup(old(self)@, name@)->0).0, bytes@)),
    {
        let target = lookup_exec(&self.frames[self.frames.len() - 1], name).unwrap();
        self.stack.stack_write(&target, bytes);
        proof {
            assert(self.stack@ =~= write_spec(old(self)@.stack, target.index, bytes@));
        }
    }

    /// Keeps the first `n` variables of the innermost call.
    fn keep_vars_exec(&mut self, n: usize)
        requires
            old(self)@.frames.len() > 0,
            old(self)@.frames.last().len() >= n,
        ensures
            final(self)@ == keep_vars(old(self)@, n as nat),
            final(self).stack == old(self).stack,
    {
        let ghost before = self@;
        let ghost fs = self.frames@;
        let mut f = self.frames.pop().unwrap();
        assert(self.frames@ == fs.drop_last());
        assert(frame_view(f@) == before.frames.last());
        f.truncate(n);
        self.frames.push(f);
        proof {
            assert(frame_view(f@) =~= before.frames.last().take(n as int));
            assert(self@.frames =~= before.frames.update(before.frames.len() - 1, before.frames.last().take(n as int)));
        }
    }

    /// Evaluates `e` (see [`eval_spec`]): a name gives its variable, a
    /// literal is placed on the oxy stack, an operator is applied to the
    /// values of its operands, and a call runs a built-in or a function of
    /// the program.
    pub fn evaluate_expression(
        &mut self,
        defs: &[Struct],
        funs: &[Function],
        cells: &TypeCells,
        e: &Expression,
        fuel: u64,
    ) -> (r: EvalOut)
        requires
            old(self).wf(),
            !(eval_spec(Prog { defs: defs@, funs: funs@, cells: cells@ }, old(self)@, e@, fuel as nat) is Stuck),
        ensures
            final(self).wf(),
            ev_of(r, final(self)@) == eval_spec(Prog { defs: defs@, funs: funs@, cells: cells@ }, old(self)@, e@, fuel as nat),
        decreases fuel, 0nat,
    {
        if fuel == 0 {
            return EvalOut::OutOfFuel;
        }
        let f = fuel - 1;
        match &*e.expr_data {
            ExpressionData::Identifier(name) => {
                let v = lookup_exec(&self.frames[self.frames.len() - 1], name);
                EvalOut::Value(v)
            },
            ExpressionData::Literal(l) => {
                let t = e.expr_type.clone_inner(cells);
                let v = self.stack.evaluate_literal(e.line, defs, l, t);
                EvalOut::Value(Some(v))
            },
            ExpressionData::BinaryOp(op, l, r) => match self.evaluate_expression(defs, funs, cells, l, f) {
                EvalOut::Value(Some(lv)) => match self.evaluate_expression(defs, funs, cells, r, f) {
                    EvalOut::Value(Some(rv)) => {
                        let v = evaluate_bin_op(&mut self.stack, e.line, defs, *op, &lv, &rv);
                        EvalOut::Value(Some(v))
                    },
                    other => other,
                },
                other => other,
            },
            ExpressionData::UnaryOp(op, x) => match self.evaluate_expression(defs, funs, cells, x, f) {
                EvalOut::Value(Some(v)) => {
                    let w = evaluate_un_op(&mut self.stack, e.line, defs, *op, &v);
                    EvalOut::Value(Some(w))
                },
                other => other,
            },
            ExpressionData::Function { name, left_args, right_args } => match BuiltInFunction::from_name(name.as_str()) {
                Some(b) => self.call_builtin(defs, funs, cells, e.line, b, left_args, right_args, f),
                None => self.call_function(defs, funs, cells, name, left_args, right_args, f),
            },
            _ => vstd::pervasive::unreached(),
        }
    }

    /// Calls the built-in `b` (see [`builtin_spec`]).
    fn call_builtin(
        &mut self,
        defs: &[Struct],
        funs: &[Function],
        cells: &TypeCells,
        line: usize,
        b: BuiltInFunction,
        left: &Vec<Expression>,
        right: &Vec<Expression>,
        fuel: u64,
    ) -> (r: EvalOut)
        requires
            old(self).wf(),
            !(builtin_spec(
                Prog { defs: defs@, funs: funs@, cells: cells@ },
                old(self)@,
                line,
                b,
                exprs_view(left@),
                exprs_view(right@),
                fuel as nat,
            ) is Stuck),
        ensures
            final(self).wf(),
            ev_of(r, final(self)@) == builtin_spec(
                Prog { defs: defs@, funs: funs@, cells: cells@ },
                old(self)@,
                line,
                b,
                exprs_view(left@),
                exprs_view(right@),
                fuel as nat,
            ),
        decreases fuel, 1nat,
    {
        proof {
            lemma_exprs_view(left@);
            lemma_exprs_view(right@);
            reveal_strlit(" was an invalid string");
            reveal_strlit("line ");
            reveal_strlit(": ");
        }
        match b {
            BuiltInFunction::print_string => match &*right[0].expr_data {
                ExpressionData::Literal(Literal::StringLiteral(s)) => match decode_escapes(s.as_str()) {
                    Some(t) => {
                        self.out.append(t.as_str());
                        EvalOut::Value(None)
                    },
                    None => EvalOut::Panic(s.clone().concat(" was an invalid string")),
                },
                _ => vstd::pervasive::unreached(),
            },
            BuiltInFunction::panic => match &*right[0].expr_data {
                ExpressionData::Literal(Literal::StringLiteral(s)) => match decode_escapes(s.as_str()) {
                    Some(t) => {
                        let head = String::from_str("line ").concat(crate::parser::expr::usize_text(line).as_str());
                        EvalOut::Panic(head.concat(": ").concat(t.as_str()))
                    },
                    None => EvalOut::Panic(s.clone().concat(" was an invalid string")),
                },
                _ => vstd::pervasive::unreached(),
            },
            BuiltInFunction::print_i32 => match self.evaluate_expression(defs, funs, cells, &right[0], fuel) {
                EvalOut::Value(Some(v)) => {
                    let lit = self.stack.get_expr_from_variable_data(&v);
                    match lit {
                        Literal::IntegerLiteral(x) => {
                            self.out.append(i128_text(x).as_str());
                            EvalOut::Value(None)
                        },
                        _ => vstd::pervasive::unreached(),
                    }
                },
                EvalOut::Value(None) => vstd::pervasive::unreached(),
                other => other,
            },
            _ => vstd::pervasive::unreached(),
        }
    }

    /// Binds the arguments `args` from the `k`-th on to `params` (see
    /// [`bind_spec`]), adding the parameters to `frame`.
    fn bind_args(
        &mut self,
        defs: &[Struct],
        funs: &[Function],
        cells: &TypeCells,
        params: &Vec<crate::parser::functions::FunctionParamater>,
        args: &Vec<Expression>,
        k: usize,
        frame: &mut Vec<(String, VariableData)>,
        fuel: u64,
    ) -> (r: BindOut)
        requires
            old(self).wf(),
            !(bind_spec(
                Prog { defs: defs@, funs: funs@, cells: cells@ },
                old(self)@,
                params@,
                exprs_view(args@),
                k as int,
                frame_view(old(frame)@),
                fuel as nat,
            ) is Stuck),
        ensures
            final(self).wf(),
            bind_of(r, frame_view(final(frame)@), final(self)@) == bind_spec(
                Prog { defs: defs@, funs: funs@, cells: cells@ },
                old(self)@,
                params@,
                exprs_view(args@),
                k as int,
                frame_view(old(frame)@),
                fuel as nat,
            ),
        decreases fuel, args@.len() - k + 2,
    {
        proof {
            lemma_exprs_view(args@);
        }
        if k >= params.len() || k >= args.len() {
            return BindOut::Bound;
        }
        match self.evaluate_expression(defs, funs, cells, &args[k], fuel) {
            EvalOut::Value(Some(v)) => {
                let n = v.expr_type.size_of(defs);
                let bytes = self.stack.get_bytes_from_index(v.index, n);
                let pname = match &params[k].param_name {
                    Some(x) => x.clone(),
                    None => String::new(),
                };
                let pt = params[k].param_type.copy();
                let slot = self.stack.stack_alloc(0, defs, pt, StackLocation::Oxy);
                self.stack.stack_write(&slot, bytes.as_slice());
                let ghost fb = frame@;
                frame.push((pname, slot));
                assert(frame_view(frame@) =~= frame_view(fb).push((pname@, ix(slot))));
                self.bind_args(defs, funs, cells, params, args, k + 1, frame, fuel)
            },
            EvalOut::Value(None) => vstd::pervasive::unreached(),
            EvalOut::OutOfFuel => BindOut::OutOfFuel,
            EvalOut::Panic(m) => BindOut::Panic(m),
        }
    }

    /// Calls the function of the program named `name` (see [`call_spec`]).
    fn call_function(
        &mut self,
        defs: &[Struct],
        funs: &[Function],
        cells: &TypeCells,
        name: &String,
        left: &Vec<Expression>,
        right: &Vec<Expression>,
        fuel: u64,
    ) -> (r: EvalOut)
        requires
            old(self).wf(),
            !(call_spec(Prog { defs: defs@, funs: funs@, cells: cells@ }, old(self)@, name@, exprs_view(left@), exprs_view(right@), fuel as nat)
                is Stuck),
        ensures
            final(self).wf(),
            ev_of(r, final(self)@) == call_spec(
                Prog { defs: defs@, funs: funs@, cells: cells@ },
                old(self)@,
                name@,
                exprs_view(left@),
                exprs_view(right@),
                fuel as nat,
            ),
        decreases fuel, 1nat,
    {
        if fuel == 0 {
            return EvalOut::OutOfFuel;
        }
        let f = fuel - 1;
        let fi = find_fun_exec(funs, name).unwrap();
        let fun = &funs[fi];
        let o0 = self.stack.oxy_ptr();
        let mut frame: Vec<(String, VariableData)> = Vec::new();
        assert(frame_view(frame@) =~= Seq::<(Seq<char>, VarIx)>::empty());
        match self.bind_args(defs, funs, cells, &fun.left_args, left, 0, &mut frame, f) {
            BindOut::Bound => {},
            BindOut::OutOfFuel => {
                return EvalOut::OutOfFuel;
            },
            BindOut::Panic(m) => {
                return EvalOut::Panic(m);
            },
        }
        match self.bind_args(defs, funs, cells, &fun.right_args, right, 0, &mut frame, f) {
            BindOut::Bound => {},
            BindOut::OutOfFuel => {
                return EvalOut::OutOfFuel;
            },
            BindOut::Panic(m) => {
                return EvalOut::Panic(m);
            },
        }
        let ghost s2 = self@;
        let ghost fr2 = frame_view(frame@);
        self.frames.push(frame);
        assert(self@.frames =~= s2.frames.push(fr2));
        let o = self.stack.oxy_ptr();
        let g = self.stack.gc_ptr();
        let r = self.interpret_statements(defs, funs, cells, &fun.body, 0, o, g, f);
        let out = match r {
            ExecOut::Returned(v) => Some(v),
            ExecOut::Normal => None,
            ExecOut::Exit => None,
            ExecOut::OutOfFuel => {
                return EvalOut::OutOfFuel;
            },
            ExecOut::Panic(m) => {
                return EvalOut::Panic(m);
            },
        };
        let ghost s4 = self@;
        let _ = self.frames.pop();
        assert(self@.frames =~= s4.frames.drop_last());
        let gp = self.stack.gc_ptr();
        self.stack.set_ptrs(o0, gp);
        EvalOut::Value(out)
    }

    /// Executes the statements `stmts` from the `k`-th on (see
    /// [`list_spec`]); at their end both stacks' fill levels go back to
    /// `oxy_ptr` and `gc_ptr`.
    pub fn interpret_statements(
        &mut self,
        defs: &[Struct],
        funs: &[Function],
        cells: &TypeCells,
        stmts: &Vec<StmtData>,
        k: usize,
        oxy_ptr: usize,
        gc_ptr: usize,
        fuel: u64,
    ) -> (r: ExecOut)
        requires
            old(self).wf(),
            oxy_ptr <= STACK_SIZE,
            gc_ptr <= STACK_SIZE,
            !(list_spec(
                Prog { defs: defs@, funs: funs@, cells: cells@ },
                old(self)@,
                stmts_view(stmts@),
                k as int,
                oxy_ptr as nat,
                gc_ptr as nat,
                fuel as nat,
            ) is Stuck),
        ensures
            final(self).wf(),
            ex_of(r, final(self)@) == list_spec(
                Prog { defs: defs@, funs: funs@, cells: cells@ },
                old(self)@,
                stmts_view(stmts@),
                k as int,
                oxy_ptr as nat,
                gc_ptr as nat,
                fuel as nat,
            ),
        decreases fuel, stmts@.len() - k + 2,
    {
        proof {
            lemma_stmts_view_index(stmts@);
        }
        if k >= stmts.len() {
            self.stack.set_ptrs(oxy_ptr, gc_ptr);
            return ExecOut::Normal;
        }
        match self.execute_statement(defs, funs, cells, &stmts[k], fuel) {
            ExecOut::Normal => self.interpret_statements(defs, funs, cells, stmts, k + 1, oxy_ptr, gc_ptr, fuel),
            ExecOut::Exit => ExecOut::Normal,
            other => other,
        }
    }

    /// Executes `body` in a scope of its own (see [`block_exec_spec`]).
    fn execute_block(&mut self, defs: &[Struct], funs: &[Function], cells: &TypeCells, body: &Vec<StmtData>, fuel: u64) -> (r: ExecOut)
        requires
            old(self).wf(),
            !(block_exec_spec(Prog { defs: defs@, funs: funs@, cells: cells@ }, old(self)@, stmts_view(body@), fuel as nat) is Stuck),
        ensures
            final(self).wf(),
            ex_of(r, final(self)@) == block_exec_spec(
                Prog { defs: defs@, funs: funs@, cells: cells@ },
                old(self)@,
                stmts_view(body@),
                fuel as nat,
            ),
        decreases fuel, 1nat,
    {
        if fuel == 0 {
            return ExecOut::OutOfFuel;
        }
        let n = self.frames[self.frames.len() - 1].len();
        assert(self@.frames.last() == frame_view(self.frames@.last()@));
        let o = self.stack.oxy_ptr();
        let g = self.stack.gc_ptr();
        let r = self.interpret_statements(defs, funs, cells, body, 0, o, g, fuel - 1);
        match r {
            ExecOut::Normal => {
                self.keep_vars_exec(n);
                ExecOut::Normal
            },
            ExecOut::Returned(v) => {
                self.keep_vars_exec(n);
                ExecOut::Returned(v)
            },
            other => other,
        }
    }

    /// Evaluates the condition `c` to a boolean (see [`cond_spec`]).
    fn evaluate_condition(&mut self, defs: &[Struct], funs: &[Function], cells: &TypeCells, c: &Expression, fuel: u64) -> (r: CondOut)
        requires
            old(self).wf(),
            !(cond_spec(Prog { defs: defs@, funs: funs@, cells: cells@ }, old(self)@, c@, fuel as nat) is Stuck),
        ensures
            final(self).wf(),
            cond_of(r, final(self)@) == cond_spec(Prog { defs: defs@, funs: funs@, cells: cells@ }, old(self)@, c@, fuel as nat),
        decreases fuel, 1nat,
    {
        match self.evaluate_expression(defs, funs, cells, c, fuel) {
            EvalOut::Value(Some(v)) => match self.stack.get_expr_from_variable_data(&v) {
                Literal::BooleanLiteral(b) => CondOut::Is(b),
                _ => vstd::pervasive::unreached(),
            },
            EvalOut::Value(None) => vstd::pervasive::unreached(),
            EvalOut::OutOfFuel => CondOut::OutOfFuel,
            EvalOut::Panic(m) => CondOut::Panic(m),
        }
    }

    /// Runs a while loop (see [`while_exec_spec`]).
    fn execute_while(
        &mut self,
        defs: &[Struct],
        funs: &[Function],
        cells: &TypeCells,
        cond: &Expression,
        body: &Vec<StmtData>,
        fuel: u64,
    ) -> (r: ExecOut)
        requires
            old(self).wf(),
            !(while_exec_spec(Prog { defs: defs@, funs: funs@, cells: cells@ }, old(self)@, cond@, stmts_view(body@), fuel as nat) is Stuck),
        ensures
            final(self).wf(),
            ex_of(r, final(self)@) == while_exec_spec(
                Prog { defs: defs@, funs: funs@, cells: cells@ },
                old(self)@,
                cond@,
                stmts_view(body@),
                fuel as nat,
            ),
        decreases fuel, 0nat,
    {
        if fuel == 0 {
            return ExecOut::OutOfFuel;
        }
        let f = fuel - 1;
        match self.evaluate_condition(defs, funs, cells, cond, f) {
            CondOut::Is(false) => ExecOut::Normal,
            CondOut::Is(true) => match self.execute_block(defs, funs, cells, body, f) {
                ExecOut::Normal => self.execute_while(defs, funs, cells, cond, body, f),
                other => other,
            },
            CondOut::OutOfFuel => ExecOut::OutOfFuel,
            CondOut::Panic(m) => ExecOut::Panic(m),
        }
    }

    /// Runs a chain of conditions from the `k`-th (see
    /// [`chain_exec_spec`]).
    fn execute_chain(
        &mut self,
        defs: &[Struct],
        funs: &[Function],
        cells: &TypeCells,
        conds: &Vec<Expression>,
        bodies: &Vec<Vec<StmtData>>,
        k: usize,
        fuel: u64,
    ) -> (r: ExecOut)
        requires
            old(self).wf(),
            !(chain_exec_spec(
                Prog { defs: defs@, funs: funs@, cells: cells@ },
                old(self)@,
                exprs_view(conds@),
                bodies_view(bodies@),
                k as int,
                fuel as nat,
            ) is Stuck),
        ensures
            final(self).wf(),
            ex_of(r, final(self)@) == chain_exec_spec(
                Prog { defs: defs@, funs: funs@, cells: cells@ },
                old(self)@,
                exprs_view(conds@),
                bodies_view(bodies@),
                k as int,
                fuel as nat,
            ),
        decreases fuel, conds@.len() - k + 2,
    {
        proof {
            lemma_exprs_view(conds@);
            lemma_bodies_view_index(bodies@);
        }
        if k == conds.len() {
            if bodies.len() > conds.len() {
                return self.execute_block(defs, funs, cells, &bodies[bodies.len() - 1], fuel);
            } else {
                return ExecOut::Normal;
            }
        }
        match self.evaluate_condition(defs, funs, cells, &conds[k], fuel) {
            CondOut::Is(true) => self.execute_block(defs, funs, cells, &bodies[k], fuel),
            CondOut::Is(false) => self.execute_chain(defs, funs, cells, conds, bodies, k + 1, fuel),
            CondOut::OutOfFuel => ExecOut::OutOfFuel,
            CondOut::Panic(m) => ExecOut::Panic(m),
        }
    }

    /// Executes the statement `s` (see [`stmt_exec_spec`]).
    fn execute_statement(&mut self, defs: &[Struct], funs: &[Function], cells: &TypeCells, s: &StmtData, fuel: u64) -> (r: ExecOut)
        requires
            old(self).wf(),
            !(stmt_exec_spec(Prog { defs: defs@, funs: funs@, cells: cells@ }, old(self)@, crate::parser::stmt_grammar::stmt_view(*s), fuel as nat)
                is Stuck),
        ensures
            final(self).wf(),
            ex_of(r, final(self)@) == stmt_exec_spec(
                Prog { defs: defs@, funs: funs@, cells: cells@ },
                old(self)@,
                crate::parser::stmt_grammar::stmt_view(*s),
                fuel as nat,
            ),
        decreases fuel, 0nat,
    {
        if fuel == 0 {
            return ExecOut::OutOfFuel;
        }
        let f = fuel - 1;
        match &s.stmt {
            Statement::Compound(body) => self.execute_block(defs, funs, cells, body, f),
            Statement::While { cond, body } => self.execute_while(defs, funs, cells, cond, body, f),
            Statement::Conditional { conds, bodies } => self.execute_chain(defs, funs, cells, conds, bodies, 0, f),
            Statement::Return(None) => ExecOut::Exit,
            Statement::Return(Some(e)) => match self.evaluate_expression(defs, funs, cells, e, f) {
                EvalOut::Value(Some(v)) => ExecOut::Returned(v),
                EvalOut::Value(None) => vstd::pervasive::unreached(),
                EvalOut::OutOfFuel => ExecOut::OutOfFuel,
                EvalOut::Panic(m) => ExecOut::Panic(m),
            },
            Statement::Declare(name, loc, cons) => {
                let t = cons.clone_inner(cells);
                self.push_variable(s.line, defs, name, t, *loc);
                ExecOut::Normal
            },
            Statement::Assign { variable, assign } => match &*variable.expr_data {
                ExpressionData::Identifier(name) => match self.evaluate_expression(defs, funs, cells, assign, f) {
                    EvalOut::Value(Some(v)) => {
                        let lit = self.stack.get_expr_from_variable_data(&v);
                        let bytes = crate::interpreter::to_interpreter_bytes(&lit, &v.expr_type).unwrap();
                        self.write_variable(name, bytes.as_slice());
                        ExecOut::Normal
                    },
                    EvalOut::Value(None) => vstd::pervasive::unreached(),
                    EvalOut::OutOfFuel => ExecOut::OutOfFuel,
                    EvalOut::Panic(m) => ExecOut::Panic(m),
                },
                _ => vstd::pervasive::unreached(),
            },
            Statement::Expr(e) => match self.evaluate_expression(defs, funs, cells, e, f) {
                EvalOut::Value(_) => ExecOut::Normal,
                EvalOut::OutOfFuel => ExecOut::OutOfFuel,
                EvalOut::Panic(m) => ExecOut::Panic(m),
            },
        }
    }
}

/// In a chain of conditions, a condition that is false passes the run on
/// to the next condition, from the state its evaluation left.
pub proof fn lemma_chain_false_condition_moves_on(
    p: Prog,
    st: RunView,
    conds: Seq<ExprView>,
    bodies: Seq<Seq<StmtDataView>>,
    k: int,
    fuel: nat,
    s1: RunView,
)
    requires
        0 <= k < conds.len(),
        k < bodies.len(),
        cond_spec(p, st, conds[k], fuel) == CondEnd::Is(false, s1),
    ensures
        chain_exec_spec(p, st, conds, bodies, k, fuel) == chain_exec_spec(p, s1, conds, bodies, k + 1, fuel),
{
}

/// In a chain of conditions, the first condition that holds selects its
/// own body, run from the state its evaluation left.
pub proof fn lemma_chain_true_condition_runs_its_body(
    p: Prog,
    st: RunView,
    conds: Seq<ExprView>,
    bodies: Seq<Seq<StmtDataView>>,
    k: int,
    fuel: nat,
    s1: RunView,
)
    requires
        0 <= k < conds.len(),
        k < bodies.len(),
        cond_spec(p, st, conds[k], fuel) == CondEnd::Is(true, s1),
    ensures
        chain_exec_spec(p, st, conds, bodies, k, fuel) == block_exec_spec(p, s1, bodies[k], fuel),
{
}

/// The `else` body of a chain runs only once every condition has been
/// found false: from the `k`-th condition on, where each of them evaluates
/// to false in turn (the states `states[j]` before the `j`-th), the chain
/// ends as the `else` body run from the last state does, or unchanged
/// where there is no `else`.
pub proof fn lemma_chain_else_runs_when_all_fail(
    p: Prog,
    conds: Seq<ExprView>,
    bodies: Seq<Seq<StmtDataView>>,
    fuel: nat,
    states: Seq<RunView>,
    k: int,
)
    requires
        0 <= k <= conds.len(),
        states.len() == conds.len() + 1,
        bodies.len() >= conds.len(),
        forall|j: int| k <= j < conds.len() ==> #[trigger] cond_spec(p, states[j], conds[j], fuel) == CondEnd::Is(false, states[j + 1]),
    ensures
        chain_exec_spec(p, states[k], conds, bodies, k, fuel) == (if bodies.len() > conds.len() {
            block_exec_spec(p, states[conds.len() as int], bodies.last(), fuel)
        } else {
            Ex::Normal(states[conds.len() as int])
        }),
    decreases conds.len() - k,
{
    if k < conds.len() {
        assert(cond_spec(p, states[k], conds[k], fuel) == CondEnd::Is(false, states[k + 1]));
        lemma_chain_else_runs_when_all_fail(p, conds, bodies, fuel, states, k + 1);
    }
}

} // verus!
