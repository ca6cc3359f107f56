//! The interpreter's memory: two stacks of bytes on which values are laid
//! out, and how values are turned into bytes and back.
pub mod bin_op;
pub mod run;
pub mod un_op;

use vstd::prelude::*;
use crate::parser::expr::{arch_size, type_size, ExprType, Literal, TypeView};
use vstd::arithmetic::div_mod::lemma_fundamental_div_mod_converse;
use crate::parser::stmt::StackLocation;
use crate::parser::structs::Struct;

verus! {

/// Where a value starts: an offset into one of the two stacks.
#[derive(Clone, Copy, Debug, PartialEq, Eq, Structural)]
pub enum StackIndex {
    GC(usize),
    Oxy(usize),
}

/// The offset of a stack index.
pub open spec fn offset_of(i: StackIndex) -> int {
    match i {
        StackIndex::GC(x) => x as int,
        StackIndex::Oxy(x) => x as int,
    }
}

impl StackIndex {
    /// The offset `rhs` bytes further on the same stack.
    pub fn plus(self, rhs: usize) -> (r: StackIndex)
        requires
            offset_of(self) + rhs <= usize::MAX,
        ensures
            offset_of(r) == offset_of(self) + rhs,
            (r is GC) == (self is GC),
    {
        match self {
            StackIndex::GC(index) => StackIndex::GC(index + rhs),
            StackIndex::Oxy(index) => StackIndex::Oxy(index + rhs),
        }
    }
}

/// A value on a stack: where it starts and its type.
#[derive(Debug)]
pub struct VariableData {
    pub index: StackIndex,
    pub expr_type: ExprType,
}

/// The size in bytes of each stack.
pub const STACK_SIZE: usize = 1024;

/// The two stacks and how far each is filled.
pub struct Stack {
    oxy_stack: Vec<u8>,
    oxy_stack_ptr: usize,
    gc_stack: Vec<u8>,
    gc_stack_ptr: usize,
}

/// The mathematical value of a [`Stack`].
pub struct StackView {
    pub oxy: Seq<u8>,
    pub oxy_ptr: nat,
    pub gc: Seq<u8>,
    pub gc_ptr: nat,
}

impl View for Stack {
    type V = StackView;

    closed spec fn view(&self) -> StackView {
        StackView {
            oxy: self.oxy_stack@,
            oxy_ptr: self.oxy_stack_ptr as nat,
            gc: self.gc_stack@,
            gc_ptr: self.gc_stack_ptr as nat,
        }
    }
}

/// The bytes of the stack that `index` points into.
pub open spec fn stack_of(s: StackView, index: StackIndex) -> Seq<u8> {
    match index {
        StackIndex::GC(_) => s.gc,
        StackIndex::Oxy(_) => s.oxy,
    }
}

/// How far the stack that `loc` names is filled.
pub open spec fn ptr_of(s: StackView, loc: StackLocation) -> nat {
    match loc {
        StackLocation::GC => s.gc_ptr,
        StackLocation::Oxy => s.oxy_ptr,
    }
}

/// `p` moved up to the next multiple of `size`.
pub open spec fn align_up(p: nat, size: nat) -> nat {
    p + (((size - p % size) as int) % (size as int)) as nat
}

impl Stack {
    /// Both stacks well formed: each holds its size in bytes and is filled
    /// no further than that.
    pub open spec fn wf(&self) -> bool {
        &&& self@.oxy.len() == STACK_SIZE
        &&& self@.gc.len() == STACK_SIZE
        &&& self@.oxy_ptr <= STACK_SIZE
        &&& self@.gc_ptr <= STACK_SIZE
    }

    /// Two empty stacks of zero bytes.
    pub fn new() -> (r: Stack)
        ensures
            r.wf(),
            r@.oxy_ptr == 0,
            r@.gc_ptr == 0,
            r@.oxy == Seq::new(STACK_SIZE as nat, |i: int| 0u8),
            r@.gc == Seq::new(STACK_SIZE as nat, |i: int| 0u8),
    {
        let mut oxy_stack: Vec<u8> = Vec::new();
        let mut gc_stack: Vec<u8> = Vec::new();
        let mut k: usize = 0;
        while k < STACK_SIZE
            invariant
                k <= STACK_SIZE,
                oxy_stack@.len() == k,
                gc_stack@.len() == k,
                forall|i: int| 0 <= i < k ==> #[trigger] oxy_stack@[i] == 0u8 && gc_stack@[i] == 0u8,
            decreases STACK_SIZE - k,
        {
            oxy_stack.push(0);
            gc_stack.push(0);
            k += 1;
        }
        let r = Stack { oxy_stack, oxy_stack_ptr: 0, gc_stack, gc_stack_ptr: 0 };
        assert(r@.oxy =~= Seq::new(STACK_SIZE as nat, |i: int| 0u8));
        assert(r@.gc =~= Seq::new(STACK_SIZE as nat, |i: int| 0u8));
        r
    }

    /// Places a value of type `expr_type` on the stack `stack_location`:
    /// its offset is the fill level moved up to a multiple of its size, its
    /// bytes are zeroed, and the fill level moves past it.
    pub fn stack_alloc(
        &mut self,
        line: usize,
        defs: &[Struct],
        expr_type: ExprType,
        stack_location: StackLocation,
    ) -> (r: VariableData)
        requires
            old(self).wf(),
            type_size(expr_type@, defs@) matches Some(n) && n > 0 && align_up(
                ptr_of(old(self)@, stack_location),
                n,
            ) + n <= STACK_SIZE,
            crate::parser::expr::is_real_view(expr_type@),
        ensures
            final(self).wf(),
            ({
                let n = type_size(expr_type@, defs@)->0;
                let start = align_up(ptr_of(old(self)@, stack_location), n);
                &&& r.expr_type@ == expr_type@
                &&& offset_of(r.index) == start
                &&& (r.index is GC) == (stack_location is GC)
                &&& ptr_of(final(self)@, stack_location) == start + n
                &&& stack_of(final(self)@, r.index) == stack_of(old(self)@, r.index).subrange(0, start as int)
                    + Seq::new(n, |i: int| 0u8) + stack_of(old(self)@, r.index).subrange(
                    (start + n) as int,
                    STACK_SIZE as int,
                )
                &&& match stack_location {
                    StackLocation::GC => final(self)@.oxy == old(self)@.oxy && final(self)@.oxy_ptr == old(self)@.oxy_ptr,
                    StackLocation::Oxy => final(self)@.gc == old(self)@.gc && final(self)@.gc_ptr == old(self)@.gc_ptr,
                }
            }),
    {
        let type_size = expr_type.size_of(defs);
        let ghost n = type_size as nat;
        match stack_location {
            StackLocation::GC => {
                let ptr = self.gc_stack_ptr + (type_size - (self.gc_stack_ptr % type_size)) % type_size;
                let ghost before = self.gc_stack@;
                zero_bytes(&mut self.gc_stack, ptr, type_size);
                self.gc_stack_ptr = ptr + type_size;
                let r = VariableData { index: StackIndex::GC(ptr), expr_type };
                assert(self.gc_stack@ =~= before.subrange(0, ptr as int) + Seq::new(n, |i: int| 0u8) + before.subrange(
                    (ptr + n) as int,
                    STACK_SIZE as int,
                ));
                r
            },
            StackLocation::Oxy => {
                let ptr = self.oxy_stack_ptr + (type_size - (self.oxy_stack_ptr % type_size)) % type_size;
                let ghost before = self.oxy_stack@;
                zero_bytes(&mut self.oxy_stack, ptr, type_size);
                self.oxy_stack_ptr = ptr + type_size;
                let r = VariableData { index: StackIndex::Oxy(ptr), expr_type };
                assert(self.oxy_stack@ =~= before.subrange(0, ptr as int) + Seq::new(n, |i: int| 0u8) + before.subrange(
                    (ptr + n) as int,
                    STACK_SIZE as int,
                ));
                r
            },
        }
    }

    /// Writes `bytes` where `variable_data` starts.
    pub fn stack_write(&mut self, variable_data: &VariableData, bytes: &[u8])
        requires
            old(self).wf(),
            offset_of(variable_data.index) + bytes@.len() <= STACK_SIZE,
        ensures
            final(self).wf(),
            ({
                let i = offset_of(variable_data.index) as int;
                let s = stack_of(old(self)@, variable_data.index);
                stack_of(final(self)@, variable_data.index) == s.subrange(0, i) + bytes@ + s.subrange(
                    i + bytes@.len(),
                    STACK_SIZE as int,
                )
            }),
            variable_data.index is GC ==> final(self)@.oxy == old(self)@.oxy,
            variable_data.index is Oxy ==> final(self)@.gc == old(self)@.gc,
            final(self)@.oxy_ptr == old(self)@.oxy_ptr,
            final(self)@.gc_ptr == old(self)@.gc_ptr,
    {
        let start = variable_data.index.offset();
        match variable_data.index {
            StackIndex::GC(_) => write_bytes(&mut self.gc_stack, start, bytes),
            StackIndex::Oxy(_) => write_bytes(&mut self.oxy_stack, start, bytes),
        }
    }

    /// How far the oxy stack is filled.
    pub fn oxy_ptr(&self) -> (r: usize)
        ensures
            r == self@.oxy_ptr,
    {
        self.oxy_stack_ptr
    }

    /// How far the gc stack is filled.
    pub fn gc_ptr(&self) -> (r: usize)
        ensures
            r == self@.gc_ptr,
    {
        self.gc_stack_ptr
    }

    /// Sets how far each stack is filled, as when the values above are
    /// released.
    pub fn set_ptrs(&mut self, oxy_ptr: usize, gc_ptr: usize)
        requires
            old(self).wf(),
            oxy_ptr <= STACK_SIZE,
            gc_ptr <= STACK_SIZE,
        ensures
            final(self).wf(),
            final(self)@ == (StackView { oxy: old(self)@.oxy, oxy_ptr: oxy_ptr as nat, gc: old(self)@.gc, gc_ptr: gc_ptr as nat }),
    {
        self.oxy_stack_ptr = oxy_ptr;
        self.gc_stack_ptr = gc_ptr;
    }

    /// The `size` bytes from where `index` points.
    pub fn get_bytes_from_index(&self, index: StackIndex, size: usize) -> (r: Vec<u8>)
        requires
            self.wf(),
            offset_of(index) + size <= STACK_SIZE,
        ensures
            r@ == stack_of(self@, index).subrange(offset_of(index) as int, offset_of(index) + size),
    {
        let start = index.offset();
        let mut out: Vec<u8> = Vec::new();
        let mut k: usize = 0;
        while k < size
            invariant
                start == offset_of(index),
                start + size <= STACK_SIZE,
                self.wf(),
                k <= size,
                out@.len() == k,
                forall|i: int| 0 <= i < k ==> #[trigger] out@[i] == stack_of(self@, index)[start + i],
            decreases size - k,
        {
            let b = match index {
                StackIndex::GC(_) => self.gc_stack[start + k],
                StackIndex::Oxy(_) => self.oxy_stack[start + k],
            };
            out.push(b);
            k += 1;
        }
        assert(out@ =~= stack_of(self@, index).subrange(offset_of(index) as int, offset_of(index) + size));
        out
    }
}

impl StackIndex {
    /// The offset into its stack.
    pub fn offset(self) -> (r: usize)
        ensures
            r == offset_of(self),
    {
        match self {
            StackIndex::GC(i) => i,
            StackIndex::Oxy(i) => i,
        }
    }
}

/// Sets the `n` bytes of `v` from `start` to zero.
fn zero_bytes(v: &mut Vec<u8>, start: usize, n: usize)
    requires
        start + n <= old(v)@.len(),
    ensures
        final(v)@ == old(v)@.subrange(0, start as int) + Seq::new(n as nat, |i: int| 0u8) + old(v)@.subrange(
            start + n,
            old(v)@.len() as int,
        ),
{
    let ghost before = v@;
    let len = v.len();
    let mut k: usize = 0;
    while k < n
        invariant
            len == before.len(),
            start + n <= before.len(),
            k <= n,
            v@.len() == before.len(),
            forall|i: int| 0 <= i < start ==> #[trigger] v@[i] == before[i],
            forall|i: int| start + k <= i < before.len() ==> #[trigger] v@[i] == before[i],
            forall|i: int| start <= i < start + k ==> #[trigger] v@[i] == 0u8,
        decreases n - k,
    {
        v.set(start + k, 0);
        k += 1;
    }
    assert(v@ =~= before.subrange(0, start as int) + Seq::new(n as nat, |i: int| 0u8) + before.subrange(
        start + n,
        before.len() as int,
    ));
}

/// Writes `bytes` into `v` from `start`.
fn write_bytes(v: &mut Vec<u8>, start: usize, bytes: &[u8])
    requires
        start + bytes@.len() <= old(v)@.len(),
    ensures
        final(v)@ == old(v)@.subrange(0, start as int) + bytes@ + old(v)@.subrange(
            start + bytes@.len(),
            old(v)@.len() as int,
        ),
{
    let ghost before = v@;
    let n = v.len();
    let mut k: usize = 0;
    while k < bytes.len()
        invariant
            n == before.len(),
            start + bytes@.len() <= before.len(),
            k <= bytes@.len(),
            v@.len() == before.len(),
            forall|i: int| 0 <= i < start ==> #[trigger] v@[i] == before[i],
            forall|i: int| start + k <= i < before.len() ==> #[trigger] v@[i] == before[i],
            forall|i: int| start <= i < start + k ==> #[trigger] v@[i] == bytes@[i - start],
        decreases bytes@.len() - k,
    {
        v.set(start + k, bytes[k]);
        k += 1;
    }
    assert(v@ =~= before.subrange(0, start as int) + bytes@ + before.subrange(
        start + bytes@.len(),
        before.len() as int,
    ));
}

/// What is read where `bytes` were just written is `bytes`.
pub proof fn lemma_read_after_write(before: Seq<u8>, i: int, bytes: Seq<u8>)
    requires
        0 <= i,
        i + bytes.len() <= before.len(),
    ensures
        (before.subrange(0, i) + bytes + before.subrange(i + bytes.len(), before.len() as int)).subrange(
            i,
            i + bytes.len(),
        ) == bytes,
{
    assert((before.subrange(0, i) + bytes + before.subrange(i + bytes.len(), before.len() as int)).subrange(
        i,
        i + bytes.len(),
    ) =~= bytes);
}

// How values are laid out in bytes.

/// 256 to the power `n`: how many values `n` bytes can hold.
pub open spec fn pow256(n: nat) -> int
    decreases n,
{
    if n == 0 {
        1
    } else {
        256 * pow256((n - 1) as nat)
    }
}

/// The `n` low bytes of `x` in two's complement, least significant first.
pub open spec fn le_bytes(x: int, n: nat) -> Seq<u8>
    decreases n,
{
    if n == 0 {
        Seq::empty()
    } else {
        seq![(x % 256) as u8] + le_bytes(x / 256, (n - 1) as nat)
    }
}

/// The unsigned number that `b` holds, least significant byte first.
pub open spec fn le_value(b: Seq<u8>) -> int
    decreases b.len(),
{
    if b.len() == 0 {
        0
    } else {
        b[0] as int + 256 * le_value(b.subrange(1, b.len() as int))
    }
}

/// The number that `b` holds, read as two's complement where `signed`.
pub open spec fn int_from_bytes(b: Seq<u8>, signed: bool) -> int {
    let u = le_value(b);
    if signed && b.len() > 0 && u >= pow256(b.len()) / 2 {
        u - pow256(b.len())
    } else {
        u
    }
}

/// How many bytes a value of the integer type `t` is written in, for the
/// integer types whose literals are written out.
pub open spec fn int_width(t: TypeView) -> Option<nat> {
    match t {
        TypeView::I8 | TypeView::U8 => Some(1),
        TypeView::I16 | TypeView::U16 => Some(2),
        TypeView::I32 | TypeView::U32 => Some(4),
        TypeView::I64 | TypeView::U64 => Some(8),
        TypeView::I128 | TypeView::U128 => Some(16),
        _ => None,
    }
}

/// The bytes that a literal of type `t` is written as, or `None` where the
/// literal and the type do not go together.
pub open spec fn literal_bytes(l: Literal, t: TypeView) -> Option<Seq<u8>> {
    match l {
        Literal::BooleanLiteral(b) => if t is Bool {
            Some(seq![if b { 1u8 } else { 0u8 }])
        } else {
            None
        },
        Literal::IntegerLiteral(v) => match int_width(t) {
            Some(n) => Some(le_bytes(v as int, n)),
            None => None,
        },
        _ => None,
    }
}

/// The pairs of a literal and a type whose bytes depend on more than the
/// two, which this library does not turn into bytes: a float (floating
/// point is not supported here), a character (whose encoding fails) or a
/// string (written as its address).
pub open spec fn bytes_outside(l: Literal, t: TypeView) -> bool {
    ||| (l is FloatLiteral && (t is F32 || t is F64))
    ||| (l is CharLiteral && t is Char)
    ||| (l is StringLiteral && t is StringLiteral)
}

/// Turns a literal of type `expr_type` into the bytes that the stacks hold
/// for it; `None` where the literal and the type do not go together.
pub fn to_interpreter_bytes(literal: &Literal, expr_type: &ExprType) -> (r: Option<Vec<u8>>)
    requires
        !bytes_outside(*literal, expr_type@),
    ensures
        match r {
            Some(v) => literal_bytes(*literal, expr_type@) == Some(v@),
            None => literal_bytes(*literal, expr_type@) is None,
        },
{
    match literal {
        Literal::BooleanLiteral(b) => match expr_type {
            ExprType::Bool => {
                let mut v: Vec<u8> = Vec::new();
                v.push(if *b { 1u8 } else { 0u8 });
                assert(v@ =~= seq![if *b { 1u8 } else { 0u8 }]);
                Some(v)
            },
            _ => None,
        },
        Literal::IntegerLiteral(value) => {
            let n: usize = match expr_type {
                ExprType::I8 | ExprType::U8 => 1,
                ExprType::I16 | ExprType::U16 => 2,
                ExprType::I32 | ExprType::U32 => 4,
                ExprType::I64 | ExprType::U64 => 8,
                ExprType::I128 | ExprType::U128 => 16,
                _ => {
                    return None;
                },
            };
            Some(int_to_le_bytes(*value, n))
        },
        _ => None,
    }
}

/// `pow256(n)` grows with `n`.
proof fn lemma_pow256_mono(a: nat, b: nat)
    requires
        a <= b,
    ensures
        1 <= pow256(a) <= pow256(b),
    decreases b,
{
    if b > a {
        lemma_pow256_mono(a, (b - 1) as nat);
    } else if a > 0 {
        lemma_pow256_mono((a - 1) as nat, (a - 1) as nat);
    }
}

/// 256 to the sixteenth is one more than the largest `u128`.
proof fn lemma_pow256_16()
    ensures
        pow256(16) == u128::MAX + 1,
        pow256(8) == 0x1_0000_0000_0000_0000,
{
    reveal_with_fuel(pow256, 17);
}

/// Adding a multiple of `pow256(k)` leaves the `n <= k` low bytes alone.
proof fn lemma_le_bytes_shift(x: int, m: int, k: nat, n: nat)
    requires
        n <= k,
    ensures
        le_bytes(x + pow256(k) * m, n) == le_bytes(x, n),
    decreases n,
{
    if n > 0 {
        let q = x / 256;
        let r = x % 256;
        let p = pow256((k - 1) as nat);
        assert(x == q * 256 + r) by {
            vstd::arithmetic::div_mod::lemma_fundamental_div_mod(x, 256);
        }
        assert(x + pow256(k) * m == (q + p * m) * 256 + r) by (nonlinear_arith)
            requires
                x == q * 256 + r,
                pow256(k) == 256 * p,
        ;
        lemma_fundamental_div_mod_converse(x + pow256(k) * m, 256, q + p * m, r);
        lemma_le_bytes_shift(q, m, (k - 1) as nat, (n - 1) as nat);
    }
}

/// Writes the `n` low bytes of `value` in two's complement, least
/// significant first.
fn int_to_le_bytes(value: i128, n: usize) -> (r: Vec<u8>)
    requires
        n <= 16,
    ensures
        r@ == le_bytes(value as int, n as nat),
{
    proof {
        lemma_pow256_16();
    }
    let mut x: u128 = if value >= 0 {
        value as u128
    } else {
        u128::MAX - ((-(value + 1)) as u128)
    };
    proof {
        let m: int = if value >= 0 { 0 } else { 1 };
        assert(x == value + pow256(16) * m);
        lemma_le_bytes_shift(value as int, m, 16, n as nat);
    }
    let ghost x0 = x;
    let mut out: Vec<u8> = Vec::new();
    let mut k: usize = 0;
    while k < n
        invariant
            k <= n,
            le_bytes(x0 as int, n as nat) == out@ + le_bytes(x as int, (n - k) as nat),
        decreases n - k,
    {
        let b = (x % 256) as u8;
        assert(le_bytes(x as int, (n - k) as nat) == seq![b] + le_bytes((x / 256) as int, (n - k - 1) as nat));
        out.push(b);
        x = x / 256;
        k += 1;
        assert(le_bytes(x0 as int, n as nat) == out@ + le_bytes(x as int, (n - k) as nat));
    }
    assert(out@ == out@ + le_bytes(x as int, 0));
    out
}

/// A number read from bytes is below 256 to the power of their count.
proof fn lemma_le_value_bound(b: Seq<u8>)
    ensures
        0 <= le_value(b) < pow256(b.len()),
    decreases b.len(),
{
    if b.len() > 0 {
        let rest = b.subrange(1, b.len() as int);
        lemma_le_value_bound(rest);
        assert(rest.len() == b.len() - 1);
    }
}

/// Reading back the `n` low bytes of `x` gives `x` modulo 256 to the `n`.
proof fn lemma_le_value_of_bytes(x: int, n: nat)
    ensures
        le_bytes(x, n).len() == n,
        le_value(le_bytes(x, n)) == x % pow256(n),
    decreases n,
{
    if n == 0 {
        assert(x % 1 == 0) by {
            lemma_fundamental_div_mod_converse(x, 1, x, 0);
        }
    } else {
        let q = x / 256;
        let r = x % 256;
        lemma_le_value_of_bytes(q, (n - 1) as nat);
        let p = pow256((n - 1) as nat);
        lemma_pow256_mono(0, (n - 1) as nat);
        let s = q % p;
        let t = q / p;
        assert(x == q * 256 + r) by {
            vstd::arithmetic::div_mod::lemma_fundamental_div_mod(x, 256);
        }
        assert(q == t * p + s) by {
            vstd::arithmetic::div_mod::lemma_fundamental_div_mod(q, p);
        }
        assert(0 <= s < p && 0 <= r < 256) by {
            vstd::arithmetic::div_mod::lemma_mod_bound(q, p);
            vstd::arithmetic::div_mod::lemma_mod_bound(x, 256);
        }
        let b = le_bytes(x, n);
        assert(b.subrange(1, b.len() as int) =~= le_bytes(q, (n - 1) as nat));
        assert(x == t * pow256(n) + (256 * s + r) && 0 <= 256 * s + r < pow256(n)) by (nonlinear_arith)
            requires
                x == q * 256 + r,
                q == t * p + s,
                pow256(n) == 256 * p,
                0 <= s < p,
                0 <= r < 256,
        ;
        lemma_fundamental_div_mod_converse(x, pow256(n), t, 256 * s + r);
    }
}

/// Writing out the number that bytes hold gives the same bytes.
proof fn lemma_le_bytes_of_value(b: Seq<u8>)
    ensures
        le_bytes(le_value(b), b.len()) == b,
    decreases b.len(),
{
    if b.len() > 0 {
        let rest = b.subrange(1, b.len() as int);
        lemma_le_bytes_of_value(rest);
        lemma_le_value_bound(rest);
        let v = le_value(b);
        lemma_fundamental_div_mod_converse(v, 256, le_value(rest), b[0] as int);
        assert(le_bytes(v, b.len()) =~= b);
    }
}

/// Reading the bytes of `v` back gives `v`, for every `v` that the bytes
/// can hold: from `-pow256(n) / 2` where `signed`, from `0` otherwise.
proof fn lemma_int_roundtrip(v: int, n: nat, signed: bool)
    requires
        n > 0,
        signed ==> -(pow256(n) / 2) <= v < pow256(n) / 2,
        !signed ==> 0 <= v < pow256(n),
    ensures
        int_from_bytes(le_bytes(v, n), signed) == v,
{
    lemma_le_value_of_bytes(v, n);
    lemma_pow256_mono(1, n);
    let p = pow256(n);
    assert(p == 256 * pow256((n - 1) as nat));
    if v >= 0 {
        lemma_fundamental_div_mod_converse(v, p, 0, v);
    } else {
        lemma_fundamental_div_mod_converse(v, p, -1, v + p);
    }
}

/// The largest number that `n` bytes hold.
fn max_unsigned(n: usize) -> (r: u128)
    requires
        n <= 16,
    ensures
        r == pow256(n as nat) - 1,
{
    proof {
        lemma_pow256_16();
    }
    let mut m: u128 = 0;
    let mut k: usize = 0;
    while k < n
        invariant
            k <= n <= 16,
            m == pow256(k as nat) - 1,
            pow256(16) == u128::MAX + 1,
        decreases n - k,
    {
        proof {
            lemma_pow256_mono((k + 1) as nat, 16);
        }
        m = m * 256 + 255;
        k += 1;
    }
    m
}

/// The unsigned number that `b` holds, least significant byte first.
fn le_bytes_value(b: &[u8]) -> (r: u128)
    requires
        b@.len() <= 16,
    ensures
        r == le_value(b@),
{
    proof {
        lemma_pow256_16();
    }
    let len = b.len();
    let mut acc: u128 = 0;
    let mut k: usize = len;
    while k > 0
        invariant
            k <= len == b@.len() <= 16,
            acc == le_value(b@.subrange(k as int, len as int)),
            pow256(16) == u128::MAX + 1,
        decreases k,
    {
        let ghost tail = b@.subrange(k as int, len as int);
        proof {
            lemma_le_value_bound(tail);
            lemma_pow256_mono((len - k + 1) as nat, 16);
            assert(pow256((len - k + 1) as nat) == 256 * pow256((len - k) as nat));
        }
        let ghost longer = b@.subrange(k - 1, len as int);
        assert(longer.subrange(1, longer.len() as int) =~= tail);
        acc = acc * 256 + b[k - 1] as u128;
        k -= 1;
    }
    assert(b@.subrange(0, len as int) =~= b@);
    acc
}

/// Whether a value of the integer type `t` is read back as two's
/// complement: the signed types, and `u128`, which is read into an `i128`.
pub open spec fn reads_signed(t: TypeView) -> bool {
    t is I8 || t is I16 || t is I32 || t is I64 || t is I128 || t is ISize || t is U128
}

/// How many bytes are read for a value of type `t`, for the types whose
/// values are read back as literals.
pub open spec fn read_width(t: TypeView) -> Option<nat> {
    match t {
        TypeView::ISize | TypeView::USize => Some(arch_size()),
        TypeView::Bool => Some(1),
        _ => int_width(t),
    }
}

/// The literal that the bytes `b` of a value of type `t` stand for.
pub open spec fn literal_of_bytes(b: Seq<u8>, t: TypeView) -> Literal {
    if t is Bool {
        Literal::BooleanLiteral(b[0] != 0)
    } else {
        Literal::IntegerLiteral(int_from_bytes(b, reads_signed(t)) as i128)
    }
}

/// Whether the literal `l` is among the values of type `t` that are read
/// back unchanged: a boolean, or an integer in the range of `t`.
pub open spec fn literal_fits(l: Literal, t: TypeView) -> bool {
    match l {
        Literal::BooleanLiteral(_) => true,
        Literal::IntegerLiteral(v) => {
            let n = int_width(t)->0;
            if reads_signed(t) {
                -(pow256(n) / 2) <= v < pow256(n) / 2
            } else {
                0 <= v < pow256(n)
            }
        },
        _ => false,
    }
}

/// The literal that `bytes`, the value of a `expr_type`, stand for.
pub fn literal_from_bytes(bytes: &[u8], expr_type: &ExprType) -> (r: Literal)
    requires
        read_width(expr_type@) == Some(bytes@.len()),
    ensures
        r == literal_of_bytes(bytes@, expr_type@),
{
    proof {
        broadcast use vstd::layout::layout_of_primitives;
        lemma_pow256_16();
        lemma_le_value_bound(bytes@);
        assert(arch_size() * 8 == usize::BITS);
        assert(bytes@.len() <= 16);
        lemma_pow256_mono(bytes@.len(), 16);
        if bytes@.len() <= 8 {
            lemma_pow256_mono(bytes@.len(), 8);
        }
    }
    let n = bytes.len();
    if let ExprType::Bool = expr_type {
        return Literal::BooleanLiteral(bytes[0] != 0);
    }
    let signed = match expr_type {
        ExprType::I8 | ExprType::I16 | ExprType::I32 | ExprType::I64 | ExprType::I128 | ExprType::ISize
        | ExprType::U128 => true,
        _ => false,
    };
    let u = le_bytes_value(bytes);
    let top = max_unsigned(n);
    if signed && n > 0 && u > top / 2 {
        proof {
            assert(pow256(n as nat) == 256 * pow256((n - 1) as nat));
        }
        let below = top - u;
        Literal::IntegerLiteral(-(below as i128) - 1)
    } else {
        proof {
            if n > 0 {
                assert(pow256(n as nat) == 256 * pow256((n - 1) as nat));
            }
        }
        Literal::IntegerLiteral(u as i128)
    }
}

/// A literal written out and read back as the same type is the same
/// literal, for every boolean and every integer that its type holds.
pub proof fn lemma_literal_roundtrip(l: Literal, t: TypeView)
    requires
        literal_bytes(l, t) is Some,
        literal_fits(l, t),
    ensures
        read_width(t) == Some(literal_bytes(l, t)->0.len()),
        literal_of_bytes(literal_bytes(l, t)->0, t) == l,
{
    match l {
        Literal::BooleanLiteral(b) => {},
        Literal::IntegerLiteral(v) => {
            let n = int_width(t)->0;
            lemma_le_value_of_bytes(v as int, n);
            lemma_int_roundtrip(v as int, n, reads_signed(t));
        },
        _ => {},
    }
}

/// Bytes of an integer type read as a literal and written out again are
/// the same bytes.
pub proof fn lemma_bytes_roundtrip(b: Seq<u8>, t: TypeView)
    requires
        int_width(t) == Some(b.len()),
    ensures
        literal_bytes(literal_of_bytes(b, t), t) == Some(b),
{
    lemma_pow256_16();
    lemma_le_value_bound(b);
    lemma_pow256_mono(b.len(), 16);
    lemma_le_bytes_of_value(b);
    let u = le_value(b);
    let v = int_from_bytes(b, reads_signed(t));
    if v != u {
        lemma_le_bytes_shift(v, 1, b.len(), b.len());
    }
    if !reads_signed(t) {
        lemma_pow256_mono(b.len(), 8);
    }
}

/// A type whose values are read back as literals has the size that is read.
proof fn lemma_read_width_size(t: TypeView, structs: Seq<Struct>)
    requires
        read_width(t) is Some,
    ensures
        type_size(t, structs) == read_width(t),
{
    assert(crate::parser::expr::size_spec(t, structs, 1) is Some);
}

/// How many bytes are read for a value of `expr_type` (see [`read_width`]).
fn read_width_of(expr_type: &ExprType) -> (r: usize)
    requires
        read_width(expr_type@) is Some,
    ensures
        r == read_width(expr_type@)->0,
{
    match expr_type {
        ExprType::ISize | ExprType::USize => core::mem::size_of::<usize>(),
        ExprType::Bool | ExprType::I8 | ExprType::U8 => 1,
        ExprType::I16 | ExprType::U16 => 2,
        ExprType::I32 | ExprType::U32 => 4,
        ExprType::I64 | ExprType::U64 => 8,
        _ => 16,
    }
}

impl Stack {
    /// The literal that the value at `variable_data` holds, for the integer
    /// types and `bool`.
    pub fn get_expr_from_variable_data(&self, variable_data: &VariableData) -> (r: Literal)
        requires
            self.wf(),
            read_width(variable_data.expr_type@) matches Some(n) && offset_of(variable_data.index) + n
                <= STACK_SIZE,
        ensures
            ({
                let i = offset_of(variable_data.index);
                let n = read_width(variable_data.expr_type@)->0;
                r == literal_of_bytes(
                    stack_of(self@, variable_data.index).subrange(i, i + n),
                    variable_data.expr_type@,
                )
            }),
    {
        let n = read_width_of(&variable_data.expr_type);
        let bytes = self.get_bytes_from_index(variable_data.index, n);
        literal_from_bytes(bytes.as_slice(), &variable_data.expr_type)
    }

    /// Evaluates a literal of type `expr_type`: places a value of that type
    /// on the oxy stack (see [`Stack::stack_alloc`]) and writes the
    /// literal's bytes into it.
    pub fn evaluate_literal(
        &mut self,
        line: usize,
        defs: &[Struct],
        literal: &Literal,
        expr_type: ExprType,
    ) -> (r: VariableData)
        requires
            old(self).wf(),
            literal_bytes(*literal, expr_type@) matches Some(b) && align_up(old(self)@.oxy_ptr, b.len())
                + b.len() <= STACK_SIZE,
        ensures
            final(self).wf(),
            ({
                let b = literal_bytes(*literal, expr_type@)->0;
                let start = align_up(old(self)@.oxy_ptr, b.len());
                &&& r.expr_type@ == expr_type@
                &&& r.index is Oxy
                &&& offset_of(r.index) == start
                &&& final(self)@.oxy_ptr == start + b.len()
                &&& final(self)@.oxy == old(self)@.oxy.subrange(0, start as int) + b + old(self)@.oxy.subrange(
                    (start + b.len()) as int,
                    STACK_SIZE as int,
                )
                &&& final(self)@.gc == old(self)@.gc
                &&& final(self)@.gc_ptr == old(self)@.gc_ptr
            }),
    {
        let ghost b = literal_bytes(*literal, expr_type@)->0;
        proof {
            match *literal {
                Literal::IntegerLiteral(v) => lemma_le_value_of_bytes(v as int, int_width(expr_type@)->0),
                _ => {},
            }
            assert(read_width(expr_type@) == Some(b.len()));
            lemma_read_width_size(expr_type@, defs@);
        }
        let bytes = to_interpreter_bytes(literal, &expr_type).unwrap();
        let variable_data = self.stack_alloc(line, defs, expr_type, StackLocation::Oxy);
        let ghost mid = self@.oxy;
        self.stack_write(&variable_data, bytes.as_slice());
        proof {
            let start = offset_of(variable_data.index);
            assert(self@.oxy =~= old(self)@.oxy.subrange(0, start as int) + b + old(self)@.oxy.subrange(
                (start + b.len()) as int,
                STACK_SIZE as int,
            ));
        }
        variable_data
    }
}

} // verus!
