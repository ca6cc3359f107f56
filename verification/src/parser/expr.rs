//! Expression types, the type cells that expressions share, literals, and
//! how two types are matched against each other.
use vstd::prelude::*;
use vstd::string::StringExecFns;
use crate::parser::structs::{Field, Struct};

verus! {

/// Short name of [`ExpressionType`].
pub type ExprType = ExpressionType;

/// The type of an expression, as far as it is known.
#[derive(Debug)]
pub enum ExpressionType {
    /// Not known yet.
    AmbiguousType,
    I8,
    I16,
    I32,
    I64,
    I128,
    ISize,
    /// An integer literal whose width is not known yet.
    AmbiguousNegInteger,
    U8,
    U16,
    U32,
    U64,
    U128,
    USize,
    /// A non-negative integer whose width is not known yet.
    AmbiguousPosInteger,
    F32,
    F64,
    /// A floating-point literal whose width is not known yet.
    AmbiguousFloat,
    Char,
    StringLiteral,
    Bool,
    Ref(Box<ExprType>),
    MutRef(Box<ExprType>),
    /// An array, with its length where it is known.
    Array { length: Option<usize>, expr_type: Box<ExprType> },
    /// A group whose `end` types are counted from the back.
    Tuple { start: Vec<ExprType>, end: Vec<ExprType> },
    /// A group that may still turn out to be an array.
    AmbiguousGroup { start: Vec<ExprType>, end: Vec<ExprType> },
    Function { name: String, return_type: Box<ExprType>, left_args: Vec<ExprType>, right_args: Vec<ExprType> },
    FunctionPass { return_type: Box<ExprType>, left_args: Vec<ExprType>, right_args: Vec<ExprType> },
    /// `_`
    DiscardSingle,
    /// `..`
    DiscardMany,
    /// A struct, by name.
    Custom { ident: String },
    /// A struct without a name, field by field.
    AnonymousCustom { fields: Vec<(String, ExprType)> },
    Void,
    Never,
}

/// The mathematical value of an [`ExpressionType`]: names become sequences of
/// characters and lists become sequences.
pub enum TypeView {
    AmbiguousType,
    I8,
    I16,
    I32,
    I64,
    I128,
    ISize,
    AmbiguousNegInteger,
    U8,
    U16,
    U32,
    U64,
    U128,
    USize,
    AmbiguousPosInteger,
    F32,
    F64,
    AmbiguousFloat,
    Char,
    StringLiteral,
    Bool,
    Ref(Box<TypeView>),
    MutRef(Box<TypeView>),
    Array { length: Option<usize>, expr_type: Box<TypeView> },
    Tuple { start: Seq<TypeView>, end: Seq<TypeView> },
    AmbiguousGroup { start: Seq<TypeView>, end: Seq<TypeView> },
    Function { name: Seq<char>, return_type: Box<TypeView>, left_args: Seq<TypeView>, right_args: Seq<TypeView> },
    FunctionPass { return_type: Box<TypeView>, left_args: Seq<TypeView>, right_args: Seq<TypeView> },
    DiscardSingle,
    DiscardMany,
    Custom { ident: Seq<char> },
    AnonymousCustom { fields: Seq<(Seq<char>, TypeView)> },
    Void,
    Never,
}

/// The view of a type.
pub open spec fn type_view(t: ExprType) -> TypeView
    decreases t,
{
    match t {
        ExprType::AmbiguousType => TypeView::AmbiguousType,
        ExprType::I8 => TypeView::I8,
        ExprType::I16 => TypeView::I16,
        ExprType::I32 => TypeView::I32,
        ExprType::I64 => TypeView::I64,
        ExprType::I128 => TypeView::I128,
        ExprType::ISize => TypeView::ISize,
        ExprType::AmbiguousNegInteger => TypeView::AmbiguousNegInteger,
        ExprType::U8 => TypeView::U8,
        ExprType::U16 => TypeView::U16,
        ExprType::U32 => TypeView::U32,
        ExprType::U64 => TypeView::U64,
        ExprType::U128 => TypeView::U128,
        ExprType::USize => TypeView::USize,
        ExprType::AmbiguousPosInteger => TypeView::AmbiguousPosInteger,
        ExprType::F32 => TypeView::F32,
        ExprType::F64 => TypeView::F64,
        ExprType::AmbiguousFloat => TypeView::AmbiguousFloat,
        ExprType::Char => TypeView::Char,
        ExprType::StringLiteral => TypeView::StringLiteral,
        ExprType::Bool => TypeView::Bool,
        ExprType::DiscardSingle => TypeView::DiscardSingle,
        ExprType::DiscardMany => TypeView::DiscardMany,
        ExprType::Void => TypeView::Void,
        ExprType::Never => TypeView::Never,
        ExprType::Ref(b) => TypeView::Ref(Box::new(type_view(*b))),
        ExprType::MutRef(b) => TypeView::MutRef(Box::new(type_view(*b))),
        ExprType::Array { length, expr_type } => TypeView::Array { length, expr_type: Box::new(type_view(*expr_type)) },
        ExprType::Tuple { start, end } => TypeView::Tuple { start: types_view(start@), end: types_view(end@) },
        ExprType::AmbiguousGroup { start, end } => TypeView::AmbiguousGroup { start: types_view(start@), end: types_view(end@) },
        ExprType::Function { name, return_type, left_args, right_args } => TypeView::Function {
            name: name@,
            return_type: Box::new(type_view(*return_type)),
            left_args: types_view(left_args@),
            right_args: types_view(right_args@),
        },
        ExprType::FunctionPass { return_type, left_args, right_args } => TypeView::FunctionPass {
            return_type: Box::new(type_view(*return_type)),
            left_args: types_view(left_args@),
            right_args: types_view(right_args@),
        },
        ExprType::Custom { ident } => TypeView::Custom { ident: ident@ },
        ExprType::AnonymousCustom { fields } => TypeView::AnonymousCustom { fields: fields_view(fields@) },
    }
}

/// The views of a list of types.
pub open spec fn types_view(s: Seq<ExprType>) -> Seq<TypeView>
    decreases s,
{
    if s.len() == 0 {
        Seq::empty()
    } else {
        types_view(s.drop_last()).push(type_view(s.last()))
    }
}

/// The views of a list of named fields.
pub open spec fn fields_view(s: Seq<(String, ExprType)>) -> Seq<(Seq<char>, TypeView)>
    decreases s,
{
    if s.len() == 0 {
        Seq::empty()
    } else {
        fields_view(s.drop_last()).push((s.last().0@, type_view(s.last().1)))
    }
}

/// The view of a list is the list of the views.
pub proof fn lemma_types_view(s: Seq<ExprType>)
    ensures
        types_view(s).len() == s.len(),
        forall|i: int| 0 <= i < s.len() ==> #[trigger] types_view(s)[i] == type_view(s[i]),
    decreases s.len(),
{
    if s.len() > 0 {
        lemma_types_view(s.drop_last());
    }
}

/// The view of a field list is the list of the fields' views.
pub proof fn lemma_fields_view(s: Seq<(String, ExprType)>)
    ensures
        fields_view(s).len() == s.len(),
        forall|i: int| 0 <= i < s.len() ==> #[trigger] fields_view(s)[i] == (s[i].0@, type_view(s[i].1)),
    decreases s.len(),
{
    if s.len() > 0 {
        lemma_fields_view(s.drop_last());
    }
}

impl View for ExpressionType {
    type V = TypeView;

    open spec fn view(&self) -> TypeView {
        type_view(*self)
    }
}

/// A copy of each type in `v`.
fn copy_types(v: &Vec<ExprType>) -> (r: Vec<ExprType>)
    ensures
        types_view(r@) == types_view(v@),
    decreases v, 1nat,
{
    let mut out: Vec<ExprType> = Vec::new();
    let mut i: usize = 0;
    while i < v.len()
        invariant
            i <= v.len(),
            out.len() == i,
            forall|k: int| 0 <= k < i ==> type_view(#[trigger] out@[k]) == type_view(v@[k]),
        decreases v.len() - i,
    {
        proof {
            assert(decreases_to!(v => v@[i as int]));
        }
        out.push(v[i].copy());
        i += 1;
    }
    proof {
        lemma_types_view(out@);
        lemma_types_view(v@);
    }
    assert(types_view(out@) =~= types_view(v@));
    out
}

/// A copy of each field in `v`.
fn copy_fields(v: &Vec<(String, ExprType)>) -> (r: Vec<(String, ExprType)>)
    ensures
        fields_view(r@) == fields_view(v@),
    decreases v, 1nat,
{
    let mut out: Vec<(String, ExprType)> = Vec::new();
    let mut i: usize = 0;
    while i < v.len()
        invariant
            i <= v.len(),
            out.len() == i,
            forall|k: int| 0 <= k < i ==> (#[trigger] out@[k]).0@ == v@[k].0@ && type_view(out@[k].1) == type_view(v@[k].1),
        decreases v.len() - i,
    {
        proof {
            assert(decreases_to!(v => v@[i as int]));
            assert(decreases_to!(v@[i as int] => v@[i as int].1));
        }
        let name = v[i].0.clone();
        let t = v[i].1.copy();
        out.push((name, t));
        i += 1;
    }
    proof {
        lemma_fields_view(out@);
        lemma_fields_view(v@);
    }
    assert(fields_view(out@) =~= fields_view(v@));
    out
}

/// Whether two lists of types are the same.
fn same_types(a: &Vec<ExprType>, b: &Vec<ExprType>) -> (r: bool)
    ensures
        r == (types_view(a@) == types_view(b@)),
    decreases a, 1nat,
{
    proof {
        lemma_types_view(a@);
        lemma_types_view(b@);
    }
    if a.len() != b.len() {
        return false;
    }
    let mut i: usize = 0;
    while i < a.len()
        invariant
            i <= a.len(),
            a.len() == b.len(),
            types_view(a@).len() == a.len(),
            types_view(b@).len() == b.len(),
            forall|k: int| 0 <= k < a.len() ==> #[trigger] types_view(a@)[k] == type_view(a@[k]),
            forall|k: int| 0 <= k < b.len() ==> #[trigger] types_view(b@)[k] == type_view(b@[k]),
            forall|k: int| 0 <= k < i ==> type_view(#[trigger] a@[k]) == type_view(b@[k]),
        decreases a.len() - i,
    {
        proof {
            assert(decreases_to!(a => a@[i as int]));
        }
        if !a[i].same_type(&b[i]) {
            assert(types_view(a@)[i as int] != types_view(b@)[i as int]);
            return false;
        }
        i += 1;
    }
    assert(types_view(a@) =~= types_view(b@));
    true
}

/// Whether two field lists are the same.
fn same_fields(a: &Vec<(String, ExprType)>, b: &Vec<(String, ExprType)>) -> (r: bool)
    ensures
        r == (fields_view(a@) == fields_view(b@)),
    decreases a, 1nat,
{
    proof {
        lemma_fields_view(a@);
        lemma_fields_view(b@);
    }
    if a.len() != b.len() {
        return false;
    }
    let mut i: usize = 0;
    while i < a.len()
        invariant
            i <= a.len(),
            a.len() == b.len(),
            fields_view(a@).len() == a.len(),
            fields_view(b@).len() == b.len(),
            forall|k: int| 0 <= k < a.len() ==> #[trigger] fields_view(a@)[k] == (a@[k].0@, type_view(a@[k].1)),
            forall|k: int| 0 <= k < b.len() ==> #[trigger] fields_view(b@)[k] == (b@[k].0@, type_view(b@[k].1)),
            forall|k: int| 0 <= k < i ==> fields_view(a@)[k] == fields_view(b@)[k],
        decreases a.len() - i,
    {
        proof {
            assert(decreases_to!(a => a@[i as int]));
            assert(decreases_to!(a@[i as int] => a@[i as int].1));
        }
        let same_name = a[i].0 == b[i].0;
        if !same_name || !a[i].1.same_type(&b[i].1) {
            assert(fields_view(a@)[i as int] != fields_view(b@)[i as int]);
            return false;
        }
        assert(fields_view(a@)[i as int] == fields_view(b@)[i as int]);
        i += 1;
    }
    assert(fields_view(a@) =~= fields_view(b@));
    true
}

impl ExpressionType {
    /// A copy of this type.
    pub fn copy(&self) -> (r: ExprType)
        ensures
            r@ == self@,
        decreases self, 0nat,
    {
        match self {
            ExprType::AmbiguousType => ExprType::AmbiguousType,
            ExprType::I8 => ExprType::I8,
            ExprType::I16 => ExprType::I16,
            ExprType::I32 => ExprType::I32,
            ExprType::I64 => ExprType::I64,
            ExprType::I128 => ExprType::I128,
            ExprType::ISize => ExprType::ISize,
            ExprType::AmbiguousNegInteger => ExprType::AmbiguousNegInteger,
            ExprType::U8 => ExprType::U8,
            ExprType::U16 => ExprType::U16,
            ExprType::U32 => ExprType::U32,
            ExprType::U64 => ExprType::U64,
            ExprType::U128 => ExprType::U128,
            ExprType::USize => ExprType::USize,
            ExprType::AmbiguousPosInteger => ExprType::AmbiguousPosInteger,
            ExprType::F32 => ExprType::F32,
            ExprType::F64 => ExprType::F64,
            ExprType::AmbiguousFloat => ExprType::AmbiguousFloat,
            ExprType::Char => ExprType::Char,
            ExprType::StringLiteral => ExprType::StringLiteral,
            ExprType::Bool => ExprType::Bool,
            ExprType::DiscardSingle => ExprType::DiscardSingle,
            ExprType::DiscardMany => ExprType::DiscardMany,
            ExprType::Void => ExprType::Void,
            ExprType::Never => ExprType::Never,
            ExprType::Ref(b) => ExprType::Ref(Box::new(b.copy())),
            ExprType::MutRef(b) => ExprType::MutRef(Box::new(b.copy())),
            ExprType::Array { length, expr_type } => ExprType::Array { length: *length, expr_type: Box::new(expr_type.copy()) },
            ExprType::Tuple { start, end } => ExprType::Tuple { start: copy_types(start), end: copy_types(end) },
            ExprType::AmbiguousGroup { start, end } => ExprType::AmbiguousGroup { start: copy_types(start), end: copy_types(end) },
            ExprType::Function { name, return_type, left_args, right_args } => ExprType::Function {
                name: name.clone(),
                return_type: Box::new(return_type.copy()),
                left_args: copy_types(left_args),
                right_args: copy_types(right_args),
            },
            ExprType::FunctionPass { return_type, left_args, right_args } => ExprType::FunctionPass {
                return_type: Box::new(return_type.copy()),
                left_args: copy_types(left_args),
                right_args: copy_types(right_args),
            },
            ExprType::Custom { ident } => ExprType::Custom { ident: ident.clone() },
            ExprType::AnonymousCustom { fields } => ExprType::AnonymousCustom { fields: copy_fields(fields) },
        }
    }

    /// Whether two types are the same, part for part.
    pub fn same_type(&self, other: &ExprType) -> (r: bool)
        ensures
            r == (self@ == other@),
        decreases self, 0nat,
    {
        match (self, other) {
            (ExprType::AmbiguousType, ExprType::AmbiguousType) => true,
            (ExprType::I8, ExprType::I8) => true,
            (ExprType::I16, ExprType::I16) => true,
            (ExprType::I32, ExprType::I32) => true,
            (ExprType::I64, ExprType::I64) => true,
            (ExprType::I128, ExprType::I128) => true,
            (ExprType::ISize, ExprType::ISize) => true,
            (ExprType::AmbiguousNegInteger, ExprType::AmbiguousNegInteger) => true,
            (ExprType::U8, ExprType::U8) => true,
            (ExprType::U16, ExprType::U16) => true,
            (ExprType::U32, ExprType::U32) => true,
            (ExprType::U64, ExprType::U64) => true,
            (ExprType::U128, ExprType::U128) => true,
            (ExprType::USize, ExprType::USize) => true,
            (ExprType::AmbiguousPosInteger, ExprType::AmbiguousPosInteger) => true,
            (ExprType::F32, ExprType::F32) => true,
            (ExprType::F64, ExprType::F64) => true,
            (ExprType::AmbiguousFloat, ExprType::AmbiguousFloat) => true,
            (ExprType::Char, ExprType::Char) => true,
            (ExprType::StringLiteral, ExprType::StringLiteral) => true,
            (ExprType::Bool, ExprType::Bool) => true,
            (ExprType::DiscardSingle, ExprType::DiscardSingle) => true,
            (ExprType::DiscardMany, ExprType::DiscardMany) => true,
            (ExprType::Void, ExprType::Void) => true,
            (ExprType::Never, ExprType::Never) => true,
            (ExprType::Ref(a), ExprType::Ref(b)) => a.same_type(b),
            (ExprType::MutRef(a), ExprType::MutRef(b)) => a.same_type(b),
            (ExprType::Array { length: la, expr_type: ta }, ExprType::Array { length: lb, expr_type: tb }) => {
                let same_len = match (la, lb) {
                    (Some(x), Some(y)) => *x == *y,
                    (None, None) => true,
                    _ => false,
                };
                same_len && ta.same_type(tb)
            },
            (ExprType::Tuple { start: sa, end: ea }, ExprType::Tuple { start: sb, end: eb }) => same_types(sa, sb) && same_types(ea, eb),
            (ExprType::AmbiguousGroup { start: sa, end: ea }, ExprType::AmbiguousGroup { start: sb, end: eb }) => same_types(sa, sb) && same_types(ea, eb),
            (
                ExprType::Function { name: na, return_type: ra, left_args: la, right_args: ga },
                ExprType::Function { name: nb, return_type: rb, left_args: lb, right_args: gb },
            ) => *na == *nb && ra.same_type(rb) && same_types(la, lb) && same_types(ga, gb),
            (
                ExprType::FunctionPass { return_type: ra, left_args: la, right_args: ga },
                ExprType::FunctionPass { return_type: rb, left_args: lb, right_args: gb },
            ) => ra.same_type(rb) && same_types(la, lb) && same_types(ga, gb),
            (ExprType::Custom { ident: a }, ExprType::Custom { ident: b }) => *a == *b,
            (ExprType::AnonymousCustom { fields: a }, ExprType::AnonymousCustom { fields: b }) => same_fields(a, b),
            _ => false,
        }
    }
}

impl Clone for ExpressionType {
    /// A copy with the same view.
    fn clone(&self) -> (r: Self)
        ensures
            r@ == self@,
    {
        self.copy()
    }
}

impl PartialEq for ExpressionType {
    fn eq(&self, other: &Self) -> (r: bool) {
        self.same_type(other)
    }
}

impl vstd::std_specs::cmp::PartialEqSpecImpl for ExpressionType {
    open spec fn obeys_eq_spec() -> bool {
        true
    }

    open spec fn eq_spec(&self, other: &Self) -> bool {
        self@ == other@
    }
}

// Matching two types.

/// A fixed-width integer type.
pub open spec fn is_integer_view(t: TypeView) -> bool {
    ||| t is I8
    ||| t is I16
    ||| t is I32
    ||| t is I64
    ||| t is I128
    ||| t is ISize
    ||| t is U8
    ||| t is U16
    ||| t is U32
    ||| t is U64
    ||| t is U128
    ||| t is USize
}

/// A fixed-width signed integer type.
pub open spec fn is_signed_view(t: TypeView) -> bool {
    ||| t is I8
    ||| t is I16
    ||| t is I32
    ||| t is I64
    ||| t is I128
    ||| t is ISize
}

/// A fixed-width floating-point type.
pub open spec fn is_float_view(t: TypeView) -> bool {
    t is F32 || t is F64
}

/// Matches `l` against `r`, each of which may learn from the other (an
/// ambiguous type takes on the other's type, an array length of one side is
/// copied to the other, a group becomes an array).  The result says whether
/// they match and what the two types are afterwards; a failed match may
/// still have changed the parts it got through before the failure.
///
/// `None` when matching cannot be carried out: two groups that both have
/// types counted from the back, or more nesting than `fuel` allows.
pub open spec fn match_spec(l: TypeView, r: TypeView, fuel: nat) -> Option<(bool, TypeView, TypeView)>
    decreases fuel, 0int,
{
    if fuel == 0 {
        None
    } else {
        let f = (fuel - 1) as nat;
        if r is Never || l is Never {
            Some((true, l, r))
        } else if l is AmbiguousType {
            Some((true, r, r))
        } else if r is AmbiguousType {
            Some((true, l, l))
        } else if l is DiscardSingle || r is DiscardSingle {
            Some((true, l, r))
        } else if l is AmbiguousPosInteger && is_integer_view(r) {
            Some((true, r, r))
        } else if is_integer_view(l) && r is AmbiguousPosInteger {
            Some((true, l, l))
        } else if l is AmbiguousNegInteger && is_signed_view(r) {
            Some((true, r, r))
        } else if is_signed_view(l) && r is AmbiguousNegInteger {
            Some((true, l, l))
        } else if l is AmbiguousFloat && is_float_view(r) {
            Some((true, r, r))
        } else if is_float_view(l) && r is AmbiguousFloat {
            Some((true, l, l))
        } else {
            match (l, r) {
                (TypeView::AnonymousCustom { fields: lf }, TypeView::AnonymousCustom { fields: rf }) => {
                    if lf.len() != rf.len() {
                        Some((false, l, r))
                    } else {
                        match match_fields_spec(lf, rf, 0, f) {
                            Some((b, lf2, rf2)) => Some(
                                (
                                    b,
                                    TypeView::AnonymousCustom { fields: lf2 },
                                    TypeView::AnonymousCustom { fields: rf2 },
                                ),
                            ),
                            None => None,
                        }
                    }
                },
                (
                    TypeView::Array { length: ll, expr_type: lt },
                    TypeView::Array { length: rl, expr_type: rt },
                ) => {
                    if ll is Some && rl is Some {
                        Some((ll == rl, l, r))
                    } else {
                        let n = if ll is Some { ll } else { rl };
                        match match_spec(*lt, *rt, f) {
                            Some((b, x, y)) => Some(
                                (
                                    b,
                                    TypeView::Array { length: n, expr_type: Box::new(x) },
                                    TypeView::Array { length: n, expr_type: Box::new(y) },
                                ),
                            ),
                            None => None,
                        }
                    }
                },
                (TypeView::Tuple { start: ls, end: le }, TypeView::Tuple { start: rs, end: re }) => {
                    if re.len() == 0 && le.len() <= rs.len() && ls.len() <= rs.len() - le.len() {
                        match match_pairs_spec(ls + le, rs, ls.len() as int, 0, f) {
                            Some((b, xs, ys)) => Some(
                                (
                                    b,
                                    TypeView::Tuple { start: xs.take(ls.len() as int), end: xs.skip(ls.len() as int) },
                                    TypeView::Tuple { start: ys, end: re },
                                ),
                            ),
                            None => None,
                        }
                    } else if le.len() == 0 && rs.len() + re.len() <= ls.len() {
                        match match_pairs_spec(rs + re, ls, rs.len() as int, 0, f) {
                            Some((b, xs, ys)) => Some(
                                (
                                    b,
                                    TypeView::Tuple { start: ys, end: le },
                                    TypeView::Tuple { start: xs.take(rs.len() as int), end: xs.skip(rs.len() as int) },
                                ),
                            ),
                            None => None,
                        }
                    } else {
                        None
                    }
                },
                (TypeView::AmbiguousGroup { start: ls, end: le }, TypeView::Array { length: rl, expr_type: rt }) => {
                    if rl is Some && ls.len() + le.len() > rl->0 {
                        Some((false, l, r))
                    } else {
                        match match_group_spec(ls + le, 0, *rt, f) {
                            Some((b, es, t)) => {
                                let arr = TypeView::Array { length: rl, expr_type: Box::new(t) };
                                if b {
                                    Some((true, arr, arr))
                                } else {
                                    Some(
                                        (
                                            false,
                                            TypeView::AmbiguousGroup {
                                                start: es.take(ls.len() as int),
                                                end: es.skip(ls.len() as int),
                                            },
                                            arr,
                                        ),
                                    )
                                }
                            },
                            None => None,
                        }
                    }
                },
                _ => Some((l == r, l, r)),
            }
        }
    }
}

/// Matches the fields of two anonymous structs in order, from the `k`-th,
/// stopping at the first pair whose names or types differ.
pub open spec fn match_fields_spec(
    lf: Seq<(Seq<char>, TypeView)>,
    rf: Seq<(Seq<char>, TypeView)>,
    k: int,
    fuel: nat,
) -> Option<(bool, Seq<(Seq<char>, TypeView)>, Seq<(Seq<char>, TypeView)>)>
    decreases fuel, lf.len() - k,
{
    if k < 0 || k >= lf.len() || k >= rf.len() {
        Some((true, lf, rf))
    } else if lf[k].0 != rf[k].0 {
        Some((false, lf, rf))
    } else {
        match match_spec(lf[k].1, rf[k].1, fuel) {
            Some((b, x, y)) => {
                let lf2 = lf.update(k, (lf[k].0, x));
                let rf2 = rf.update(k, (rf[k].0, y));
                if !b {
                    Some((false, lf2, rf2))
                } else {
                    match_fields_spec(lf2, rf2, k + 1, fuel)
                }
            },
            None => None,
        }
    }
}

/// Where the `k`-th type of a group is matched in the other group: the
/// first `n_start` in order from the front, the rest from the back.
pub open spec fn pair_index(len: int, n_start: int, k: int) -> int {
    if k < n_start {
        k
    } else {
        len - 1 - (k - n_start)
    }
}

/// Matches the types of `xs`, from the `k`-th, against their places in `ys`
/// (see [`pair_index`]), stopping at the first pair that does not match.
pub open spec fn match_pairs_spec(
    xs: Seq<TypeView>,
    ys: Seq<TypeView>,
    n_start: int,
    k: int,
    fuel: nat,
) -> Option<(bool, Seq<TypeView>, Seq<TypeView>)>
    decreases fuel, xs.len() - k,
{
    let j = pair_index(ys.len() as int, n_start, k);
    if k < 0 || k >= xs.len() || j < 0 || j >= ys.len() {
        Some((true, xs, ys))
    } else {
        match match_spec(xs[k], ys[j], fuel) {
            Some((b, x, y)) => {
                let xs2 = xs.update(k, x);
                let ys2 = ys.update(j, y);
                if !b {
                    Some((false, xs2, ys2))
                } else {
                    match_pairs_spec(xs2, ys2, n_start, k + 1, fuel)
                }
            },
            None => None,
        }
    }
}

/// Matches each type of `es`, from the `k`-th, against the element type `t`
/// of an array, which learns from each in turn; stops at the first that does
/// not match.
pub open spec fn match_group_spec(es: Seq<TypeView>, k: int, t: TypeView, fuel: nat) -> Option<
    (bool, Seq<TypeView>, TypeView),
>
    decreases fuel, es.len() - k,
{
    if k < 0 || k >= es.len() {
        Some((true, es, t))
    } else {
        match match_spec(es[k], t, fuel) {
            Some((b, x, y)) => {
                let es2 = es.update(k, x);
                if !b {
                    Some((false, es2, y))
                } else {
                    match_group_spec(es2, k + 1, y, fuel)
                }
            },
            None => None,
        }
    }
}

/// How deeply a type nests.
pub open spec fn type_depth(t: TypeView) -> nat
    decreases t,
{
    match t {
        TypeView::Ref(b) => 1 + type_depth(*b),
        TypeView::MutRef(b) => 1 + type_depth(*b),
        TypeView::Array { expr_type, .. } => 1 + type_depth(*expr_type),
        TypeView::Tuple { start, end } => 1 + types_depth(start) + types_depth(end),
        TypeView::AmbiguousGroup { start, end } => 1 + types_depth(start) + types_depth(end),
        TypeView::Function { return_type, left_args, right_args, .. } => 1 + type_depth(*return_type)
            + types_depth(left_args) + types_depth(right_args),
        TypeView::FunctionPass { return_type, left_args, right_args } => 1 + type_depth(*return_type)
            + types_depth(left_args) + types_depth(right_args),
        TypeView::AnonymousCustom { fields } => 1 + fields_depth(fields),
        _ => 1,
    }
}

/// The total nesting of a list of types.
pub open spec fn types_depth(s: Seq<TypeView>) -> nat
    decreases s,
{
    if s.len() == 0 {
        0
    } else {
        types_depth(s.drop_last()) + type_depth(s.last())
    }
}

/// The total nesting of a list of fields.
pub open spec fn fields_depth(s: Seq<(Seq<char>, TypeView)>) -> nat
    decreases s,
{
    if s.len() == 0 {
        0
    } else {
        fields_depth(s.drop_last()) + type_depth(s.last().1)
    }
}

/// The fuel with which two types are matched: enough for their nesting.
pub open spec fn match_fuel(l: TypeView, r: TypeView) -> nat {
    type_depth(l) + type_depth(r) + 1
}

/// What matching `l` against `r` gives (see [`match_spec`]).
pub open spec fn match_result(l: TypeView, r: TypeView) -> Option<(bool, TypeView, TypeView)> {
    match_spec(l, r, match_fuel(l, r))
}

/// The views of a list follow its concatenation, update and splitting.
pub proof fn lemma_types_view_ops(s: Seq<ExprType>)
    ensures
        forall|t: Seq<ExprType>| #[trigger] types_view(s + t) == types_view(s) + types_view(t),
        forall|k: int, v: ExprType|
            0 <= k < s.len() ==> #[trigger] types_view(s.update(k, v)) == types_view(s).update(k, type_view(v)),
        forall|n: int| 0 <= n <= s.len() ==> #[trigger] types_view(s.take(n)) == types_view(s).take(n),
        forall|n: int| 0 <= n <= s.len() ==> #[trigger] types_view(s.skip(n)) == types_view(s).skip(n),
{
    lemma_types_view(s);
    assert forall|t: Seq<ExprType>| #[trigger] types_view(s + t) == types_view(s) + types_view(t) by {
        lemma_types_view(t);
        lemma_types_view(s + t);
        assert(types_view(s + t) =~= types_view(s) + types_view(t));
    }
    assert forall|k: int, v: ExprType|
        0 <= k < s.len() implies #[trigger] types_view(s.update(k, v)) == types_view(s).update(k, type_view(v)) by {
        lemma_types_view(s.update(k, v));
        assert(types_view(s.update(k, v)) =~= types_view(s).update(k, type_view(v)));
    }
    assert forall|n: int| 0 <= n <= s.len() implies #[trigger] types_view(s.take(n)) == types_view(s).take(n) by {
        lemma_types_view(s.take(n));
        assert(types_view(s.take(n)) =~= types_view(s).take(n));
    }
    assert forall|n: int| 0 <= n <= s.len() implies #[trigger] types_view(s.skip(n)) == types_view(s).skip(n) by {
        lemma_types_view(s.skip(n));
        assert(types_view(s.skip(n)) =~= types_view(s).skip(n));
    }
}

/// The views of a field list follow its updates.
pub proof fn lemma_fields_view_update(s: Seq<(String, ExprType)>, k: int, v: (String, ExprType))
    requires
        0 <= k < s.len(),
    ensures
        fields_view(s.update(k, v)) == fields_view(s).update(k, (v.0@, type_view(v.1))),
{
    lemma_fields_view(s);
    lemma_fields_view(s.update(k, v));
    assert(fields_view(s.update(k, v)) =~= fields_view(s).update(k, (v.0@, type_view(v.1))));
}

/// Whether `t` is a fixed-width integer type.
fn is_integer_type(t: &ExprType) -> (r: bool)
    ensures
        r == is_integer_view(t@),
{
    matches!(t, ExprType::I8 | ExprType::I16 | ExprType::I32 | ExprType::I64 | ExprType::I128 | ExprType::ISize
        | ExprType::U8 | ExprType::U16 | ExprType::U32 | ExprType::U64 | ExprType::U128 | ExprType::USize)
}

/// Whether `t` is a fixed-width signed integer type.
fn is_signed_type(t: &ExprType) -> (r: bool)
    ensures
        r == is_signed_view(t@),
{
    matches!(t, ExprType::I8 | ExprType::I16 | ExprType::I32 | ExprType::I64 | ExprType::I128 | ExprType::ISize)
}

/// Whether `t` is a fixed-width floating-point type.
fn is_float_type(t: &ExprType) -> (r: bool)
    ensures
        r == is_float_view(t@),
{
    matches!(t, ExprType::F32 | ExprType::F64)
}

/// Matches `l` against `r` (see [`match_spec`]).
fn match_values(l: ExprType, r: ExprType, Ghost(fuel): Ghost<nat>) -> (res: (bool, ExprType, ExprType))
    requires
        match_spec(l@, r@, fuel) is Some,
    ensures
        match_spec(l@, r@, fuel) == Some((res.0, res.1@, res.2@)),
    decreases fuel, 0int,
{
    let ghost f = (fuel - 1) as nat;
    let ghost lv = l@;
    let ghost rv = r@;
    if matches!(r, ExprType::Never) || matches!(l, ExprType::Never) {
        return (true, l, r);
    }
    if matches!(l, ExprType::AmbiguousType) {
        let c = r.copy();
        return (true, c, r);
    }
    if matches!(r, ExprType::AmbiguousType) {
        let c = l.copy();
        return (true, l, c);
    }
    if matches!(l, ExprType::DiscardSingle) || matches!(r, ExprType::DiscardSingle) {
        return (true, l, r);
    }
    if matches!(l, ExprType::AmbiguousPosInteger) && is_integer_type(&r) {
        let c = r.copy();
        return (true, c, r);
    }
    if is_integer_type(&l) && matches!(r, ExprType::AmbiguousPosInteger) {
        let c = l.copy();
        return (true, l, c);
    }
    if matches!(l, ExprType::AmbiguousNegInteger) && is_signed_type(&r) {
        let c = r.copy();
        return (true, c, r);
    }
    if is_signed_type(&l) && matches!(r, ExprType::AmbiguousNegInteger) {
        let c = l.copy();
        return (true, l, c);
    }
    if matches!(l, ExprType::AmbiguousFloat) && is_float_type(&r) {
        let c = r.copy();
        return (true, c, r);
    }
    if is_float_type(&l) && matches!(r, ExprType::AmbiguousFloat) {
        let c = l.copy();
        return (true, l, c);
    }
    match (l, r) {
        (ExprType::AnonymousCustom { fields: lf }, ExprType::AnonymousCustom { fields: rf }) => {
            proof {
                lemma_fields_view(lf@);
                lemma_fields_view(rf@);
            }
            if lf.len() != rf.len() {
                let res = (false, ExprType::AnonymousCustom { fields: lf }, ExprType::AnonymousCustom { fields: rf });
                assert(match_spec(lv, rv, fuel) == Some((res.0, res.1@, res.2@)));
                return res;
            }
            let (b, lf2, rf2) = match_fields(lf, rf, Ghost(f));
            let res = (b, ExprType::AnonymousCustom { fields: lf2 }, ExprType::AnonymousCustom { fields: rf2 });
            assert(match_spec(lv, rv, fuel) == Some((res.0, res.1@, res.2@)));
            res
        },
        (ExprType::Array { length: ll, expr_type: lt }, ExprType::Array { length: rl, expr_type: rt }) => {
            if ll.is_some() && rl.is_some() {
                let same = match (ll, rl) {
                    (Some(x), Some(y)) => x == y,
                    _ => false,
                };
                let res = (
                    same,
                    ExprType::Array { length: ll, expr_type: lt },
                    ExprType::Array { length: rl, expr_type: rt },
                );
                assert(match_spec(lv, rv, fuel) == Some((res.0, res.1@, res.2@)));
                return res;
            }
            let n = if ll.is_some() { ll } else { rl };
            let (b, x, y) = match_values(*lt, *rt, Ghost(f));
            let res = (b, ExprType::Array { length: n, expr_type: Box::new(x) }, ExprType::Array { length: n, expr_type: Box::new(y) });
            assert(match_spec(lv, rv, fuel) == Some((res.0, res.1@, res.2@)));
            res
        },
        (ExprType::Tuple { start: ls, end: le }, ExprType::Tuple { start: rs, end: re }) => {
            proof {
                lemma_types_view(ls@);
                lemma_types_view(le@);
                lemma_types_view(rs@);
                lemma_types_view(re@);
                lemma_types_view_ops(ls@);
                lemma_types_view_ops(rs@);
            }
            if re.len() == 0 && le.len() <= rs.len() && ls.len() <= rs.len() - le.len() {
                let ghost le_orig = le@;
                let n = ls.len();
                let mut xs = ls;
                let mut le = le;
                xs.append(&mut le);
                let (b, mut xs2, ys2) = match_pairs(xs, rs, n, Ghost(f));
                let ghost full = xs2@;
                proof {
                    lemma_types_view_ops(full);
                }
                let tail = xs2.split_off(n);
                assert(xs2@ =~= full.take(n as int));
                assert(tail@ =~= full.skip(n as int));
                let res = (b, ExprType::Tuple { start: xs2, end: tail }, ExprType::Tuple { start: ys2, end: re });
                assert(lv == TypeView::Tuple { start: types_view(ls@), end: types_view(le_orig) });
                assert(match_pairs_spec(types_view(ls@) + types_view(le_orig), types_view(rs@), n as int, 0, f) == Some((b, types_view(full), types_view(ys2@))));
                assert(types_view(xs2@) == types_view(full).take(n as int));
                assert(types_view(tail@) == types_view(full).skip(n as int));
                assert(res.1@ == TypeView::Tuple { start: types_view(full).take(n as int), end: types_view(full).skip(n as int) });
                assert(match_spec(lv, rv, fuel) == Some((res.0, res.1@, res.2@)));
                res
            } else {
                let ghost re_orig = re@;
                let n = rs.len();
                let mut xs = rs;
                let mut re = re;
                xs.append(&mut re);
                let (b, mut xs2, ys2) = match_pairs(xs, ls, n, Ghost(f));
                let ghost full = xs2@;
                proof {
                    lemma_types_view_ops(full);
                }
                let tail = xs2.split_off(n);
                assert(xs2@ =~= full.take(n as int));
                assert(tail@ =~= full.skip(n as int));
                let res = (b, ExprType::Tuple { start: ys2, end: le }, ExprType::Tuple { start: xs2, end: tail });
                assert(rv == TypeView::Tuple { start: types_view(rs@), end: types_view(re_orig) });
                assert(match_pairs_spec(types_view(rs@) + types_view(re_orig), types_view(ls@), n as int, 0, f) == Some((b, types_view(full), types_view(ys2@))));
                assert(types_view(xs2@) == types_view(full).take(n as int));
                assert(types_view(tail@) == types_view(full).skip(n as int));
                assert(res.2@ == TypeView::Tuple { start: types_view(full).take(n as int), end: types_view(full).skip(n as int) });
                assert(match_spec(lv, rv, fuel) == Some((res.0, res.1@, res.2@)));
                res
            }
        },
        (ExprType::AmbiguousGroup { start: ls, end: le }, ExprType::Array { length: rl, expr_type: rt }) => {
            proof {
                lemma_types_view(ls@);
                lemma_types_view(le@);
                lemma_types_view_ops(ls@);
            }
            let too_long = match rl {
                Some(k) => ls.len() as u128 + le.len() as u128 > k as u128,
                None => false,
            };
            if too_long {
                let res = (
                    false,
                    ExprType::AmbiguousGroup { start: ls, end: le },
                    ExprType::Array { length: rl, expr_type: rt },
                );
                assert(match_spec(lv, rv, fuel) == Some((res.0, res.1@, res.2@)));
                return res;
            }
            let ghost le_orig = le@;
            let n = ls.len();
            let mut es = ls;
            let mut le = le;
            es.append(&mut le);
            let (b, mut es2, t) = match_group(es, *rt, Ghost(f));
            assert(lv == TypeView::AmbiguousGroup { start: types_view(ls@), end: types_view(le_orig) });
            assert(match_group_spec(types_view(ls@) + types_view(le_orig), 0, *rv->expr_type, f) == Some((b, types_view(es2@), t@)));
            if b {
                let t2 = t.copy();
                let res = (true, ExprType::Array { length: rl, expr_type: Box::new(t2) }, ExprType::Array { length: rl, expr_type: Box::new(t) });
                assert(match_spec(lv, rv, fuel) == Some((res.0, res.1@, res.2@)));
                res
            } else {
                let ghost full = es2@;
                proof {
                    lemma_types_view_ops(full);
                }
                let tail = es2.split_off(n);
                assert(es2@ =~= full.take(n as int));
                assert(tail@ =~= full.skip(n as int));
                let res = (false, ExprType::AmbiguousGroup { start: es2, end: tail }, ExprType::Array { length: rl, expr_type: Box::new(t) });
                assert(types_view(es2@) == types_view(full).take(n as int));
                assert(types_view(tail@) == types_view(full).skip(n as int));
                assert(types_view(ls@).len() == n);
                assert(res.1@ == TypeView::AmbiguousGroup { start: types_view(full).take(n as int), end: types_view(full).skip(n as int) });
                assert(match_spec(lv, rv, fuel) == Some((res.0, res.1@, res.2@)));
                res
            }
        },
        (l, r) => {
            let b = l.same_type(&r);
            assert(match_spec(lv, rv, fuel) == Some((b, l@, r@)));
            (b, l, r)
        },
    }
}

/// Matches the fields of two anonymous structs of the same size (see
/// [`match_fields_spec`]).
#[verifier::loop_isolation(false)]
fn match_fields(lf: Vec<(String, ExprType)>, rf: Vec<(String, ExprType)>, Ghost(fuel): Ghost<nat>) -> (res: (
    bool,
    Vec<(String, ExprType)>,
    Vec<(String, ExprType)>,
))
    requires
        lf.len() == rf.len(),
        match_fields_spec(fields_view(lf@), fields_view(rf@), 0, fuel) is Some,
    ensures
        match_fields_spec(fields_view(lf@), fields_view(rf@), 0, fuel) == Some(
            (res.0, fields_view(res.1@), fields_view(res.2@)),
        ),
    decreases fuel, 1int,
{
    let ghost goal = match_fields_spec(fields_view(lf@), fields_view(rf@), 0, fuel);
    let mut cl = lf;
    let mut cr = rf;
    let mut k: usize = 0;
    while k < cl.len()
        invariant
            k <= cl.len(),
            cl.len() == cr.len(),
            goal is Some,
            goal == match_fields_spec(fields_view(cl@), fields_view(cr@), k as int, fuel),
        decreases cl.len() - k,
    {
        proof {
            lemma_fields_view(cl@);
            lemma_fields_view(cr@);
        }
        let same = cl[k].0 == cr[k].0;
        if !same {
            return (false, cl, cr);
        }
        let x = cl[k].1.copy();
        let y = cr[k].1.copy();
        let (b, x2, y2) = match_values(x, y, Ghost(fuel));
        let nl = cl[k].0.clone();
        let nr = cr[k].0.clone();
        proof {
            lemma_fields_view_update(cl@, k as int, (nl, x2));
            lemma_fields_view_update(cr@, k as int, (nr, y2));
        }
        cl.set(k, (nl, x2));
        cr.set(k, (nr, y2));
        if !b {
            return (false, cl, cr);
        }
        k += 1;
    }
    proof {
        lemma_fields_view(cl@);
    }
    (true, cl, cr)
}

/// Matches the types of `xs` against their places in `ys` (see
/// [`match_pairs_spec`]).
#[verifier::loop_isolation(false)]
fn match_pairs(xs: Vec<ExprType>, ys: Vec<ExprType>, n_start: usize, Ghost(fuel): Ghost<nat>) -> (res: (
    bool,
    Vec<ExprType>,
    Vec<ExprType>,
))
    requires
        n_start <= xs.len() <= ys.len(),
        match_pairs_spec(types_view(xs@), types_view(ys@), n_start as int, 0, fuel) is Some,
    ensures
        match_pairs_spec(types_view(xs@), types_view(ys@), n_start as int, 0, fuel) == Some(
            (res.0, types_view(res.1@), types_view(res.2@)),
        ),
        res.1.len() == xs.len(),
        res.2.len() == ys.len(),
    decreases fuel, 1int,
{
    let ghost goal = match_pairs_spec(types_view(xs@), types_view(ys@), n_start as int, 0, fuel);
    let ghost xlen = xs.len();
    let ghost ylen = ys.len();
    let mut cx = xs;
    let mut cy = ys;
    let mut k: usize = 0;
    while k < cx.len()
        invariant
            k <= cx.len(),
            cx.len() == xlen,
            cy.len() == ylen,
            n_start <= cx.len() <= cy.len(),
            goal is Some,
            goal == match_pairs_spec(types_view(cx@), types_view(cy@), n_start as int, k as int, fuel),
        decreases cx.len() - k,
    {
        proof {
            lemma_types_view(cx@);
            lemma_types_view(cy@);
            lemma_types_view_ops(cx@);
            lemma_types_view_ops(cy@);
        }
        let j = if k < n_start { k } else { cy.len() - 1 - (k - n_start) };
        let x = cx[k].copy();
        let y = cy[j].copy();
        let (b, x2, y2) = match_values(x, y, Ghost(fuel));
        cx.set(k, x2);
        cy.set(j, y2);
        if !b {
            return (false, cx, cy);
        }
        k += 1;
    }
    proof {
        lemma_types_view(cx@);
    }
    (true, cx, cy)
}

/// Matches each type of `es` against the element type `t` (see
/// [`match_group_spec`]).
#[verifier::loop_isolation(false)]
fn match_group(es: Vec<ExprType>, t: ExprType, Ghost(fuel): Ghost<nat>) -> (res: (bool, Vec<ExprType>, ExprType))
    requires
        match_group_spec(types_view(es@), 0, t@, fuel) is Some,
    ensures
        match_group_spec(types_view(es@), 0, t@, fuel) == Some((res.0, types_view(res.1@), res.2@)),
        res.1.len() == es.len(),
    decreases fuel, 1int,
{
    let ghost goal = match_group_spec(types_view(es@), 0, t@, fuel);
    let ghost elen = es.len();
    let mut ce = es;
    let mut ct = t;
    let mut k: usize = 0;
    while k < ce.len()
        invariant
            k <= ce.len(),
            ce.len() == elen,
            goal is Some,
            goal == match_group_spec(types_view(ce@), k as int, ct@, fuel),
        decreases ce.len() - k,
    {
        proof {
            lemma_types_view(ce@);
            lemma_types_view_ops(ce@);
        }
        let x = ce[k].copy();
        let (b, x2, t2) = match_values(x, ct, Ghost(fuel));
        ce.set(k, x2);
        ct = t2;
        if !b {
            return (false, ce, ct);
        }
        k += 1;
    }
    proof {
        lemma_types_view(ce@);
    }
    (true, ce, ct)
}

impl ExpressionType {
    /// Matches this type against `other`; each may learn from the other (see
    /// [`match_spec`]).  Returns whether they match.
    pub fn match_type(&mut self, other: &mut ExprType) -> (r: bool)
        requires
            match_result(old(self)@, old(other)@) is Some,
        ensures
            match_result(old(self)@, old(other)@) == Some((r, final(self)@, final(other)@)),
    {
        let mut l = ExprType::Void;
        let mut r = ExprType::Void;
        std::mem::swap(&mut l, self);
        std::mem::swap(&mut r, other);
        let ghost fuel = match_fuel(l@, r@);
        let (b, l2, r2) = match_values(l, r, Ghost(fuel));
        *self = l2;
        *other = r2;
        b
    }
}

// Real types and sizes.

/// A type that a value can have at run time: not an ambiguous type, a
/// group, a discard or `void`.
pub open spec fn is_real_view(t: TypeView) -> bool {
    !(t is AmbiguousType || t is AmbiguousNegInteger || t is AmbiguousPosInteger || t is AmbiguousFloat
        || t is AmbiguousGroup || t is DiscardSingle || t is DiscardMany || t is Void)
}

impl ExpressionType {
    /// Whether this is a type that a value can have at run time (see
    /// [`is_real_view`]).
    pub fn is_real_type(&self) -> (r: bool)
        ensures
            r == is_real_view(self@),
    {
        !matches!(self, ExprType::AmbiguousType | ExprType::AmbiguousNegInteger | ExprType::AmbiguousPosInteger
            | ExprType::AmbiguousFloat | ExprType::AmbiguousGroup { .. } | ExprType::DiscardSingle
            | ExprType::DiscardMany | ExprType::Void)
    }
}

/// The size of a `usize` in bytes on this machine.
pub open spec fn arch_size() -> nat {
    vstd::layout::size_of::<usize>()
}

/// The index of the first struct named `name`.
pub open spec fn find_struct(structs: Seq<Struct>, name: Seq<char>) -> Option<int>
    decreases structs.len(),
{
    if structs.len() == 0 {
        None
    } else {
        match find_struct(structs.drop_last(), name) {
            Some(i) => Some(i),
            None => if structs.last().name@ == name {
                Some(structs.len() - 1)
            } else {
                None
            },
        }
    }
}

/// The types of a struct's fields, in order.
pub open spec fn field_types(s: Struct) -> Seq<TypeView> {
    Seq::new(s.fields@.len(), |j: int| s.fields@[j].field_type@)
}

/// The size in bytes of a value of type `t`: the sizes of the parts added
/// up with no padding; `None` where the size is not defined (an ambiguous,
/// group or function type, an array of unknown length, a struct that does
/// not exist), where it does not fit in a `usize`, or where the structs
/// nest deeper than `fuel`.
pub open spec fn size_spec(t: TypeView, structs: Seq<Struct>, fuel: nat) -> Option<nat>
    decreases fuel, 0int,
{
    if fuel == 0 {
        None
    } else {
        let f = (fuel - 1) as nat;
        match t {
            TypeView::AmbiguousType => None,
            TypeView::AmbiguousNegInteger | TypeView::AmbiguousPosInteger => Some(arch_size()),
            TypeView::AmbiguousFloat => Some(4),
            TypeView::I8 | TypeView::U8 | TypeView::Char | TypeView::Bool => Some(1),
            TypeView::I16 | TypeView::U16 => Some(2),
            TypeView::I32 | TypeView::U32 | TypeView::F32 => Some(4),
            TypeView::I64 | TypeView::U64 | TypeView::F64 => Some(8),
            TypeView::I128 | TypeView::U128 => Some(16),
            TypeView::ISize | TypeView::USize | TypeView::Ref(_) | TypeView::MutRef(_) => Some(arch_size()),
            TypeView::StringLiteral => Some(arch_size() * 2),
            TypeView::Array { length: Some(n), expr_type } => match size_spec(*expr_type, structs, f) {
                Some(s) => if s * n <= usize::MAX {
                    Some(s * (n as nat))
                } else {
                    None
                },
                None => None,
            },
            TypeView::Array { length: None, .. } => None,
            TypeView::Tuple { .. } | TypeView::AmbiguousGroup { .. } | TypeView::Function { .. }
            | TypeView::FunctionPass { .. } => None,
            TypeView::DiscardSingle | TypeView::DiscardMany | TypeView::Void | TypeView::Never => Some(0),
            TypeView::Custom { ident } => match find_struct(structs, ident) {
                Some(i) => size_sum_spec(field_types(structs[i]), 0, 0, structs, f),
                None => None,
            },
            TypeView::AnonymousCustom { fields } => size_sum_spec(
                fields.map_values(|p: (Seq<char>, TypeView)| p.1),
                0,
                0,
                structs,
                f,
            ),
        }
    }
}

/// `acc` plus the sizes of `ts` from the `k`-th on, added in order; `None`
/// where one of them has no size or a sum does not fit in a `usize`.
pub open spec fn size_sum_spec(ts: Seq<TypeView>, k: int, acc: nat, structs: Seq<Struct>, fuel: nat) -> Option<nat>
    decreases fuel, ts.len() - k,
{
    if k < 0 || k >= ts.len() {
        Some(acc)
    } else {
        match size_spec(ts[k], structs, fuel) {
            Some(s) => if acc + s <= usize::MAX {
                size_sum_spec(ts, k + 1, acc + s, structs, fuel)
            } else {
                None
            },
            None => None,
        }
    }
}

/// The size of a value of type `t` (see [`size_spec`]), with as much fuel
/// as the structs need; `None` where there is none.
pub open spec fn type_size(t: TypeView, structs: Seq<Struct>) -> Option<nat> {
    if exists|fuel: nat| #[trigger] size_spec(t, structs, fuel) is Some {
        size_spec(t, structs, choose|fuel: nat| #[trigger] size_spec(t, structs, fuel) is Some)
    } else {
        None
    }
}

/// The index of the first struct named `name` (see [`find_struct`]).
pub(crate) fn find_struct_index(structs: &[Struct], name: &String) -> (r: Option<usize>)
    ensures
        r matches Some(i) ==> find_struct(structs@, name@) == Some(i as int) && i < structs@.len(),
        r is None ==> find_struct(structs@, name@) is None,
{
    let mut i: usize = 0;
    while i < structs.len()
        invariant
            i <= structs.len(),
            find_struct(structs@.take(i as int), name@) is None,
        decreases structs.len() - i,
    {
        assert(structs@.take(i + 1).drop_last() =~= structs@.take(i as int));
        if structs[i].name == *name {
            proof {
                lemma_find_struct_prefix(structs@, i + 1, name@);
            }
            return Some(i);
        }
        i += 1;
    }
    assert(structs@.take(i as int) =~= structs@);
    None
}

/// Where the first struct of a prefix with the name is found, it is the
/// first in the whole list.
proof fn lemma_find_struct_prefix(structs: Seq<Struct>, n: int, name: Seq<char>)
    requires
        0 <= n <= structs.len(),
        find_struct(structs.take(n), name) is Some,
    ensures
        find_struct(structs, name) == find_struct(structs.take(n), name),
    decreases structs.len() - n,
{
    if n < structs.len() {
        assert(structs.take(n + 1).drop_last() =~= structs.take(n));
        lemma_find_struct_prefix(structs, n + 1, name);
    } else {
        assert(structs.take(n) =~= structs);
    }
}

/// The size of a value of type `t` (see [`size_spec`]).
fn size_rec(t: &ExprType, structs: &[Struct], Ghost(fuel): Ghost<nat>) -> (r: usize)
    requires
        size_spec(t@, structs@, fuel) is Some,
    ensures
        size_spec(t@, structs@, fuel) == Some(r as nat),
    decreases fuel,
{
    broadcast use vstd::layout::layout_of_primitives;
    assert(fuel != 0);
    let arch = std::mem::size_of::<usize>();
    let ghost f = (fuel - 1) as nat;
    match t {
        ExprType::AmbiguousNegInteger | ExprType::AmbiguousPosInteger => arch,
        ExprType::AmbiguousFloat => 4,
        ExprType::I8 | ExprType::U8 | ExprType::Char | ExprType::Bool => 1,
        ExprType::I16 | ExprType::U16 => 2,
        ExprType::I32 | ExprType::U32 | ExprType::F32 => 4,
        ExprType::I64 | ExprType::U64 | ExprType::F64 => 8,
        ExprType::I128 | ExprType::U128 => 16,
        ExprType::ISize | ExprType::USize | ExprType::Ref(_) | ExprType::MutRef(_) => arch,
        ExprType::StringLiteral => arch * 2,
        ExprType::Array { length: Some(n), expr_type } => {
            let s = size_rec(expr_type, structs, Ghost(f));
            s * *n
        },
        ExprType::DiscardSingle | ExprType::DiscardMany | ExprType::Void | ExprType::Never => 0,
        ExprType::Custom { ident } => {
            let i = find_struct_index(structs, ident);
            match i {
                Some(i) => {
                    let fields = &structs[i].fields;
                    let mut size: usize = 0;
                    let mut k: usize = 0;
                    while k < fields.len()
                        invariant
                            k <= fields.len(),
                            fuel != 0,
                            f == (fuel - 1) as nat,
                            *fields == structs@[i as int].fields,
                            size_sum_spec(field_types(structs@[i as int]), 0, 0, structs@, f)
                                == size_sum_spec(field_types(structs@[i as int]), k as int, size as nat, structs@, f),
                            size_sum_spec(field_types(structs@[i as int]), 0, 0, structs@, f) is Some,
                        decreases fields.len() - k,
                    {
                        let s = size_rec(&fields[k].field_type, structs, Ghost(f));
                        size = size + s;
                        k += 1;
                    }
                    size
                },
                None => 0,
            }
        },
        ExprType::AnonymousCustom { fields } => {
            let ghost ts = fields_view(fields@).map_values(|p: (Seq<char>, TypeView)| p.1);
            proof {
                lemma_fields_view(fields@);
            }
            let mut size: usize = 0;
            let mut k: usize = 0;
            while k < fields.len()
                invariant
                    k <= fields.len(),
                    fuel != 0,
                    f == (fuel - 1) as nat,
                    ts.len() == fields.len(),
                    forall|j: int| 0 <= j < fields.len() ==> #[trigger] ts[j] == fields@[j].1@,
                    size_sum_spec(ts, 0, 0, structs@, f) == size_sum_spec(ts, k as int, size as nat, structs@, f),
                    size_sum_spec(ts, 0, 0, structs@, f) is Some,
                decreases fields.len() - k,
            {
                let s = size_rec(&fields[k].1, structs, Ghost(f));
                size = size + s;
                k += 1;
            }
            size
        },
        _ => 0,
    }
}

impl ExpressionType {
    /// The size in bytes of a value of this type (see [`size_spec`]).
    pub fn size_of(&self, structs: &[Struct]) -> (r: usize)
        requires
            type_size(self@, structs@) is Some,
        ensures
            type_size(self@, structs@) == Some(r as nat),
    {
        let ghost fuel = choose|fuel: nat| #[trigger] size_spec(self@, structs@, fuel) is Some;
        size_rec(self, structs, Ghost(fuel))
    }
}

// Type cells.

/// The cells that hold the types of expressions.  An expression's type is a
/// list of cells that always hold the same type; matching two expressions'
/// types writes what each learnt into all its cells.
#[derive(Debug)]
pub struct TypeCells {
    cells: Vec<ExprType>,
}

impl View for TypeCells {
    type V = Seq<TypeView>;

    closed spec fn view(&self) -> Seq<TypeView> {
        types_view(self.cells@)
    }
}

impl TypeCells {
    /// No cells.
    pub fn new() -> (r: TypeCells)
        ensures
            r@ == Seq::<TypeView>::empty(),
    {
        TypeCells { cells: Vec::new() }
    }

    /// A new cell holding `t`; returns its index.
    pub fn add_cell(&mut self, t: ExprType) -> (r: usize)
        requires
            old(self)@.len() < usize::MAX,
        ensures
            final(self)@ == old(self)@.push(t@),
            r == old(self)@.len(),
    {
        proof {
            lemma_types_view(self.cells@);
            lemma_types_view_ops(self.cells@);
        }
        let r = self.cells.len();
        let ghost before = self.cells@;
        self.cells.push(t);
        proof {
            lemma_types_view(self.cells@);
            assert(self.cells@ == before + seq![t]);
            assert(types_view(self.cells@) =~= types_view(before).push(t@));
        }
        r
    }

    /// The number of cells.
    pub fn len(&self) -> (r: usize)
        ensures
            r == self@.len(),
    {
        proof {
            lemma_types_view(self.cells@);
        }
        self.cells.len()
    }

    /// The type in cell `i`.
    pub fn get(&self, i: usize) -> (r: &ExprType)
        requires
            i < self@.len(),
        ensures
            r@ == self@[i as int],
    {
        proof {
            lemma_types_view(self.cells@);
        }
        &self.cells[i]
    }

    /// Writes `t` into cell `i`.
    pub fn set(&mut self, i: usize, t: ExprType)
        requires
            i < old(self)@.len(),
        ensures
            final(self)@ == old(self)@.update(i as int, t@),
    {
        proof {
            lemma_types_view(self.cells@);
            lemma_types_view_ops(self.cells@);
        }
        self.cells.set(i, t);
    }
}

/// Short name of [`ExpressionTypeContainer`].
pub type ExprTypeCons = ExpressionTypeContainer;

/// The type of an expression: the cells that hold it, the first of which
/// is read.
#[derive(Debug)]
pub struct ExpressionTypeContainer {
    stored: Vec<usize>,
}

impl View for ExpressionTypeContainer {
    type V = Seq<usize>;

    closed spec fn view(&self) -> Seq<usize> {
        self.stored@
    }
}

/// `cells` with `t` written into each of the cells `idx`.
pub open spec fn write_cells(cells: Seq<TypeView>, idx: Seq<usize>, t: TypeView) -> Seq<TypeView> {
    Seq::new(cells.len(), |j: int| if idx.contains(j as usize) { t } else { cells[j] })
}

impl ExpressionTypeContainer {
    /// The container is not empty and names only cells that exist.
    pub open spec fn valid_in(&self, cells: Seq<TypeView>) -> bool {
        &&& self@.len() > 0
        &&& forall|j: int| 0 <= j < self@.len() ==> #[trigger] self@[j] < cells.len()
    }

    /// The type that the container holds.
    pub open spec fn type_in(&self, cells: Seq<TypeView>) -> TypeView {
        cells[self@[0] as int]
    }

    /// A container of one new cell holding `expr_type`.
    pub fn new(cells: &mut TypeCells, expr_type: ExprType) -> (r: ExprTypeCons)
        requires
            old(cells)@.len() < usize::MAX,
        ensures
            final(cells)@ == old(cells)@.push(expr_type@),
            r@ == seq![old(cells)@.len() as usize],
    {
        let i = cells.add_cell(expr_type);
        let mut stored = Vec::new();
        stored.push(i);
        ExpressionTypeContainer { stored }
    }

    /// A container of the one cell `expr_type`.
    pub fn new_stored(expr_type: usize) -> (r: ExprTypeCons)
        ensures
            r@ == seq![expr_type],
    {
        let mut stored = Vec::new();
        stored.push(expr_type);
        ExpressionTypeContainer { stored }
    }

    /// A copy of the type that the container holds.
    pub fn clone_inner(&self, cells: &TypeCells) -> (r: ExprType)
        requires
            self.valid_in(cells@),
        ensures
            r@ == self.type_in(cells@),
    {
        cells.get(self.stored[0]).copy()
    }

    /// The type that the container holds.
    pub fn get<'a>(&self, cells: &'a TypeCells) -> (r: &'a ExprType)
        requires
            self.valid_in(cells@),
        ensures
            r@ == self.type_in(cells@),
    {
        cells.get(self.stored[0])
    }

    /// The cells of both containers, this one's first.
    fn combine(self, other: ExprTypeCons) -> (r: ExprTypeCons)
        ensures
            r@ == self@ + other@,
    {
        let mut stored = self.stored;
        let mut rest = other.stored;
        stored.append(&mut rest);
        ExpressionTypeContainer { stored }
    }

    /// Writes `expr_type` into every cell of the container.
    fn update(&self, cells: &mut TypeCells, expr_type: &ExprType)
        requires
            self.valid_in(old(cells)@),
        ensures
            final(cells)@ == write_cells(old(cells)@, self@, expr_type@),
    {
        let ghost start = cells@;
        let _n = cells.len();
        let mut k: usize = 0;
        while k < self.stored.len()
            invariant
                self.valid_in(start),
                start.len() <= usize::MAX,
                k <= self@.len(),
                cells@.len() == start.len(),
                forall|j: int|
                    0 <= j < start.len() ==> #[trigger] cells@[j] == if self@.take(k as int).contains(j as usize) {
                        expr_type@
                    } else {
                        start[j]
                    },
            decreases self@.len() - k,
        {
            let i = self.stored[k];
            cells.set(i, expr_type.copy());
            proof {
                broadcast use vstd::seq_lib::group_seq_properties;
                assert forall|j: int| 0 <= j < start.len() implies #[trigger] cells@[j] == if self@.take(k + 1).contains(
                    j as usize,
                ) {
                    expr_type@
                } else {
                    start[j]
                } by {
                    assert(self@.take(k + 1) =~= self@.take(k as int).push(i));
                    assert(self@.take(k + 1).contains(j as usize) <==> (self@.take(k as int).contains(j as usize) || i == j as usize));
                    if j == i as int {
                        assert(self@.take(k + 1)[k as int] == i);
                    }
                }
            }
            k += 1;
        }
        assert(self@.take(k as int) =~= self@);
        assert(cells@ =~= write_cells(start, self@, expr_type@));
    }

    /// Matches the type of this container against that of `other` (see
    /// [`match_spec`]).  Where they do not match, nothing changes and the
    /// result is `None`.  Where they do, each container's cells take the
    /// type it learnt (`other`'s where a cell is in both), and the result is
    /// a container of the cells of both.
    pub fn match_type(&mut self, other: &mut ExprTypeCons, cells: &mut TypeCells) -> (r: Option<ExprTypeCons>)
        requires
            old(self).valid_in(old(cells)@),
            old(other).valid_in(old(cells)@),
            match_result(old(self).type_in(old(cells)@), old(other).type_in(old(cells)@)) is Some,
        ensures
            *final(self) == *old(self),
            *final(other) == *old(other),
            ({
                let (b, l, rt) = match_result(old(self).type_in(old(cells)@), old(other).type_in(old(cells)@))->0;
                if b {
                    r matches Some(c) && c@ == old(self)@ + old(other)@
                        && final(cells)@ == write_cells(write_cells(old(cells)@, old(self)@, l), old(other)@, rt)
                } else {
                    r is None && final(cells)@ == old(cells)@
                }
            }),
    {
        let mut left = self.clone_inner(cells);
        let mut right = other.clone_inner(cells);
        if !left.match_type(&mut right) {
            return None;
        }
        self.update(cells, &left);
        other.update(cells, &right);
        let a = self.clone();
        let b = other.clone();
        Some(a.combine(b))
    }
}

impl Clone for ExpressionTypeContainer {
    /// A container of the same cells.
    fn clone(&self) -> (r: Self)
        ensures
            r@ == self@,
    {
        ExpressionTypeContainer { stored: self.stored.clone() }
    }
}

// Types as text.

/// The decimal digits of `n`.
pub open spec fn nat_text(n: nat) -> Seq<char>
    decreases n,
{
    if n < 10 {
        seq![digit_char(n)]
    } else {
        nat_text(n / 10) + seq![digit_char(n % 10)]
    }
}

/// The character of a decimal digit.
pub open spec fn digit_char(d: nat) -> char {
    if d == 0 {
        '0'
    } else if d == 1 {
        '1'
    } else if d == 2 {
        '2'
    } else if d == 3 {
        '3'
    } else if d == 4 {
        '4'
    } else if d == 5 {
        '5'
    } else if d == 6 {
        '6'
    } else if d == 7 {
        '7'
    } else if d == 8 {
        '8'
    } else {
        '9'
    }
}

/// Whether a type can be written as text: it holds no group or function
/// type, whose text is not defined.
pub open spec fn has_text(t: TypeView) -> bool
    decreases t,
{
    match t {
        TypeView::Ref(b) => has_text(*b),
        TypeView::MutRef(b) => has_text(*b),
        TypeView::Array { expr_type, .. } => has_text(*expr_type),
        TypeView::Tuple { .. } | TypeView::AmbiguousGroup { .. } | TypeView::Function { .. }
        | TypeView::FunctionPass { .. } => false,
        TypeView::AnonymousCustom { fields } => forall|i: int| 0 <= i < fields.len() ==> has_text(#[trigger] fields[i].1),
        _ => true,
    }
}

/// A type written as text, as in error messages: the name of a primitive
/// type, `&t`, `&mut t`, `[t; n]` (with `?` for an unknown length), a
/// struct's name, or `{ a: t, b: u }` (`{}` without fields).
pub open spec fn type_text(t: TypeView) -> Seq<char>
    decreases t, text_measure(t),
{
    match t {
        TypeView::AmbiguousType => "`Ambiguous Type`"@,
        TypeView::I8 => "i8"@,
        TypeView::I16 => "i16"@,
        TypeView::I32 => "i32"@,
        TypeView::I64 => "i64"@,
        TypeView::I128 => "i128"@,
        TypeView::ISize => "isize"@,
        TypeView::AmbiguousNegInteger => "`Ambiguous Negative Integer`"@,
        TypeView::U8 => "u8"@,
        TypeView::U16 => "u16"@,
        TypeView::U32 => "u32"@,
        TypeView::U64 => "u64"@,
        TypeView::U128 => "u128"@,
        TypeView::USize => "usize"@,
        TypeView::AmbiguousPosInteger => "`Ambiguous Positive Integer`"@,
        TypeView::F32 => "f32"@,
        TypeView::F64 => "f64"@,
        TypeView::AmbiguousFloat => "`Ambiguous Float`"@,
        TypeView::Char => "char"@,
        TypeView::StringLiteral => "str"@,
        TypeView::Bool => "bool"@,
        TypeView::DiscardSingle => "_"@,
        TypeView::DiscardMany => ".."@,
        TypeView::Void => "void"@,
        TypeView::Never => "!"@,
        TypeView::Ref(b) => "&"@ + type_text(*b),
        TypeView::MutRef(b) => "&mut "@ + type_text(*b),
        TypeView::Array { length: Some(n), expr_type } => "["@ + type_text(*expr_type) + "; "@ + nat_text(n as nat)
            + "]"@,
        TypeView::Array { length: None, expr_type } => "["@ + type_text(*expr_type) + "; ?]"@,
        TypeView::Custom { ident } => ident,
        TypeView::AnonymousCustom { fields } => if fields.len() == 0 {
            "{}"@
        } else {
            "{ "@ + fields_text(t, fields.len()) + " }"@
        },
        _ => Seq::empty(),
    }
}

/// One more than the number of fields of a struct type.
pub open spec fn text_measure(t: TypeView) -> nat {
    match t {
        TypeView::AnonymousCustom { fields } => fields.len() + 1,
        _ => 0,
    }
}

/// The first `k` fields of the struct type `t` as text: `a: t, b: u`.
pub open spec fn fields_text(t: TypeView, k: nat) -> Seq<char>
    decreases t, k,
{
    match t {
        TypeView::AnonymousCustom { fields } => if k == 0 || k > fields.len() {
            Seq::empty()
        } else {
            let f = fields[k - 1];
            let one = f.0 + ": "@ + type_text(f.1);
            if k == 1 {
                one
            } else {
                fields_text(t, (k - 1) as nat) + ", "@ + one
            }
        },
        _ => Seq::empty(),
    }
}

/// The decimal digits of `n`.
pub(crate) fn usize_text(n: usize) -> (r: String)
    ensures
        r@ == nat_text(n as nat),
    decreases n,
{
    let mut out = if n >= 10 {
        usize_text(n / 10)
    } else {
        String::new()
    };
    let d = n % 10;
    let s = if d == 0 {
        "0"
    } else if d == 1 {
        "1"
    } else if d == 2 {
        "2"
    } else if d == 3 {
        "3"
    } else if d == 4 {
        "4"
    } else if d == 5 {
        "5"
    } else if d == 6 {
        "6"
    } else if d == 7 {
        "7"
    } else if d == 8 {
        "8"
    } else {
        "9"
    };
    proof {
        reveal_strlit("0");
        reveal_strlit("1");
        reveal_strlit("2");
        reveal_strlit("3");
        reveal_strlit("4");
        reveal_strlit("5");
        reveal_strlit("6");
        reveal_strlit("7");
        reveal_strlit("8");
        reveal_strlit("9");
        if n < 10 {
            assert(out@ == Seq::<char>::empty());
        }
    }
    out.append(s);
    proof {
        if n < 10 {
            assert(out@ =~= seq![digit_char(n as nat)]);
        } else {
            assert(out@ =~= nat_text((n / 10) as nat) + seq![digit_char((n % 10) as nat)]);
        }
    }
    out
}

/// The decimal digits of `n`.
pub(crate) fn u128_text(n: u128) -> (r: String)
    ensures
        r@ == nat_text(n as nat),
    decreases n,
{
    let mut out = if n >= 10 {
        u128_text(n / 10)
    } else {
        String::new()
    };
    let d = n % 10;
    let s = if d == 0 {
        "0"
    } else if d == 1 {
        "1"
    } else if d == 2 {
        "2"
    } else if d == 3 {
        "3"
    } else if d == 4 {
        "4"
    } else if d == 5 {
        "5"
    } else if d == 6 {
        "6"
    } else if d == 7 {
        "7"
    } else if d == 8 {
        "8"
    } else {
        "9"
    };
    proof {
        reveal_strlit("0");
        reveal_strlit("1");
        reveal_strlit("2");
        reveal_strlit("3");
        reveal_strlit("4");
        reveal_strlit("5");
        reveal_strlit("6");
        reveal_strlit("7");
        reveal_strlit("8");
        reveal_strlit("9");
        if n < 10 {
            assert(out@ == Seq::<char>::empty());
        }
    }
    out.append(s);
    proof {
        if n < 10 {
            assert(out@ =~= seq![digit_char(n as nat)]);
        } else {
            assert(out@ =~= nat_text((n / 10) as nat) + seq![digit_char((n % 10) as nat)]);
        }
    }
    out
}

impl ExpressionType {
    /// The type written as text (see [`type_text`]).
    pub fn to_text(&self) -> (r: String)
        requires
            has_text(self@),
        ensures
            r@ == type_text(self@),
        decreases self,
    {
        let simple: &str = match self {
            ExprType::AmbiguousType => {
                proof {
                    reveal_strlit("`Ambiguous Type`");
                }
                "`Ambiguous Type`"
            },
            ExprType::I8 => {
                proof {
                    reveal_strlit("i8");
                }
                "i8"
            },
            ExprType::I16 => {
                proof {
                    reveal_strlit("i16");
                }
                "i16"
            },
            ExprType::I32 => {
                proof {
                    reveal_strlit("i32");
                }
                "i32"
            },
            ExprType::I64 => {
                proof {
                    reveal_strlit("i64");
                }
                "i64"
            },
            ExprType::I128 => {
                proof {
                    reveal_strlit("i128");
                }
                "i128"
            },
            ExprType::ISize => {
                proof {
                    reveal_strlit("isize");
                }
                "isize"
            },
            ExprType::AmbiguousNegInteger => {
                proof {
                    reveal_strlit("`Ambiguous Negative Integer`");
                }
                "`Ambiguous Negative Integer`"
            },
            ExprType::U8 => {
                proof {
                    reveal_strlit("u8");
                }
                "u8"
            },
            ExprType::U16 => {
                proof {
                    reveal_strlit("u16");
                }
                "u16"
            },
            ExprType::U32 => {
                proof {
                    reveal_strlit("u32");
                }
                "u32"
            },
            ExprType::U64 => {
                proof {
                    reveal_strlit("u64");
                }
                "u64"
            },
            ExprType::U128 => {
                proof {
                    reveal_strlit("u128");
                }
                "u128"
            },
            ExprType::USize => {
                proof {
                    reveal_strlit("usize");
                }
                "usize"
            },
            ExprType::AmbiguousPosInteger => {
                proof {
                    reveal_strlit("`Ambiguous Positive Integer`");
                }
                "`Ambiguous Positive Integer`"
            },
            ExprType::F32 => {
                proof {
                    reveal_strlit("f32");
                }
                "f32"
            },
            ExprType::F64 => {
                proof {
                    reveal_strlit("f64");
                }
                "f64"
            },
            ExprType::AmbiguousFloat => {
                proof {
                    reveal_strlit("`Ambiguous Float`");
                }
                "`Ambiguous Float`"
            },
            ExprType::Char => {
                proof {
                    reveal_strlit("char");
                }
                "char"
            },
            ExprType::StringLiteral => {
                proof {
                    reveal_strlit("str");
                }
                "str"
            },
            ExprType::Bool => {
                proof {
                    reveal_strlit("bool");
                }
                "bool"
            },
            ExprType::DiscardSingle => {
                proof {
                    reveal_strlit("_");
                }
                "_"
            },
            ExprType::DiscardMany => {
                proof {
                    reveal_strlit("..");
                }
                ".."
            },
            ExprType::Void => {
                proof {
                    reveal_strlit("void");
                }
                "void"
            },
            ExprType::Never => {
                proof {
                    reveal_strlit("!");
                }
                "!"
            },
            _ => "",
        };
        match self {
            ExprType::Ref(b) => {
                let mut out = String::from_str("&");
                out.append(b.to_text().as_str());
                proof {
                    reveal_strlit("&");
                }
                out
            },
            ExprType::MutRef(b) => {
                let mut out = String::from_str("&mut ");
                out.append(b.to_text().as_str());
                proof {
                    reveal_strlit("&mut ");
                }
                out
            },
            ExprType::Array { length, expr_type } => {
                let mut out = String::from_str("[");
                proof {
                    reveal_strlit("[");
                    reveal_strlit("; ");
                    reveal_strlit("]");
                    reveal_strlit("; ?]");
                }
                out.append(expr_type.to_text().as_str());
                match length {
                    Some(n) => {
                        out.append("; ");
                        out.append(usize_text(*n).as_str());
                        out.append("]");
                    },
                    None => {
                        out.append("; ?]");
                    },
                }
                out
            },
            ExprType::Custom { ident } => ident.clone(),
            ExprType::AnonymousCustom { fields } => {
                proof {
                    reveal_strlit("{}");
                    reveal_strlit("{ ");
                    reveal_strlit(", ");
                    reveal_strlit(": ");
                    reveal_strlit(" }");
                    lemma_fields_view(fields@);
                }
                if fields.len() == 0 {
                    return String::from_str("{}");
                }
                let mut out = String::from_str("{ ");
                let mut k: usize = 0;
                proof {
                    lemma_fields_view(fields@);
                }
                while k < fields.len()
                    invariant
                        *self == (ExprType::AnonymousCustom { fields: *fields }),
                        has_text(self@),
                        k <= fields@.len(),
                        fields_view(fields@).len() == fields@.len(),
                        forall|i: int| 0 <= i < fields@.len() ==> #[trigger] fields_view(fields@)[i] == (
                        fields@[i].0@,
                        type_view(fields@[i].1),
                        ),
                        out@ == "{ "@ + if k == 0 {
                            Seq::<char>::empty()
                        } else {
                            fields_text(self@, k as nat)
                        },
                    decreases fields@.len() - k,
                {
                    if k > 0 {
                        out.append(", ");
                    }
                    out.append(fields[k].0.as_str());
                    out.append(": ");
                    assert(has_text(fields_view(fields@)[k as int].1));
                    out.append(fields[k].1.to_text().as_str());
                    k += 1;
                }
                out.append(" }");
                out
            },
            _ => String::from_str(simple),
        }
    }
}

// Literals.

/// Short name of [`Literal`].
pub type Lit = Literal;

/// A literal value.  A floating-point literal keeps its text.
#[derive(Debug)]
pub enum Literal {
    IntegerLiteral(i128),
    FloatLiteral(String),
    CharLiteral(char),
    StringLiteral(String),
    BooleanLiteral(bool),
}

/// The type that a literal is given.
pub open spec fn literal_type(l: Literal) -> TypeView {
    match l {
        Literal::IntegerLiteral(_) => TypeView::AmbiguousNegInteger,
        Literal::FloatLiteral(_) => TypeView::AmbiguousFloat,
        Literal::CharLiteral(_) => TypeView::Char,
        Literal::StringLiteral(_) => TypeView::StringLiteral,
        Literal::BooleanLiteral(_) => TypeView::Bool,
    }
}

impl Literal {
    /// The type that this literal is given (see [`literal_type`]).
    pub fn get_type(&self) -> (r: ExprType)
        ensures
            r@ == literal_type(*self),
    {
        match self {
            Literal::IntegerLiteral(_) => ExprType::AmbiguousNegInteger,
            Literal::FloatLiteral(_) => ExprType::AmbiguousFloat,
            Literal::CharLiteral(_) => ExprType::Char,
            Literal::StringLiteral(_) => ExprType::StringLiteral,
            Literal::BooleanLiteral(_) => ExprType::Bool,
        }
    }
}

} // verus!
