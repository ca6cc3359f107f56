//! A three-way result: a value, a recoverable ("soft") error, or an
//! unrecoverable ("hard") error.  Parsers use the soft error to say "this rule
//! does not apply here, try the next one" and the hard error to say "this rule
//! applies but the input is malformed".
use vstd::prelude::*;

verus! {

/// A value (`Okay`), a soft error or a hard error.
pub enum FullResult<T, E1, E2> {
    Okay(T),
    SoftErr(E1),
    HardErr(E2),
}

/// One of two values.
pub enum Either<T, U> {
    This(T),
    That(U),
}

impl<T, E1, E2> FullResult<T, E1, E2> {
    /// `true` exactly for an `Okay`.
    pub fn is_ok(&self) -> (r: bool)
        ensures
            r == (*self is Okay),
    {
        match self {
            FullResult::Okay(_) => true,
            _ => false,
        }
    }

    /// `true` exactly for an `Okay` whose value satisfies `f`.
    pub fn is_ok_and<F: FnOnce(T) -> bool>(self, f: F) -> (r: bool)
        requires
            self matches FullResult::Okay(v) ==> f.requires((v,)),
        ensures
            match self {
                FullResult::Okay(v) => f.ensures((v,), r),
                _ => !r,
            },
    {
        if let FullResult::Okay(value) = self {
            return f(value);
        }
        return false;
    }

    /// `true` exactly for a `SoftErr`.
    pub fn is_soft_err(&self) -> (r: bool)
        ensures
            r == (*self is SoftErr),
    {
        match self {
            FullResult::SoftErr(_) => true,
            _ => false,
        }
    }

    /// `true` exactly for a `SoftErr` whose error satisfies `f`.
    pub fn is_soft_err_and<F: FnOnce(E1) -> bool>(self, f: F) -> (r: bool)
        requires
            self matches FullResult::SoftErr(e) ==> f.requires((e,)),
        ensures
            match self {
                FullResult::SoftErr(e) => f.ensures((e,), r),
                _ => !r,
            },
    {
        if let FullResult::SoftErr(value) = self {
            return f(value);
        }
        return false;
    }

    /// `true` exactly for a `HardErr`.
    pub fn is_hard_err(&self) -> (r: bool)
        ensures
            r == (*self is HardErr),
    {
        match self {
            FullResult::HardErr(_) => true,
            _ => false,
        }
    }

    /// `true` exactly for a `HardErr` whose error satisfies `f`.
    pub fn is_hard_err_and<F: FnOnce(E2) -> bool>(self, f: F) -> (r: bool)
        requires
            self matches FullResult::HardErr(e) ==> f.requires((e,)),
        ensures
            match self {
                FullResult::HardErr(e) => f.ensures((e,), r),
                _ => !r,
            },
    {
        if let FullResult::HardErr(value) = self {
            return f(value);
        }
        return false;
    }

    /// The value of an `Okay`, else `None`.
    pub fn ok(self) -> (r: Option<T>)
        ensures
            r == (match self {
                FullResult::Okay(v) => Some(v),
                _ => None,
            }),
    {
        if let FullResult::Okay(value) = self {
            return Some(value);
        }
        return None;
    }

    /// The error of a `SoftErr`, else `None`.
    pub fn soft_err(self) -> (r: Option<E1>)
        ensures
            r == (match self {
                FullResult::SoftErr(e) => Some(e),
                _ => None,
            }),
    {
        if let FullResult::SoftErr(value) = self {
            return Some(value);
        }
        return None;
    }

    /// The error of a `HardErr`, else `None`.
    pub fn hard_err(self) -> (r: Option<E2>)
        ensures
            r == (match self {
                FullResult::HardErr(e) => Some(e),
                _ => None,
            }),
    {
        if let FullResult::HardErr(value) = self {
            return Some(value);
        }
        return None;
    }

    /// The same variant, holding a reference to the content.
    pub fn as_ref(&self) -> (r: FullResult<&T, &E1, &E2>)
        ensures
            match *self {
                FullResult::Okay(v) => r == FullResult::<&T, &E1, &E2>::Okay(&v),
                FullResult::SoftErr(e) => r == FullResult::<&T, &E1, &E2>::SoftErr(&e),
                FullResult::HardErr(e) => r == FullResult::<&T, &E1, &E2>::HardErr(&e),
            },
    {
        match self {
            FullResult::Okay(value) => FullResult::Okay(value),
            FullResult::SoftErr(value) => FullResult::SoftErr(value),
            FullResult::HardErr(value) => FullResult::HardErr(value),
        }
    }

    /// The same variant, holding a mutable reference to the content; what is
    /// written through it lands in `self`.
    pub fn as_mut(&mut self) -> (r: FullResult<&mut T, &mut E1, &mut E2>)
        ensures
            match *old(self) {
                FullResult::Okay(v) => r matches FullResult::Okay(m) && *m == v
                    && *final(self) == FullResult::<T, E1, E2>::Okay(*final(m)),
                FullResult::SoftErr(e) => r matches FullResult::SoftErr(m) && *m == e
                    && *final(self) == FullResult::<T, E1, E2>::SoftErr(*final(m)),
                FullResult::HardErr(e) => r matches FullResult::HardErr(m) && *m == e
                    && *final(self) == FullResult::<T, E1, E2>::HardErr(*final(m)),
            },
    {
        match self {
            FullResult::Okay(value) => FullResult::Okay(value),
            FullResult::SoftErr(value) => FullResult::SoftErr(value),
            FullResult::HardErr(value) => FullResult::HardErr(value),
        }
    }

    /// The same variant, holding the content dereferenced for an `Okay` and
    /// a reference to the error otherwise.
    pub fn as_deref(&self) -> (r: FullResult<&<T as std::ops::Deref>::Target, &E1, &E2>)
        where T: std::ops::Deref,
        ensures
            match *self {
                FullResult::Okay(_) => r is Okay,
                FullResult::SoftErr(e) => r == FullResult::<&<T as std::ops::Deref>::Target, &E1, &E2>::SoftErr(&e),
                FullResult::HardErr(e) => r == FullResult::<&<T as std::ops::Deref>::Target, &E1, &E2>::HardErr(&e),
            },
    {
        match self {
            FullResult::Okay(value) => FullResult::Okay(value.deref()),
            FullResult::SoftErr(value) => FullResult::SoftErr(value),
            FullResult::HardErr(value) => FullResult::HardErr(value),
        }
    }

    /// The same variant, holding the content mutably dereferenced for an
    /// `Okay` and a mutable reference to the error otherwise; what is written
    /// through an error's reference lands in `self`.
    pub fn as_deref_mut(&mut self) -> (r: FullResult<&mut <T as std::ops::Deref>::Target, &mut E1, &mut E2>)
        where T: std::ops::DerefMut,
        ensures
            match *old(self) {
                FullResult::Okay(_) => r is Okay && (*final(self)) is Okay,
                FullResult::SoftErr(e) => r matches FullResult::SoftErr(m) && *m == e
                    && *final(self) == FullResult::<T, E1, E2>::SoftErr(*final(m)),
                FullResult::HardErr(e) => r matches FullResult::HardErr(m) && *m == e
                    && *final(self) == FullResult::<T, E1, E2>::HardErr(*final(m)),
            },
    {
        match self {
            FullResult::Okay(value) => FullResult::Okay(value.deref_mut()),
            FullResult::SoftErr(value) => FullResult::SoftErr(value),
            FullResult::HardErr(value) => FullResult::HardErr(value),
        }
    }

    /// Applies `f` to the value of an `Okay`; errors pass through unchanged.
    pub fn map<U, F: FnOnce(T) -> U>(self, f: F) -> (r: FullResult<U, E1, E2>)
        requires
            self matches FullResult::Okay(v) ==> f.requires((v,)),
        ensures
            match self {
                FullResult::Okay(v) => r matches FullResult::Okay(u) && f.ensures((v,), u),
                FullResult::SoftErr(e) => r == FullResult::<U, E1, E2>::SoftErr(e),
                FullResult::HardErr(e) => r == FullResult::<U, E1, E2>::HardErr(e),
            },
    {
        match self {
            FullResult::Okay(value) => FullResult::Okay(f(value)),
            FullResult::SoftErr(value) => FullResult::SoftErr(value),
            FullResult::HardErr(value) => FullResult::HardErr(value),
        }
    }

    /// `f` of the value of an `Okay`, else `default`.
    pub fn map_or<U, F: FnOnce(T) -> U>(self, default: U, f: F) -> (r: U)
        requires
            self matches FullResult::Okay(v) ==> f.requires((v,)),
        ensures
            match self {
                FullResult::Okay(v) => f.ensures((v,), r),
                _ => r == default,
            },
    {
        if let FullResult::Okay(value) = self {
            return f(value);
        }
        return default;
    }

    /// `f` of the value of an `Okay`, else `default` of the error.
    pub fn map_or_else<U, D: FnOnce(Either<E1, E2>) -> U, F: FnOnce(T) -> U>(
        self,
        default: D,
        f: F,
    ) -> (r: U)
        requires
            match self {
                FullResult::Okay(v) => f.requires((v,)),
                FullResult::SoftErr(e) => default.requires((Either::<E1, E2>::This(e),)),
                FullResult::HardErr(e) => default.requires((Either::<E1, E2>::That(e),)),
            },
        ensures
            match self {
                FullResult::Okay(v) => f.ensures((v,), r),
                FullResult::SoftErr(e) => default.ensures((Either::<E1, E2>::This(e),), r),
                FullResult::HardErr(e) => default.ensures((Either::<E1, E2>::That(e),), r),
            },
    {
        match self {
            FullResult::Okay(value) => f(value),
            FullResult::SoftErr(value) => default(Either::This(value)),
            FullResult::HardErr(value) => default(Either::That(value)),
        }
    }

    /// Applies `f` to the error of a `SoftErr`; other variants pass through.
    pub fn map_soft_err<F1, F: FnOnce(E1) -> F1>(self, f: F) -> (r: FullResult<T, F1, E2>)
        requires
            self matches FullResult::SoftErr(e) ==> f.requires((e,)),
        ensures
            match self {
                FullResult::Okay(v) => r == FullResult::<T, F1, E2>::Okay(v),
                FullResult::SoftErr(e) => r matches FullResult::SoftErr(u) && f.ensures((e,), u),
                FullResult::HardErr(e) => r == FullResult::<T, F1, E2>::HardErr(e),
            },
    {
        match self {
            FullResult::Okay(value) => FullResult::Okay(value),
            FullResult::SoftErr(value) => FullResult::SoftErr(f(value)),
            FullResult::HardErr(value) => FullResult::HardErr(value),
        }
    }

    /// `f` of the error of a `SoftErr`, else `default`.
    pub fn map_soft_err_or<F1, F: FnOnce(E1) -> F1>(self, default: F1, f: F) -> (r: F1)
        requires
            self matches FullResult::SoftErr(e) ==> f.requires((e,)),
        ensures
            match self {
                FullResult::SoftErr(e) => f.ensures((e,), r),
                _ => r == default,
            },
    {
        if let FullResult::SoftErr(value) = self {
            return f(value);
        }
        return default;
    }

    /// `f` of the error of a `SoftErr`, else `default` of what is held.
    pub fn map_soft_err_or_else<F1, D: FnOnce(Either<T, E2>) -> F1, F: FnOnce(E1) -> F1>(
        self,
        default: D,
        f: F,
    ) -> (r: F1)
        requires
            match self {
                FullResult::Okay(v) => default.requires((Either::<T, E2>::This(v),)),
                FullResult::SoftErr(e) => f.requires((e,)),
                FullResult::HardErr(e) => default.requires((Either::<T, E2>::That(e),)),
            },
        ensures
            match self {
                FullResult::Okay(v) => default.ensures((Either::<T, E2>::This(v),), r),
                FullResult::SoftErr(e) => f.ensures((e,), r),
                FullResult::HardErr(e) => default.ensures((Either::<T, E2>::That(e),), r),
            },
    {
        match self {
            FullResult::Okay(value) => default(Either::This(value)),
            FullResult::SoftErr(value) => f(value),
            FullResult::HardErr(value) => default(Either::That(value)),
        }
    }

    /// Applies `f` to the error of a `HardErr`; other variants pass through.
    pub fn map_hard_err<F2, F: FnOnce(E2) -> F2>(self, f: F) -> (r: FullResult<T, E1, F2>)
        requires
            self matches FullResult::HardErr(e) ==> f.requires((e,)),
        ensures
            match self {
                FullResult::Okay(v) => r == FullResult::<T, E1, F2>::Okay(v),
                FullResult::SoftErr(e) => r == FullResult::<T, E1, F2>::SoftErr(e),
                FullResult::HardErr(e) => r matches FullResult::HardErr(u) && f.ensures((e,), u),
            },
    {
        match self {
            FullResult::Okay(value) => FullResult::Okay(value),
            FullResult::SoftErr(value) => FullResult::SoftErr(value),
            FullResult::HardErr(value) => FullResult::HardErr(f(value)),
        }
    }

    /// `f` of the error of a `HardErr`, else `default`.
    pub fn map_hard_err_or<F2, F: FnOnce(E2) -> F2>(self, default: F2, f: F) -> (r: F2)
        requires
            self matches FullResult::HardErr(e) ==> f.requires((e,)),
        ensures
            match self {
                FullResult::HardErr(e) => f.ensures((e,), r),
                _ => r == default,
            },
    {
        if let FullResult::HardErr(value) = self {
            return f(value);
        }
        return default;
    }

    /// `f` of the error of a `HardErr`, else `default` of what is held.
    pub fn map_hard_err_or_else<F2, D: FnOnce(Either<T, E1>) -> F2, F: FnOnce(E2) -> F2>(
        self,
        default: D,
        f: F,
    ) -> (r: F2)
        requires
            match self {
                FullResult::Okay(v) => default.requires((Either::<T, E1>::This(v),)),
                FullResult::SoftErr(e) => default.requires((Either::<T, E1>::That(e),)),
                FullResult::HardErr(e) => f.requires((e,)),
            },
        ensures
            match self {
                FullResult::Okay(v) => default.ensures((Either::<T, E1>::This(v),), r),
                FullResult::SoftErr(e) => default.ensures((Either::<T, E1>::That(e),), r),
                FullResult::HardErr(e) => f.ensures((e,), r),
            },
    {
        match self {
            FullResult::Okay(value) => default(Either::This(value)),
            FullResult::SoftErr(value) => default(Either::That(value)),
            FullResult::HardErr(value) => f(value),
        }
    }

    /// Calls `f` on the value of an `Okay`, and returns `self` unchanged.
    pub fn inspect<F: FnOnce(&T)>(self, f: F) -> (r: Self)
        requires
            self matches FullResult::Okay(v) ==> f.requires((&v,)),
        ensures
            r == self,
            self matches FullResult::Okay(v) ==> f.ensures((&v,), ()),
    {
        if let FullResult::Okay(t) = &self {
            f(t);
        }
        return self;
    }

    /// Calls `f` on the error of a `SoftErr`, and returns `self` unchanged.
    pub fn inspect_soft_err<F: FnOnce(&E1)>(self, f: F) -> (r: Self)
        requires
            self matches FullResult::SoftErr(e) ==> f.requires((&e,)),
        ensures
            r == self,
            self matches FullResult::SoftErr(e) ==> f.ensures((&e,), ()),
    {
        if let FullResult::SoftErr(se) = &self {
            f(se);
        }
        return self;
    }

    /// Calls `f` on the error of a `HardErr`, and returns `self` unchanged.
    pub fn inspect_hard_err<F: FnOnce(&E2)>(self, f: F) -> (r: Self)
        requires
            self matches FullResult::HardErr(e) ==> f.requires((&e,)),
        ensures
            r == self,
            self matches FullResult::HardErr(e) ==> f.ensures((&e,), ()),
    {
        if let FullResult::HardErr(he) = &self {
            f(he);
        }
        return self;
    }

    /// The value of an `Okay`; callers must not pass an error (`msg` names the failed expectation).
    pub fn expect(self, msg: &str) -> (r: T)
        requires
            self is Okay,
        ensures
            self == FullResult::<T, E1, E2>::Okay(r),
    {
        match self {
            FullResult::Okay(t) => t,
            FullResult::SoftErr(_) => vstd::pervasive::unreached(),
            FullResult::HardErr(_) => vstd::pervasive::unreached(),
        }
    }

    /// The error of a `SoftErr`; callers must not pass another variant.
    pub fn expect_soft_err(self, msg: &str) -> (r: E1)
        requires
            self is SoftErr,
        ensures
            self == FullResult::<T, E1, E2>::SoftErr(r),
    {
        match self {
            FullResult::SoftErr(se) => se,
            _ => vstd::pervasive::unreached(),
        }
    }

    /// The error of a `HardErr`; callers must not pass another variant.
    pub fn expect_hard_err(self, msg: &str) -> (r: E2)
        requires
            self is HardErr,
        ensures
            self == FullResult::<T, E1, E2>::HardErr(r),
    {
        match self {
            FullResult::HardErr(he) => he,
            _ => vstd::pervasive::unreached(),
        }
    }

    /// The value of an `Okay`; callers must not pass an error.
    pub fn unwrap(self) -> (r: T)
        requires
            self is Okay,
        ensures
            self == FullResult::<T, E1, E2>::Okay(r),
    {
        match self {
            FullResult::Okay(t) => t,
            _ => vstd::pervasive::unreached(),
        }
    }

    /// The error of a `SoftErr`; callers must not pass another variant.
    pub fn unwrap_soft_err(self) -> (r: E1)
        requires
            self is SoftErr,
        ensures
            self == FullResult::<T, E1, E2>::SoftErr(r),
    {
        match self {
            FullResult::SoftErr(se) => se,
            _ => vstd::pervasive::unreached(),
        }
    }

    /// The error of a `HardErr`; callers must not pass another variant.
    pub fn unwrap_hard_err(self) -> (r: E2)
        requires
            self is HardErr,
        ensures
            self == FullResult::<T, E1, E2>::HardErr(r),
    {
        match self {
            FullResult::HardErr(he) => he,
            _ => vstd::pervasive::unreached(),
        }
    }

    /// The value of an `Okay`, else `default`.
    pub fn unwrap_or(self, default: T) -> (r: T)
        ensures
            r == (match self {
                FullResult::Okay(v) => v,
                _ => default,
            }),
    {
        if let FullResult::Okay(t) = self {
            return t;
        }
        return default;
    }

    /// The value of an `Okay`, else `f` of the error.
    pub fn unwrap_or_else<F: FnOnce(Either<E1, E2>) -> T>(self, f: F) -> (r: T)
        requires
            self matches FullResult::SoftErr(e) ==> f.requires((Either::<E1, E2>::This(e),)),
            self matches FullResult::HardErr(e) ==> f.requires((Either::<E1, E2>::That(e),)),
        ensures
            match self {
                FullResult::Okay(v) => r == v,
                FullResult::SoftErr(e) => f.ensures((Either::<E1, E2>::This(e),), r),
                FullResult::HardErr(e) => f.ensures((Either::<E1, E2>::That(e),), r),
            },
    {
        match self {
            FullResult::Okay(t) => t,
            FullResult::SoftErr(se) => f(Either::This(se)),
            FullResult::HardErr(he) => f(Either::That(he)),
        }
    }

    /// The value of an `Okay`, else `T::default()`.
    pub fn unwrap_or_default(self) -> (r: T) where T: Default
        ensures
            self matches FullResult::Okay(v) ==> r == v,
            !(self is Okay) ==> call_ensures(T::default, (), r),
    {
        if let FullResult::Okay(t) = self {
            return t;
        }
        return T::default();
    }

    /// `fres` when `self` is an `Okay`; otherwise the first hard error of the
    /// two, else the soft error of `self`.
    pub fn and<U>(self, fres: FullResult<U, E1, E2>) -> (r: FullResult<U, E1, E2>)
        ensures
            r == (match (self, fres) {
                (FullResult::Okay(_), output) => output,
                (FullResult::HardErr(he), _) => FullResult::HardErr(he),
                (_, FullResult::HardErr(he)) => FullResult::HardErr(he),
                (FullResult::SoftErr(se), _) => FullResult::<U, E1, E2>::SoftErr(se),
            }),
    {
        match (self, fres) {
            (FullResult::Okay(_), output) => output,
            (FullResult::HardErr(he), _) => FullResult::HardErr(he),
            (_, FullResult::HardErr(he)) => FullResult::HardErr(he),
            (FullResult::SoftErr(se), _) => FullResult::SoftErr(se),
        }
    }

    /// `op` of the value of an `Okay`; errors pass through unchanged.
    pub fn and_then<U, F: FnOnce(T) -> FullResult<U, E1, E2>>(self, op: F) -> (r: FullResult<
        U,
        E1,
        E2,
    >)
        requires
            self matches FullResult::Okay(v) ==> op.requires((v,)),
        ensures
            match self {
                FullResult::Okay(v) => op.ensures((v,), r),
                FullResult::SoftErr(e) => r == FullResult::<U, E1, E2>::SoftErr(e),
                FullResult::HardErr(e) => r == FullResult::<U, E1, E2>::HardErr(e),
            },
    {
        match self {
            FullResult::Okay(t) => op(t),
            FullResult::SoftErr(se) => FullResult::SoftErr(se),
            FullResult::HardErr(he) => FullResult::HardErr(he),
        }
    }

    /// `self` when it is an `Okay`; otherwise the first hard error of the
    /// two, else `fres`.
    pub fn or<F1>(self, fres: FullResult<T, F1, E2>) -> (r: FullResult<T, F1, E2>)
        ensures
            r == (match (self, fres) {
                (FullResult::Okay(t), _) => FullResult::<T, F1, E2>::Okay(t),
                (FullResult::HardErr(he), _) => FullResult::HardErr(he),
                (_, FullResult::HardErr(he)) => FullResult::HardErr(he),
                (FullResult::SoftErr(_), output) => output,
            }),
    {
        match (self, fres) {
            (FullResult::Okay(t), _) => FullResult::Okay(t),
            (FullResult::HardErr(he), _) => FullResult::HardErr(he),
            (_, FullResult::HardErr(he)) => FullResult::HardErr(he),
            (FullResult::SoftErr(_), output) => output,
        }
    }

    /// `self` when it is an `Okay`, else `op` of the error.
    pub fn or_else<F1, F: FnOnce(Either<E1, E2>) -> FullResult<T, F1, E2>>(self, op: F) -> (r:
        FullResult<T, F1, E2>)
        requires
            self matches FullResult::SoftErr(e) ==> op.requires((Either::<E1, E2>::This(e),)),
            self matches FullResult::HardErr(e) ==> op.requires((Either::<E1, E2>::That(e),)),
        ensures
            match self {
                FullResult::Okay(v) => r == FullResult::<T, F1, E2>::Okay(v),
                FullResult::SoftErr(e) => op.ensures((Either::<E1, E2>::This(e),), r),
                FullResult::HardErr(e) => op.ensures((Either::<E1, E2>::That(e),), r),
            },
    {
        match self {
            FullResult::Okay(t) => FullResult::Okay(t),
            FullResult::SoftErr(se) => op(Either::This(se)),
            FullResult::HardErr(he) => op(Either::That(he)),
        }
    }

    /// The value of an `Okay`, without a check at run time: the `requires`
    /// rules out the other variants.
    pub fn unwrap_unchecked(self) -> (r: T)
        requires
            self is Okay,
        ensures
            self == FullResult::<T, E1, E2>::Okay(r),
    {
        match self {
            FullResult::Okay(t) => t,
            _ => vstd::pervasive::unreached(),
        }
    }

    /// The error of a `SoftErr`, without a check at run time.
    pub fn unwrap_soft_err_unchecked(self) -> (r: E1)
        requires
            self is SoftErr,
        ensures
            self == FullResult::<T, E1, E2>::SoftErr(r),
    {
        match self {
            FullResult::SoftErr(se) => se,
            _ => vstd::pervasive::unreached(),
        }
    }

    /// The error of a `HardErr`, without a check at run time.
    pub fn unwrap_hard_err_unchecked(self) -> (r: E2)
        requires
            self is HardErr,
        ensures
            self == FullResult::<T, E1, E2>::HardErr(r),
    {
        match self {
            FullResult::HardErr(he) => he,
            _ => vstd::pervasive::unreached(),
        }
    }
}

impl<'a, T: Copy, E1, E2> FullResult<&'a T, E1, E2> {
    /// Copies the referenced value of an `Okay`.
    pub fn copied(self) -> (r: FullResult<T, E1, E2>)
        ensures
            match self {
                FullResult::Okay(v) => r == FullResult::<T, E1, E2>::Okay(*v),
                FullResult::SoftErr(e) => r == FullResult::<T, E1, E2>::SoftErr(e),
                FullResult::HardErr(e) => r == FullResult::<T, E1, E2>::HardErr(e),
            },
    {
        match self {
            FullResult::Okay(t) => FullResult::Okay(*t),
            FullResult::SoftErr(se) => FullResult::SoftErr(se),
            FullResult::HardErr(he) => FullResult::HardErr(he),
        }
    }
}

impl<'a, T: Clone, E1, E2> FullResult<&'a T, E1, E2> {
    /// Clones the referenced value of an `Okay`.
    pub fn cloned(self) -> (r: FullResult<T, E1, E2>)
        ensures
            match self {
                FullResult::Okay(v) => r matches FullResult::Okay(c) && cloned::<T>(*v, c),
                FullResult::SoftErr(e) => r == FullResult::<T, E1, E2>::SoftErr(e),
                FullResult::HardErr(e) => r == FullResult::<T, E1, E2>::HardErr(e),
            },
    {
        match self {
            FullResult::Okay(t) => FullResult::Okay(t.clone()),
            FullResult::SoftErr(se) => FullResult::SoftErr(se),
            FullResult::HardErr(he) => FullResult::HardErr(he),
        }
    }
}

impl<'a, T: Copy, E1, E2> FullResult<&'a mut T, E1, E2> {
    /// Copies the referenced value of an `Okay`.
    pub fn copied(self) -> (r: FullResult<T, E1, E2>)
        ensures
            match self {
                FullResult::Okay(v) => r == FullResult::<T, E1, E2>::Okay(*v),
                FullResult::SoftErr(e) => r == FullResult::<T, E1, E2>::SoftErr(e),
                FullResult::HardErr(e) => r == FullResult::<T, E1, E2>::HardErr(e),
            },
    {
        match self {
            FullResult::Okay(t) => FullResult::Okay(*t),
            FullResult::SoftErr(se) => FullResult::SoftErr(se),
            FullResult::HardErr(he) => FullResult::HardErr(he),
        }
    }
}

impl<'a, T: Clone, E1, E2> FullResult<&'a mut T, E1, E2> {
    /// Clones the referenced value of an `Okay`.
    pub fn cloned(self) -> (r: FullResult<T, E1, E2>)
        ensures
            match self {
                FullResult::Okay(v) => r matches FullResult::Okay(c) && cloned::<T>(*v, c),
                FullResult::SoftErr(e) => r == FullResult::<T, E1, E2>::SoftErr(e),
                FullResult::HardErr(e) => r == FullResult::<T, E1, E2>::HardErr(e),
            },
    {
        match self {
            FullResult::Okay(t) => FullResult::Okay(t.clone()),
            FullResult::SoftErr(se) => FullResult::SoftErr(se),
            FullResult::HardErr(he) => FullResult::HardErr(he),
        }
    }
}

impl<T, E1, E2> FullResult<Option<T>, E1, E2> {
    /// Moves an `Option` out: `Okay(None)` becomes `None`, and every other
    /// value is wrapped in `Some`.
    pub fn transpose(self) -> (r: Option<FullResult<T, E1, E2>>)
        ensures
            r == (match self {
                FullResult::Okay(Some(t)) => Some(FullResult::<T, E1, E2>::Okay(t)),
                FullResult::Okay(None) => None,
                FullResult::SoftErr(e) => Some(FullResult::<T, E1, E2>::SoftErr(e)),
                FullResult::HardErr(e) => Some(FullResult::<T, E1, E2>::HardErr(e)),
            }),
    {
        match self {
            FullResult::Okay(Some(t)) => Some(FullResult::Okay(t)),
            FullResult::Okay(None) => None,
            FullResult::SoftErr(se) => Some(FullResult::SoftErr(se)),
            FullResult::HardErr(he) => Some(FullResult::HardErr(he)),
        }
    }
}

impl<T, E1, E2> FullResult<FullResult<T, E1, E2>, E1, E2> {
    /// Removes one level of nesting.
    pub fn flatten(self) -> (r: FullResult<T, E1, E2>)
        ensures
            r == (match self {
                FullResult::Okay(inner) => inner,
                FullResult::SoftErr(e) => FullResult::<T, E1, E2>::SoftErr(e),
                FullResult::HardErr(e) => FullResult::<T, E1, E2>::HardErr(e),
            }),
    {
        match self {
            FullResult::Okay(inner) => inner,
            FullResult::SoftErr(se) => FullResult::SoftErr(se),
            FullResult::HardErr(he) => FullResult::HardErr(he),
        }
    }
}

impl<T, E1, E2> FullResult<Result<T, E1>, E1, E2> {
    /// Removes a nested `Result`, whose error becomes a soft error.
    pub fn flatten_soft(self) -> (r: FullResult<T, E1, E2>)
        ensures
            r == (match self {
                FullResult::Okay(Ok(t)) => FullResult::<T, E1, E2>::Okay(t),
                FullResult::Okay(Err(e)) => FullResult::<T, E1, E2>::SoftErr(e),
                FullResult::SoftErr(e) => FullResult::<T, E1, E2>::SoftErr(e),
                FullResult::HardErr(e) => FullResult::<T, E1, E2>::HardErr(e),
            }),
    {
        match self {
            FullResult::Okay(Ok(t)) => FullResult::Okay(t),
            FullResult::Okay(Err(e)) => FullResult::SoftErr(e),
            FullResult::SoftErr(se) => FullResult::SoftErr(se),
            FullResult::HardErr(he) => FullResult::HardErr(he),
        }
    }
}

impl<T, E1, E2> FullResult<Result<T, E2>, E1, E2> {
    /// Removes a nested `Result`, whose error becomes a hard error.
    pub fn flatten_hard(self) -> (r: FullResult<T, E1, E2>)
        ensures
            r == (match self {
                FullResult::Okay(Ok(t)) => FullResult::<T, E1, E2>::Okay(t),
                FullResult::Okay(Err(e)) => FullResult::<T, E1, E2>::HardErr(e),
                FullResult::SoftErr(e) => FullResult::<T, E1, E2>::SoftErr(e),
                FullResult::HardErr(e) => FullResult::<T, E1, E2>::HardErr(e),
            }),
    {
        match self {
            FullResult::Okay(Ok(t)) => FullResult::Okay(t),
            FullResult::Okay(Err(e)) => FullResult::HardErr(e),
            FullResult::SoftErr(se) => FullResult::SoftErr(se),
            FullResult::HardErr(he) => FullResult::HardErr(he),
        }
    }
}

impl<T: Clone, E1: Clone, E2: Clone> Clone for FullResult<T, E1, E2> {
    /// Clones the content, keeping the variant.
    fn clone(&self) -> (r: Self)
        ensures
            match (*self, r) {
                (FullResult::Okay(a), FullResult::Okay(b)) => cloned::<T>(a, b),
                (FullResult::SoftErr(a), FullResult::SoftErr(b)) => cloned::<E1>(a, b),
                (FullResult::HardErr(a), FullResult::HardErr(b)) => cloned::<E2>(a, b),
                _ => false,
            },
    {
        match self {
            FullResult::Okay(x) => FullResult::Okay(x.clone()),
            FullResult::SoftErr(x) => FullResult::SoftErr(x.clone()),
            FullResult::HardErr(x) => FullResult::HardErr(x.clone()),
        }
    }
}

/// Turns an `Option` into a `FullResult`.
pub trait OptionToFullResult<T>: Sized {
    /// `Some(t)` becomes `Okay(t)`, `None` becomes `SoftErr(se)`.
    fn ok_or_soft<E1, E2>(self, se: E1) -> FullResult<T, E1, E2>;

    /// `Some(t)` becomes `Okay(t)`, `None` becomes `HardErr(he)`.
    fn ok_or_hard<E1, E2>(self, he: E2) -> FullResult<T, E1, E2>;
}

impl<T> OptionToFullResult<T> for Option<T> {
    fn ok_or_soft<E1, E2>(self, se: E1) -> (r: FullResult<T, E1, E2>)
        ensures
            r == (match self {
                Some(t) => FullResult::<T, E1, E2>::Okay(t),
                None => FullResult::<T, E1, E2>::SoftErr(se),
            }),
    {
        if let Some(t) = self {
            return FullResult::Okay(t);
        }
        return FullResult::SoftErr(se);
    }

    fn ok_or_hard<E1, E2>(self, he: E2) -> (r: FullResult<T, E1, E2>)
        ensures
            r == (match self {
                Some(t) => FullResult::<T, E1, E2>::Okay(t),
                None => FullResult::<T, E1, E2>::HardErr(he),
            }),
    {
        if let Some(t) = self {
            return FullResult::Okay(t);
        }
        return FullResult::HardErr(he);
    }
}

/// Turns a `Result` into a `FullResult`, its error becoming soft or hard.
pub trait ResultToFullResult<T, E>: Sized {
    /// The error that `self` holds, if it is one.
    spec fn error_value(self) -> Option<E>;

    /// `Ok(t)` becomes `Okay(t)`, `Err(e)` becomes `SoftErr(e)`.
    fn soften<E2>(self) -> FullResult<T, E, E2>;

    /// `Ok(t)` becomes `Okay(t)`, `Err(e)` becomes `SoftErr(f(e))`.
    fn map_soften<F, E2, G: FnOnce(E) -> F>(self, f: G) -> FullResult<T, F, E2>
        requires
            self.error_value() matches Some(e) ==> f.requires((e,)),
    ;

    /// `Ok(t)` becomes `Okay(t)`, `Err(e)` becomes `HardErr(e)`.
    fn harden<E1>(self) -> FullResult<T, E1, E>;

    /// `Ok(t)` becomes `Okay(t)`, `Err(e)` becomes `HardErr(f(e))`.
    fn map_harden<E1, F, G: FnOnce(E) -> F>(self, f: G) -> FullResult<T, E1, F>
        requires
            self.error_value() matches Some(e) ==> f.requires((e,)),
    ;
}

impl<T, E> ResultToFullResult<T, E> for Result<T, E> {
    open spec fn error_value(self) -> Option<E> {
        match self {
            Ok(_) => None,
            Err(e) => Some(e),
        }
    }

    fn soften<E2>(self) -> (r: FullResult<T, E, E2>)
        ensures
            r == (match self {
                Ok(t) => FullResult::<T, E, E2>::Okay(t),
                Err(e) => FullResult::<T, E, E2>::SoftErr(e),
            }),
    {
        match self {
            Ok(t) => FullResult::Okay(t),
            Err(e) => FullResult::SoftErr(e),
        }
    }

    fn map_soften<F, E2, G: FnOnce(E) -> F>(self, f: G) -> (r: FullResult<T, F, E2>)
        ensures
            match self {
                Ok(t) => r == FullResult::<T, F, E2>::Okay(t),
                Err(e) => r matches FullResult::SoftErr(u) && f.ensures((e,), u),
            },
    {
        match self {
            Ok(t) => FullResult::Okay(t),
            Err(e) => FullResult::SoftErr(f(e)),
        }
    }

    fn harden<E1>(self) -> (r: FullResult<T, E1, E>)
        ensures
            r == (match self {
                Ok(t) => FullResult::<T, E1, E>::Okay(t),
                Err(e) => FullResult::<T, E1, E>::HardErr(e),
            }),
    {
        match self {
            Ok(t) => FullResult::Okay(t),
            Err(e) => FullResult::HardErr(e),
        }
    }

    fn map_harden<E1, F, G: FnOnce(E) -> F>(self, f: G) -> (r: FullResult<T, E1, F>)
        ensures
            match self {
                Ok(t) => r == FullResult::<T, E1, F>::Okay(t),
                Err(e) => r matches FullResult::HardErr(u) && f.ensures((e,), u),
            },
    {
        match self {
            Ok(t) => FullResult::Okay(t),
            Err(e) => FullResult::HardErr(f(e)),
        }
    }
}

/// What `map` gives with a function whose result is `g` of its argument:
/// `g` of the value of an `Okay`, and an error unchanged.
pub open spec fn map_spec<T, U, E1, E2>(x: FullResult<T, E1, E2>, g: spec_fn(T) -> U) -> FullResult<U, E1, E2> {
    match x {
        FullResult::Okay(v) => FullResult::Okay(g(v)),
        FullResult::SoftErr(e) => FullResult::SoftErr(e),
        FullResult::HardErr(e) => FullResult::HardErr(e),
    }
}

/// What `and_then` gives with a function whose result is `g` of its
/// argument: `g` of the value of an `Okay`, and an error unchanged.
pub open spec fn and_then_spec<T, U, E1, E2>(
    x: FullResult<T, E1, E2>,
    g: spec_fn(T) -> FullResult<U, E1, E2>,
) -> FullResult<U, E1, E2> {
    match x {
        FullResult::Okay(v) => g(v),
        FullResult::SoftErr(e) => FullResult::SoftErr(e),
        FullResult::HardErr(e) => FullResult::HardErr(e),
    }
}

/// A call `x.map(f)` that gave `r`, where every result of `f` is `g` of
/// its argument, gave `map_spec(x, g)`: the laws below then hold of such
/// calls.
pub proof fn lemma_map_with_a_fixed_function<T, U, E1, E2, F: FnOnce(T) -> U>(
    x: FullResult<T, E1, E2>,
    f: F,
    g: spec_fn(T) -> U,
    r: FullResult<U, E1, E2>,
)
    requires
        forall|v: T, u: U| #[trigger] f.ensures((v,), u) ==> u == g(v),
        match x {
            FullResult::Okay(v) => r matches FullResult::Okay(u) && f.ensures((v,), u),
            FullResult::SoftErr(e) => r == FullResult::<U, E1, E2>::SoftErr(e),
            FullResult::HardErr(e) => r == FullResult::<U, E1, E2>::HardErr(e),
        },
    ensures
        r == map_spec(x, g),
{
}

/// A call `x.and_then(f)` that gave `r`, where every result of `f` is `g`
/// of its argument, gave `and_then_spec(x, g)`.
pub proof fn lemma_and_then_with_a_fixed_function<T, U, E1, E2, F: FnOnce(T) -> FullResult<U, E1, E2>>(
    x: FullResult<T, E1, E2>,
    f: F,
    g: spec_fn(T) -> FullResult<U, E1, E2>,
    r: FullResult<U, E1, E2>,
)
    requires
        forall|v: T, u: FullResult<U, E1, E2>| #[trigger] f.ensures((v,), u) ==> u == g(v),
        match x {
            FullResult::Okay(v) => f.ensures((v,), r),
            FullResult::SoftErr(e) => r == FullResult::<U, E1, E2>::SoftErr(e),
            FullResult::HardErr(e) => r == FullResult::<U, E1, E2>::HardErr(e),
        },
    ensures
        r == and_then_spec(x, g),
{
}

/// Mapping with the identity changes nothing.
pub proof fn lemma_map_identity<T, E1, E2>(x: FullResult<T, E1, E2>)
    ensures
        map_spec(x, |v: T| v) == x,
{
}

/// Mapping with `f` and then with `g` is mapping once with `g` after `f`.
pub proof fn lemma_map_composition<T, U, V, E1, E2>(x: FullResult<T, E1, E2>, f: spec_fn(T) -> U, g: spec_fn(U) -> V)
    ensures
        map_spec(map_spec(x, f), g) == map_spec(x, |v: T| g(f(v))),
{
}

/// `and_then` on an `Okay(t)` is `f(t)`, and `and_then` with `Okay`
/// changes nothing.
pub proof fn lemma_and_then_units<T, U, E1, E2>(t: T, x: FullResult<T, E1, E2>, f: spec_fn(T) -> FullResult<U, E1, E2>)
    ensures
        and_then_spec(FullResult::Okay(t), f) == f(t),
        and_then_spec(x, |v: T| FullResult::<T, E1, E2>::Okay(v)) == x,
{
}

/// `and_then` is associative: chaining `f` and then `g` is chaining once
/// with the function that applies `f` and chains `g` onto its result.
pub proof fn lemma_and_then_associative<T, U, V, E1, E2>(
    x: FullResult<T, E1, E2>,
    f: spec_fn(T) -> FullResult<U, E1, E2>,
    g: spec_fn(U) -> FullResult<V, E1, E2>,
)
    ensures
        and_then_spec(and_then_spec(x, f), g) == and_then_spec(x, |v: T| and_then_spec(f(v), g)),
{
}

} // verus!
