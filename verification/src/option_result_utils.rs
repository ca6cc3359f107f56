//! Turning an `Option` into a `Result` with a given error.
use vstd::prelude::*;

verus! {

/// An `Option` whose value can be cloned into a `Result`.
pub trait Resultable<T: Clone> {
    /// `Ok` of a clone of the value, or `Err(err)` when there is none.
    fn to_result_with_error<E>(&self, err: E) -> Result<T, E>;
}

impl<T: Clone> Resultable<T> for Option<T> {
    fn to_result_with_error<E>(&self, err: E) -> (r: Result<T, E>)
        ensures
            match *self {
                Some(v) => r matches Ok(c) && cloned::<T>(v, c),
                None => r == Err::<T, E>(err),
            },
    {
        match self {
            Some(ok) => Ok(ok.clone()),
            None => Err(err),
        }
    }
}

} // verus!
