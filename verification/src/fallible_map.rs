//! Mapping a function that may fail over an optional value.

use vstd::prelude::*;
use crate::flip::flip_option;

verus! {

/// Whether `res` is an outcome of mapping `f` over `o`.
///
/// A missing value maps to `Ok(None)` whatever `f` is. A present value `x`
/// maps to `Ok(Some(y))` where `f` may answer `Ok(y)` on `x`, and to `Err(e)`
/// where `f` may answer `Err(e)` on `x`; it never maps to `Ok(None)`.
pub open spec fn try_maps_to<T, U, E, F: FnOnce(T) -> Result<U, E>>(
    o: Option<T>,
    f: F,
    res: Result<Option<U>, E>,
) -> bool {
    match o {
        None => res == Ok::<Option<U>, E>(None),
        Some(x) => match res {
            Ok(Some(y)) => call_ensures(f, (x,), Ok::<U, E>(y)),
            Ok(None) => false,
            Err(e) => call_ensures(f, (x,), Err::<U, E>(e)),
        },
    }
}

/// Whether `m` is an outcome of the plain `Option::map` of `f` over `o`:
/// missing stays missing, and a present `x` becomes an answer of `f` on `x`.
pub open spec fn maps_to<T, U, F: FnOnce(T) -> U>(o: Option<T>, f: F, m: Option<U>) -> bool {
    match o {
        None => m is None,
        Some(x) => m matches Some(y) && call_ensures(f, (x,), y),
    }
}

/// Whether `f` cannot fail and `g` says what it answers: every answer of `f`
/// on `x` is `Ok(g(x))`.
pub open spec fn succeeds_as<T, U, E, F: FnOnce(T) -> Result<U, E>>(
    f: F,
    g: spec_fn(T) -> U,
) -> bool {
    forall|x: T, r: Result<U, E>| #[trigger] call_ensures(f, (x,), r) ==> r == Ok::<U, E>(g(x))
}

/// `g` applied to the value that `o` holds, if there is one.
pub open spec fn map_option<T, U>(o: Option<T>, g: spec_fn(T) -> U) -> Option<U> {
    match o {
        Some(x) => Some(g(x)),
        None => None,
    }
}

/// Adds a fallible map to optional values.
///
/// The function handed to `try_map` may itself fail. The outcome is a
/// `Result` around the mapped `Option`, so that a failure inside the function
/// can be handled outside of it.
///
/// `T` is the type of the value held, `U` the type of the mapped value and `E`
/// the type of the failure.
pub trait FallibleMapExt<T, U, E> {
    /// The optional value that `self` holds.
    spec fn optional(self) -> Option<T>;

    /// Applies `f` to the value held, if there is one.
    ///
    /// A present value needs to be one that `f` accepts. Nothing is asked of
    /// `f` where the value is missing: `f` is then not called.
    fn try_map<F>(self, f: F) -> (res: Result<Option<U>, E>) where F: FnOnce(T) -> Result<U, E>
        requires
            self.optional() matches Some(x) ==> call_requires(f, (x,)),
        ensures
            try_maps_to(self.optional(), f, res),
    ;
}

impl<T, U, E> FallibleMapExt<T, U, E> for Option<T> {
    open spec fn optional(self) -> Option<T> {
        self
    }

    /// `None` gives `Ok(None)`. `Some(x)` gives what `f` answers on `x`, with
    /// a success wrapped in `Some` and a failure handed on as it is.
    fn try_map<F>(self, f: F) -> (res: Result<Option<U>, E>) where F: FnOnce(T) -> Result<U, E>
        ensures
            self is None ==> res == Ok::<Option<U>, E>(None),
            self matches Some(x) ==> exists|r: Result<U, E>|
                #[trigger] call_ensures(f, (x,), r) && res == flip_option(Some(r)),
    {
        match self {
            Some(x) => match f(x) {
                Ok(y) => Ok(Some(y)),
                Err(e) => Err(e),
            },
            None => Ok(None),
        }
    }
}

/// `try_map` is `Option::map` followed by `flip`: the outcomes of mapping `f`
/// over `o` with `try_map` are the flipped outcomes of mapping it with `map`.
pub proof fn lemma_try_map_is_map_then_flip<T, U, E, F: FnOnce(T) -> Result<U, E>>(
    o: Option<T>,
    f: F,
    res: Result<Option<U>, E>,
)
    ensures
        try_maps_to(o, f, res) <==> exists|m: Option<Result<U, E>>|
            #[trigger] maps_to(o, f, m) && res == flip_option(m),
{
    if try_maps_to(o, f, res) {
        let m: Option<Result<U, E>> = match res {
            Ok(None) => None,
            Ok(Some(y)) => Some(Ok(y)),
            Err(e) => Some(Err(e)),
        };
        assert(maps_to(o, f, m) && res == flip_option(m));
    }
}

/// Mapping a function that cannot fail with `try_map` is mapping what it
/// computes and wrapping the whole in `Ok` once.
pub proof fn lemma_try_map_of_success<T, U, E, F: FnOnce(T) -> Result<U, E>>(
    o: Option<T>,
    f: F,
    g: spec_fn(T) -> U,
    res: Result<Option<U>, E>,
)
    requires
        succeeds_as(f, g),
        try_maps_to(o, f, res),
    ensures
        res == Ok::<Option<U>, E>(map_option(o, g)),
{
}

/// Two steps that cannot fail, one after the other, are one step with the
/// composed function: the second `try_map`, on the success of the first, gives
/// what mapping `g2` after `g1` gives, wrapped in `Ok` once.
pub proof fn lemma_try_map_composes<
    T,
    U,
    V,
    E,
    F1: FnOnce(T) -> Result<U, E>,
    F2: FnOnce(U) -> Result<V, E>,
>(
    o: Option<T>,
    f1: F1,
    g1: spec_fn(T) -> U,
    f2: F2,
    g2: spec_fn(U) -> V,
    mid: Option<U>,
    res: Result<Option<V>, E>,
)
    requires
        succeeds_as(f1, g1),
        succeeds_as(f2, g2),
        try_maps_to(o, f1, Ok::<Option<U>, E>(mid)),
        try_maps_to(mid, f2, res),
    ensures
        res == Ok::<Option<V>, E>(map_option(o, |x: T| g2(g1(x)))),
{
}

} // verus!
