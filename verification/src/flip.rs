//! Turning a nesting of containers inside out.
//!
//! The inner `Result` (or `Option`) of a nested value is brought to the
//! outside. For a vector this is a scan from the front that ends at the first
//! failure (or at the first missing element), which then stands for the whole.

use vstd::prelude::*;

verus! {

/// What flipping an optional fallible value yields: a missing value is a
/// success that holds nothing, a present success stays present, and a present
/// failure becomes the failure of the whole.
pub open spec fn flip_option<T, E>(o: Option<Result<T, E>>) -> Result<Option<T>, E> {
    match o {
        None => Ok(None),
        Some(Ok(x)) => Ok(Some(x)),
        Some(Err(e)) => Err(e),
    }
}

/// Whether every element of `s` is a success.
pub open spec fn all_ok<T, E>(s: Seq<Result<T, E>>) -> bool {
    forall|i: int| 0 <= i < s.len() ==> (#[trigger] s[i]) is Ok
}

/// Whether `k` is the position of the first failure in `s`: a failure stands
/// at `k`, and only successes stand before it.
pub open spec fn first_err_at<T, E>(s: Seq<Result<T, E>>, k: int) -> bool {
    &&& 0 <= k < s.len()
    &&& s[k] is Err
    &&& forall|j: int| 0 <= j < k ==> (#[trigger] s[j]) is Ok
}

/// The values that the successes of `s` hold, in the order of `s`.
pub open spec fn ok_values<T, E>(s: Seq<Result<T, E>>) -> Seq<T> {
    Seq::new(s.len(), |i: int| s[i]->Ok_0)
}

/// Whether every element of `s` is present.
pub open spec fn all_some<T>(s: Seq<Option<T>>) -> bool {
    forall|i: int| 0 <= i < s.len() ==> (#[trigger] s[i]) is Some
}

/// The values that the present elements of `s` hold, in the order of `s`.
pub open spec fn some_values<T>(s: Seq<Option<T>>) -> Seq<T> {
    Seq::new(s.len(), |i: int| s[i]->Some_0)
}

/// Adds `flip` to nested containers: the inner `Result` (or `Option`) is
/// brought to the outside, where it can be handled once for the whole value.
///
/// `T` is the type of the values held innermost.
pub trait FlipResultExt<T> {
    /// The type with the nesting inverted.
    type ReturnType;

    /// Whether `out` is the value that flipping `self` yields.
    spec fn flips_to(self, out: Self::ReturnType) -> bool;

    /// Inverts the nesting of `self`.
    fn flip(self) -> (out: Self::ReturnType)
        ensures
            self.flips_to(out),
    ;
}

impl<T, E> FlipResultExt<T> for Option<Result<T, E>> {
    type ReturnType = Result<Option<T>, E>;

    open spec fn flips_to(self, out: Result<Option<T>, E>) -> bool {
        out == flip_option(self)
    }

    /// `None` gives `Ok(None)`, `Some(Ok(x))` gives `Ok(Some(x))` and
    /// `Some(Err(e))` gives `Err(e)`.
    fn flip(self) -> (out: Result<Option<T>, E>)
        ensures
            out == flip_option(self),
    {
        match self {
            Some(Ok(x)) => Ok(Some(x)),
            Some(Err(e)) => Err(e),
            None => Ok(None),
        }
    }
}

impl<T, E> FlipResultExt<T> for Vec<Result<T, E>> {
    type ReturnType = Result<Vec<T>, E>;

    /// Successes only flip to the vector of their values, in the same order
    /// and of the same length. Anything else flips to the first failure.
    open spec fn flips_to(self, out: Result<Vec<T>, E>) -> bool {
        match out {
            Ok(v) => all_ok(self@) && v@ == ok_values(self@),
            Err(e) => exists|k: int| first_err_at(self@, k) && self@[k] == Err::<T, E>(e),
        }
    }

    /// Gives `Ok` exactly if every element is a success, and then the values
    /// in the order of the elements; an empty vector gives an empty one.
    /// Otherwise gives the failure that stands first, whatever stands behind
    /// it.
    fn flip(self) -> (out: Result<Vec<T>, E>)
        ensures
            out is Ok <==> all_ok(self@),
            out matches Ok(v) ==> v@ == ok_values(self@),
            forall|k: int| first_err_at(self@, k) ==> out == Err::<Vec<T>, E>(self@[k]->Err_0),
    {
        proof {
            assert(classes(self@) =~= self@);
            lemma_first_err_exists_once(self@);
        }
        collect_until_stop(self)
    }
}

impl<T> FlipResultExt<T> for Vec<Option<T>> {
    type ReturnType = Option<Vec<T>>;

    /// Present elements only flip to the vector of their values, in the same
    /// order and of the same length. Anything else flips to `None`.
    open spec fn flips_to(self, out: Option<Vec<T>>) -> bool {
        match out {
            Some(v) => all_some(self@) && v@ == some_values(self@),
            None => !all_some(self@),
        }
    }

    /// Gives `Some` exactly if every element is present, and then the values
    /// in the order of the elements; an empty vector gives an empty one.
    /// A single missing element makes the whole `None`.
    fn flip(self) -> (out: Option<Vec<T>>)
        ensures
            out is Some <==> all_some(self@),
            out matches Some(v) ==> v@ == some_values(self@),
    {
        proof {
            lemma_classes_of_options(self@);
        }
        match collect_until_stop(self) {
            Ok(v) => Some(v),
            Err(_) => None,
        }
    }
}

/// An element of a scan: it either holds a value to keep, or it stops the
/// scan with what is handed on in place of the values.
trait Classify: Sized {
    /// What an element that is kept holds.
    type Value;

    /// What an element that stops the scan hands on.
    type Stop;

    /// `Ok` of the value to keep, or `Err` of what stops the scan.
    spec fn class(self) -> Result<Self::Value, Self::Stop>;

    fn classify(self) -> (c: Result<Self::Value, Self::Stop>)
        ensures
            c == self.class(),
    ;
}

/// A success is kept, and a failure stops the scan with its error.
impl<T, E> Classify for Result<T, E> {
    type Value = T;

    type Stop = E;

    spec fn class(self) -> Result<T, E> {
        self
    }

    fn classify(self) -> (c: Result<T, E>) {
        self
    }
}

/// A present value is kept, and a missing one stops the scan.
impl<T> Classify for Option<T> {
    type Value = T;

    type Stop = ();

    spec fn class(self) -> Result<T, ()> {
        match self {
            Some(x) => Ok(x),
            None => Err(()),
        }
    }

    fn classify(self) -> (c: Result<T, ()>) {
        match self {
            Some(x) => Ok(x),
            None => Err(()),
        }
    }
}

/// The classes of the elements of `s`, in the order of `s`.
spec fn classes<X: Classify>(s: Seq<X>) -> Seq<Result<X::Value, X::Stop>> {
    s.map_values(|x: X| x.class())
}

/// Scans `v` from the front, once. The values of the elements are collected
/// until an element stops the scan; what stands behind that element is not
/// looked at.
fn collect_until_stop<X: Classify>(v: Vec<X>) -> (out: Result<Vec<X::Value>, X::Stop>)
    ensures
        out is Ok <==> all_ok(classes(v@)),
        out matches Ok(w) ==> w@ == ok_values(classes(v@)),
        forall|k: int|
            first_err_at(classes(v@), k) ==> out == Err::<Vec<X::Value>, X::Stop>(
                classes(v@)[k]->Err_0,
            ),
{
    let ghost s = classes(v@);
    let mut kept = Vec::with_capacity(v.len());
    for t in it: v
        invariant
            classes(it.seq()) == s,
            kept@.len() == it.index(),
            forall|i: int|
                0 <= i < it.index() ==> (#[trigger] s[i]) == Ok::<X::Value, X::Stop>(kept@[i]),
    {
        assert(s[it.index()] == t.class());
        match t.classify() {
            Ok(u) => kept.push(u),
            Err(e) => return Err(e),
        }
    }
    Ok(kept)
}

/// The elements of a sequence of options that a scan keeps are the present
/// ones.
proof fn lemma_classes_of_options<T>(s: Seq<Option<T>>)
    ensures
        all_ok(classes(s)) <==> all_some(s),
        all_some(s) ==> ok_values(classes(s)) == some_values(s),
{
    let c = classes(s);
    if all_ok(c) {
        assert forall|i: int| 0 <= i < s.len() implies (#[trigger] s[i]) is Some by {
            assert(c[i] is Ok);
        }
    }
    if all_some(s) {
        assert forall|i: int| 0 <= i < c.len() implies (#[trigger] c[i]) is Ok by {
            assert(s[i] is Some);
        }
    }
}

/// A failure at `i` has a first failure at or before it.
proof fn lemma_first_err_up_to<T, E>(s: Seq<Result<T, E>>, i: int)
    requires
        0 <= i < s.len(),
        s[i] is Err,
    ensures
        exists|k: int| 0 <= k <= i && first_err_at(s, k),
    decreases i,
{
    if exists|j: int| 0 <= j < i && (#[trigger] s[j]) is Err {
        let j: int = choose|j: int| 0 <= j < i && (#[trigger] s[j]) is Err;
        lemma_first_err_up_to(s, j);
    } else {
        assert(first_err_at(s, i));
    }
}

/// Every sequence of results either holds successes only or has a first
/// failure, never both, and the first failure stands at one position only.
/// So the elements of a vector settle what flipping it gives.
pub proof fn lemma_first_err_exists_once<T, E>(s: Seq<Result<T, E>>)
    ensures
        all_ok(s) <==> !exists|k: int| first_err_at(s, k),
        forall|j: int, k: int| first_err_at(s, j) && first_err_at(s, k) ==> j == k,
{
    if !all_ok(s) {
        let i: int = choose|i: int| 0 <= i < s.len() && !((#[trigger] s[i]) is Ok);
        lemma_first_err_up_to(s, i);
    }
}

/// Results that are all successes flip to the values they hold: wrapping each
/// value of `t` in `Ok` and flipping gives `t` back, wrapped once.
pub proof fn lemma_flip_of_wrapped_results<T, E>(t: Seq<T>)
    ensures
        all_ok(t.map_values(|x: T| Ok::<T, E>(x))),
        ok_values(t.map_values(|x: T| Ok::<T, E>(x))) == t,
{
}

/// Options that are all present flip to the values they hold: wrapping each
/// value of `t` in `Some` and flipping gives `t` back, wrapped once.
pub proof fn lemma_flip_of_wrapped_options<T>(t: Seq<T>)
    ensures
        all_some(t.map_values(|x: T| Some(x))),
        some_values(t.map_values(|x: T| Some(x))) == t,
{
}

} // verus!
