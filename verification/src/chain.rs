//! Chains of fallible maps, where each step goes on from the success of the
//! step before and the first failure ends the chain.

use vstd::prelude::*;
use crate::fallible_map::{map_option, succeeds_as, try_maps_to};

verus! {

/// Whether a chain that has come to `mid` after its first step and goes on
/// with the steps of `rest` can end in `res`: from a success the chain goes
/// on, and a failure is its outcome.
pub open spec fn goes_on_to<T, E, F: FnOnce(T) -> Result<T, E>>(
    mid: Result<Option<T>, E>,
    rest: Seq<F>,
    res: Result<Option<T>, E>,
) -> bool
    decreases rest.len(), 1nat,
{
    match mid {
        Ok(m) => chain_maps_to(m, rest, res),
        Err(e) => res == Err::<Option<T>, E>(e),
    }
}

/// Whether `res` is an outcome of mapping the functions of `fs` over `o` one
/// after the other, as in `o.try_map(f0)?.try_map(f1)?` and so on: each step
/// maps over the success of the step before, and the first failure is the
/// outcome of the whole chain.
pub open spec fn chain_maps_to<T, E, F: FnOnce(T) -> Result<T, E>>(
    o: Option<T>,
    fs: Seq<F>,
    res: Result<Option<T>, E>,
) -> bool
    decreases fs.len(), 0nat,
{
    if fs.len() == 0 {
        res == Ok::<Option<T>, E>(o)
    } else {
        exists|mid: Result<Option<T>, E>| #[trigger]
            try_maps_to(o, fs.first(), mid) && goes_on_to(mid, fs.drop_first(), res)
    }
}

/// Whether `f` fails on `x` with `e`: every answer of `f` on `x` is `Err(e)`.
pub open spec fn fails_on<T, U, E, F: FnOnce(T) -> Result<U, E>>(f: F, x: T, e: E) -> bool {
    forall|r: Result<U, E>| #[trigger] call_ensures(f, (x,), r) ==> r == Err::<U, E>(e)
}

/// The functions of `gs` applied to `x` one after the other, `gs[0]` first.
pub open spec fn composed<T>(gs: Seq<spec_fn(T) -> T>, x: T) -> T
    decreases gs.len(),
{
    if gs.len() == 0 {
        x
    } else {
        composed(gs.drop_first(), gs.first()(x))
    }
}

/// The outcome of the first step of a chain that ends in `res`.
proof fn lemma_chain_first_step<T, E, F: FnOnce(T) -> Result<T, E>>(
    o: Option<T>,
    fs: Seq<F>,
    res: Result<Option<T>, E>,
) -> (mid: Result<Option<T>, E>)
    requires
        fs.len() > 0,
        chain_maps_to(o, fs, res),
    ensures
        try_maps_to(o, fs.first(), mid),
        goes_on_to(mid, fs.drop_first(), res),
{
    choose|mid: Result<Option<T>, E>| #[trigger]
        try_maps_to(o, fs.first(), mid) && goes_on_to(mid, fs.drop_first(), res)
}

/// Where the first step of a chain cannot fail, the chain goes on from what
/// that step computes.
proof fn lemma_chain_after_success<T, E, F: FnOnce(T) -> Result<T, E>>(
    o: Option<T>,
    fs: Seq<F>,
    g: spec_fn(T) -> T,
    res: Result<Option<T>, E>,
)
    requires
        fs.len() > 0,
        succeeds_as(fs.first(), g),
        chain_maps_to(o, fs, res),
    ensures
        chain_maps_to(map_option(o, g), fs.drop_first(), res),
{
    lemma_chain_first_step(o, fs, res);
}

/// A chain of steps none of which can fail is the composition of what the
/// steps compute, mapped over the value and wrapped in `Ok` once.
pub proof fn lemma_chain_of_successes<T, E, F: FnOnce(T) -> Result<T, E>>(
    o: Option<T>,
    fs: Seq<F>,
    gs: Seq<spec_fn(T) -> T>,
    res: Result<Option<T>, E>,
)
    requires
        fs.len() == gs.len(),
        forall|i: int| 0 <= i < fs.len() ==> succeeds_as(#[trigger] fs[i], gs[i]),
        chain_maps_to(o, fs, res),
    ensures
        res == Ok::<Option<T>, E>(map_option(o, |x: T| composed(gs, x))),
    decreases fs.len(),
{
    if fs.len() > 0 {
        let fs1 = fs.drop_first();
        let gs1 = gs.drop_first();
        assert forall|i: int| 0 <= i < fs1.len() implies succeeds_as(#[trigger] fs1[i], gs1[i]) by {
            assert(fs1[i] == fs[i + 1] && gs1[i] == gs[i + 1]);
        }
        lemma_chain_after_success(o, fs, gs[0], res);
        lemma_chain_of_successes(map_option(o, gs[0]), fs1, gs1, res);
    }
}

/// A chain over a missing value is `Ok(None)`, whatever its steps are: no
/// step is taken, so none can fail.
pub proof fn lemma_chain_on_none<T, E, F: FnOnce(T) -> Result<T, E>>(
    fs: Seq<F>,
    res: Result<Option<T>, E>,
)
    requires
        chain_maps_to(None::<T>, fs, res),
    ensures
        res == Ok::<Option<T>, E>(None),
    decreases fs.len(),
{
    if fs.len() > 0 {
        lemma_chain_first_step(None::<T>, fs, res);
        lemma_chain_on_none(fs.drop_first(), res);
    }
}

/// The first failure wins: where the steps before `k` cannot fail and step
/// `k` fails with `e` on the value that they hand to it, a chain over a
/// present value is `Err(e)`, whatever the steps after `k` are.
pub proof fn lemma_chain_stops_at_failure<T, E, F: FnOnce(T) -> Result<T, E>>(
    x: T,
    fs: Seq<F>,
    gs: Seq<spec_fn(T) -> T>,
    k: int,
    e: E,
    res: Result<Option<T>, E>,
)
    requires
        0 <= k < fs.len(),
        gs.len() == k,
        forall|i: int| 0 <= i < k ==> succeeds_as(#[trigger] fs[i], gs[i]),
        fails_on(fs[k], composed(gs, x), e),
        chain_maps_to(Some(x), fs, res),
    ensures
        res == Err::<Option<T>, E>(e),
    decreases k,
{
    if k == 0 {
        lemma_chain_first_step(Some(x), fs, res);
    } else {
        let fs1 = fs.drop_first();
        let gs1 = gs.drop_first();
        assert forall|i: int| 0 <= i < k - 1 implies succeeds_as(#[trigger] fs1[i], gs1[i]) by {
            assert(fs1[i] == fs[i + 1] && gs1[i] == gs[i + 1]);
        }
        lemma_chain_after_success(Some(x), fs, gs[0], res);
        lemma_chain_stops_at_failure(gs[0](x), fs1, gs1, k - 1, e, res);
    }
}

} // verus!
