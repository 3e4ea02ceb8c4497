//! The closures that the engine iterates, and what it asks of them.
//!
//! The engine calls three kinds of closure: the holomorphic map
//! `(z, c) -> z'`, the escape test of an orbit value, and the mapping of a
//! pixel to its point of the plane. Their behaviour is known to Verus only
//! through `call_ensures`; the spec functions below read a deterministic
//! closure as the mathematical function it computes.
use vstd::prelude::*;

verus! {

/// `f` may be called on every pair of values and has one possible result
/// for each: it is a pure function.
pub open spec fn is_map<Z, F: Fn(Z, Z) -> Z>(f: F) -> bool {
    &&& forall|z: Z, c: Z| #[trigger] call_requires(f, (z, c))
    &&& forall|z: Z, c: Z, r1: Z, r2: Z|
        #![trigger call_ensures(f, (z, c), r1), call_ensures(f, (z, c), r2)]
        call_ensures(f, (z, c), r1) && call_ensures(f, (z, c), r2) ==> r1 == r2
}

/// The value of the map `f` at `(z, c)`.
pub open spec fn image<Z, F: Fn(Z, Z) -> Z>(f: F, z: Z, c: Z) -> Z {
    choose|r: Z| call_ensures(f, (z, c), r)
}

/// `e` may be called on every value and has one possible answer for each.
pub open spec fn is_test<Z, E: Fn(Z) -> bool>(e: E) -> bool {
    &&& forall|z: Z| #[trigger] call_requires(e, (z,))
    &&& forall|z: Z, b1: bool, b2: bool|
        #![trigger call_ensures(e, (z,), b1), call_ensures(e, (z,), b2)]
        call_ensures(e, (z,), b1) && call_ensures(e, (z,), b2) ==> b1 == b2
}

/// Whether the escape test `e` judges `z` to have left the bound.
pub open spec fn escapes<Z, E: Fn(Z) -> bool>(e: E, z: Z) -> bool {
    choose|b: bool| call_ensures(e, (z,), b)
}

/// A result of a pure map is its image.
pub proof fn lemma_image<Z, F: Fn(Z, Z) -> Z>(f: F, z: Z, c: Z, r: Z)
    requires
        is_map(f),
        call_ensures(f, (z, c), r),
    ensures
        image(f, z, c) == r,
{
    let w = image(f, z, c);
    assert(call_ensures(f, (z, c), w));
}

/// An answer of a pure escape test is its verdict.
pub proof fn lemma_escapes<Z, E: Fn(Z) -> bool>(e: E, z: Z, b: bool)
    requires
        is_test(e),
        call_ensures(e, (z,), b),
    ensures
        escapes(e, z) == b,
{
    let w = escapes(e, z);
    assert(call_ensures(e, (z,), w));
}

/// A holomorphic map `(z, c) -> z'` that the engine can share among the
/// workers of a step.
pub trait HolomorphicFn<Z>: Fn(Z, Z) -> Z + Sync {
}

impl<Z, F: Fn(Z, Z) -> Z + Sync> HolomorphicFn<Z> for F {
}

} // verus!
