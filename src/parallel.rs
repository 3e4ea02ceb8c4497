//! Row-parallel evaluation on rayon's thread pool.
use vstd::prelude::*;
use rayon::iter::IndexedParallelIterator;
use rayon::iter::IntoParallelIterator;
use rayon::iter::ParallelIterator;

verus! {

/// The results of `g` on the rows `0..n`, in order.
///
/// Relies on rayon: `(0..n).into_par_iter().map(g)` calls `g` once on each
/// index, and `collect_into_vec` stores the results in index order.
#[verifier::external_body]
pub(crate) fn par_collect<R: Send, G: Fn(usize) -> R + Sync + Send>(n: usize, g: G) -> (r: Vec<R>)
    requires
        forall|y: usize| y < n ==> #[trigger] call_requires(g, (y,)),
    ensures
        r.len() == n,
        forall|y: usize| y < n ==> call_ensures(g, (y,), #[trigger] r[y as int]),
{
    let mut r = Vec::new();
    (0..n).into_par_iter().map(g).collect_into_vec(&mut r);
    r
}

/// The results of `g` on the rows `0..n`, in order, with the pairs split
/// into two vectors.
///
/// Relies on rayon: `(0..n).into_par_iter().map(g)` calls `g` once on each
/// index, and `unzip` into two `Vec`s keeps index order in both.
#[verifier::external_body]
pub(crate) fn par_unzip<A: Send, B: Send, G: Fn(usize) -> (A, B) + Sync + Send>(n: usize, g: G) -> (r: (Vec<A>, Vec<B>))
    requires
        forall|y: usize| y < n ==> #[trigger] call_requires(g, (y,)),
    ensures
        r.0.len() == n,
        r.1.len() == n,
        forall|y: usize| y < n ==> call_ensures(g, (y,), (#[trigger] r.0[y as int], r.1[y as int])),
{
    (0..n).into_par_iter().map(g).unzip()
}

} // verus!
