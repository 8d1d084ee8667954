//! Sequences built by mapping each item of another to a short run of items.

use vstd::prelude::*;

verus! {

/// The runs that `f` gives for the first `n` items of `s`, one after another.
pub open spec fn flat_map_upto<A, B>(s: Seq<A>, f: spec_fn(A) -> Seq<B>, n: int) -> Seq<B>
    decreases n,
{
    if n <= 0 {
        Seq::empty()
    } else {
        flat_map_upto(s, f, n - 1) + f(s[n - 1])
    }
}

/// The runs that `f` gives for the items of `s`, one after another.
pub open spec fn flat_map<A, B>(s: Seq<A>, f: spec_fn(A) -> Seq<B>) -> Seq<B> {
    flat_map_upto(s, f, s.len() as int)
}

/// The item alone where `keep` holds of it, nothing otherwise.
pub open spec fn only_if<A>(keep: spec_fn(A) -> bool) -> spec_fn(A) -> Seq<A> {
    |x: A|
        if keep(x) {
            seq![x]
        } else {
            Seq::empty()
        }
}

/// The items of `s` of which `keep` holds, in their order.
pub open spec fn retain<A>(s: Seq<A>, keep: spec_fn(A) -> bool) -> Seq<A> {
    flat_map(s, only_if(keep))
}

/// An item of a flat map comes from the run of one item of the source.
pub proof fn lemma_flat_map_source<A, B>(s: Seq<A>, f: spec_fn(A) -> Seq<B>, n: int, k: int) -> (at: (
    int,
    int,
))
    requires
        0 <= n <= s.len(),
        0 <= k < flat_map_upto(s, f, n).len(),
    ensures
        0 <= at.0 < n,
        0 <= at.1 < f(s[at.0]).len(),
        flat_map_upto(s, f, n)[k] == f(s[at.0])[at.1],
    decreases n,
{
    let before = flat_map_upto(s, f, n - 1);
    if k < before.len() {
        lemma_flat_map_source(s, f, n - 1, k)
    } else {
        (n - 1, k - before.len())
    }
}

/// Every item of the run of an item of the source is in the flat map.
pub proof fn lemma_flat_map_holds<A, B>(s: Seq<A>, f: spec_fn(A) -> Seq<B>, n: int, i: int, j: int) -> (k:
    int)
    requires
        0 <= i < n <= s.len(),
        0 <= j < f(s[i]).len(),
    ensures
        0 <= k < flat_map_upto(s, f, n).len(),
        flat_map_upto(s, f, n)[k] == f(s[i])[j],
    decreases n,
{
    let before = flat_map_upto(s, f, n - 1);
    if i < n - 1 {
        lemma_flat_map_holds(s, f, n - 1, i, j)
    } else {
        before.len() + j
    }
}

/// The flat map of a shorter prefix of the source begins the flat map of a
/// longer one.
pub proof fn lemma_flat_map_prefix<A, B>(s: Seq<A>, f: spec_fn(A) -> Seq<B>, n: int, m: int)
    requires
        0 <= n <= m,
    ensures
        flat_map_upto(s, f, n).len() <= flat_map_upto(s, f, m).len(),
        flat_map_upto(s, f, m).take(flat_map_upto(s, f, n).len() as int) == flat_map_upto(s, f, n),
    decreases m,
{
    if n < m {
        lemma_flat_map_prefix(s, f, n, m - 1);
        let shorter = flat_map_upto(s, f, n);
        let short = flat_map_upto(s, f, m - 1);
        let long = flat_map_upto(s, f, m);
        assert(long.take(shorter.len() as int) =~= short.take(shorter.len() as int));
    } else {
        assert(flat_map_upto(s, f, m).take(flat_map_upto(s, f, n).len() as int) =~= flat_map_upto(
            s,
            f,
            n,
        ));
    }
}

/// A flat map is empty exactly when every run is.
pub proof fn lemma_flat_map_empty<A, B>(s: Seq<A>, f: spec_fn(A) -> Seq<B>, n: int)
    requires
        0 <= n <= s.len(),
    ensures
        flat_map_upto(s, f, n).len() == 0 <==> (forall|i: int| 0 <= i < n ==> (#[trigger] f(s[i])).len() == 0),
    decreases n,
{
    if n > 0 {
        lemma_flat_map_empty(s, f, n - 1);
    }
}

/// What is retained comes from the source and meets the condition.
pub proof fn lemma_retain_source<A>(s: Seq<A>, keep: spec_fn(A) -> bool, k: int) -> (i: int)
    requires
        0 <= k < retain(s, keep).len(),
    ensures
        0 <= i < s.len(),
        retain(s, keep)[k] == s[i],
        keep(s[i]),
{
    let at = lemma_flat_map_source(s, only_if(keep), s.len() as int, k);
    at.0
}

/// Every item of the source that meets the condition is retained.
pub proof fn lemma_retain_holds<A>(s: Seq<A>, keep: spec_fn(A) -> bool, i: int) -> (k: int)
    requires
        0 <= i < s.len(),
        keep(s[i]),
    ensures
        0 <= k < retain(s, keep).len(),
        retain(s, keep)[k] == s[i],
{
    lemma_flat_map_holds(s, only_if(keep), s.len() as int, i, 0)
}

} // verus!
