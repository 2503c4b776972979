//! Bounded queues: what stays of a sequence when only its newest elements are kept.

use vstd::prelude::*;

verus! {

/// The last `n` elements of `s`, or all of them.
pub open spec fn last_n<T>(s: Seq<T>, n: nat) -> Seq<T> {
    if s.len() > n {
        s.skip(s.len() - n)
    } else {
        s
    }
}

/// Capping after each push keeps the last `n` of everything pushed.
pub proof fn lemma_last_n_push<T>(s: Seq<T>, x: T, n: nat)
    ensures
        last_n(last_n(s, n).push(x), n) == last_n(s.push(x), n),
{
    assert(last_n(last_n(s, n).push(x), n) =~= last_n(s.push(x), n));
}

} // verus!
