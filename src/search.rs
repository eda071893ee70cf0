use vstd::prelude::*;

verus! {

/// The first position below `n` whose flag is set.
pub open spec fn first_true(flags: Seq<bool>, n: nat) -> Option<int>
    decreases n,
{
    if n == 0 {
        None
    } else {
        match first_true(flags, (n - 1) as nat) {
            Some(k) => Some(k),
            None => if flags[n - 1] {
                Some(n - 1)
            } else {
                None
            },
        }
    }
}

/// Once found below `m`, the first set flag stays the first below any `n >= m`.
pub proof fn lemma_first_true_stable(flags: Seq<bool>, m: nat, n: nat)
    requires
        m <= n,
        first_true(flags, m) is Some,
    ensures
        first_true(flags, n) == first_true(flags, m),
    decreases n - m,
{
    if m < n {
        lemma_first_true_stable(flags, m, (n - 1) as nat);
    }
}

/// A position that `first_true` gives is set, in range, and has no set flag before it.
pub proof fn lemma_first_true_found(flags: Seq<bool>, n: nat)
    requires
        n <= flags.len(),
    ensures
        match first_true(flags, n) {
            Some(k) => 0 <= k < n && flags[k] && forall|j: int| 0 <= j < k ==> !#[trigger] flags[j],
            None => forall|j: int| 0 <= j < n ==> !#[trigger] flags[j],
        },
    decreases n,
{
    if n > 0 {
        lemma_first_true_found(flags, (n - 1) as nat);
    }
}

} // verus!
