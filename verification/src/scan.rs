//! Finding the first occurrence of a value in a sequence.

use vstd::prelude::*;

verus! {

/// The position of the first `x` in `s`, or the length of `s` where it holds
/// none.
pub open spec fn first_position<T>(s: Seq<T>, x: T) -> nat
    decreases s.len(),
{
    if s.len() == 0 || s[0] == x {
        0
    } else {
        1 + first_position(s.skip(1), x)
    }
}

/// The first position lies inside the sequence or at its end, holds `x` where
/// it lies inside, and nothing before it is `x`.
pub proof fn lemma_first_position<T>(s: Seq<T>, x: T)
    ensures
        0 <= first_position(s, x) <= s.len(),
        first_position(s, x) < s.len() ==> s[first_position(s, x) as int] == x,
        forall|i: int| 0 <= i < first_position(s, x) ==> #[trigger] s[i] != x,
    decreases s.len(),
{
    if s.len() == 0 || s[0] == x {
    } else {
        lemma_first_position(s.skip(1), x);
        assert forall|i: int| 0 <= i < first_position(s, x) implies #[trigger] s[i] != x by {
            if i > 0 {
                assert(s[i] == s.skip(1)[i - 1]);
            }
        }
    }
}

/// A position that holds `x`, with none before it, is the first position of
/// `x`; so is the length of a sequence that holds none.
pub proof fn lemma_first_position_is<T>(s: Seq<T>, x: T, n: int)
    requires
        0 <= n <= s.len(),
        n < s.len() ==> s[n] == x,
        forall|i: int| 0 <= i < n ==> #[trigger] s[i] != x,
    ensures
        first_position(s, x) == n,
{
    lemma_first_position(s, x);
}

} // verus!
