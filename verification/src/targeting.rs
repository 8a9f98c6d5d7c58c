//! The shared melee targeting rule: the nearest target wins, ties going to
//! the lower entity id.
use vstd::prelude::*;

use crate::float_bits::F32Bits;

verus! {

/// A target inside a swing's forward lane and its squared distance from the
/// swing's origin.
#[derive(Debug, Clone, Copy, PartialEq, Eq, Structural)]
pub struct TargetCandidate {
    pub entity_id: u32,
    /// A nonnegative, non-NaN single-precision value, so that the order of
    /// bit patterns is the order of distances.
    pub distance_squared: F32Bits,
}

/// Whether `a` is preferred to `b`: strictly nearer, or as near with a lower id.
pub open spec fn preferred(a: TargetCandidate, b: TargetCandidate) -> bool {
    a.distance_squared.0 < b.distance_squared.0 || (a.distance_squared.0 == b.distance_squared.0
        && a.entity_id < b.entity_id)
}

/// The index of the candidate the swing hits: one that no other candidate
/// is preferred to, the first such; none when there are no candidates.
pub fn nearest_candidate(candidates: &[TargetCandidate]) -> (r: Option<usize>)
    ensures
        r is None <==> candidates@.len() == 0,
        r matches Some(i) ==> i < candidates@.len() && (forall|j: int|
            0 <= j < candidates@.len() ==> !preferred(#[trigger] candidates@[j], candidates@[i as int]))
            && (forall|j: int| 0 <= j < i ==> preferred(candidates@[i as int], #[trigger] candidates@[j])),
{
    let n = candidates.len();
    if n == 0 {
        return None;
    }
    let mut best: usize = 0;
    let mut k: usize = 1;
    while k < n
        invariant
            n == candidates@.len(),
            1 <= k <= n,
            best < k,
            forall|j: int| 0 <= j < k ==> !preferred(#[trigger] candidates@[j], candidates@[best as int]),
            forall|j: int| 0 <= j < best ==> preferred(candidates@[best as int], #[trigger] candidates@[j]),
        decreases n - k,
    {
        let c = candidates[k];
        let b = candidates[best];
        if c.distance_squared.0 < b.distance_squared.0 || (c.distance_squared.0
            == b.distance_squared.0 && c.entity_id < b.entity_id) {
            best = k;
        }
        k = k + 1;
    }
    Some(best)
}

} // verus!
