//! Picking one of several sampled arms by a key, as the two-choice strategies do.
use vstd::prelude::*;

verus! {

/// `r` is the position of the first least key, as `Iterator::min_by_key` picks it.
pub open spec fn is_first_min(keys: Seq<usize>, r: int) -> bool {
    &&& 0 <= r < keys.len()
    &&& forall|j: int| 0 <= j < keys.len() ==> keys[r] <= #[trigger] keys[j]
    &&& forall|j: int| 0 <= j < r ==> keys[r] < #[trigger] keys[j]
}

/// `r` is the position of the last greatest key, as `Iterator::max_by_key` picks it.
pub open spec fn is_last_max(keys: Seq<usize>, r: int) -> bool {
    &&& 0 <= r < keys.len()
    &&& forall|j: int| 0 <= j < keys.len() ==> #[trigger] keys[j] <= keys[r]
    &&& forall|j: int| r < j < keys.len() ==> #[trigger] keys[j] < keys[r]
}

/// The position of the first least key.
pub fn first_min_position(keys: &Vec<usize>) -> (r: usize)
    requires
        keys.len() > 0,
    ensures
        is_first_min(keys@, r as int),
{
    let mut best: usize = 0;
    let mut i: usize = 1;
    while i < keys.len()
        invariant
            0 <= best < i <= keys.len(),
            forall|j: int| 0 <= j < i ==> keys@[best as int] <= #[trigger] keys@[j],
            forall|j: int| 0 <= j < best ==> keys@[best as int] < #[trigger] keys@[j],
        decreases keys.len() - i,
    {
        if keys[i] < keys[best] {
            best = i;
        }
        i = i + 1;
    }
    best
}

/// The position of the last greatest key.
pub fn last_max_position(keys: &Vec<usize>) -> (r: usize)
    requires
        keys.len() > 0,
    ensures
        is_last_max(keys@, r as int),
{
    let mut best: usize = 0;
    let mut i: usize = 1;
    while i < keys.len()
        invariant
            0 <= best < i <= keys.len(),
            forall|j: int| 0 <= j < i ==> #[trigger] keys@[j] <= keys@[best as int],
            forall|j: int| best < j < i ==> #[trigger] keys@[j] < keys@[best as int],
        decreases keys.len() - i,
    {
        if keys[i] >= keys[best] {
            best = i;
        }
        i = i + 1;
    }
    best
}

/// A draw of `choose` arms among `arms` arms, with one key per sampled arm.
pub open spec fn is_draw(sampled: Seq<usize>, keys: Seq<usize>, choose: nat, arms: nat) -> bool {
    &&& sampled.len() == choose
    &&& keys.len() == choose
    &&& forall|j: int| 0 <= j < choose ==> #[trigger] sampled[j] < arms
}

/// `arm` is the sampled arm at the position of the first least key.
pub open spec fn picks_first_least(sampled: Seq<usize>, keys: Seq<usize>, arm: usize) -> bool {
    exists|p: int| is_first_min(keys, p) && arm == #[trigger] sampled[p]
}

/// `arm` is the sampled arm at the position of the last greatest key.
pub open spec fn picks_last_greatest(sampled: Seq<usize>, keys: Seq<usize>, arm: usize) -> bool {
    exists|p: int| is_last_max(keys, p) && arm == #[trigger] sampled[p]
}

/// The sampled arm at the position of the first least key.
pub fn pick_first_least(sampled: &Vec<usize>, keys: &Vec<usize>) -> (arm: usize)
    requires
        keys.len() > 0,
        sampled.len() == keys.len(),
    ensures
        picks_first_least(sampled@, keys@, arm),
{
    let p = first_min_position(keys);
    sampled[p]
}

/// The sampled arm at the position of the last greatest key.
pub fn pick_last_greatest(sampled: &Vec<usize>, keys: &Vec<usize>) -> (arm: usize)
    requires
        keys.len() > 0,
        sampled.len() == keys.len(),
    ensures
        picks_last_greatest(sampled@, keys@, arm),
{
    let p = last_max_position(keys);
    sampled[p]
}

/// The pick among sampled keys is determined by the keys: at most one
/// position is the first least key, and at most one is the last greatest key.
pub proof fn lemma_pick_is_unique(keys: Seq<usize>, a: int, b: int)
    ensures
        is_first_min(keys, a) && is_first_min(keys, b) ==> a == b,
        is_last_max(keys, a) && is_last_max(keys, b) ==> a == b,
{
    if is_first_min(keys, a) && is_first_min(keys, b) && a != b {
        if a < b {
            assert(keys[b] < keys[a]);
        } else {
            assert(keys[a] < keys[b]);
        }
    }
    if is_last_max(keys, a) && is_last_max(keys, b) && a != b {
        if a < b {
            assert(keys[b] < keys[a]);
        } else {
            assert(keys[a] < keys[b]);
        }
    }
}

} // verus!
