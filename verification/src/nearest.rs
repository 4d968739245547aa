//! Which cue lies nearest to a time.

use vstd::prelude::*;
use crate::models::VttCueView;
use crate::timestamp::seconds_of;

verus! {

/// The second at which a cue starts; zero where its start cannot be read.
pub open spec fn start_seconds(cue: VttCueView) -> int {
    match seconds_of(cue.start_timestamp) {
        Some(s) => s as int,
        None => 0,
    }
}

/// How many seconds lie between the start of a cue and `target`.
pub open spec fn distance(cue: VttCueView, target: int) -> int {
    if start_seconds(cue) >= target {
        start_seconds(cue) - target
    } else {
        target - start_seconds(cue)
    }
}

/// Cue `k` starts at least as near to `target` as every cue, and nearer
/// than every cue before it.
pub open spec fn is_nearest(cues: Seq<VttCueView>, target: int, k: int) -> bool {
    &&& 0 <= k < cues.len()
    &&& forall|j: int|
        0 <= j < cues.len() ==> distance(cues[k], target) <= distance(#[trigger] cues[j], target)
    &&& forall|j: int|
        0 <= j < k ==> distance(cues[k], target) < distance(#[trigger] cues[j], target)
}

/// The first of the cues that start nearest to `target`.
pub open spec fn nearest(cues: Seq<VttCueView>, target: int) -> int
    decreases cues.len(),
{
    if cues.len() <= 1 {
        0
    } else {
        let k = nearest(cues.drop_last(), target);
        if distance(cues.last(), target) < distance(cues[k], target) {
            cues.len() - 1
        } else {
            k
        }
    }
}

/// Among cues, `nearest` is one that `is_nearest`.
pub proof fn lemma_nearest(cues: Seq<VttCueView>, target: int)
    requires
        cues.len() > 0,
    ensures
        is_nearest(cues, target, nearest(cues, target)),
    decreases cues.len(),
{
    if cues.len() > 1 {
        let front = cues.drop_last();
        lemma_nearest(front, target);
        let k = nearest(front, target);
        assert(front[k] == cues[k]);
        assert forall|j: int| 0 <= j < cues.len() - 1 implies distance(cues[k], target)
            <= distance(#[trigger] cues[j], target) by {
            assert(front[j] == cues[j]);
        }
        assert forall|j: int| 0 <= j < k implies distance(cues[k], target) < distance(
            #[trigger] cues[j],
            target,
        ) by {
            assert(front[j] == cues[j]);
        }
    }
}

/// No two cues are both the nearest.
pub proof fn lemma_nearest_unique(cues: Seq<VttCueView>, target: int, a: int, b: int)
    requires
        is_nearest(cues, target, a),
        is_nearest(cues, target, b),
    ensures
        a == b,
{
    if a < b {
        assert(distance(cues[b], target) < distance(cues[a], target));
        assert(distance(cues[a], target) <= distance(cues[b], target));
    } else if b < a {
        assert(distance(cues[a], target) < distance(cues[b], target));
        assert(distance(cues[b], target) <= distance(cues[a], target));
    }
}

} // verus!
