//! What a project scores: the sum, over the criteria, of its weight times the
//! active priority set's priority. Priorities are fixed-point numbers counted
//! in thousandths, so scores are exact and counted in thousandths too.
use vstd::prelude::*;

use crate::model::{PrioritySetView, ProjectView, WorkspaceView};

verus! {

/// The priority of a criterion that a priority set does not mention: 1.0.
pub const DEFAULT_PRIORITY: i32 = 1000;

/// How many thousandths make one unit of priority.
pub const PRIORITY_SCALE: i32 = 1000;

/// The project's weight on the criterion; 0 where it has none.
pub open spec fn weight_in(p: ProjectView, criterion: Seq<char>) -> int {
    if p.weights.contains_key(criterion) {
        p.weights[criterion] as int
    } else {
        0
    }
}

/// The set's priority for the criterion, in thousandths; the default where it
/// has none.
pub open spec fn priority_in(s: PrioritySetView, criterion: Seq<char>) -> int {
    if s.priorities.contains_key(criterion) {
        s.priorities[criterion] as int
    } else {
        DEFAULT_PRIORITY as int
    }
}

/// What one criterion adds to a project's score.
pub open spec fn contribution(p: ProjectView, s: PrioritySetView, criterion: Seq<char>) -> int {
    weight_in(p, criterion) * priority_in(s, criterion)
}

/// The project's score over the given criteria, in thousandths.
pub open spec fn score_over(p: ProjectView, criteria: Seq<Seq<char>>, s: PrioritySetView) -> int
    decreases criteria.len(),
{
    if criteria.len() == 0 {
        0
    } else {
        score_over(p, criteria.drop_last(), s) + contribution(p, s, criteria.last())
    }
}

/// The largest size of one contribution: two `i32` values multiplied.
pub open spec fn contribution_bound() -> int {
    0x4000_0000_0000_0000
}

impl WorkspaceView {
    /// The active priority set.
    pub open spec fn active_set(self) -> PrioritySetView {
        self.priority_sets[self.priority_set_index(self.active_priority_set->0)]
    }

    /// The score of the project at position `i` under the active priority set.
    pub open spec fn score_of(self, i: int) -> int {
        score_over(self.projects[i], self.criteria, self.active_set())
    }
}

/// Two `i32` values multiplied stay within the contribution bound.
pub proof fn lemma_product_bound(a: i32, b: i32)
    ensures
        -contribution_bound() <= (a as int) * (b as int) <= contribution_bound(),
{
    assert(-contribution_bound() <= (a as int) * (b as int) <= contribution_bound()) by (nonlinear_arith)
        requires
            -0x8000_0000 <= a <= 0x7fff_ffff,
            -0x8000_0000 <= b <= 0x7fff_ffff,
    ;
}

} // verus!
