//! Laws that relate the operations of the decision matrix.
use vstd::prelude::*;

use crate::parts::{parts_valid, parts_view, WorkspaceParts};
use crate::score::{contribution, priority_in, score_over, weight_in, PRIORITY_SCALE};
use crate::model::{PrioritySetView, ProjectView, WorkspaceView};
use crate::workspace::Workspace;

verus! {

/// Activating a priority set a second time changes nothing: the workspace
/// after two activations of one name is the workspace after one, whether or
/// not a set of that name exists.
pub proof fn lemma_activation_idempotent(w: WorkspaceView, name: Seq<char>)
    ensures
        w.activated(name).activated(name) == w.activated(name),
{
    if w.has_priority_set(name) {
        let v = w.with_active(name);
        assert(v.priority_sets == w.priority_sets);
        let i = choose|i: int|
            0 <= i < w.priority_sets.len() && #[trigger] w.priority_sets[i].name == name;
        assert(v.priority_sets[i].name == name);
        assert(v.has_priority_set(name));
        assert(v.with_active(name) == v);
    }
}

/// A name that was just added is present, so that adding the same name a
/// second time is refused with `DuplicateName` and changes nothing.
pub proof fn lemma_second_add_refused(w: WorkspaceView, p: ProjectView, criterion: Seq<char>, set: Seq<char>)
    ensures
        w.with_project(p).has_project(p.name),
        w.with_criterion(criterion).has_criterion(criterion),
        w.with_priority_set(set).has_priority_set(set),
{
    let a = w.with_project(p);
    assert(a.projects[w.projects.len() as int].name == p.name);
    let b = w.with_criterion(criterion);
    assert(b.criteria[w.criteria.len() as int] == criterion);
    let c = w.with_priority_set(set);
    assert(c.priority_sets[w.priority_sets.len() as int].name == set);
}

/// Once a criterion is removed, neither it nor any weight or priority for it
/// is left.
pub proof fn lemma_removed_criterion_forgotten(w: WorkspaceView, criterion: Seq<char>)
    requires
        w.well_formed(),
        w.has_criterion(criterion),
    ensures
        !w.without_criterion(criterion).has_criterion(criterion),
        forall|i: int|
            0 <= i < w.projects.len() ==> !(#[trigger] w.without_criterion(criterion).projects[i]).weights.contains_key(criterion),
        forall|i: int|
            0 <= i < w.priority_sets.len() ==> !(#[trigger] w.without_criterion(criterion).priority_sets[i]).priorities.contains_key(criterion),
{
    let k = w.criterion_index(criterion);
    let v = w.without_criterion(criterion);
    assert(w.criteria[k] == criterion);
    if v.criteria.contains(criterion) {
        let a = choose|a: int| 0 <= a < v.criteria.len() && v.criteria[a] == criterion;
        let a2 = if a < k { a } else { a + 1 };
        assert(v.criteria[a] == w.criteria[a2]);
        if a2 < k {
            assert(w.criteria[a2] != w.criteria[k]);
        } else {
            assert(w.criteria[k] != w.criteria[a2]);
        }
    }
}

/// A project that was just added has weight 0 on every criterion, until a
/// weight is set.
pub proof fn lemma_new_project_weighs_zero(w: WorkspaceView, name: Seq<char>, criterion: Seq<char>)
    requires
        w.well_formed(),
        !w.has_project(name),
    ensures
        w.with_project(ProjectView { name, weights: Map::empty() }).weight_of(name, criterion) == 0,
{
    let p = ProjectView { name, weights: Map::empty() };
    let v = w.with_project(p);
    assert forall|i: int, j: int| 0 <= i < j < v.projects.len() implies #[trigger] v.projects[i].name
        != #[trigger] v.projects[j].name by {
        assert(v.projects[i] == w.projects[i]);
        if j < w.projects.len() {
            assert(v.projects[j] == w.projects[j]);
        } else {
            assert(v.projects[j] == p);
        }
    }
    assert(v.projects[w.projects.len() as int] == p);
    assert(v.projects[w.projects.len() as int].name == name);
    assert(v.has_project(name));
    let k = v.project_index(name);
    if k != w.projects.len() {
        assert(v.projects[k] == w.projects[k]);
    }
}

/// A weight reads back as it was set, and setting one weight leaves every
/// other pair's weight as it was: a pair that was never set keeps weight 0.
pub proof fn lemma_weight_read_back(
    w: WorkspaceView,
    project: Seq<char>,
    criterion: Seq<char>,
    value: i32,
    other_project: Seq<char>,
    other_criterion: Seq<char>,
)
    requires
        w.well_formed(),
        w.has_project(project),
        w.has_project(other_project),
    ensures
        w.with_weight(project, criterion, value).weight_of(project, criterion) == value,
        project != other_project || criterion != other_criterion ==> w.with_weight(
            project,
            criterion,
            value,
        ).weight_of(other_project, other_criterion) == w.weight_of(other_project, other_criterion),
{
    let v = w.with_weight(project, criterion, value);
    let i = w.project_index(project);
    assert(v.projects[i].name == project);
    let vi = v.project_index(project);
    assert(w.projects[vi].name == v.projects[vi].name);
    if vi < i {
        assert(w.projects[vi].name != w.projects[i].name);
    } else if i < vi {
        assert(w.projects[i].name != w.projects[vi].name);
    }
    let k = w.project_index(other_project);
    assert(v.projects[k].name == other_project);
    let vk = v.project_index(other_project);
    assert(w.projects[vk].name == v.projects[vk].name);
    if vk < k {
        assert(w.projects[vk].name != w.projects[k].name);
    } else if k < vk {
        assert(w.projects[k].name != w.projects[vk].name);
    }
}

/// A criterion that the active priority set does not mention counts with
/// priority 1.0: its weight, scaled to thousandths, goes into the score as
/// it is.
pub proof fn lemma_default_priority(p: ProjectView, s: PrioritySetView, criterion: Seq<char>)
    requires
        !s.priorities.contains_key(criterion),
    ensures
        priority_in(s, criterion) == PRIORITY_SCALE as int,
        contribution(p, s, criterion) == weight_in(p, criterion) * (PRIORITY_SCALE as int),
{
}

/// The sum of a project's weights over the given criteria.
pub open spec fn weight_sum(p: ProjectView, criteria: Seq<Seq<char>>) -> int
    decreases criteria.len(),
{
    if criteria.len() == 0 {
        0
    } else {
        weight_sum(p, criteria.drop_last()) + weight_in(p, criteria.last())
    }
}

/// Under a priority set that mentions none of the criteria, a project scores
/// the plain sum of its weights (in thousandths).
pub proof fn lemma_unprioritised_score(
    p: ProjectView,
    criteria: Seq<Seq<char>>,
    s: PrioritySetView,
)
    requires
        forall|i: int| 0 <= i < criteria.len() ==> !s.priorities.contains_key(#[trigger] criteria[i]),
    ensures
        score_over(p, criteria, s) == weight_sum(p, criteria) * (PRIORITY_SCALE as int),
    decreases criteria.len(),
{
    if criteria.len() > 0 {
        let rest = criteria.drop_last();
        assert forall|i: int| 0 <= i < rest.len() implies !s.priorities.contains_key(#[trigger] rest[i]) by {
            assert(rest[i] == criteria[i]);
        }
        lemma_unprioritised_score(p, rest, s);
        assert(!s.priorities.contains_key(criteria[criteria.len() - 1]));
        let c = criteria.last();
        assert(weight_sum(p, criteria) == weight_sum(p, rest) + weight_in(p, c));
        assert(contribution(p, s, c) == weight_in(p, c) * 1000);
        assert(score_over(p, criteria, s) == score_over(p, rest, s) + contribution(p, s, c));
    }
}

/// Taking a well-formed workspace apart gives parts that are accepted when
/// the workspace is put together again, and that describe the same
/// workspace: whatever describes a well-formed workspace with no key
/// repeated in a list of entries is valid.
pub proof fn lemma_parts_round_trip(w: Workspace, p: WorkspaceParts)
    requires
        w.wf(),
        parts_view(p) == w@,
        forall|i: int|
            0 <= i < p.projects@.len() ==> crate::criterion_map::keys_distinct(
                #[trigger] p.projects@[i].1@,
            ),
        forall|i: int|
            0 <= i < p.priority_sets@.len() ==> crate::criterion_map::keys_distinct(
                #[trigger] p.priority_sets@[i].1@,
            ),
    ensures
        parts_valid(p),
        parts_view(p) == w@,
{
    w.lemma_well_formed();
}

} // verus!
