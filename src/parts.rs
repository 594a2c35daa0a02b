//! A workspace taken apart into plain values, as a stored document holds it,
//! and put together again with every rule of the workspace enforced.
use vstd::prelude::*;

use crate::criterion_map::{entries_map, keys_distinct, CriterionMap};
use crate::error::{fails_with, ErrorKind, RecicionError};
use crate::model::{keys_among, PrioritySetView, ProjectView, WorkspaceView};
use crate::workspace::{option_view, Criterion, PrioritySet, Project, Workspace};

verus! {

/// A name together with the entries stored under it.
pub type NamedEntries = (String, Vec<(String, i32)>);

/// The contents of a workspace as plain values: each project's name and
/// weights, the criteria's names, each priority set's name and priorities (in
/// thousandths), and the name of the active priority set.
#[derive(Debug)]
pub struct WorkspaceParts {
    pub projects: Vec<NamedEntries>,
    pub criteria: Vec<String>,
    pub priority_sets: Vec<NamedEntries>,
    pub active_priority_set: Option<String>,
}

pub open spec fn project_part_view(e: NamedEntries) -> ProjectView {
    ProjectView { name: e.0@, weights: entries_map(e.1@) }
}

pub open spec fn set_part_view(e: NamedEntries) -> PrioritySetView {
    PrioritySetView { name: e.0@, priorities: entries_map(e.1@) }
}

/// The workspace that the parts describe.
pub open spec fn parts_view(p: WorkspaceParts) -> WorkspaceView {
    WorkspaceView {
        projects: p.projects@.map_values(|e: NamedEntries| project_part_view(e)),
        criteria: p.criteria@.map_values(|s: String| s@),
        priority_sets: p.priority_sets@.map_values(|e: NamedEntries| set_part_view(e)),
        active_priority_set: option_view(p.active_priority_set),
    }
}

/// No list of entries repeats a key, and the workspace described keeps every
/// rule of a workspace.
pub open spec fn parts_valid(p: WorkspaceParts) -> bool {
    &&& forall|i: int| 0 <= i < p.projects@.len() ==> keys_distinct(#[trigger] p.projects@[i].1@)
    &&& forall|i: int|
        0 <= i < p.priority_sets@.len() ==> keys_distinct(#[trigger] p.priority_sets@[i].1@)
    &&& parts_view(p).well_formed()
}

impl Workspace {
    /// The workspace that `parts` describe. Fails with `InvalidContents`
    /// exactly where they break a rule of the workspace or repeat a key in a
    /// list of entries.
    pub fn from_parts(parts: WorkspaceParts) -> (r: Result<Workspace, RecicionError>)
        ensures
            r is Ok <==> parts_valid(parts),
            r matches Ok(w) ==> w.wf() && w@ == parts_view(parts),
            r is Err ==> fails_with(r, ErrorKind::InvalidContents),
    {
        let ghost given = parts;
        let ghost pv = parts_view(parts);
        let WorkspaceParts { mut projects, mut criteria, mut priority_sets, active_priority_set } =
            parts;
        let mut ws = Workspace::new();
        let total_criteria: usize = criteria.len();
        let ghost n = total_criteria as int;
        let mut k: usize = 0;
        while criteria.len() > 0
            invariant
                given == parts,
                pv == parts_view(given),
                ws.wf(),
                k + criteria@.len() == n,
                n == pv.criteria.len(),
                n == total_criteria,
                criteria@ == given.criteria@.skip(k as int),
                ws@.criteria == pv.criteria.take(k as int),
                ws@.projects.len() == 0,
                ws@.priority_sets.len() == 0,
                ws@.active_priority_set is None,
            decreases criteria@.len(),
        {
            let name = criteria.remove(0);
            assert(name@ == pv.criteria[k as int]);
            if ws.add_criterion(Criterion::new(name.as_str())).is_err() {
                proof {
                    if name@.len() == 0 {
                        assert(pv.criteria[k as int].len() == 0);
                    } else {
                        let j = choose|j: int| 0 <= j < ws@.criteria.len() && ws@.criteria[j] == name@;
                        assert(ws@.criteria[j] == pv.criteria[j]);
                        assert(pv.criteria[j] == pv.criteria[k as int]);
                    }
                    assert(!pv.well_formed());
                }
                return Err(invalid());
            }
            proof {
                assert(ws@.criteria =~= pv.criteria.take(k + 1));
                assert(criteria@ =~= given.criteria@.skip(k + 1));
            }
            k = k + 1;
        }
        assert(ws@.criteria =~= pv.criteria);
        let total_projects: usize = projects.len();
        let ghost m = total_projects as int;
        let mut i: usize = 0;
        while projects.len() > 0
            invariant
                given == parts,
                pv == parts_view(given),
                ws.wf(),
                i + projects@.len() == m,
                m == pv.projects.len(),
                m == total_projects,
                projects@ == given.projects@.skip(i as int),
                ws@.criteria == pv.criteria,
                ws@.projects == pv.projects.take(i as int),
                forall|j: int| 0 <= j < i <= given.projects@.len() ==> keys_distinct(#[trigger] given.projects@[j].1@),
                ws@.priority_sets.len() == 0,
                ws@.active_priority_set is None,
            decreases projects@.len(),
        {
            assert(pv.projects.len() == given.projects@.len());
            assert(i < given.projects@.len());
            let ghost rest = projects@;
            let e = projects.remove(0);
            assert(rest[0] == given.projects@[i as int]);
            assert(e == given.projects@[i as int]);
            assert(pv.projects[i as int] == project_part_view(e));
            let (name, entries) = e;
            let weights = match CriterionMap::from_entries(entries) {
                Some(m) => m,
                None => {
                    assert(!keys_distinct(given.projects@[i as int].1@));
                    return Err(invalid());
                },
            };
            let project = Project::with_weights(name, weights);
            assert(project@ == pv.projects[i as int]);
            if ws.add_project(project).is_err() {
                proof {
                    if project@.name.len() == 0 {
                        assert(pv.projects[i as int].name.len() == 0);
                    } else if ws@.has_project(project@.name) {
                        let j = choose|j: int|
                            0 <= j < ws@.projects.len() && #[trigger] ws@.projects[j].name
                                == project@.name;
                        assert(ws@.projects[j] == pv.projects[j]);
                        assert(pv.projects[j].name == pv.projects[i as int].name);
                    } else {
                        assert(!keys_among(pv.projects[i as int].weights, pv.criteria));
                    }
                    assert(!pv.well_formed());
                }
                return Err(invalid());
            }
            proof {
                assert(ws@.projects =~= pv.projects.take(i + 1));
                assert(projects@ =~= given.projects@.skip(i + 1));
            }
            i = i + 1;
        }
        assert(ws@.projects =~= pv.projects);
        let total_sets: usize = priority_sets.len();
        let ghost q = total_sets as int;
        let mut s: usize = 0;
        while priority_sets.len() > 0
            invariant
                given == parts,
                pv == parts_view(given),
                ws.wf(),
                s + priority_sets@.len() == q,
                q == pv.priority_sets.len(),
                q == total_sets,
                priority_sets@ == given.priority_sets@.skip(s as int),
                ws@.criteria == pv.criteria,
                ws@.projects == pv.projects,
                ws@.priority_sets == pv.priority_sets.take(s as int),
                forall|j: int| 0 <= j < given.projects@.len() ==> keys_distinct(#[trigger] given.projects@[j].1@),
                forall|j: int| 0 <= j < s <= given.priority_sets@.len() ==> keys_distinct(#[trigger] given.priority_sets@[j].1@),
                ws@.active_priority_set is None,
            decreases priority_sets@.len(),
        {
            let ghost rest = priority_sets@;
            let e = priority_sets.remove(0);
            assert(rest[0] == given.priority_sets@[s as int]);
            assert(e == given.priority_sets@[s as int]);
            assert(pv.priority_sets[s as int] == set_part_view(e));
            let (name, entries) = e;
            let priorities = match CriterionMap::from_entries(entries) {
                Some(m) => m,
                None => {
                    assert(!keys_distinct(given.priority_sets@[s as int].1@));
                    return Err(invalid());
                },
            };
            let set = PrioritySet::with_priorities(name, priorities);
            assert(set@ == pv.priority_sets[s as int]);
            if ws.add_filled_priority_set(set).is_err() {
                proof {
                    if ws@.has_priority_set(set@.name) {
                        let j = choose|j: int|
                            0 <= j < ws@.priority_sets.len() && #[trigger] ws@.priority_sets[j].name
                                == set@.name;
                        assert(ws@.priority_sets[j] == pv.priority_sets[j]);
                        assert(pv.priority_sets[j].name == pv.priority_sets[s as int].name);
                    } else {
                        assert(!keys_among(pv.priority_sets[s as int].priorities, pv.criteria));
                    }
                    assert(!pv.well_formed());
                }
                return Err(invalid());
            }
            proof {
                assert(ws@.priority_sets =~= pv.priority_sets.take(s + 1));
                assert(priority_sets@ =~= given.priority_sets@.skip(s + 1));
            }
            s = s + 1;
        }
        assert(ws@.priority_sets =~= pv.priority_sets);
        if let Some(active) = active_priority_set {
            if ws.activate_priority_set(active.as_str()).is_err() {
                assert(!pv.well_formed());
                return Err(invalid());
            }
        }
        assert(ws@ == pv);
        proof {
            ws.lemma_well_formed();
        }
        Ok(ws)
    }

    /// The workspace's contents as plain values, in the workspace's order.
    pub fn to_parts(&self) -> (r: WorkspaceParts)
        requires
            self.wf(),
        ensures
            parts_valid(r),
            parts_view(r) == self@,
    {
        proof {
            self.lemma_well_formed();
        }
        let projects = self.projects();
        let mut project_parts: Vec<NamedEntries> = Vec::new();
        let mut i: usize = 0;
        while i < projects.len()
            invariant
                projects@.len() == self@.projects.len(),
                forall|j: int| 0 <= j < projects@.len() ==> (#[trigger] projects@[j])@ == self@.projects[j],
                forall|j: int| 0 <= j < projects@.len() ==> (#[trigger] projects@[j]).wf(),
                i <= projects@.len(),
                project_parts@.len() == i,
                forall|j: int| 0 <= j < i ==> keys_distinct(#[trigger] project_parts@[j].1@),
                forall|j: int| 0 <= j < i ==> project_part_view(#[trigger] project_parts@[j]) == self@.projects[j],
            decreases projects@.len() - i,
        {
            let p = &projects[i];
            let entries = p.weights().entries();
            let name = p.get_name().to_owned();
            project_parts.push((name, entries));
            i = i + 1;
        }
        let criteria = self.criteria();
        let mut criterion_parts: Vec<String> = Vec::new();
        let mut k: usize = 0;
        while k < criteria.len()
            invariant
                criteria@.len() == self@.criteria.len(),
                forall|j: int| 0 <= j < criteria@.len() ==> (#[trigger] criteria@[j])@ == self@.criteria[j],
                k <= criteria@.len(),
                criterion_parts@.len() == k,
                forall|j: int| 0 <= j < k ==> (#[trigger] criterion_parts@[j])@ == self@.criteria[j],
            decreases criteria@.len() - k,
        {
            criterion_parts.push(criteria[k].get_name().to_owned());
            k = k + 1;
        }
        let sets = self.priority_sets();
        let mut set_parts: Vec<NamedEntries> = Vec::new();
        let mut s: usize = 0;
        while s < sets.len()
            invariant
                sets@.len() == self@.priority_sets.len(),
                forall|j: int| 0 <= j < sets@.len() ==> (#[trigger] sets@[j])@ == self@.priority_sets[j],
                forall|j: int| 0 <= j < sets@.len() ==> (#[trigger] sets@[j]).wf(),
                s <= sets@.len(),
                set_parts@.len() == s,
                forall|j: int| 0 <= j < s ==> keys_distinct(#[trigger] set_parts@[j].1@),
                forall|j: int| 0 <= j < s ==> set_part_view(#[trigger] set_parts@[j]) == self@.priority_sets[j],
            decreases sets@.len() - s,
        {
            let p = &sets[s];
            let entries = p.priorities().entries();
            let name = p.get_name().to_owned();
            set_parts.push((name, entries));
            s = s + 1;
        }
        let active = match self.get_active_priority_set() {
            Some(a) => Some(a.to_owned()),
            None => None,
        };
        let r = WorkspaceParts {
            projects: project_parts,
            criteria: criterion_parts,
            priority_sets: set_parts,
            active_priority_set: active,
        };
        proof {
            let v = parts_view(r);
            assert(v.projects =~= self@.projects);
            assert(v.criteria =~= self@.criteria);
            assert(v.priority_sets =~= self@.priority_sets);
            assert(v == self@);
        }
        r
    }
}

/// The error for stored contents that break a rule of the workspace.
fn invalid() -> (r: RecicionError)
    ensures
        r.kind == ErrorKind::InvalidContents,
{
    RecicionError::with_kind(
        ErrorKind::InvalidContents,
        String::from_str("the workspace contents break a rule of the workspace"),
    )
}

} // verus!
