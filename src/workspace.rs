//! The decision matrix: projects, criteria and priority sets, kept by name.
use vstd::prelude::*;

use crate::criterion_map::{
    entries_map, keys_distinct, lemma_entries_map_domain, lemma_entries_map_value, CriterionMap,
};
use crate::error::{fails_with, ErrorKind, RecicionError};
use crate::model::{
    keys_among, lemma_priority_set_index, lemma_project_index, lemma_with_criterion,
    lemma_with_priority_set, lemma_with_project, lemma_without_criterion,
    lemma_without_priority_set, lemma_without_project, PrioritySetView, ProjectView,
    WorkspaceView,
};
use crate::score::{
    contribution, contribution_bound, lemma_product_bound, score_over, DEFAULT_PRIORITY,
};

verus! {

/// A project: an alternative that is weighed against the criteria.
#[derive(Debug)]
pub struct Project {
    name: String,
    weights: CriterionMap,
}

impl View for Project {
    type V = ProjectView;

    closed spec fn view(&self) -> ProjectView {
        ProjectView { name: self.name@, weights: self.weights@ }
    }
}

impl Project {
    pub closed spec fn wf(&self) -> bool {
        self.weights.wf()
    }

    /// A project of that name with no weights.
    pub fn new(name: &str) -> (r: Project)
        ensures
            r.wf(),
            r@.name == name@,
            r@.weights == Map::<Seq<char>, i32>::empty(),
    {
        Project { name: name.to_owned(), weights: CriterionMap::new() }
    }

    pub fn get_name(&self) -> (r: &str)
        ensures
            r@ == self@.name,
    {
        self.name.as_str()
    }

    /// A project of that name with the given weights.
    pub(crate) fn with_weights(name: String, weights: CriterionMap) -> (r: Project)
        requires
            weights.wf(),
        ensures
            r.wf(),
            r@ == (ProjectView { name: name@, weights: weights@ }),
    {
        Project { name, weights }
    }

    /// The project's weights.
    pub fn weights(&self) -> (r: &CriterionMap)
        ensures
            r@ == self@.weights,
            self.wf() ==> r.wf(),
    {
        &self.weights
    }
}

/// A criterion: a named dimension on which every project is weighed.
#[derive(Debug)]
pub struct Criterion {
    name: String,
}

impl View for Criterion {
    type V = Seq<char>;

    closed spec fn view(&self) -> Seq<char> {
        self.name@
    }
}

impl Criterion {
    pub fn new(name: &str) -> (r: Criterion)
        ensures
            r@ == name@,
    {
        Criterion { name: name.to_owned() }
    }

    pub fn get_name(&self) -> (r: &str)
        ensures
            r@ == self@,
    {
        self.name.as_str()
    }
}

/// A priority set: one way of scaling the criteria against each other.
#[derive(Debug)]
pub struct PrioritySet {
    name: String,
    priorities: CriterionMap,
}

impl View for PrioritySet {
    type V = PrioritySetView;

    closed spec fn view(&self) -> PrioritySetView {
        PrioritySetView { name: self.name@, priorities: self.priorities@ }
    }
}

impl PrioritySet {
    pub closed spec fn wf(&self) -> bool {
        self.priorities.wf()
    }

    /// A priority set of that name with no priorities.
    pub fn new(name: &str) -> (r: PrioritySet)
        ensures
            r.wf(),
            r@.name == name@,
            r@.priorities == Map::<Seq<char>, i32>::empty(),
    {
        PrioritySet { name: name.to_owned(), priorities: CriterionMap::new() }
    }

    pub fn get_name(&self) -> (r: &str)
        ensures
            r@ == self@.name,
    {
        self.name.as_str()
    }

    /// A priority set of that name with the given priorities.
    pub(crate) fn with_priorities(name: String, priorities: CriterionMap) -> (r: PrioritySet)
        requires
            priorities.wf(),
        ensures
            r.wf(),
            r@ == (PrioritySetView { name: name@, priorities: priorities@ }),
    {
        PrioritySet { name, priorities }
    }

    /// The set's priorities, in thousandths.
    pub fn priorities(&self) -> (r: &CriterionMap)
        ensures
            r@ == self@.priorities,
            self.wf() ==> r.wf(),
    {
        &self.priorities
    }

    /// The priority of the criterion, in thousandths, where the set has one.
    pub fn get_priority(&self, criterion_name: &str) -> (r: Option<i32>)
        requires
            self.wf(),
        ensures
            r == (if self@.priorities.contains_key(criterion_name@) {
                Some(self@.priorities[criterion_name@])
            } else {
                None::<i32>
            }),
    {
        self.priorities.get(criterion_name)
    }
}

/// The workspace: the projects, criteria and priority sets, and the name of
/// the active priority set.
#[derive(Debug)]
pub struct Workspace {
    projects: Vec<Project>,
    criteria: Vec<Criterion>,
    priority_sets: Vec<PrioritySet>,
    active_priority_set: Option<String>,
}

impl Default for Workspace {
    fn default() -> (r: Workspace)
        ensures
            r.wf(),
            r@.projects.len() == 0,
            r@.criteria.len() == 0,
            r@.priority_sets.len() == 0,
            r@.active_priority_set is None,
    {
        Workspace::new()
    }
}

pub open spec fn option_view(o: Option<String>) -> Option<Seq<char>> {
    match o {
        Some(s) => Some(s@),
        None => None,
    }
}

impl View for Workspace {
    type V = WorkspaceView;

    closed spec fn view(&self) -> WorkspaceView {
        WorkspaceView {
            projects: self.projects@.map_values(|p: Project| p@),
            criteria: self.criteria@.map_values(|c: Criterion| c@),
            priority_sets: self.priority_sets@.map_values(|s: PrioritySet| s@),
            active_priority_set: option_view(self.active_priority_set),
        }
    }
}

impl Workspace {
    pub closed spec fn wf(&self) -> bool {
        &&& self@.well_formed()
        &&& forall|i: int| 0 <= i < self.projects@.len() ==> #[trigger] self.projects@[i].wf()
        &&& forall|i: int|
            0 <= i < self.priority_sets@.len() ==> #[trigger] self.priority_sets@[i].wf()
    }

    /// A workspace that keeps its representation's rules keeps the rules of
    /// every workspace.
    pub proof fn lemma_well_formed(&self)
        requires
            self.wf(),
        ensures
            self@.well_formed(),
    {
    }

    /// An empty workspace with no active priority set.
    pub fn new() -> (r: Workspace)
        ensures
            r.wf(),
            r@.projects.len() == 0,
            r@.criteria.len() == 0,
            r@.priority_sets.len() == 0,
            r@.active_priority_set is None,
    {
        Workspace {
            projects: Vec::new(),
            criteria: Vec::new(),
            priority_sets: Vec::new(),
            active_priority_set: None,
        }
    }

    fn project_position(&self, name: &str) -> (r: Option<usize>)
        ensures
            match r {
                Some(i) => i < self@.projects.len() && self@.projects[i as int].name == name@,
                None => !self@.has_project(name@),
            },
    {
        let target = name.to_owned();
        let mut i: usize = 0;
        while i < self.projects.len()
            invariant
                target@ == name@,
                i <= self.projects@.len(),
                forall|j: int| 0 <= j < i ==> #[trigger] self@.projects[j].name != name@,
            decreases self.projects@.len() - i,
        {
            if self.projects[i].name == target {
                return Some(i);
            }
            i = i + 1;
        }
        None
    }

    fn criterion_position(&self, name: &str) -> (r: Option<usize>)
        ensures
            match r {
                Some(i) => i < self@.criteria.len() && self@.criteria[i as int] == name@,
                None => !self@.has_criterion(name@),
            },
    {
        let target = name.to_owned();
        let mut i: usize = 0;
        while i < self.criteria.len()
            invariant
                target@ == name@,
                i <= self.criteria@.len(),
                forall|j: int| 0 <= j < i ==> #[trigger] self@.criteria[j] != name@,
            decreases self.criteria@.len() - i,
        {
            if self.criteria[i].name == target {
                return Some(i);
            }
            i = i + 1;
        }
        None
    }

    fn priority_set_position(&self, name: &str) -> (r: Option<usize>)
        ensures
            match r {
                Some(i) => i < self@.priority_sets.len() && self@.priority_sets[i as int].name
                    == name@,
                None => !self@.has_priority_set(name@),
            },
    {
        let target = name.to_owned();
        let mut i: usize = 0;
        while i < self.priority_sets.len()
            invariant
                target@ == name@,
                i <= self.priority_sets@.len(),
                forall|j: int| 0 <= j < i ==> #[trigger] self@.priority_sets[j].name != name@,
            decreases self.priority_sets@.len() - i,
        {
            if self.priority_sets[i].name == target {
                return Some(i);
            }
            i = i + 1;
        }
        None
    }

    /// Whether every key of `m` names a criterion of the workspace.
    fn keys_known(&self, m: &CriterionMap) -> (r: bool)
        requires
            m.wf(),
        ensures
            r == keys_among(m@, self@.criteria),
    {
        let entries = m.entries();
        let mut i: usize = 0;
        while i < entries.len()
            invariant
                keys_distinct(entries@),
                entries_map(entries@) == m@,
                i <= entries@.len(),
                forall|j: int| 0 <= j < i ==> self@.criteria.contains(#[trigger] entries@[j].0@),
            decreases entries@.len() - i,
        {
            match self.criterion_position(entries[i].0.as_str()) {
                Some(c) => {
                    assert(self@.criteria[c as int] == entries@[i as int].0@);
                },
                None => {
                    proof {
                        lemma_entries_map_value(entries@, i as int);
                    }
                    return false;
                },
            }
            i = i + 1;
        }
        assert forall|k: Seq<char>| #[trigger] m@.contains_key(k) implies self@.criteria.contains(k) by {
            lemma_entries_map_domain(entries@, k);
            let j = choose|j: int| 0 <= j < entries@.len() && #[trigger] entries@[j].0@ == k;
            assert(self@.criteria.contains(entries@[j].0@));
        }
        true
    }

    /// Appends `project`. Fails with `EmptyName` where its name is empty,
    /// with `DuplicateName` where a project of that name exists, and with
    /// `NotFound` where the project has a weight for an unknown criterion;
    /// the workspace is then unchanged.
    pub fn add_project(&mut self, project: Project) -> (r: Result<(), RecicionError>)
        requires
            old(self).wf(),
            project.wf(),
        ensures
            final(self).wf(),
            project@.name.len() == 0 ==> fails_with(r, ErrorKind::EmptyName),
            old(self)@.has_project(project@.name) ==> fails_with(r, ErrorKind::DuplicateName),
            project@.name.len() > 0 && !old(self)@.has_project(project@.name) && !keys_among(
                project@.weights,
                old(self)@.criteria,
            ) ==> fails_with(r, ErrorKind::NotFound),
            r is Ok <==> project@.name.len() > 0 && !old(self)@.has_project(project@.name)
                && keys_among(project@.weights, old(self)@.criteria),
            r is Ok ==> final(self)@ == old(self)@.with_project(project@),
            r is Err ==> final(self)@ == old(self)@,
    {
        proof {
            self.lemma_well_formed();
        }
        if project.name.as_str().is_empty() {
            proof {
                if self@.has_project(project@.name) {
                    let i = choose|i: int|
                        0 <= i < self@.projects.len() && #[trigger] self@.projects[i].name
                            == project@.name;
                    assert(self@.projects[i].name.len() > 0);
                }
            }
            return Err(
                RecicionError::with_kind(
                    ErrorKind::EmptyName,
                    String::from_str("a project needs a non-empty name"),
                ),
            );
        }
        if self.project_position(project.name.as_str()).is_some() {
            return Err(
                RecicionError::naming(
                    ErrorKind::DuplicateName,
                    "project ",
                    project.name.as_str(),
                    " already exists",
                ),
            );
        }
        if !self.keys_known(&project.weights) {
            return Err(
                RecicionError::naming(
                    ErrorKind::NotFound,
                    "project ",
                    project.name.as_str(),
                    " is weighed on an unknown criterion",
                ),
            );
        }
        let ghost p = project@;
        self.projects.push(project);
        proof {
            assert(self@.projects =~= old(self)@.projects.push(p));
            assert(self@ == old(self)@.with_project(p));
            assert forall|i: int| 0 <= i < self.projects@.len() implies #[trigger] self.projects@[i].wf() by {
                if i < old(self).projects@.len() {
                    assert(self.projects@[i] == old(self).projects@[i]);
                }
            }
            lemma_with_project(old(self)@, p);
            assert(self@.well_formed());
        }
        Ok(())
    }

    /// Appends `criterion`. Fails with `EmptyName` where its name is empty,
    /// and with `DuplicateName` where a criterion of that name exists; the
    /// workspace is then unchanged.
    pub fn add_criterion(&mut self, criterion: Criterion) -> (r: Result<(), RecicionError>)
        requires
            old(self).wf(),
        ensures
            final(self).wf(),
            criterion@.len() == 0 ==> fails_with(r, ErrorKind::EmptyName),
            old(self)@.has_criterion(criterion@) ==> fails_with(r, ErrorKind::DuplicateName),
            r is Err <==> criterion@.len() == 0 || old(self)@.has_criterion(criterion@),
            r is Err ==> final(self)@ == old(self)@,
            r is Ok ==> final(self)@ == old(self)@.with_criterion(criterion@),
    {
        proof {
            self.lemma_well_formed();
        }
        if criterion.name.as_str().is_empty() {
            proof {
                if self@.has_criterion(criterion@) {
                    let i = choose|i: int|
                        0 <= i < self@.criteria.len() && self@.criteria[i] == criterion@;
                    assert(self@.criteria[i].len() > 0);
                }
            }
            return Err(
                RecicionError::with_kind(
                    ErrorKind::EmptyName,
                    String::from_str("a criterion needs a non-empty name"),
                ),
            );
        }
        if self.criterion_position(criterion.name.as_str()).is_some() {
            return Err(
                RecicionError::naming(
                    ErrorKind::DuplicateName,
                    "criterion ",
                    criterion.name.as_str(),
                    " already exists",
                ),
            );
        }
        let ghost c = criterion@;
        self.criteria.push(criterion);
        proof {
            assert(self@.criteria =~= old(self)@.criteria.push(c));
            assert(self@ == old(self)@.with_criterion(c));
            lemma_with_criterion(old(self)@, c);
        }
        Ok(())
    }

    /// Appends an empty priority set of that name. Fails with
    /// `DuplicateName`, leaving the workspace unchanged, where one exists.
    pub fn add_priority_set(&mut self, name: &str) -> (r: Result<(), RecicionError>)
        requires
            old(self).wf(),
        ensures
            final(self).wf(),
            r is Err <==> old(self)@.has_priority_set(name@),
            r is Err ==> fails_with(r, ErrorKind::DuplicateName) && final(self)@ == old(self)@,
            r is Ok ==> final(self)@ == old(self)@.with_priority_set(name@),
    {
        if self.priority_set_position(name).is_some() {
            return Err(
                RecicionError::naming(
                    ErrorKind::DuplicateName,
                    "priority set ",
                    name,
                    " already exists",
                ),
            );
        }
        let set = PrioritySet::new(name);
        let ghost v = set@;
        self.priority_sets.push(set);
        proof {
            assert(self@.priority_sets =~= old(self)@.priority_sets.push(v));
            assert(self@ == old(self)@.with_priority_set(name@));
            lemma_with_priority_set(old(self)@, name@);
            assert forall|i: int| 0 <= i < self.priority_sets@.len() implies #[trigger] self.priority_sets@[i].wf() by {
                if i < old(self).priority_sets@.len() {
                    assert(self.priority_sets@[i] == old(self).priority_sets@[i]);
                }
            }
        }
        Ok(())
    }

    /// The project of that name, if there is one.
    pub fn get_project(&self, name: &str) -> (r: Option<&Project>)
        requires
            self.wf(),
        ensures
            r is Some <==> self@.has_project(name@),
            r matches Some(p) ==> p.wf() && p@ == self@.projects[self@.project_index(name@)],
    {
        match self.project_position(name) {
            Some(i) => {
                proof {
                    lemma_project_index(self@, i as int);
                }
                Some(&self.projects[i])
            },
            None => None,
        }
    }

    /// The criterion of that name, if there is one.
    pub fn get_criterion(&self, name: &str) -> (r: Option<&Criterion>)
        ensures
            r is Some <==> self@.has_criterion(name@),
            r matches Some(c) ==> c@ == name@,
    {
        match self.criterion_position(name) {
            Some(i) => Some(&self.criteria[i]),
            None => None,
        }
    }

    /// The priority set of that name, if there is one.
    pub fn get_priority_set(&self, name: &str) -> (r: Option<&PrioritySet>)
        requires
            self.wf(),
        ensures
            r is Some <==> self@.has_priority_set(name@),
            r matches Some(s) ==> s.wf() && s@ == self@.priority_sets[self@.priority_set_index(
                name@,
            )],
    {
        match self.priority_set_position(name) {
            Some(i) => {
                proof {
                    lemma_priority_set_index(self@, i as int);
                }
                Some(&self.priority_sets[i])
            },
            None => None,
        }
    }

    /// The names of the projects, in order.
    pub fn get_project_names(&self) -> (r: Vec<String>)
        ensures
            r@.len() == self@.projects.len(),
            forall|i: int| 0 <= i < r@.len() ==> #[trigger] r@[i]@ == self@.projects[i].name,
    {
        let mut r: Vec<String> = Vec::new();
        let mut i: usize = 0;
        while i < self.projects.len()
            invariant
                i <= self.projects@.len(),
                r@.len() == i,
                forall|j: int| 0 <= j < i ==> #[trigger] r@[j]@ == self@.projects[j].name,
            decreases self.projects@.len() - i,
        {
            r.push(self.projects[i].name.clone());
            i = i + 1;
        }
        r
    }

    /// The name of the active priority set, if one is active.
    pub fn get_active_priority_set(&self) -> (r: Option<&str>)
        ensures
            match r {
                Some(n) => self@.active_priority_set == Some(n@),
                None => self@.active_priority_set is None,
            },
    {
        match &self.active_priority_set {
            Some(n) => Some(n.as_str()),
            None => None,
        }
    }

    /// Makes the priority set of that name the active one. Fails with
    /// `NotFound`, leaving the workspace unchanged, where there is none.
    pub fn activate_priority_set(&mut self, name: &str) -> (r: Result<(), RecicionError>)
        requires
            old(self).wf(),
        ensures
            final(self).wf(),
            r is Err <==> !old(self)@.has_priority_set(name@),
            r is Err ==> fails_with(r, ErrorKind::NotFound),
            final(self)@ == old(self)@.activated(name@),
    {
        let i = match self.priority_set_position(name) {
            Some(i) => i,
            None => {
                return Err(
                    RecicionError::naming(ErrorKind::NotFound, "no priority set ", name, ""),
                );
            },
        };
        self.active_priority_set = Some(name.to_owned());
        proof {
            let v = old(self)@.with_active(name@);
            assert(self@ == v);
            assert(v.priority_sets == old(self)@.priority_sets);
            assert(v.priority_sets[i as int].name == name@);
            assert(forall|i: int|
                0 <= i < v.projects.len() ==> keys_among(#[trigger] v.projects[i].weights, v.criteria));
            assert(forall|i: int|
                0 <= i < v.priority_sets.len() ==> keys_among(
                    #[trigger] v.priority_sets[i].priorities,
                    v.criteria,
                ));
        }
        Ok(())
    }

    /// Sets the project's weight on the criterion. Fails with `NotFound`,
    /// leaving the workspace unchanged, where either name is unknown.
    pub fn set_weight(&mut self, project_name: &str, criterion_name: &str, weight: i32) -> (r:
        Result<(), RecicionError>)
        requires
            old(self).wf(),
        ensures
            final(self).wf(),
            r is Ok <==> old(self)@.has_project(project_name@) && old(self)@.has_criterion(
                criterion_name@,
            ),
            r is Err ==> fails_with(r, ErrorKind::NotFound) && final(self)@ == old(self)@,
            r is Ok ==> final(self)@ == old(self)@.with_weight(
                project_name@,
                criterion_name@,
                weight,
            ),
    {
        let c = match self.criterion_position(criterion_name) {
            Some(c) => c,
            None => {
                return Err(
                    RecicionError::naming(ErrorKind::NotFound, "no criterion ", criterion_name, ""),
                );
            },
        };
        let i = match self.project_position(project_name) {
            Some(i) => i,
            None => {
                return Err(
                    RecicionError::naming(ErrorKind::NotFound, "no project ", project_name, ""),
                );
            },
        };
        proof {
            lemma_project_index(self@, i as int);
        }
        assert(self.projects@[i as int].wf());
        let ghost w0 = self@;
        self.projects[i].weights.insert(criterion_name.to_owned(), weight);
        proof {
            let v = w0.with_weight(project_name@, criterion_name@, weight);
            assert(self@.projects =~= v.projects);
            assert(self@ == v);
            assert(w0.criteria[c as int] == criterion_name@);
            assert forall|j: int| 0 <= j < v.projects.len() implies keys_among(
                #[trigger] v.projects[j].weights,
                v.criteria,
            ) by {
                assert(keys_among(w0.projects[j].weights, w0.criteria));
            }
            assert forall|a: int, b: int| 0 <= a < b < v.projects.len() implies #[trigger] v.projects[a].name
                != #[trigger] v.projects[b].name by {
                assert(v.projects[a].name == w0.projects[a].name);
                assert(v.projects[b].name == w0.projects[b].name);
            }
            assert(v.priority_sets == w0.priority_sets);
            assert(v.active_priority_set matches Some(a) ==> v.has_priority_set(a));
            assert(forall|j: int|
                0 <= j < v.priority_sets.len() ==> keys_among(
                    #[trigger] v.priority_sets[j].priorities,
                    v.criteria,
                ));
            assert forall|j: int| 0 <= j < self.projects@.len() implies #[trigger] self.projects@[j].wf() by {
                if j != i {
                    assert(self.projects@[j] == old(self).projects@[j]);
                }
            }
        }
        Ok(())
    }

    /// The project's weight on the criterion, 0 where none was set. Fails
    /// with `NotFound` where either name is unknown.
    pub fn get_weight(&self, project_name: &str, criterion_name: &str) -> (r: Result<
        i32,
        RecicionError,
    >)
        requires
            self.wf(),
        ensures
            r is Ok <==> self@.has_project(project_name@) && self@.has_criterion(criterion_name@),
            r is Err ==> fails_with(r, ErrorKind::NotFound),
            r matches Ok(w) ==> w == self@.weight_of(project_name@, criterion_name@),
    {
        if self.criterion_position(criterion_name).is_none() {
            return Err(
                RecicionError::naming(ErrorKind::NotFound, "no criterion ", criterion_name, ""),
            );
        }
        let i = match self.project_position(project_name) {
            Some(i) => i,
            None => {
                return Err(
                    RecicionError::naming(ErrorKind::NotFound, "no project ", project_name, ""),
                );
            },
        };
        proof {
            lemma_project_index(self@, i as int);
        }
        assert(self.projects@[i as int].wf());
        match self.projects[i].weights.get(criterion_name) {
            Some(w) => Ok(w),
            None => Ok(0),
        }
    }

    /// Sets the active priority set's priority, in thousandths, for the
    /// criterion. Fails with `NotFound` where the criterion is unknown, else
    /// with `NoActivePrioritySet` where no set is active; the workspace is
    /// then unchanged.
    pub fn set_priority(&mut self, criterion_name: &str, priority: i32) -> (r: Result<
        (),
        RecicionError,
    >)
        requires
            old(self).wf(),
        ensures
            final(self).wf(),
            !old(self)@.has_criterion(criterion_name@) ==> fails_with(r, ErrorKind::NotFound),
            old(self)@.has_criterion(criterion_name@) && old(self)@.active_priority_set is None
                ==> fails_with(r, ErrorKind::NoActivePrioritySet),
            r is Ok <==> old(self)@.has_criterion(criterion_name@)
                && old(self)@.active_priority_set is Some,
            r is Err ==> final(self)@ == old(self)@,
            r is Ok ==> final(self)@ == old(self)@.with_priority(criterion_name@, priority),
    {
        let c = match self.criterion_position(criterion_name) {
            Some(c) => c,
            None => {
                return Err(
                    RecicionError::naming(ErrorKind::NotFound, "no criterion ", criterion_name, ""),
                );
            },
        };
        let i = match &self.active_priority_set {
            Some(active) => match self.priority_set_position(active.as_str()) {
                Some(i) => i,
                None => {
                    return Err(
                        RecicionError::naming(
                            ErrorKind::NotFound,
                            "no priority set ",
                            active.as_str(),
                            "",
                        ),
                    );
                },
            },
            None => {
                return Err(
                    RecicionError::with_kind(
                        ErrorKind::NoActivePrioritySet,
                        String::from_str("no active priority set"),
                    ),
                );
            },
        };
        proof {
            lemma_priority_set_index(self@, i as int);
        }
        assert(self.priority_sets@[i as int].wf());
        let ghost w0 = self@;
        self.priority_sets[i].priorities.insert(criterion_name.to_owned(), priority);
        proof {
            let v = w0.with_priority(criterion_name@, priority);
            assert(self@.priority_sets =~= v.priority_sets);
            assert(self@ == v);
            assert(w0.criteria[c as int] == criterion_name@);
            assert forall|j: int| 0 <= j < v.priority_sets.len() implies keys_among(
                #[trigger] v.priority_sets[j].priorities,
                v.criteria,
            ) by {
                assert(keys_among(w0.priority_sets[j].priorities, w0.criteria));
            }
            assert forall|a: int, b: int| 0 <= a < b < v.priority_sets.len() implies #[trigger] v.priority_sets[a].name
                != #[trigger] v.priority_sets[b].name by {
                assert(v.priority_sets[a].name == w0.priority_sets[a].name);
                assert(v.priority_sets[b].name == w0.priority_sets[b].name);
            }
            assert(v.priority_sets[i as int].name == w0.priority_sets[i as int].name);
            assert(v.active_priority_set matches Some(a) ==> v.has_priority_set(a));
            assert(v.projects == w0.projects);
            assert(forall|j: int|
                0 <= j < v.projects.len() ==> keys_among(#[trigger] v.projects[j].weights, v.criteria));
            assert forall|j: int| 0 <= j < self.priority_sets@.len() implies #[trigger] self.priority_sets@[j].wf() by {
                if j != i {
                    assert(self.priority_sets@[j] == old(self).priority_sets@[j]);
                }
            }
        }
        Ok(())
    }

    /// The score of `project` under `set`, in thousandths.
    fn project_score(&self, project: &Project, set: &PrioritySet) -> (r: i128)
        requires
            project.wf(),
            set.wf(),
        ensures
            r as int == score_over(project@, self@.criteria, set@),
    {
        let mut acc: i128 = 0;
        let mut k: usize = 0;
        while k < self.criteria.len()
            invariant
                project.wf(),
                set.wf(),
                k <= self@.criteria.len(),
                self@.criteria.len() == self.criteria@.len(),
                acc as int == score_over(project@, self@.criteria.take(k as int), set@),
                -(k as int) * contribution_bound() <= acc as int <= (k as int)
                    * contribution_bound(),
            decreases self.criteria@.len() - k,
        {
            let name = self.criteria[k].name.as_str();
            let w: i32 = match project.weights.get(name) {
                Some(w) => w,
                None => 0,
            };
            let p: i32 = match set.priorities.get(name) {
                Some(p) => p,
                None => DEFAULT_PRIORITY,
            };
            proof {
                lemma_product_bound(w, p);
                assert(self@.criteria.take(k + 1).drop_last() =~= self@.criteria.take(k as int));
                assert(self@.criteria.take(k + 1).last() == self@.criteria[k as int]);
                assert(contribution(project@, set@, self@.criteria[k as int]) == (w as int) * (
                p as int));
            }
            acc = acc + (w as i128) * (p as i128);
            k = k + 1;
        }
        assert(self@.criteria.take(k as int) =~= self@.criteria);
        acc
    }

    /// Each project's name and score under the active priority set, in the
    /// order of the projects. A score is counted in thousandths: the sum over
    /// the criteria of the weight (0 where none was set) times the priority
    /// (`DEFAULT_PRIORITY` where none was set). Fails with
    /// `NoActivePrioritySet` where no set is active.
    pub fn calculate_score(&self) -> (r: Result<Vec<(String, i128)>, RecicionError>)
        requires
            self.wf(),
        ensures
            r is Err <==> self@.active_priority_set is None,
            r is Err ==> fails_with(r, ErrorKind::NoActivePrioritySet),
            r matches Ok(scores) ==> {
                &&& scores@.len() == self@.projects.len()
                &&& forall|i: int|
                    0 <= i < scores@.len() ==> (#[trigger] scores@[i]).0@ == self@.projects[i].name
                        && scores@[i].1 as int == self@.score_of(i)
            },
    {
        let s = match &self.active_priority_set {
            Some(active) => match self.priority_set_position(active.as_str()) {
                Some(s) => s,
                None => {
                    return Err(
                        RecicionError::naming(
                            ErrorKind::NoActivePrioritySet,
                            "no priority set ",
                            active.as_str(),
                            "",
                        ),
                    );
                },
            },
            None => {
                return Err(
                    RecicionError::with_kind(
                        ErrorKind::NoActivePrioritySet,
                        String::from_str("no active priority set"),
                    ),
                );
            },
        };
        proof {
            lemma_priority_set_index(self@, s as int);
        }
        let set = &self.priority_sets[s];
        assert(set.wf());
        let mut scores: Vec<(String, i128)> = Vec::new();
        let mut i: usize = 0;
        while i < self.projects.len()
            invariant
                self.wf(),
                set@ == self@.active_set(),
                set.wf(),
                i <= self.projects@.len(),
                scores@.len() == i,
                forall|j: int|
                    0 <= j < i ==> (#[trigger] scores@[j]).0@ == self@.projects[j].name
                        && scores@[j].1 as int == self@.score_of(j),
            decreases self.projects@.len() - i,
        {
            assert(self.projects@[i as int].wf());
            let score = self.project_score(&self.projects[i], set);
            scores.push((self.projects[i].name.clone(), score));
            i = i + 1;
        }
        Ok(scores)
    }

    /// The projects, in order.
    pub fn projects(&self) -> (r: &Vec<Project>)
        ensures
            r@.len() == self@.projects.len(),
            forall|i: int| 0 <= i < r@.len() ==> (#[trigger] r@[i])@ == self@.projects[i],
            self.wf() ==> forall|i: int| 0 <= i < r@.len() ==> (#[trigger] r@[i]).wf(),
    {
        &self.projects
    }

    /// The criteria, in order.
    pub fn criteria(&self) -> (r: &Vec<Criterion>)
        ensures
            r@.len() == self@.criteria.len(),
            forall|i: int| 0 <= i < r@.len() ==> (#[trigger] r@[i])@ == self@.criteria[i],
    {
        &self.criteria
    }

    /// The priority sets, in order.
    pub fn priority_sets(&self) -> (r: &Vec<PrioritySet>)
        ensures
            r@.len() == self@.priority_sets.len(),
            forall|i: int| 0 <= i < r@.len() ==> (#[trigger] r@[i])@ == self@.priority_sets[i],
            self.wf() ==> forall|i: int| 0 <= i < r@.len() ==> (#[trigger] r@[i]).wf(),
    {
        &self.priority_sets
    }

    /// Appends `set`. Fails with `DuplicateName` where a priority set of that
    /// name exists, and with `NotFound` where the set has a priority for an
    /// unknown criterion; the workspace is then unchanged.
    pub(crate) fn add_filled_priority_set(&mut self, set: PrioritySet) -> (r: Result<
        (),
        RecicionError,
    >)
        requires
            old(self).wf(),
            set.wf(),
        ensures
            final(self).wf(),
            r is Ok <==> !old(self)@.has_priority_set(set@.name) && keys_among(
                set@.priorities,
                old(self)@.criteria,
            ),
            r is Ok ==> final(self)@ == (WorkspaceView {
                priority_sets: old(self)@.priority_sets.push(set@),
                ..old(self)@
            }),
            r is Err ==> final(self)@ == old(self)@,
    {
        if self.priority_set_position(set.name.as_str()).is_some() {
            return Err(
                RecicionError::naming(
                    ErrorKind::DuplicateName,
                    "priority set ",
                    set.name.as_str(),
                    " already exists",
                ),
            );
        }
        if !self.keys_known(&set.priorities) {
            return Err(
                RecicionError::naming(
                    ErrorKind::NotFound,
                    "priority set ",
                    set.name.as_str(),
                    " has a priority for an unknown criterion",
                ),
            );
        }
        let ghost v = set@;
        let ghost w = old(self)@;
        self.priority_sets.push(set);
        proof {
            let u = WorkspaceView { priority_sets: w.priority_sets.push(v), ..w };
            assert(self@.priority_sets =~= u.priority_sets);
            assert(self@ == u);
            assert forall|i: int| 0 <= i < u.priority_sets.len() implies keys_among(
                #[trigger] u.priority_sets[i].priorities,
                u.criteria,
            ) by {
                if i < w.priority_sets.len() {
                    assert(u.priority_sets[i] == w.priority_sets[i]);
                }
            }
            assert forall|i: int, j: int| 0 <= i < j < u.priority_sets.len() implies #[trigger] u.priority_sets[i].name
                != #[trigger] u.priority_sets[j].name by {
                assert(u.priority_sets[i] == w.priority_sets[i]);
                if j < w.priority_sets.len() {
                    assert(u.priority_sets[j] == w.priority_sets[j]);
                } else {
                    assert(u.priority_sets[j] == v);
                }
            }
            if let Some(a) = u.active_priority_set {
                let i = choose|i: int| 0 <= i < w.priority_sets.len() && #[trigger] w.priority_sets[i].name == a;
                assert(u.priority_sets[i] == w.priority_sets[i]);
            }
            assert(u.projects == w.projects);
            assert(forall|i: int|
                0 <= i < u.projects.len() ==> keys_among(#[trigger] u.projects[i].weights, u.criteria));
            assert forall|i: int| 0 <= i < self.priority_sets@.len() implies #[trigger] self.priority_sets@[i].wf() by {
                if i < old(self).priority_sets@.len() {
                    assert(self.priority_sets@[i] == old(self).priority_sets@[i]);
                }
            }
        }
        Ok(())
    }

    /// Removes the project of that name. Fails with `NotFound`, leaving the
    /// workspace unchanged, where there is none.
    pub fn remove_project(&mut self, name: &str) -> (r: Result<(), RecicionError>)
        requires
            old(self).wf(),
        ensures
            final(self).wf(),
            r is Err <==> !old(self)@.has_project(name@),
            r is Err ==> fails_with(r, ErrorKind::NotFound) && final(self)@ == old(self)@,
            r is Ok ==> final(self)@ == old(self)@.without_project(name@),
    {
        let i = match self.project_position(name) {
            Some(i) => i,
            None => {
                return Err(RecicionError::naming(ErrorKind::NotFound, "no project ", name, ""));
            },
        };
        proof {
            lemma_project_index(self@, i as int);
            lemma_without_project(self@, i as int);
        }
        self.projects.remove(i);
        proof {
            let v = old(self)@.without_project(name@);
            assert(self@.projects =~= v.projects);
            assert(self@ == v);
            assert forall|j: int| 0 <= j < self.projects@.len() implies #[trigger] self.projects@[j].wf() by {
                let j2 = if j < i { j } else { j + 1 };
                assert(self.projects@[j] == old(self).projects@[j2]);
            }
        }
        Ok(())
    }

    /// Removes the priority set of that name; where it was the active one, no
    /// set is active afterwards. Fails with `NotFound`, leaving the workspace
    /// unchanged, where there is none.
    pub fn remove_priority_set(&mut self, name: &str) -> (r: Result<(), RecicionError>)
        requires
            old(self).wf(),
        ensures
            final(self).wf(),
            r is Err <==> !old(self)@.has_priority_set(name@),
            r is Err ==> fails_with(r, ErrorKind::NotFound) && final(self)@ == old(self)@,
            r is Ok ==> final(self)@ == old(self)@.without_priority_set(name@),
    {
        let i = match self.priority_set_position(name) {
            Some(i) => i,
            None => {
                return Err(
                    RecicionError::naming(ErrorKind::NotFound, "no priority set ", name, ""),
                );
            },
        };
        proof {
            lemma_priority_set_index(self@, i as int);
            lemma_without_priority_set(self@, i as int);
        }
        self.priority_sets.remove(i);
        let was_active = match &self.active_priority_set {
            Some(a) => {
                let target = name.to_owned();
                *a == target
            },
            None => false,
        };
        if was_active {
            self.active_priority_set = None;
        }
        proof {
            let v = old(self)@.without_priority_set(name@);
            assert(self@.priority_sets =~= v.priority_sets);
            assert(self@ == v);
            assert forall|j: int| 0 <= j < self.priority_sets@.len() implies #[trigger] self.priority_sets@[j].wf() by {
                let j2 = if j < i { j } else { j + 1 };
                assert(self.priority_sets@[j] == old(self).priority_sets@[j2]);
            }
        }
        Ok(())
    }

    /// Removes the criterion of that name together with every project's
    /// weight and every priority set's priority for it. Fails with
    /// `NotFound`, leaving the workspace unchanged, where there is none.
    pub fn remove_criterion(&mut self, name: &str) -> (r: Result<(), RecicionError>)
        requires
            old(self).wf(),
        ensures
            final(self).wf(),
            r is Err <==> !old(self)@.has_criterion(name@),
            r is Err ==> fails_with(r, ErrorKind::NotFound) && final(self)@ == old(self)@,
            r is Ok ==> final(self)@ == old(self)@.without_criterion(name@),
    {
        let c = match self.criterion_position(name) {
            Some(c) => c,
            None => {
                return Err(RecicionError::naming(ErrorKind::NotFound, "no criterion ", name, ""));
            },
        };
        proof {
            lemma_without_criterion(self@, c as int);
        }
        let ghost v = old(self)@.without_criterion(name@);
        self.criteria.remove(c);
        let mut i: usize = 0;
        while i < self.projects.len()
            invariant
                v == old(self)@.without_criterion(name@),
                v.well_formed(),
                self.projects@.len() == old(self).projects@.len(),
                i <= self.projects@.len(),
                forall|j: int| 0 <= j < self.projects@.len() ==> (#[trigger] self.projects@[j]).wf(),
                forall|j: int| 0 <= j < i ==> (#[trigger] self.projects@[j])@ == v.projects[j],
                forall|j: int| i <= j < self.projects@.len() ==> #[trigger] self.projects@[j] == old(self).projects@[j],
                self@.criteria == v.criteria,
                self.priority_sets == old(self).priority_sets,
                self.active_priority_set == old(self).active_priority_set,
            decreases self.projects@.len() - i,
        {
            assert(self.projects@[i as int].wf());
            let ghost before = self.projects@;
            self.projects[i].weights.remove(name);
            proof {
                assert forall|j: int| 0 <= j < self.projects@.len() implies (#[trigger] self.projects@[j]).wf() by {
                    if j != i {
                        assert(self.projects@[j] == before[j]);
                    }
                }
                assert forall|j: int| 0 <= j < i + 1 implies (#[trigger] self.projects@[j])@ == v.projects[j] by {
                    if j != i {
                        assert(self.projects@[j] == before[j]);
                    }
                }
                assert forall|j: int| i + 1 <= j < self.projects@.len() implies #[trigger] self.projects@[j] == old(self).projects@[j] by {
                    assert(self.projects@[j] == before[j]);
                }
            }
            i = i + 1;
        }
        let mut s: usize = 0;
        while s < self.priority_sets.len()
            invariant
                v == old(self)@.without_criterion(name@),
                v.well_formed(),
                self.priority_sets@.len() == old(self).priority_sets@.len(),
                s <= self.priority_sets@.len(),
                forall|j: int| 0 <= j < self.priority_sets@.len() ==> (#[trigger] self.priority_sets@[j]).wf(),
                forall|j: int| 0 <= j < s ==> (#[trigger] self.priority_sets@[j])@ == v.priority_sets[j],
                forall|j: int| s <= j < self.priority_sets@.len() ==> #[trigger] self.priority_sets@[j] == old(self).priority_sets@[j],
                self@.criteria == v.criteria,
                self@.projects == v.projects,
                forall|j: int| 0 <= j < self.projects@.len() ==> (#[trigger] self.projects@[j]).wf(),
                self.active_priority_set == old(self).active_priority_set,
            decreases self.priority_sets@.len() - s,
        {
            assert(self.priority_sets@[s as int].wf());
            let ghost before = self.priority_sets@;
            self.priority_sets[s].priorities.remove(name);
            proof {
                assert forall|j: int| 0 <= j < self.priority_sets@.len() implies (#[trigger] self.priority_sets@[j]).wf() by {
                    if j != s {
                        assert(self.priority_sets@[j] == before[j]);
                    }
                }
                assert forall|j: int| 0 <= j < s + 1 implies (#[trigger] self.priority_sets@[j])@ == v.priority_sets[j] by {
                    if j != s {
                        assert(self.priority_sets@[j] == before[j]);
                    }
                }
                assert forall|j: int| s + 1 <= j < self.priority_sets@.len() implies #[trigger] self.priority_sets@[j] == old(self).priority_sets@[j] by {
                    assert(self.priority_sets@[j] == before[j]);
                }
            }
            s = s + 1;
        }
        proof {
            assert(self@.projects =~= v.projects);
            assert(self@.priority_sets =~= v.priority_sets);
            assert(self@ == v);
        }
        Ok(())
    }
}

} // verus!