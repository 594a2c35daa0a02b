//! The mathematical model of a workspace, the rules every workspace keeps,
//! and the facts about how each change keeps them.
use vstd::prelude::*;

verus! {

/// What a project is: its name and its weight for each criterion that has one.
pub struct ProjectView {
    pub name: Seq<char>,
    pub weights: Map<Seq<char>, i32>,
}

/// What a priority set is: its name and its priority, in thousandths, for each
/// criterion that has one.
pub struct PrioritySetView {
    pub name: Seq<char>,
    pub priorities: Map<Seq<char>, i32>,
}

/// What a workspace is.
pub struct WorkspaceView {
    pub projects: Seq<ProjectView>,
    pub criteria: Seq<Seq<char>>,
    pub priority_sets: Seq<PrioritySetView>,
    pub active_priority_set: Option<Seq<char>>,
}

/// Every key of `m` is one of `names`.
pub open spec fn keys_among(m: Map<Seq<char>, i32>, names: Seq<Seq<char>>) -> bool {
    forall|k: Seq<char>| #[trigger] m.contains_key(k) ==> names.contains(k)
}

impl WorkspaceView {
    pub open spec fn has_project(self, name: Seq<char>) -> bool {
        exists|i: int| 0 <= i < self.projects.len() && #[trigger] self.projects[i].name == name
    }

    pub open spec fn has_criterion(self, name: Seq<char>) -> bool {
        self.criteria.contains(name)
    }

    pub open spec fn has_priority_set(self, name: Seq<char>) -> bool {
        exists|i: int|
            0 <= i < self.priority_sets.len() && #[trigger] self.priority_sets[i].name == name
    }

    /// The position of the project of that name.
    pub open spec fn project_index(self, name: Seq<char>) -> int {
        choose|i: int| 0 <= i < self.projects.len() && #[trigger] self.projects[i].name == name
    }

    /// The position of the priority set of that name.
    pub open spec fn priority_set_index(self, name: Seq<char>) -> int {
        choose|i: int|
            0 <= i < self.priority_sets.len() && #[trigger] self.priority_sets[i].name == name
    }

    /// The rules that every workspace keeps: names are unique within each
    /// collection, projects and criteria have non-empty names, the active
    /// priority set exists, and every weight and priority belongs to an
    /// existing criterion.
    pub open spec fn well_formed(self) -> bool {
        &&& forall|i: int| 0 <= i < self.projects.len() ==> (#[trigger] self.projects[i]).name.len() > 0
        &&& forall|i: int| 0 <= i < self.criteria.len() ==> (#[trigger] self.criteria[i]).len() > 0
        &&& forall|i: int, j: int|
            0 <= i < j < self.projects.len() ==> #[trigger] self.projects[i].name
                != #[trigger] self.projects[j].name
        &&& forall|i: int, j: int|
            0 <= i < j < self.criteria.len() ==> #[trigger] self.criteria[i]
                != #[trigger] self.criteria[j]
        &&& forall|i: int, j: int|
            0 <= i < j < self.priority_sets.len() ==> #[trigger] self.priority_sets[i].name
                != #[trigger] self.priority_sets[j].name
        &&& self.active_priority_set matches Some(a) ==> self.has_priority_set(a)
        &&& forall|i: int|
            0 <= i < self.projects.len() ==> keys_among(
                #[trigger] self.projects[i].weights,
                self.criteria,
            )
        &&& forall|i: int|
            0 <= i < self.priority_sets.len() ==> keys_among(
                #[trigger] self.priority_sets[i].priorities,
                self.criteria,
            )
    }

    /// The workspace with `p` appended to its projects.
    pub open spec fn with_project(self, p: ProjectView) -> WorkspaceView {
        WorkspaceView { projects: self.projects.push(p), ..self }
    }

    /// The workspace with a criterion of that name appended.
    pub open spec fn with_criterion(self, name: Seq<char>) -> WorkspaceView {
        WorkspaceView { criteria: self.criteria.push(name), ..self }
    }

    /// The project's weight on the criterion; 0 where it has none.
    pub open spec fn weight_of(self, project: Seq<char>, criterion: Seq<char>) -> i32 {
        let p = self.projects[self.project_index(project)];
        if p.weights.contains_key(criterion) {
            p.weights[criterion]
        } else {
            0
        }
    }

    /// The workspace with the project's weight on the criterion set to `w`.
    pub open spec fn with_weight(self, project: Seq<char>, criterion: Seq<char>, w: i32) -> WorkspaceView {
        let i = self.project_index(project);
        WorkspaceView {
            projects: self.projects.update(
                i,
                ProjectView {
                    name: self.projects[i].name,
                    weights: self.projects[i].weights.insert(criterion, w),
                },
            ),
            ..self
        }
    }

    /// The workspace with the active priority set's priority for the
    /// criterion set to `value`.
    pub open spec fn with_priority(self, criterion: Seq<char>, value: i32) -> WorkspaceView {
        let i = self.priority_set_index(self.active_priority_set->0);
        WorkspaceView {
            priority_sets: self.priority_sets.update(
                i,
                PrioritySetView {
                    name: self.priority_sets[i].name,
                    priorities: self.priority_sets[i].priorities.insert(criterion, value),
                },
            ),
            ..self
        }
    }

    /// The workspace with the priority set of that name active.
    pub open spec fn with_active(self, name: Seq<char>) -> WorkspaceView {
        WorkspaceView { active_priority_set: Some(name), ..self }
    }

    /// The position of the criterion of that name.
    pub open spec fn criterion_index(self, name: Seq<char>) -> int {
        choose|i: int| 0 <= i < self.criteria.len() && self.criteria[i] == name
    }

    /// The workspace without the project of that name.
    pub open spec fn without_project(self, name: Seq<char>) -> WorkspaceView {
        WorkspaceView { projects: self.projects.remove(self.project_index(name)), ..self }
    }

    /// The workspace without the priority set of that name; no set is active
    /// where that one was.
    pub open spec fn without_priority_set(self, name: Seq<char>) -> WorkspaceView {
        WorkspaceView {
            priority_sets: self.priority_sets.remove(self.priority_set_index(name)),
            active_priority_set: if self.active_priority_set == Some(name) {
                None
            } else {
                self.active_priority_set
            },
            ..self
        }
    }

    /// The workspace without the criterion of that name, and without every
    /// weight and priority for it.
    pub open spec fn without_criterion(self, name: Seq<char>) -> WorkspaceView {
        WorkspaceView {
            projects: self.projects.map_values(
                |p: ProjectView| ProjectView { name: p.name, weights: p.weights.remove(name) },
            ),
            criteria: self.criteria.remove(self.criterion_index(name)),
            priority_sets: self.priority_sets.map_values(
                |s: PrioritySetView|
                    PrioritySetView { name: s.name, priorities: s.priorities.remove(name) },
            ),
            active_priority_set: self.active_priority_set,
        }
    }

    /// The workspace after activating the priority set of that name: the set
    /// is active where it exists, and nothing changes where it does not.
    pub open spec fn activated(self, name: Seq<char>) -> WorkspaceView {
        if self.has_priority_set(name) {
            self.with_active(name)
        } else {
            self
        }
    }

    /// The workspace with an empty priority set of that name appended.
    pub open spec fn with_priority_set(self, name: Seq<char>) -> WorkspaceView {
        WorkspaceView {
            priority_sets: self.priority_sets.push(
                PrioritySetView { name, priorities: Map::empty() },
            ),
            ..self
        }
    }
}

/// Appending a project of a new, non-empty name, weighed on known criteria only, keeps a
/// workspace well formed.
pub(crate) proof fn lemma_with_project(w: WorkspaceView, p: ProjectView)
    requires
        w.well_formed(),
        p.name.len() > 0,
        !w.has_project(p.name),
        keys_among(p.weights, w.criteria),
    ensures
        w.with_project(p).well_formed(),
{
    let v = w.with_project(p);
    assert forall|i: int| 0 <= i < v.projects.len() implies keys_among(
        #[trigger] v.projects[i].weights,
        v.criteria,
    ) by {
        if i < w.projects.len() {
            assert(v.projects[i] == w.projects[i]);
        }
    }
    assert forall|i: int, j: int| 0 <= i < j < v.projects.len() implies #[trigger] v.projects[i].name
        != #[trigger] v.projects[j].name by {
        assert(v.projects[i] == w.projects[i]);
        if j < w.projects.len() {
            assert(v.projects[j] == w.projects[j]);
        } else {
            assert(v.projects[j] == p);
        }
    }
    assert(v.criteria == w.criteria);
    assert(v.priority_sets == w.priority_sets);
    assert(v.active_priority_set == w.active_priority_set);
    assert(v.active_priority_set matches Some(a) ==> v.has_priority_set(a));
    assert(forall|i: int|
            0 <= i < v.priority_sets.len() ==> keys_among(
                #[trigger] v.priority_sets[i].priorities,
                v.criteria,
            ));
}

/// In a well-formed workspace a project's name leads back to its position.
pub proof fn lemma_project_index(w: WorkspaceView, i: int)
    requires
        w.well_formed(),
        0 <= i < w.projects.len(),
    ensures
        w.has_project(w.projects[i].name),
        w.project_index(w.projects[i].name) == i,
{
    assert(w.has_project(w.projects[i].name));
    let j = w.project_index(w.projects[i].name);
    if j < i {
        assert(w.projects[j].name != w.projects[i].name);
    } else if i < j {
        assert(w.projects[i].name != w.projects[j].name);
    }
}

/// In a well-formed workspace a priority set's name leads back to its position.
pub proof fn lemma_priority_set_index(w: WorkspaceView, i: int)
    requires
        w.well_formed(),
        0 <= i < w.priority_sets.len(),
    ensures
        w.has_priority_set(w.priority_sets[i].name),
        w.priority_set_index(w.priority_sets[i].name) == i,
{
    assert(w.has_priority_set(w.priority_sets[i].name));
    let j = w.priority_set_index(w.priority_sets[i].name);
    if j < i {
        assert(w.priority_sets[j].name != w.priority_sets[i].name);
    } else if i < j {
        assert(w.priority_sets[i].name != w.priority_sets[j].name);
    }
}

/// Appending a criterion of a new, non-empty name keeps a workspace well formed.
pub(crate) proof fn lemma_with_criterion(w: WorkspaceView, name: Seq<char>)
    requires
        w.well_formed(),
        name.len() > 0,
        !w.has_criterion(name),
    ensures
        w.with_criterion(name).well_formed(),
{
    let v = w.with_criterion(name);
    assert forall|k: Seq<char>| #[trigger] w.criteria.contains(k) implies v.criteria.contains(k) by {
        let i = choose|i: int| 0 <= i < w.criteria.len() && w.criteria[i] == k;
        assert(v.criteria[i] == k);
    }
    assert forall|i: int, j: int| 0 <= i < j < v.criteria.len() implies #[trigger] v.criteria[i]
        != #[trigger] v.criteria[j] by {
        assert(v.criteria[i] == w.criteria[i]);
        if j < w.criteria.len() {
            assert(v.criteria[j] == w.criteria[j]);
        } else {
            assert(w.criteria.contains(w.criteria[i]));
        }
    }
    assert forall|i: int| 0 <= i < v.projects.len() implies keys_among(
        #[trigger] v.projects[i].weights,
        v.criteria,
    ) by {
        assert(keys_among(w.projects[i].weights, w.criteria));
    }
    assert forall|i: int| 0 <= i < v.priority_sets.len() implies keys_among(
        #[trigger] v.priority_sets[i].priorities,
        v.criteria,
    ) by {
        assert(keys_among(w.priority_sets[i].priorities, w.criteria));
    }
    assert(v.priority_sets == w.priority_sets);
    assert(v.active_priority_set == w.active_priority_set);
    assert(v.active_priority_set matches Some(a) ==> v.has_priority_set(a));
}

/// Appending an empty priority set of a new name keeps a workspace well formed.
pub(crate) proof fn lemma_with_priority_set(w: WorkspaceView, name: Seq<char>)
    requires
        w.well_formed(),
        !w.has_priority_set(name),
    ensures
        w.with_priority_set(name).well_formed(),
{
    let v = w.with_priority_set(name);
    assert forall|i: int| 0 <= i < v.priority_sets.len() implies keys_among(
        #[trigger] v.priority_sets[i].priorities,
        v.criteria,
    ) by {
        if i < w.priority_sets.len() {
            assert(v.priority_sets[i] == w.priority_sets[i]);
        }
    }
    assert forall|i: int, j: int| 0 <= i < j < v.priority_sets.len() implies #[trigger] v.priority_sets[i].name
        != #[trigger] v.priority_sets[j].name by {
        assert(v.priority_sets[i] == w.priority_sets[i]);
        if j < w.priority_sets.len() {
            assert(v.priority_sets[j] == w.priority_sets[j]);
        }
    }
    if let Some(a) = v.active_priority_set {
        let i = choose|i: int| 0 <= i < w.priority_sets.len() && #[trigger] w.priority_sets[i].name == a;
        assert(v.priority_sets[i] == w.priority_sets[i]);
    }
    assert(forall|i: int|
        0 <= i < v.projects.len() ==> keys_among(#[trigger] v.projects[i].weights, v.criteria));
}

/// Removing a project keeps a workspace well formed.
pub(crate) proof fn lemma_without_project(w: WorkspaceView, i: int)
    requires
        w.well_formed(),
        0 <= i < w.projects.len(),
    ensures
        (WorkspaceView { projects: w.projects.remove(i), ..w }).well_formed(),
{
    let v = WorkspaceView { projects: w.projects.remove(i), ..w };
    assert forall|a: int| 0 <= a < v.projects.len() implies keys_among(
        #[trigger] v.projects[a].weights,
        v.criteria,
    ) by {
        let a2 = if a < i { a } else { a + 1 };
        assert(v.projects[a] == w.projects[a2]);
    }
    assert forall|a: int, b: int| 0 <= a < b < v.projects.len() implies #[trigger] v.projects[a].name
        != #[trigger] v.projects[b].name by {
        let a2 = if a < i { a } else { a + 1 };
        let b2 = if b < i { b } else { b + 1 };
        assert(v.projects[a] == w.projects[a2]);
        assert(v.projects[b] == w.projects[b2]);
    }
    assert(v.priority_sets == w.priority_sets);
    assert(v.active_priority_set matches Some(a) ==> v.has_priority_set(a));
    assert(forall|a: int|
        0 <= a < v.priority_sets.len() ==> keys_among(
            #[trigger] v.priority_sets[a].priorities,
            v.criteria,
        ));
}

/// Removing a priority set, and the active mark where it was on that set,
/// keeps a workspace well formed.
pub(crate) proof fn lemma_without_priority_set(w: WorkspaceView, i: int)
    requires
        w.well_formed(),
        0 <= i < w.priority_sets.len(),
    ensures
        (WorkspaceView {
            priority_sets: w.priority_sets.remove(i),
            active_priority_set: if w.active_priority_set == Some(w.priority_sets[i].name) {
                None
            } else {
                w.active_priority_set
            },
            ..w
        }).well_formed(),
{
    let v = WorkspaceView {
        priority_sets: w.priority_sets.remove(i),
        active_priority_set: if w.active_priority_set == Some(w.priority_sets[i].name) {
            None
        } else {
            w.active_priority_set
        },
        ..w
    };
    assert forall|a: int| 0 <= a < v.priority_sets.len() implies keys_among(
        #[trigger] v.priority_sets[a].priorities,
        v.criteria,
    ) by {
        let a2 = if a < i { a } else { a + 1 };
        assert(v.priority_sets[a] == w.priority_sets[a2]);
    }
    assert forall|a: int, b: int| 0 <= a < b < v.priority_sets.len() implies #[trigger] v.priority_sets[a].name
        != #[trigger] v.priority_sets[b].name by {
        let a2 = if a < i { a } else { a + 1 };
        let b2 = if b < i { b } else { b + 1 };
        assert(v.priority_sets[a] == w.priority_sets[a2]);
        assert(v.priority_sets[b] == w.priority_sets[b2]);
    }
    if let Some(n) = v.active_priority_set {
        let j = choose|j: int| 0 <= j < w.priority_sets.len() && #[trigger] w.priority_sets[j].name == n;
        assert(j != i);
        let j2 = if j < i { j } else { j - 1 };
        assert(v.priority_sets[j2] == w.priority_sets[j]);
    }
    assert(v.projects == w.projects);
    assert(forall|a: int|
        0 <= a < v.projects.len() ==> keys_among(#[trigger] v.projects[a].weights, v.criteria));
}

/// Removing a criterion, with every weight and priority for it, keeps a
/// workspace well formed.
pub(crate) proof fn lemma_without_criterion(w: WorkspaceView, c: int)
    requires
        w.well_formed(),
        0 <= c < w.criteria.len(),
    ensures
        w.criterion_index(w.criteria[c]) == c,
        w.without_criterion(w.criteria[c]).well_formed(),
{
    let name = w.criteria[c];
    let k = w.criterion_index(name);
    assert(w.criteria[k] == name);
    if k < c {
        assert(w.criteria[k] != w.criteria[c]);
    } else if c < k {
        assert(w.criteria[c] != w.criteria[k]);
    }
    let v = w.without_criterion(name);
    assert forall|x: Seq<char>| w.criteria.contains(x) && x != name implies #[trigger] v.criteria.contains(x) by {
        let a = choose|a: int| 0 <= a < w.criteria.len() && w.criteria[a] == x;
        assert(a != c);
        let a2 = if a < c { a } else { a - 1 };
        assert(v.criteria[a2] == x);
    }
    assert forall|a: int, b: int| 0 <= a < b < v.criteria.len() implies #[trigger] v.criteria[a]
        != #[trigger] v.criteria[b] by {
        let a2 = if a < c { a } else { a + 1 };
        let b2 = if b < c { b } else { b + 1 };
        assert(v.criteria[a] == w.criteria[a2]);
        assert(v.criteria[b] == w.criteria[b2]);
    }
    assert forall|a: int| 0 <= a < v.projects.len() implies keys_among(
        #[trigger] v.projects[a].weights,
        v.criteria,
    ) by {
        assert(keys_among(w.projects[a].weights, w.criteria));
    }
    assert forall|a: int| 0 <= a < v.priority_sets.len() implies keys_among(
        #[trigger] v.priority_sets[a].priorities,
        v.criteria,
    ) by {
        assert(keys_among(w.priority_sets[a].priorities, w.criteria));
    }
    assert forall|a: int, b: int| 0 <= a < b < v.projects.len() implies #[trigger] v.projects[a].name
        != #[trigger] v.projects[b].name by {
        assert(v.projects[a].name == w.projects[a].name);
        assert(v.projects[b].name == w.projects[b].name);
    }
    assert forall|a: int, b: int| 0 <= a < b < v.priority_sets.len() implies #[trigger] v.priority_sets[a].name
        != #[trigger] v.priority_sets[b].name by {
        assert(v.priority_sets[a].name == w.priority_sets[a].name);
        assert(v.priority_sets[b].name == w.priority_sets[b].name);
    }
    if let Some(n) = v.active_priority_set {
        let j = choose|j: int| 0 <= j < w.priority_sets.len() && #[trigger] w.priority_sets[j].name == n;
        assert(v.priority_sets[j].name == n);
    }
}

} // verus!
