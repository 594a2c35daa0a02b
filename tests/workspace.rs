use recision::{Criterion, ErrorKind, Project, Workspace, WorkspaceParts};

fn thousandths(priority: f64) -> i32 {
    (priority * 1000.0).round() as i32
}

fn score_of(scores: &[(String, i128)], name: &str) -> f64 {
    let (_, score) = scores.iter().find(|(n, _)| n == name).unwrap();
    *score as f64 / 1000.0
}

fn build_test_workspace() -> Workspace {
    let mut workspace = Workspace::new();

    workspace.add_project(Project::new("Project 1")).unwrap();
    workspace.add_project(Project::new("Project 2")).unwrap();
    workspace.add_project(Project::new("Project =")).unwrap();
    workspace.add_project(Project::new("Project [toml]")).unwrap();
    workspace.add_project(Project::new("Project\nNewline")).unwrap();

    workspace.add_criterion(Criterion::new("Fun")).unwrap();
    workspace.add_criterion(Criterion::new("Useful")).unwrap();

    workspace.add_priority_set("Workday").unwrap();
    workspace.add_priority_set("Weekend").unwrap();

    workspace.activate_priority_set("Workday").unwrap();
    workspace.set_priority("Fun", thousandths(1.0)).unwrap();
    workspace.set_priority("Useful", thousandths(2.0)).unwrap();

    workspace.activate_priority_set("Weekend").unwrap();
    workspace.set_priority("Fun", thousandths(2.0)).unwrap();
    workspace.set_priority("Useful", thousandths(1.0)).unwrap();

    workspace
}

#[test]
fn test_building_workpace() {
    let _ = build_test_workspace();
}

#[test]
fn test_set_weight() {
    let mut ws = build_test_workspace();
    ws.set_weight("Project 1", "Fun", 1).unwrap();
}

#[test]
fn test_set_weight_fail_project() {
    let mut ws = build_test_workspace();
    let result = ws.set_weight("Project 11", "Fun", 1);
    assert!(result.is_err());
}

#[test]
fn test_set_weight_fail_criterion() {
    let mut ws = build_test_workspace();
    let result = ws.set_weight("Project 1", "Funn", 1);
    assert!(result.is_err());
}

#[test]
fn test_get_existing_weight() {
    let mut ws = build_test_workspace();
    let weight = 1;
    ws.set_weight("Project 1", "Fun", weight).unwrap();
    assert_eq!(weight, ws.get_weight("Project 1", "Fun").unwrap());
}

#[test]
fn test_get_default_weight() {
    let ws = build_test_workspace();
    assert_eq!(0, ws.get_weight("Project 1", "Fun").unwrap());
}

#[test]
fn test_get_weight_fail_project() {
    let ws = build_test_workspace();
    let result = ws.get_weight("Project 11", "Fun");
    assert!(result.is_err());
}

#[test]
fn test_get_weight_fail_criterion() {
    let ws = build_test_workspace();
    let result = ws.get_weight("Project 1", "Funn");
    assert!(result.is_err());
}

#[test]
fn test_calculate_score() {
    let mut ws = build_test_workspace();

    ws.set_weight("Project 1", "Fun", 1).unwrap();
    ws.set_weight("Project 1", "Useful", -1).unwrap();

    ws.set_weight("Project 2", "Fun", 2).unwrap();

    ws.activate_priority_set("Workday").unwrap();

    let scores = ws.calculate_score().unwrap();

    assert_eq!(score_of(&scores, "Project 1"), -1.0);
    assert_eq!(score_of(&scores, "Project 2"), 2.0);

    ws.activate_priority_set("Weekend").unwrap();

    let scores = ws.calculate_score().unwrap();

    assert_eq!(score_of(&scores, "Project 1"), 1.0);
    assert_eq!(score_of(&scores, "Project 2"), 4.0);
}

#[test]
fn scores_come_in_project_order_in_thousandths() {
    let mut ws = build_test_workspace();
    ws.set_weight("Project 1", "Fun", 3).unwrap();
    ws.set_weight("Project 1", "Useful", 5).unwrap();
    ws.activate_priority_set("Workday").unwrap();
    let scores = ws.calculate_score().unwrap();
    let names: Vec<&str> = scores.iter().map(|(n, _)| n.as_str()).collect();
    assert_eq!(
        names,
        vec!["Project 1", "Project 2", "Project =", "Project [toml]", "Project\nNewline"]
    );
    assert_eq!(scores[0].1, 3 * 1000 + 5 * 2000);
    assert_eq!(scores[1].1, 0);
}

#[test]
fn weight_overwrites_earlier_weight() {
    let mut ws = build_test_workspace();
    ws.set_weight("Project 2", "Useful", 7).unwrap();
    ws.set_weight("Project 2", "Useful", -4).unwrap();
    assert_eq!(ws.get_weight("Project 2", "Useful").unwrap(), -4);
    assert_eq!(ws.get_weight("Project 2", "Fun").unwrap(), 0);
    assert_eq!(ws.get_weight("Project 1", "Useful").unwrap(), 0);
}

#[test]
fn criterion_without_priority_counts_once() {
    let mut ws = build_test_workspace();
    ws.add_criterion(Criterion::new("Cheap")).unwrap();
    ws.set_weight("Project 1", "Cheap", 4).unwrap();
    ws.set_weight("Project 1", "Fun", 1).unwrap();
    ws.activate_priority_set("Weekend").unwrap();
    let scores = ws.calculate_score().unwrap();
    assert_eq!(score_of(&scores, "Project 1"), 4.0 + 2.0);
}

#[test]
fn empty_priority_set_scores_plain_weight_sum() {
    let mut ws = build_test_workspace();
    ws.add_priority_set("Neutral").unwrap();
    ws.set_weight("Project 1", "Fun", 2).unwrap();
    ws.set_weight("Project 1", "Useful", -5).unwrap();
    ws.activate_priority_set("Neutral").unwrap();
    let scores = ws.calculate_score().unwrap();
    assert_eq!(score_of(&scores, "Project 1"), -3.0);
}

#[test]
fn fractional_priorities_score_exactly() {
    let mut ws = build_test_workspace();
    ws.add_priority_set("Evening").unwrap();
    ws.activate_priority_set("Evening").unwrap();
    ws.set_priority("Fun", thousandths(0.5)).unwrap();
    ws.set_priority("Useful", thousandths(-1.25)).unwrap();
    ws.set_weight("Project 2", "Fun", 3).unwrap();
    ws.set_weight("Project 2", "Useful", 2).unwrap();
    let scores = ws.calculate_score().unwrap();
    assert_eq!(scores[1].1, 1500 - 2500);
    assert_eq!(score_of(&scores, "Project 2"), -1.0);
}

#[test]
fn extreme_weights_do_not_overflow() {
    let mut ws = build_test_workspace();
    ws.add_priority_set("Extreme").unwrap();
    ws.activate_priority_set("Extreme").unwrap();
    ws.set_priority("Fun", i32::MIN).unwrap();
    ws.set_priority("Useful", i32::MIN).unwrap();
    ws.set_weight("Project 1", "Fun", i32::MIN).unwrap();
    ws.set_weight("Project 1", "Useful", i32::MIN).unwrap();
    let scores = ws.calculate_score().unwrap();
    assert_eq!(scores[0].1, 2 * (i32::MIN as i128) * (i32::MIN as i128));
}

#[test]
fn score_needs_active_priority_set() {
    let mut ws = Workspace::new();
    ws.add_project(Project::new("A")).unwrap();
    let e = ws.calculate_score().unwrap_err();
    assert_eq!(e.kind, ErrorKind::NoActivePrioritySet);
}

#[test]
fn set_priority_needs_active_priority_set() {
    let mut ws = Workspace::new();
    ws.add_criterion(Criterion::new("Fun")).unwrap();
    ws.add_priority_set("Workday").unwrap();
    let e = ws.set_priority("Fun", 1000).unwrap_err();
    assert_eq!(e.kind, ErrorKind::NoActivePrioritySet);
    let e = ws.set_priority("Funn", 1000).unwrap_err();
    assert_eq!(e.kind, ErrorKind::NotFound);
}

#[test]
fn set_priority_changes_only_the_active_set() {
    let ws = build_test_workspace();
    let workday = ws.get_priority_set("Workday").unwrap();
    assert_eq!(workday.get_priority("Fun"), Some(1000));
    assert_eq!(workday.get_priority("Useful"), Some(2000));
    let weekend = ws.get_priority_set("Weekend").unwrap();
    assert_eq!(weekend.get_priority("Fun"), Some(2000));
    assert_eq!(weekend.get_priority("Useful"), Some(1000));
}

#[test]
fn unknown_names_are_not_found() {
    let mut ws = build_test_workspace();
    assert_eq!(ws.set_weight("Project 11", "Fun", 1).unwrap_err().kind, ErrorKind::NotFound);
    assert_eq!(ws.set_weight("Project 1", "Funn", 1).unwrap_err().kind, ErrorKind::NotFound);
    assert_eq!(ws.get_weight("Project 11", "Fun").unwrap_err().kind, ErrorKind::NotFound);
    assert_eq!(ws.get_weight("Project 1", "Funn").unwrap_err().kind, ErrorKind::NotFound);
    assert_eq!(ws.activate_priority_set("Holiday").unwrap_err().kind, ErrorKind::NotFound);
    assert!(ws.get_project("project 1").is_none());
    assert!(ws.get_project("Project 1 ").is_none());
    assert!(ws.get_criterion("fun").is_none());
}

#[test]
fn duplicate_project_is_refused() {
    let mut ws = build_test_workspace();
    let before = ws.get_project_names();
    let e = ws.add_project(Project::new("Project 2")).unwrap_err();
    assert_eq!(e.kind, ErrorKind::DuplicateName);
    assert_eq!(e.message, "project Project 2 already exists");
    assert_eq!(ws.get_project_names(), before);
}

#[test]
fn duplicate_criterion_is_refused() {
    let mut ws = build_test_workspace();
    let e = ws.add_criterion(Criterion::new("Fun")).unwrap_err();
    assert_eq!(e.kind, ErrorKind::DuplicateName);
    let names: Vec<&str> = ws.criteria().iter().map(|c| c.get_name()).collect();
    assert_eq!(names, vec!["Fun", "Useful"]);
}

#[test]
fn duplicate_priority_set_is_refused() {
    let mut ws = build_test_workspace();
    let e = ws.add_priority_set("Weekend").unwrap_err();
    assert_eq!(e.kind, ErrorKind::DuplicateName);
    assert_eq!(ws.priority_sets().len(), 2);
    assert_eq!(ws.get_priority_set("Weekend").unwrap().get_priority("Fun"), Some(2000));
}

#[test]
fn projects_keep_insertion_order() {
    let ws = build_test_workspace();
    assert_eq!(
        ws.get_project_names(),
        vec!["Project 1", "Project 2", "Project =", "Project [toml]", "Project\nNewline"]
    );
    assert_eq!(ws.get_project("Project =").unwrap().get_name(), "Project =");
}

#[test]
fn activating_twice_is_activating_once() {
    let mut once = build_test_workspace();
    once.activate_priority_set("Workday").unwrap();
    let mut twice = build_test_workspace();
    twice.activate_priority_set("Workday").unwrap();
    twice.activate_priority_set("Workday").unwrap();
    assert_eq!(once.get_active_priority_set(), Some("Workday"));
    assert_eq!(twice.get_active_priority_set(), Some("Workday"));
    assert_eq!(once.calculate_score().unwrap(), twice.calculate_score().unwrap());
}

#[test]
fn parts_round_trip_keeps_workspace() {
    let mut ws = build_test_workspace();
    ws.set_weight("Project [toml]", "Fun", 9).unwrap();
    ws.set_weight("Project\nNewline", "Useful", -2).unwrap();
    let parts = ws.to_parts();
    let rebuilt = Workspace::from_parts(parts).unwrap();
    assert_eq!(rebuilt.get_project_names(), ws.get_project_names());
    assert_eq!(rebuilt.get_active_priority_set(), Some("Weekend"));
    assert_eq!(rebuilt.get_weight("Project [toml]", "Fun").unwrap(), 9);
    assert_eq!(rebuilt.get_weight("Project\nNewline", "Useful").unwrap(), -2);
    assert_eq!(rebuilt.calculate_score().unwrap(), ws.calculate_score().unwrap());
    let again = rebuilt.to_parts();
    assert_eq!(again.criteria, vec!["Fun".to_string(), "Useful".to_string()]);
    assert_eq!(again.priority_sets[0].1, vec![("Fun".to_string(), 1000), ("Useful".to_string(), 2000)]);
}

fn sample_parts() -> WorkspaceParts {
    WorkspaceParts {
        projects: vec![("A".to_string(), vec![("x".to_string(), 1)])],
        criteria: vec!["x".to_string(), "y".to_string()],
        priority_sets: vec![("S".to_string(), vec![("y".to_string(), 500)])],
        active_priority_set: Some("S".to_string()),
    }
}

#[test]
fn valid_parts_are_accepted() {
    let ws = Workspace::from_parts(sample_parts()).unwrap();
    let scores = ws.calculate_score().unwrap();
    assert_eq!(scores, vec![("A".to_string(), 1000)]);
}

#[test]
fn parts_breaking_a_rule_are_refused() {
    let mut p = sample_parts();
    p.projects.push(("A".to_string(), vec![]));
    assert_eq!(Workspace::from_parts(p).unwrap_err().kind, ErrorKind::InvalidContents);

    let mut p = sample_parts();
    p.criteria.push("x".to_string());
    assert_eq!(Workspace::from_parts(p).unwrap_err().kind, ErrorKind::InvalidContents);

    let mut p = sample_parts();
    p.priority_sets.push(("S".to_string(), vec![]));
    assert_eq!(Workspace::from_parts(p).unwrap_err().kind, ErrorKind::InvalidContents);

    let mut p = sample_parts();
    p.projects[0].1.push(("z".to_string(), 3));
    assert_eq!(Workspace::from_parts(p).unwrap_err().kind, ErrorKind::InvalidContents);

    let mut p = sample_parts();
    p.priority_sets[0].1.push(("z".to_string(), 3));
    assert_eq!(Workspace::from_parts(p).unwrap_err().kind, ErrorKind::InvalidContents);

    let mut p = sample_parts();
    p.projects[0].1.push(("x".to_string(), 3));
    assert_eq!(Workspace::from_parts(p).unwrap_err().kind, ErrorKind::InvalidContents);

    let mut p = sample_parts();
    p.active_priority_set = Some("T".to_string());
    assert_eq!(Workspace::from_parts(p).unwrap_err().kind, ErrorKind::InvalidContents);

    let mut p = sample_parts();
    p.active_priority_set = None;
    assert!(Workspace::from_parts(p).unwrap().calculate_score().is_err());
}

#[test]
fn removing_a_criterion_removes_its_weights_and_priorities() {
    let mut ws = build_test_workspace();
    ws.set_weight("Project 1", "Fun", 1).unwrap();
    ws.set_weight("Project 1", "Useful", -1).unwrap();
    ws.remove_criterion("Useful").unwrap();
    assert!(ws.get_criterion("Useful").is_none());
    assert_eq!(ws.get_weight("Project 1", "Useful").unwrap_err().kind, ErrorKind::NotFound);
    assert_eq!(ws.get_project("Project 1").unwrap().weights().get("Useful"), None);
    assert_eq!(ws.get_priority_set("Workday").unwrap().get_priority("Useful"), None);
    ws.add_criterion(Criterion::new("Useful")).unwrap();
    assert_eq!(ws.get_weight("Project 1", "Useful").unwrap(), 0);
    ws.activate_priority_set("Workday").unwrap();
    let scores = ws.calculate_score().unwrap();
    assert_eq!(score_of(&scores, "Project 1"), 1.0);
    assert_eq!(ws.remove_criterion("Useless").unwrap_err().kind, ErrorKind::NotFound);
}

#[test]
fn removing_a_project_keeps_the_others_in_order() {
    let mut ws = build_test_workspace();
    ws.remove_project("Project 2").unwrap();
    assert_eq!(
        ws.get_project_names(),
        vec!["Project 1", "Project =", "Project [toml]", "Project\nNewline"]
    );
    assert_eq!(ws.remove_project("Project 2").unwrap_err().kind, ErrorKind::NotFound);
    ws.add_project(Project::new("Project 2")).unwrap();
}

#[test]
fn removing_the_active_priority_set_leaves_none_active() {
    let mut ws = build_test_workspace();
    ws.remove_priority_set("Workday").unwrap();
    assert_eq!(ws.get_active_priority_set(), Some("Weekend"));
    ws.remove_priority_set("Weekend").unwrap();
    assert_eq!(ws.get_active_priority_set(), None);
    assert_eq!(ws.calculate_score().unwrap_err().kind, ErrorKind::NoActivePrioritySet);
    assert_eq!(ws.remove_priority_set("Weekend").unwrap_err().kind, ErrorKind::NotFound);
}

#[test]
fn empty_names_are_refused() {
    let mut ws = build_test_workspace();
    assert_eq!(ws.add_project(Project::new("")).unwrap_err().kind, ErrorKind::EmptyName);
    assert_eq!(ws.add_criterion(Criterion::new("")).unwrap_err().kind, ErrorKind::EmptyName);
    assert_eq!(ws.get_project_names().len(), 5);
    assert_eq!(ws.criteria().len(), 2);

    let mut p = sample_parts();
    p.criteria.push(String::new());
    assert_eq!(Workspace::from_parts(p).unwrap_err().kind, ErrorKind::InvalidContents);
}

#[test]
fn names_are_matched_exactly() {
    let mut ws = Workspace::new();
    ws.add_project(Project::new("Alpha")).unwrap();
    ws.add_project(Project::new("alpha")).unwrap();
    ws.add_project(Project::new(" Alpha")).unwrap();
    assert_eq!(ws.get_project_names(), vec!["Alpha", "alpha", " Alpha"]);
}
