use nodenote::{GraphInfo, GraphRegistry};

fn entry(name: &str, path: &str, at: &str) -> GraphInfo {
    GraphInfo {
        name: name.to_string(),
        path: path.to_string(),
        created_at: at.to_string(),
        last_opened: at.to_string(),
        validated: None,
    }
}

#[test]
fn add_then_list_has_identity_with_equal_timestamps() {
    let mut reg = GraphRegistry::new();
    reg.add("/tmp/ws", "Work", "2024-01-02T03:04:05+00:00");
    assert_eq!(reg.len(), 1);
    let e = &reg.entries[0];
    assert_eq!(e.name, "Work");
    assert_eq!(e.path, "/tmp/ws");
    assert_eq!(e.created_at, e.last_opened);
    assert_eq!(e.created_at, "2024-01-02T03:04:05+00:00");
    assert!(e.validated.is_none());
}

#[test]
fn add_does_not_deduplicate_identities() {
    let mut reg = GraphRegistry::new();
    reg.add("/tmp/ws", "Work", "2024-01-01T00:00:00+00:00");
    reg.add("/tmp/ws", "Work", "2024-01-02T00:00:00+00:00");
    assert_eq!(reg.len(), 2);
}

#[test]
fn touch_updates_first_match_only_and_keeps_created_at() {
    let mut reg = GraphRegistry {
        entries: vec![
            entry("A", "/p", "2024-01-01T00:00:00+00:00"),
            entry("B", "/p", "2024-01-01T00:00:00+00:00"),
            entry("A", "/p", "2024-01-01T00:00:00+00:00"),
        ],
    };
    let found = reg.touch("/p", "A", "2024-06-01T00:00:00+00:00");
    assert!(found);
    assert_eq!(reg.entries[0].last_opened, "2024-06-01T00:00:00+00:00");
    assert_eq!(reg.entries[0].created_at, "2024-01-01T00:00:00+00:00");
    assert_eq!(reg.entries[1].last_opened, "2024-01-01T00:00:00+00:00");
    assert_eq!(reg.entries[2].last_opened, "2024-01-01T00:00:00+00:00");
}

#[test]
fn touch_without_match_reports_not_found() {
    let mut reg = GraphRegistry {
        entries: vec![entry("A", "/p", "2024-01-01T00:00:00+00:00")],
    };
    let found = reg.touch("/p", "Missing", "2024-06-01T00:00:00+00:00");
    assert!(!found);
    assert_eq!(reg.entries[0].last_opened, "2024-01-01T00:00:00+00:00");
}

#[test]
fn remove_deletes_all_matches_and_keeps_others() {
    let mut reg = GraphRegistry {
        entries: vec![
            entry("A", "/p", "t1"),
            entry("B", "/p", "t2"),
            entry("A", "/p", "t3"),
            entry("A", "/q", "t4"),
        ],
    };
    reg.remove("/p", "A");
    assert_eq!(reg.len(), 2);
    assert_eq!(reg.entries[0].name, "B");
    assert_eq!(reg.entries[0].created_at, "t2");
    assert_eq!(reg.entries[1].name, "A");
    assert_eq!(reg.entries[1].path, "/q");
}

#[test]
fn validate_without_repair_keeps_count_and_stamps_flags() {
    let mut reg = GraphRegistry {
        entries: vec![entry("A", "/p", "t1"), entry("B", "/p", "t2")],
    };
    reg.validate(&vec![true, false], false);
    assert_eq!(reg.len(), 2);
    assert_eq!(reg.entries[0].validated, Some(true));
    assert_eq!(reg.entries[1].validated, Some(false));
    assert_eq!(reg.entries[1].name, "B");
    assert_eq!(reg.entries[1].last_opened, "t2");
}

#[test]
fn validate_with_repair_removes_exactly_missing_workspaces() {
    let mut reg = GraphRegistry {
        entries: vec![
            entry("A", "/p", "t1"),
            entry("B", "/p", "t2"),
            entry("C", "/p", "t3"),
        ],
    };
    reg.validate(&vec![false, true, false], true);
    assert_eq!(reg.len(), 1);
    assert_eq!(reg.entries[0].name, "B");
    assert_eq!(reg.entries[0].validated, Some(true));
}

#[test]
fn root_paths_join_base_path_and_name() {
    let reg = GraphRegistry {
        entries: vec![entry("Work", "/tmp/ws", "t1")],
    };
    let roots = reg.root_paths();
    assert_eq!(roots.len(), 1);
    assert_eq!(roots[0], "/tmp/ws/Work");
}
