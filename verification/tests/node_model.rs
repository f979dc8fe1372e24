use nodenote::{Error, Node};

#[test]
fn new_node_has_no_subgraph() {
    let n = Node::new("alpha".to_string(), "/ws/g/nodenote/nodes".to_string());
    assert_eq!(n.node_name, "alpha");
    assert_eq!(n.node_path, "/ws/g/nodenote/nodes");
    assert!(!n.subgraph);
    assert!(n.subgraph_path.is_none());
    assert!(n.associated_files.is_empty());
}

#[test]
fn from_markdown_strips_extension_and_sublabels() {
    let n = Node::from_markdown("/ws/nodes/foo.meta.md").unwrap();
    assert_eq!(n.node_name, "foo");
    assert_eq!(n.node_path, "/ws/nodes");
    assert_eq!(n.markdown_path.as_deref(), Some("/ws/nodes/foo.meta.md"));
}

#[test]
fn from_markdown_rejects_non_markdown() {
    match Node::from_markdown("/ws/nodes/foo.png") {
        Err(Error::InvalidInput) => {}
        _ => panic!("expected InvalidInput"),
    }
    match Node::from_markdown("/ws/nodes/foo") {
        Err(Error::InvalidInput) => {}
        _ => panic!("expected InvalidInput"),
    }
}

#[test]
fn from_markdown_with_prefix_prepends() {
    let n = Node::from_markdown_with_prefix("/ws/nodes/foo.md", "dir1/").unwrap();
    assert_eq!(n.node_name, "dir1/foo");
}

#[test]
fn add_file_appends_only_matching_namespace() {
    let mut n = Node::from_markdown("/ws/foo.md").unwrap();
    assert!(n.add_file("/ws/foo.meta.png"));
    assert!(!n.add_file("/ws/foobar.png"));
    assert!(!n.add_file("/ws/foo.md"));
    assert_eq!(n.associated_files, vec!["/ws/foo.meta.png".to_string()]);
}

#[test]
fn add_file_is_not_idempotent() {
    let mut n = Node::from_markdown("/ws/foo.md").unwrap();
    assert!(n.add_file("/ws/foo.png"));
    assert!(n.add_file("/ws/foo.png"));
    assert_eq!(n.associated_files.len(), 2);
}

#[test]
fn create_subgraph_sets_marker_path() {
    let mut n = Node::new("alpha".to_string(), "/ws/nodes".to_string());
    assert_eq!(n.subgraph_marker_path(), "/ws/nodes/alpha/.graph");
    n.create_subgraph(None).unwrap();
    assert!(n.subgraph);
    assert_eq!(n.subgraph_path.as_deref(), Some("/ws/nodes/alpha/.graph"));
}

#[test]
fn create_subgraph_failure_leaves_node_unchanged() {
    let mut n = Node::new("alpha".to_string(), "/ws/nodes".to_string());
    match n.create_subgraph(Some("permission denied".to_string())) {
        Err(Error::IoError(m)) => {
            assert_eq!(m, "Failed to create .graph directory: permission denied");
        }
        _ => panic!("expected IoError"),
    }
    assert!(!n.subgraph);
    assert!(n.subgraph_path.is_none());
}

#[test]
fn delete_empty_subgraph_without_force_succeeds_and_clears() {
    let mut n = Node::new("alpha".to_string(), "/ws/nodes".to_string());
    n.create_subgraph(None).unwrap();
    assert!(matches!(n.delete_subgraph_action(false, true, true), Ok(true)));
    n.delete_subgraph(false, true, true, None).unwrap();
    assert!(!n.subgraph);
    assert!(n.subgraph_path.is_none());
}

#[test]
fn delete_nonempty_subgraph_without_force_is_refused() {
    let mut n = Node::new("alpha".to_string(), "/ws/nodes".to_string());
    n.create_subgraph(None).unwrap();
    match n.delete_subgraph(false, true, false, None) {
        Err(Error::NotEmpty) => {}
        _ => panic!("expected NotEmpty"),
    }
    assert!(n.subgraph);
}

#[test]
fn delete_nonempty_subgraph_with_force_succeeds() {
    let mut n = Node::new("alpha".to_string(), "/ws/nodes".to_string());
    n.create_subgraph(None).unwrap();
    n.delete_subgraph(true, true, false, None).unwrap();
    assert!(!n.subgraph);
    assert!(n.subgraph_path.is_none());
}

#[test]
fn delete_absent_subgraph_is_a_no_op_success() {
    let mut n = Node::new("alpha".to_string(), "/ws/nodes".to_string());
    n.delete_subgraph(false, false, false, None).unwrap();
    assert!(!n.subgraph);
}

#[test]
fn delete_subgraph_removal_failure_keeps_state() {
    let mut n = Node::new("alpha".to_string(), "/ws/nodes".to_string());
    n.create_subgraph(None).unwrap();
    match n.delete_subgraph(true, true, false, Some("busy".to_string())) {
        Err(Error::IoError(m)) => {
            assert_eq!(m, "Failed to delete .graph directory: busy");
        }
        _ => panic!("expected IoError"),
    }
    assert!(n.subgraph);
}

#[test]
fn rename_updates_name_and_carries_subgraph_path() {
    let mut n = Node::new("alpha".to_string(), "/ws/nodes".to_string());
    n.create_subgraph(None).unwrap();
    let (old_path, new_path) = n.rename_paths("beta");
    assert_eq!(old_path, "/ws/nodes/alpha");
    assert_eq!(new_path, "/ws/nodes/beta");
    n.rename("beta".to_string(), None).unwrap();
    assert_eq!(n.node_name, "beta");
    assert_eq!(n.subgraph_path.as_deref(), Some("/ws/nodes/beta/.graph"));
}

#[test]
fn rename_failure_leaves_node_unmodified() {
    let mut n = Node::new("alpha".to_string(), "/ws/nodes".to_string());
    match n.rename("beta".to_string(), Some("destination exists".to_string())) {
        Err(Error::IoError(m)) => {
            assert_eq!(m, "Failed to rename: destination exists");
        }
        _ => panic!("expected IoError"),
    }
    assert_eq!(n.node_name, "alpha");
}
