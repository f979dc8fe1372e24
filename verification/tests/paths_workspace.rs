use nodenote::{Error, create_graph_outcome, create_graph_plan, graph_dirs, graph_root,
    node_namespace};

#[test]
fn graph_root_joins_base_and_name() {
    assert_eq!(graph_root("/tmp/ws", "Work"), "/tmp/ws/Work");
}

#[test]
fn graph_dirs_follow_canonical_layout() {
    let d = graph_dirs("/tmp/ws/Work");
    assert_eq!(d.marker_dir, "/tmp/ws/Work/.graph");
    assert_eq!(d.nodes_dir, "/tmp/ws/Work/nodenote/nodes");
    assert_eq!(d.edges_dir, "/tmp/ws/Work/nodenote/edges");
    assert_eq!(d.config_path, "/tmp/ws/Work/nodenote/config.edn");
}

#[test]
fn node_namespace_takes_first_dot_segment_of_base_name() {
    assert_eq!(node_namespace("/a/b/foo.meta.md"), "foo");
    assert_eq!(node_namespace("foo.md"), "foo");
    assert_eq!(node_namespace("foo"), "foo");
    assert_eq!(node_namespace("/a/b/foo"), "foo");
    assert_eq!(node_namespace("/a.b/foo.png"), "foo");
}

#[test]
fn create_plan_lays_out_workspace_and_config() {
    let p = create_graph_plan("/tmp/ws", "Work");
    assert_eq!(p.root, "/tmp/ws/Work");
    assert_eq!(p.dirs.marker_dir, "/tmp/ws/Work/.graph");
    assert_eq!(p.dirs.nodes_dir, "/tmp/ws/Work/nodenote/nodes");
    assert_eq!(p.dirs.edges_dir, "/tmp/ws/Work/nodenote/edges");
    assert_eq!(p.dirs.config_path, "/tmp/ws/Work/nodenote/config.edn");
    assert!(p.config_text.starts_with("{:meta/version 1"));
}

#[test]
fn create_outcome_reports_first_failure_with_component_tag() {
    let r = create_graph_outcome(
        "/tmp/ws/Work",
        None,
        Some("disk full".to_string()),
        None,
        None,
        None,
    );
    match r {
        Err(Error::IoError(m)) => {
            assert_eq!(m, "Failed to create nodes directory: disk full");
        }
        _ => panic!("expected IoError"),
    }
}

#[test]
fn create_outcome_success_summary_names_root() {
    let r = create_graph_outcome("/tmp/ws/Work", None, None, None, None, None);
    assert_eq!(r.unwrap(), "Graph created successfully at /tmp/ws/Work");
}

#[test]
fn create_outcome_registry_failure_comes_last() {
    let r = create_graph_outcome(
        "/tmp/ws/Work",
        None,
        None,
        None,
        None,
        Some("oops".to_string()),
    );
    match r {
        Err(Error::IoError(m)) => {
            assert_eq!(m, "Failed to update graph registry: oops");
        }
        _ => panic!("expected IoError"),
    }
}
