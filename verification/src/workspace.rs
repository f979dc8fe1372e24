//! Planning and outcome handling for creating a graph workspace: the caller
//! creates the planned directories and writes the config stub, then hands the
//! step outcomes back (`None` for success, `Some(text)` for the failure's
//! message) to get the operation's result.

use vstd::prelude::*;
use vstd::string::*;
use crate::errors::Error;
use crate::join_path;
use crate::paths::{GraphDirs, graph_dirs, graph_root};
use crate::paths::{config_path_of, edges_dir_of, marker_dir_of, nodes_dir_of};

verus! {

/// The text of the static config stub, written once at workspace creation and
/// never parsed by this core.
pub open spec fn config_stub_text() -> Seq<char> {
    "{:meta/version 1\n ;; Currently, there are no config settings.\n ;; This will change at some point.\n }"@
}

/// The version marker every config stub starts with.
pub open spec fn version_marker() -> Seq<char> {
    "{:meta/version 1"@
}

/// The config stub opens with its version marker.
pub proof fn lemma_config_has_version_marker()
    ensures
        config_stub_text().len() >= version_marker().len(),
        config_stub_text().take(version_marker().len() as int) == version_marker(),
{
    reveal_strlit(
        "{:meta/version 1\n ;; Currently, there are no config settings.\n ;; This will change at some point.\n }",
    );
    reveal_strlit("{:meta/version 1");
    assert(config_stub_text().take(version_marker().len() as int) =~= version_marker());
}

/// The config stub's text.
pub fn config_stub() -> (s: String)
    ensures
        s@ == config_stub_text(),
{
    "{:meta/version 1\n ;; Currently, there are no config settings.\n ;; This will change at some point.\n }".to_owned()
}

/// Everything the caller must put on disk to create the workspace `name`
/// under `base_path`.
pub struct CreatePlan {
    /// The workspace's root directory.
    pub root: String,
    /// The directories to create and the config file to write.
    pub dirs: GraphDirs,
    /// The config stub to write at `dirs.config_path`.
    pub config_text: String,
}

/// Derives the creation plan for the workspace `name` under `base_path`.
pub fn create_graph_plan(base_path: &str, name: &str) -> (p: CreatePlan)
    ensures
        p.root@ == join_path(base_path@, name@),
        p.dirs.marker_dir@ == marker_dir_of(p.root@),
        p.dirs.nodes_dir@ == nodes_dir_of(p.root@),
        p.dirs.edges_dir@ == edges_dir_of(p.root@),
        p.dirs.config_path@ == config_path_of(p.root@),
        p.config_text@ == config_stub_text(),
{
    let root = graph_root(base_path, name);
    let dirs = graph_dirs(root.as_str());
    let config_text = config_stub();
    CreatePlan { root, dirs, config_text }
}

/// Folds the outcomes of the creation steps, in the order they are taken
/// (marker, nodes and edges directories, config stub, registry update), into
/// the operation's result: the first failing step aborts with its
/// component-tagged message, and full success yields the summary text.
pub fn create_graph_outcome(
    root: &str,
    marker_res: Option<String>,
    nodes_res: Option<String>,
    edges_res: Option<String>,
    config_res: Option<String>,
    registry_res: Option<String>,
) -> (r: Result<String, Error>)
    ensures
        marker_res matches Some(e) ==> (r matches Err(Error::IoError(m)) && m@
            == "Failed to create .graph directory: "@ + e@),
        nodes_res matches Some(e) ==> (marker_res is None ==> (r matches Err(Error::IoError(m))
            && m@ == "Failed to create nodes directory: "@ + e@)),
        edges_res matches Some(e) ==> (marker_res is None && nodes_res is None ==> (r matches Err(
            Error::IoError(m),
        ) && m@ == "Failed to create edges directory: "@ + e@)),
        config_res matches Some(e) ==> (marker_res is None && nodes_res is None && edges_res
            is None ==> (r matches Err(Error::IoError(m)) && m@
            == "Failed to create config file: "@ + e@)),
        registry_res matches Some(e) ==> (marker_res is None && nodes_res is None && edges_res
            is None && config_res is None ==> (r matches Err(Error::IoError(m)) && m@
            == "Failed to update graph registry: "@ + e@)),
        marker_res is None && nodes_res is None && edges_res is None && config_res is None
            && registry_res is None ==> (r matches Ok(s) && s@
            == "Graph created successfully at "@ + root@),
{
    match marker_res {
        Some(e) => {
            let mut m = "Failed to create .graph directory: ".to_owned();
            m.append(e.as_str());
            return Err(Error::IoError(m));
        },
        None => {},
    }
    match nodes_res {
        Some(e) => {
            let mut m = "Failed to create nodes directory: ".to_owned();
            m.append(e.as_str());
            return Err(Error::IoError(m));
        },
        None => {},
    }
    match edges_res {
        Some(e) => {
            let mut m = "Failed to create edges directory: ".to_owned();
            m.append(e.as_str());
            return Err(Error::IoError(m));
        },
        None => {},
    }
    match config_res {
        Some(e) => {
            let mut m = "Failed to create config file: ".to_owned();
            m.append(e.as_str());
            return Err(Error::IoError(m));
        },
        None => {},
    }
    match registry_res {
        Some(e) => {
            let mut m = "Failed to update graph registry: ".to_owned();
            m.append(e.as_str());
            return Err(Error::IoError(m));
        },
        None => {},
    }
    let mut s = "Graph created successfully at ".to_owned();
    s.append(root);
    Ok(s)
}

} // verus!
