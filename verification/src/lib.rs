//! A local, file-backed knowledge-graph workspace library.
//!
//! The library models the pure core of the workspace: the canonical path
//! layout of a graph directory, the durable registry of known graphs with
//! its JSON document format, graph-workspace creation planning, and the
//! markdown-backed node model. All filesystem access is left to the caller,
//! which feeds the outcomes of its probes and writes back into the library.

use vstd::prelude::*;

mod clock;
mod errors;
mod json;
mod laws;
mod node;
mod paths;
mod registry;
mod store;
mod strutil;
mod workspace;

pub use errors::Error;
pub use json::{
    bool_json, entries_json, entry_json, esc, esc_char, lemma_registry_roundtrip, p_bool, p_char,
    p_entry, p_entry_list, p_field, p_lit, p_quoted, p_registry, p_strbody, quoted, registry_json,
};
pub use laws::{
    count_true, law_add_then_list, law_remove_removes_identity, law_touch_updates_last_opened,
    law_validate, str_le,
};
pub use node::{Node, NodeV, dirname_of, has_md_extension, node_wf, subgraph_marker_of};
pub use workspace::{
    CreatePlan, config_stub, config_stub_text, create_graph_outcome, create_graph_plan,
    lemma_config_has_version_marker, version_marker,
};
pub use store::{
    add_to_document, add_to_document_now, list_from_document, remove_from_document,
    stamped_entries, stored_entries, touch_document, touch_document_now, touched_entries,
    validate_document,
};
pub use registry::{
    GraphInfo, GraphInfoV, GraphRegistry, first_match_idx, has_identity, identity_matches,
    keep_valid, new_entry, with_last_opened, with_validated, without_identity,
};
pub use paths::{GraphDirs, graph_dirs, graph_root, node_namespace};
pub use paths::{
    after_last_idx, basename_of, config_path_of, edges_dir_of, first_idx, internal_dir_of,
    marker_dir_of, namespace_of, nodes_dir_of,
};

verus! {

/// Joins two path segments with a `/` separator, the canonical layout rule
/// used throughout the library.
pub open spec fn join_path(base: Seq<char>, child: Seq<char>) -> Seq<char> {
    base + seq!['/'] + child
}

} // verus!
