//! The markdown-backed node model: one content unit, its associated files
//! (same namespace key, differing sublabels and extensions), and an optional
//! nested subgraph. The node manages its own state; the caller performs the
//! directory probes, renames and deletions it decides on, and hands the
//! outcomes in (`None` for success, `Some(text)` for the failure's message).

use vstd::prelude::*;
use vstd::string::*;
use crate::errors::Error;
use crate::join_path;
use crate::paths::{after_last_idx, basename_of, namespace_of, node_namespace};
use crate::strutil::str_eq;

verus! {

/// The mathematical value of a node.
#[verifier::ext_equal]
pub struct NodeV {
    pub node_name: Seq<char>,
    pub node_path: Seq<char>,
    pub markdown_path: Option<Seq<char>>,
    pub associated_files: Seq<Seq<char>>,
    pub subgraph: bool,
    pub subgraph_path: Option<Seq<char>>,
}

/// One node: a name, the directory holding it, the markdown file it was
/// scanned from (when it was), its associated files, and its subgraph state.
pub struct Node {
    /// The node's name, its namespace key.
    pub node_name: String,
    /// The directory containing the node.
    pub node_path: String,
    /// The canonical markdown file the node was constructed from, when it
    /// was constructed by scanning one.
    pub markdown_path: Option<String>,
    /// Other files sharing the node's namespace key, in the order they were
    /// added. Repeated additions of one candidate accumulate; callers
    /// de-duplicate if they need to.
    pub associated_files: Vec<String>,
    /// Whether the node owns a nested graph workspace.
    pub subgraph: bool,
    /// The subgraph's marker directory, when the node owns one.
    pub subgraph_path: Option<String>,
}

impl View for Node {
    type V = NodeV;

    open spec fn view(&self) -> NodeV {
        NodeV {
            node_name: self.node_name@,
            node_path: self.node_path@,
            markdown_path: match self.markdown_path {
                Some(ref p) => Some(p@),
                None => None,
            },
            associated_files: self.associated_files@.map_values(|s: String| s@),
            subgraph: self.subgraph,
            subgraph_path: match self.subgraph_path {
                Some(ref p) => Some(p@),
                None => None,
            },
        }
    }
}

/// The marker directory of the subgraph a node named `name` under `path`
/// would own.
pub open spec fn subgraph_marker_of(path: Seq<char>, name: Seq<char>) -> Seq<char> {
    join_path(join_path(path, name), ".graph"@)
}

/// The directory part of a path: everything before the last `/` (empty when
/// there is no `/`).
pub open spec fn dirname_of(p: Seq<char>) -> Seq<char> {
    if after_last_idx(p, '/') == 0 {
        Seq::empty()
    } else {
        p.take(after_last_idx(p, '/') - 1)
    }
}

/// Whether the path names a markdown file: its base name has an extension and
/// that extension is `md`.
pub open spec fn has_md_extension(p: Seq<char>) -> bool {
    let b = basename_of(p);
    after_last_idx(b, '.') > 0 && b.skip(after_last_idx(b, '.')) == "md"@
}

/// A node's internal consistency: the subgraph flag and the subgraph path are
/// set together, and the path is the node's own marker directory.
pub open spec fn node_wf(n: NodeV) -> bool {
    &&& n.subgraph == (n.subgraph_path is Some)
    &&& (n.subgraph_path matches Some(p) ==> p == subgraph_marker_of(n.node_path, n.node_name))
}

impl Node {
    /// Constructs a node from a name and the directory that holds it. The
    /// caller creates the node's directory on disk.
    pub fn new(node_name: String, node_path: String) -> (n: Node)
        ensures
            n@ == (NodeV {
                node_name: node_name@,
                node_path: node_path@,
                markdown_path: None,
                associated_files: Seq::empty(),
                subgraph: false,
                subgraph_path: None,
            }),
            node_wf(n@),
    {
        let n = Node {
            node_name,
            node_path,
            markdown_path: None,
            associated_files: Vec::new(),
            subgraph: false,
            subgraph_path: None,
        };
        proof {
            assert(n@.associated_files =~= Seq::<Seq<char>>::empty());
            assert(n@ =~= (NodeV {
                node_name: n.node_name@,
                node_path: n.node_path@,
                markdown_path: None,
                associated_files: Seq::empty(),
                subgraph: false,
                subgraph_path: None,
            }));
        }
        n
    }

    /// Constructs a node by scanning a markdown file path: the name is the
    /// path's namespace key, the directory is the path's parent. A path whose
    /// extension is not `md` is rejected as `InvalidInput`.
    pub fn from_markdown(path: &str) -> (r: Result<Node, Error>)
        ensures
            has_md_extension(path@) ==> (r matches Ok(n) && n@ == (NodeV {
                node_name: namespace_of(path@),
                node_path: dirname_of(path@),
                markdown_path: Some(path@),
                associated_files: Seq::empty(),
                subgraph: false,
                subgraph_path: None,
            }) && node_wf(n@)),
            !has_md_extension(path@) ==> r matches Err(Error::InvalidInput),
    {
        let r = Node::from_markdown_with_prefix(path, "");
        proof {
            reveal_strlit("");
            assert(""@ + namespace_of(path@) =~= namespace_of(path@));
        }
        r
    }

    /// `from_markdown`, with the name prefixed to disambiguate nodes that
    /// would otherwise collide across directories.
    pub fn from_markdown_with_prefix(path: &str, prefix: &str) -> (r: Result<Node, Error>)
        ensures
            has_md_extension(path@) ==> (r matches Ok(n) && n@ == (NodeV {
                node_name: prefix@ + namespace_of(path@),
                node_path: dirname_of(path@),
                markdown_path: Some(path@),
                associated_files: Seq::empty(),
                subgraph: false,
                subgraph_path: None,
            }) && node_wf(n@)),
            !has_md_extension(path@) ==> r matches Err(Error::InvalidInput),
    {
        let n = path.unicode_len();
        let mut start: usize = 0;
        let mut i: usize = 0;
        while i < n
            invariant
                n == path@.len(),
                i <= n,
                start as int == after_last_idx(path@.take(i as int), '/'),
                start <= i,
            decreases n - i,
        {
            let c = path.get_char(i);
            proof {
                assert(path@.take(i as int + 1).drop_last() =~= path@.take(i as int));
                assert(path@.take(i as int + 1).last() == path@[i as int]);
            }
            if c == '/' {
                start = i + 1;
            }
            i = i + 1;
        }
        proof {
            assert(path@.take(n as int) =~= path@);
        }
        let basename = path.substring_char(start, n);
        proof {
            assert(basename@ =~= basename_of(path@));
        }
        let bn = basename.unicode_len();
        let mut dot: usize = 0;
        let mut j: usize = 0;
        while j < bn
            invariant
                bn == basename@.len(),
                j <= bn,
                dot as int == after_last_idx(basename@.take(j as int), '.'),
                dot <= j,
            decreases bn - j,
        {
            let c = basename.get_char(j);
            proof {
                assert(basename@.take(j as int + 1).drop_last() =~= basename@.take(j as int));
                assert(basename@.take(j as int + 1).last() == basename@[j as int]);
            }
            if c == '.' {
                dot = j + 1;
            }
            j = j + 1;
        }
        proof {
            assert(basename@.take(bn as int) =~= basename@);
        }
        let is_md = dot > 0 && str_eq(basename.substring_char(dot, bn), "md");
        proof {
            assert(basename@.subrange(dot as int, bn as int) =~= basename@.skip(dot as int));
        }
        if !is_md {
            return Err(Error::InvalidInput);
        }
        let ns = node_namespace(path);
        let mut name = prefix.to_owned();
        name.append(ns.as_str());
        let dir = if start == 0 {
            String::new()
        } else {
            path.substring_char(0, start - 1).to_owned()
        };
        proof {
            if start > 0 {
                assert(path@.subrange(0, start as int - 1) =~= dirname_of(path@));
            }
        }
        let node = Node {
            node_name: name,
            node_path: dir,
            markdown_path: Some(path.to_owned()),
            associated_files: Vec::new(),
            subgraph: false,
            subgraph_path: None,
        };
        proof {
            assert(node@.associated_files =~= Seq::<Seq<char>>::empty());
        }
        Ok(node)
    }

    /// Appends `candidate` to the node's associated files exactly when its
    /// namespace key equals the node's name and it is not the node's own
    /// markdown file. Returns whether it was appended.
    pub fn add_file(&mut self, candidate: &str) -> (added: bool)
        ensures
            added == (namespace_of(candidate@) == old(self)@.node_name && old(
                self,
            )@.markdown_path != Some(candidate@)),
            added ==> (final(self)@ == (NodeV {
                associated_files: old(self)@.associated_files.push(candidate@),
                ..old(self)@
            })),
            !added ==> final(self)@ == old(self)@,
    {
        let ns = node_namespace(candidate);
        let same_key = str_eq(ns.as_str(), self.node_name.as_str());
        let is_own = match &self.markdown_path {
            Some(m) => str_eq(m.as_str(), candidate),
            None => false,
        };
        if same_key && !is_own {
            self.associated_files.push(candidate.to_owned());
            proof {
                assert(self@.associated_files =~= old(self)@.associated_files.push(candidate@));
                assert(self@ =~= (NodeV {
                    associated_files: old(self)@.associated_files.push(candidate@),
                    ..old(self)@
                }));
            }
            true
        } else {
            false
        }
    }

    /// The marker directory the node's subgraph lives in (or would live in).
    pub fn subgraph_marker_path(&self) -> (r: String)
        ensures
            r@ == subgraph_marker_of(self@.node_path, self@.node_name),
    {
        proof {
            reveal_strlit("/");
        }
        let mut s = self.node_path.clone();
        s.append("/");
        s.append(self.node_name.as_str());
        s.append("/");
        s.append(".graph");
        s
    }

    /// Records the outcome of creating the subgraph's marker directory on
    /// disk: success sets the subgraph state, failure surfaces a
    /// component-tagged error and leaves the node unchanged.
    pub fn create_subgraph(&mut self, io_error: Option<String>) -> (r: Result<(), Error>)
        ensures
            io_error is None ==> (r matches Ok(u) && final(self)@ == (NodeV {
                subgraph: true,
                subgraph_path: Some(
                    subgraph_marker_of(old(self)@.node_path, old(self)@.node_name),
                ),
                ..old(self)@
            }) && node_wf(final(self)@)),
            io_error matches Some(e) ==> (r matches Err(Error::IoError(m)) && m@
                == "Failed to create .graph directory: "@ + e@ && final(self)@ == old(self)@),
    {
        match io_error {
            None => {
                let p = self.subgraph_marker_path();
                self.subgraph = true;
                self.subgraph_path = Some(p);
                proof {
                    assert(self@ =~= (NodeV {
                        subgraph: true,
                        subgraph_path: Some(
                            subgraph_marker_of(old(self)@.node_path, old(self)@.node_name),
                        ),
                        ..old(self)@
                    }));
                }
                Ok(())
            },
            Some(e) => {
                let mut m = "Failed to create .graph directory: ".to_owned();
                m.append(e.as_str());
                Err(Error::IoError(m))
            },
        }
    }

    /// Decides what deleting the subgraph takes, given what the caller found
    /// on disk: `Ok(false)` means nothing to remove, `Ok(true)` means the
    /// directory must be removed, and a non-empty directory without
    /// `ignore_warning` is refused as `NotEmpty`.
    pub fn delete_subgraph_action(
        &self,
        ignore_warning: bool,
        dir_exists: bool,
        dir_is_empty: bool,
    ) -> (r: Result<bool, Error>)
        ensures
            !dir_exists ==> (r matches Ok(b) && b == false),
            dir_exists && !ignore_warning && !dir_is_empty ==> r matches Err(Error::NotEmpty),
            dir_exists && (ignore_warning || dir_is_empty) ==> (r matches Ok(b) && b == true),
    {
        if !dir_exists {
            Ok(false)
        } else if !ignore_warning && !dir_is_empty {
            Err(Error::NotEmpty)
        } else {
            Ok(true)
        }
    }

    /// Applies the outcome of a subgraph deletion. `dir_exists` and
    /// `dir_is_empty` are the caller's probe of the marker directory;
    /// `removal_error` is the outcome of removing it when
    /// `delete_subgraph_action` asked for that. Success clears the subgraph
    /// state; failure leaves the node unchanged.
    pub fn delete_subgraph(
        &mut self,
        ignore_warning: bool,
        dir_exists: bool,
        dir_is_empty: bool,
        removal_error: Option<String>,
    ) -> (r: Result<(), Error>)
        ensures
            !dir_exists ==> (r matches Ok(u) && final(self)@ == (NodeV {
                subgraph: false,
                subgraph_path: None,
                ..old(self)@
            })),
            dir_exists && !ignore_warning && !dir_is_empty ==> (r matches Err(Error::NotEmpty)
                && final(self)@ == old(self)@),
            dir_exists && (ignore_warning || dir_is_empty) && removal_error is None ==> (r matches
                Ok(u) && final(self)@ == (NodeV {
                subgraph: false,
                subgraph_path: None,
                ..old(self)@
            })),
            removal_error matches Some(e) ==> (dir_exists && (ignore_warning || dir_is_empty)
                ==> (r matches Err(Error::IoError(m)) && m@
                == "Failed to delete .graph directory: "@ + e@ && final(self)@ == old(self)@)),
            r is Ok ==> node_wf(final(self)@),
    {
        if dir_exists {
            if !ignore_warning && !dir_is_empty {
                return Err(Error::NotEmpty);
            }
            match removal_error {
                Some(e) => {
                    let mut m = "Failed to delete .graph directory: ".to_owned();
                    m.append(e.as_str());
                    return Err(Error::IoError(m));
                },
                None => {},
            }
        }
        self.subgraph = false;
        self.subgraph_path = None;
        proof {
            assert(self@ =~= (NodeV { subgraph: false, subgraph_path: None, ..old(self)@ }));
        }
        Ok(())
    }

    /// The node directory's current and renamed locations, for the caller to
    /// apply the rename on disk.
    pub fn rename_paths(&self, new_name: &str) -> (r: (String, String))
        ensures
            r.0@ == join_path(self@.node_path, self@.node_name),
            r.1@ == join_path(self@.node_path, new_name@),
    {
        let old_path = crate::paths::graph_root(self.node_path.as_str(), self.node_name.as_str());
        let new_path = crate::paths::graph_root(self.node_path.as_str(), new_name);
        (old_path, new_path)
    }

    /// Applies the outcome of renaming the node's directory: success adopts
    /// the new name (carrying the subgraph path along), failure surfaces a
    /// component-tagged error and leaves the node unchanged.
    pub fn rename(&mut self, new_name: String, rename_error: Option<String>) -> (r: Result<
        (),
        Error,
    >)
        ensures
            rename_error is None ==> (r matches Ok(u) && final(self)@ == (NodeV {
                node_name: new_name@,
                subgraph_path: if old(self)@.subgraph {
                    Some(subgraph_marker_of(old(self)@.node_path, new_name@))
                } else {
                    None
                },
                ..old(self)@
            }) && node_wf(final(self)@)),
            rename_error matches Some(e) ==> (r matches Err(Error::IoError(m)) && m@
                == "Failed to rename: "@ + e@ && final(self)@ == old(self)@),
    {
        match rename_error {
            Some(e) => {
                let mut m = "Failed to rename: ".to_owned();
                m.append(e.as_str());
                Err(Error::IoError(m))
            },
            None => {
                self.node_name = new_name;
                if self.subgraph {
                    let p = self.subgraph_marker_path();
                    self.subgraph_path = Some(p);
                } else {
                    self.subgraph_path = None;
                }
                proof {
                    assert(self@ =~= (NodeV {
                        node_name: self.node_name@,
                        subgraph_path: if old(self)@.subgraph {
                            Some(subgraph_marker_of(old(self)@.node_path, self.node_name@))
                        } else {
                            None
                        },
                        ..old(self)@
                    }));
                }
                Ok(())
            },
        }
    }
}

} // verus!
