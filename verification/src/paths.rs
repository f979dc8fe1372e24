//! Pure derivation of the canonical layout of a graph workspace and of a
//! node's associated-file namespace.

use vstd::prelude::*;
use vstd::string::*;
use crate::join_path;
use crate::strutil::chars_string;

verus! {

/// The index just after the last occurrence of `c` in `s` (0 when `c` does
/// not occur).
pub open spec fn after_last_idx(s: Seq<char>, c: char) -> int
    decreases s.len(),
{
    if s.len() == 0 {
        0
    } else if s.last() == c {
        s.len() as int
    } else {
        after_last_idx(s.drop_last(), c)
    }
}

/// The index of the first occurrence of `c` in `s` (`s.len()` when `c` does
/// not occur).
pub open spec fn first_idx(s: Seq<char>, c: char) -> int
    decreases s.len(),
{
    if s.len() == 0 {
        0
    } else if s[0] == c {
        0
    } else {
        1 + first_idx(s.drop_first(), c)
    }
}

pub proof fn lemma_first_idx(s: Seq<char>, c: char)
    ensures
        0 <= first_idx(s, c) <= s.len(),
        first_idx(s, c) < s.len() ==> s[first_idx(s, c)] == c,
        forall|k: int| 0 <= k < first_idx(s, c) ==> s[k] != c,
    decreases s.len(),
{
    if s.len() == 0 {
    } else if s[0] == c {
    } else {
        lemma_first_idx(s.drop_first(), c);
        assert(forall|k: int| 1 <= k < s.len() ==> s[k] == s.drop_first()[k - 1]);
    }
}

/// The file-name portion of a path: everything after the last `/`.
pub open spec fn basename_of(p: Seq<char>) -> Seq<char> {
    p.skip(after_last_idx(p, '/'))
}

/// The namespace key grouping a node's files: the file name up to its first
/// `.`, which is the extension-stripped stem's first dot-separated segment.
pub open spec fn namespace_of(p: Seq<char>) -> Seq<char> {
    basename_of(p).take(first_idx(basename_of(p), '.'))
}

/// The root directory of the graph workspace `name` under `base_path`.
pub fn graph_root(base_path: &str, name: &str) -> (r: String)
    ensures
        r@ == join_path(base_path@, name@),
{
    let mut s = base_path.to_owned();
    s.append("/");
    proof {
        reveal_strlit("/");
    }
    s.append(name);
    s
}

/// The canonical subpaths of one graph workspace rooted at `graph_root`.
pub struct GraphDirs {
    /// The reserved `.graph` marker directory.
    pub marker_dir: String,
    /// The directory holding one entry per node.
    pub nodes_dir: String,
    /// The directory holding relationship data between nodes.
    pub edges_dir: String,
    /// The static configuration stub file.
    pub config_path: String,
}

pub open spec fn marker_dir_of(root: Seq<char>) -> Seq<char> {
    join_path(root, ".graph"@)
}

pub open spec fn internal_dir_of(root: Seq<char>) -> Seq<char> {
    join_path(root, "nodenote"@)
}

pub open spec fn nodes_dir_of(root: Seq<char>) -> Seq<char> {
    join_path(internal_dir_of(root), "nodes"@)
}

pub open spec fn edges_dir_of(root: Seq<char>) -> Seq<char> {
    join_path(internal_dir_of(root), "edges"@)
}

pub open spec fn config_path_of(root: Seq<char>) -> Seq<char> {
    join_path(internal_dir_of(root), "config.edn"@)
}

/// Derives the full canonical layout of the workspace rooted at `root`.
pub fn graph_dirs(root: &str) -> (d: GraphDirs)
    ensures
        d.marker_dir@ == marker_dir_of(root@),
        d.nodes_dir@ == nodes_dir_of(root@),
        d.edges_dir@ == edges_dir_of(root@),
        d.config_path@ == config_path_of(root@),
{
    proof {
        reveal_strlit("/");
    }
    let mut marker = root.to_owned();
    marker.append("/");
    marker.append(".graph");
    let mut internal = root.to_owned();
    internal.append("/");
    internal.append("nodenote");
    let mut nodes = internal.clone();
    nodes.append("/");
    nodes.append("nodes");
    let mut edges = internal.clone();
    edges.append("/");
    edges.append("edges");
    let mut config = internal.clone();
    config.append("/");
    config.append("config.edn");
    GraphDirs { marker_dir: marker, nodes_dir: nodes, edges_dir: edges, config_path: config }
}

/// Computes the namespace key of `path`: the base name stripped of its
/// extension and of any sublabel suffixes.
pub fn node_namespace(path: &str) -> (r: String)
    ensures
        r@ == namespace_of(path@),
{
    let n = path.unicode_len();
    let mut start: usize = 0;
    let mut i: usize = 0;
    while i < n
        invariant
            n == path@.len(),
            i <= n,
            start as int == after_last_idx(path@.take(i as int), '/'),
            start <= i,
        decreases n - i,
    {
        let c = path.get_char(i);
        proof {
            assert(path@.take(i as int + 1).drop_last() =~= path@.take(i as int));
            assert(path@.take(i as int + 1).last() == path@[i as int]);
        }
        if c == '/' {
            start = i + 1;
        }
        i = i + 1;
    }
    proof {
        assert(path@.take(n as int) =~= path@);
    }
    let mut j: usize = start;
    while j < n
        invariant
            n == path@.len(),
            start <= j <= n,
            forall|k: int| start <= k < j ==> path@[k] != '.',
        ensures
            j <= n,
            forall|k: int| start <= k < j ==> path@[k] != '.',
            j == n || path@[j as int] == '.',
        decreases n - j,
    {
        if path.get_char(j) == '.' {
            break;
        }
        j = j + 1;
    }
    proof {
        let b = basename_of(path@);
        lemma_first_idx(b, '.');
        let fi = first_idx(b, '.');
        assert(forall|k: int| 0 <= k < b.len() ==> b[k] == path@[start as int + k]);
        assert(fi == j - start) by {
            if fi < j - start {
                assert(path@[start as int + fi] == b[fi]);
            }
            if fi > j - start {
                assert(b[j - start as int] == path@[j as int]);
            }
        }
        assert(b.take(fi) =~= path@.subrange(start as int, j as int));
    }
    let piece = path.substring_char(start, j);
    piece.to_owned()
}

} // verus!
