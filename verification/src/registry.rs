//! The durable index of known graph workspaces: an ordered sequence of
//! entries keyed by the `(name, base_path)` identity, with the mutations the
//! store supports. All operations here are pure with respect to the
//! filesystem: the caller reads and writes the backing document and probes
//! directories, and hands the outcomes in.

use vstd::prelude::*;
use vstd::seq_lib::*;
use vstd::string::*;
use crate::strutil::str_eq;

verus! {

/// The mathematical value of one registry entry.
#[verifier::ext_equal]
pub struct GraphInfoV {
    pub name: Seq<char>,
    pub path: Seq<char>,
    pub created_at: Seq<char>,
    pub last_opened: Seq<char>,
    pub validated: Option<bool>,
}

/// One registered graph workspace: its identity, its timestamps, and the
/// result of the last existence check (absent until first validation).
pub struct GraphInfo {
    /// The workspace identifier (not globally unique across base paths).
    pub name: String,
    /// The parent directory containing the graph directory.
    pub path: String,
    /// Creation time, RFC 3339, UTC.
    pub created_at: String,
    /// Last-opened time, RFC 3339, UTC.
    pub last_opened: String,
    /// Last known existence-check result; `None` until first validation.
    pub validated: Option<bool>,
}

impl View for GraphInfo {
    type V = GraphInfoV;

    open spec fn view(&self) -> GraphInfoV {
        GraphInfoV {
            name: self.name@,
            path: self.path@,
            created_at: self.created_at@,
            last_opened: self.last_opened@,
            validated: self.validated,
        }
    }
}

impl Clone for GraphInfo {
    fn clone(&self) -> (r: Self)
        ensures
            r@ == self@,
    {
        GraphInfo {
            name: self.name.clone(),
            path: self.path.clone(),
            created_at: self.created_at.clone(),
            last_opened: self.last_opened.clone(),
            validated: self.validated,
        }
    }
}

/// Whether `e` carries the identity `(name, base_path)`.
pub open spec fn identity_matches(e: GraphInfoV, base_path: Seq<char>, name: Seq<char>) -> bool {
    e.name == name && e.path == base_path
}

/// A fresh entry as `add` appends it: both timestamps equal `now`, not yet
/// validated.
pub open spec fn new_entry(base_path: Seq<char>, name: Seq<char>, now: Seq<char>) -> GraphInfoV {
    GraphInfoV { name: name, path: base_path, created_at: now, last_opened: now, validated: None }
}

/// `e` with its `last_opened` timestamp replaced.
pub open spec fn with_last_opened(e: GraphInfoV, t: Seq<char>) -> GraphInfoV {
    GraphInfoV { last_opened: t, ..e }
}

/// `e` with its validation flag set.
pub open spec fn with_validated(e: GraphInfoV, v: bool) -> GraphInfoV {
    GraphInfoV { validated: Some(v), ..e }
}

/// Whether some entry of `s` carries the identity.
pub open spec fn has_identity(s: Seq<GraphInfoV>, base_path: Seq<char>, name: Seq<char>) -> bool {
    exists|i: int| 0 <= i < s.len() && identity_matches(s[i], base_path, name)
}

/// The index of the first entry of `s` carrying the identity (`s.len()` when
/// none does).
pub open spec fn first_match_idx(s: Seq<GraphInfoV>, base_path: Seq<char>, name: Seq<char>) -> int
    decreases s.len(),
{
    if s.len() == 0 {
        0
    } else if identity_matches(s[0], base_path, name) {
        0
    } else {
        1 + first_match_idx(s.drop_first(), base_path, name)
    }
}

pub proof fn lemma_first_match_idx(s: Seq<GraphInfoV>, base_path: Seq<char>, name: Seq<char>)
    ensures
        0 <= first_match_idx(s, base_path, name) <= s.len(),
        first_match_idx(s, base_path, name) < s.len() ==> identity_matches(
            s[first_match_idx(s, base_path, name)],
            base_path,
            name,
        ),
        forall|k: int|
            0 <= k < first_match_idx(s, base_path, name) ==> !identity_matches(
                s[k],
                base_path,
                name,
            ),
        (first_match_idx(s, base_path, name) < s.len()) == has_identity(s, base_path, name),
    decreases s.len(),
{
    if s.len() == 0 {
    } else if identity_matches(s[0], base_path, name) {
    } else {
        lemma_first_match_idx(s.drop_first(), base_path, name);
        assert(forall|k: int| 1 <= k < s.len() ==> s[k] == s.drop_first()[k - 1]);
        if has_identity(s, base_path, name) {
            let i = choose|i: int|
                0 <= i < s.len() && identity_matches(s[i], base_path, name);
            assert(identity_matches(s.drop_first()[i - 1], base_path, name));
        }
    }
}

/// The entries of `s` that do not carry the identity, in order: what `remove`
/// leaves behind.
pub open spec fn without_identity(
    s: Seq<GraphInfoV>,
    base_path: Seq<char>,
    name: Seq<char>,
) -> Seq<GraphInfoV> {
    s.filter(|e: GraphInfoV| !identity_matches(e, base_path, name))
}

/// The entries of `s` that `validate(repair = true)` keeps: those whose
/// workspace exists on disk (per `exists_flags`), each stamped validated.
pub open spec fn keep_valid(s: Seq<GraphInfoV>, exists_flags: Seq<bool>) -> Seq<GraphInfoV>
    decreases s.len(),
{
    if s.len() == 0 {
        Seq::empty()
    } else {
        let rest = keep_valid(s.drop_last(), exists_flags.drop_last());
        if exists_flags[s.len() - 1] {
            rest.push(with_validated(s.last(), true))
        } else {
            rest
        }
    }
}

proof fn lemma_filter_push<A>(s: Seq<A>, x: A, pred: spec_fn(A) -> bool)
    ensures
        s.push(x).filter(pred) == if pred(x) {
            s.filter(pred).push(x)
        } else {
            s.filter(pred)
        },
{
    reveal(Seq::filter);
    assert(s.push(x).drop_last() =~= s);
}

/// The ordered registry of known graph workspaces.
pub struct GraphRegistry {
    /// The entries, in insertion order. At most one entry per identity is the
    /// intended shape, but `add` does not enforce it; duplicates accumulate.
    pub entries: Vec<GraphInfo>,
}

impl View for GraphRegistry {
    type V = Seq<GraphInfoV>;

    open spec fn view(&self) -> Seq<GraphInfoV> {
        self.entries@.map_values(|e: GraphInfo| e@)
    }
}

impl GraphRegistry {
    /// An empty registry, the fallback for an absent or unreadable document.
    pub fn new() -> (r: GraphRegistry)
        ensures
            r@ == Seq::<GraphInfoV>::empty(),
    {
        let r = GraphRegistry { entries: Vec::new() };
        proof {
            assert(r@ =~= Seq::<GraphInfoV>::empty());
        }
        r
    }

    /// The workspace root directory of every entry, in order: what a
    /// validation pass probes on disk.
    pub fn root_paths(&self) -> (v: Vec<String>)
        ensures
            v@.len() == self@.len(),
            forall|i: int|
                0 <= i < v@.len() ==> v@[i]@ == crate::join_path(self@[i].path, self@[i].name),
    {
        let mut v: Vec<String> = Vec::new();
        let mut i: usize = 0;
        while i < self.entries.len()
            invariant
                i <= self.entries.len(),
                v@.len() == i,
                forall|k: int|
                    0 <= k < i ==> v@[k]@ == crate::join_path(self@[k].path, self@[k].name),
            decreases self.entries.len() - i,
        {
            let p = crate::paths::graph_root(
                self.entries[i].path.as_str(),
                self.entries[i].name.as_str(),
            );
            v.push(p);
            i = i + 1;
        }
        v
    }

    /// The number of registered entries.
    pub fn len(&self) -> (n: usize)
        ensures
            n == self@.len(),
    {
        self.entries.len()
    }

    /// Appends a fresh entry for `(name, base_path)` with both timestamps set
    /// to `now`. Duplicate identities are not checked for and accumulate.
    pub fn add(&mut self, base_path: &str, name: &str, now: &str)
        ensures
            final(self)@ == old(self)@.push(new_entry(base_path@, name@, now@)),
    {
        self.entries.push(
            GraphInfo {
                name: name.to_owned(),
                path: base_path.to_owned(),
                created_at: now.to_owned(),
                last_opened: now.to_owned(),
                validated: None,
            },
        );
        proof {
            assert(self@ =~= old(self)@.push(new_entry(base_path@, name@, now@)));
        }
    }

    /// Sets `last_opened` to `now` on the first entry carrying the identity,
    /// leaving every other entry (and the match's other fields) unchanged.
    /// Returns whether a match was found.
    pub fn touch(&mut self, base_path: &str, name: &str, now: &str) -> (found: bool)
        ensures
            found == has_identity(old(self)@, base_path@, name@),
            !found ==> final(self)@ == old(self)@,
            found ==> final(self)@ == old(self)@.update(
                first_match_idx(old(self)@, base_path@, name@),
                with_last_opened(
                    old(self)@[first_match_idx(old(self)@, base_path@, name@)],
                    now@,
                ),
            ),
    {
        let n = self.entries.len();
        let mut i: usize = 0;
        while i < n
            invariant
                n == self.entries.len(),
                i <= n,
                self@ == old(self)@,
                forall|k: int| 0 <= k < i ==> !identity_matches(old(self)@[k], base_path@, name@),
            decreases n - i,
        {
            let is_match = str_eq(self.entries[i].name.as_str(), name) && str_eq(
                self.entries[i].path.as_str(),
                base_path,
            );
            if is_match {
                let updated = GraphInfo {
                    name: self.entries[i].name.clone(),
                    path: self.entries[i].path.clone(),
                    created_at: self.entries[i].created_at.clone(),
                    last_opened: now.to_owned(),
                    validated: self.entries[i].validated,
                };
                proof {
                    lemma_first_match_idx(old(self)@, base_path@, name@);
                    assert(identity_matches(old(self)@[i as int], base_path@, name@));
                    assert(first_match_idx(old(self)@, base_path@, name@) == i as int);
                }
                self.entries.set(i, updated);
                proof {
                    assert(self@ =~= old(self)@.update(
                        i as int,
                        with_last_opened(old(self)@[i as int], now@),
                    ));
                }
                return true;
            }
            i = i + 1;
        }
        proof {
            lemma_first_match_idx(old(self)@, base_path@, name@);
        }
        false
    }

    /// Removes every entry carrying the identity, keeping all others in
    /// order.
    pub fn remove(&mut self, base_path: &str, name: &str)
        ensures
            final(self)@ == without_identity(old(self)@, base_path@, name@),
    {
        let n = self.entries.len();
        let mut kept: Vec<GraphInfo> = Vec::new();
        let mut i: usize = 0;
        proof {
            assert(old(self)@.take(0) =~= Seq::<GraphInfoV>::empty());
            assert(kept@.map_values(|e: GraphInfo| e@) =~= Seq::<GraphInfoV>::empty());
            reveal(Seq::filter);
        }
        while i < n
            invariant
                n == self.entries.len(),
                i <= n,
                self@ == old(self)@,
                kept@.map_values(|e: GraphInfo| e@) == without_identity(
                    old(self)@.take(i as int),
                    base_path@,
                    name@,
                ),
            decreases n - i,
        {
            let is_match = str_eq(self.entries[i].name.as_str(), name) && str_eq(
                self.entries[i].path.as_str(),
                base_path,
            );
            proof {
                let pred = |e: GraphInfoV| !identity_matches(e, base_path@, name@);
                assert(old(self)@.take(i as int + 1) =~= old(self)@.take(i as int).push(
                    old(self)@[i as int],
                ));
                lemma_filter_push(old(self)@.take(i as int), old(self)@[i as int], pred);
            }
            if !is_match {
                kept.push(self.entries[i].clone());
                proof {
                    assert(kept@.map_values(|e: GraphInfo| e@) =~= without_identity(
                        old(self)@.take(i as int + 1),
                        base_path@,
                        name@,
                    ));
                }
            }
            i = i + 1;
        }
        proof {
            assert(old(self)@.take(n as int) =~= old(self)@);
        }
        self.entries = kept;
    }

    /// Applies an existence check to every entry: entry `i` exists on disk
    /// iff `exists_flags[i]`. Without `repair`, every entry is kept and
    /// stamped with its flag; with `repair`, entries whose flag is false are
    /// removed and all others are stamped validated.
    pub fn validate(&mut self, exists_flags: &Vec<bool>, repair: bool)
        requires
            exists_flags@.len() == old(self)@.len(),
        ensures
            !repair ==> final(self)@.len() == old(self)@.len(),
            !repair ==> forall|k: int|
                0 <= k < final(self)@.len() ==> final(self)@[k] == with_validated(
                    old(self)@[k],
                    exists_flags@[k],
                ),
            repair ==> final(self)@ == keep_valid(old(self)@, exists_flags@),
    {
        let n = self.entries.len();
        let mut kept: Vec<GraphInfo> = Vec::new();
        let mut i: usize = 0;
        while i < n
            invariant
                n == self.entries.len(),
                exists_flags@.len() == n,
                i <= n,
                self@ == old(self)@,
                !repair ==> kept@.len() == i && forall|k: int|
                    0 <= k < i ==> kept@.map_values(|e: GraphInfo| e@)[k] == with_validated(
                        old(self)@[k],
                        exists_flags@[k],
                    ),
                repair ==> kept@.map_values(|e: GraphInfo| e@) == keep_valid(
                    old(self)@.take(i as int),
                    exists_flags@.take(i as int),
                ),
            decreases n - i,
        {
            let flag = exists_flags[i];
            proof {
                assert(old(self)@.take(i as int + 1).drop_last() =~= old(self)@.take(i as int));
                assert(exists_flags@.take(i as int + 1).drop_last() =~= exists_flags@.take(
                    i as int,
                ));
            }
            if flag || !repair {
                let e = &self.entries[i];
                let stamped = GraphInfo {
                    name: e.name.clone(),
                    path: e.path.clone(),
                    created_at: e.created_at.clone(),
                    last_opened: e.last_opened.clone(),
                    validated: Some(flag),
                };
                kept.push(stamped);
            }
            i = i + 1;
            proof {
                if repair {
                    assert(kept@.map_values(|e: GraphInfo| e@) =~= keep_valid(
                        old(self)@.take(i as int),
                        exists_flags@.take(i as int),
                    ));
                }
            }
        }
        proof {
            assert(old(self)@.take(n as int) =~= old(self)@);
            assert(exists_flags@.take(n as int) =~= exists_flags@);
        }
        self.entries = kept;
    }
}

} // verus!
