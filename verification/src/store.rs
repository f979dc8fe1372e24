//! The registry store's read-modify-write pipelines, phrased over the text of
//! the backing document. The caller reads the document (or reports it absent
//! with `None`), hands the text in, and writes the returned text back; every
//! decision in between is made here.

use vstd::prelude::*;
use crate::clock::now_rfc3339;
use crate::errors::Error;
use crate::json::{p_registry, registry_json};
use crate::json::lemma_registry_roundtrip;
use crate::registry::{
    GraphInfoV, GraphRegistry, first_match_idx, has_identity, keep_valid, new_entry,
    with_last_opened, with_validated,
};

verus! {

/// The entries a document's text stands for: an absent or unparseable
/// document counts as an empty registry, per the store's recovery rule.
pub open spec fn stored_entries(doc: Option<&str>) -> Seq<GraphInfoV> {
    match doc {
        Some(d) => match p_registry(d@) {
            Some(es) => es,
            None => Seq::empty(),
        },
        None => Seq::empty(),
    }
}

/// The entries after `touch`: the first identity match gets `last_opened`
/// set to `now`; without a match nothing changes.
pub open spec fn touched_entries(
    es: Seq<GraphInfoV>,
    base_path: Seq<char>,
    name: Seq<char>,
    now: Seq<char>,
) -> Seq<GraphInfoV> {
    if has_identity(es, base_path, name) {
        es.update(
            first_match_idx(es, base_path, name),
            with_last_opened(es[first_match_idx(es, base_path, name)], now),
        )
    } else {
        es
    }
}

/// The entries after a non-repairing validation: every entry stamped with its
/// existence flag.
pub open spec fn stamped_entries(es: Seq<GraphInfoV>, exists_flags: Seq<bool>) -> Seq<
    GraphInfoV,
> {
    Seq::new(es.len(), |i: int| with_validated(es[i], exists_flags[i]))
}

/// Lists the registry held in the backing document. An absent document is the
/// `NotFound` error (callers see "no registry yet" as an error, not as an
/// empty listing); text that is not a registry document is a `ParseError`.
pub fn list_from_document(doc: Option<&str>) -> (r: Result<GraphRegistry, Error>)
    ensures
        doc is None ==> r matches Err(Error::NotFound),
        doc matches Some(d) ==> match p_registry(d@) {
            Some(es) => r matches Ok(g) && g@ == es,
            None => r matches Err(Error::ParseError),
        },
{
    match doc {
        None => Err(Error::NotFound),
        Some(d) => match GraphRegistry::parse_document(d) {
            Some(g) => Ok(g),
            None => Err(Error::ParseError),
        },
    }
}

/// Appends a fresh entry, timestamped `now`, to the document's registry and
/// returns the rewritten document. An absent or unreadable document is
/// replaced by an empty registry first, so this cannot fail.
pub fn add_to_document(doc: Option<&str>, base_path: &str, name: &str, now: &str) -> (r: String)
    ensures
        r@ == registry_json(stored_entries(doc).push(new_entry(base_path@, name@, now@))),
        p_registry(r@) == Some(stored_entries(doc).push(new_entry(base_path@, name@, now@))),
{
    let mut g = match doc {
        Some(d) => GraphRegistry::from_document(d),
        None => GraphRegistry::new(),
    };
    g.add(base_path, name, now);
    let out = g.to_document();
    proof {
        lemma_registry_roundtrip(g@);
    }
    out
}

/// `add_to_document` with `now` read from the clock.
pub fn add_to_document_now(doc: Option<&str>, base_path: &str, name: &str) -> (r: String)
    ensures
        exists|t: Seq<char>|
            #![auto]
            r@ == registry_json(stored_entries(doc).push(new_entry(base_path@, name@, t)))
                && p_registry(r@) == Some(
                stored_entries(doc).push(new_entry(base_path@, name@, t)),
            ),
{
    let now = now_rfc3339();
    add_to_document(doc, base_path, name, now.as_str())
}

/// Sets `last_opened` to `now` on the document's first identity match and
/// returns the rewritten document; an absent document is the `NotFound`
/// error.
pub fn touch_document(doc: Option<&str>, base_path: &str, name: &str, now: &str) -> (r: Result<
    String,
    Error,
>)
    ensures
        doc is None ==> r matches Err(Error::NotFound),
        doc matches Some(d) ==> r matches Ok(s) && s@ == registry_json(
            touched_entries(stored_entries(doc), base_path@, name@, now@),
        ) && p_registry(s@) == Some(
            touched_entries(stored_entries(doc), base_path@, name@, now@),
        ),
{
    match doc {
        None => Err(Error::NotFound),
        Some(d) => {
            let mut g = GraphRegistry::from_document(d);
            g.touch(base_path, name, now);
            let out = g.to_document();
            proof {
                lemma_registry_roundtrip(g@);
            }
            Ok(out)
        },
    }
}

/// `touch_document` with `now` read from the clock.
pub fn touch_document_now(doc: Option<&str>, base_path: &str, name: &str) -> (r: Result<
    String,
    Error,
>)
    ensures
        doc is None ==> r matches Err(Error::NotFound),
        doc matches Some(d) ==> r matches Ok(s) && exists|t: Seq<char>|
            #![auto]
            s@ == registry_json(touched_entries(stored_entries(doc), base_path@, name@, t)),
{
    let now = now_rfc3339();
    touch_document(doc, base_path, name, now.as_str())
}

/// Removes every identity match from the document's registry and returns the
/// rewritten document; an absent document is the `NotFound` error.
pub fn remove_from_document(doc: Option<&str>, base_path: &str, name: &str) -> (r: Result<
    String,
    Error,
>)
    ensures
        doc is None ==> r matches Err(Error::NotFound),
        doc matches Some(d) ==> r matches Ok(s) && s@ == registry_json(
            crate::registry::without_identity(stored_entries(doc), base_path@, name@),
        ) && p_registry(s@) == Some(
            crate::registry::without_identity(stored_entries(doc), base_path@, name@),
        ),
{
    match doc {
        None => Err(Error::NotFound),
        Some(d) => {
            let mut g = GraphRegistry::from_document(d);
            g.remove(base_path, name);
            let out = g.to_document();
            proof {
                lemma_registry_roundtrip(g@);
            }
            Ok(out)
        },
    }
}

/// Applies a validation pass to the document's registry: entry `i` of the
/// stored registry exists on disk iff `exists_flags[i]`. Returns the
/// rewritten document; an absent document is the `NotFound` error.
pub fn validate_document(
    doc: Option<&str>,
    exists_flags: &Vec<bool>,
    repair: bool,
) -> (r: Result<String, Error>)
    requires
        exists_flags@.len() == stored_entries(doc).len(),
    ensures
        doc is None ==> r matches Err(Error::NotFound),
        doc matches Some(d) ==> r matches Ok(s) && {
            let after = if repair {
                keep_valid(stored_entries(doc), exists_flags@)
            } else {
                stamped_entries(stored_entries(doc), exists_flags@)
            };
            s@ == registry_json(after) && p_registry(s@) == Some(after)
        },
{
    match doc {
        None => Err(Error::NotFound),
        Some(d) => {
            let mut g = GraphRegistry::from_document(d);
            g.validate(exists_flags, repair);
            proof {
                if !repair {
                    assert(g@ =~= stamped_entries(stored_entries(doc), exists_flags@));
                }
            }
            let out = g.to_document();
            proof {
                lemma_registry_roundtrip(g@);
            }
            Ok(out)
        },
    }
}

} // verus!
