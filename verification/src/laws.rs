//! The registry's governing laws, stated over the same spec functions the
//! operations' contracts use.

use vstd::prelude::*;
use crate::registry::{
    GraphInfoV, first_match_idx, has_identity, identity_matches, keep_valid,
    lemma_first_match_idx, new_entry, with_last_opened, without_identity,
};
use crate::store::{stamped_entries, touched_entries};

verus! {

/// Lexicographic order on text, under which RFC 3339 UTC timestamps order by
/// time.
pub open spec fn str_le(a: Seq<char>, b: Seq<char>) -> bool
    decreases a.len(),
{
    if a.len() == 0 {
        true
    } else if b.len() == 0 {
        false
    } else if (a[0] as int) < (b[0] as int) {
        true
    } else if (a[0] as int) > (b[0] as int) {
        false
    } else {
        str_le(a.drop_first(), b.drop_first())
    }
}

/// The number of set flags.
pub open spec fn count_true(f: Seq<bool>) -> int
    decreases f.len(),
{
    if f.len() == 0 {
        0
    } else {
        count_true(f.drop_last()) + if f.last() {
            1int
        } else {
            0int
        }
    }
}

/// `add` followed by `list` shows an entry with the given identity whose
/// `created_at` equals its `last_opened`, at the end of the listing; the
/// entries already present are untouched.
pub proof fn law_add_then_list(
    es: Seq<GraphInfoV>,
    base_path: Seq<char>,
    name: Seq<char>,
    now: Seq<char>,
)
    ensures
        es.push(new_entry(base_path, name, now)).len() == es.len() + 1,
        identity_matches(es.push(new_entry(base_path, name, now)).last(), base_path, name),
        es.push(new_entry(base_path, name, now)).last().created_at == es.push(
            new_entry(base_path, name, now),
        ).last().last_opened,
        has_identity(es.push(new_entry(base_path, name, now)), base_path, name),
        forall|k: int|
            0 <= k < es.len() ==> es.push(new_entry(base_path, name, now))[k] == es[k],
{
    let r = es.push(new_entry(base_path, name, now));
    assert(r[es.len() as int] == new_entry(base_path, name, now));
    assert(identity_matches(r[es.len() as int], base_path, name));
}

/// `touch` moves the first identity match's `last_opened` to `now` — never
/// backwards when `now` is at or past the old value — leaves its `created_at`
/// and identity alone, and leaves every other entry untouched; without a
/// match it changes nothing.
pub proof fn law_touch_updates_last_opened(
    es: Seq<GraphInfoV>,
    base_path: Seq<char>,
    name: Seq<char>,
    now: Seq<char>,
)
    ensures
        touched_entries(es, base_path, name, now).len() == es.len(),
        !has_identity(es, base_path, name) ==> touched_entries(es, base_path, name, now) == es,
        has_identity(es, base_path, name) ==> ({
            let fm = first_match_idx(es, base_path, name);
            let after = touched_entries(es, base_path, name, now);
            &&& after[fm].last_opened == now
            &&& after[fm].created_at == es[fm].created_at
            &&& after[fm].name == es[fm].name
            &&& after[fm].path == es[fm].path
            &&& (str_le(es[fm].last_opened, now) ==> str_le(
                es[fm].last_opened,
                after[fm].last_opened,
            ))
            &&& forall|k: int| 0 <= k < es.len() && k != fm ==> after[k] == es[k]
        }),
{
    lemma_first_match_idx(es, base_path, name);
}

/// `remove` leaves no entry with the removed identity and keeps every
/// unrelated entry.
pub proof fn law_remove_removes_identity(
    es: Seq<GraphInfoV>,
    base_path: Seq<char>,
    name: Seq<char>,
)
    ensures
        forall|k: int|
            0 <= k < without_identity(es, base_path, name).len() ==> !identity_matches(
                without_identity(es, base_path, name)[k],
                base_path,
                name,
            ),
        !has_identity(without_identity(es, base_path, name), base_path, name),
        forall|k: int|
            0 <= k < es.len() && !identity_matches(es[k], base_path, name)
                ==> without_identity(es, base_path, name).contains(es[k]),
    decreases es.len(),
{
    reveal(Seq::filter);
    let w = without_identity(es, base_path, name);
    if es.len() == 0 {
        assert(w =~= Seq::<GraphInfoV>::empty());
    } else {
        law_remove_removes_identity(es.drop_last(), base_path, name);
        let wd = without_identity(es.drop_last(), base_path, name);
        let last = es.last();
        if !identity_matches(last, base_path, name) {
            assert(w == wd.push(last));
            assert forall|k: int|
                0 <= k < es.len() && !identity_matches(es[k], base_path, name) implies w.contains(
                es[k],
            ) by {
                if k < es.len() - 1 {
                    assert(es.drop_last()[k] == es[k]);
                    assert(wd.contains(es[k]));
                    let i = choose|i: int| 0 <= i < wd.len() && wd[i] == es[k];
                    assert(w[i] == es[k]);
                } else {
                    assert(w.last() == es[k]);
                }
            }
        } else {
            assert(w == wd);
            assert forall|k: int|
                0 <= k < es.len() && !identity_matches(es[k], base_path, name) implies w.contains(
                es[k],
            ) by {
                assert(k < es.len() - 1);
                assert(es.drop_last()[k] == es[k]);
            }
        }
    }
}

/// A non-repairing validation never changes the entry count and only stamps
/// the flags; a repairing one keeps exactly the entries whose workspace
/// exists — as many as there are set flags — each stamped validated.
pub proof fn law_validate(es: Seq<GraphInfoV>, exists_flags: Seq<bool>)
    requires
        es.len() == exists_flags.len(),
    ensures
        stamped_entries(es, exists_flags).len() == es.len(),
        forall|k: int|
            0 <= k < es.len() ==> {
                &&& stamped_entries(es, exists_flags)[k].validated == Some(exists_flags[k])
                &&& stamped_entries(es, exists_flags)[k].name == es[k].name
                &&& stamped_entries(es, exists_flags)[k].path == es[k].path
                &&& stamped_entries(es, exists_flags)[k].created_at == es[k].created_at
                &&& stamped_entries(es, exists_flags)[k].last_opened == es[k].last_opened
            },
        keep_valid(es, exists_flags).len() == count_true(exists_flags),
        forall|k: int|
            0 <= k < keep_valid(es, exists_flags).len() ==> keep_valid(es, exists_flags)[
                k
            ].validated == Some(true),
    decreases es.len(),
{
    if es.len() == 0 {
    } else {
        law_validate(es.drop_last(), exists_flags.drop_last());
        let kd = keep_valid(es.drop_last(), exists_flags.drop_last());
        if exists_flags[es.len() - 1] {
            assert(keep_valid(es, exists_flags) == kd.push(
                crate::registry::with_validated(es.last(), true),
            ));
        }
    }
}

} // verus!
