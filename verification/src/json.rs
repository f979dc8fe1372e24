//! The registry's document format: one JSON object `{"graphs":[...]}` whose
//! array holds one object per entry. The writer emits a compact canonical
//! form; the reader parses exactly that form, so that a document the store
//! wrote always reads back to the same sequence of entries. Any other text
//! counts as a parse failure, which mutating operations recover from by
//! substituting an empty registry.

use vstd::prelude::*;
use vstd::string::*;
use crate::registry::{GraphInfo, GraphInfoV, GraphRegistry};
use crate::strutil::{chars_string, push_str_chars, str_chars};

verus! {

/// How one character is written inside a JSON string: quotes and backslashes
/// are backslash-escaped, every other character stands as itself.
pub open spec fn esc_char(c: char) -> Seq<char> {
    if c == '"' || c == '\\' {
        seq!['\\', c]
    } else {
        seq![c]
    }
}

/// The escaped body of a JSON string holding `s`.
pub open spec fn esc(s: Seq<char>) -> Seq<char>
    decreases s.len(),
{
    if s.len() == 0 {
        Seq::empty()
    } else {
        esc_char(s[0]) + esc(s.drop_first())
    }
}

/// A JSON string literal holding `s`.
pub open spec fn quoted(s: Seq<char>) -> Seq<char> {
    seq!['"'] + esc(s) + seq!['"']
}

/// A JSON boolean.
pub open spec fn bool_json(b: bool) -> Seq<char> {
    if b {
        "true"@
    } else {
        "false"@
    }
}

/// The canonical JSON object for one registry entry. The `validated` member
/// is written only once a validation has stamped the entry.
pub open spec fn entry_json(e: GraphInfoV) -> Seq<char> {
    "{\"name\":"@ + quoted(e.name) + ",\"path\":"@ + quoted(e.path) + ",\"created_at\":"@
        + quoted(e.created_at) + ",\"last_opened\":"@ + quoted(e.last_opened) + (match e
        .validated {
        Some(b) => ",\"validated\":"@ + bool_json(b),
        None => Seq::empty(),
    }) + seq!['}']
}

/// The comma-separated array body for a sequence of entries.
pub open spec fn entries_json(s: Seq<GraphInfoV>) -> Seq<char>
    decreases s.len(),
{
    if s.len() == 0 {
        Seq::empty()
    } else if s.len() == 1 {
        entry_json(s[0])
    } else {
        entries_json(s.drop_last()) + seq![','] + entry_json(s.last())
    }
}

/// The whole canonical registry document for the entries `s`.
pub open spec fn registry_json(s: Seq<GraphInfoV>) -> Seq<char> {
    "{\"graphs\":["@ + entries_json(s) + seq![']'] + seq!['}']
}

proof fn lemma_esc_snoc(s: Seq<char>, c: char)
    ensures
        esc(s.push(c)) == esc(s) + esc_char(c),
    decreases s.len(),
{
    if s.len() == 0 {
        assert(s.push(c)[0] == c);
        assert(s.push(c).drop_first() =~= Seq::<char>::empty());
        assert(esc(s.push(c)) == esc_char(c) + esc(Seq::<char>::empty()));
        assert(esc(s.push(c)) =~= esc(s) + esc_char(c));
    } else {
        assert(s.push(c).drop_first() =~= s.drop_first().push(c));
        lemma_esc_snoc(s.drop_first(), c);
        assert(esc(s.push(c)) =~= esc(s) + esc_char(c));
    }
}

/// Appends the JSON string literal for `s` to `out`.
fn push_quoted(out: &mut Vec<char>, s: &str)
    ensures
        final(out)@ == old(out)@ + quoted(s@),
{
    out.push('"');
    let n = s.unicode_len();
    let mut i: usize = 0;
    while i < n
        invariant
            n == s@.len(),
            i <= n,
            out@ == old(out)@ + seq!['"'] + esc(s@.take(i as int)),
        decreases n - i,
    {
        let c = s.get_char(i);
        if c == '"' || c == '\\' {
            out.push('\\');
        }
        out.push(c);
        proof {
            lemma_esc_snoc(s@.take(i as int), c);
            assert(s@.take(i as int).push(c) =~= s@.take(i as int + 1));
            assert(out@ =~= old(out)@ + seq!['"'] + esc(s@.take(i as int + 1)));
        }
        i = i + 1;
    }
    out.push('"');
    proof {
        assert(s@.take(n as int) =~= s@);
        assert(out@ =~= old(out)@ + quoted(s@));
    }
}

/// Appends the canonical JSON object for `e` to `out`.
fn push_entry(out: &mut Vec<char>, e: &GraphInfo)
    ensures
        final(out)@ == old(out)@ + entry_json(e@),
{
    push_str_chars(out, "{\"name\":");
    push_quoted(out, e.name.as_str());
    push_str_chars(out, ",\"path\":");
    push_quoted(out, e.path.as_str());
    push_str_chars(out, ",\"created_at\":");
    push_quoted(out, e.created_at.as_str());
    push_str_chars(out, ",\"last_opened\":");
    push_quoted(out, e.last_opened.as_str());
    match e.validated {
        Some(b) => {
            push_str_chars(out, ",\"validated\":");
            if b {
                push_str_chars(out, "true");
            } else {
                push_str_chars(out, "false");
            }
        },
        None => {},
    }
    out.push('}');
    proof {
        assert(out@ =~= old(out)@ + entry_json(e@));
    }
}

/// Consumes the single character `c` at position `i`.
pub open spec fn p_char(s: Seq<char>, i: int, c: char) -> Option<int> {
    if 0 <= i < s.len() && s[i] == c {
        Some(i + 1)
    } else {
        None
    }
}

/// Consumes the literal `lit` starting at position `i`.
pub open spec fn p_lit(s: Seq<char>, i: int, lit: Seq<char>) -> Option<int> {
    if 0 <= i && i + lit.len() <= s.len() && s.subrange(i, i + lit.len()) == lit {
        Some(i + lit.len())
    } else {
        None
    }
}

/// Consumes the body of a JSON string after its opening quote, up to and
/// including the closing quote, yielding the unescaped characters.
pub open spec fn p_strbody(s: Seq<char>, i: int) -> Option<(Seq<char>, int)>
    decreases s.len() - i,
{
    if i < 0 || i >= s.len() {
        None
    } else if s[i] == '"' {
        Some((Seq::empty(), i + 1))
    } else if s[i] == '\\' {
        if i + 1 < s.len() && (s[i + 1] == '"' || s[i + 1] == '\\') {
            match p_strbody(s, i + 2) {
                Some(r) => Some((seq![s[i + 1]] + r.0, r.1)),
                None => None,
            }
        } else {
            None
        }
    } else {
        match p_strbody(s, i + 1) {
            Some(r) => Some((seq![s[i]] + r.0, r.1)),
            None => None,
        }
    }
}

/// Consumes a whole JSON string literal at position `i`.
pub open spec fn p_quoted(s: Seq<char>, i: int) -> Option<(Seq<char>, int)> {
    match p_char(s, i, '"') {
        Some(j) => p_strbody(s, j),
        None => None,
    }
}

/// Consumes the literal `key` followed by a JSON string value.
pub open spec fn p_field(s: Seq<char>, i: int, key: Seq<char>) -> Option<(Seq<char>, int)> {
    match p_lit(s, i, key) {
        Some(j) => p_quoted(s, j),
        None => None,
    }
}

/// Consumes a JSON boolean at position `i`.
pub open spec fn p_bool(s: Seq<char>, i: int) -> Option<(bool, int)> {
    match p_lit(s, i, "true"@) {
        Some(j) => Some((true, j)),
        None => match p_lit(s, i, "false"@) {
            Some(j) => Some((false, j)),
            None => None,
        },
    }
}

/// Consumes one entry object in its canonical member order, with the
/// `validated` member optional.
pub open spec fn p_entry(s: Seq<char>, i: int) -> Option<(GraphInfoV, int)> {
    match p_field(s, i, "{\"name\":"@) {
        None => None,
        Some((name, i1)) => match p_field(s, i1, ",\"path\":"@) {
            None => None,
            Some((path, i2)) => match p_field(s, i2, ",\"created_at\":"@) {
                None => None,
                Some((created_at, i3)) => match p_field(s, i3, ",\"last_opened\":"@) {
                    None => None,
                    Some((last_opened, i4)) => match p_char(s, i4, '}') {
                        Some(j) => Some(
                            (
                                GraphInfoV {
                                    name,
                                    path,
                                    created_at,
                                    last_opened,
                                    validated: None,
                                },
                                j,
                            ),
                        ),
                        None => match p_lit(s, i4, ",\"validated\":"@) {
                            None => None,
                            Some(i5) => match p_bool(s, i5) {
                                None => None,
                                Some((b, i6)) => match p_char(s, i6, '}') {
                                    Some(j) => Some(
                                        (
                                            GraphInfoV {
                                                name,
                                                path,
                                                created_at,
                                                last_opened,
                                                validated: Some(b),
                                            },
                                            j,
                                        ),
                                    ),
                                    None => None,
                                },
                            },
                        },
                    },
                },
            },
        },
    }
}

pub proof fn lemma_strbody_bounds(s: Seq<char>, i: int)
    ensures
        match p_strbody(s, i) {
            Some(r) => i < r.1 <= s.len(),
            None => true,
        },
    decreases s.len() - i,
{
    if i < 0 || i >= s.len() {
    } else if s[i] == '"' {
    } else if s[i] == '\\' {
        if i + 1 < s.len() && (s[i + 1] == '"' || s[i + 1] == '\\') {
            lemma_strbody_bounds(s, i + 2);
        }
    } else {
        lemma_strbody_bounds(s, i + 1);
    }
}

pub proof fn lemma_field_bounds(s: Seq<char>, i: int, key: Seq<char>)
    ensures
        match p_field(s, i, key) {
            Some(r) => i <= i + key.len() < r.1 <= s.len(),
            None => true,
        },
{
    match p_lit(s, i, key) {
        Some(j) => {
            lemma_strbody_bounds(s, j + 1);
        },
        None => {},
    }
}

pub proof fn lemma_entry_bounds(s: Seq<char>, i: int)
    ensures
        match p_entry(s, i) {
            Some(r) => i < r.1 <= s.len(),
            None => true,
        },
{
    match p_field(s, i, "{\"name\":"@) {
        None => {},
        Some((name, i1)) => {
            lemma_field_bounds(s, i, "{\"name\":"@);
            match p_field(s, i1, ",\"path\":"@) {
                None => {},
                Some((path, i2)) => {
                    lemma_field_bounds(s, i1, ",\"path\":"@);
                    match p_field(s, i2, ",\"created_at\":"@) {
                        None => {},
                        Some((created_at, i3)) => {
                            lemma_field_bounds(s, i2, ",\"created_at\":"@);
                            match p_field(s, i3, ",\"last_opened\":"@) {
                                None => {},
                                Some((last_opened, i4)) => {
                                    lemma_field_bounds(s, i3, ",\"last_opened\":"@);
                                },
                            }
                        },
                    }
                },
            }
        },
    }
}

/// Consumes a non-empty comma-separated list of entries followed by the
/// closing `]` of the array.
pub open spec fn p_entry_list(s: Seq<char>, i: int) -> Option<(Seq<GraphInfoV>, int)>
    decreases s.len() - i,
{
    match p_entry(s, i) {
        None => None,
        Some((e, j)) => if i < j <= s.len() {
            match p_char(s, j, ']') {
                Some(k) => Some((seq![e], k)),
                None => match p_char(s, j, ',') {
                    Some(j2) => match p_entry_list(s, j2) {
                        Some((rest, k)) => Some((seq![e] + rest, k)),
                        None => None,
                    },
                    None => None,
                },
            }
        } else {
            None
        },
    }
}

/// Parses a whole registry document: the `graphs` array, nothing after it.
pub open spec fn p_registry(s: Seq<char>) -> Option<Seq<GraphInfoV>> {
    match p_lit(s, 0, "{\"graphs\":["@) {
        None => None,
        Some(i) => match p_char(s, i, ']') {
            Some(j) => match p_char(s, j, '}') {
                Some(k) => if k == s.len() {
                    Some(Seq::empty())
                } else {
                    None
                },
                None => None,
            },
            None => match p_entry_list(s, i) {
                Some((es, j)) => match p_char(s, j, '}') {
                    Some(k) => if k == s.len() {
                        Some(es)
                    } else {
                        None
                    },
                    None => None,
                },
                None => None,
            },
        },
    }
}

proof fn lemma_subrange_index(s: Seq<char>, i: int, p: Seq<char>)
    requires
        0 <= i,
        i + p.len() <= s.len(),
        s.subrange(i, i + p.len()) == p,
    ensures
        forall|k: int| 0 <= k < p.len() ==> s[i + k] == p[k],
{
    assert forall|k: int| 0 <= k < p.len() implies s[i + k] == p[k] by {
        assert(s.subrange(i, i + p.len())[k] == s[i + k]);
    }
}

proof fn lemma_subrange_sub(s: Seq<char>, i: int, p: Seq<char>, a: int, b: int)
    requires
        0 <= i,
        i + p.len() <= s.len(),
        s.subrange(i, i + p.len()) == p,
        0 <= a <= b <= p.len(),
    ensures
        s.subrange(i + a, i + b) == p.subrange(a, b),
{
    lemma_subrange_index(s, i, p);
    assert(s.subrange(i + a, i + b) =~= p.subrange(a, b));
}

proof fn lemma_strbody_rt(s: Seq<char>, i: int, t: Seq<char>)
    requires
        0 <= i,
        i + esc(t).len() + 1 <= s.len(),
        s.subrange(i, i + esc(t).len() + 1) == esc(t) + seq!['"'],
    ensures
        p_strbody(s, i) == Some((t, i + esc(t).len() + 1)),
    decreases t.len(),
{
    let q = esc(t) + seq!['"'];
    lemma_subrange_index(s, i, q);
    assert(s[i + 0] == q[0]);
    if t.len() == 0 {
        assert(q[0] == '"');
        assert(s[i] == '"');
        assert(t =~= Seq::<char>::empty());
    } else {
        let c = t[0];
        let t2 = t.drop_first();
        assert(esc(t) == esc_char(c) + esc(t2));
        if c == '"' || c == '\\' {
            assert(q[0] == '\\');
            assert(s[i + 1] == q[1]);
            assert(q[1] == c);
            assert(s[i] == '\\');
            assert(s[i + 1] == c);
            assert(s.subrange(i + 2, i + 2 + esc(t2).len() + 1) =~= esc(t2) + seq!['"']) by {
                assert forall|k: int| 0 <= k < esc(t2).len() + 1 implies s.subrange(
                    i + 2,
                    i + 2 + esc(t2).len() + 1,
                )[k] == (esc(t2) + seq!['"'])[k] by {
                    assert(s[i + 2 + k] == q[2 + k]);
                }
            }
            lemma_strbody_rt(s, i + 2, t2);
            assert(seq![s[i + 1]] + t2 =~= t);
        } else {
            assert(q[0] == c);
            assert(s[i] == c);
            assert(s.subrange(i + 1, i + 1 + esc(t2).len() + 1) =~= esc(t2) + seq!['"']) by {
                assert forall|k: int| 0 <= k < esc(t2).len() + 1 implies s.subrange(
                    i + 1,
                    i + 1 + esc(t2).len() + 1,
                )[k] == (esc(t2) + seq!['"'])[k] by {
                    assert(s[i + 1 + k] == q[1 + k]);
                }
            }
            lemma_strbody_rt(s, i + 1, t2);
            assert(seq![s[i]] + t2 =~= t);
        }
    }
}

proof fn lemma_field_rt(s: Seq<char>, i: int, key: Seq<char>, t: Seq<char>)
    requires
        0 <= i,
        i + key.len() + quoted(t).len() <= s.len(),
        s.subrange(i, i + key.len() + quoted(t).len()) == key + quoted(t),
    ensures
        p_field(s, i, key) == Some((t, i + key.len() + quoted(t).len())),
{
    let p = key + quoted(t);
    lemma_subrange_index(s, i, p);
    lemma_subrange_sub(s, i, p, 0, key.len() as int);
    assert(p.subrange(0, key.len() as int) =~= key);
    let j = i + key.len();
    assert(p[key.len() as int] == quoted(t)[0]);
    assert(quoted(t)[0] == '"');
    assert(s[j] == '"');
    assert(s.subrange(j + 1, j + 1 + esc(t).len() + 1) =~= esc(t) + seq!['"']) by {
        assert forall|k: int| 0 <= k < esc(t).len() + 1 implies s.subrange(
            j + 1,
            j + 1 + esc(t).len() + 1,
        )[k] == (esc(t) + seq!['"'])[k] by {
            assert(s[j + 1 + k] == p[key.len() + 1 + k]);
            assert(p[key.len() + 1 + k] == quoted(t)[1 + k]);
        }
    }
    lemma_strbody_rt(s, j + 1, t);
}

proof fn lemma_entry_rt(s: Seq<char>, i: int, e: GraphInfoV)
    requires
        0 <= i,
        i + entry_json(e).len() <= s.len(),
        s.subrange(i, i + entry_json(e).len()) == entry_json(e),
    ensures
        p_entry(s, i) == Some((e, i + entry_json(e).len())),
{
    let p = entry_json(e);
    let f1 = "{\"name\":"@ + quoted(e.name);
    let f2 = ",\"path\":"@ + quoted(e.path);
    let f3 = ",\"created_at\":"@ + quoted(e.created_at);
    let f4 = ",\"last_opened\":"@ + quoted(e.last_opened);
    let tail = (match e.validated {
        Some(b) => ",\"validated\":"@ + bool_json(b),
        None => Seq::<char>::empty(),
    }) + seq!['}'];
    assert(p =~= f1 + f2 + f3 + f4 + tail);
    let o1 = f1.len() as int;
    let o2 = o1 + f2.len();
    let o3 = o2 + f3.len();
    let o4 = o3 + f4.len();
    lemma_subrange_index(s, i, p);
    lemma_subrange_sub(s, i, p, 0, o1);
    assert(p.subrange(0, o1) =~= f1);
    lemma_field_rt(s, i, "{\"name\":"@, e.name);
    lemma_subrange_sub(s, i, p, o1, o2);
    assert(p.subrange(o1, o2) =~= f2);
    lemma_field_rt(s, i + o1, ",\"path\":"@, e.path);
    lemma_subrange_sub(s, i, p, o2, o3);
    assert(p.subrange(o2, o3) =~= f3);
    lemma_field_rt(s, i + o2, ",\"created_at\":"@, e.created_at);
    lemma_subrange_sub(s, i, p, o3, o4);
    assert(p.subrange(o3, o4) =~= f4);
    lemma_field_rt(s, i + o3, ",\"last_opened\":"@, e.last_opened);
    match e.validated {
        None => {
            assert(p[o4] == '}');
            assert(s[i + o4] == '}');
            assert(p.len() == o4 + 1);
        },
        Some(b) => {
            reveal_strlit(",\"validated\":");
            let key = ",\"validated\":"@;
            assert(p[o4] == key[0]);
            assert(key[0] == ',');
            assert(s[i + o4] == ',');
            lemma_subrange_sub(s, i, p, o4, o4 + key.len());
            assert(p.subrange(o4, o4 + key.len()) =~= key);
            let o5 = o4 + key.len();
            reveal_strlit("true");
            reveal_strlit("false");
            if b {
                lemma_subrange_sub(s, i, p, o5, o5 + 4);
                assert(p.subrange(o5, o5 + 4) =~= "true"@);
            } else {
                assert(p[o5] == 'f');
                assert(s[i + o5] == 'f');
                if 0 <= i + o5 && i + o5 + 4 <= s.len() && s.subrange(i + o5, i + o5 + 4)
                    == "true"@ {
                    assert(s.subrange(i + o5, i + o5 + 4)[0] == s[i + o5]);
                    assert(false);
                }
                lemma_subrange_sub(s, i, p, o5, o5 + 5);
                assert(p.subrange(o5, o5 + 5) =~= "false"@);
            }
            let o6 = o5 + bool_json(b).len();
            assert(p[o6] == '}');
            assert(s[i + o6] == '}');
            assert(p.len() == o6 + 1);
        },
    }
}

proof fn lemma_entries_json_head(es: Seq<GraphInfoV>)
    requires
        es.len() >= 1,
    ensures
        entries_json(es) == if es.len() == 1 {
            entry_json(es[0])
        } else {
            entry_json(es[0]) + seq![','] + entries_json(es.drop_first())
        },
    decreases es.len(),
{
    if es.len() == 1 {
    } else {
        lemma_entries_json_head(es.drop_last());
        assert(es.drop_last()[0] == es[0]);
        if es.len() == 2 {
            assert(es.drop_first().len() == 1);
            assert(es.drop_first()[0] == es[1]);
            assert(es.drop_last().len() == 1);
            assert(es.drop_last()[0] == es[0]);
            assert(entries_json(es) =~= entry_json(es[0]) + seq![','] + entries_json(
                es.drop_first(),
            ));
        } else {
            assert(es.drop_last().drop_first() =~= es.drop_first().drop_last());
            assert(es.drop_first().last() == es.last());
            assert(es.drop_first().len() >= 2);
            assert(entries_json(es) =~= entry_json(es[0]) + seq![','] + entries_json(
                es.drop_first(),
            ));
        }
    }
}

proof fn lemma_entry_list_rt(s: Seq<char>, i: int, es: Seq<GraphInfoV>)
    requires
        es.len() >= 1,
        0 <= i,
        i + entries_json(es).len() + 1 <= s.len(),
        s.subrange(i, i + entries_json(es).len() + 1) == entries_json(es) + seq![']'],
    ensures
        p_entry_list(s, i) == Some((es, i + entries_json(es).len() + 1)),
    decreases es.len(),
{
    lemma_entries_json_head(es);
    let ej = entry_json(es[0]);
    let whole = entries_json(es) + seq![']'];
    lemma_subrange_index(s, i, whole);
    if es.len() == 1 {
        lemma_subrange_sub(s, i, whole, 0, ej.len() as int);
        assert(whole.subrange(0, ej.len() as int) =~= ej);
        lemma_entry_rt(s, i, es[0]);
        let j = i + ej.len();
        assert(s[j] == whole[ej.len() as int]);
        assert(whole[ej.len() as int] == ']');
        assert(seq![es[0]] =~= es);
    } else {
        let rest = es.drop_first();
        assert(whole =~= ej + seq![','] + (entries_json(rest) + seq![']']));
        lemma_subrange_sub(s, i, whole, 0, ej.len() as int);
        assert(whole.subrange(0, ej.len() as int) =~= ej);
        lemma_entry_rt(s, i, es[0]);
        let j = i + ej.len();
        assert(s[j] == whole[ej.len() as int]);
        assert(whole[ej.len() as int] == ',');
        let j2 = j + 1;
        lemma_subrange_sub(s, i, whole, ej.len() as int + 1, whole.len() as int);
        assert(whole.subrange(ej.len() as int + 1, whole.len() as int) =~= entries_json(rest) + seq![
            ']',
        ]);
        lemma_entry_list_rt(s, j2, rest);
        assert(seq![es[0]] + rest =~= es);
    }
}

/// The registry document format round-trips: parsing the canonical document
/// written for any sequence of entries yields exactly that sequence.
#[verifier::rlimit(100)]
pub proof fn lemma_registry_roundtrip(es: Seq<GraphInfoV>)
    ensures
        p_registry(registry_json(es)) == Some(es),
{
    let s = registry_json(es);
    let open = "{\"graphs\":["@;
    let l = open.len() as int;
    assert(s.subrange(0, l) =~= open);
    if es.len() == 0 {
        assert(entries_json(es) == Seq::<char>::empty());
        assert(s[l] == ']');
        assert(s[l + 1] == '}');
        assert(s.len() == l + 2);
    } else {
        lemma_entries_json_head(es);
        reveal_strlit("{\"name\":");
        assert(entry_json(es[0])[0] == "{\"name\":"@[0]);
        assert(entries_json(es)[0] == entry_json(es[0])[0]);
        assert(s[l] == '{');
        assert(s.subrange(l, l + entries_json(es).len() + 1) =~= entries_json(es) + seq![']']);
        lemma_entry_list_rt(s, l, es);
        let j = l + entries_json(es).len() + 1;
        assert(s[j] == '}');
        assert(s.len() == j + 1);
    }
}

fn e_lit(v: &Vec<char>, i: usize, key: &str) -> (r: Option<usize>)
    ensures
        match r {
            Some(j) => p_lit(v@, i as int, key@) == Some(j as int),
            None => p_lit(v@, i as int, key@) is None,
        },
{
    let kl = key.unicode_len();
    if i > v.len() || kl > v.len() - i {
        return None;
    }
    let mut k: usize = 0;
    while k < kl
        invariant
            kl == key@.len(),
            i + kl <= v@.len(),
            v@.len() <= usize::MAX,
            k <= kl,
            forall|m: int| 0 <= m < k ==> v@[i + m] == key@[m],
        decreases kl - k,
    {
        if v[i + k] != key.get_char(k) {
            proof {
                if v@.subrange(i as int, i as int + key@.len()) == key@ {
                    assert(v@.subrange(i as int, i as int + key@.len())[k as int] == v@[i + k]);
                }
            }
            return None;
        }
        k = k + 1;
    }
    proof {
        assert(v@.subrange(i as int, i as int + key@.len()) =~= key@);
    }
    Some(i + kl)
}

fn e_strbody(v: &Vec<char>, i: usize) -> (r: Option<(Vec<char>, usize)>)
    requires
        i <= v@.len(),
    ensures
        match r {
            Some(t) => p_strbody(v@, i as int) == Some((t.0@, t.1 as int)),
            None => p_strbody(v@, i as int) is None,
        },
{
    let mut acc: Vec<char> = Vec::new();
    let mut k: usize = i;
    loop
        invariant
            i <= k <= v@.len(),
            p_strbody(v@, i as int) == match p_strbody(v@, k as int) {
                Some(r) => Some((acc@ + r.0, r.1)),
                None => None,
            },
        decreases v@.len() - k,
    {
        if k >= v.len() {
            return None;
        }
        let c = v[k];
        if c == '"' {
            proof {
                assert(acc@ + Seq::<char>::empty() =~= acc@);
            }
            return Some((acc, k + 1));
        }
        if c == '\\' {
            if k + 1 >= v.len() {
                return None;
            }
            let c2 = v[k + 1];
            if c2 == '"' || c2 == '\\' {
                proof {
                    assert forall|t: Seq<char>| acc@ + (seq![c2] + t) == acc@.push(c2) + t by {
                        assert(acc@ + (seq![c2] + t) =~= acc@.push(c2) + t);
                    }
                }
                acc.push(c2);
                k = k + 2;
            } else {
                return None;
            }
        } else {
            proof {
                assert forall|t: Seq<char>| acc@ + (seq![c] + t) == acc@.push(c) + t by {
                    assert(acc@ + (seq![c] + t) =~= acc@.push(c) + t);
                }
            }
            acc.push(c);
            k = k + 1;
        }
    }
}

fn e_field(v: &Vec<char>, i: usize, key: &str) -> (r: Option<(Vec<char>, usize)>)
    ensures
        match r {
            Some(t) => p_field(v@, i as int, key@) == Some((t.0@, t.1 as int)),
            None => p_field(v@, i as int, key@) is None,
        },
{
    let j = match e_lit(v, i, key) {
        None => {
            return None;
        },
        Some(j) => j,
    };
    if j >= v.len() || v[j] != '"' {
        return None;
    }
    e_strbody(v, j + 1)
}

fn e_bool(v: &Vec<char>, i: usize) -> (r: Option<(bool, usize)>)
    ensures
        match r {
            Some(t) => p_bool(v@, i as int) == Some((t.0, t.1 as int)),
            None => p_bool(v@, i as int) is None,
        },
{
    match e_lit(v, i, "true") {
        Some(j) => Some((true, j)),
        None => match e_lit(v, i, "false") {
            Some(j) => Some((false, j)),
            None => None,
        },
    }
}

fn e_entry(v: &Vec<char>, i: usize) -> (r: Option<(GraphInfo, usize)>)
    ensures
        match r {
            Some(t) => p_entry(v@, i as int) == Some((t.0@, t.1 as int)),
            None => p_entry(v@, i as int) is None,
        },
{
    let name = match e_field(v, i, "{\"name\":") {
        None => {
            return None;
        },
        Some(x) => x,
    };
    let path = match e_field(v, name.1, ",\"path\":") {
        None => {
            return None;
        },
        Some(x) => x,
    };
    let created_at = match e_field(v, path.1, ",\"created_at\":") {
        None => {
            return None;
        },
        Some(x) => x,
    };
    let last_opened = match e_field(v, created_at.1, ",\"last_opened\":") {
        None => {
            return None;
        },
        Some(x) => x,
    };
    let i4 = last_opened.1;
    if i4 < v.len() && v[i4] == '}' {
        let e = GraphInfo {
            name: chars_string(&name.0),
            path: chars_string(&path.0),
            created_at: chars_string(&created_at.0),
            last_opened: chars_string(&last_opened.0),
            validated: None,
        };
        return Some((e, i4 + 1));
    }
    let i5 = match e_lit(v, i4, ",\"validated\":") {
        None => {
            return None;
        },
        Some(j) => j,
    };
    let b = match e_bool(v, i5) {
        None => {
            return None;
        },
        Some(x) => x,
    };
    let i6 = b.1;
    if i6 < v.len() && v[i6] == '}' {
        let e = GraphInfo {
            name: chars_string(&name.0),
            path: chars_string(&path.0),
            created_at: chars_string(&created_at.0),
            last_opened: chars_string(&last_opened.0),
            validated: Some(b.0),
        };
        return Some((e, i6 + 1));
    }
    None
}

fn e_entry_list(v: &Vec<char>, i: usize) -> (r: Option<(Vec<GraphInfo>, usize)>)
    ensures
        match r {
            Some(t) => p_entry_list(v@, i as int) == Some(
                (t.0@.map_values(|e: GraphInfo| e@), t.1 as int),
            ),
            None => p_entry_list(v@, i as int) is None,
        },
{
    let mut acc: Vec<GraphInfo> = Vec::new();
    let mut k: usize = i;
    proof {
        assert(acc@.map_values(|e: GraphInfo| e@) =~= Seq::<GraphInfoV>::empty());
    }
    loop
        invariant
            i <= k,
            k <= v@.len() || k == i,
            match p_entry_list(v@, k as int) {
                Some(r) => p_entry_list(v@, i as int) == Some(
                    (acc@.map_values(|e: GraphInfo| e@) + r.0, r.1),
                ),
                None => p_entry_list(v@, i as int) is None,
            },
        decreases v@.len() - k,
    {
        let ent = match e_entry(v, k) {
            None => {
                return None;
            },
            Some(x) => x,
        };
        let j = ent.1;
        proof {
            lemma_entry_bounds(v@, k as int);
        }
        let ghost accv = acc@.map_values(|e: GraphInfo| e@);
        if j < v.len() && v[j] == ']' {
            acc.push(ent.0);
            proof {
                assert(p_entry_list(v@, k as int) == Some((seq![ent.0@], j as int + 1)));
                assert(acc@.map_values(|e: GraphInfo| e@) =~= accv.push(ent.0@));
                assert(accv + seq![ent.0@] =~= accv.push(ent.0@));
            }
            return Some((acc, j + 1));
        }
        if j < v.len() && v[j] == ',' {
            proof {
                let j2 = j as int + 1;
                if p_entry_list(v@, j2) is Some {
                    let rr = choose|rr: (Seq<GraphInfoV>, int)| p_entry_list(v@, j2) == Some(rr);
                    assert(p_entry_list(v@, k as int) == Some((seq![ent.0@] + rr.0, rr.1)));
                    assert(accv + (seq![ent.0@] + rr.0) =~= accv.push(ent.0@) + rr.0);
                } else {
                    assert(p_entry_list(v@, k as int) is None);
                }
            }
            acc.push(ent.0);
            proof {
                assert(acc@.map_values(|e: GraphInfo| e@) =~= accv.push(ent.0@));
            }
            k = j + 1;
        } else {
            proof {
                assert(p_entry_list(v@, k as int) is None);
            }
            return None;
        }
    }
}

impl GraphRegistry {
    /// Writes the registry as its canonical JSON document.
    pub fn to_document(&self) -> (s: String)
        ensures
            s@ == registry_json(self@),
    {
        let mut out: Vec<char> = Vec::new();
        push_str_chars(&mut out, "{\"graphs\":[");
        let n = self.entries.len();
        let mut i: usize = 0;
        while i < n
            invariant
                n == self.entries.len(),
                i <= n,
                out@ == "{\"graphs\":["@ + entries_json(self@.take(i as int)),
            decreases n - i,
        {
            if i > 0 {
                out.push(',');
            }
            push_entry(&mut out, &self.entries[i]);
            proof {
                let t = self@.take(i as int + 1);
                assert(t.drop_last() =~= self@.take(i as int));
                assert(t.last() == self@[i as int]);
                assert(out@ =~= "{\"graphs\":["@ + entries_json(self@.take(i as int + 1)));
            }
            i = i + 1;
        }
        out.push(']');
        out.push('}');
        proof {
            assert(self@.take(n as int) =~= self@);
            assert(out@ =~= registry_json(self@));
        }
        chars_string(&out)
    }

    /// Parses a registry document in the canonical form `to_document` writes.
    pub fn parse_document(doc: &str) -> (r: Option<GraphRegistry>)
        ensures
            match p_registry(doc@) {
                Some(es) => r matches Some(g) && g@ == es,
                None => r is None,
            },
    {
        let v = str_chars(doc);
        let i = match e_lit(&v, 0, "{\"graphs\":[") {
            None => {
                return None;
            },
            Some(i) => i,
        };
        if i < v.len() && v[i] == ']' {
            if i + 1 < v.len() && v[i + 1] == '}' && i + 2 == v.len() {
                let g = GraphRegistry { entries: Vec::new() };
                proof {
                    assert(g@ =~= Seq::<GraphInfoV>::empty());
                }
                return Some(g);
            }
            return None;
        }
        let el = match e_entry_list(&v, i) {
            None => {
                return None;
            },
            Some(x) => x,
        };
        let j = el.1;
        if j < v.len() && v[j] == '}' && j + 1 == v.len() {
            return Some(GraphRegistry { entries: el.0 });
        }
        None
    }

    /// Reads a registry from the backing document's text, substituting an
    /// empty registry when the text is not a registry document.
    pub fn from_document(doc: &str) -> (r: GraphRegistry)
        ensures
            match p_registry(doc@) {
                Some(es) => r@ == es,
                None => r@ == Seq::<GraphInfoV>::empty(),
            },
    {
        match GraphRegistry::parse_document(doc) {
            Some(g) => g,
            None => GraphRegistry::new(),
        }
    }
}

} // verus!
