//! A JSON document as plain values, with the indexing semantics of
//! `serde_json::Value`: reading a missing key gives `null`, and writing a key
//! through a `null` turns it into an object first.

use vstd::prelude::*;

verus! {

#[verifier::external_type_specification]
#[verifier::external_body]
pub struct ExSerdeNumber(serde_json::Number);

/// A JSON value. Numbers are `serde_json`'s own, carried through unread;
/// object members keep the order in which `serde_json` handed them over or
/// they were inserted.
#[derive(Debug, PartialEq)]
pub enum JsonValue {
    Null,
    Bool(bool),
    Number(serde_json::Number),
    Str(String),
    Array(Vec<JsonValue>),
    Object(Vec<(String, JsonValue)>),
}

/// The mathematical model of a [`JsonValue`].
pub enum JsonView {
    Null,
    Bool(bool),
    Number(serde_json::Number),
    Str(Seq<char>),
    Array(Seq<JsonView>),
    Object(Seq<(Seq<char>, JsonView)>),
}

pub open spec fn view_value(j: JsonValue) -> JsonView
    decreases j, 0int,
{
    match j {
        JsonValue::Null => JsonView::Null,
        JsonValue::Bool(b) => JsonView::Bool(b),
        JsonValue::Number(n) => JsonView::Number(n),
        JsonValue::Str(s) => JsonView::Str(s@),
        JsonValue::Array(items) => {
            proof {
                assert(decreases_to!(items => items@));
            }
            JsonView::Array(view_items(items@))
        },
        JsonValue::Object(entries) => {
            proof {
                assert(decreases_to!(entries => entries@));
            }
            JsonView::Object(view_entries(entries@))
        },
    }
}

pub open spec fn view_items(s: Seq<JsonValue>) -> Seq<JsonView>
    decreases s, 0int,
{
    if s.len() == 0 {
        Seq::empty()
    } else {
        proof {
            assert(decreases_to!(s => s[s.len() - 1]));
            assert(decreases_to!(s => s.subrange(0, s.len() - 1)));
        }
        view_items(s.subrange(0, s.len() - 1)).push(view_value(s[s.len() - 1]))
    }
}

pub open spec fn view_entries(s: Seq<(String, JsonValue)>) -> Seq<(Seq<char>, JsonView)>
    decreases s, 0int,
{
    if s.len() == 0 {
        Seq::empty()
    } else {
        proof {
            assert(decreases_to!(s => s[s.len() - 1]));
            assert(decreases_to!(s => s.subrange(0, s.len() - 1)));
        }
        view_entries(s.subrange(0, s.len() - 1)).push(
            (s[s.len() - 1].0@, view_value(s[s.len() - 1].1)),
        )
    }
}

impl View for JsonValue {
    type V = JsonView;

    open spec fn view(&self) -> JsonView {
        view_value(*self)
    }
}


/// The model of a sequence of values is the sequence of their models.
pub proof fn lemma_view_items(s: Seq<JsonValue>)
    ensures
        view_items(s).len() == s.len(),
        forall|i: int| 0 <= i < s.len() ==> #[trigger] view_items(s)[i] == view_value(s[i]),
    decreases s.len(),
{
    if s.len() > 0 {
        lemma_view_items(s.subrange(0, s.len() - 1));
    }
}

/// The model of a sequence of members is the sequence of their models.
pub proof fn lemma_view_entries(s: Seq<(String, JsonValue)>)
    ensures
        view_entries(s).len() == s.len(),
        forall|i: int|
            0 <= i < s.len() ==> #[trigger] view_entries(s)[i] == (s[i].0@, view_value(s[i].1)),
    decreases s.len(),
{
    if s.len() > 0 {
        lemma_view_entries(s.subrange(0, s.len() - 1));
    }
}

pub proof fn lemma_view_items_push(s: Seq<JsonValue>, x: JsonValue)
    ensures
        view_items(s.push(x)) == view_items(s).push(view_value(x)),
{
    assert(s.push(x).subrange(0, s.len() as int) =~= s);
}

pub proof fn lemma_view_entries_push(s: Seq<(String, JsonValue)>, e: (String, JsonValue))
    ensures
        view_entries(s.push(e)) == view_entries(s).push((e.0@, view_value(e.1))),
{
    assert(s.push(e).subrange(0, s.len() as int) =~= s);
}

pub proof fn lemma_view_entries_update(s: Seq<(String, JsonValue)>, i: int, e: (String, JsonValue))
    requires
        0 <= i < s.len(),
    ensures
        view_entries(s.update(i, e)) == view_entries(s).update(i, (e.0@, view_value(e.1))),
{
    lemma_view_entries(s);
    lemma_view_entries(s.update(i, e));
    assert(view_entries(s.update(i, e)) =~= view_entries(s).update(i, (e.0@, view_value(e.1))));
}

/// The keys of an object's members, in order.
pub open spec fn keys_of(es: Seq<(Seq<char>, JsonView)>) -> Seq<Seq<char>> {
    es.map_values(|e: (Seq<char>, JsonView)| e.0)
}

/// `i` is the first position of `k` in `ks`.
pub open spec fn is_first(ks: Seq<Seq<char>>, k: Seq<char>, i: int) -> bool {
    &&& 0 <= i < ks.len()
    &&& ks[i] == k
    &&& forall|j: int| 0 <= j < i ==> ks[j] != k
}

/// The first position of `k` in `ks`, or -1 where `k` does not occur.
pub open spec fn first_index(ks: Seq<Seq<char>>, k: Seq<char>) -> int {
    if exists|i: int| is_first(ks, k, i) {
        choose|i: int| is_first(ks, k, i)
    } else {
        -1
    }
}

proof fn lemma_first_exists(ks: Seq<Seq<char>>, k: Seq<char>, i: int)
    requires
        0 <= i < ks.len(),
        ks[i] == k,
    ensures
        exists|f: int| is_first(ks, k, f),
    decreases i,
{
    if exists|j: int| 0 <= j < i && ks[j] == k {
        let j = choose|j: int| 0 <= j < i && ks[j] == k;
        lemma_first_exists(ks, k, j);
    } else {
        assert(is_first(ks, k, i));
    }
}

pub proof fn lemma_first_index(ks: Seq<Seq<char>>, k: Seq<char>)
    ensures
        first_index(ks, k) == -1 <==> !ks.contains(k),
        first_index(ks, k) != -1 ==> is_first(ks, k, first_index(ks, k)),
        forall|i: int| is_first(ks, k, i) ==> first_index(ks, k) == i,
{
    if ks.contains(k) {
        let i = choose|i: int| 0 <= i < ks.len() && ks[i] == k;
        lemma_first_exists(ks, k, i);
    }
    assert forall|i: int| is_first(ks, k, i) implies first_index(ks, k) == i by {
        let f = first_index(ks, k);
        assert(is_first(ks, k, f));
        if f < i {
            assert(ks[f] != k);
        } else if i < f {
            assert(ks[i] != k);
        }
    }
}

/// `j[k]` as `serde_json` reads it: the member's value, or `null` where `j`
/// is no object or has no member `k`.
pub open spec fn get(j: JsonView, k: Seq<char>) -> JsonView {
    match j {
        JsonView::Object(es) => {
            let p = first_index(keys_of(es), k);
            if p >= 0 {
                es[p].1
            } else {
                JsonView::Null
            }
        },
        _ => JsonView::Null,
    }
}

/// `j[k] = v` as `serde_json` writes it on an object or on `null` (which
/// becomes an empty object first): the member is replaced in place, or
/// appended when absent.
pub open spec fn set_key(j: JsonView, k: Seq<char>, v: JsonView) -> JsonView {
    match j {
        JsonView::Object(es) => {
            let p = first_index(keys_of(es), k);
            if p >= 0 {
                JsonView::Object(es.update(p, (k, v)))
            } else {
                JsonView::Object(es.push((k, v)))
            }
        },
        _ => JsonView::Object(seq![(k, v)]),
    }
}

/// `j` is an object or `null`: a key can be written into it.
pub open spec fn is_writable(j: JsonView) -> bool {
    j is Null || j is Object
}

/// Reading the chain of keys `path` from `j`.
pub open spec fn lookup(j: JsonView, path: Seq<Seq<char>>) -> JsonView
    decreases path.len(),
{
    if path.len() == 0 {
        j
    } else {
        lookup(get(j, path[0]), path.drop_first())
    }
}

/// Writing through the chain of keys `path` in `j` does not meet a value
/// that is neither an object nor `null`.
pub open spec fn settable(j: JsonView, path: Seq<Seq<char>>) -> bool
    decreases path.len(),
{
    if path.len() == 0 {
        true
    } else {
        is_writable(j) && settable(get(j, path[0]), path.drop_first())
    }
}

/// `j[path[0]][path[1]]... = v`.
pub open spec fn set_path(j: JsonView, path: Seq<Seq<char>>, v: JsonView) -> JsonView
    decreases path.len(),
{
    if path.len() == 0 {
        v
    } else {
        set_key(j, path[0], set_path(get(j, path[0]), path.drop_first(), v))
    }
}

/// Every key of `path` is present along the way.
pub open spec fn has_path(j: JsonView, path: Seq<Seq<char>>) -> bool
    decreases path.len(),
{
    if path.len() == 0 {
        true
    } else {
        &&& j is Object
        &&& keys_of(j->Object_0).contains(path[0])
        &&& has_path(get(j, path[0]), path.drop_first())
    }
}

/// The model of a list of keys.
pub open spec fn keys_view(path: Seq<String>) -> Seq<Seq<char>> {
    path.map_values(|s: String| s@)
}

/// The first member of `entries` whose key is `key`.
pub fn find_key(entries: &Vec<(String, JsonValue)>, key: &String) -> (r: Option<usize>)
    ensures
        match r {
            Some(i) => i == first_index(keys_of(view_entries(entries@)), key@),
            None => first_index(keys_of(view_entries(entries@)), key@) == -1,
        },
{
    let ghost ks = keys_of(view_entries(entries@));
    proof {
        lemma_view_entries(entries@);
        lemma_first_index(ks, key@);
    }
    let mut i: usize = 0;
    while i < entries.len()
        invariant
            i <= entries.len(),
            ks == keys_of(view_entries(entries@)),
            ks.len() == entries@.len(),
            forall|j: int| 0 <= j < entries@.len() ==> #[trigger] ks[j] == entries@[j].0@,
            forall|j: int| 0 <= j < i ==> ks[j] != key@,
            first_index(ks, key@) == -1 <==> !ks.contains(key@),
            forall|f: int| is_first(ks, key@, f) ==> first_index(ks, key@) == f,
        decreases entries.len() - i,
    {
        if entries[i].0 == *key {
            assert(is_first(ks, key@, i as int));
            return Some(i);
        }
        i += 1;
    }
    assert(!ks.contains(key@));
    None
}


proof fn lemma_first_index_push(ks: Seq<Seq<char>>, k: Seq<char>, k2: Seq<char>)
    ensures
        k2 != k ==> first_index(ks.push(k), k2) == first_index(ks, k2),
        !ks.contains(k) ==> first_index(ks.push(k), k) == ks.len(),
{
    lemma_first_index(ks, k2);
    lemma_first_index(ks.push(k), k2);
    lemma_first_index(ks.push(k), k);
    if k2 != k {
        if ks.contains(k2) {
            assert(is_first(ks.push(k), k2, first_index(ks, k2)));
        } else {
            assert(!ks.push(k).contains(k2)) by {
                if ks.push(k).contains(k2) {
                    let i = choose|i: int| 0 <= i < ks.len() + 1 && ks.push(k)[i] == k2;
                    assert(ks[i] == k2);
                }
            }
        }
    }
    if !ks.contains(k) {
        assert(is_first(ks.push(k), k, ks.len() as int));
    }
}

/// Reading a member after writing one: the written value under the written
/// key, the old value under any other key.
pub proof fn lemma_get_set_key(j: JsonView, k: Seq<char>, v: JsonView, k2: Seq<char>)
    requires
        is_writable(j),
    ensures
        get(set_key(j, k, v), k2) == (if k2 == k { v } else { get(j, k2) }),
        set_key(j, k, v) is Object,
        keys_of(set_key(j, k, v)->Object_0).contains(k),
        j is Object ==> forall|k3: Seq<char>|
            keys_of(j->Object_0).contains(k3) ==> #[trigger] keys_of(
                set_key(j, k, v)->Object_0,
            ).contains(k3),
{
    match j {
        JsonView::Object(es) => {
            let ks = keys_of(es);
            let p = first_index(ks, k);
            lemma_first_index(ks, k);
            lemma_first_index(ks, k2);
            if p >= 0 {
                let es2 = es.update(p, (k, v));
                assert(keys_of(es2) =~= ks);
                if k2 != k {
                    let q = first_index(ks, k2);
                    if q >= 0 {
                        assert(q != p);
                    }
                }
                assert(keys_of(es2).contains(k)) by {
                    assert(keys_of(es2)[p] == k);
                }
            } else {
                let es2 = es.push((k, v));
                assert(keys_of(es2) =~= ks.push(k));
                lemma_first_index_push(ks, k, k2);
                assert(keys_of(es2)[ks.len() as int] == k);
                assert forall|k3: Seq<char>| ks.contains(k3) implies #[trigger] keys_of(
                    es2,
                ).contains(k3) by {
                    let i = choose|i: int| 0 <= i < ks.len() && ks[i] == k3;
                    assert(keys_of(es2)[i] == k3);
                }
            }
        },
        _ => {
            let es2 = seq![(k, v)];
            assert(keys_of(es2) =~= seq![k]);
            lemma_first_index(seq![k], k2);
            lemma_first_index(seq![k], k);
            assert(is_first(seq![k], k, 0));
            assert(keys_of(es2)[0] == k);
            if k2 != k {
                assert(!seq![k].contains(k2)) by {
                    if seq![k].contains(k2) {
                        let i = choose|i: int| 0 <= i < 1 && seq![k][i] == k2;
                    }
                }
            }
        },
    }
}

/// Writing back a member's own value leaves an object unchanged.
pub proof fn lemma_set_key_same(j: JsonView, k: Seq<char>)
    requires
        j is Object,
        keys_of(j->Object_0).contains(k),
    ensures
        set_key(j, k, get(j, k)) == j,
{
    let es = j->Object_0;
    let ks = keys_of(es);
    lemma_first_index(ks, k);
    let p = first_index(ks, k);
    assert(ks[p] == k);
    assert(es.update(p, (k, es[p].1)) =~= es);
}

/// Every path can be written through `null`.
pub proof fn lemma_settable_null(path: Seq<Seq<char>>)
    ensures
        settable(JsonView::Null, path),
    decreases path.len(),
{
    if path.len() > 0 {
        lemma_settable_null(path.drop_first());
    }
}

/// A path that is present can be written.
pub proof fn lemma_has_path_settable(j: JsonView, path: Seq<Seq<char>>)
    requires
        has_path(j, path),
    ensures
        settable(j, path),
    decreases path.len(),
{
    if path.len() > 0 {
        lemma_has_path_settable(get(j, path[0]), path.drop_first());
    }
}

/// After writing `v` at `path`, reading `path` gives `v`, and the path is present.
pub proof fn lemma_lookup_set_path(j: JsonView, path: Seq<Seq<char>>, v: JsonView)
    requires
        settable(j, path),
    ensures
        lookup(set_path(j, path, v), path) == v,
        has_path(set_path(j, path, v), path),
    decreases path.len(),
{
    if path.len() > 0 {
        let k = path[0];
        let child = set_path(get(j, k), path.drop_first(), v);
        lemma_lookup_set_path(get(j, k), path.drop_first(), v);
        lemma_get_set_key(j, k, child, k);
    }
}

/// Writing back the value found at a present path leaves a value unchanged.
pub proof fn lemma_set_path_lookup(j: JsonView, path: Seq<Seq<char>>)
    requires
        has_path(j, path),
    ensures
        set_path(j, path, lookup(j, path)) == j,
    decreases path.len(),
{
    if path.len() > 0 {
        let k = path[0];
        lemma_set_path_lookup(get(j, k), path.drop_first());
        lemma_set_key_same(j, k);
    }
}


/// No key occurs twice.
pub open spec fn keys_distinct(ks: Seq<Seq<char>>) -> bool {
    forall|i: int, j: int| 0 <= i < j < ks.len() ==> ks[i] != ks[j]
}

/// A JSON value as `serde_json` holds one: the members of each object have
/// distinct keys.
pub open spec fn json_wf(j: JsonView) -> bool
    decreases j, 0int,
{
    match j {
        JsonView::Array(items) => items_wf(items),
        JsonView::Object(es) => keys_distinct(keys_of(es)) && members_wf(es),
        _ => true,
    }
}

pub open spec fn items_wf(s: Seq<JsonView>) -> bool
    decreases s, 0int,
{
    if s.len() == 0 {
        true
    } else {
        proof {
            assert(decreases_to!(s => s[s.len() - 1]));
            assert(decreases_to!(s => s.subrange(0, s.len() - 1)));
        }
        items_wf(s.subrange(0, s.len() - 1)) && json_wf(s[s.len() - 1])
    }
}

pub open spec fn members_wf(s: Seq<(Seq<char>, JsonView)>) -> bool
    decreases s, 0int,
{
    if s.len() == 0 {
        true
    } else {
        proof {
            assert(decreases_to!(s => s[s.len() - 1]));
            assert(decreases_to!(s => s.subrange(0, s.len() - 1)));
        }
        members_wf(s.subrange(0, s.len() - 1)) && json_wf(s[s.len() - 1].1)
    }
}

pub proof fn lemma_items_wf(s: Seq<JsonView>)
    ensures
        items_wf(s) <==> forall|i: int| 0 <= i < s.len() ==> #[trigger] json_wf(s[i]),
    decreases s.len(),
{
    if s.len() > 0 {
        let n = s.len() - 1;
        let t = s.subrange(0, n);
        lemma_items_wf(t);
        if items_wf(s) {
            assert forall|i: int| 0 <= i < s.len() implies #[trigger] json_wf(s[i]) by {
                if i < n {
                    assert(t[i] == s[i]);
                    assert(json_wf(t[i]));
                }
            }
        }
        if forall|i: int| 0 <= i < s.len() ==> #[trigger] json_wf(s[i]) {
            assert forall|i: int| 0 <= i < t.len() implies #[trigger] json_wf(t[i]) by {
                assert(t[i] == s[i]);
                assert(json_wf(s[i]));
            }
            assert(json_wf(s[n]));
        }
    }
}

pub proof fn lemma_members_wf(s: Seq<(Seq<char>, JsonView)>)
    ensures
        members_wf(s) <==> forall|i: int| 0 <= i < s.len() ==> #[trigger] json_wf(s[i].1),
    decreases s.len(),
{
    if s.len() > 0 {
        let n = s.len() - 1;
        let t = s.subrange(0, n);
        lemma_members_wf(t);
        if members_wf(s) {
            assert forall|i: int| 0 <= i < s.len() implies #[trigger] json_wf(s[i].1) by {
                if i < n {
                    assert(t[i] == s[i]);
                    assert(json_wf(t[i].1));
                }
            }
        }
        if forall|i: int| 0 <= i < s.len() ==> #[trigger] json_wf(s[i].1) {
            assert forall|i: int| 0 <= i < t.len() implies #[trigger] json_wf(t[i].1) by {
                assert(t[i] == s[i]);
                assert(json_wf(s[i].1));
            }
            assert(json_wf(s[n].1));
        }
    }
}

/// A member read from a well-formed value is well-formed.
pub proof fn lemma_get_wf(j: JsonView, k: Seq<char>)
    requires
        json_wf(j),
    ensures
        json_wf(get(j, k)),
{
    if let JsonView::Object(es) = j {
        lemma_members_wf(es);
        lemma_first_index(keys_of(es), k);
    }
}

/// A value read along a path of a well-formed value is well-formed.
pub proof fn lemma_lookup_wf(j: JsonView, path: Seq<Seq<char>>)
    requires
        json_wf(j),
    ensures
        json_wf(lookup(j, path)),
    decreases path.len(),
{
    if path.len() > 0 {
        lemma_get_wf(j, path[0]);
        lemma_lookup_wf(get(j, path[0]), path.drop_first());
    }
}

/// Writing a well-formed value into a well-formed object (or `null`) keeps
/// it well-formed.
pub proof fn lemma_set_key_wf(j: JsonView, k: Seq<char>, v: JsonView)
    requires
        is_writable(j),
        json_wf(j),
        json_wf(v),
    ensures
        json_wf(set_key(j, k, v)),
{
    match j {
        JsonView::Object(es) => {
            let ks = keys_of(es);
            let p = first_index(ks, k);
            lemma_first_index(ks, k);
            lemma_members_wf(es);
            if p >= 0 {
                let es2 = es.update(p, (k, v));
                assert(keys_of(es2) =~= ks);
                lemma_members_wf(es2);
            } else {
                let es2 = es.push((k, v));
                assert(keys_of(es2) =~= ks.push(k));
                lemma_members_wf(es2);
                assert forall|i: int, j2: int| 0 <= i < j2 < keys_of(es2).len() implies keys_of(es2)[i]
                    != keys_of(es2)[j2] by {
                    if j2 == ks.len() {
                        assert(ks[i] != k);
                    }
                }
            }
        },
        _ => {
            let es2 = seq![(k, v)];
            lemma_members_wf(es2);
        },
    }
}

/// Writing a well-formed value along a path of a well-formed value keeps it
/// well-formed.
pub proof fn lemma_set_path_wf(j: JsonView, path: Seq<Seq<char>>, v: JsonView)
    requires
        settable(j, path),
        json_wf(j),
        json_wf(v),
    ensures
        json_wf(set_path(j, path, v)),
    decreases path.len(),
{
    if path.len() > 0 {
        let k = path[0];
        lemma_get_wf(j, k);
        lemma_set_path_wf(get(j, k), path.drop_first(), v);
        lemma_set_key_wf(j, k, set_path(get(j, k), path.drop_first(), v));
    }
}

} // verus!
