//! The web profile's `package.json`: the bundled smooth-stream plugin is
//! merged into it, leaving everything else as it was.

use vstd::prelude::*;
use crate::json::{
    find_key, get, keys_of, keys_view, lemma_first_index, lemma_view_entries,
    lemma_view_entries_push, lemma_view_entries_update, lemma_view_items, lemma_view_items_push,
    lookup, set_key, set_path, settable, view_entries, view_items, JsonValue, JsonView,
    lemma_get_set_key, lemma_has_path_settable, lemma_lookup_set_path, lemma_set_key_same,
    lemma_set_path_lookup, has_path, json_wf, keys_distinct, lemma_items_wf, lemma_members_wf,
    lemma_lookup_wf, lemma_set_key_wf, lemma_set_path_wf, lemma_get_wf,
};
use crate::jsontext::{json_parse, json_parse_error, json_pretty, parse_json, pretty_json};

verus! {

/// The bundled plugin's package name; also the name of its payload directory
/// under the runtime's `plugins/`.
pub const PLUGIN_PACKAGE: &'static str = "dsh-plugin-smooth-stream";

/// The bundled plugin's registry spec, recorded among the profile's
/// dependencies so that `dsh plugin update` can refresh it later.
pub const PLUGIN_SPEC: &'static str = "github:SpookySandwich/dsh-plugin-smooth-stream";

/// The manifest key under which dependencies are recorded.
pub open spec fn dependencies_key() -> Seq<char> {
    "dependencies"@
}

/// `manifest["dsh"]["profile"]["bundles"]`.
pub open spec fn bundles_path() -> Seq<Seq<char>> {
    seq!["dsh"@, "profile"@, "bundles"@]
}

/// The bundle list with the plugin: the old list (none where the old value is
/// no list), with the plugin's name appended unless it already holds it.
pub open spec fn bundles_with(old: JsonView, package: Seq<char>) -> JsonView {
    let items = match old {
        JsonView::Array(a) => a,
        _ => Seq::empty(),
    };
    if items.contains(JsonView::Str(package)) {
        JsonView::Array(items)
    } else {
        JsonView::Array(items.push(JsonView::Str(package)))
    }
}

/// The dependencies with the plugin: the old object (an empty one where the
/// old value is no object), with `package: source` appended unless a member
/// `package` is already there.
pub open spec fn dependencies_with(old: JsonView, package: Seq<char>, source: Seq<char>) -> JsonView {
    match old {
        JsonView::Object(es) => if keys_of(es).contains(package) {
            old
        } else {
            JsonView::Object(es.push((package, JsonView::Str(source))))
        },
        _ => JsonView::Object(seq![(package, JsonView::Str(source))]),
    }
}

/// The manifest after the plugin is merged in.
pub open spec fn merged_manifest(m: JsonView) -> JsonView {
    let m1 = set_path(m, bundles_path(), bundles_with(lookup(m, bundles_path()), PLUGIN_PACKAGE@));
    set_key(
        m1,
        dependencies_key(),
        dependencies_with(get(m1, dependencies_key()), PLUGIN_PACKAGE@, PLUGIN_SPEC@),
    )
}


/// Whether `items` holds the string `text`.
fn contains_text(items: &Vec<JsonValue>, text: &String) -> (b: bool)
    ensures
        b == view_items(items@).contains(JsonView::Str(text@)),
{
    proof {
        lemma_view_items(items@);
    }
    let mut i: usize = 0;
    while i < items.len()
        invariant
            i <= items.len(),
            view_items(items@).len() == items@.len(),
            forall|j: int| 0 <= j < items@.len() ==> #[trigger] view_items(items@)[j] == items@[j]@,
            forall|j: int| 0 <= j < i ==> view_items(items@)[j] != JsonView::Str(text@),
        decreases items.len() - i,
    {
        match &items[i] {
            JsonValue::Str(s) => {
                if *s == *text {
                    assert(view_items(items@)[i as int] == JsonView::Str(text@));
                    return true;
                }
            },
            _ => {},
        }
        i += 1;
    }
    false
}

/// `j[path[depth]][path[depth + 1]]...` becomes the bundle list with `package`.
fn add_bundle_at(j: JsonValue, path: &Vec<String>, depth: usize, package: &String) -> (r: JsonValue)
    requires
        depth <= path.len(),
        settable(j@, keys_view(path@).skip(depth as int)),
    ensures
        r@ == set_path(
            j@,
            keys_view(path@).skip(depth as int),
            bundles_with(lookup(j@, keys_view(path@).skip(depth as int)), package@),
        ),
    decreases path.len() - depth,
{
    let ghost p = keys_view(path@).skip(depth as int);
    if depth == path.len() {
        assert(p.len() == 0);
        let mut items = match j {
            JsonValue::Array(items) => items,
            _ => Vec::new(),
        };
        let ghost before = items@;
        proof {
            lemma_view_items(before);
        }
        if !contains_text(&items, package) {
            let s = package.clone();
            items.push(JsonValue::Str(s));
            proof {
                lemma_view_items_push(before, JsonValue::Str(s));
            }
        }
        JsonValue::Array(items)
    } else {
        let ghost rest = keys_view(path@).skip(depth + 1);
        assert(p[0] == path@[depth as int]@);
        assert(p.drop_first() =~= rest);
        let key = &path[depth];
        let mut entries = match j {
            JsonValue::Object(es) => es,
            _ => Vec::new(),
        };
        let ghost before = entries@;
        assert(get(j@, key@) == get(JsonView::Object(view_entries(before)), key@));
        proof {
            lemma_view_entries(before);
        }
        match find_key(&entries, key) {
            Some(i) => {
                proof {
                    lemma_first_index(keys_of(view_entries(before)), key@);
                    assert(keys_of(view_entries(before))[i as int] == before[i as int].0@);
                }
                let (k, child) = entries.remove(i);
                let new_child = add_bundle_at(child, path, depth + 1, package);
                entries.insert(i, (k, new_child));
                proof {
                    assert(entries@ =~= before.update(i as int, (k, new_child)));
                    lemma_view_entries_update(before, i as int, (k, new_child));
                }
            },
            None => {
                proof {
                    lemma_first_index(keys_of(view_entries(before)), key@);
                    crate::json::lemma_settable_null(rest);
                }
                let new_child = add_bundle_at(JsonValue::Null, path, depth + 1, package);
                let k = key.clone();
                entries.push((k, new_child));
                proof {
                    lemma_view_entries_push(before, (k, new_child));
                }
            },
        }
        JsonValue::Object(entries)
    }
}


/// `old` with the dependency `package: source` added unless present.
fn dependencies_with_exec(old: JsonValue, package: &String, source: &String) -> (r: JsonValue)
    ensures
        r@ == dependencies_with(old@, package@, source@),
{
    match old {
        JsonValue::Object(mut es) => {
            let ghost before = es@;
            proof {
                lemma_view_entries(before);
            }
            let found = find_key(&es, package);
            proof {
                lemma_first_index(keys_of(view_entries(before)), package@);
            }
            if found.is_none() {
                let e = (package.clone(), JsonValue::Str(source.clone()));
                es.push(e);
                proof {
                    lemma_view_entries_push(before, e);
                }
            }
            JsonValue::Object(es)
        },
        _ => {
            let mut es: Vec<(String, JsonValue)> = Vec::new();
            let e = (package.clone(), JsonValue::Str(source.clone()));
            es.push(e);
            proof {
                lemma_view_entries_push(Seq::empty(), e);
                assert(view_entries(Seq::<(String, JsonValue)>::empty()) =~= Seq::empty());
                assert(Seq::<(String, JsonValue)>::empty().push(e) =~= es@);
            }
            JsonValue::Object(es)
        },
    }
}

/// `m["dependencies"]` becomes the dependencies with the plugin.
fn add_dependency(m: JsonValue, package: &String, source: &String) -> (r: JsonValue)
    requires
        m@ is Object,
    ensures
        r@ == set_key(
            m@,
            dependencies_key(),
            dependencies_with(get(m@, dependencies_key()), package@, source@),
        ),
{
    let key = "dependencies".to_owned();
    let mut entries = match m {
        JsonValue::Object(es) => es,
        _ => Vec::new(),
    };
    let ghost before = entries@;
    proof {
        lemma_view_entries(before);
    }
    match find_key(&entries, &key) {
        Some(i) => {
            proof {
                lemma_first_index(keys_of(view_entries(before)), key@);
                assert(keys_of(view_entries(before))[i as int] == before[i as int].0@);
            }
            let (k, child) = entries.remove(i);
            let new_child = dependencies_with_exec(child, package, source);
            entries.insert(i, (k, new_child));
            proof {
                assert(entries@ =~= before.update(i as int, (k, new_child)));
                lemma_view_entries_update(before, i as int, (k, new_child));
            }
        },
        None => {
            let new_child = dependencies_with_exec(JsonValue::Null, package, source);
            entries.push((key, new_child));
            proof {
                lemma_view_entries_push(before, (key, new_child));
            }
        },
    }
    JsonValue::Object(entries)
}

/// `["dsh", "profile", "bundles"]`.
fn bundles_path_exec() -> (path: Vec<String>)
    ensures
        keys_view(path@) == bundles_path(),
{
    let mut path: Vec<String> = Vec::new();
    path.push("dsh".to_owned());
    path.push("profile".to_owned());
    path.push("bundles".to_owned());
    assert(keys_view(path@) =~= bundles_path());
    path
}

/// Merges the bundled plugin into a profile manifest, as `dsh plugin
/// --profile web add` would: the plugin's name is appended to
/// `dsh.profile.bundles` unless listed there (a missing or non-list value
/// becomes a list first), and `dependencies` gains `name: spec` unless it has
/// a member of that name (a missing or non-object value becomes an object
/// first). All other members stay as they were.
///
/// The manifest must admit the write of `dsh.profile.bundles`: each of
/// `manifest`, `manifest["dsh"]` and `manifest["dsh"]["profile"]` must be an
/// object, `null` or absent (see [`manifest_accepts_plugin`]).
pub fn merge_plugin_into_manifest(manifest: JsonValue) -> (merged: JsonValue)
    requires
        json_wf(manifest@),
        settable(manifest@, bundles_path()),
    ensures
        merged@ == merged_manifest(manifest@),
{
    let path = bundles_path_exec();
    let package = PLUGIN_PACKAGE.to_owned();
    let source = PLUGIN_SPEC.to_owned();
    assert(keys_view(path@).skip(0) =~= keys_view(path@));
    let m1 = add_bundle_at(manifest, &path, 0, &package);
    assert(m1@ is Object);
    add_dependency(m1, &package, &source)
}

/// Whether `j[path[depth]][path[depth + 1]]...` can be written.
fn settable_at(j: &JsonValue, path: &Vec<String>, depth: usize) -> (b: bool)
    requires
        depth <= path.len(),
    ensures
        b == settable(j@, keys_view(path@).skip(depth as int)),
    decreases path.len() - depth,
{
    let ghost p = keys_view(path@).skip(depth as int);
    if depth == path.len() {
        assert(p.len() == 0);
        return true;
    }
    assert(p[0] == path@[depth as int]@);
    assert(p.drop_first() =~= keys_view(path@).skip(depth + 1));
    match j {
        JsonValue::Null => {
            proof {
                crate::json::lemma_settable_null(p);
            }
            true
        },
        JsonValue::Object(es) => {
            proof {
                lemma_view_entries(es@);
            }
            match find_key(es, &path[depth]) {
                Some(i) => {
                    proof {
                        lemma_first_index(keys_of(view_entries(es@)), path@[depth as int]@);
                    }
                    settable_at(&es[i].1, path, depth + 1)
                },
                None => {
                    proof {
                        crate::json::lemma_settable_null(keys_view(path@).skip(depth + 1));
                    }
                    true
                },
            }
        },
        _ => false,
    }
}

/// Whether the plugin can be merged into `manifest`: whether each of
/// `manifest`, `manifest["dsh"]` and `manifest["dsh"]["profile"]` is an
/// object, `null` or absent.
pub fn manifest_accepts_plugin(manifest: &JsonValue) -> (b: bool)
    requires
        json_wf(manifest@),
    ensures
        b == settable(manifest@, bundles_path()),
{
    let path = bundles_path_exec();
    assert(keys_view(path@).skip(0) =~= keys_view(path@));
    settable_at(manifest, &path, 0)
}


/// The manifest of a profile that does not exist yet: the stock web bundles.
pub open spec fn fresh_manifest() -> JsonView {
    JsonView::Object(
        seq![
            ("name"@, JsonView::Str("dsh-profile-web"@)),
            ("private"@, JsonView::Bool(true)),
            (
                "dsh"@,
                JsonView::Object(
                    seq![
                        (
                            "profile"@,
                            JsonView::Object(
                                seq![
                                    (
                                        "bundles"@,
                                        JsonView::Array(
                                            seq![
                                                JsonView::Str("@deepseek-ai/dsh-base"@),
                                                JsonView::Str("@deepseek-ai/dsh-web-app"@),
                                            ],
                                        ),
                                    ),
                                ],
                            ),
                        ),
                    ],
                ),
            ),
        ],
    )
}

fn push_member(es: &mut Vec<(String, JsonValue)>, key: &str, value: JsonValue)
    ensures
        view_entries(final(es)@) == view_entries(old(es)@).push((key@, value@)),
{
    let k = key.to_owned();
    proof {
        lemma_view_entries_push(old(es)@, (k, value));
    }
    es.push((k, value));
}

fn text_value(s: &str) -> (v: JsonValue)
    ensures
        v@ == JsonView::Str(s@),
{
    JsonValue::Str(s.to_owned())
}

/// Builds [`fresh_manifest`].
pub fn fresh_manifest_value() -> (m: JsonValue)
    ensures
        m@ == fresh_manifest(),
{
    let mut bundles: Vec<JsonValue> = Vec::new();
    let a = text_value("@deepseek-ai/dsh-base");
    let b = text_value("@deepseek-ai/dsh-web-app");
    proof {
        lemma_view_items_push(Seq::empty(), a);
        lemma_view_items_push(seq![a], b);
        assert(Seq::<JsonValue>::empty().push(a) =~= seq![a]);
        assert(seq![a].push(b) =~= seq![a, b]);
        assert(view_items(Seq::<JsonValue>::empty()) =~= Seq::empty());
    }
    bundles.push(a);
    bundles.push(b);
    assert(bundles@ =~= seq![a, b]);
    assert(view_items(bundles@) =~= seq![JsonView::Str("@deepseek-ai/dsh-base"@), JsonView::Str("@deepseek-ai/dsh-web-app"@)]);
    let mut profile: Vec<(String, JsonValue)> = Vec::new();
    proof {
        assert(view_entries(profile@) =~= Seq::empty());
    }
    let bundles_value = JsonValue::Array(bundles);
    push_member(&mut profile, "bundles", bundles_value);
    assert(view_entries(profile@) =~= seq![("bundles"@, bundles_value@)]);
    let mut dsh: Vec<(String, JsonValue)> = Vec::new();
    proof {
        assert(view_entries(dsh@) =~= Seq::empty());
    }
    let profile_value = JsonValue::Object(profile);
    push_member(&mut dsh, "profile", profile_value);
    assert(view_entries(dsh@) =~= seq![("profile"@, profile_value@)]);
    let mut top: Vec<(String, JsonValue)> = Vec::new();
    proof {
        assert(view_entries(top@) =~= Seq::empty());
    }
    let name_value = text_value("dsh-profile-web");
    push_member(&mut top, "name", name_value);
    push_member(&mut top, "private", JsonValue::Bool(true));
    let dsh_value = JsonValue::Object(dsh);
    push_member(&mut top, "dsh", dsh_value);
    assert(view_entries(top@) =~= seq![
        ("name"@, name_value@),
        ("private"@, JsonView::Bool(true)),
        ("dsh"@, dsh_value@),
    ]);
    let m = JsonValue::Object(top);
    m
}


proof fn lemma_path_keys_distinct()
    ensures
        "dsh"@ != dependencies_key(),
        "profile"@ != dependencies_key(),
        bundles_path().len() == 3,
        bundles_path()[0] == "dsh"@,
        bundles_path().drop_first() == seq!["profile"@, "bundles"@],
        seq!["profile"@, "bundles"@].drop_first() == seq!["bundles"@],
        seq!["bundles"@].drop_first() == Seq::<Seq<char>>::empty(),
{
    reveal_strlit("dsh");
    reveal_strlit("profile");
    reveal_strlit("dependencies");
    assert("dsh"@.len() == 3);
    assert("profile"@.len() == 7);
    assert(dependencies_key().len() == 12);
    assert(bundles_path().drop_first() =~= seq!["profile"@, "bundles"@]);
    assert(seq!["profile"@, "bundles"@].drop_first() =~= seq!["bundles"@]);
    assert(seq!["bundles"@].drop_first() =~= Seq::<Seq<char>>::empty());
}

/// The bundle list with the plugin holds the plugin, and it is the same list
/// again when the plugin is merged into it once more.
proof fn lemma_bundles_with_stable(old: JsonView, package: Seq<char>)
    ensures
        bundles_with(old, package) is Array,
        bundles_with(old, package)->Array_0.contains(JsonView::Str(package)),
        bundles_with(bundles_with(old, package), package) == bundles_with(old, package),
{
    let items = match old {
        JsonView::Array(a) => a,
        _ => Seq::empty(),
    };
    if !items.contains(JsonView::Str(package)) {
        assert(items.push(JsonView::Str(package))[items.len() as int] == JsonView::Str(package));
    }
}

/// The dependencies with the plugin name the plugin, and stay the same when
/// the plugin is added once more.
proof fn lemma_dependencies_with_stable(old: JsonView, package: Seq<char>, source: Seq<char>)
    ensures
        dependencies_with(old, package, source) is Object,
        keys_of(dependencies_with(old, package, source)->Object_0).contains(package),
        dependencies_with(dependencies_with(old, package, source), package, source)
            == dependencies_with(old, package, source),
{
    match old {
        JsonView::Object(es) => {
            if !keys_of(es).contains(package) {
                let es2 = es.push((package, JsonView::Str(source)));
                assert(keys_of(es2)[es.len() as int] == package);
            }
        },
        _ => {
            let es2 = seq![(package, JsonView::Str(source))];
            assert(keys_of(es2)[0] == package);
        },
    }
}

/// Merging the plugin twice gives what merging it once gives: a second
/// install neither lists the plugin twice nor changes its recorded source.
pub proof fn lemma_merge_idempotent(m: JsonView)
    requires
        settable(m, bundles_path()),
    ensures
        settable(merged_manifest(m), bundles_path()),
        merged_manifest(merged_manifest(m)) == merged_manifest(m),
{
    lemma_path_keys_distinct();
    let p = bundles_path();
    let pkg = PLUGIN_PACKAGE@;
    let src = PLUGIN_SPEC@;
    let b = bundles_with(lookup(m, p), pkg);
    let m1 = set_path(m, p, b);
    lemma_lookup_set_path(m, p, b);
    let d = dependencies_with(get(m1, dependencies_key()), pkg, src);
    let m2 = set_key(m1, dependencies_key(), d);
    assert(m2 == merged_manifest(m));
    assert(m1 is Object);
    // m2 still reads the merged bundles at the bundles path, and has that path.
    lemma_get_set_key(m1, dependencies_key(), d, "dsh"@);
    assert(lookup(m2, p) == lookup(get(m2, "dsh"@), p.drop_first()));
    assert(lookup(m1, p) == lookup(get(m1, "dsh"@), p.drop_first()));
    assert(lookup(m2, p) == b);
    assert(has_path(m2, p));
    lemma_has_path_settable(m2, p);
    // Second merge: the bundles are already merged.
    lemma_bundles_with_stable(lookup(m, p), pkg);
    assert(bundles_with(lookup(m2, p), pkg) == lookup(m2, p));
    lemma_set_path_lookup(m2, p);
    let m3 = set_path(m2, p, bundles_with(lookup(m2, p), pkg));
    assert(m3 == m2);
    // The dependencies are already merged.
    lemma_get_set_key(m1, dependencies_key(), d, dependencies_key());
    assert(get(m2, dependencies_key()) == d);
    lemma_dependencies_with_stable(get(m1, dependencies_key()), pkg, src);
    assert(dependencies_with(get(m3, dependencies_key()), pkg, src) == d);
    lemma_set_key_same(m2, dependencies_key());
}

/// After the merge, the bundle list holds the plugin and keeps, in order and
/// in front, the bundles that were listed before; the dependencies name the
/// plugin, with the source recorded before where there was one, else the
/// plugin's registry spec.
pub proof fn lemma_merge_lists_plugin(m: JsonView)
    requires
        settable(m, bundles_path()),
    ensures
        lookup(merged_manifest(m), bundles_path()) is Array,
        lookup(merged_manifest(m), bundles_path())->Array_0.contains(JsonView::Str(PLUGIN_PACKAGE@)),
        lookup(m, bundles_path()) is Array ==> lookup(m, bundles_path())->Array_0
            == lookup(merged_manifest(m), bundles_path())->Array_0.subrange(
            0,
            lookup(m, bundles_path())->Array_0.len() as int,
        ),
        get(merged_manifest(m), dependencies_key()) is Object,
        keys_of(get(merged_manifest(m), dependencies_key())->Object_0).contains(PLUGIN_PACKAGE@),
        get(get(merged_manifest(m), dependencies_key()), PLUGIN_PACKAGE@) == (if get(
            m,
            dependencies_key(),
        ) is Object && keys_of(get(m, dependencies_key())->Object_0).contains(PLUGIN_PACKAGE@) {
            get(get(m, dependencies_key()), PLUGIN_PACKAGE@)
        } else {
            JsonView::Str(PLUGIN_SPEC@)
        }),
{
    lemma_path_keys_distinct();
    let p = bundles_path();
    let pkg = PLUGIN_PACKAGE@;
    let src = PLUGIN_SPEC@;
    let b = bundles_with(lookup(m, p), pkg);
    let m1 = set_path(m, p, b);
    lemma_lookup_set_path(m, p, b);
    let old_deps = get(m1, dependencies_key());
    let d = dependencies_with(old_deps, pkg, src);
    let m2 = set_key(m1, dependencies_key(), d);
    lemma_get_set_key(m1, dependencies_key(), d, "dsh"@);
    assert(lookup(m2, p) == lookup(get(m2, "dsh"@), p.drop_first()));
    assert(lookup(m1, p) == lookup(get(m1, "dsh"@), p.drop_first()));
    lemma_bundles_with_stable(lookup(m, p), pkg);
    if lookup(m, p) is Array {
        let a = lookup(m, p)->Array_0;
        if !a.contains(JsonView::Str(pkg)) {
            assert(a.push(JsonView::Str(pkg)).subrange(0, a.len() as int) =~= a);
        } else {
            assert(a.subrange(0, a.len() as int) =~= a);
        }
    }
    lemma_get_set_key(m1, dependencies_key(), d, dependencies_key());
    lemma_dependencies_with_stable(old_deps, pkg, src);
    // The dependencies before the merge are those of m.
    lemma_get_set_key(m, "dsh"@, set_path(get(m, "dsh"@), p.drop_first(), b), dependencies_key());
    assert(old_deps == get(m, dependencies_key()));
    match old_deps {
        JsonView::Object(es) => {
            let ks = keys_of(es);
            lemma_first_index(ks, pkg);
            if !ks.contains(pkg) {
                let es2 = es.push((pkg, JsonView::Str(src)));
                assert(keys_of(es2) =~= ks.push(pkg));
                lemma_get_set_key(old_deps, pkg, JsonView::Str(src), pkg);
            }
        },
        _ => {
            lemma_get_set_key(JsonView::Null, pkg, JsonView::Str(src), pkg);
        },
    }
}


/// The merge leaves every other member as it was: top-level members other
/// than `dsh` and `dependencies`, members of `dsh` other than `profile`,
/// members of `dsh.profile` other than `bundles`, and dependencies other than
/// the plugin's.
pub proof fn lemma_merge_keeps_other_members(m: JsonView, k: Seq<char>)
    requires
        settable(m, bundles_path()),
    ensures
        k != "dsh"@ && k != dependencies_key() ==> get(merged_manifest(m), k) == get(m, k),
        k != "profile"@ ==> get(get(merged_manifest(m), "dsh"@), k) == get(get(m, "dsh"@), k),
        k != "bundles"@ ==> get(lookup(merged_manifest(m), seq!["dsh"@, "profile"@]), k) == get(
            lookup(m, seq!["dsh"@, "profile"@]),
            k,
        ),
        k != PLUGIN_PACKAGE@ ==> get(get(merged_manifest(m), dependencies_key()), k) == get(
            get(m, dependencies_key()),
            k,
        ),
{
    lemma_path_keys_distinct();
    let p = bundles_path();
    let pkg = PLUGIN_PACKAGE@;
    let src = PLUGIN_SPEC@;
    let b = bundles_with(lookup(m, p), pkg);
    let dsh = get(m, "dsh"@);
    let profile = get(dsh, "profile"@);
    let leaf = set_path(get(profile, "bundles"@), Seq::empty(), b);
    let new_profile = set_key(profile, "bundles"@, leaf);
    let new_dsh = set_key(dsh, "profile"@, new_profile);
    let m1 = set_key(m, "dsh"@, new_dsh);
    assert(set_path(profile, seq!["bundles"@], b) == new_profile);
    assert(set_path(dsh, seq!["profile"@, "bundles"@], b) == new_dsh);
    assert(set_path(m, p, b) == m1);
    let old_deps = get(m1, dependencies_key());
    let d = dependencies_with(old_deps, pkg, src);
    let m2 = set_key(m1, dependencies_key(), d);
    assert(m2 == merged_manifest(m));
    // the writes along the path
    assert(settable(dsh, seq!["profile"@, "bundles"@]));
    assert(settable(profile, seq!["bundles"@]));
    lemma_get_set_key(m, "dsh"@, new_dsh, k);
    lemma_get_set_key(m, "dsh"@, new_dsh, "dsh"@);
    lemma_get_set_key(m, "dsh"@, new_dsh, dependencies_key());
    lemma_get_set_key(m1, dependencies_key(), d, k);
    lemma_get_set_key(m1, dependencies_key(), d, "dsh"@);
    lemma_get_set_key(m1, dependencies_key(), d, dependencies_key());
    lemma_get_set_key(dsh, "profile"@, new_profile, k);
    lemma_get_set_key(dsh, "profile"@, new_profile, "profile"@);
    lemma_get_set_key(profile, "bundles"@, leaf, k);
    assert(lookup(m2, seq!["dsh"@, "profile"@]) == get(get(m2, "dsh"@), "profile"@)) by {
        reveal_with_fuel(lookup, 3);
        assert(seq!["dsh"@, "profile"@].drop_first() =~= seq!["profile"@]);
        assert(seq!["profile"@].drop_first() =~= Seq::<Seq<char>>::empty());
    }
    assert(lookup(m, seq!["dsh"@, "profile"@]) == profile) by {
        reveal_with_fuel(lookup, 3);
        assert(seq!["dsh"@, "profile"@].drop_first() =~= seq!["profile"@]);
        assert(seq!["profile"@].drop_first() =~= Seq::<Seq<char>>::empty());
    }
    // the dependencies
    assert(old_deps == get(m, dependencies_key()));
    if k != pkg {
        match old_deps {
            JsonView::Object(es) => {
                if !keys_of(es).contains(pkg) {
                    let ks = keys_of(es);
                    let es2 = es.push((pkg, JsonView::Str(src)));
                    assert(keys_of(es2) =~= ks.push(pkg));
                    lemma_get_set_key(old_deps, pkg, JsonView::Str(src), k);
                }
            },
            _ => {
                lemma_get_set_key(JsonView::Null, pkg, JsonView::Str(src), k);
            },
        }
    }
}

/// The merge keeps a well-formed manifest well-formed.
pub proof fn lemma_merge_wf(m: JsonView)
    requires
        json_wf(m),
        settable(m, bundles_path()),
    ensures
        json_wf(merged_manifest(m)),
{
    let p = bundles_path();
    let pkg = PLUGIN_PACKAGE@;
    let src = PLUGIN_SPEC@;
    let old = lookup(m, p);
    lemma_lookup_wf(m, p);
    let items = match old {
        JsonView::Array(a) => a,
        _ => Seq::empty(),
    };
    lemma_items_wf(items);
    lemma_items_wf(items.push(JsonView::Str(pkg)));
    if let JsonView::Array(a) = old {
        lemma_items_wf(a);
    }
    assert(json_wf(bundles_with(old, pkg)));
    lemma_set_path_wf(m, p, bundles_with(old, pkg));
    let m1 = set_path(m, p, bundles_with(old, pkg));
    assert(m1 is Object);
    let d_old = get(m1, dependencies_key());
    lemma_get_wf(m1, dependencies_key());
    match d_old {
        JsonView::Object(es) => {
            if !keys_of(es).contains(pkg) {
                lemma_set_key_wf(d_old, pkg, JsonView::Str(src));
                lemma_first_index(keys_of(es), pkg);
            }
        },
        _ => {
            lemma_set_key_wf(JsonView::Null, pkg, JsonView::Str(src));
        },
    }
    assert(json_wf(dependencies_with(d_old, pkg, src))) by {
        match d_old {
            JsonView::Object(es) => {
                if !keys_of(es).contains(pkg) {
                    lemma_first_index(keys_of(es), pkg);
                    assert(set_key(d_old, pkg, JsonView::Str(src)) == dependencies_with(d_old, pkg, src));
                }
            },
            _ => {
                assert(set_key(JsonView::Null, pkg, JsonView::Str(src)) == dependencies_with(d_old, pkg, src));
            },
        }
    }
    lemma_set_key_wf(m1, dependencies_key(), dependencies_with(d_old, pkg, src));
}

/// The fresh manifest is well-formed, and the bundles can be written into it.
pub proof fn lemma_fresh_manifest_wf()
    ensures
        json_wf(fresh_manifest()),
        settable(fresh_manifest(), bundles_path()),
{
    reveal_strlit("name");
    reveal_strlit("private");
    reveal_strlit("dsh");
    reveal_strlit("profile");
    reveal_strlit("bundles");
    let f = fresh_manifest();
    let es = f->Object_0;
    assert(keys_of(es) =~= seq!["name"@, "private"@, "dsh"@]);
    assert("name"@ != "private"@ && "name"@ != "dsh"@ && "private"@ != "dsh"@) by {
        assert("name"@.len() == 4);
        assert("private"@.len() == 7);
        assert("dsh"@.len() == 3);
    }
    assert(keys_distinct(keys_of(es)));
    let dsh = es[2].1;
    let prof = dsh->Object_0[0].1;
    let bl = prof->Object_0[0].1;
    lemma_items_wf(bl->Array_0);
    assert(keys_of(prof->Object_0) =~= seq!["bundles"@]);
    lemma_members_wf(prof->Object_0);
    assert(json_wf(prof));
    assert(keys_of(dsh->Object_0) =~= seq!["profile"@]);
    lemma_members_wf(dsh->Object_0);
    assert(json_wf(dsh));
    lemma_members_wf(es);
    lemma_path_keys_distinct();
    // the path leads through objects
    lemma_first_index(keys_of(es), "dsh"@);
    assert(keys_of(es)[2] == "dsh"@);
    assert(crate::json::is_first(keys_of(es), "dsh"@, 2));
    assert(get(f, "dsh"@) == dsh);
    lemma_first_index(keys_of(dsh->Object_0), "profile"@);
    assert(crate::json::is_first(keys_of(dsh->Object_0), "profile"@, 0));
    assert(get(dsh, "profile"@) == prof);
    assert(settable(get(prof, "bundles"@), Seq::<Seq<char>>::empty()));
    assert(settable(prof, seq!["bundles"@]));
    assert(settable(dsh, seq!["profile"@, "bundles"@]));
    assert(settable(f, bundles_path()));
}

/// What to do with the profile's manifest file.
#[derive(Debug, PartialEq)]
pub enum ManifestOutcome {
    /// Write this text to it.
    Write(String),
    /// The file's text is not JSON; the message says why.
    ParseError(String),
    /// The plugin's bundle entry cannot be written into the manifest: one of
    /// `manifest`, `manifest["dsh"]` and `manifest["dsh"]["profile"]` is
    /// neither an object nor `null`.
    NotWritable,
}

/// The text of a manifest with the plugin merged in, as the file gets it.
pub open spec fn manifest_file_text(m: JsonView) -> Seq<char> {
    json_pretty(merged_manifest(m)) + "\n"@
}

/// The manifest file with the plugin merged in, from the file's text
/// (`None` where it could not be read, so that the fresh manifest is used):
/// the pretty-printed merged manifest followed by a newline, or the parse
/// error, or `NotWritable` where the merge cannot write the bundle list.
pub fn manifest_text(existing: Option<&str>) -> (r: ManifestOutcome)
    ensures
        match existing {
            None => r matches ManifestOutcome::Write(t) && t@ == manifest_file_text(fresh_manifest()),
            Some(text) => match json_parse(text@) {
                None => r matches ManifestOutcome::ParseError(e) && e@ == json_parse_error(text@),
                Some(m) => if settable(m, bundles_path()) {
                    r matches ManifestOutcome::Write(t) && t@ == manifest_file_text(m)
                } else {
                    r is NotWritable
                },
            },
        },
{
    let m = match existing {
        None => {
            proof {
                lemma_fresh_manifest_wf();
            }
            fresh_manifest_value()
        },
        Some(text) => match parse_json(text) {
            Ok(v) => v,
            Err(e) => return ManifestOutcome::ParseError(e),
        },
    };
    if !manifest_accepts_plugin(&m) {
        return ManifestOutcome::NotWritable;
    }
    let ghost m0 = m@;
    let merged = merge_plugin_into_manifest(m);
    let mut t = pretty_json(&merged);
    t.append("\n");
    assert(t@ == manifest_file_text(m0));
    ManifestOutcome::Write(t)
}

/// Whether the plugin's bundle entry can be written depends only on the
/// kinds of `m`, `m["dsh"]` and `m["dsh"]["profile"]`: it can where each is
/// an object or `null` (a missing member reads as `null`), whatever members
/// they hold; in particular a profile object without a bundle list, or with a
/// bundle list of any kind, takes it.
pub proof fn lemma_accepts_by_kinds(m: JsonView)
    ensures
        settable(m, bundles_path()) <==> {
            &&& (m is Null || m is Object)
            &&& (get(m, "dsh"@) is Null || get(m, "dsh"@) is Object)
            &&& (get(get(m, "dsh"@), "profile"@) is Null || get(get(m, "dsh"@), "profile"@) is Object)
        },
{
    lemma_path_keys_distinct();
    let dsh = get(m, "dsh"@);
    let prof = get(dsh, "profile"@);
    assert(settable(get(prof, "bundles"@), Seq::<Seq<char>>::empty()));
    assert(settable(prof, seq!["bundles"@]) == crate::json::is_writable(prof));
    assert(settable(dsh, seq!["profile"@, "bundles"@]) == (crate::json::is_writable(dsh) && settable(prof, seq!["bundles"@])));
    assert(settable(m, bundles_path()) == (crate::json::is_writable(m) && settable(dsh, seq!["profile"@, "bundles"@])));
}

/// A single key can be written into any object, whatever it holds, and into
/// `null`.
pub proof fn lemma_object_takes_any_key(es: Seq<(Seq<char>, JsonView)>, k: Seq<char>)
    ensures
        settable(JsonView::Object(es), seq![k]),
        settable(JsonView::Null, seq![k]),
{
    assert(seq![k].drop_first() =~= Seq::<Seq<char>>::empty());
    assert(settable(get(JsonView::Object(es), k), Seq::<Seq<char>>::empty()));
    assert(settable(get(JsonView::Null, k), Seq::<Seq<char>>::empty()));
}

/// Merging into a bundle list that already names the plugin, anywhere in
/// it, leaves the list exactly as it was; a list without the plugin gains
/// it once, at the end; anything else becomes the list of the plugin alone.
pub proof fn lemma_merge_bundles_exact(m: JsonView)
    requires
        settable(m, bundles_path()),
    ensures
        lookup(m, bundles_path()) is Array && lookup(m, bundles_path())->Array_0.contains(
            JsonView::Str(PLUGIN_PACKAGE@),
        ) ==> lookup(merged_manifest(m), bundles_path()) == lookup(m, bundles_path()),
        lookup(m, bundles_path()) is Array && !lookup(m, bundles_path())->Array_0.contains(
            JsonView::Str(PLUGIN_PACKAGE@),
        ) ==> lookup(merged_manifest(m), bundles_path()) == JsonView::Array(
            lookup(m, bundles_path())->Array_0.push(JsonView::Str(PLUGIN_PACKAGE@)),
        ),
        !(lookup(m, bundles_path()) is Array) ==> lookup(merged_manifest(m), bundles_path())
            == JsonView::Array(seq![JsonView::Str(PLUGIN_PACKAGE@)]),
{
    lemma_path_keys_distinct();
    let p = bundles_path();
    let pkg = PLUGIN_PACKAGE@;
    let src = PLUGIN_SPEC@;
    let b = bundles_with(lookup(m, p), pkg);
    let m1 = set_path(m, p, b);
    lemma_lookup_set_path(m, p, b);
    let d = dependencies_with(get(m1, dependencies_key()), pkg, src);
    let m2 = set_key(m1, dependencies_key(), d);
    lemma_get_set_key(m1, dependencies_key(), d, "dsh"@);
    assert(lookup(m2, p) == lookup(get(m2, "dsh"@), p.drop_first()));
    assert(lookup(m1, p) == lookup(get(m1, "dsh"@), p.drop_first()));
    assert(lookup(m2, p) == b);
    assert(Seq::<JsonView>::empty().push(JsonView::Str(pkg)) =~= seq![JsonView::Str(pkg)]);
    if !(lookup(m, p) is Array) {
        assert(!Seq::<JsonView>::empty().contains(JsonView::Str(pkg)));
    }
}

} // verus!
