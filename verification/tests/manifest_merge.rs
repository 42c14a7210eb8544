use deepseek_harness_windows::json::{find_key, JsonValue};
use deepseek_harness_windows::jsontext::{parse_json, pretty_json};
use deepseek_harness_windows::manifest::{
    fresh_manifest_value, manifest_accepts_plugin, manifest_text, merge_plugin_into_manifest, ManifestOutcome,
    PLUGIN_PACKAGE, PLUGIN_SPEC,
};

fn s(t: &str) -> JsonValue {
    JsonValue::Str(t.to_string())
}

fn obj(members: Vec<(&str, JsonValue)>) -> JsonValue {
    JsonValue::Object(members.into_iter().map(|(k, v)| (k.to_string(), v)).collect())
}

fn member<'a>(j: &'a JsonValue, key: &str) -> Option<&'a JsonValue> {
    match j {
        JsonValue::Object(es) => es.iter().find(|(k, _)| k == key).map(|(_, v)| v),
        _ => None,
    }
}

fn bundles(j: &JsonValue) -> &JsonValue {
    member(member(member(j, "dsh").unwrap(), "profile").unwrap(), "bundles").unwrap()
}

fn expected_fresh_merged() -> JsonValue {
    obj(vec![
        ("name", s("dsh-profile-web")),
        ("private", JsonValue::Bool(true)),
        (
            "dsh",
            obj(vec![(
                "profile",
                obj(vec![(
                    "bundles",
                    JsonValue::Array(vec![
                        s("@deepseek-ai/dsh-base"),
                        s("@deepseek-ai/dsh-web-app"),
                        s(PLUGIN_PACKAGE),
                    ]),
                )]),
            )]),
        ),
        ("dependencies", obj(vec![(PLUGIN_PACKAGE, s(PLUGIN_SPEC))])),
    ])
}

#[test]
fn plugin_constants() {
    assert_eq!(PLUGIN_PACKAGE, "dsh-plugin-smooth-stream");
    assert_eq!(PLUGIN_SPEC, "github:SpookySandwich/dsh-plugin-smooth-stream");
}

#[test]
fn fresh_manifest_has_stock_web_bundles() {
    let m = fresh_manifest_value();
    let expected = obj(vec![
        ("name", s("dsh-profile-web")),
        ("private", JsonValue::Bool(true)),
        (
            "dsh",
            obj(vec![(
                "profile",
                obj(vec![(
                    "bundles",
                    JsonValue::Array(vec![s("@deepseek-ai/dsh-base"), s("@deepseek-ai/dsh-web-app")]),
                )]),
            )]),
        ),
    ]);
    assert_eq!(m, expected);
}

#[test]
fn fresh_profile_gets_stock_bundles_plus_plugin() {
    let merged = merge_plugin_into_manifest(fresh_manifest_value());
    assert_eq!(merged, expected_fresh_merged());
}

#[test]
fn merging_twice_changes_nothing() {
    let once = merge_plugin_into_manifest(fresh_manifest_value());
    let twice = merge_plugin_into_manifest(merge_plugin_into_manifest(fresh_manifest_value()));
    assert_eq!(once, twice);
}

#[test]
fn existing_manifest_keeps_everything_else() {
    let existing = obj(vec![
        ("name", s("dsh-profile-web")),
        ("version", JsonValue::Number(serde_json::Number::from(3u64))),
        (
            "dsh",
            obj(vec![
                ("theme", s("dark")),
                ("profile", obj(vec![("bundles", JsonValue::Array(vec![s("a")])), ("extra", JsonValue::Null)])),
            ]),
        ),
        ("dependencies", obj(vec![("left-pad", s("^1.0.0"))])),
    ]);
    let merged = merge_plugin_into_manifest(existing);
    let expected = obj(vec![
        ("name", s("dsh-profile-web")),
        ("version", JsonValue::Number(serde_json::Number::from(3u64))),
        (
            "dsh",
            obj(vec![
                ("theme", s("dark")),
                (
                    "profile",
                    obj(vec![
                        ("bundles", JsonValue::Array(vec![s("a"), s(PLUGIN_PACKAGE)])),
                        ("extra", JsonValue::Null),
                    ]),
                ),
            ]),
        ),
        ("dependencies", obj(vec![("left-pad", s("^1.0.0")), (PLUGIN_PACKAGE, s(PLUGIN_SPEC))])),
    ]);
    assert_eq!(merged, expected);
}

#[test]
fn listed_plugin_and_recorded_source_are_kept() {
    let existing = obj(vec![
        ("dsh", obj(vec![("profile", obj(vec![("bundles", JsonValue::Array(vec![s(PLUGIN_PACKAGE), s("b")]))]))])),
        ("dependencies", obj(vec![(PLUGIN_PACKAGE, s("file:../local"))])),
    ]);
    let merged = merge_plugin_into_manifest(existing);
    assert_eq!(bundles(&merged), &JsonValue::Array(vec![s(PLUGIN_PACKAGE), s("b")]));
    assert_eq!(
        member(&merged, "dependencies"),
        Some(&obj(vec![(PLUGIN_PACKAGE, s("file:../local"))]))
    );
}

#[test]
fn non_list_bundles_and_non_object_dependencies_are_replaced() {
    let existing = obj(vec![
        ("dsh", obj(vec![("profile", obj(vec![("bundles", s("oops"))]))])),
        ("dependencies", JsonValue::Array(vec![])),
    ]);
    let merged = merge_plugin_into_manifest(existing);
    assert_eq!(bundles(&merged), &JsonValue::Array(vec![s(PLUGIN_PACKAGE)]));
    assert_eq!(member(&merged, "dependencies"), Some(&obj(vec![(PLUGIN_PACKAGE, s(PLUGIN_SPEC))])));
}

#[test]
fn null_manifest_becomes_an_object() {
    let merged = merge_plugin_into_manifest(JsonValue::Null);
    let expected = obj(vec![
        ("dsh", obj(vec![("profile", obj(vec![("bundles", JsonValue::Array(vec![s(PLUGIN_PACKAGE)]))]))])),
        ("dependencies", obj(vec![(PLUGIN_PACKAGE, s(PLUGIN_SPEC))])),
    ]);
    assert_eq!(merged, expected);
}

#[test]
fn null_members_along_the_path_become_objects() {
    let existing = obj(vec![("dsh", JsonValue::Null)]);
    assert!(manifest_accepts_plugin(&existing));
    let merged = merge_plugin_into_manifest(existing);
    assert_eq!(bundles(&merged), &JsonValue::Array(vec![s(PLUGIN_PACKAGE)]));
}

#[test]
fn manifests_that_cannot_take_the_plugin() {
    assert!(manifest_accepts_plugin(&fresh_manifest_value()));
    assert!(manifest_accepts_plugin(&JsonValue::Null));
    assert!(manifest_accepts_plugin(&obj(vec![])));
    assert!(!manifest_accepts_plugin(&JsonValue::Array(vec![])));
    assert!(!manifest_accepts_plugin(&s("text")));
    assert!(!manifest_accepts_plugin(&obj(vec![("dsh", JsonValue::Number(serde_json::Number::from(5u64)))])));
    assert!(!manifest_accepts_plugin(&obj(vec![("dsh", obj(vec![("profile", JsonValue::Bool(false))]))])));
    // a bundle list of another kind is replaced, not a reason to refuse
    assert!(manifest_accepts_plugin(&obj(vec![("dsh", obj(vec![("profile", obj(vec![("bundles", s("x"))]))]))])));
}

#[test]
fn find_key_gives_first_member() {
    let es = vec![
        ("a".to_string(), JsonValue::Null),
        ("b".to_string(), JsonValue::Null),
        ("b".to_string(), JsonValue::Bool(true)),
    ];
    assert_eq!(find_key(&es, &"b".to_string()), Some(1));
    assert_eq!(find_key(&es, &"a".to_string()), Some(0));
    assert_eq!(find_key(&es, &"c".to_string()), None);
}

fn pretty(text: &str) -> String {
    let v: serde_json::Value = serde_json::from_str(text).unwrap();
    serde_json::to_string_pretty(&v).unwrap() + "\n"
}

#[test]
fn parse_json_reads_values() {
    let v = parse_json(r#"{"a": [1, true, null, "x"], "b": {"c": 2.5}}"#).unwrap();
    let expected = obj(vec![
        (
            "a",
            JsonValue::Array(vec![
                JsonValue::Number(serde_json::Number::from(1u64)),
                JsonValue::Bool(true),
                JsonValue::Null,
                s("x"),
            ]),
        ),
        ("b", obj(vec![("c", JsonValue::Number(serde_json::Number::from_f64(2.5).unwrap()))])),
    ]);
    assert_eq!(v, expected);
    assert_eq!(parse_json("-7").unwrap(), JsonValue::Number(serde_json::Number::from(-7i64)));
}

#[test]
fn parse_json_reports_errors() {
    let e = parse_json("{\"a\": ").unwrap_err();
    let expected = serde_json::from_str::<serde_json::Value>("{\"a\": ").unwrap_err().to_string();
    assert_eq!(e, expected);
    assert!(parse_json("").is_err());
    assert!(parse_json("[1,]").is_err());
}

#[test]
fn pretty_json_prints_values() {
    let text = pretty_json(&obj(vec![("k", JsonValue::Array(vec![s("v"), JsonValue::Bool(false)]))]));
    assert_eq!(text, "{\n  \"k\": [\n    \"v\",\n    false\n  ]\n}");
    assert_eq!(pretty_json(&JsonValue::Null), "null");
}

#[test]
fn parse_then_print_keeps_numbers() {
    let text = "[1.5,-3,18446744073709551615]";
    let v = parse_json(text).unwrap();
    assert_eq!(pretty_json(&v), "[\n  1.5,\n  -3,\n  18446744073709551615\n]");
}

#[test]
fn manifest_file_for_fresh_profile() {
    let expected = pretty(
        r#"{"name":"dsh-profile-web","private":true,"dsh":{"profile":{"bundles":["@deepseek-ai/dsh-base","@deepseek-ai/dsh-web-app","dsh-plugin-smooth-stream"]}},"dependencies":{"dsh-plugin-smooth-stream":"github:SpookySandwich/dsh-plugin-smooth-stream"}}"#,
    );
    assert_eq!(manifest_text(None), ManifestOutcome::Write(expected));
}

#[test]
fn manifest_file_for_existing_profile() {
    let existing = r#"{"name":"p","version":2,"dsh":{"profile":{"bundles":["a"]}},"dependencies":{"x":"1"}}"#;
    let expected = pretty(
        r#"{"name":"p","version":2,"dsh":{"profile":{"bundles":["a","dsh-plugin-smooth-stream"]}},"dependencies":{"x":"1","dsh-plugin-smooth-stream":"github:SpookySandwich/dsh-plugin-smooth-stream"}}"#,
    );
    assert_eq!(manifest_text(Some(existing)), ManifestOutcome::Write(expected.clone()));
    // running the install again writes the same file
    let again = expected.trim_end_matches('\n').to_string();
    assert_eq!(manifest_text(Some(&again)), ManifestOutcome::Write(expected));
}

#[test]
fn manifest_file_errors() {
    let bad = "{ not json";
    let expected = serde_json::from_str::<serde_json::Value>(bad).unwrap_err().to_string();
    assert_eq!(manifest_text(Some(bad)), ManifestOutcome::ParseError(expected));
    assert_eq!(manifest_text(Some("[]")), ManifestOutcome::NotWritable);
    assert_eq!(manifest_text(Some(r#"{"dsh": 1}"#)), ManifestOutcome::NotWritable);
    assert_eq!(manifest_text(Some(r#"{"dsh": {"profile": "x"}}"#)), ManifestOutcome::NotWritable);
}

#[test]
fn manifest_file_for_null_manifest() {
    let expected = pretty(
        r#"{"dsh":{"profile":{"bundles":["dsh-plugin-smooth-stream"]}},"dependencies":{"dsh-plugin-smooth-stream":"github:SpookySandwich/dsh-plugin-smooth-stream"}}"#,
    );
    assert_eq!(manifest_text(Some("null")), ManifestOutcome::Write(expected));
}
