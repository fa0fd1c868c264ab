//! End-to-end tests of the migration pipeline on in-memory JSON documents.

use rustdoc_migrate::error::MigrateError;
use rustdoc_migrate::json::JsonValue;
use rustdoc_migrate::pipeline::migrate_document;

fn s(text: &str) -> String {
    text.to_string()
}

fn text(t: &str) -> JsonValue {
    JsonValue::Text(s(t))
}

fn obj(entries: Vec<(&str, JsonValue)>) -> JsonValue {
    JsonValue::Obj(entries.into_iter().map(|(k, v)| (s(k), v)).collect())
}

fn arr(vals: Vec<JsonValue>) -> JsonValue {
    JsonValue::Arr(vals)
}

/// The two-version scenario: version 2 renames `title` to `name` and keeps
/// the tags.
#[test]
fn scenario_rename_and_tags() {
    let doc = obj(vec![
        ("schema_version", JsonValue::UInt(1)),
        ("title", text("x")),
        ("tags", arr(vec![text("a"), text("b")])),
    ]);
    let out = migrate_document(doc, 2).unwrap();
    let expected = obj(vec![
        ("schema_version", JsonValue::UInt(2)),
        ("name", text("x")),
        ("tags", arr(vec![text("a"), text("b")])),
    ]);
    assert_eq!(out, expected);
}

/// With source and target equal the document comes back unchanged.
#[test]
fn identity_when_already_at_target() {
    let doc = obj(vec![
        ("schema_version", JsonValue::UInt(1)),
        ("title", text("x")),
        ("tags", arr(vec![text("a"), text("b")])),
    ]);
    let copy = obj(vec![
        ("schema_version", JsonValue::UInt(1)),
        ("title", text("x")),
        ("tags", arr(vec![text("a"), text("b")])),
    ]);
    let out = migrate_document(doc, 1).unwrap();
    assert_eq!(out, copy);
}

/// Absent tags become the empty sequence at version 2.
#[test]
fn absent_tags_default_to_empty() {
    let doc = obj(vec![
        ("schema_version", JsonValue::UInt(1)),
        ("title", text("x")),
    ]);
    let out = migrate_document(doc, 2).unwrap();
    let expected = obj(vec![
        ("schema_version", JsonValue::UInt(2)),
        ("name", text("x")),
        ("tags", arr(vec![])),
    ]);
    assert_eq!(out, expected);
}

fn item(name: &str, docs: Option<&str>, ty: JsonValue) -> JsonValue {
    let mut entries = vec![("name", text(name))];
    if let Some(d) = docs {
        entries.push(("docs", text(d)));
    }
    entries.push(("type", ty));
    obj(entries)
}

fn named(name: &str, args: Vec<JsonValue>) -> JsonValue {
    obj(vec![(
        "named",
        obj(vec![("name", text(name)), ("args", arr(args))]),
    )])
}

fn primitive(name: &str) -> JsonValue {
    obj(vec![("primitive", text(name))])
}

fn rich_v1_doc() -> JsonValue {
    obj(vec![
        ("schema_version", JsonValue::UInt(1)),
        ("title", text("lib")),
        ("tags", arr(vec![text("t")])),
        (
            "items",
            obj(vec![
                (
                    "foo",
                    item(
                        "foo",
                        Some("a constant"),
                        named("Vec", vec![primitive("u8")]),
                    ),
                ),
                (
                    "bar",
                    item("bar", None, obj(vec![("slice", primitive("bool"))])),
                ),
            ]),
        ),
        ("extra", obj(vec![("x", JsonValue::UInt(1))])),
    ])
}

/// Declarations, docs, type trees and the opaque region all survive the
/// whole chain bit for bit.
#[test]
fn chain_preserves_declarations() {
    let out = migrate_document(rich_v1_doc(), 3).unwrap();
    let expected = obj(vec![
        ("schema_version", JsonValue::UInt(3)),
        ("name", text("lib")),
        ("tags", arr(vec![text("t")])),
        (
            "items",
            obj(vec![
                (
                    "foo",
                    item(
                        "foo",
                        Some("a constant"),
                        named("Vec", vec![primitive("u8")]),
                    ),
                ),
                (
                    "bar",
                    item("bar", None, obj(vec![("slice", primitive("bool"))])),
                ),
            ]),
        ),
        ("extra", obj(vec![("x", JsonValue::UInt(1))])),
    ]);
    assert_eq!(out, expected);
}

/// Migrating straight to the newest version gives the same document as
/// stopping over at the middle version.
#[test]
fn chain_composes_through_stopover() {
    let direct = migrate_document(rich_v1_doc(), 3).unwrap();
    let mid = migrate_document(rich_v1_doc(), 2).unwrap();
    let staged = migrate_document(mid, 3).unwrap();
    assert_eq!(direct, staged);
}

/// A newer source than the target is refused and nothing is produced.
#[test]
fn downgrade_is_rejected() {
    let doc = obj(vec![
        ("schema_version", JsonValue::UInt(3)),
        ("name", text("x")),
        ("tags", arr(vec![])),
    ]);
    let err = migrate_document(doc, 1).unwrap_err();
    assert_eq!(err, MigrateError::Downgrade { source: 3, target: 1 });
}

/// A target outside the registry is refused.
#[test]
fn unsupported_target_is_rejected() {
    let doc = obj(vec![
        ("schema_version", JsonValue::UInt(1)),
        ("title", text("x")),
    ]);
    let err = migrate_document(doc, 9).unwrap_err();
    assert_eq!(err, MigrateError::UnsupportedVersion { found: 9 });
}

/// A source marker outside the registry is refused.
#[test]
fn unsupported_source_is_rejected() {
    let doc = obj(vec![
        ("schema_version", JsonValue::UInt(7)),
        ("title", text("x")),
    ]);
    let err = migrate_document(doc, 3).unwrap_err();
    assert_eq!(err, MigrateError::UnsupportedVersion { found: 7 });
}

/// A document without a version marker is refused.
#[test]
fn missing_marker_is_rejected() {
    let doc = obj(vec![("title", text("x"))]);
    let err = migrate_document(doc, 2).unwrap_err();
    assert!(matches!(err, MigrateError::UnsupportedVersion { .. }));
}

/// A document missing a required field fails with a shape error naming it.
#[test]
fn missing_title_is_a_shape_error() {
    let doc = obj(vec![("schema_version", JsonValue::UInt(1))]);
    let err = migrate_document(doc, 2).unwrap_err();
    assert_eq!(err, MigrateError::Shape { path: vec![s("title")] });
}

/// A declaration with a malformed type names the path down to it.
#[test]
fn bad_type_is_a_shape_error_with_path() {
    let doc = obj(vec![
        ("schema_version", JsonValue::UInt(1)),
        ("title", text("x")),
        (
            "items",
            obj(vec![("foo", item("foo", None, JsonValue::UInt(4)))]),
        ),
    ]);
    let err = migrate_document(doc, 2).unwrap_err();
    assert_eq!(
        err,
        MigrateError::Shape { path: vec![s("items"), s("type"), s("type")] }
    );
}

/// Two declarations under one key are refused: keys must be unique.
#[test]
fn duplicate_item_keys_are_rejected() {
    let doc = obj(vec![
        ("schema_version", JsonValue::UInt(1)),
        ("title", text("x")),
        (
            "items",
            obj(vec![
                ("foo", item("foo", None, primitive("u8"))),
                ("foo", item("foo", None, primitive("u16"))),
            ]),
        ),
    ]);
    let err = migrate_document(doc, 2).unwrap_err();
    assert!(matches!(err, MigrateError::Shape { .. }));
}

/// The inferred type exists at version 3 and is refused at version 2.
#[test]
fn infer_only_at_newest_version() {
    let make = |version: u64| {
        obj(vec![
            ("schema_version", JsonValue::UInt(version)),
            ("name", text("x")),
            ("tags", arr(vec![])),
            (
                "items",
                obj(vec![("foo", item("foo", None, obj(vec![("infer", JsonValue::Null)])))]),
            ),
        ])
    };
    assert!(migrate_document(make(3), 3).is_ok());
    assert!(matches!(
        migrate_document(make(2), 3),
        Err(MigrateError::Shape { .. })
    ));
}

/// A deeply nested opaque region travels through the chain untouched.
#[test]
fn opaque_region_passes_through() {
    let extra = obj(vec![
        ("a", arr(vec![JsonValue::Null, JsonValue::Bool(true), JsonValue::UInt(7)])),
        ("b", obj(vec![("c", arr(vec![text("deep")]))])),
    ]);
    let doc = obj(vec![
        ("schema_version", JsonValue::UInt(1)),
        ("title", text("x")),
        ("extra", extra),
    ]);
    let out = migrate_document(doc, 3).unwrap();
    let expected = obj(vec![
        ("schema_version", JsonValue::UInt(3)),
        ("name", text("x")),
        ("tags", arr(vec![])),
        (
            "extra",
            obj(vec![
                ("a", arr(vec![JsonValue::Null, JsonValue::Bool(true), JsonValue::UInt(7)])),
                ("b", obj(vec![("c", arr(vec![text("deep")]))])),
            ]),
        ),
    ]);
    assert_eq!(out, expected);
}

/// A version 3 document keeps its license notice when validated in place.
#[test]
fn license_survives_at_newest_version() {
    let doc = obj(vec![
        ("schema_version", JsonValue::UInt(3)),
        ("name", text("x")),
        ("tags", arr(vec![])),
        ("license", text("MIT")),
    ]);
    let copy = obj(vec![
        ("schema_version", JsonValue::UInt(3)),
        ("name", text("x")),
        ("tags", arr(vec![])),
        ("license", text("MIT")),
    ]);
    assert_eq!(migrate_document(doc, 3).unwrap(), copy);
}
