//! The wire-text reader and writer: exact JSON text in both
//! directions, cross-checked against a reference JSON library.

use algoliasearch::json::JsonValue;
use algoliasearch::wire::read_text;
use algoliasearch::Client;

fn obj(fields: Vec<(&str, JsonValue)>) -> JsonValue {
    JsonValue::Obj(
        fields
            .into_iter()
            .map(|(k, v)| (k.to_string(), v))
            .collect(),
    )
}

#[test]
fn scalars_render_exactly() {
    assert_eq!(JsonValue::Null.to_json_text(), "null");
    assert_eq!(JsonValue::Bool(true).to_json_text(), "true");
    assert_eq!(JsonValue::Num(0).to_json_text(), "0");
    assert_eq!(JsonValue::Num(1234567890).to_json_text(), "1234567890");
    assert_eq!(
        JsonValue::Str("plain".to_string()).to_json_text(),
        r#""plain""#
    );
}

#[test]
fn string_escaping_matches_the_reference_writer() {
    let tricky = "a\"b\\c\nd\te\u{8}\u{c}\rf\u{1f}g é";
    let ours = JsonValue::Str(tricky.to_string()).to_json_text();
    let reference = serde_json::to_string(tricky).unwrap();
    assert_eq!(ours, reference);
}

#[test]
fn nested_values_render_like_the_reference_writer() {
    let v = obj(vec![
        ("a", JsonValue::Arr(vec![JsonValue::Num(1), JsonValue::Null])),
        ("b", obj(vec![("c", JsonValue::Bool(false))])),
        ("d", JsonValue::Str("x".to_string())),
    ]);
    assert_eq!(
        v.to_json_text(),
        r#"{"a":[1,null],"b":{"c":false},"d":"x"}"#
    );
    let reference: serde_json::Value = serde_json::from_str(&v.to_json_text()).unwrap();
    assert_eq!(serde_json::to_string(&reference).unwrap(), v.to_json_text());
}

#[test]
fn reader_round_trips_rendered_values() {
    let v = obj(vec![
        ("k", JsonValue::Arr(vec![JsonValue::Str("a\"b".to_string())])),
        ("n", JsonValue::Num(42)),
    ]);
    let text = v.to_json_text();
    let (back, _) = read_text(&text).unwrap();
    assert_eq!(back, v);
}

#[test]
fn reader_accepts_whitespace_and_escapes() {
    let (v, _) = read_text(" { \"a\" : [ \"x\\ny\", 7 ] } ").unwrap();
    assert_eq!(
        v,
        obj(vec![(
            "a",
            JsonValue::Arr(vec![JsonValue::Str("x\ny".to_string()), JsonValue::Num(7)])
        )])
    );
    let (u, _) = read_text(r#""é""#).unwrap();
    assert_eq!(u, JsonValue::Str("é".to_string()));
}

#[test]
fn reader_reports_positions_like_the_reference_reader() {
    let e = read_text("").unwrap_err();
    assert_eq!(e.message(), "EOF while parsing a value at line 1 column 0");
    let e2 = read_text("x").unwrap_err();
    assert_eq!(e2.message(), "expected value at line 1 column 1");
    let e3 = read_text("[1 2]").unwrap_err();
    assert_eq!(e3.message(), "expected `,` or `]` at line 1 column 4");
    let e4 = read_text("1 1").unwrap_err();
    assert_eq!(e4.message(), "trailing characters at line 1 column 3");
}

#[test]
fn client_builds_index_handles() {
    let index = Client::new("app", "key").init_index::<JsonValue>("users");
    assert_eq!(index.application_id, "app");
    assert_eq!(index.api_key, "key");
    assert_eq!(index.index_name, "users");
    assert_eq!(index.base_url, "https://app-dsn.algolia.net/1");
    assert_eq!(
        index.search_uri(),
        "https://app-dsn.algolia.net/1/indexes/users/query"
    );
    assert_eq!(
        index.write_uri(),
        "https://app-dsn.algolia.net/1/1/indexes/users"
    );
    assert_eq!(
        index.batch_uri(),
        "https://app-dsn.algolia.net/1/1/indexes/users/batch"
    );
    assert_eq!(
        index.settings_uri(),
        "https://app-dsn.algolia.net/1/indexes/users/settings"
    );
}

#[test]
fn client_setters_replace_credentials() {
    let c = Client::new("a", "b").application_id("app2").api_key("key2");
    let index = c.init_index::<JsonValue>("i");
    assert_eq!(index.application_id, "app2");
    assert_eq!(index.api_key, "key2");
}
