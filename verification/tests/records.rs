//! Result-record decoding: the strict mapping from response bodies
//! to typed records, timestamps included.

use algoliasearch::index::{
    batch_request_body, decode_add_object_result, decode_batched_operation_result,
    decode_delete_object_result, decode_search_result, decode_update_operation_result,
};
use algoliasearch::index::operation::{
    decode_index_operation_response, decode_index_operation_result,
};
use algoliasearch::index::task::decode_task_status;
use algoliasearch::json::JsonValue;
use algoliasearch::settings::{
    decode_index_settings, IndexSettings, SortFacetValuesBy, TypoTolerance,
};
use algoliasearch::wire::read_text;

fn obj(fields: Vec<(&str, JsonValue)>) -> JsonValue {
    JsonValue::Obj(
        fields
            .into_iter()
            .map(|(k, v)| (k.to_string(), v))
            .collect(),
    )
}

#[test]
fn search_response_decodes_end_to_end() {
    let body = r#"{"hits":[{"name":"Bernardo","age":32}], "nbHits":1, "page":0,
        "nbPages":1, "hitsPerPage":20, "processingTimeMS":1,
        "exhaustiveNbHits":true, "query":"Bernardo", "params":"query=Bernardo"}"#;
    let (v, _) = read_text(body).unwrap();
    let res = decode_search_result(&v).unwrap();
    assert_eq!(res.nb_hits, 1);
    assert_eq!(res.page, 0);
    assert_eq!(res.nb_pages, 1);
    assert_eq!(res.hits_per_page, 20);
    assert_eq!(res.processing_time_ms, 1);
    assert!(res.exhaustive_nb_hits);
    assert_eq!(res.query, "Bernardo");
    assert_eq!(res.params, "query=Bernardo");
    assert_eq!(res.hits.len(), 1);
    let expected_hit = obj(vec![
        ("name", JsonValue::Str("Bernardo".to_string())),
        ("age", JsonValue::Num(32)),
    ]);
    assert_eq!(res.hits[0], expected_hit);
}

#[test]
fn search_response_missing_field_is_refused() {
    let body = r#"{"hits":[], "page":0}"#;
    let (v, _) = read_text(body).unwrap();
    assert_eq!(
        decode_search_result(&v).unwrap_err().message(),
        "missing field `nbHits`"
    );
}

#[test]
fn add_object_result_decodes_timestamps() {
    let v = obj(vec![
        ("createdAt", JsonValue::Str("1970-01-01T00:00:02Z".to_string())),
        ("taskID", JsonValue::Num(678)),
        ("objectID", JsonValue::Str("abc".to_string())),
    ]);
    let r = decode_add_object_result(&v).unwrap();
    assert_eq!(r.created_at.epoch_millis, 2000);
    assert_eq!(r.task_id, 678);
    assert_eq!(r.object_id, "abc");

    let with_offset = obj(vec![
        (
            "createdAt",
            JsonValue::Str("1970-01-01T01:00:00+01:00".to_string()),
        ),
        ("taskID", JsonValue::Num(1)),
        ("objectID", JsonValue::Str("x".to_string())),
    ]);
    let r2 = decode_add_object_result(&with_offset).unwrap();
    assert_eq!(r2.created_at.epoch_millis, 0);
}

#[test]
fn bad_timestamp_is_refused() {
    let v = obj(vec![
        ("updatedAt", JsonValue::Str("not-a-date".to_string())),
        ("taskID", JsonValue::Num(1)),
    ]);
    assert_eq!(
        decode_update_operation_result(&v).unwrap_err().message(),
        "invalid RFC 3339 date-time: \"not-a-date\""
    );
}

#[test]
fn delete_and_operation_results_decode() {
    let v = obj(vec![
        ("deletedAt", JsonValue::Str("1970-01-02T00:00:00Z".to_string())),
        ("taskID", JsonValue::Num(9)),
    ]);
    let r = decode_delete_object_result(&v).unwrap();
    assert_eq!(r.deleted_at.epoch_millis, 86_400_000);
    assert_eq!(r.task_id, 9);
    let r2 = decode_index_operation_result(&v).unwrap();
    assert_eq!(r2.deleted_at.epoch_millis, 86_400_000);
}

#[test]
fn batched_result_decodes_and_wrong_shape_is_refused() {
    let v = obj(vec![
        ("taskID", JsonValue::Num(5)),
        (
            "objectIDs",
            JsonValue::Arr(vec![
                JsonValue::Str("a".to_string()),
                JsonValue::Str("b".to_string()),
            ]),
        ),
    ]);
    let r = decode_batched_operation_result(&v).unwrap();
    assert_eq!(r.task_id, 5);
    assert_eq!(r.object_ids, vec!["a".to_string(), "b".to_string()]);

    let bad = obj(vec![
        ("taskID", JsonValue::Str("five".to_string())),
        ("objectIDs", JsonValue::Arr(vec![])),
    ]);
    assert_eq!(
        decode_batched_operation_result(&bad).unwrap_err().message(),
        "invalid type: string \"five\", expected u64"
    );
}

#[test]
fn task_status_decodes() {
    let v = obj(vec![
        ("status", JsonValue::Str("published".to_string())),
        ("pendingTask", JsonValue::Bool(false)),
    ]);
    let r = decode_task_status(&v).unwrap();
    assert_eq!(r.status, "published");
    assert!(!r.pending_task);
}

#[test]
fn settings_round_trip_through_decode() {
    let mut s = IndexSettings::new();
    s.hits_per_page = Some(30);
    s.sort_facet_values_by = Some(SortFacetValuesBy::Alpha);
    s.typo_tolerance = Some(TypoTolerance::Enabled);
    s.ranking = Some(vec!["typo".to_string(), "geo".to_string()]);
    let wire = s.to_wire();
    let back = decode_index_settings(&wire).unwrap();
    assert_eq!(back.hits_per_page, Some(30));
    assert_eq!(back.sort_facet_values_by, Some(SortFacetValuesBy::Alpha));
    assert_eq!(back.typo_tolerance, Some(TypoTolerance::Enabled));
    assert_eq!(back.ranking, Some(vec!["typo".to_string(), "geo".to_string()]));
    assert_eq!(back.distinct, None);
}

#[test]
fn settings_refuse_wrong_field_shape() {
    let v = obj(vec![("hitsPerPage", JsonValue::Str("many".to_string()))]);
    assert_eq!(
        decode_index_settings(&v).unwrap_err().message(),
        "invalid type: string \"many\", expected u64"
    );
}

#[test]
fn batch_body_wraps_every_object() {
    let objects = vec![
        obj(vec![("name", JsonValue::Str("Bernardo".to_string()))]),
        obj(vec![("name", JsonValue::Str("Esmeralda".to_string()))]),
    ];
    assert_eq!(
        batch_request_body("addObject", &objects),
        r#"{"requests":[{"action":"addObject","body":{"name":"Bernardo"}},{"action":"addObject","body":{"name":"Esmeralda"}}]}"#
    );
}

#[test]
fn operation_response_decodes_with_optional_scope() {
    let v = obj(vec![
        ("operation", JsonValue::Str("copy".to_string())),
        ("destination", JsonValue::Str("users_backup".to_string())),
    ]);
    let r = decode_index_operation_response(&v).unwrap();
    assert_eq!(r.operation, "copy");
    assert_eq!(r.destination, "users_backup");
    assert_eq!(r.scope, None);

    let scoped = obj(vec![
        ("operation", JsonValue::Str("move".to_string())),
        ("destination", JsonValue::Str("users".to_string())),
        (
            "scope",
            JsonValue::Arr(vec![JsonValue::Str("settings".to_string())]),
        ),
    ]);
    let r2 = decode_index_operation_response(&scoped).unwrap();
    assert_eq!(r2.scope, Some(vec!["settings".to_string()]));
}
