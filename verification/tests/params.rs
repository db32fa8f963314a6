//! The parameter string: which pairs a query produces, how values
//! are urlencoded, and the request bodies built around them.

use algoliasearch::index::AroundRadius;
use algoliasearch::settings::{IndexSettings, SortFacetValuesBy, TypoTolerance};
use algoliasearch::SearchQuery;

#[test]
fn query_only_serializes_to_one_pair() {
    let q = SearchQuery::with_query("Bernardo");
    assert_eq!(q.to_params_string(), "query=Bernardo");
}

#[test]
fn empty_query_serializes_to_empty_string() {
    let q = SearchQuery::new();
    assert_eq!(q.to_params_string(), "");
}

#[test]
fn empty_settings_serialize_to_empty_object() {
    let s = IndexSettings::new();
    assert_eq!(s.to_json_body(), "{}");
}

#[test]
fn params_follow_declaration_order_and_wire_names() {
    let mut q = SearchQuery::with_query("shoes");
    q.page = Some(1);
    q.analytics = Some(false);
    q.typo_tolerance = Some(TypoTolerance::Strict);
    q.min_word_sizefor_2_typos = Some(7);
    q.around_radius = Some(AroundRadius::All);
    assert_eq!(
        q.to_params_string(),
        "query=shoes&page=1&minWordSizefor2Typo=7&typoTolerance=strict&aroundRadius=all&analytics=false"
    );
}

#[test]
fn list_valued_params_carry_their_wire_text() {
    let mut q = SearchQuery::new();
    q.attributes_to_retrieve = Some(vec!["name".to_string(), "age".to_string()]);
    assert_eq!(
        q.to_params_string(),
        "attributesToRetrieve=%5B%22name%22%2C%22age%22%5D"
    );
}

#[test]
fn params_escape_like_the_form_urlencoder() {
    let mut q = SearchQuery::with_query("a b&c=é");
    q.filters = Some("price > 10".to_string());
    let pairs = q.to_param_pairs();
    let ours = q.to_params_string();
    let reference: String = serde_urlencoded::to_string(&pairs).unwrap();
    assert_eq!(ours, reference);
    assert_eq!(ours, "query=a+b%26c%3D%C3%A9&filters=price+%3E+10");
}

#[test]
fn search_body_is_the_params_envelope() {
    let q = SearchQuery::with_query("Bernardo");
    assert_eq!(q.to_search_body(), r#"{"params":"query=Bernardo"}"#);
}

#[test]
fn settings_body_follows_declaration_order() {
    let mut s = IndexSettings::new();
    s.hits_per_page = Some(30);
    s.sort_facet_values_by = Some(SortFacetValuesBy::Count);
    assert_eq!(
        s.to_json_body(),
        r#"{"sortFacetValuesBy":"count","hitsPerPage":30}"#
    );
}

#[test]
fn settings_body_is_valid_json() {
    let mut s = IndexSettings::new();
    s.searchable_attributes = Some(vec!["name".to_string()]);
    s.typo_tolerance = Some(TypoTolerance::Min);
    s.decompounded_attributes = Some(vec![(
        "de".to_string(),
        vec!["wort".to_string(), "liste".to_string()],
    )]);
    let body = s.to_json_body();
    let parsed: serde_json::Value = serde_json::from_str(&body).unwrap();
    assert_eq!(parsed["searchableAttributes"][0], "name");
    assert_eq!(parsed["typoTolerance"], "min");
    assert_eq!(parsed["decompoundedAttributes"]["de"][1], "liste");
}
