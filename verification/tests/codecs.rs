//! The polymorphic field codecs: every accepted wire form
//! round-trips, and every refused form is refused with the exact
//! message.

use algoliasearch::index::AroundRadius;
use algoliasearch::settings::{
    AlternativesAsExact, Distinct, ExactOnSingleWordQuery, IgnorePlurals, MinProximity, QueryType,
    RemoveWordsIfNoResults, SortFacetValuesBy, TypoTolerance,
};
use algoliasearch::index::StringOrVecOfString;

#[test]
fn test_serialize() {
    assert_eq!(AroundRadius::All.to_json(), r#""all""#);
    assert_eq!(AroundRadius::Radius(20).to_json(), r#"20"#);
}

#[test]
fn test_deserialize() {
    assert_eq!(
        AroundRadius::from_json(r#""all""#).unwrap(),
        AroundRadius::All
    );
    assert_eq!(
        AroundRadius::from_json(r#"20"#).unwrap(),
        AroundRadius::Radius(20)
    );
    assert_eq!(
        AroundRadius::from_json(r#""unknown""#).unwrap_err().message(),
        "expected \"all\", got \"unknown\" at line 1 column 9"
    );
}

#[test]
fn settings_test_serialize() {
    assert_eq!(SortFacetValuesBy::Count.to_json(), r#""count""#);
    assert_eq!(SortFacetValuesBy::Alpha.to_json(), r#""alpha""#);
}

#[test]
fn settings_test_deserialize() {
    assert_eq!(
        SortFacetValuesBy::from_json(r#""count""#).unwrap(),
        SortFacetValuesBy::Count
    );
    assert_eq!(
        SortFacetValuesBy::from_json(r#""alpha""#).unwrap(),
        SortFacetValuesBy::Alpha
    );
    assert_eq!(
        SortFacetValuesBy::from_json(r#""unknown""#)
            .unwrap_err()
            .message(),
        "invalid value: unknown SortFacetValuesBy variant: unknown, \
         expected a string for SortFacetValuesBy at line 1 column 9"
    );
}

#[test]
fn typo_tolerance_test_serialize() {
    assert_eq!(TypoTolerance::Enabled.to_json(), r#"true"#);
    assert_eq!(TypoTolerance::Disabled.to_json(), r#"false"#);
    assert_eq!(TypoTolerance::Min.to_json(), r#""min""#);
    assert_eq!(TypoTolerance::Strict.to_json(), r#""strict""#);
}

#[test]
fn typo_tolerance_test_deserialize() {
    assert_eq!(
        TypoTolerance::from_json(r#"true"#).unwrap(),
        TypoTolerance::Enabled
    );
    assert_eq!(
        TypoTolerance::from_json(r#"false"#).unwrap(),
        TypoTolerance::Disabled
    );
    assert_eq!(
        TypoTolerance::from_json(r#""min""#).unwrap(),
        TypoTolerance::Min
    );
    assert_eq!(
        TypoTolerance::from_json(r#""strict""#).unwrap(),
        TypoTolerance::Strict
    );
    assert_eq!(
        TypoTolerance::from_json(r#""unknown""#).unwrap_err().message(),
        "expected \"min\" or \"strict\", got \"unknown\" at line 1 column 9"
    );
}

#[test]
fn ignore_plurals_test_serialize() {
    assert_eq!(IgnorePlurals::Enabled.to_json(), r#"true"#);
    assert_eq!(IgnorePlurals::Disabled.to_json(), r#"false"#);
    assert_eq!(
        IgnorePlurals::Languages(vec!["fr".to_string()]).to_json(),
        r#"["fr"]"#
    );
}

#[test]
fn ignore_plurals_test_deserialize() {
    assert_eq!(
        IgnorePlurals::from_json(r#"true"#).unwrap(),
        IgnorePlurals::Enabled
    );
    assert_eq!(
        IgnorePlurals::from_json(r#"false"#).unwrap(),
        IgnorePlurals::Disabled
    );
    assert_eq!(
        IgnorePlurals::from_json(r#"["fr", "en"]"#).unwrap(),
        IgnorePlurals::Languages(vec!["fr".to_string(), "en".to_string()])
    );
    assert_eq!(
        IgnorePlurals::from_json(r#""unknown""#).unwrap_err().message(),
        "invalid type: string \"unknown\", expected a bool or a list of ISO codes at line 1 column 9"
    );
}

#[test]
fn query_type_test_serialize() {
    assert_eq!(QueryType::PrefixLast.to_json(), r#""prefixLast""#);
    assert_eq!(QueryType::PrefixAll.to_json(), r#""prefixAll""#);
    assert_eq!(QueryType::PrefixNone.to_json(), r#""prefixNone""#);
}

#[test]
fn query_type_test_deserialize() {
    assert_eq!(
        QueryType::from_json(r#""prefixLast""#).unwrap(),
        QueryType::PrefixLast
    );
    assert_eq!(
        QueryType::from_json(r#""prefixAll""#).unwrap(),
        QueryType::PrefixAll
    );
    assert_eq!(
        QueryType::from_json(r#""prefixNone""#).unwrap(),
        QueryType::PrefixNone
    );
    assert_eq!(
        QueryType::from_json(r#""unknown""#).unwrap_err().message(),
        "invalid value: unknown QueryType variant: unknown, \
         expected a string for QueryType at line 1 column 9"
    );
}

#[test]
fn every_codec_round_trips() {
    for v in [
        RemoveWordsIfNoResults::NoneRemoved,
        RemoveWordsIfNoResults::LastWords,
        RemoveWordsIfNoResults::FirstWords,
        RemoveWordsIfNoResults::AllOptions,
    ] {
        assert_eq!(
            RemoveWordsIfNoResults::from_wire(&v.to_wire()).unwrap(),
            v
        );
    }
    for v in [
        ExactOnSingleWordQuery::Attribute,
        ExactOnSingleWordQuery::NoneExact,
        ExactOnSingleWordQuery::Word,
    ] {
        assert_eq!(ExactOnSingleWordQuery::from_wire(&v.to_wire()).unwrap(), v);
    }
    for v in [
        AlternativesAsExact::IgnorePlurals,
        AlternativesAsExact::SingleWordSynonym,
        AlternativesAsExact::MultiWordsSynonym,
    ] {
        assert_eq!(AlternativesAsExact::from_wire(&v.to_wire()).unwrap(), v);
    }
    for v in [
        Distinct::Zero,
        Distinct::One,
        Distinct::Two,
        Distinct::Three,
    ] {
        assert_eq!(Distinct::from_wire(&v.to_wire()).unwrap(), v);
    }
    for v in [
        MinProximity::One,
        MinProximity::Two,
        MinProximity::Three,
        MinProximity::Four,
        MinProximity::Five,
        MinProximity::Six,
        MinProximity::Seven,
    ] {
        assert_eq!(MinProximity::from_wire(&v.to_wire()).unwrap(), v);
    }
}

#[test]
fn integer_enums_refuse_other_integers() {
    assert_eq!(
        Distinct::from_json("9").unwrap_err().message(),
        "invalid value: integer `9`, expected one of: 0, 1, 2, 3 at line 1 column 1"
    );
    assert_eq!(
        MinProximity::from_json("0").unwrap_err().message(),
        "invalid value: integer `0`, expected one of: 1, 2, 3, 4, 5, 6, 7 at line 1 column 1"
    );
}

#[test]
fn string_or_list_round_trips() {
    let one = StringOrVecOfString::String("tag:shoes".to_string());
    assert_eq!(StringOrVecOfString::from_wire(&one.to_wire()).unwrap(), one);
    let many = StringOrVecOfString::VecOfString(vec!["a".to_string(), "b".to_string()]);
    assert_eq!(
        StringOrVecOfString::from_wire(&many.to_wire()).unwrap(),
        many
    );
    assert_eq!(many.to_json(), r#"["a","b"]"#);
}
