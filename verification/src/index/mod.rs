//! The index-facing surface: geo and filter parameter codecs, the
//! search-parameter aggregate, result records and request payloads.

pub mod operation;
pub mod settings;
pub mod task;

use crate::error::{bad_datetime_error, bad_datetime_msg, invalid_type_error, invalid_type_msg,
    missing_field_error, missing_field_msg, DecodeError};
use crate::json::{lookup, obj_get, obj_model};
use crate::time::{parse_rfc3339, rfc3339_millis, Timestamp};
use core::marker::PhantomData;
use crate::json::{arr_model, render, JsonModel, JsonValue};
use crate::strutil::{lemma_seq_add_empty, lemma_seq_assoc, str_eq};
use crate::wire::pos::pos_suffix;
use crate::wire::pos::with_pos_suffix;
use crate::wire::{read_text_chars, read_text_spec};
use settings::{decode_str_seq, opt_bool_w, opt_distinct_w, opt_exact_w, opt_minprox_w,
    opt_alt_w, opt_plurals_w, opt_qtype_w, opt_remove_w, opt_sortfacet_w, opt_str_list_w, opt_str_w,
    opt_typo_w, opt_u64_w, str_vec_from_wire, str_vec_to_wire, AlternativesAsExact, Distinct,
    ExactOnSingleWordQuery, IgnorePlurals, MinProximity, QueryType, RemoveStopWords,
    RemoveWordsIfNoResults, SortFacetValuesBy, TypoTolerance};
use crate::urlenc::{all_unreserved, form_escape, lemma_form_escape_unreserved,
    lemma_pairs_model_push, pair_text, pairs_model, params_of, params_rest, params_string};
use vstd::prelude::*;
use vstd::string::StringExecFns;

verus! {

broadcast use crate::json::lemma_arr_model_len, crate::json::lemma_arr_model_index, crate::urlenc::lemma_pairs_model_len, crate::urlenc::lemma_pairs_model_index;

/// Geo-search radius: unrestricted, or a number of meters.
#[derive(Clone, Debug, PartialEq, Hash)]
pub enum AroundRadius {
    All,
    Radius(u64),
}

/// The message refusing a string other than `"all"`.
pub open spec fn around_radius_unknown_msg(got: Seq<char>) -> Seq<char> {
    "expected \"all\", got \""@ + got + "\""@
}

fn around_radius_unknown_error(got: &str) -> (r: DecodeError)
    ensures
        r@ == around_radius_unknown_msg(got@),
{
    let mut m = String::new();
    m.append("expected \"all\", got \"");
    m.append(got);
    m.append("\"");
    proof {
        assert(m@ =~= around_radius_unknown_msg(got@));
    }
    DecodeError::new(m)
}

impl AroundRadius {
    /// The wire form: the literal `"all"`, or the bare number of meters.
    pub open spec fn wire_model(self) -> JsonModel {
        match self {
            AroundRadius::All => JsonModel::Str("all"@),
            AroundRadius::Radius(r) => JsonModel::Num(r),
        }
    }

    /// Shape-directed decoding: a bare integer is a radius, the
    /// literal `"all"` is the unrestricted case, and every other
    /// value is refused with the message stated.
    pub open spec fn decode_model(m: JsonModel) -> Result<AroundRadius, Seq<char>> {
        match m {
            JsonModel::Num(n) => Result::Ok(AroundRadius::Radius(n)),
            JsonModel::Str(s) => if s == "all"@ {
                Result::Ok(AroundRadius::All)
            } else {
                Result::Err(around_radius_unknown_msg(s))
            },
            _ => Result::Err(invalid_type_msg(m, "all or radius in meters"@)),
        }
    }

    pub fn to_wire(&self) -> (r: JsonValue)
        ensures
            r@ == self.wire_model(),
    {
        match self {
            AroundRadius::All => JsonValue::Str("all".to_owned()),
            AroundRadius::Radius(r) => JsonValue::Num(*r),
        }
    }

    pub fn from_wire(v: &JsonValue) -> (r: Result<AroundRadius, DecodeError>)
        ensures
            match r {
                Result::Ok(x) => Self::decode_model(v@) == Result::Ok::<AroundRadius, Seq<char>>(
                    x,
                ),
                Result::Err(e) => Self::decode_model(v@) matches Result::Err(msg) && e@ == msg,
            },
    {
        match v {
            JsonValue::Num(n) => Result::Ok(AroundRadius::Radius(*n)),
            JsonValue::Str(s) => {
                if str_eq(s.as_str(), "all") {
                    Result::Ok(AroundRadius::All)
                } else {
                    Result::Err(around_radius_unknown_error(s.as_str()))
                }
            },
            _ => Result::Err(invalid_type_error(v, "all or radius in meters")),
        }
    }

    /// The exact JSON text of this value's wire form.
    pub fn to_json(&self) -> (r: String)
        ensures
            r@ == render(self.wire_model()),
    {
        self.to_wire().to_json_text()
    }

    /// Decodes this value from wire text; a failure carries the
    /// position where the offending value ended.
    pub fn from_json(s: &str) -> (r: Result<AroundRadius, DecodeError>)
        requires
            s@.len() < usize::MAX,
        ensures
            match read_text_spec(s@) {
                Result::Err(m) => r matches Result::Err(e) && e@ == m,
                Result::Ok(p) => match Self::decode_model(p.0) {
                    Result::Ok(x) => r == Result::Ok::<AroundRadius, DecodeError>(x),
                    Result::Err(msg) => r matches Result::Err(e) && e@ == msg + pos_suffix(
                        s@,
                        p.1,
                    ),
                },
            },
    {
        let chars = crate::strutil::str_to_chars(s);
        match read_text_chars(&chars) {
            Result::Err(e) => Result::Err(e),
            Result::Ok((v, end)) => match Self::from_wire(&v) {
                Result::Ok(x) => Result::Ok(x),
                Result::Err(e) => Result::Err(with_pos_suffix(e, &chars, end)),
            },
        }
    }
}

/// Encoding `All` yields the literal `"all"`, encoding a radius
/// yields its bare integer, and decoding is the exact inverse; any
/// other string is refused with the message echoing it.
pub proof fn lemma_around_radius_round_trip(v: AroundRadius, s: Seq<char>)
    ensures
        AroundRadius::decode_model(v.wire_model()) == Result::Ok::<AroundRadius, Seq<char>>(v),
        s != "all"@ ==> AroundRadius::decode_model(JsonModel::Str(s)) == Result::Err::<
            AroundRadius,
            Seq<char>,
        >(around_radius_unknown_msg(s)),
{
    reveal_strlit("all");
    match v {
        AroundRadius::All => {
            assert(AroundRadius::decode_model(JsonModel::Str("all"@)) == Result::Ok::<
                AroundRadius,
                Seq<char>,
            >(AroundRadius::All));
        },
        AroundRadius::Radius(_) => {},
    }
}

/// Model of a filter value: one string, or a list of strings.
pub enum StringOrVecOfStringModel {
    String(Seq<char>),
    VecOfString(Seq<Seq<char>>),
}

/// A filter-like value that the service accepts in either of two
/// forms: a single string, or a list of strings.
#[derive(Clone, Debug, PartialEq, Hash)]
pub enum StringOrVecOfString {
    String(String),
    VecOfString(Vec<String>),
}

impl View for StringOrVecOfString {
    type V = StringOrVecOfStringModel;

    open spec fn view(&self) -> StringOrVecOfStringModel {
        match self {
            StringOrVecOfString::String(s) => StringOrVecOfStringModel::String(s@),
            StringOrVecOfString::VecOfString(vs) => StringOrVecOfStringModel::VecOfString(vs.deep_view()),
        }
    }
}

impl StringOrVecOfString {
    /// The wire form: the bare string, or the array of strings.
    pub open spec fn wire_of(m: StringOrVecOfStringModel) -> JsonModel {
        match m {
            StringOrVecOfStringModel::String(s) => JsonModel::Str(s),
            StringOrVecOfStringModel::VecOfString(ss) => JsonModel::Arr(
                ss.map_values(|s: Seq<char>| JsonModel::Str(s)),
            ),
        }
    }

    /// Shape-directed decoding: a string is the single form, an array
    /// of strings the list form, and every other value is refused.
    pub open spec fn decode_model(m: JsonModel) -> Result<StringOrVecOfStringModel, Seq<char>> {
        match m {
            JsonModel::Str(s) => Result::Ok(StringOrVecOfStringModel::String(s)),
            JsonModel::Arr(items) => match decode_str_seq(items) {
                Result::Ok(ss) => Result::Ok(StringOrVecOfStringModel::VecOfString(ss)),
                Result::Err(e) => Result::Err(e),
            },
            _ => Result::Err(invalid_type_msg(m, "a string or a list of strings"@)),
        }
    }

    pub fn to_wire(&self) -> (r: JsonValue)
        ensures
            r@ == Self::wire_of(self@),
    {
        match self {
            StringOrVecOfString::String(s) => JsonValue::Str(s.clone()),
            StringOrVecOfString::VecOfString(vs) => JsonValue::Arr(str_vec_to_wire(vs)),
        }
    }

    pub fn from_wire(v: &JsonValue) -> (r: Result<StringOrVecOfString, DecodeError>)
        ensures
            match r {
                Result::Ok(x) => Self::decode_model(v@) == Result::Ok::<StringOrVecOfStringModel,
                    Seq<char>,
                >(x@),
                Result::Err(e) => Self::decode_model(v@) matches Result::Err(msg) && e@ == msg,
            },
    {
        match v {
            JsonValue::Str(s) => Result::Ok(StringOrVecOfString::String(s.clone())),
            JsonValue::Arr(items) => match str_vec_from_wire(items) {
                Result::Ok(vs) => Result::Ok(StringOrVecOfString::VecOfString(vs)),
                Result::Err(e) => Result::Err(e),
            },
            _ => Result::Err(invalid_type_error(v, "a string or a list of strings")),
        }
    }

    /// The exact JSON text of this value's wire form.
    pub fn to_json(&self) -> (r: String)
        ensures
            r@ == render(Self::wire_of(self@)),
    {
        self.to_wire().to_json_text()
    }
}

/// A single string encodes as itself, a list as the array of its
/// strings, and decoding is the exact inverse.
pub proof fn lemma_string_or_vec_round_trip(m: StringOrVecOfStringModel)
    ensures
        StringOrVecOfString::decode_model(StringOrVecOfString::wire_of(m)) == Result::Ok::<
            StringOrVecOfStringModel,
            Seq<char>,
        >(m),
{
    match m {
        StringOrVecOfStringModel::VecOfString(ss) => {
            settings::lemma_decode_str_seq_of_strs(ss);
        },
        _ => {},
    }
}


impl StringOrVecOfString {
    /// Decodes this value from wire text; a failure carries the
    /// position where the offending value ended.
    pub fn from_json(s: &str) -> (r: Result<StringOrVecOfString, DecodeError>)
        requires
            s@.len() < usize::MAX,
        ensures
            match read_text_spec(s@) {
                Result::Err(m) => r matches Result::Err(e) && e@ == m,
                Result::Ok(p) => match Self::decode_model(p.0) {
                    Result::Ok(_x) => r matches Result::Ok(y) && Self::decode_model(p.0) == Result::Ok::<StringOrVecOfStringModel, Seq<char>>(y@),
                    Result::Err(msg) => r matches Result::Err(e) && e@ == msg + pos_suffix(
                        s@,
                        p.1,
                    ),
                },
            },
    {
        let chars = crate::strutil::str_to_chars(s);
        match read_text_chars(&chars) {
            Result::Err(e) => Result::Err(e),
            Result::Ok((v, end)) => match Self::from_wire(&v) {
                Result::Ok(x) => Result::Ok(x),
                Result::Err(e) => Result::Err(with_pos_suffix(e, &chars, end)),
            },
        }
    }
}


/// How a wire value appears inside the parameter string: a string
/// stands bare, every other shape as its JSON text.
pub open spec fn param_text(m: JsonModel) -> Seq<char> {
    match m {
        JsonModel::Str(s) => s,
        other => render(other),
    }
}

fn param_text_exec(v: &JsonValue) -> (r: String)
    ensures
        r@ == param_text(v@),
{
    match v {
        JsonValue::Str(s) => s.clone(),
        _ => v.to_json_text(),
    }
}

/// The parameter-string contribution of one optional field: nothing
/// when unset, one `name`/`text` pair when set.
pub open spec fn opt_pair(name: Seq<char>, w: Option<JsonModel>) -> Seq<(Seq<char>, Seq<char>)> {
    match w {
        Option::None => Seq::empty(),
        Option::Some(m) => seq![(name, param_text(m))],
    }
}

/// The wire form of an optional geo radius.
pub open spec fn opt_radius_w(v: Option<AroundRadius>) -> Option<JsonModel> {
    match v {
        Option::None => Option::None,
        Option::Some(x) => Option::Some(x.wire_model()),
    }
}

/// The wire form of an optional string-or-list filter value.
pub open spec fn opt_sovos_w(v: Option<StringOrVecOfString>) -> Option<JsonModel> {
    match v {
        Option::None => Option::None,
        Option::Some(x) => Option::Some(StringOrVecOfString::wire_of(x@)),
    }
}

/// The wire form of an optional list of string-or-list filter values.
pub open spec fn opt_sovos_list_w(v: Option<Vec<StringOrVecOfString>>) -> Option<JsonModel> {
    match v {
        Option::None => Option::None,
        Option::Some(vs) => Option::Some(
            JsonModel::Arr(
                vs@.map_values(|x: StringOrVecOfString| StringOrVecOfString::wire_of(x@)),
            ),
        ),
    }
}

/// Builds the wire list for a vector of string-or-list values.
pub fn sovos_vec_to_wire(vs: &Vec<StringOrVecOfString>) -> (r: Vec<JsonValue>)
    ensures
        arr_model(r@) == vs@.map_values(
            |x: StringOrVecOfString| StringOrVecOfString::wire_of(x@),
        ),
{
    let mut items: Vec<JsonValue> = Vec::new();
    let n = vs.len();
    for i in 0..n
        invariant
            n == vs@.len(),
            items@.len() == i,
            forall|j: int| 0 <= j < i ==> items@[j].model() == StringOrVecOfString::wire_of(
                #[trigger] vs@[j]@,
            ),
    {
        let w = vs[i].to_wire();
        items.push(w);
    }
    proof {
        crate::json::lemma_arr_model_len(items@);
        assert forall|j: int| 0 <= j < n implies arr_model(items@)[j]
            == StringOrVecOfString::wire_of(vs@[j]@) by {
            crate::json::lemma_arr_model_index(items@, j);
        }
        assert(arr_model(items@) =~= vs@.map_values(
            |x: StringOrVecOfString| StringOrVecOfString::wire_of(x@),
        ));
    }
    items
}

fn push_param(pairs: &mut Vec<(String, String)>, name: &str, w: &JsonValue)
    ensures
        pairs_model(final(pairs)@) == pairs_model(old(pairs)@) + seq![(name@, param_text(w@))],
{
    let value = param_text_exec(w);
    let ghost prev = pairs@;
    let key = name.to_owned();
    let ghost kv = (key, value);
    pairs.push((key, value));
    proof {
        lemma_pairs_model_push(prev, kv);
    }
}

/// Search-request parameters: every field optional, only the fields a
/// caller sets appear in the parameter string, in declaration order,
/// under the fixed wire names.
#[derive(Clone, Debug, Default)]
pub struct SearchQuery {
    pub query: Option<String>,
    pub attributes_to_retrieve: Option<Vec<String>>,
    pub restrict_searchable_attributes: Option<Vec<String>>,
    pub filters: Option<String>,
    pub facet_filters: Option<Vec<StringOrVecOfString>>,
    pub optional_filters: Option<Vec<StringOrVecOfString>>,
    pub numeric_filters: Option<Vec<String>>,
    pub tag_filters: Option<StringOrVecOfString>,
    pub sum_or_filters_scores: Option<bool>,
    pub facets: Option<Vec<String>>,
    pub max_values_per_facet: Option<u64>,
    pub faceting_after_distinct: Option<bool>,
    pub sort_facet_values_by: Option<SortFacetValuesBy>,
    pub attributes_to_highlight: Option<Vec<String>>,
    pub attributes_to_snippet: Option<Vec<String>>,
    pub highlight_pre_tag: Option<String>,
    pub highlight_post_tag: Option<String>,
    pub snippet_ellipsis_text: Option<String>,
    pub restrict_highlight_and_snippet_arrays: Option<bool>,
    pub page: Option<u64>,
    pub hits_per_page: Option<u64>,
    pub offset: Option<u64>,
    pub length: Option<u64>,
    pub min_word_sizefor_1_typo: Option<u64>,
    pub min_word_sizefor_2_typos: Option<u64>,
    pub typo_tolerance: Option<TypoTolerance>,
    pub allow_typos_on_numeric_tokens: Option<bool>,
    pub disable_typo_tolerance_on_attributes: Option<Vec<String>>,
    pub around_lat_lng: Option<String>,
    pub around_lat_lng_via_ip: Option<bool>,
    pub around_radius: Option<AroundRadius>,
    pub around_precision: Option<u64>,
    pub minimum_around_radius: Option<u64>,
    pub ignore_plurals: Option<IgnorePlurals>,
    pub remove_stop_words: Option<RemoveStopWords>,
    pub query_languages: Option<Vec<String>>,
    pub query_type: Option<QueryType>,
    pub remove_words_if_no_results: Option<RemoveWordsIfNoResults>,
    pub advanced_syntax: Option<bool>,
    pub optional_words: Option<Vec<String>>,
    pub disable_exact_on_attributes: Option<Vec<String>>,
    pub exact_on_single_word_query: Option<ExactOnSingleWordQuery>,
    pub alternatives_as_exact: Option<AlternativesAsExact>,
    pub enable_rules: Option<bool>,
    pub rule_contexts: Option<Vec<String>>,
    pub enable_personalization: Option<bool>,
    pub user_token: Option<String>,
    pub distinct: Option<Distinct>,
    pub get_ranking_info: Option<bool>,
    pub click_analytics: Option<bool>,
    pub analytics: Option<bool>,
    pub analytics_tags: Option<Vec<String>>,
    pub synonyms: Option<bool>,
    pub replace_synonyms_in_highlight: Option<bool>,
    pub min_proximity: Option<MinProximity>,
    pub response_fields: Option<Vec<String>>,
    pub max_facet_hits: Option<u64>,
    pub percentile_computation: Option<u64>,
}

impl SearchQuery {
    /// The query with no field set.
    pub open spec fn unset() -> SearchQuery {
        SearchQuery {
            query: Option::None,
            attributes_to_retrieve: Option::None,
            restrict_searchable_attributes: Option::None,
            filters: Option::None,
            facet_filters: Option::None,
            optional_filters: Option::None,
            numeric_filters: Option::None,
            tag_filters: Option::None,
            sum_or_filters_scores: Option::None,
            facets: Option::None,
            max_values_per_facet: Option::None,
            faceting_after_distinct: Option::None,
            sort_facet_values_by: Option::None,
            attributes_to_highlight: Option::None,
            attributes_to_snippet: Option::None,
            highlight_pre_tag: Option::None,
            highlight_post_tag: Option::None,
            snippet_ellipsis_text: Option::None,
            restrict_highlight_and_snippet_arrays: Option::None,
            page: Option::None,
            hits_per_page: Option::None,
            offset: Option::None,
            length: Option::None,
            min_word_sizefor_1_typo: Option::None,
            min_word_sizefor_2_typos: Option::None,
            typo_tolerance: Option::None,
            allow_typos_on_numeric_tokens: Option::None,
            disable_typo_tolerance_on_attributes: Option::None,
            around_lat_lng: Option::None,
            around_lat_lng_via_ip: Option::None,
            around_radius: Option::None,
            around_precision: Option::None,
            minimum_around_radius: Option::None,
            ignore_plurals: Option::None,
            remove_stop_words: Option::None,
            query_languages: Option::None,
            query_type: Option::None,
            remove_words_if_no_results: Option::None,
            advanced_syntax: Option::None,
            optional_words: Option::None,
            disable_exact_on_attributes: Option::None,
            exact_on_single_word_query: Option::None,
            alternatives_as_exact: Option::None,
            enable_rules: Option::None,
            rule_contexts: Option::None,
            enable_personalization: Option::None,
            user_token: Option::None,
            distinct: Option::None,
            get_ranking_info: Option::None,
            click_analytics: Option::None,
            analytics: Option::None,
            analytics_tags: Option::None,
            synonyms: Option::None,
            replace_synonyms_in_highlight: Option::None,
            min_proximity: Option::None,
            response_fields: Option::None,
            max_facet_hits: Option::None,
            percentile_computation: Option::None,
        }
    }

    /// The pairs contributed by the query text, attribute selection and filters.
    #[verifier::opaque]
    pub open spec fn text_and_filter_pairs(self) -> Seq<(Seq<char>, Seq<char>)> {
        let ps = Seq::<(Seq<char>, Seq<char>)>::empty();
        let ps = ps + opt_pair("query"@, opt_str_w(self.query));
        let ps = ps + opt_pair("attributesToRetrieve"@, opt_str_list_w(self.attributes_to_retrieve));
        let ps = ps + opt_pair("restrictSearchableAttributes"@, opt_str_list_w(self.restrict_searchable_attributes));
        let ps = ps + opt_pair("filters"@, opt_str_w(self.filters));
        let ps = ps + opt_pair("facetFilters"@, opt_sovos_list_w(self.facet_filters));
        let ps = ps + opt_pair("optionalFilters"@, opt_sovos_list_w(self.optional_filters));
        let ps = ps + opt_pair("numericFilters"@, opt_str_list_w(self.numeric_filters));
        let ps = ps + opt_pair("tagFilters"@, opt_sovos_w(self.tag_filters));
        let ps = ps + opt_pair("sumOrFiltersScores"@, opt_bool_w(self.sum_or_filters_scores));
        ps
    }

    /// The pairs contributed by faceting and highlighting.
    #[verifier::opaque]
    pub open spec fn facet_and_highlight_pairs(self) -> Seq<(Seq<char>, Seq<char>)> {
        let ps = Seq::<(Seq<char>, Seq<char>)>::empty();
        let ps = ps + opt_pair("facets"@, opt_str_list_w(self.facets));
        let ps = ps + opt_pair("maxValuesPerFacet"@, opt_u64_w(self.max_values_per_facet));
        let ps = ps + opt_pair("facetingAfterDistinct"@, opt_bool_w(self.faceting_after_distinct));
        let ps = ps + opt_pair("sortFacetValuesBy"@, opt_sortfacet_w(self.sort_facet_values_by));
        let ps = ps + opt_pair("attributesToHighlight"@, opt_str_list_w(self.attributes_to_highlight));
        let ps = ps + opt_pair("attributesToSnippet"@, opt_str_list_w(self.attributes_to_snippet));
        let ps = ps + opt_pair("highlightPreTag"@, opt_str_w(self.highlight_pre_tag));
        let ps = ps + opt_pair("highlightPostTag"@, opt_str_w(self.highlight_post_tag));
        let ps = ps + opt_pair("snippetEllipsisText"@, opt_str_w(self.snippet_ellipsis_text));
        let ps = ps + opt_pair("restrictHighlightAndSnippetArrays"@, opt_bool_w(self.restrict_highlight_and_snippet_arrays));
        ps
    }

    /// The pairs contributed by pagination and typo tolerance.
    #[verifier::opaque]
    pub open spec fn paging_and_typo_pairs(self) -> Seq<(Seq<char>, Seq<char>)> {
        let ps = Seq::<(Seq<char>, Seq<char>)>::empty();
        let ps = ps + opt_pair("page"@, opt_u64_w(self.page));
        let ps = ps + opt_pair("hitsPerPage"@, opt_u64_w(self.hits_per_page));
        let ps = ps + opt_pair("offset"@, opt_u64_w(self.offset));
        let ps = ps + opt_pair("length"@, opt_u64_w(self.length));
        let ps = ps + opt_pair("minWordSizefor1Typo"@, opt_u64_w(self.min_word_sizefor_1_typo));
        let ps = ps + opt_pair("minWordSizefor2Typo"@, opt_u64_w(self.min_word_sizefor_2_typos));
        let ps = ps + opt_pair("typoTolerance"@, opt_typo_w(self.typo_tolerance));
        let ps = ps + opt_pair("allowTyposOnNumericTokens"@, opt_bool_w(self.allow_typos_on_numeric_tokens));
        let ps = ps + opt_pair("disableTypoToleranceOnAttributes"@, opt_str_list_w(self.disable_typo_tolerance_on_attributes));
        ps
    }

    /// The pairs contributed by geo constraints and language options.
    #[verifier::opaque]
    pub open spec fn geo_and_language_pairs(self) -> Seq<(Seq<char>, Seq<char>)> {
        let ps = Seq::<(Seq<char>, Seq<char>)>::empty();
        let ps = ps + opt_pair("aroundLatLng"@, opt_str_w(self.around_lat_lng));
        let ps = ps + opt_pair("aroundLatLngViaIP"@, opt_bool_w(self.around_lat_lng_via_ip));
        let ps = ps + opt_pair("aroundRadius"@, opt_radius_w(self.around_radius));
        let ps = ps + opt_pair("aroundPrecision"@, opt_u64_w(self.around_precision));
        let ps = ps + opt_pair("minimumAroundRadius"@, opt_u64_w(self.minimum_around_radius));
        let ps = ps + opt_pair("ignorePlurals"@, opt_plurals_w(self.ignore_plurals));
        let ps = ps + opt_pair("removeStopWords"@, opt_plurals_w(self.remove_stop_words));
        let ps = ps + opt_pair("queryLanguages"@, opt_str_list_w(self.query_languages));
        ps
    }

    /// The pairs contributed by query strategy.
    #[verifier::opaque]
    pub open spec fn strategy_pairs(self) -> Seq<(Seq<char>, Seq<char>)> {
        let ps = Seq::<(Seq<char>, Seq<char>)>::empty();
        let ps = ps + opt_pair("queryType"@, opt_qtype_w(self.query_type));
        let ps = ps + opt_pair("removeWordsIfNoResults"@, opt_remove_w(self.remove_words_if_no_results));
        let ps = ps + opt_pair("advancedSyntax"@, opt_bool_w(self.advanced_syntax));
        let ps = ps + opt_pair("optionalWords"@, opt_str_list_w(self.optional_words));
        let ps = ps + opt_pair("disableExactOnAttributes"@, opt_str_list_w(self.disable_exact_on_attributes));
        let ps = ps + opt_pair("exactOnSingleWordQuery"@, opt_exact_w(self.exact_on_single_word_query));
        ps
    }

    /// The pairs contributed by rules and personalization.
    #[verifier::opaque]
    pub open spec fn rules_pairs(self) -> Seq<(Seq<char>, Seq<char>)> {
        let ps = Seq::<(Seq<char>, Seq<char>)>::empty();
        let ps = ps + opt_pair("alternativesAsExact"@, opt_alt_w(self.alternatives_as_exact));
        let ps = ps + opt_pair("enableRules"@, opt_bool_w(self.enable_rules));
        let ps = ps + opt_pair("ruleContexts"@, opt_str_list_w(self.rule_contexts));
        let ps = ps + opt_pair("enablePersonalization"@, opt_bool_w(self.enable_personalization));
        let ps = ps + opt_pair("userToken"@, opt_str_w(self.user_token));
        ps
    }

    /// The pairs contributed by the advanced options.
    #[verifier::opaque]
    pub open spec fn advanced_pairs(self) -> Seq<(Seq<char>, Seq<char>)> {
        let ps = Seq::<(Seq<char>, Seq<char>)>::empty();
        let ps = ps + opt_pair("distinct"@, opt_distinct_w(self.distinct));
        let ps = ps + opt_pair("getRankingInfo"@, opt_bool_w(self.get_ranking_info));
        let ps = ps + opt_pair("clickAnalytics"@, opt_bool_w(self.click_analytics));
        let ps = ps + opt_pair("analytics"@, opt_bool_w(self.analytics));
        let ps = ps + opt_pair("analyticsTags"@, opt_str_list_w(self.analytics_tags));
        let ps = ps + opt_pair("synonyms"@, opt_bool_w(self.synonyms));
        let ps = ps + opt_pair("replaceSynonymsInHighlight"@, opt_bool_w(self.replace_synonyms_in_highlight));
        let ps = ps + opt_pair("minProximity"@, opt_minprox_w(self.min_proximity));
        let ps = ps + opt_pair("responseFields"@, opt_str_list_w(self.response_fields));
        let ps = ps + opt_pair("maxFacetHits"@, opt_u64_w(self.max_facet_hits));
        let ps = ps + opt_pair("percentileComputation"@, opt_u64_w(self.percentile_computation));
        ps
    }

    /// The ordered name/text pairs of the set fields: the content of
    /// the parameter string, before urlencoding.
    pub open spec fn param_pairs(self) -> Seq<(Seq<char>, Seq<char>)> {
        self.text_and_filter_pairs() + self.facet_and_highlight_pairs()
            + self.paging_and_typo_pairs() + self.geo_and_language_pairs() + self.strategy_pairs()
            + self.rules_pairs() + self.advanced_pairs()
    }

    /// A fresh query with no field set.
    pub fn new() -> (r: SearchQuery)
        ensures
            r == SearchQuery::unset(),
    {
        SearchQuery {
            query: Option::None,
            attributes_to_retrieve: Option::None,
            restrict_searchable_attributes: Option::None,
            filters: Option::None,
            facet_filters: Option::None,
            optional_filters: Option::None,
            numeric_filters: Option::None,
            tag_filters: Option::None,
            sum_or_filters_scores: Option::None,
            facets: Option::None,
            max_values_per_facet: Option::None,
            faceting_after_distinct: Option::None,
            sort_facet_values_by: Option::None,
            attributes_to_highlight: Option::None,
            attributes_to_snippet: Option::None,
            highlight_pre_tag: Option::None,
            highlight_post_tag: Option::None,
            snippet_ellipsis_text: Option::None,
            restrict_highlight_and_snippet_arrays: Option::None,
            page: Option::None,
            hits_per_page: Option::None,
            offset: Option::None,
            length: Option::None,
            min_word_sizefor_1_typo: Option::None,
            min_word_sizefor_2_typos: Option::None,
            typo_tolerance: Option::None,
            allow_typos_on_numeric_tokens: Option::None,
            disable_typo_tolerance_on_attributes: Option::None,
            around_lat_lng: Option::None,
            around_lat_lng_via_ip: Option::None,
            around_radius: Option::None,
            around_precision: Option::None,
            minimum_around_radius: Option::None,
            ignore_plurals: Option::None,
            remove_stop_words: Option::None,
            query_languages: Option::None,
            query_type: Option::None,
            remove_words_if_no_results: Option::None,
            advanced_syntax: Option::None,
            optional_words: Option::None,
            disable_exact_on_attributes: Option::None,
            exact_on_single_word_query: Option::None,
            alternatives_as_exact: Option::None,
            enable_rules: Option::None,
            rule_contexts: Option::None,
            enable_personalization: Option::None,
            user_token: Option::None,
            distinct: Option::None,
            get_ranking_info: Option::None,
            click_analytics: Option::None,
            analytics: Option::None,
            analytics_tags: Option::None,
            synonyms: Option::None,
            replace_synonyms_in_highlight: Option::None,
            min_proximity: Option::None,
            response_fields: Option::None,
            max_facet_hits: Option::None,
            percentile_computation: Option::None,
        }
    }

    /// The convenience constructor: only the query text is set.
    pub fn with_query(query: &str) -> (r: SearchQuery)
        ensures
            r.query matches Option::Some(q) && q@ == query@,
            r == (SearchQuery { query: r.query, ..SearchQuery::unset() }),
    {
        let mut r = SearchQuery::new();
        r.query = Option::Some(query.to_owned());
        r
    }

    #[verifier::rlimit(100)]
    #[verifier::spinoff_prover]
    fn push_text_and_filter_params(&self, pairs: &mut Vec<(String, String)>)
        ensures
            pairs_model(final(pairs)@) == pairs_model(old(pairs)@) + self.text_and_filter_pairs(),
    {
        let ghost mut exp: Seq<(Seq<char>, Seq<char>)> = Seq::empty();
        proof {
            lemma_seq_add_empty(pairs_model(pairs@));
            assert(pairs_model(pairs@) == pairs_model(old(pairs)@) + exp);
        }
        match &self.query {
            Option::Some(x) => {
                let wv = JsonValue::Str(x.clone());
                push_param(pairs, "query", &wv);
                proof {
                    assert(opt_pair("query"@, opt_str_w(self.query)) == seq![(
                        "query"@,
                        param_text(wv@),
                    )]);
                    lemma_seq_assoc(
                        pairs_model(old(pairs)@),
                        exp,
                        seq![("query"@, param_text(wv@))],
                    );
                    exp = exp + opt_pair("query"@, opt_str_w(self.query));
                    assert(pairs_model(pairs@) == pairs_model(old(pairs)@) + exp);
                }
            },
            Option::None => {
                proof {
                    lemma_seq_add_empty(exp);
                    exp = exp + opt_pair("query"@, opt_str_w(self.query));
                    assert(pairs_model(pairs@) == pairs_model(old(pairs)@) + exp);
                }
            },
        }
        match &self.attributes_to_retrieve {
            Option::Some(x) => {
                let wv = JsonValue::Arr(str_vec_to_wire(x));
                push_param(pairs, "attributesToRetrieve", &wv);
                proof {
                    assert(opt_pair("attributesToRetrieve"@, opt_str_list_w(self.attributes_to_retrieve)) == seq![(
                        "attributesToRetrieve"@,
                        param_text(wv@),
                    )]);
                    lemma_seq_assoc(
                        pairs_model(old(pairs)@),
                        exp,
                        seq![("attributesToRetrieve"@, param_text(wv@))],
                    );
                    exp = exp + opt_pair("attributesToRetrieve"@, opt_str_list_w(self.attributes_to_retrieve));
                    assert(pairs_model(pairs@) == pairs_model(old(pairs)@) + exp);
                }
            },
            Option::None => {
                proof {
                    lemma_seq_add_empty(exp);
                    exp = exp + opt_pair("attributesToRetrieve"@, opt_str_list_w(self.attributes_to_retrieve));
                    assert(pairs_model(pairs@) == pairs_model(old(pairs)@) + exp);
                }
            },
        }
        match &self.restrict_searchable_attributes {
            Option::Some(x) => {
                let wv = JsonValue::Arr(str_vec_to_wire(x));
                push_param(pairs, "restrictSearchableAttributes", &wv);
                proof {
                    assert(opt_pair("restrictSearchableAttributes"@, opt_str_list_w(self.restrict_searchable_attributes)) == seq![(
                        "restrictSearchableAttributes"@,
                        param_text(wv@),
                    )]);
                    lemma_seq_assoc(
                        pairs_model(old(pairs)@),
                        exp,
                        seq![("restrictSearchableAttributes"@, param_text(wv@))],
                    );
                    exp = exp + opt_pair("restrictSearchableAttributes"@, opt_str_list_w(self.restrict_searchable_attributes));
                    assert(pairs_model(pairs@) == pairs_model(old(pairs)@) + exp);
                }
            },
            Option::None => {
                proof {
                    lemma_seq_add_empty(exp);
                    exp = exp + opt_pair("restrictSearchableAttributes"@, opt_str_list_w(self.restrict_searchable_attributes));
                    assert(pairs_model(pairs@) == pairs_model(old(pairs)@) + exp);
                }
            },
        }
        match &self.filters {
            Option::Some(x) => {
                let wv = JsonValue::Str(x.clone());
                push_param(pairs, "filters", &wv);
                proof {
                    assert(opt_pair("filters"@, opt_str_w(self.filters)) == seq![(
                        "filters"@,
                        param_text(wv@),
                    )]);
                    lemma_seq_assoc(
                        pairs_model(old(pairs)@),
                        exp,
                        seq![("filters"@, param_text(wv@))],
                    );
                    exp = exp + opt_pair("filters"@, opt_str_w(self.filters));
                    assert(pairs_model(pairs@) == pairs_model(old(pairs)@) + exp);
                }
            },
            Option::None => {
                proof {
                    lemma_seq_add_empty(exp);
                    exp = exp + opt_pair("filters"@, opt_str_w(self.filters));
                    assert(pairs_model(pairs@) == pairs_model(old(pairs)@) + exp);
                }
            },
        }
        match &self.facet_filters {
            Option::Some(x) => {
                let wv = JsonValue::Arr(sovos_vec_to_wire(x));
                push_param(pairs, "facetFilters", &wv);
                proof {
                    assert(opt_pair("facetFilters"@, opt_sovos_list_w(self.facet_filters)) == seq![(
                        "facetFilters"@,
                        param_text(wv@),
                    )]);
                    lemma_seq_assoc(
                        pairs_model(old(pairs)@),
                        exp,
                        seq![("facetFilters"@, param_text(wv@))],
                    );
                    exp = exp + opt_pair("facetFilters"@, opt_sovos_list_w(self.facet_filters));
                    assert(pairs_model(pairs@) == pairs_model(old(pairs)@) + exp);
                }
            },
            Option::None => {
                proof {
                    lemma_seq_add_empty(exp);
                    exp = exp + opt_pair("facetFilters"@, opt_sovos_list_w(self.facet_filters));
                    assert(pairs_model(pairs@) == pairs_model(old(pairs)@) + exp);
                }
            },
        }
        match &self.optional_filters {
            Option::Some(x) => {
                let wv = JsonValue::Arr(sovos_vec_to_wire(x));
                push_param(pairs, "optionalFilters", &wv);
                proof {
                    assert(opt_pair("optionalFilters"@, opt_sovos_list_w(self.optional_filters)) == seq![(
                        "optionalFilters"@,
                        param_text(wv@),
                    )]);
                    lemma_seq_assoc(
                        pairs_model(old(pairs)@),
                        exp,
                        seq![("optionalFilters"@, param_text(wv@))],
                    );
                    exp = exp + opt_pair("optionalFilters"@, opt_sovos_list_w(self.optional_filters));
                    assert(pairs_model(pairs@) == pairs_model(old(pairs)@) + exp);
                }
            },
            Option::None => {
                proof {
                    lemma_seq_add_empty(exp);
                    exp = exp + opt_pair("optionalFilters"@, opt_sovos_list_w(self.optional_filters));
                    assert(pairs_model(pairs@) == pairs_model(old(pairs)@) + exp);
                }
            },
        }
        match &self.numeric_filters {
            Option::Some(x) => {
                let wv = JsonValue::Arr(str_vec_to_wire(x));
                push_param(pairs, "numericFilters", &wv);
                proof {
                    assert(opt_pair("numericFilters"@, opt_str_list_w(self.numeric_filters)) == seq![(
                        "numericFilters"@,
                        param_text(wv@),
                    )]);
                    lemma_seq_assoc(
                        pairs_model(old(pairs)@),
                        exp,
                        seq![("numericFilters"@, param_text(wv@))],
                    );
                    exp = exp + opt_pair("numericFilters"@, opt_str_list_w(self.numeric_filters));
                    assert(pairs_model(pairs@) == pairs_model(old(pairs)@) + exp);
                }
            },
            Option::None => {
                proof {
                    lemma_seq_add_empty(exp);
                    exp = exp + opt_pair("numericFilters"@, opt_str_list_w(self.numeric_filters));
                    assert(pairs_model(pairs@) == pairs_model(old(pairs)@) + exp);
                }
            },
        }
        match &self.tag_filters {
            Option::Some(x) => {
                let wv = x.to_wire();
                push_param(pairs, "tagFilters", &wv);
                proof {
                    assert(opt_pair("tagFilters"@, opt_sovos_w(self.tag_filters)) == seq![(
                        "tagFilters"@,
                        param_text(wv@),
                    )]);
                    lemma_seq_assoc(
                        pairs_model(old(pairs)@),
                        exp,
                        seq![("tagFilters"@, param_text(wv@))],
                    );
                    exp = exp + opt_pair("tagFilters"@, opt_sovos_w(self.tag_filters));
                    assert(pairs_model(pairs@) == pairs_model(old(pairs)@) + exp);
                }
            },
            Option::None => {
                proof {
                    lemma_seq_add_empty(exp);
                    exp = exp + opt_pair("tagFilters"@, opt_sovos_w(self.tag_filters));
                    assert(pairs_model(pairs@) == pairs_model(old(pairs)@) + exp);
                }
            },
        }
        match &self.sum_or_filters_scores {
            Option::Some(x) => {
                let wv = JsonValue::Bool(*x);
                push_param(pairs, "sumOrFiltersScores", &wv);
                proof {
                    assert(opt_pair("sumOrFiltersScores"@, opt_bool_w(self.sum_or_filters_scores)) == seq![(
                        "sumOrFiltersScores"@,
                        param_text(wv@),
                    )]);
                    lemma_seq_assoc(
                        pairs_model(old(pairs)@),
                        exp,
                        seq![("sumOrFiltersScores"@, param_text(wv@))],
                    );
                    exp = exp + opt_pair("sumOrFiltersScores"@, opt_bool_w(self.sum_or_filters_scores));
                    assert(pairs_model(pairs@) == pairs_model(old(pairs)@) + exp);
                }
            },
            Option::None => {
                proof {
                    lemma_seq_add_empty(exp);
                    exp = exp + opt_pair("sumOrFiltersScores"@, opt_bool_w(self.sum_or_filters_scores));
                    assert(pairs_model(pairs@) == pairs_model(old(pairs)@) + exp);
                }
            },
        }
        proof {
            reveal(SearchQuery::text_and_filter_pairs);
            assert(self.text_and_filter_pairs() == exp);
        }
    }

    #[verifier::rlimit(100)]
    #[verifier::spinoff_prover]
    fn push_facet_and_highlight_params(&self, pairs: &mut Vec<(String, String)>)
        ensures
            pairs_model(final(pairs)@) == pairs_model(old(pairs)@) + self.facet_and_highlight_pairs(),
    {
        let ghost mut exp: Seq<(Seq<char>, Seq<char>)> = Seq::empty();
        proof {
            lemma_seq_add_empty(pairs_model(pairs@));
            assert(pairs_model(pairs@) == pairs_model(old(pairs)@) + exp);
        }
        match &self.facets {
            Option::Some(x) => {
                let wv = JsonValue::Arr(str_vec_to_wire(x));
                push_param(pairs, "facets", &wv);
                proof {
                    assert(opt_pair("facets"@, opt_str_list_w(self.facets)) == seq![(
                        "facets"@,
                        param_text(wv@),
                    )]);
                    lemma_seq_assoc(
                        pairs_model(old(pairs)@),
                        exp,
                        seq![("facets"@, param_text(wv@))],
                    );
                    exp = exp + opt_pair("facets"@, opt_str_list_w(self.facets));
                    assert(pairs_model(pairs@) == pairs_model(old(pairs)@) + exp);
                }
            },
            Option::None => {
                proof {
                    lemma_seq_add_empty(exp);
                    exp = exp + opt_pair("facets"@, opt_str_list_w(self.facets));
                    assert(pairs_model(pairs@) == pairs_model(old(pairs)@) + exp);
                }
            },
        }
        match &self.max_values_per_facet {
            Option::Some(x) => {
                let wv = JsonValue::Num(*x);
                push_param(pairs, "maxValuesPerFacet", &wv);
                proof {
                    assert(opt_pair("maxValuesPerFacet"@, opt_u64_w(self.max_values_per_facet)) == seq![(
                        "maxValuesPerFacet"@,
                        param_text(wv@),
                    )]);
                    lemma_seq_assoc(
                        pairs_model(old(pairs)@),
                        exp,
                        seq![("maxValuesPerFacet"@, param_text(wv@))],
                    );
                    exp = exp + opt_pair("maxValuesPerFacet"@, opt_u64_w(self.max_values_per_facet));
                    assert(pairs_model(pairs@) == pairs_model(old(pairs)@) + exp);
                }
            },
            Option::None => {
                proof {
                    lemma_seq_add_empty(exp);
                    exp = exp + opt_pair("maxValuesPerFacet"@, opt_u64_w(self.max_values_per_facet));
                    assert(pairs_model(pairs@) == pairs_model(old(pairs)@) + exp);
                }
            },
        }
        match &self.faceting_after_distinct {
            Option::Some(x) => {
                let wv = JsonValue::Bool(*x);
                push_param(pairs, "facetingAfterDistinct", &wv);
                proof {
                    assert(opt_pair("facetingAfterDistinct"@, opt_bool_w(self.faceting_after_distinct)) == seq![(
                        "facetingAfterDistinct"@,
                        param_text(wv@),
                    )]);
                    lemma_seq_assoc(
                        pairs_model(old(pairs)@),
                        exp,
                        seq![("facetingAfterDistinct"@, param_text(wv@))],
                    );
                    exp = exp + opt_pair("facetingAfterDistinct"@, opt_bool_w(self.faceting_after_distinct));
                    assert(pairs_model(pairs@) == pairs_model(old(pairs)@) + exp);
                }
            },
            Option::None => {
                proof {
                    lemma_seq_add_empty(exp);
                    exp = exp + opt_pair("facetingAfterDistinct"@, opt_bool_w(self.faceting_after_distinct));
                    assert(pairs_model(pairs@) == pairs_model(old(pairs)@) + exp);
                }
            },
        }
        match &self.sort_facet_values_by {
            Option::Some(x) => {
                let wv = x.to_wire();
                push_param(pairs, "sortFacetValuesBy", &wv);
                proof {
                    assert(opt_pair("sortFacetValuesBy"@, opt_sortfacet_w(self.sort_facet_values_by)) == seq![(
                        "sortFacetValuesBy"@,
                        param_text(wv@),
                    )]);
                    lemma_seq_assoc(
                        pairs_model(old(pairs)@),
                        exp,
                        seq![("sortFacetValuesBy"@, param_text(wv@))],
                    );
                    exp = exp + opt_pair("sortFacetValuesBy"@, opt_sortfacet_w(self.sort_facet_values_by));
                    assert(pairs_model(pairs@) == pairs_model(old(pairs)@) + exp);
                }
            },
            Option::None => {
                proof {
                    lemma_seq_add_empty(exp);
                    exp = exp + opt_pair("sortFacetValuesBy"@, opt_sortfacet_w(self.sort_facet_values_by));
                    assert(pairs_model(pairs@) == pairs_model(old(pairs)@) + exp);
                }
            },
        }
        match &self.attributes_to_highlight {
            Option::Some(x) => {
                let wv = JsonValue::Arr(str_vec_to_wire(x));
                push_param(pairs, "attributesToHighlight", &wv);
                proof {
                    assert(opt_pair("attributesToHighlight"@, opt_str_list_w(self.attributes_to_highlight)) == seq![(
                        "attributesToHighlight"@,
                        param_text(wv@),
                    )]);
                    lemma_seq_assoc(
                        pairs_model(old(pairs)@),
                        exp,
                        seq![("attributesToHighlight"@, param_text(wv@))],
                    );
                    exp = exp + opt_pair("attributesToHighlight"@, opt_str_list_w(self.attributes_to_highlight));
                    assert(pairs_model(pairs@) == pairs_model(old(pairs)@) + exp);
                }
            },
            Option::None => {
                proof {
                    lemma_seq_add_empty(exp);
                    exp = exp + opt_pair("attributesToHighlight"@, opt_str_list_w(self.attributes_to_highlight));
                    assert(pairs_model(pairs@) == pairs_model(old(pairs)@) + exp);
                }
            },
        }
        match &self.attributes_to_snippet {
            Option::Some(x) => {
                let wv = JsonValue::Arr(str_vec_to_wire(x));
                push_param(pairs, "attributesToSnippet", &wv);
                proof {
                    assert(opt_pair("attributesToSnippet"@, opt_str_list_w(self.attributes_to_snippet)) == seq![(
                        "attributesToSnippet"@,
                        param_text(wv@),
                    )]);
                    lemma_seq_assoc(
                        pairs_model(old(pairs)@),
                        exp,
                        seq![("attributesToSnippet"@, param_text(wv@))],
                    );
                    exp = exp + opt_pair("attributesToSnippet"@, opt_str_list_w(self.attributes_to_snippet));
                    assert(pairs_model(pairs@) == pairs_model(old(pairs)@) + exp);
                }
            },
            Option::None => {
                proof {
                    lemma_seq_add_empty(exp);
                    exp = exp + opt_pair("attributesToSnippet"@, opt_str_list_w(self.attributes_to_snippet));
                    assert(pairs_model(pairs@) == pairs_model(old(pairs)@) + exp);
                }
            },
        }
        match &self.highlight_pre_tag {
            Option::Some(x) => {
                let wv = JsonValue::Str(x.clone());
                push_param(pairs, "highlightPreTag", &wv);
                proof {
                    assert(opt_pair("highlightPreTag"@, opt_str_w(self.highlight_pre_tag)) == seq![(
                        "highlightPreTag"@,
                        param_text(wv@),
                    )]);
                    lemma_seq_assoc(
                        pairs_model(old(pairs)@),
                        exp,
                        seq![("highlightPreTag"@, param_text(wv@))],
                    );
                    exp = exp + opt_pair("highlightPreTag"@, opt_str_w(self.highlight_pre_tag));
                    assert(pairs_model(pairs@) == pairs_model(old(pairs)@) + exp);
                }
            },
            Option::None => {
                proof {
                    lemma_seq_add_empty(exp);
                    exp = exp + opt_pair("highlightPreTag"@, opt_str_w(self.highlight_pre_tag));
                    assert(pairs_model(pairs@) == pairs_model(old(pairs)@) + exp);
                }
            },
        }
        match &self.highlight_post_tag {
            Option::Some(x) => {
                let wv = JsonValue::Str(x.clone());
                push_param(pairs, "highlightPostTag", &wv);
                proof {
                    assert(opt_pair("highlightPostTag"@, opt_str_w(self.highlight_post_tag)) == seq![(
                        "highlightPostTag"@,
                        param_text(wv@),
                    )]);
                    lemma_seq_assoc(
                        pairs_model(old(pairs)@),
                        exp,
                        seq![("highlightPostTag"@, param_text(wv@))],
                    );
                    exp = exp + opt_pair("highlightPostTag"@, opt_str_w(self.highlight_post_tag));
                    assert(pairs_model(pairs@) == pairs_model(old(pairs)@) + exp);
                }
            },
            Option::None => {
                proof {
                    lemma_seq_add_empty(exp);
                    exp = exp + opt_pair("highlightPostTag"@, opt_str_w(self.highlight_post_tag));
                    assert(pairs_model(pairs@) == pairs_model(old(pairs)@) + exp);
                }
            },
        }
        match &self.snippet_ellipsis_text {
            Option::Some(x) => {
                let wv = JsonValue::Str(x.clone());
                push_param(pairs, "snippetEllipsisText", &wv);
                proof {
                    assert(opt_pair("snippetEllipsisText"@, opt_str_w(self.snippet_ellipsis_text)) == seq![(
                        "snippetEllipsisText"@,
                        param_text(wv@),
                    )]);
                    lemma_seq_assoc(
                        pairs_model(old(pairs)@),
                        exp,
                        seq![("snippetEllipsisText"@, param_text(wv@))],
                    );
                    exp = exp + opt_pair("snippetEllipsisText"@, opt_str_w(self.snippet_ellipsis_text));
                    assert(pairs_model(pairs@) == pairs_model(old(pairs)@) + exp);
                }
            },
            Option::None => {
                proof {
                    lemma_seq_add_empty(exp);
                    exp = exp + opt_pair("snippetEllipsisText"@, opt_str_w(self.snippet_ellipsis_text));
                    assert(pairs_model(pairs@) == pairs_model(old(pairs)@) + exp);
                }
            },
        }
        match &self.restrict_highlight_and_snippet_arrays {
            Option::Some(x) => {
                let wv = JsonValue::Bool(*x);
                push_param(pairs, "restrictHighlightAndSnippetArrays", &wv);
                proof {
                    assert(opt_pair("restrictHighlightAndSnippetArrays"@, opt_bool_w(self.restrict_highlight_and_snippet_arrays)) == seq![(
                        "restrictHighlightAndSnippetArrays"@,
                        param_text(wv@),
                    )]);
                    lemma_seq_assoc(
                        pairs_model(old(pairs)@),
                        exp,
                        seq![("restrictHighlightAndSnippetArrays"@, param_text(wv@))],
                    );
                    exp = exp + opt_pair("restrictHighlightAndSnippetArrays"@, opt_bool_w(self.restrict_highlight_and_snippet_arrays));
                    assert(pairs_model(pairs@) == pairs_model(old(pairs)@) + exp);
                }
            },
            Option::None => {
                proof {
                    lemma_seq_add_empty(exp);
                    exp = exp + opt_pair("restrictHighlightAndSnippetArrays"@, opt_bool_w(self.restrict_highlight_and_snippet_arrays));
                    assert(pairs_model(pairs@) == pairs_model(old(pairs)@) + exp);
                }
            },
        }
        proof {
            reveal(SearchQuery::facet_and_highlight_pairs);
            assert(self.facet_and_highlight_pairs() == exp);
        }
    }

    #[verifier::rlimit(100)]
    #[verifier::spinoff_prover]
    fn push_paging_and_typo_params(&self, pairs: &mut Vec<(String, String)>)
        ensures
            pairs_model(final(pairs)@) == pairs_model(old(pairs)@) + self.paging_and_typo_pairs(),
    {
        let ghost mut exp: Seq<(Seq<char>, Seq<char>)> = Seq::empty();
        proof {
            lemma_seq_add_empty(pairs_model(pairs@));
            assert(pairs_model(pairs@) == pairs_model(old(pairs)@) + exp);
        }
        match &self.page {
            Option::Some(x) => {
                let wv = JsonValue::Num(*x);
                push_param(pairs, "page", &wv);
                proof {
                    assert(opt_pair("page"@, opt_u64_w(self.page)) == seq![(
                        "page"@,
                        param_text(wv@),
                    )]);
                    lemma_seq_assoc(
                        pairs_model(old(pairs)@),
                        exp,
                        seq![("page"@, param_text(wv@))],
                    );
                    exp = exp + opt_pair("page"@, opt_u64_w(self.page));
                    assert(pairs_model(pairs@) == pairs_model(old(pairs)@) + exp);
                }
            },
            Option::None => {
                proof {
                    lemma_seq_add_empty(exp);
                    exp = exp + opt_pair("page"@, opt_u64_w(self.page));
                    assert(pairs_model(pairs@) == pairs_model(old(pairs)@) + exp);
                }
            },
        }
        match &self.hits_per_page {
            Option::Some(x) => {
                let wv = JsonValue::Num(*x);
                push_param(pairs, "hitsPerPage", &wv);
                proof {
                    assert(opt_pair("hitsPerPage"@, opt_u64_w(self.hits_per_page)) == seq![(
                        "hitsPerPage"@,
                        param_text(wv@),
                    )]);
                    lemma_seq_assoc(
                        pairs_model(old(pairs)@),
                        exp,
                        seq![("hitsPerPage"@, param_text(wv@))],
                    );
                    exp = exp + opt_pair("hitsPerPage"@, opt_u64_w(self.hits_per_page));
                    assert(pairs_model(pairs@) == pairs_model(old(pairs)@) + exp);
                }
            },
            Option::None => {
                proof {
                    lemma_seq_add_empty(exp);
                    exp = exp + opt_pair("hitsPerPage"@, opt_u64_w(self.hits_per_page));
                    assert(pairs_model(pairs@) == pairs_model(old(pairs)@) + exp);
                }
            },
        }
        match &self.offset {
            Option::Some(x) => {
                let wv = JsonValue::Num(*x);
                push_param(pairs, "offset", &wv);
                proof {
                    assert(opt_pair("offset"@, opt_u64_w(self.offset)) == seq![(
                        "offset"@,
                        param_text(wv@),
                    )]);
                    lemma_seq_assoc(
                        pairs_model(old(pairs)@),
                        exp,
                        seq![("offset"@, param_text(wv@))],
                    );
                    exp = exp + opt_pair("offset"@, opt_u64_w(self.offset));
                    assert(pairs_model(pairs@) == pairs_model(old(pairs)@) + exp);
                }
            },
            Option::None => {
                proof {
                    lemma_seq_add_empty(exp);
                    exp = exp + opt_pair("offset"@, opt_u64_w(self.offset));
                    assert(pairs_model(pairs@) == pairs_model(old(pairs)@) + exp);
                }
            },
        }
        match &self.length {
            Option::Some(x) => {
                let wv = JsonValue::Num(*x);
                push_param(pairs, "length", &wv);
                proof {
                    assert(opt_pair("length"@, opt_u64_w(self.length)) == seq![(
                        "length"@,
                        param_text(wv@),
                    )]);
                    lemma_seq_assoc(
                        pairs_model(old(pairs)@),
                        exp,
                        seq![("length"@, param_text(wv@))],
                    );
                    exp = exp + opt_pair("length"@, opt_u64_w(self.length));
                    assert(pairs_model(pairs@) == pairs_model(old(pairs)@) + exp);
                }
            },
            Option::None => {
                proof {
                    lemma_seq_add_empty(exp);
                    exp = exp + opt_pair("length"@, opt_u64_w(self.length));
                    assert(pairs_model(pairs@) == pairs_model(old(pairs)@) + exp);
                }
            },
        }
        match &self.min_word_sizefor_1_typo {
            Option::Some(x) => {
                let wv = JsonValue::Num(*x);
                push_param(pairs, "minWordSizefor1Typo", &wv);
                proof {
                    assert(opt_pair("minWordSizefor1Typo"@, opt_u64_w(self.min_word_sizefor_1_typo)) == seq![(
                        "minWordSizefor1Typo"@,
                        param_text(wv@),
                    )]);
                    lemma_seq_assoc(
                        pairs_model(old(pairs)@),
                        exp,
                        seq![("minWordSizefor1Typo"@, param_text(wv@))],
                    );
                    exp = exp + opt_pair("minWordSizefor1Typo"@, opt_u64_w(self.min_word_sizefor_1_typo));
                    assert(pairs_model(pairs@) == pairs_model(old(pairs)@) + exp);
                }
            },
            Option::None => {
                proof {
                    lemma_seq_add_empty(exp);
                    exp = exp + opt_pair("minWordSizefor1Typo"@, opt_u64_w(self.min_word_sizefor_1_typo));
                    assert(pairs_model(pairs@) == pairs_model(old(pairs)@) + exp);
                }
            },
        }
        match &self.min_word_sizefor_2_typos {
            Option::Some(x) => {
                let wv = JsonValue::Num(*x);
                push_param(pairs, "minWordSizefor2Typo", &wv);
                proof {
                    assert(opt_pair("minWordSizefor2Typo"@, opt_u64_w(self.min_word_sizefor_2_typos)) == seq![(
                        "minWordSizefor2Typo"@,
                        param_text(wv@),
                    )]);
                    lemma_seq_assoc(
                        pairs_model(old(pairs)@),
                        exp,
                        seq![("minWordSizefor2Typo"@, param_text(wv@))],
                    );
                    exp = exp + opt_pair("minWordSizefor2Typo"@, opt_u64_w(self.min_word_sizefor_2_typos));
                    assert(pairs_model(pairs@) == pairs_model(old(pairs)@) + exp);
                }
            },
            Option::None => {
                proof {
                    lemma_seq_add_empty(exp);
                    exp = exp + opt_pair("minWordSizefor2Typo"@, opt_u64_w(self.min_word_sizefor_2_typos));
                    assert(pairs_model(pairs@) == pairs_model(old(pairs)@) + exp);
                }
            },
        }
        match &self.typo_tolerance {
            Option::Some(x) => {
                let wv = x.to_wire();
                push_param(pairs, "typoTolerance", &wv);
                proof {
                    assert(opt_pair("typoTolerance"@, opt_typo_w(self.typo_tolerance)) == seq![(
                        "typoTolerance"@,
                        param_text(wv@),
                    )]);
                    lemma_seq_assoc(
                        pairs_model(old(pairs)@),
                        exp,
                        seq![("typoTolerance"@, param_text(wv@))],
                    );
                    exp = exp + opt_pair("typoTolerance"@, opt_typo_w(self.typo_tolerance));
                    assert(pairs_model(pairs@) == pairs_model(old(pairs)@) + exp);
                }
            },
            Option::None => {
                proof {
                    lemma_seq_add_empty(exp);
                    exp = exp + opt_pair("typoTolerance"@, opt_typo_w(self.typo_tolerance));
                    assert(pairs_model(pairs@) == pairs_model(old(pairs)@) + exp);
                }
            },
        }
        match &self.allow_typos_on_numeric_tokens {
            Option::Some(x) => {
                let wv = JsonValue::Bool(*x);
                push_param(pairs, "allowTyposOnNumericTokens", &wv);
                proof {
                    assert(opt_pair("allowTyposOnNumericTokens"@, opt_bool_w(self.allow_typos_on_numeric_tokens)) == seq![(
                        "allowTyposOnNumericTokens"@,
                        param_text(wv@),
                    )]);
                    lemma_seq_assoc(
                        pairs_model(old(pairs)@),
                        exp,
                        seq![("allowTyposOnNumericTokens"@, param_text(wv@))],
                    );
                    exp = exp + opt_pair("allowTyposOnNumericTokens"@, opt_bool_w(self.allow_typos_on_numeric_tokens));
                    assert(pairs_model(pairs@) == pairs_model(old(pairs)@) + exp);
                }
            },
            Option::None => {
                proof {
                    lemma_seq_add_empty(exp);
                    exp = exp + opt_pair("allowTyposOnNumericTokens"@, opt_bool_w(self.allow_typos_on_numeric_tokens));
                    assert(pairs_model(pairs@) == pairs_model(old(pairs)@) + exp);
                }
            },
        }
        match &self.disable_typo_tolerance_on_attributes {
            Option::Some(x) => {
                let wv = JsonValue::Arr(str_vec_to_wire(x));
                push_param(pairs, "disableTypoToleranceOnAttributes", &wv);
                proof {
                    assert(opt_pair("disableTypoToleranceOnAttributes"@, opt_str_list_w(self.disable_typo_tolerance_on_attributes)) == seq![(
                        "disableTypoToleranceOnAttributes"@,
                        param_text(wv@),
                    )]);
                    lemma_seq_assoc(
                        pairs_model(old(pairs)@),
                        exp,
                        seq![("disableTypoToleranceOnAttributes"@, param_text(wv@))],
                    );
                    exp = exp + opt_pair("disableTypoToleranceOnAttributes"@, opt_str_list_w(self.disable_typo_tolerance_on_attributes));
                    assert(pairs_model(pairs@) == pairs_model(old(pairs)@) + exp);
                }
            },
            Option::None => {
                proof {
                    lemma_seq_add_empty(exp);
                    exp = exp + opt_pair("disableTypoToleranceOnAttributes"@, opt_str_list_w(self.disable_typo_tolerance_on_attributes));
                    assert(pairs_model(pairs@) == pairs_model(old(pairs)@) + exp);
                }
            },
        }
        proof {
            reveal(SearchQuery::paging_and_typo_pairs);
            assert(self.paging_and_typo_pairs() == exp);
        }
    }

    #[verifier::rlimit(100)]
    #[verifier::spinoff_prover]
    fn push_geo_and_language_params(&self, pairs: &mut Vec<(String, String)>)
        ensures
            pairs_model(final(pairs)@) == pairs_model(old(pairs)@) + self.geo_and_language_pairs(),
    {
        let ghost mut exp: Seq<(Seq<char>, Seq<char>)> = Seq::empty();
        proof {
            lemma_seq_add_empty(pairs_model(pairs@));
            assert(pairs_model(pairs@) == pairs_model(old(pairs)@) + exp);
        }
        match &self.around_lat_lng {
            Option::Some(x) => {
                let wv = JsonValue::Str(x.clone());
                push_param(pairs, "aroundLatLng", &wv);
                proof {
                    assert(opt_pair("aroundLatLng"@, opt_str_w(self.around_lat_lng)) == seq![(
                        "aroundLatLng"@,
                        param_text(wv@),
                    )]);
                    lemma_seq_assoc(
                        pairs_model(old(pairs)@),
                        exp,
                        seq![("aroundLatLng"@, param_text(wv@))],
                    );
                    exp = exp + opt_pair("aroundLatLng"@, opt_str_w(self.around_lat_lng));
                    assert(pairs_model(pairs@) == pairs_model(old(pairs)@) + exp);
                }
            },
            Option::None => {
                proof {
                    lemma_seq_add_empty(exp);
                    exp = exp + opt_pair("aroundLatLng"@, opt_str_w(self.around_lat_lng));
                    assert(pairs_model(pairs@) == pairs_model(old(pairs)@) + exp);
                }
            },
        }
        match &self.around_lat_lng_via_ip {
            Option::Some(x) => {
                let wv = JsonValue::Bool(*x);
                push_param(pairs, "aroundLatLngViaIP", &wv);
                proof {
                    assert(opt_pair("aroundLatLngViaIP"@, opt_bool_w(self.around_lat_lng_via_ip)) == seq![(
                        "aroundLatLngViaIP"@,
                        param_text(wv@),
                    )]);
                    lemma_seq_assoc(
                        pairs_model(old(pairs)@),
                        exp,
                        seq![("aroundLatLngViaIP"@, param_text(wv@))],
                    );
                    exp = exp + opt_pair("aroundLatLngViaIP"@, opt_bool_w(self.around_lat_lng_via_ip));
                    assert(pairs_model(pairs@) == pairs_model(old(pairs)@) + exp);
                }
            },
            Option::None => {
                proof {
                    lemma_seq_add_empty(exp);
                    exp = exp + opt_pair("aroundLatLngViaIP"@, opt_bool_w(self.around_lat_lng_via_ip));
                    assert(pairs_model(pairs@) == pairs_model(old(pairs)@) + exp);
                }
            },
        }
        match &self.around_radius {
            Option::Some(x) => {
                let wv = x.to_wire();
                push_param(pairs, "aroundRadius", &wv);
                proof {
                    assert(opt_pair("aroundRadius"@, opt_radius_w(self.around_radius)) == seq![(
                        "aroundRadius"@,
                        param_text(wv@),
                    )]);
                    lemma_seq_assoc(
                        pairs_model(old(pairs)@),
                        exp,
                        seq![("aroundRadius"@, param_text(wv@))],
                    );
                    exp = exp + opt_pair("aroundRadius"@, opt_radius_w(self.around_radius));
                    assert(pairs_model(pairs@) == pairs_model(old(pairs)@) + exp);
                }
            },
            Option::None => {
                proof {
                    lemma_seq_add_empty(exp);
                    exp = exp + opt_pair("aroundRadius"@, opt_radius_w(self.around_radius));
                    assert(pairs_model(pairs@) == pairs_model(old(pairs)@) + exp);
                }
            },
        }
        match &self.around_precision {
            Option::Some(x) => {
                let wv = JsonValue::Num(*x);
                push_param(pairs, "aroundPrecision", &wv);
                proof {
                    assert(opt_pair("aroundPrecision"@, opt_u64_w(self.around_precision)) == seq![(
                        "aroundPrecision"@,
                        param_text(wv@),
                    )]);
                    lemma_seq_assoc(
                        pairs_model(old(pairs)@),
                        exp,
                        seq![("aroundPrecision"@, param_text(wv@))],
                    );
                    exp = exp + opt_pair("aroundPrecision"@, opt_u64_w(self.around_precision));
                    assert(pairs_model(pairs@) == pairs_model(old(pairs)@) + exp);
                }
            },
            Option::None => {
                proof {
                    lemma_seq_add_empty(exp);
                    exp = exp + opt_pair("aroundPrecision"@, opt_u64_w(self.around_precision));
                    assert(pairs_model(pairs@) == pairs_model(old(pairs)@) + exp);
                }
            },
        }
        match &self.minimum_around_radius {
            Option::Some(x) => {
                let wv = JsonValue::Num(*x);
                push_param(pairs, "minimumAroundRadius", &wv);
                proof {
                    assert(opt_pair("minimumAroundRadius"@, opt_u64_w(self.minimum_around_radius)) == seq![(
                        "minimumAroundRadius"@,
                        param_text(wv@),
                    )]);
                    lemma_seq_assoc(
                        pairs_model(old(pairs)@),
                        exp,
                        seq![("minimumAroundRadius"@, param_text(wv@))],
                    );
                    exp = exp + opt_pair("minimumAroundRadius"@, opt_u64_w(self.minimum_around_radius));
                    assert(pairs_model(pairs@) == pairs_model(old(pairs)@) + exp);
                }
            },
            Option::None => {
                proof {
                    lemma_seq_add_empty(exp);
                    exp = exp + opt_pair("minimumAroundRadius"@, opt_u64_w(self.minimum_around_radius));
                    assert(pairs_model(pairs@) == pairs_model(old(pairs)@) + exp);
                }
            },
        }
        match &self.ignore_plurals {
            Option::Some(x) => {
                let wv = x.to_wire();
                push_param(pairs, "ignorePlurals", &wv);
                proof {
                    assert(opt_pair("ignorePlurals"@, opt_plurals_w(self.ignore_plurals)) == seq![(
                        "ignorePlurals"@,
                        param_text(wv@),
                    )]);
                    lemma_seq_assoc(
                        pairs_model(old(pairs)@),
                        exp,
                        seq![("ignorePlurals"@, param_text(wv@))],
                    );
                    exp = exp + opt_pair("ignorePlurals"@, opt_plurals_w(self.ignore_plurals));
                    assert(pairs_model(pairs@) == pairs_model(old(pairs)@) + exp);
                }
            },
            Option::None => {
                proof {
                    lemma_seq_add_empty(exp);
                    exp = exp + opt_pair("ignorePlurals"@, opt_plurals_w(self.ignore_plurals));
                    assert(pairs_model(pairs@) == pairs_model(old(pairs)@) + exp);
                }
            },
        }
        match &self.remove_stop_words {
            Option::Some(x) => {
                let wv = x.to_wire();
                push_param(pairs, "removeStopWords", &wv);
                proof {
                    assert(opt_pair("removeStopWords"@, opt_plurals_w(self.remove_stop_words)) == seq![(
                        "removeStopWords"@,
                        param_text(wv@),
                    )]);
                    lemma_seq_assoc(
                        pairs_model(old(pairs)@),
                        exp,
                        seq![("removeStopWords"@, param_text(wv@))],
                    );
                    exp = exp + opt_pair("removeStopWords"@, opt_plurals_w(self.remove_stop_words));
                    assert(pairs_model(pairs@) == pairs_model(old(pairs)@) + exp);
                }
            },
            Option::None => {
                proof {
                    lemma_seq_add_empty(exp);
                    exp = exp + opt_pair("removeStopWords"@, opt_plurals_w(self.remove_stop_words));
                    assert(pairs_model(pairs@) == pairs_model(old(pairs)@) + exp);
                }
            },
        }
        match &self.query_languages {
            Option::Some(x) => {
                let wv = JsonValue::Arr(str_vec_to_wire(x));
                push_param(pairs, "queryLanguages", &wv);
                proof {
                    assert(opt_pair("queryLanguages"@, opt_str_list_w(self.query_languages)) == seq![(
                        "queryLanguages"@,
                        param_text(wv@),
                    )]);
                    lemma_seq_assoc(
                        pairs_model(old(pairs)@),
                        exp,
                        seq![("queryLanguages"@, param_text(wv@))],
                    );
                    exp = exp + opt_pair("queryLanguages"@, opt_str_list_w(self.query_languages));
                    assert(pairs_model(pairs@) == pairs_model(old(pairs)@) + exp);
                }
            },
            Option::None => {
                proof {
                    lemma_seq_add_empty(exp);
                    exp = exp + opt_pair("queryLanguages"@, opt_str_list_w(self.query_languages));
                    assert(pairs_model(pairs@) == pairs_model(old(pairs)@) + exp);
                }
            },
        }
        proof {
            reveal(SearchQuery::geo_and_language_pairs);
            assert(self.geo_and_language_pairs() == exp);
        }
    }

    #[verifier::rlimit(100)]
    #[verifier::spinoff_prover]
    fn push_strategy_params(&self, pairs: &mut Vec<(String, String)>)
        ensures
            pairs_model(final(pairs)@) == pairs_model(old(pairs)@) + self.strategy_pairs(),
    {
        let ghost mut exp: Seq<(Seq<char>, Seq<char>)> = Seq::empty();
        proof {
            lemma_seq_add_empty(pairs_model(pairs@));
            assert(pairs_model(pairs@) == pairs_model(old(pairs)@) + exp);
        }
        match &self.query_type {
            Option::Some(x) => {
                let wv = x.to_wire();
                push_param(pairs, "queryType", &wv);
                proof {
                    assert(opt_pair("queryType"@, opt_qtype_w(self.query_type)) == seq![(
                        "queryType"@,
                        param_text(wv@),
                    )]);
                    lemma_seq_assoc(
                        pairs_model(old(pairs)@),
                        exp,
                        seq![("queryType"@, param_text(wv@))],
                    );
                    exp = exp + opt_pair("queryType"@, opt_qtype_w(self.query_type));
                    assert(pairs_model(pairs@) == pairs_model(old(pairs)@) + exp);
                }
            },
            Option::None => {
                proof {
                    lemma_seq_add_empty(exp);
                    exp = exp + opt_pair("queryType"@, opt_qtype_w(self.query_type));
                    assert(pairs_model(pairs@) == pairs_model(old(pairs)@) + exp);
                }
            },
        }
        match &self.remove_words_if_no_results {
            Option::Some(x) => {
                let wv = x.to_wire();
                push_param(pairs, "removeWordsIfNoResults", &wv);
                proof {
                    assert(opt_pair("removeWordsIfNoResults"@, opt_remove_w(self.remove_words_if_no_results)) == seq![(
                        "removeWordsIfNoResults"@,
                        param_text(wv@),
                    )]);
                    lemma_seq_assoc(
                        pairs_model(old(pairs)@),
                        exp,
                        seq![("removeWordsIfNoResults"@, param_text(wv@))],
                    );
                    exp = exp + opt_pair("removeWordsIfNoResults"@, opt_remove_w(self.remove_words_if_no_results));
                    assert(pairs_model(pairs@) == pairs_model(old(pairs)@) + exp);
                }
            },
            Option::None => {
                proof {
                    lemma_seq_add_empty(exp);
                    exp = exp + opt_pair("removeWordsIfNoResults"@, opt_remove_w(self.remove_words_if_no_results));
                    assert(pairs_model(pairs@) == pairs_model(old(pairs)@) + exp);
                }
            },
        }
        match &self.advanced_syntax {
            Option::Some(x) => {
                let wv = JsonValue::Bool(*x);
                push_param(pairs, "advancedSyntax", &wv);
                proof {
                    assert(opt_pair("advancedSyntax"@, opt_bool_w(self.advanced_syntax)) == seq![(
                        "advancedSyntax"@,
                        param_text(wv@),
                    )]);
                    lemma_seq_assoc(
                        pairs_model(old(pairs)@),
                        exp,
                        seq![("advancedSyntax"@, param_text(wv@))],
                    );
                    exp = exp + opt_pair("advancedSyntax"@, opt_bool_w(self.advanced_syntax));
                    assert(pairs_model(pairs@) == pairs_model(old(pairs)@) + exp);
                }
            },
            Option::None => {
                proof {
                    lemma_seq_add_empty(exp);
                    exp = exp + opt_pair("advancedSyntax"@, opt_bool_w(self.advanced_syntax));
                    assert(pairs_model(pairs@) == pairs_model(old(pairs)@) + exp);
                }
            },
        }
        match &self.optional_words {
            Option::Some(x) => {
                let wv = JsonValue::Arr(str_vec_to_wire(x));
                push_param(pairs, "optionalWords", &wv);
                proof {
                    assert(opt_pair("optionalWords"@, opt_str_list_w(self.optional_words)) == seq![(
                        "optionalWords"@,
                        param_text(wv@),
                    )]);
                    lemma_seq_assoc(
                        pairs_model(old(pairs)@),
                        exp,
                        seq![("optionalWords"@, param_text(wv@))],
                    );
                    exp = exp + opt_pair("optionalWords"@, opt_str_list_w(self.optional_words));
                    assert(pairs_model(pairs@) == pairs_model(old(pairs)@) + exp);
                }
            },
            Option::None => {
                proof {
                    lemma_seq_add_empty(exp);
                    exp = exp + opt_pair("optionalWords"@, opt_str_list_w(self.optional_words));
                    assert(pairs_model(pairs@) == pairs_model(old(pairs)@) + exp);
                }
            },
        }
        match &self.disable_exact_on_attributes {
            Option::Some(x) => {
                let wv = JsonValue::Arr(str_vec_to_wire(x));
                push_param(pairs, "disableExactOnAttributes", &wv);
                proof {
                    assert(opt_pair("disableExactOnAttributes"@, opt_str_list_w(self.disable_exact_on_attributes)) == seq![(
                        "disableExactOnAttributes"@,
                        param_text(wv@),
                    )]);
                    lemma_seq_assoc(
                        pairs_model(old(pairs)@),
                        exp,
                        seq![("disableExactOnAttributes"@, param_text(wv@))],
                    );
                    exp = exp + opt_pair("disableExactOnAttributes"@, opt_str_list_w(self.disable_exact_on_attributes));
                    assert(pairs_model(pairs@) == pairs_model(old(pairs)@) + exp);
                }
            },
            Option::None => {
                proof {
                    lemma_seq_add_empty(exp);
                    exp = exp + opt_pair("disableExactOnAttributes"@, opt_str_list_w(self.disable_exact_on_attributes));
                    assert(pairs_model(pairs@) == pairs_model(old(pairs)@) + exp);
                }
            },
        }
        match &self.exact_on_single_word_query {
            Option::Some(x) => {
                let wv = x.to_wire();
                push_param(pairs, "exactOnSingleWordQuery", &wv);
                proof {
                    assert(opt_pair("exactOnSingleWordQuery"@, opt_exact_w(self.exact_on_single_word_query)) == seq![(
                        "exactOnSingleWordQuery"@,
                        param_text(wv@),
                    )]);
                    lemma_seq_assoc(
                        pairs_model(old(pairs)@),
                        exp,
                        seq![("exactOnSingleWordQuery"@, param_text(wv@))],
                    );
                    exp = exp + opt_pair("exactOnSingleWordQuery"@, opt_exact_w(self.exact_on_single_word_query));
                    assert(pairs_model(pairs@) == pairs_model(old(pairs)@) + exp);
                }
            },
            Option::None => {
                proof {
                    lemma_seq_add_empty(exp);
                    exp = exp + opt_pair("exactOnSingleWordQuery"@, opt_exact_w(self.exact_on_single_word_query));
                    assert(pairs_model(pairs@) == pairs_model(old(pairs)@) + exp);
                }
            },
        }
        proof {
            reveal(SearchQuery::strategy_pairs);
    reveal(SearchQuery::rules_pairs);
            assert(self.strategy_pairs() == exp);
        }
    }

    #[verifier::rlimit(100)]
    #[verifier::spinoff_prover]
    fn push_rules_params(&self, pairs: &mut Vec<(String, String)>)
        ensures
            pairs_model(final(pairs)@) == pairs_model(old(pairs)@) + self.rules_pairs(),
    {
        let ghost mut exp: Seq<(Seq<char>, Seq<char>)> = Seq::empty();
        proof {
            lemma_seq_add_empty(pairs_model(pairs@));
            assert(pairs_model(pairs@) == pairs_model(old(pairs)@) + exp);
        }
        match &self.alternatives_as_exact {
            Option::Some(x) => {
                let wv = x.to_wire();
                push_param(pairs, "alternativesAsExact", &wv);
                proof {
                    assert(opt_pair("alternativesAsExact"@, opt_alt_w(self.alternatives_as_exact)) == seq![(
                        "alternativesAsExact"@,
                        param_text(wv@),
                    )]);
                    lemma_seq_assoc(
                        pairs_model(old(pairs)@),
                        exp,
                        seq![("alternativesAsExact"@, param_text(wv@))],
                    );
                    exp = exp + opt_pair("alternativesAsExact"@, opt_alt_w(self.alternatives_as_exact));
                    assert(pairs_model(pairs@) == pairs_model(old(pairs)@) + exp);
                }
            },
            Option::None => {
                proof {
                    lemma_seq_add_empty(exp);
                    exp = exp + opt_pair("alternativesAsExact"@, opt_alt_w(self.alternatives_as_exact));
                    assert(pairs_model(pairs@) == pairs_model(old(pairs)@) + exp);
                }
            },
        }
        match &self.enable_rules {
            Option::Some(x) => {
                let wv = JsonValue::Bool(*x);
                push_param(pairs, "enableRules", &wv);
                proof {
                    assert(opt_pair("enableRules"@, opt_bool_w(self.enable_rules)) == seq![(
                        "enableRules"@,
                        param_text(wv@),
                    )]);
                    lemma_seq_assoc(
                        pairs_model(old(pairs)@),
                        exp,
                        seq![("enableRules"@, param_text(wv@))],
                    );
                    exp = exp + opt_pair("enableRules"@, opt_bool_w(self.enable_rules));
                    assert(pairs_model(pairs@) == pairs_model(old(pairs)@) + exp);
                }
            },
            Option::None => {
                proof {
                    lemma_seq_add_empty(exp);
                    exp = exp + opt_pair("enableRules"@, opt_bool_w(self.enable_rules));
                    assert(pairs_model(pairs@) == pairs_model(old(pairs)@) + exp);
                }
            },
        }
        match &self.rule_contexts {
            Option::Some(x) => {
                let wv = JsonValue::Arr(str_vec_to_wire(x));
                push_param(pairs, "ruleContexts", &wv);
                proof {
                    assert(opt_pair("ruleContexts"@, opt_str_list_w(self.rule_contexts)) == seq![(
                        "ruleContexts"@,
                        param_text(wv@),
                    )]);
                    lemma_seq_assoc(
                        pairs_model(old(pairs)@),
                        exp,
                        seq![("ruleContexts"@, param_text(wv@))],
                    );
                    exp = exp + opt_pair("ruleContexts"@, opt_str_list_w(self.rule_contexts));
                    assert(pairs_model(pairs@) == pairs_model(old(pairs)@) + exp);
                }
            },
            Option::None => {
                proof {
                    lemma_seq_add_empty(exp);
                    exp = exp + opt_pair("ruleContexts"@, opt_str_list_w(self.rule_contexts));
                    assert(pairs_model(pairs@) == pairs_model(old(pairs)@) + exp);
                }
            },
        }
        match &self.enable_personalization {
            Option::Some(x) => {
                let wv = JsonValue::Bool(*x);
                push_param(pairs, "enablePersonalization", &wv);
                proof {
                    assert(opt_pair("enablePersonalization"@, opt_bool_w(self.enable_personalization)) == seq![(
                        "enablePersonalization"@,
                        param_text(wv@),
                    )]);
                    lemma_seq_assoc(
                        pairs_model(old(pairs)@),
                        exp,
                        seq![("enablePersonalization"@, param_text(wv@))],
                    );
                    exp = exp + opt_pair("enablePersonalization"@, opt_bool_w(self.enable_personalization));
                    assert(pairs_model(pairs@) == pairs_model(old(pairs)@) + exp);
                }
            },
            Option::None => {
                proof {
                    lemma_seq_add_empty(exp);
                    exp = exp + opt_pair("enablePersonalization"@, opt_bool_w(self.enable_personalization));
                    assert(pairs_model(pairs@) == pairs_model(old(pairs)@) + exp);
                }
            },
        }
        match &self.user_token {
            Option::Some(x) => {
                let wv = JsonValue::Str(x.clone());
                push_param(pairs, "userToken", &wv);
                proof {
                    assert(opt_pair("userToken"@, opt_str_w(self.user_token)) == seq![(
                        "userToken"@,
                        param_text(wv@),
                    )]);
                    lemma_seq_assoc(
                        pairs_model(old(pairs)@),
                        exp,
                        seq![("userToken"@, param_text(wv@))],
                    );
                    exp = exp + opt_pair("userToken"@, opt_str_w(self.user_token));
                    assert(pairs_model(pairs@) == pairs_model(old(pairs)@) + exp);
                }
            },
            Option::None => {
                proof {
                    lemma_seq_add_empty(exp);
                    exp = exp + opt_pair("userToken"@, opt_str_w(self.user_token));
                    assert(pairs_model(pairs@) == pairs_model(old(pairs)@) + exp);
                }
            },
        }
        proof {
            reveal(SearchQuery::rules_pairs);
            assert(self.rules_pairs() == exp);
        }
    }

    #[verifier::rlimit(100)]
    #[verifier::spinoff_prover]
    fn push_advanced_params(&self, pairs: &mut Vec<(String, String)>)
        ensures
            pairs_model(final(pairs)@) == pairs_model(old(pairs)@) + self.advanced_pairs(),
    {
        let ghost mut exp: Seq<(Seq<char>, Seq<char>)> = Seq::empty();
        proof {
            lemma_seq_add_empty(pairs_model(pairs@));
            assert(pairs_model(pairs@) == pairs_model(old(pairs)@) + exp);
        }
        match &self.distinct {
            Option::Some(x) => {
                let wv = x.to_wire();
                push_param(pairs, "distinct", &wv);
                proof {
                    assert(opt_pair("distinct"@, opt_distinct_w(self.distinct)) == seq![(
                        "distinct"@,
                        param_text(wv@),
                    )]);
                    lemma_seq_assoc(
                        pairs_model(old(pairs)@),
                        exp,
                        seq![("distinct"@, param_text(wv@))],
                    );
                    exp = exp + opt_pair("distinct"@, opt_distinct_w(self.distinct));
                    assert(pairs_model(pairs@) == pairs_model(old(pairs)@) + exp);
                }
            },
            Option::None => {
                proof {
                    lemma_seq_add_empty(exp);
                    exp = exp + opt_pair("distinct"@, opt_distinct_w(self.distinct));
                    assert(pairs_model(pairs@) == pairs_model(old(pairs)@) + exp);
                }
            },
        }
        match &self.get_ranking_info {
            Option::Some(x) => {
                let wv = JsonValue::Bool(*x);
                push_param(pairs, "getRankingInfo", &wv);
                proof {
                    assert(opt_pair("getRankingInfo"@, opt_bool_w(self.get_ranking_info)) == seq![(
                        "getRankingInfo"@,
                        param_text(wv@),
                    )]);
                    lemma_seq_assoc(
                        pairs_model(old(pairs)@),
                        exp,
                        seq![("getRankingInfo"@, param_text(wv@))],
                    );
                    exp = exp + opt_pair("getRankingInfo"@, opt_bool_w(self.get_ranking_info));
                    assert(pairs_model(pairs@) == pairs_model(old(pairs)@) + exp);
                }
            },
            Option::None => {
                proof {
                    lemma_seq_add_empty(exp);
                    exp = exp + opt_pair("getRankingInfo"@, opt_bool_w(self.get_ranking_info));
                    assert(pairs_model(pairs@) == pairs_model(old(pairs)@) + exp);
                }
            },
        }
        match &self.click_analytics {
            Option::Some(x) => {
                let wv = JsonValue::Bool(*x);
                push_param(pairs, "clickAnalytics", &wv);
                proof {
                    assert(opt_pair("clickAnalytics"@, opt_bool_w(self.click_analytics)) == seq![(
                        "clickAnalytics"@,
                        param_text(wv@),
                    )]);
                    lemma_seq_assoc(
                        pairs_model(old(pairs)@),
                        exp,
                        seq![("clickAnalytics"@, param_text(wv@))],
                    );
                    exp = exp + opt_pair("clickAnalytics"@, opt_bool_w(self.click_analytics));
                    assert(pairs_model(pairs@) == pairs_model(old(pairs)@) + exp);
                }
            },
            Option::None => {
                proof {
                    lemma_seq_add_empty(exp);
                    exp = exp + opt_pair("clickAnalytics"@, opt_bool_w(self.click_analytics));
                    assert(pairs_model(pairs@) == pairs_model(old(pairs)@) + exp);
                }
            },
        }
        match &self.analytics {
            Option::Some(x) => {
                let wv = JsonValue::Bool(*x);
                push_param(pairs, "analytics", &wv);
                proof {
                    assert(opt_pair("analytics"@, opt_bool_w(self.analytics)) == seq![(
                        "analytics"@,
                        param_text(wv@),
                    )]);
                    lemma_seq_assoc(
                        pairs_model(old(pairs)@),
                        exp,
                        seq![("analytics"@, param_text(wv@))],
                    );
                    exp = exp + opt_pair("analytics"@, opt_bool_w(self.analytics));
                    assert(pairs_model(pairs@) == pairs_model(old(pairs)@) + exp);
                }
            },
            Option::None => {
                proof {
                    lemma_seq_add_empty(exp);
                    exp = exp + opt_pair("analytics"@, opt_bool_w(self.analytics));
                    assert(pairs_model(pairs@) == pairs_model(old(pairs)@) + exp);
                }
            },
        }
        match &self.analytics_tags {
            Option::Some(x) => {
                let wv = JsonValue::Arr(str_vec_to_wire(x));
                push_param(pairs, "analyticsTags", &wv);
                proof {
                    assert(opt_pair("analyticsTags"@, opt_str_list_w(self.analytics_tags)) == seq![(
                        "analyticsTags"@,
                        param_text(wv@),
                    )]);
                    lemma_seq_assoc(
                        pairs_model(old(pairs)@),
                        exp,
                        seq![("analyticsTags"@, param_text(wv@))],
                    );
                    exp = exp + opt_pair("analyticsTags"@, opt_str_list_w(self.analytics_tags));
                    assert(pairs_model(pairs@) == pairs_model(old(pairs)@) + exp);
                }
            },
            Option::None => {
                proof {
                    lemma_seq_add_empty(exp);
                    exp = exp + opt_pair("analyticsTags"@, opt_str_list_w(self.analytics_tags));
                    assert(pairs_model(pairs@) == pairs_model(old(pairs)@) + exp);
                }
            },
        }
        match &self.synonyms {
            Option::Some(x) => {
                let wv = JsonValue::Bool(*x);
                push_param(pairs, "synonyms", &wv);
                proof {
                    assert(opt_pair("synonyms"@, opt_bool_w(self.synonyms)) == seq![(
                        "synonyms"@,
                        param_text(wv@),
                    )]);
                    lemma_seq_assoc(
                        pairs_model(old(pairs)@),
                        exp,
                        seq![("synonyms"@, param_text(wv@))],
                    );
                    exp = exp + opt_pair("synonyms"@, opt_bool_w(self.synonyms));
                    assert(pairs_model(pairs@) == pairs_model(old(pairs)@) + exp);
                }
            },
            Option::None => {
                proof {
                    lemma_seq_add_empty(exp);
                    exp = exp + opt_pair("synonyms"@, opt_bool_w(self.synonyms));
                    assert(pairs_model(pairs@) == pairs_model(old(pairs)@) + exp);
                }
            },
        }
        match &self.replace_synonyms_in_highlight {
            Option::Some(x) => {
                let wv = JsonValue::Bool(*x);
                push_param(pairs, "replaceSynonymsInHighlight", &wv);
                proof {
                    assert(opt_pair("replaceSynonymsInHighlight"@, opt_bool_w(self.replace_synonyms_in_highlight)) == seq![(
                        "replaceSynonymsInHighlight"@,
                        param_text(wv@),
                    )]);
                    lemma_seq_assoc(
                        pairs_model(old(pairs)@),
                        exp,
                        seq![("replaceSynonymsInHighlight"@, param_text(wv@))],
                    );
                    exp = exp + opt_pair("replaceSynonymsInHighlight"@, opt_bool_w(self.replace_synonyms_in_highlight));
                    assert(pairs_model(pairs@) == pairs_model(old(pairs)@) + exp);
                }
            },
            Option::None => {
                proof {
                    lemma_seq_add_empty(exp);
                    exp = exp + opt_pair("replaceSynonymsInHighlight"@, opt_bool_w(self.replace_synonyms_in_highlight));
                    assert(pairs_model(pairs@) == pairs_model(old(pairs)@) + exp);
                }
            },
        }
        match &self.min_proximity {
            Option::Some(x) => {
                let wv = x.to_wire();
                push_param(pairs, "minProximity", &wv);
                proof {
                    assert(opt_pair("minProximity"@, opt_minprox_w(self.min_proximity)) == seq![(
                        "minProximity"@,
                        param_text(wv@),
                    )]);
                    lemma_seq_assoc(
                        pairs_model(old(pairs)@),
                        exp,
                        seq![("minProximity"@, param_text(wv@))],
                    );
                    exp = exp + opt_pair("minProximity"@, opt_minprox_w(self.min_proximity));
                    assert(pairs_model(pairs@) == pairs_model(old(pairs)@) + exp);
                }
            },
            Option::None => {
                proof {
                    lemma_seq_add_empty(exp);
                    exp = exp + opt_pair("minProximity"@, opt_minprox_w(self.min_proximity));
                    assert(pairs_model(pairs@) == pairs_model(old(pairs)@) + exp);
                }
            },
        }
        match &self.response_fields {
            Option::Some(x) => {
                let wv = JsonValue::Arr(str_vec_to_wire(x));
                push_param(pairs, "responseFields", &wv);
                proof {
                    assert(opt_pair("responseFields"@, opt_str_list_w(self.response_fields)) == seq![(
                        "responseFields"@,
                        param_text(wv@),
                    )]);
                    lemma_seq_assoc(
                        pairs_model(old(pairs)@),
                        exp,
                        seq![("responseFields"@, param_text(wv@))],
                    );
                    exp = exp + opt_pair("responseFields"@, opt_str_list_w(self.response_fields));
                    assert(pairs_model(pairs@) == pairs_model(old(pairs)@) + exp);
                }
            },
            Option::None => {
                proof {
                    lemma_seq_add_empty(exp);
                    exp = exp + opt_pair("responseFields"@, opt_str_list_w(self.response_fields));
                    assert(pairs_model(pairs@) == pairs_model(old(pairs)@) + exp);
                }
            },
        }
        match &self.max_facet_hits {
            Option::Some(x) => {
                let wv = JsonValue::Num(*x);
                push_param(pairs, "maxFacetHits", &wv);
                proof {
                    assert(opt_pair("maxFacetHits"@, opt_u64_w(self.max_facet_hits)) == seq![(
                        "maxFacetHits"@,
                        param_text(wv@),
                    )]);
                    lemma_seq_assoc(
                        pairs_model(old(pairs)@),
                        exp,
                        seq![("maxFacetHits"@, param_text(wv@))],
                    );
                    exp = exp + opt_pair("maxFacetHits"@, opt_u64_w(self.max_facet_hits));
                    assert(pairs_model(pairs@) == pairs_model(old(pairs)@) + exp);
                }
            },
            Option::None => {
                proof {
                    lemma_seq_add_empty(exp);
                    exp = exp + opt_pair("maxFacetHits"@, opt_u64_w(self.max_facet_hits));
                    assert(pairs_model(pairs@) == pairs_model(old(pairs)@) + exp);
                }
            },
        }
        match &self.percentile_computation {
            Option::Some(x) => {
                let wv = JsonValue::Num(*x);
                push_param(pairs, "percentileComputation", &wv);
                proof {
                    assert(opt_pair("percentileComputation"@, opt_u64_w(self.percentile_computation)) == seq![(
                        "percentileComputation"@,
                        param_text(wv@),
                    )]);
                    lemma_seq_assoc(
                        pairs_model(old(pairs)@),
                        exp,
                        seq![("percentileComputation"@, param_text(wv@))],
                    );
                    exp = exp + opt_pair("percentileComputation"@, opt_u64_w(self.percentile_computation));
                    assert(pairs_model(pairs@) == pairs_model(old(pairs)@) + exp);
                }
            },
            Option::None => {
                proof {
                    lemma_seq_add_empty(exp);
                    exp = exp + opt_pair("percentileComputation"@, opt_u64_w(self.percentile_computation));
                    assert(pairs_model(pairs@) == pairs_model(old(pairs)@) + exp);
                }
            },
        }
        proof {
            reveal(SearchQuery::advanced_pairs);
            assert(self.advanced_pairs() == exp);
        }
    }

    /// The set fields as name/text pairs, in declaration order.
    pub fn to_param_pairs(&self) -> (r: Vec<(String, String)>)
        ensures
            pairs_model(r@) == self.param_pairs(),
    {
        let mut pairs: Vec<(String, String)> = Vec::new();
        proof {
            assert(pairs_model(pairs@) =~= Seq::<(Seq<char>, Seq<char>)>::empty());
        }
        self.push_text_and_filter_params(&mut pairs);
        self.push_facet_and_highlight_params(&mut pairs);
        self.push_paging_and_typo_params(&mut pairs);
        self.push_geo_and_language_params(&mut pairs);
        self.push_strategy_params(&mut pairs);
        self.push_rules_params(&mut pairs);
        self.push_advanced_params(&mut pairs);
        proof {
            assert(pairs_model(pairs@) =~= self.param_pairs());
        }
        pairs
    }

    /// The complete urlencoded parameter string for this query.
    pub fn to_params_string(&self) -> (r: String)
        ensures
            r@ == params_of(self.param_pairs()),
    {
        let pairs = self.to_param_pairs();
        params_string(&pairs)
    }

    /// The search request body: a JSON envelope whose single field
    /// `params` holds the urlencoded parameter string.
    pub fn to_search_body(&self) -> (r: String)
        ensures
            r@ == render(
                JsonModel::Obj(
                    seq![("params"@, JsonModel::Str(params_of(self.param_pairs())))],
                ),
            ),
    {
        let ps = self.to_params_string();
        let mut entries: Vec<(String, JsonValue)> = Vec::new();
        let ghost empty_entries = entries@;
        let key = "params".to_owned();
        let value = JsonValue::Str(ps);
        let ghost kv = (key, value);
        entries.push((key, value));
        proof {
            crate::json::lemma_obj_model_push(empty_entries, kv);
            assert(crate::json::obj_model(empty_entries) =~= Seq::<
                (Seq<char>, JsonModel),
            >::empty());
            assert(crate::json::obj_model(entries@) =~= seq![(
                "params"@,
                JsonModel::Str(params_of(self.param_pairs())),
            )]);
        }
        let body = JsonValue::Obj(entries);
        body.to_json_text()
    }
}

/// A query with only its text set produces exactly one pair, named
/// `query`, and nothing else.
pub proof fn lemma_query_only_params(q: SearchQuery)
    requires
        q.query matches Option::Some(_),
        q.attributes_to_retrieve is None,
        q.restrict_searchable_attributes is None,
        q.filters is None,
        q.facet_filters is None,
        q.optional_filters is None,
        q.numeric_filters is None,
        q.tag_filters is None,
        q.sum_or_filters_scores is None,
        q.facets is None,
        q.max_values_per_facet is None,
        q.faceting_after_distinct is None,
        q.sort_facet_values_by is None,
        q.attributes_to_highlight is None,
        q.attributes_to_snippet is None,
        q.highlight_pre_tag is None,
        q.highlight_post_tag is None,
        q.snippet_ellipsis_text is None,
        q.restrict_highlight_and_snippet_arrays is None,
        q.page is None,
        q.hits_per_page is None,
        q.offset is None,
        q.length is None,
        q.min_word_sizefor_1_typo is None,
        q.min_word_sizefor_2_typos is None,
        q.typo_tolerance is None,
        q.allow_typos_on_numeric_tokens is None,
        q.disable_typo_tolerance_on_attributes is None,
        q.around_lat_lng is None,
        q.around_lat_lng_via_ip is None,
        q.around_radius is None,
        q.around_precision is None,
        q.minimum_around_radius is None,
        q.ignore_plurals is None,
        q.remove_stop_words is None,
        q.query_languages is None,
        q.query_type is None,
        q.remove_words_if_no_results is None,
        q.advanced_syntax is None,
        q.optional_words is None,
        q.disable_exact_on_attributes is None,
        q.exact_on_single_word_query is None,
        q.alternatives_as_exact is None,
        q.enable_rules is None,
        q.rule_contexts is None,
        q.enable_personalization is None,
        q.user_token is None,
        q.distinct is None,
        q.get_ranking_info is None,
        q.click_analytics is None,
        q.analytics is None,
        q.analytics_tags is None,
        q.synonyms is None,
        q.replace_synonyms_in_highlight is None,
        q.min_proximity is None,
        q.response_fields is None,
        q.max_facet_hits is None,
        q.percentile_computation is None,
    ensures
        q.param_pairs() == seq![("query"@, q.query->0@)],
        params_of(q.param_pairs()) == form_escape("query"@) + seq!['='] + form_escape(
            q.query->0@,
        ),
        all_unreserved(q.query->0@) ==> params_of(q.param_pairs()) == "query="@ + q.query->0@,
{
    reveal(SearchQuery::text_and_filter_pairs);
    reveal(SearchQuery::facet_and_highlight_pairs);
    reveal(SearchQuery::paging_and_typo_pairs);
    reveal(SearchQuery::geo_and_language_pairs);
    reveal(SearchQuery::strategy_pairs);
    reveal(SearchQuery::rules_pairs);
    reveal(SearchQuery::advanced_pairs);
    assert(q.text_and_filter_pairs() =~= seq![("query"@, q.query->0@)]);
    assert(q.facet_and_highlight_pairs() =~= Seq::<(Seq<char>, Seq<char>)>::empty());
    assert(q.paging_and_typo_pairs() =~= Seq::<(Seq<char>, Seq<char>)>::empty());
    assert(q.geo_and_language_pairs() =~= Seq::<(Seq<char>, Seq<char>)>::empty());
    assert(q.strategy_pairs() =~= Seq::<(Seq<char>, Seq<char>)>::empty());
    assert(q.rules_pairs() =~= Seq::<(Seq<char>, Seq<char>)>::empty());
    assert(q.advanced_pairs() =~= Seq::<(Seq<char>, Seq<char>)>::empty());
    assert(q.param_pairs() =~= seq![("query"@, q.query->0@)]);
    let pairs = q.param_pairs();
    assert(pairs.drop_first() =~= Seq::<(Seq<char>, Seq<char>)>::empty());
    assert(params_rest(Seq::<(Seq<char>, Seq<char>)>::empty()) =~= Seq::<char>::empty());
    assert(params_of(pairs) =~= pair_text(pairs[0]));
    assert(params_of(pairs) =~= form_escape("query"@) + seq!['='] + form_escape(q.query->0@));
    reveal_strlit("query");
    reveal_strlit("query=");
    assert forall|i: int| 0 <= i < "query"@.len() implies ((#[trigger] "query"@[i]) as u32) < 0x80
        && crate::urlenc::is_unreserved_byte((("query"@[i] as u32) as u8)) by {
        assert("query"@[0] == 'q');
        assert("query"@[1] == 'u');
        assert("query"@[2] == 'e');
        assert("query"@[3] == 'r');
        assert("query"@[4] == 'y');
    }
    lemma_form_escape_unreserved("query"@);
    if all_unreserved(q.query->0@) {
        lemma_form_escape_unreserved(q.query->0@);
        assert("query="@ =~= "query"@ + seq!['=']);
        assert(params_of(pairs) =~= "query="@ + q.query->0@);
    }
}

/// A query with no field set produces no pairs: its parameter string
/// is empty.
pub proof fn lemma_unset_query_params(q: SearchQuery)
    requires
        q == SearchQuery::unset(),
    ensures
        q.param_pairs() == Seq::<(Seq<char>, Seq<char>)>::empty(),
        params_of(q.param_pairs()) == Seq::<char>::empty(),
{
    reveal(SearchQuery::text_and_filter_pairs);
    reveal(SearchQuery::facet_and_highlight_pairs);
    reveal(SearchQuery::paging_and_typo_pairs);
    reveal(SearchQuery::geo_and_language_pairs);
    reveal(SearchQuery::strategy_pairs);
    reveal(SearchQuery::rules_pairs);
    reveal(SearchQuery::advanced_pairs);
    assert(q.text_and_filter_pairs() =~= Seq::<(Seq<char>, Seq<char>)>::empty());
    assert(q.facet_and_highlight_pairs() =~= Seq::<(Seq<char>, Seq<char>)>::empty());
    assert(q.paging_and_typo_pairs() =~= Seq::<(Seq<char>, Seq<char>)>::empty());
    assert(q.geo_and_language_pairs() =~= Seq::<(Seq<char>, Seq<char>)>::empty());
    assert(q.strategy_pairs() =~= Seq::<(Seq<char>, Seq<char>)>::empty());
    assert(q.rules_pairs() =~= Seq::<(Seq<char>, Seq<char>)>::empty());
    assert(q.advanced_pairs() =~= Seq::<(Seq<char>, Seq<char>)>::empty());
    assert(q.param_pairs() =~= Seq::<(Seq<char>, Seq<char>)>::empty());
}


/// Decodes a required unsigned-integer field.
pub open spec fn dec_req_u64(o: Option<JsonModel>, name: Seq<char>) -> Result<u64, Seq<char>> {
    match o {
        Option::None => Result::Err(missing_field_msg(name)),
        Option::Some(m) => match m {
            JsonModel::Num(n) => Result::Ok(n),
            other => Result::Err(invalid_type_msg(other, "u64"@)),
        },
    }
}

/// Decodes a required string field.
pub open spec fn dec_req_str(o: Option<JsonModel>, name: Seq<char>) -> Result<
    Seq<char>,
    Seq<char>,
> {
    match o {
        Option::None => Result::Err(missing_field_msg(name)),
        Option::Some(m) => match m {
            JsonModel::Str(s) => Result::Ok(s),
            other => Result::Err(invalid_type_msg(other, "a string"@)),
        },
    }
}

/// Decodes a required boolean field.
pub open spec fn dec_req_bool(o: Option<JsonModel>, name: Seq<char>) -> Result<bool, Seq<char>> {
    match o {
        Option::None => Result::Err(missing_field_msg(name)),
        Option::Some(m) => match m {
            JsonModel::Bool(b) => Result::Ok(b),
            other => Result::Err(invalid_type_msg(other, "a boolean"@)),
        },
    }
}

/// Decodes a required string-list field.
pub open spec fn dec_req_strlist(o: Option<JsonModel>, name: Seq<char>) -> Result<
    Seq<Seq<char>>,
    Seq<char>,
> {
    match o {
        Option::None => Result::Err(missing_field_msg(name)),
        Option::Some(m) => match m {
            JsonModel::Arr(items) => decode_str_seq(items),
            other => Result::Err(invalid_type_msg(other, "a sequence"@)),
        },
    }
}

/// Decodes a required array field, keeping its raw elements.
pub open spec fn dec_req_arr(o: Option<JsonModel>, name: Seq<char>) -> Result<
    Seq<JsonModel>,
    Seq<char>,
> {
    match o {
        Option::None => Result::Err(missing_field_msg(name)),
        Option::Some(m) => match m {
            JsonModel::Arr(items) => Result::Ok(items),
            other => Result::Err(invalid_type_msg(other, "a sequence"@)),
        },
    }
}

/// Decodes a required timestamp field: an RFC 3339 text the calendar
/// library accepts.
pub open spec fn dec_req_time(o: Option<JsonModel>, name: Seq<char>) -> Result<i64, Seq<char>> {
    match o {
        Option::None => Result::Err(missing_field_msg(name)),
        Option::Some(m) => match m {
            JsonModel::Str(s) => match rfc3339_millis(s) {
                Option::Some(ms) => Result::Ok(ms),
                Option::None => Result::Err(bad_datetime_msg(s)),
            },
            other => Result::Err(invalid_type_msg(other, "a string"@)),
        },
    }
}

/// Reads a required unsigned-integer field of a wire object.
pub fn get_req_u64(fields: &Vec<(String, JsonValue)>, name: &str) -> (r: Result<u64, DecodeError>)
    ensures
        match r {
            Result::Ok(n) => dec_req_u64(lookup(obj_model(fields@), name@), name@) == Result::Ok::<
                u64,
                Seq<char>,
            >(n),
            Result::Err(e) => dec_req_u64(lookup(obj_model(fields@), name@), name@)
                matches Result::Err(m) && e@ == m,
        },
{
    match obj_get(fields, name) {
        Option::None => Result::Err(missing_field_error(name)),
        Option::Some(v) => match v {
            JsonValue::Num(n) => Result::Ok(*n),
            other => Result::Err(invalid_type_error(other, "u64")),
        },
    }
}

/// Reads a required string field of a wire object.
pub fn get_req_str(fields: &Vec<(String, JsonValue)>, name: &str) -> (r: Result<
    String,
    DecodeError,
>)
    ensures
        match r {
            Result::Ok(s) => dec_req_str(lookup(obj_model(fields@), name@), name@) == Result::Ok::<
                Seq<char>,
                Seq<char>,
            >(s@),
            Result::Err(e) => dec_req_str(lookup(obj_model(fields@), name@), name@)
                matches Result::Err(m) && e@ == m,
        },
{
    match obj_get(fields, name) {
        Option::None => Result::Err(missing_field_error(name)),
        Option::Some(v) => match v {
            JsonValue::Str(s) => Result::Ok(s.clone()),
            other => Result::Err(invalid_type_error(other, "a string")),
        },
    }
}

/// Reads a required boolean field of a wire object.
pub fn get_req_bool(fields: &Vec<(String, JsonValue)>, name: &str) -> (r: Result<
    bool,
    DecodeError,
>)
    ensures
        match r {
            Result::Ok(b) => dec_req_bool(lookup(obj_model(fields@), name@), name@)
                == Result::Ok::<bool, Seq<char>>(b),
            Result::Err(e) => dec_req_bool(lookup(obj_model(fields@), name@), name@)
                matches Result::Err(m) && e@ == m,
        },
{
    match obj_get(fields, name) {
        Option::None => Result::Err(missing_field_error(name)),
        Option::Some(v) => match v {
            JsonValue::Bool(b) => Result::Ok(*b),
            other => Result::Err(invalid_type_error(other, "a boolean")),
        },
    }
}

/// Reads a required string-list field of a wire object.
pub fn get_req_strlist(fields: &Vec<(String, JsonValue)>, name: &str) -> (r: Result<
    Vec<String>,
    DecodeError,
>)
    ensures
        match r {
            Result::Ok(vs) => dec_req_strlist(lookup(obj_model(fields@), name@), name@)
                == Result::Ok::<Seq<Seq<char>>, Seq<char>>(vs.deep_view()),
            Result::Err(e) => dec_req_strlist(lookup(obj_model(fields@), name@), name@)
                matches Result::Err(m) && e@ == m,
        },
{
    match obj_get(fields, name) {
        Option::None => Result::Err(missing_field_error(name)),
        Option::Some(v) => match v {
            JsonValue::Arr(items) => str_vec_from_wire(items),
            other => Result::Err(invalid_type_error(other, "a sequence")),
        },
    }
}

/// Reads a required array field, keeping its elements as raw wire
/// values for the caller to interpret.
pub fn get_req_hits(fields: &Vec<(String, JsonValue)>, name: &str) -> (r: Result<
    Vec<JsonValue>,
    DecodeError,
>)
    ensures
        match r {
            Result::Ok(vs) => dec_req_arr(lookup(obj_model(fields@), name@), name@)
                == Result::Ok::<Seq<JsonModel>, Seq<char>>(arr_model(vs@)),
            Result::Err(e) => dec_req_arr(lookup(obj_model(fields@), name@), name@)
                matches Result::Err(m) && e@ == m,
        },
{
    match obj_get(fields, name) {
        Option::None => Result::Err(missing_field_error(name)),
        Option::Some(v) => match v {
            JsonValue::Arr(items) => {
                let mut vs: Vec<JsonValue> = Vec::new();
                let n = items.len();
                for i in 0..n
                    invariant
                        n == items@.len(),
                        vs@.len() == i,
                        forall|j: int| 0 <= j < i ==> vs@[j].model() == #[trigger] items@[j].model(),
                {
                    let d = items[i].duplicate();
                    vs.push(d);
                }
                proof {
                    crate::json::lemma_arr_model_len(vs@);
                    crate::json::lemma_arr_model_len(items@);
                    assert forall|j: int| 0 <= j < n implies arr_model(vs@)[j] == arr_model(
                        items@,
                    )[j] by {
                        crate::json::lemma_arr_model_index(vs@, j);
                        crate::json::lemma_arr_model_index(items@, j);
                    }
                    assert(arr_model(vs@) =~= arr_model(items@));
                }
                Result::Ok(vs)
            },
            other => Result::Err(invalid_type_error(other, "a sequence")),
        },
    }
}

/// Reads a required timestamp field of a wire object.
pub fn get_req_time(fields: &Vec<(String, JsonValue)>, name: &str) -> (r: Result<
    Timestamp,
    DecodeError,
>)
    ensures
        match r {
            Result::Ok(t) => dec_req_time(lookup(obj_model(fields@), name@), name@)
                == Result::Ok::<i64, Seq<char>>(t.epoch_millis),
            Result::Err(e) => dec_req_time(lookup(obj_model(fields@), name@), name@)
                matches Result::Err(m) && e@ == m,
        },
{
    match obj_get(fields, name) {
        Option::None => Result::Err(missing_field_error(name)),
        Option::Some(v) => match v {
            JsonValue::Str(s) => match parse_rfc3339(s.as_str()) {
                Option::Some(t) => Result::Ok(t),
                Option::None => Result::Err(bad_datetime_error(s.as_str())),
            },
            other => Result::Err(invalid_type_error(other, "a string")),
        },
    }
}

/// One page of search results: the raw hits and the counters the
/// service reports with them.
#[derive(Debug)]
pub struct SearchResult<T> {
    pub hits: Vec<T>,
    pub nb_hits: u64,
    pub page: u64,
    pub nb_pages: u64,
    pub hits_per_page: u64,
    pub processing_time_ms: u64,
    pub exhaustive_nb_hits: bool,
    pub query: String,
    pub params: String,
}

/// Outcome of adding one object.
#[derive(Debug, Clone)]
pub struct AddObjectResult {
    pub created_at: Timestamp,
    pub task_id: u64,
    pub object_id: String,
}

/// Outcome of an update-style operation.
#[derive(Debug, Clone)]
pub struct UpdateOperationResult {
    pub updated_at: Timestamp,
    pub task_id: u64,
}

/// Outcome of deleting one object.
#[derive(Debug, Clone)]
pub struct DeleteObjectResult {
    pub deleted_at: Timestamp,
    pub task_id: u64,
}

/// Outcome of a batched operation.
#[derive(Debug, Clone)]
pub struct BatchedOperatioResult {
    pub task_id: u64,
    pub object_ids: Vec<String>,
}

/// Strict decoding of a creation result body: the value must be an
/// object holding every required field with the right shape.
pub fn decode_add_object_result(v: &JsonValue) -> (r: Result<AddObjectResult, DecodeError>)
    ensures
        (v@ !is Obj) ==> (r matches Result::Err(e) && e@ == invalid_type_msg(
            v@,
            "struct AddObjectResult"@,
        )),
        v@ matches JsonModel::Obj(fields) ==> {
            let d_created_at = dec_req_time(lookup(fields, "createdAt"@), "createdAt"@);
            let d_task_id = dec_req_u64(lookup(fields, "taskID"@), "taskID"@);
            let d_object_id = dec_req_str(lookup(fields, "objectID"@), "objectID"@);
            &&& (r is Ok <==> d_created_at is Ok && d_task_id is Ok && d_object_id is Ok)
            &&& (r matches Result::Ok(x) ==> d_created_at == Result::Ok::<i64, Seq<char>>(x.created_at.epoch_millis) && d_task_id == Result::Ok::<u64, Seq<char>>(x.task_id) && d_object_id == Result::Ok::<Seq<char>, Seq<char>>(x.object_id@))
            &&& (r matches Result::Err(e) ==> e@ == (if d_created_at is Err {
                d_created_at->Err_0
            } else if d_task_id is Err {
                d_task_id->Err_0
            } else {
                d_object_id->Err_0
            }))
        },
{
    let fields = match v {
        JsonValue::Obj(fields) => fields,
        other => {
            return Result::Err(invalid_type_error(other, "struct AddObjectResult"));
        },
    };
    let f_created_at = match get_req_time(fields, "createdAt") {
        Result::Ok(v) => v,
        Result::Err(e) => {
            return Result::Err(e);
        },
    };
    let f_task_id = match get_req_u64(fields, "taskID") {
        Result::Ok(v) => v,
        Result::Err(e) => {
            return Result::Err(e);
        },
    };
    let f_object_id = match get_req_str(fields, "objectID") {
        Result::Ok(v) => v,
        Result::Err(e) => {
            return Result::Err(e);
        },
    };
    Result::Ok(
        AddObjectResult {
            created_at: f_created_at,
            task_id: f_task_id,
            object_id: f_object_id,
        },
    )
}

/// Strict decoding of a update result body: the value must be an
/// object holding every required field with the right shape.
pub fn decode_update_operation_result(v: &JsonValue) -> (r: Result<UpdateOperationResult, DecodeError>)
    ensures
        (v@ !is Obj) ==> (r matches Result::Err(e) && e@ == invalid_type_msg(
            v@,
            "struct UpdateOperationResult"@,
        )),
        v@ matches JsonModel::Obj(fields) ==> {
            let d_updated_at = dec_req_time(lookup(fields, "updatedAt"@), "updatedAt"@);
            let d_task_id = dec_req_u64(lookup(fields, "taskID"@), "taskID"@);
            &&& (r is Ok <==> d_updated_at is Ok && d_task_id is Ok)
            &&& (r matches Result::Ok(x) ==> d_updated_at == Result::Ok::<i64, Seq<char>>(x.updated_at.epoch_millis) && d_task_id == Result::Ok::<u64, Seq<char>>(x.task_id))
            &&& (r matches Result::Err(e) ==> e@ == (if d_updated_at is Err {
                d_updated_at->Err_0
            } else {
                d_task_id->Err_0
            }))
        },
{
    let fields = match v {
        JsonValue::Obj(fields) => fields,
        other => {
            return Result::Err(invalid_type_error(other, "struct UpdateOperationResult"));
        },
    };
    let f_updated_at = match get_req_time(fields, "updatedAt") {
        Result::Ok(v) => v,
        Result::Err(e) => {
            return Result::Err(e);
        },
    };
    let f_task_id = match get_req_u64(fields, "taskID") {
        Result::Ok(v) => v,
        Result::Err(e) => {
            return Result::Err(e);
        },
    };
    Result::Ok(
        UpdateOperationResult {
            updated_at: f_updated_at,
            task_id: f_task_id,
        },
    )
}

/// Strict decoding of a deletion result body: the value must be an
/// object holding every required field with the right shape.
pub fn decode_delete_object_result(v: &JsonValue) -> (r: Result<DeleteObjectResult, DecodeError>)
    ensures
        (v@ !is Obj) ==> (r matches Result::Err(e) && e@ == invalid_type_msg(
            v@,
            "struct DeleteObjectResult"@,
        )),
        v@ matches JsonModel::Obj(fields) ==> {
            let d_deleted_at = dec_req_time(lookup(fields, "deletedAt"@), "deletedAt"@);
            let d_task_id = dec_req_u64(lookup(fields, "taskID"@), "taskID"@);
            &&& (r is Ok <==> d_deleted_at is Ok && d_task_id is Ok)
            &&& (r matches Result::Ok(x) ==> d_deleted_at == Result::Ok::<i64, Seq<char>>(x.deleted_at.epoch_millis) && d_task_id == Result::Ok::<u64, Seq<char>>(x.task_id))
            &&& (r matches Result::Err(e) ==> e@ == (if d_deleted_at is Err {
                d_deleted_at->Err_0
            } else {
                d_task_id->Err_0
            }))
        },
{
    let fields = match v {
        JsonValue::Obj(fields) => fields,
        other => {
            return Result::Err(invalid_type_error(other, "struct DeleteObjectResult"));
        },
    };
    let f_deleted_at = match get_req_time(fields, "deletedAt") {
        Result::Ok(v) => v,
        Result::Err(e) => {
            return Result::Err(e);
        },
    };
    let f_task_id = match get_req_u64(fields, "taskID") {
        Result::Ok(v) => v,
        Result::Err(e) => {
            return Result::Err(e);
        },
    };
    Result::Ok(
        DeleteObjectResult {
            deleted_at: f_deleted_at,
            task_id: f_task_id,
        },
    )
}

/// Strict decoding of a batch result body: the value must be an
/// object holding every required field with the right shape.
pub fn decode_batched_operation_result(v: &JsonValue) -> (r: Result<BatchedOperatioResult, DecodeError>)
    ensures
        (v@ !is Obj) ==> (r matches Result::Err(e) && e@ == invalid_type_msg(
            v@,
            "struct BatchedOperatioResult"@,
        )),
        v@ matches JsonModel::Obj(fields) ==> {
            let d_task_id = dec_req_u64(lookup(fields, "taskID"@), "taskID"@);
            let d_object_ids = dec_req_strlist(lookup(fields, "objectIDs"@), "objectIDs"@);
            &&& (r is Ok <==> d_task_id is Ok && d_object_ids is Ok)
            &&& (r matches Result::Ok(x) ==> d_task_id == Result::Ok::<u64, Seq<char>>(x.task_id) && d_object_ids == Result::Ok::<Seq<Seq<char>>, Seq<char>>(x.object_ids.deep_view()))
            &&& (r matches Result::Err(e) ==> e@ == (if d_task_id is Err {
                d_task_id->Err_0
            } else {
                d_object_ids->Err_0
            }))
        },
{
    let fields = match v {
        JsonValue::Obj(fields) => fields,
        other => {
            return Result::Err(invalid_type_error(other, "struct BatchedOperatioResult"));
        },
    };
    let f_task_id = match get_req_u64(fields, "taskID") {
        Result::Ok(v) => v,
        Result::Err(e) => {
            return Result::Err(e);
        },
    };
    let f_object_ids = match get_req_strlist(fields, "objectIDs") {
        Result::Ok(v) => v,
        Result::Err(e) => {
            return Result::Err(e);
        },
    };
    Result::Ok(
        BatchedOperatioResult {
            task_id: f_task_id,
            object_ids: f_object_ids,
        },
    )
}

/// Strict decoding of a search response body: the value must be an
/// object holding every required field with the right shape.
pub fn decode_search_result(v: &JsonValue) -> (r: Result<SearchResult<JsonValue>, DecodeError>)
    ensures
        (v@ !is Obj) ==> (r matches Result::Err(e) && e@ == invalid_type_msg(
            v@,
            "struct SearchResult"@,
        )),
        v@ matches JsonModel::Obj(fields) ==> {
            let d_hits = dec_req_arr(lookup(fields, "hits"@), "hits"@);
            let d_nb_hits = dec_req_u64(lookup(fields, "nbHits"@), "nbHits"@);
            let d_page = dec_req_u64(lookup(fields, "page"@), "page"@);
            let d_nb_pages = dec_req_u64(lookup(fields, "nbPages"@), "nbPages"@);
            let d_hits_per_page = dec_req_u64(lookup(fields, "hitsPerPage"@), "hitsPerPage"@);
            let d_processing_time_ms = dec_req_u64(lookup(fields, "processingTimeMS"@), "processingTimeMS"@);
            let d_exhaustive_nb_hits = dec_req_bool(lookup(fields, "exhaustiveNbHits"@), "exhaustiveNbHits"@);
            let d_query = dec_req_str(lookup(fields, "query"@), "query"@);
            let d_params = dec_req_str(lookup(fields, "params"@), "params"@);
            &&& (r is Ok <==> d_hits is Ok && d_nb_hits is Ok && d_page is Ok && d_nb_pages is Ok && d_hits_per_page is Ok && d_processing_time_ms is Ok && d_exhaustive_nb_hits is Ok && d_query is Ok && d_params is Ok)
            &&& (r matches Result::Ok(x) ==> d_hits == Result::Ok::<Seq<JsonModel>, Seq<char>>(arr_model(x.hits@)) && d_nb_hits == Result::Ok::<u64, Seq<char>>(x.nb_hits) && d_page == Result::Ok::<u64, Seq<char>>(x.page) && d_nb_pages == Result::Ok::<u64, Seq<char>>(x.nb_pages) && d_hits_per_page == Result::Ok::<u64, Seq<char>>(x.hits_per_page) && d_processing_time_ms == Result::Ok::<u64, Seq<char>>(x.processing_time_ms) && d_exhaustive_nb_hits == Result::Ok::<bool, Seq<char>>(x.exhaustive_nb_hits) && d_query == Result::Ok::<Seq<char>, Seq<char>>(x.query@) && d_params == Result::Ok::<Seq<char>, Seq<char>>(x.params@))
            &&& (r matches Result::Err(e) ==> e@ == (if d_hits is Err {
                d_hits->Err_0
            } else if d_nb_hits is Err {
                d_nb_hits->Err_0
            } else if d_page is Err {
                d_page->Err_0
            } else if d_nb_pages is Err {
                d_nb_pages->Err_0
            } else if d_hits_per_page is Err {
                d_hits_per_page->Err_0
            } else if d_processing_time_ms is Err {
                d_processing_time_ms->Err_0
            } else if d_exhaustive_nb_hits is Err {
                d_exhaustive_nb_hits->Err_0
            } else if d_query is Err {
                d_query->Err_0
            } else {
                d_params->Err_0
            }))
        },
{
    let fields = match v {
        JsonValue::Obj(fields) => fields,
        other => {
            return Result::Err(invalid_type_error(other, "struct SearchResult"));
        },
    };
    let f_hits = match get_req_hits(fields, "hits") {
        Result::Ok(v) => v,
        Result::Err(e) => {
            return Result::Err(e);
        },
    };
    let f_nb_hits = match get_req_u64(fields, "nbHits") {
        Result::Ok(v) => v,
        Result::Err(e) => {
            return Result::Err(e);
        },
    };
    let f_page = match get_req_u64(fields, "page") {
        Result::Ok(v) => v,
        Result::Err(e) => {
            return Result::Err(e);
        },
    };
    let f_nb_pages = match get_req_u64(fields, "nbPages") {
        Result::Ok(v) => v,
        Result::Err(e) => {
            return Result::Err(e);
        },
    };
    let f_hits_per_page = match get_req_u64(fields, "hitsPerPage") {
        Result::Ok(v) => v,
        Result::Err(e) => {
            return Result::Err(e);
        },
    };
    let f_processing_time_ms = match get_req_u64(fields, "processingTimeMS") {
        Result::Ok(v) => v,
        Result::Err(e) => {
            return Result::Err(e);
        },
    };
    let f_exhaustive_nb_hits = match get_req_bool(fields, "exhaustiveNbHits") {
        Result::Ok(v) => v,
        Result::Err(e) => {
            return Result::Err(e);
        },
    };
    let f_query = match get_req_str(fields, "query") {
        Result::Ok(v) => v,
        Result::Err(e) => {
            return Result::Err(e);
        },
    };
    let f_params = match get_req_str(fields, "params") {
        Result::Ok(v) => v,
        Result::Err(e) => {
            return Result::Err(e);
        },
    };
    Result::Ok(
        SearchResult::<JsonValue> {
            hits: f_hits,
            nb_hits: f_nb_hits,
            page: f_page,
            nb_pages: f_nb_pages,
            hits_per_page: f_hits_per_page,
            processing_time_ms: f_processing_time_ms,
            exhaustive_nb_hits: f_exhaustive_nb_hits,
            query: f_query,
            params: f_params,
        },
    )
}

/// A handle on one index: the credentials and names every request to
/// it uses.
#[derive(Debug)]
pub struct Index<T> {
    pub application_id: String,
    pub index_name: String,
    pub api_key: String,
    pub base_url: String,
    pub index_type: PhantomData<T>,
}

impl<T> Index<T> {
    /// The search endpoint for this index.
    pub fn search_uri(&self) -> (r: String)
        ensures
            r@ == self.base_url@ + "/indexes/"@ + self.index_name@ + "/query"@,
    {
        let mut u = String::new();
        u.append(self.base_url.as_str());
        u.append("/indexes/");
        u.append(self.index_name.as_str());
        u.append("/query");
        proof {
            assert(u@ =~= self.base_url@ + "/indexes/"@ + self.index_name@ + "/query"@);
        }
        u
    }

    /// The endpoint for one object of this index.
    pub fn object_uri(&self, object_id: &str) -> (r: String)
        ensures
            r@ == self.base_url@ + "/indexes/"@ + self.index_name@ + "/"@ + object_id@,
    {
        let mut u = String::new();
        u.append(self.base_url.as_str());
        u.append("/indexes/");
        u.append(self.index_name.as_str());
        u.append("/");
        u.append(object_id);
        proof {
            assert(u@ =~= self.base_url@ + "/indexes/"@ + self.index_name@ + "/"@ + object_id@);
        }
        u
    }

    /// The endpoint for adding or updating objects of this index.
    pub fn write_uri(&self) -> (r: String)
        ensures
            r@ == self.base_url@ + "/1/indexes/"@ + self.index_name@,
    {
        let mut u = String::new();
        u.append(self.base_url.as_str());
        u.append("/1/indexes/");
        u.append(self.index_name.as_str());
        proof {
            assert(u@ =~= self.base_url@ + "/1/indexes/"@ + self.index_name@);
        }
        u
    }

    /// The batch endpoint for this index.
    pub fn batch_uri(&self) -> (r: String)
        ensures
            r@ == self.base_url@ + "/1/indexes/"@ + self.index_name@ + "/batch"@,
    {
        let mut u = String::new();
        u.append(self.base_url.as_str());
        u.append("/1/indexes/");
        u.append(self.index_name.as_str());
        u.append("/batch");
        proof {
            assert(u@ =~= self.base_url@ + "/1/indexes/"@ + self.index_name@ + "/batch"@);
        }
        u
    }

    /// The endpoint for deleting one object of this index.
    pub fn delete_uri(&self, object_id: &str) -> (r: String)
        ensures
            r@ == self.base_url@ + "/1/indexes/"@ + self.index_name@ + "/"@ + object_id@,
    {
        let mut u = String::new();
        u.append(self.base_url.as_str());
        u.append("/1/indexes/");
        u.append(self.index_name.as_str());
        u.append("/");
        u.append(object_id);
        proof {
            assert(u@ =~= self.base_url@ + "/1/indexes/"@ + self.index_name@ + "/"@
                + object_id@);
        }
        u
    }

    /// The settings endpoint for this index.
    pub fn settings_uri(&self) -> (r: String)
        ensures
            r@ == self.base_url@ + "/indexes/"@ + self.index_name@ + "/settings"@,
    {
        let mut u = String::new();
        u.append(self.base_url.as_str());
        u.append("/indexes/");
        u.append(self.index_name.as_str());
        u.append("/settings");
        proof {
            assert(u@ =~= self.base_url@ + "/indexes/"@ + self.index_name@ + "/settings"@);
        }
        u
    }
}

/// The batch items for one action: each object wrapped as
/// `{"action": ..., "body": ...}`.
pub open spec fn batch_items_model(action: Seq<char>, items: Seq<JsonModel>) -> Seq<JsonModel> {
    items.map_values(
        |m: JsonModel|
            JsonModel::Obj(seq![("action"@, JsonModel::Str(action)), ("body"@, m)]),
    )
}

/// The request body for a batched operation: every object wrapped
/// under the same action, in order, inside the `requests` envelope.
pub fn batch_request_body(action: &str, objects: &Vec<JsonValue>) -> (r: String)
    ensures
        r@ == render(
            JsonModel::Obj(
                seq![
                    ("requests"@, JsonModel::Arr(batch_items_model(action@, arr_model(objects@)))),
                ],
            ),
        ),
{
    let mut items: Vec<JsonValue> = Vec::new();
    let n = objects.len();
    for i in 0..n
        invariant
            n == objects@.len(),
            items@.len() == i,
            forall|j: int|
                0 <= j < i ==> items@[j].model() == JsonModel::Obj(
                    seq![
                        ("action"@, JsonModel::Str(action@)),
                        ("body"@, #[trigger] objects@[j].model()),
                    ],
                ),
    {
        let mut entry: Vec<(String, JsonValue)> = Vec::new();
        let ghost e0 = entry@;
        let akey = "action".to_owned();
        let aval = JsonValue::Str(action.to_owned());
        let ghost kv1 = (akey, aval);
        entry.push((akey, aval));
        let ghost e1 = entry@;
        let bkey = "body".to_owned();
        let bval = objects[i].duplicate();
        let ghost kv2 = (bkey, bval);
        entry.push((bkey, bval));
        proof {
            crate::json::lemma_obj_model_push(e0, kv1);
            crate::json::lemma_obj_model_push(e1, kv2);
            assert(crate::json::obj_model(e0) =~= Seq::<(Seq<char>, JsonModel)>::empty());
            assert(crate::json::obj_model(entry@) =~= seq![
                ("action"@, JsonModel::Str(action@)),
                ("body"@, objects@[i as int].model()),
            ]);
        }
        items.push(JsonValue::Obj(entry));
    }
    proof {
        crate::json::lemma_arr_model_len(items@);
        crate::json::lemma_arr_model_len(objects@);
        assert forall|j: int| 0 <= j < n implies arr_model(items@)[j] == batch_items_model(
            action@,
            arr_model(objects@),
        )[j] by {
            crate::json::lemma_arr_model_index(items@, j);
            crate::json::lemma_arr_model_index(objects@, j);
        }
        assert(arr_model(items@) =~= batch_items_model(action@, arr_model(objects@)));
    }
    let mut entries: Vec<(String, JsonValue)> = Vec::new();
    let ghost r0 = entries@;
    let rkey = "requests".to_owned();
    let rval = JsonValue::Arr(items);
    let ghost kvr = (rkey, rval);
    entries.push((rkey, rval));
    proof {
        crate::json::lemma_obj_model_push(r0, kvr);
        assert(crate::json::obj_model(r0) =~= Seq::<(Seq<char>, JsonModel)>::empty());
        assert(crate::json::obj_model(entries@) =~= seq![
            ("requests"@, JsonModel::Arr(batch_items_model(action@, arr_model(objects@)))),
        ]);
    }
    JsonValue::Obj(entries).to_json_text()
}

} // verus!
