//! Per-index configuration: the polymorphic parameter codecs and the
//! settings aggregate.
//!
//! Every type here has a fixed set of accepted wire shapes; decoding
//! inspects the shape of the incoming value (never a discriminator
//! tag) and either produces exactly one variant or refuses the value
//! with a message naming the accepted shapes.

use crate::error::{
    invalid_type_error, invalid_type_msg, out_of_range_error, out_of_range_msg,
    unknown_variant_error, unknown_variant_msg, DecodeError,
};
use crate::json::{arr_model, lemma_arr_model_index, lemma_arr_model_len, lookup, obj_get,
    obj_model, render, JsonModel, JsonValue};
use crate::strutil::{dec_str_of, lemma_seq_add_empty, lemma_seq_assoc, str_eq, write_dec_u64};
use crate::wire::pos::{pos_suffix, with_pos_suffix};
use crate::wire::{read_text_chars, read_text_spec};
use vstd::prelude::*;
use vstd::string::StringExecFns;

verus! {

broadcast use crate::json::lemma_arr_model_len, crate::json::lemma_arr_model_index, crate::json::lemma_obj_model_len, crate::json::lemma_obj_model_index;

/// Order in which facet values are returned: by count or alphabetically.
#[derive(Clone, Debug, PartialEq, Hash)]
pub enum SortFacetValuesBy {
    Count,
    Alpha,
}

impl SortFacetValuesBy {
    /// The wire form of this variant: its literal.
    pub open spec fn wire_model(self) -> JsonModel {
        match self {
            SortFacetValuesBy::Count => JsonModel::Str("count"@),
            SortFacetValuesBy::Alpha => JsonModel::Str("alpha"@),
        }
    }

    /// Shape-directed decoding: exactly the accepted literals come
    /// back; every other value is refused with the message stated.
    pub open spec fn decode_model(m: JsonModel) -> Result<SortFacetValuesBy, Seq<char>> {
        match m {
            JsonModel::Str(s) => if s == "count"@ {
                Result::Ok(SortFacetValuesBy::Count)
            } else if s == "alpha"@ {
                Result::Ok(SortFacetValuesBy::Alpha)
            } else {
                Result::Err(unknown_variant_msg("SortFacetValuesBy"@, s))
            },
            _ => Result::Err(invalid_type_msg(m, "a string for SortFacetValuesBy"@)),
        }
    }

    pub fn to_wire(&self) -> (r: JsonValue)
        ensures
            r@ == self.wire_model(),
    {
        match self {
            SortFacetValuesBy::Count => JsonValue::Str("count".to_owned()),
            SortFacetValuesBy::Alpha => JsonValue::Str("alpha".to_owned()),
        }
    }

    pub fn from_wire(v: &JsonValue) -> (r: Result<SortFacetValuesBy, DecodeError>)
        ensures
            match r {
                Result::Ok(x) => Self::decode_model(v@) == Result::Ok::<SortFacetValuesBy, Seq<
                    char,
                >>(x),
                Result::Err(e) => Self::decode_model(v@) matches Result::Err(msg) && e@ == msg,
            },
    {
        match v {
            JsonValue::Str(s) => {
                if str_eq(s.as_str(), "count") {
                    Result::Ok(SortFacetValuesBy::Count)
                } else if str_eq(s.as_str(), "alpha") {
                    Result::Ok(SortFacetValuesBy::Alpha)
                } else {
                    Result::Err(unknown_variant_error("SortFacetValuesBy", s.as_str()))
                }
            },
            _ => Result::Err(invalid_type_error(v, "a string for SortFacetValuesBy")),
        }
    }

    /// The exact JSON text of this variant's wire form.
    pub fn to_json(&self) -> (r: String)
        ensures
            r@ == render(self.wire_model()),
    {
        self.to_wire().to_json_text()
    }
}

/// Every accepted literal round-trips, and any other string is
/// refused with an error naming the enumeration and the literal.
pub proof fn lemma_sort_facet_values_by_round_trip(v: SortFacetValuesBy, s: Seq<char>)
    ensures
        SortFacetValuesBy::decode_model(v.wire_model()) == Result::Ok::<SortFacetValuesBy, Seq<
            char,
        >>(v),
        s != "count"@ && s != "alpha"@ ==> SortFacetValuesBy::decode_model(JsonModel::Str(s))
            == Result::Err::<SortFacetValuesBy, Seq<char>>(
            unknown_variant_msg("SortFacetValuesBy"@, s),
        ),
{
    reveal_strlit("count");
    reveal_strlit("alpha");
    assert("count"@ != "alpha"@) by {
        assert("count"@[0] == 'c');
        assert("alpha"@[0] == 'a');
    }
    match v {
        SortFacetValuesBy::Count => {
            assert(v.wire_model() == JsonModel::Str("count"@));
            assert(SortFacetValuesBy::decode_model(JsonModel::Str("count"@)) == Result::Ok::<
                SortFacetValuesBy,
                Seq<char>,
            >(SortFacetValuesBy::Count));
        },
        SortFacetValuesBy::Alpha => {
            assert(SortFacetValuesBy::decode_model(JsonModel::Str("alpha"@)) == Result::Ok::<
                SortFacetValuesBy,
                Seq<char>,
            >(SortFacetValuesBy::Alpha));
        },
    }
}

/// Typo-tolerance setting: a boolean flag, or one of the two special
/// string modes `"min"` and `"strict"`.
#[derive(Clone, Debug, PartialEq, Hash)]
pub enum TypoTolerance {
    Enabled,
    Disabled,
    Min,
    Strict,
}

/// The message refusing an unknown typo-tolerance string.
pub open spec fn typo_tolerance_unknown_msg(got: Seq<char>) -> Seq<char> {
    "expected \"min\" or \"strict\", got \""@ + got + "\""@
}

fn typo_tolerance_unknown_error(got: &str) -> (r: DecodeError)
    ensures
        r@ == typo_tolerance_unknown_msg(got@),
{
    let mut m = String::new();
    m.append("expected \"min\" or \"strict\", got \"");
    m.append(got);
    m.append("\"");
    proof {
        assert(m@ =~= typo_tolerance_unknown_msg(got@));
    }
    DecodeError::new(m)
}

impl TypoTolerance {
    /// The wire form: `true`/`false` for the boolean cases, the bare
    /// literal for the two string modes.
    pub open spec fn wire_model(self) -> JsonModel {
        match self {
            TypoTolerance::Enabled => JsonModel::Bool(true),
            TypoTolerance::Disabled => JsonModel::Bool(false),
            TypoTolerance::Min => JsonModel::Str("min"@),
            TypoTolerance::Strict => JsonModel::Str("strict"@),
        }
    }

    /// Shape-directed decoding: booleans map to the enabled pair,
    /// exactly `"min"`/`"strict"` to the string modes, and every
    /// other value is refused with the message stated.
    pub open spec fn decode_model(m: JsonModel) -> Result<TypoTolerance, Seq<char>> {
        match m {
            JsonModel::Bool(b) => Result::Ok(
                if b {
                    TypoTolerance::Enabled
                } else {
                    TypoTolerance::Disabled
                },
            ),
            JsonModel::Str(s) => if s == "min"@ {
                Result::Ok(TypoTolerance::Min)
            } else if s == "strict"@ {
                Result::Ok(TypoTolerance::Strict)
            } else {
                Result::Err(typo_tolerance_unknown_msg(s))
            },
            _ => Result::Err(invalid_type_msg(m, "a bool or String"@)),
        }
    }

    pub fn to_wire(&self) -> (r: JsonValue)
        ensures
            r@ == self.wire_model(),
    {
        match self {
            TypoTolerance::Enabled => JsonValue::Bool(true),
            TypoTolerance::Disabled => JsonValue::Bool(false),
            TypoTolerance::Min => JsonValue::Str("min".to_owned()),
            TypoTolerance::Strict => JsonValue::Str("strict".to_owned()),
        }
    }

    pub fn from_wire(v: &JsonValue) -> (r: Result<TypoTolerance, DecodeError>)
        ensures
            match r {
                Result::Ok(x) => Self::decode_model(v@) == Result::Ok::<TypoTolerance, Seq<char>>(
                    x,
                ),
                Result::Err(e) => Self::decode_model(v@) matches Result::Err(msg) && e@ == msg,
            },
    {
        match v {
            JsonValue::Bool(b) => Result::Ok(
                if *b {
                    TypoTolerance::Enabled
                } else {
                    TypoTolerance::Disabled
                },
            ),
            JsonValue::Str(s) => {
                if str_eq(s.as_str(), "min") {
                    Result::Ok(TypoTolerance::Min)
                } else if str_eq(s.as_str(), "strict") {
                    Result::Ok(TypoTolerance::Strict)
                } else {
                    Result::Err(typo_tolerance_unknown_error(s.as_str()))
                }
            },
            _ => Result::Err(invalid_type_error(v, "a bool or String")),
        }
    }

    /// The exact JSON text of this variant's wire form.
    pub fn to_json(&self) -> (r: String)
        ensures
            r@ == render(self.wire_model()),
    {
        self.to_wire().to_json_text()
    }
}

/// The boolean cases encode as `true`/`false`, the string modes as
/// their bare literal, and decoding is the exact inverse; any other
/// string is refused with the message echoing it.
pub proof fn lemma_typo_tolerance_round_trip(v: TypoTolerance, s: Seq<char>)
    ensures
        TypoTolerance::decode_model(v.wire_model()) == Result::Ok::<TypoTolerance, Seq<char>>(v),
        s != "min"@ && s != "strict"@ ==> TypoTolerance::decode_model(JsonModel::Str(s))
            == Result::Err::<TypoTolerance, Seq<char>>(typo_tolerance_unknown_msg(s)),
{
    reveal_strlit("min");
    reveal_strlit("strict");
    assert("min"@ != "strict"@) by {
        assert("min"@.len() == 3);
        assert("strict"@.len() == 6);
    }
    match v {
        TypoTolerance::Min => {
            assert(TypoTolerance::decode_model(JsonModel::Str("min"@)) == Result::Ok::<
                TypoTolerance,
                Seq<char>,
            >(TypoTolerance::Min));
        },
        TypoTolerance::Strict => {
            assert(TypoTolerance::decode_model(JsonModel::Str("strict"@)) == Result::Ok::<
                TypoTolerance,
                Seq<char>,
            >(TypoTolerance::Strict));
        },
        _ => {},
    }
}

/// Model of a language-list union value: the boolean cases, or the
/// list of language codes as character sequences.
pub enum IgnorePluralsModel {
    Enabled,
    Disabled,
    Languages(Seq<Seq<char>>),
}

/// Plural-handling setting: a boolean flag, or the list of language
/// codes the rule is restricted to.
#[derive(Clone, Debug, PartialEq, Hash)]
pub enum IgnorePlurals {
    Enabled,
    Disabled,
    Languages(Vec<String>),
}

/// Alias kept from the public surface: stop-word removal accepts the
/// same boolean-or-language-list union.
pub type RemoveStopWords = IgnorePlurals;

impl View for IgnorePlurals {
    type V = IgnorePluralsModel;

    open spec fn view(&self) -> IgnorePluralsModel {
        match self {
            IgnorePlurals::Enabled => IgnorePluralsModel::Enabled,
            IgnorePlurals::Disabled => IgnorePluralsModel::Disabled,
            IgnorePlurals::Languages(vs) => IgnorePluralsModel::Languages(vs.deep_view()),
        }
    }
}

/// Decodes a sequence of wire values that must all be strings.
pub open spec fn decode_str_seq(items: Seq<JsonModel>) -> Result<Seq<Seq<char>>, Seq<char>>
    decreases items,
{
    if items.len() == 0 {
        Result::Ok(Seq::empty())
    } else {
        match items[0] {
            JsonModel::Str(s) => match decode_str_seq(items.drop_first()) {
                Result::Ok(r) => Result::Ok(seq![s] + r),
                Result::Err(e) => Result::Err(e),
            },
            other => Result::Err(invalid_type_msg(other, "a string"@)),
        }
    }
}

/// A list of string models decodes back to exactly its strings.
pub proof fn lemma_decode_str_seq_of_strs(ss: Seq<Seq<char>>)
    ensures
        decode_str_seq(ss.map_values(|s: Seq<char>| JsonModel::Str(s))) == Result::Ok::<Seq<
            Seq<char>,
        >, Seq<char>>(ss),
    decreases ss,
{
    let items = ss.map_values(|s: Seq<char>| JsonModel::Str(s));
    if ss.len() == 0 {
        assert(decode_str_seq(items) == Result::Ok::<Seq<Seq<char>>, Seq<char>>(Seq::empty()));
        assert(ss =~= Seq::<Seq<char>>::empty());
    } else {
        assert(items.drop_first() =~= ss.drop_first().map_values(
            |s: Seq<char>| JsonModel::Str(s),
        ));
        lemma_decode_str_seq_of_strs(ss.drop_first());
        assert(seq![ss[0]] + ss.drop_first() =~= ss);
    }
}

/// Builds the wire list for a vector of strings.
pub fn str_vec_to_wire(vs: &Vec<String>) -> (r: Vec<JsonValue>)
    ensures
        arr_model(r@) == vs.deep_view().map_values(|s: Seq<char>| JsonModel::Str(s)),
{
    let mut items: Vec<JsonValue> = Vec::new();
    let n = vs.len();
    for i in 0..n
        invariant
            n == vs@.len(),
            items@.len() == i,
            forall|j: int| 0 <= j < i ==> items@[j].model() == JsonModel::Str(vs@[j]@),
    {
        items.push(JsonValue::Str(vs[i].clone()));
    }
    proof {
        lemma_arr_model_len(items@);
        assert forall|j: int| 0 <= j < n implies arr_model(items@)[j] == JsonModel::Str(
            vs@[j]@,
        ) by {
            lemma_arr_model_index(items@, j);
        }
        assert(arr_model(items@) =~= vs.deep_view().map_values(|s: Seq<char>| JsonModel::Str(s)));
    }
    items
}

/// Decodes a wire list whose elements must all be strings.
pub fn str_vec_from_wire(items: &Vec<JsonValue>) -> (r: Result<Vec<String>, DecodeError>)
    ensures
        match r {
            Result::Ok(vs) => decode_str_seq(arr_model(items@)) == Result::Ok::<Seq<Seq<char>>, Seq<
                char,
            >>(vs.deep_view()),
            Result::Err(e) => decode_str_seq(arr_model(items@)) matches Result::Err(msg) && e@
                == msg,
        },
{
    let mut vs: Vec<String> = Vec::new();
    let n = items.len();
    proof {
        assert(arr_model(items@).skip(0) =~= arr_model(items@));
        let r0 = decode_str_seq(arr_model(items@));
        match r0 {
            Result::Ok(all) => {
                assert(vs.deep_view() + all =~= all);
            },
            Result::Err(_) => {},
        }
    }
    for i in 0..n
        invariant
            n == items@.len(),
            vs@.len() == i,
            decode_str_seq(arr_model(items@)) == (match decode_str_seq(
                arr_model(items@).skip(i as int),
            ) {
                Result::Ok(rest) => Result::Ok::<Seq<Seq<char>>, Seq<char>>(vs.deep_view() + rest),
                Result::Err(e) => Result::Err(e),
            }),
    {
        proof {
            let m = arr_model(items@);
            assert(m.skip(i as int).len() == n - i);
            assert(m.skip(i as int)[0] == m[i as int]);
            assert(m.skip(i as int).drop_first() =~= m.skip(i as int + 1));
        }
        match &items[i] {
            JsonValue::Str(s) => {
                let ghost old_vs = vs.deep_view();
                vs.push(s.clone());
                proof {
                    let rest1 = decode_str_seq(arr_model(items@).skip(i as int + 1));
                    match rest1 {
                        Result::Ok(rest) => {
                            assert(vs.deep_view() =~= old_vs.push(s@));
                            assert(old_vs + (seq![s@] + rest) =~= vs.deep_view() + rest);
                        },
                        Result::Err(_) => {},
                    }
                }
            },
            other => {
                return Result::Err(invalid_type_error(other, "a string"));
            },
        }
    }
    proof {
        assert(arr_model(items@).skip(n as int) =~= Seq::<JsonModel>::empty());
        assert(decode_str_seq(Seq::<JsonModel>::empty()) == Result::Ok::<Seq<Seq<char>>, Seq<
            char,
        >>(Seq::empty()));
        assert(vs.deep_view() + Seq::<Seq<char>>::empty() =~= vs.deep_view());
    }
    Result::Ok(vs)
}

impl IgnorePlurals {
    /// The wire form: `true`/`false` for the boolean cases, the array
    /// of language-code strings for the list case.
    pub open spec fn wire_of(m: IgnorePluralsModel) -> JsonModel {
        match m {
            IgnorePluralsModel::Enabled => JsonModel::Bool(true),
            IgnorePluralsModel::Disabled => JsonModel::Bool(false),
            IgnorePluralsModel::Languages(ss) => JsonModel::Arr(
                ss.map_values(|s: Seq<char>| JsonModel::Str(s)),
            ),
        }
    }

    /// Shape-directed decoding: booleans map to the enabled pair, an
    /// array of strings to the language list, and every other value
    /// is refused with the message stated.
    pub open spec fn decode_model(m: JsonModel) -> Result<IgnorePluralsModel, Seq<char>> {
        match m {
            JsonModel::Bool(b) => Result::Ok(
                if b {
                    IgnorePluralsModel::Enabled
                } else {
                    IgnorePluralsModel::Disabled
                },
            ),
            JsonModel::Arr(items) => match decode_str_seq(items) {
                Result::Ok(ss) => Result::Ok(IgnorePluralsModel::Languages(ss)),
                Result::Err(e) => Result::Err(e),
            },
            _ => Result::Err(invalid_type_msg(m, "a bool or a list of ISO codes"@)),
        }
    }

    pub fn to_wire(&self) -> (r: JsonValue)
        ensures
            r@ == Self::wire_of(self@),
    {
        match self {
            IgnorePlurals::Enabled => JsonValue::Bool(true),
            IgnorePlurals::Disabled => JsonValue::Bool(false),
            IgnorePlurals::Languages(vs) => JsonValue::Arr(str_vec_to_wire(vs)),
        }
    }

    pub fn from_wire(v: &JsonValue) -> (r: Result<IgnorePlurals, DecodeError>)
        ensures
            match r {
                Result::Ok(x) => Self::decode_model(v@) == Result::Ok::<IgnorePluralsModel, Seq<
                    char,
                >>(x@),
                Result::Err(e) => Self::decode_model(v@) matches Result::Err(msg) && e@ == msg,
            },
    {
        match v {
            JsonValue::Bool(b) => Result::Ok(
                if *b {
                    IgnorePlurals::Enabled
                } else {
                    IgnorePlurals::Disabled
                },
            ),
            JsonValue::Arr(items) => match str_vec_from_wire(items) {
                Result::Ok(vs) => Result::Ok(IgnorePlurals::Languages(vs)),
                Result::Err(e) => Result::Err(e),
            },
            _ => Result::Err(invalid_type_error(v, "a bool or a list of ISO codes")),
        }
    }

    /// The exact JSON text of this value's wire form.
    pub fn to_json(&self) -> (r: String)
        ensures
            r@ == render(Self::wire_of(self@)),
    {
        self.to_wire().to_json_text()
    }
}

/// The boolean cases encode as `true`/`false`, a language list as the
/// array of its codes, and decoding is the exact inverse.
pub proof fn lemma_ignore_plurals_round_trip(m: IgnorePluralsModel)
    ensures
        IgnorePlurals::decode_model(IgnorePlurals::wire_of(m)) == Result::Ok::<IgnorePluralsModel,
            Seq<char>,
        >(m),
{
    match m {
        IgnorePluralsModel::Languages(ss) => {
            lemma_decode_str_seq_of_strs(ss);
        },
        _ => {},
    }
}

/// How the final word of the query is matched: as a prefix only at the end, everywhere, or never.
#[derive(Clone, Debug, PartialEq, Hash)]
pub enum QueryType {
    PrefixLast,
    PrefixAll,
    PrefixNone,
}

impl QueryType {
    /// The wire form of this variant: its literal.
    pub open spec fn wire_model(self) -> JsonModel {
        match self {
            QueryType::PrefixLast => JsonModel::Str("prefixLast"@),
            QueryType::PrefixAll => JsonModel::Str("prefixAll"@),
            QueryType::PrefixNone => JsonModel::Str("prefixNone"@),
        }
    }

    /// Shape-directed decoding: exactly the accepted literals come
    /// back; every other value is refused with the message stated.
    pub open spec fn decode_model(m: JsonModel) -> Result<QueryType, Seq<char>> {
        match m {
            JsonModel::Str(s) =>             if s == "prefixLast"@ {
                Result::Ok(QueryType::PrefixLast)
            } else if s == "prefixAll"@ {
                Result::Ok(QueryType::PrefixAll)
            } else if s == "prefixNone"@ {
                Result::Ok(QueryType::PrefixNone)
            } else {
                Result::Err(unknown_variant_msg("QueryType"@, s))
            },
            _ => Result::Err(invalid_type_msg(m, "a string for QueryType"@)),
        }
    }

    pub fn to_wire(&self) -> (r: JsonValue)
        ensures
            r@ == self.wire_model(),
    {
        match self {
            QueryType::PrefixLast => JsonValue::Str("prefixLast".to_owned()),
            QueryType::PrefixAll => JsonValue::Str("prefixAll".to_owned()),
            QueryType::PrefixNone => JsonValue::Str("prefixNone".to_owned()),
        }
    }

    pub fn from_wire(v: &JsonValue) -> (r: Result<QueryType, DecodeError>)
        ensures
            match r {
                Result::Ok(x) => Self::decode_model(v@) == Result::Ok::<QueryType, Seq<char>>(x),
                Result::Err(e) => Self::decode_model(v@) matches Result::Err(msg) && e@ == msg,
            },
    {
        match v {
            JsonValue::Str(s) => {
                if str_eq(s.as_str(), "prefixLast") {
                    Result::Ok(QueryType::PrefixLast)
                } else if str_eq(s.as_str(), "prefixAll") {
                    Result::Ok(QueryType::PrefixAll)
                } else if str_eq(s.as_str(), "prefixNone") {
                    Result::Ok(QueryType::PrefixNone)
                } else {
                    Result::Err(unknown_variant_error("QueryType", s.as_str()))
                }
            },
            _ => Result::Err(invalid_type_error(v, "a string for QueryType")),
        }
    }

    /// The exact JSON text of this variant's wire form.
    pub fn to_json(&self) -> (r: String)
        ensures
            r@ == render(self.wire_model()),
    {
        self.to_wire().to_json_text()
    }
}

/// Every accepted literal round-trips, and any other string is
/// refused with an error naming the enumeration and the literal.
pub proof fn lemma_query_type_round_trip(v: QueryType, s: Seq<char>)
    ensures
        QueryType::decode_model(v.wire_model()) == Result::Ok::<QueryType, Seq<char>>(v),
        (s != "prefixLast"@ && s != "prefixAll"@ && s != "prefixNone"@) ==> QueryType::decode_model(JsonModel::Str(s)) == Result::Err::<QueryType, Seq<
            char,
        >>(unknown_variant_msg("QueryType"@, s)),
{
    reveal_strlit("prefixLast");
    reveal_strlit("prefixAll");
    reveal_strlit("prefixNone");
    assert("prefixLast"@ != "prefixAll"@) by {
        assert("prefixLast"@.len() == 10);
        assert("prefixAll"@.len() == 9);
    }
    assert("prefixLast"@ != "prefixNone"@) by {
        assert("prefixLast"@[6] == 'L');
        assert("prefixNone"@[6] == 'N');
    }
    assert("prefixAll"@ != "prefixNone"@) by {
        assert("prefixAll"@.len() == 9);
        assert("prefixNone"@.len() == 10);
    }
    match v {
        QueryType::PrefixLast => {
            assert(QueryType::decode_model(JsonModel::Str("prefixLast"@)) == Result::Ok::<QueryType, Seq<
                char,
            >>(QueryType::PrefixLast));
        },
        QueryType::PrefixAll => {
            assert(QueryType::decode_model(JsonModel::Str("prefixAll"@)) == Result::Ok::<QueryType, Seq<
                char,
            >>(QueryType::PrefixAll));
        },
        QueryType::PrefixNone => {
            assert(QueryType::decode_model(JsonModel::Str("prefixNone"@)) == Result::Ok::<QueryType, Seq<
                char,
            >>(QueryType::PrefixNone));
        },
    }
}

/// Strategy for retrying a query that returned nothing: which words are dropped.
#[derive(Clone, Debug, PartialEq, Hash)]
pub enum RemoveWordsIfNoResults {
    NoneRemoved,
    LastWords,
    FirstWords,
    AllOptions,
}

impl RemoveWordsIfNoResults {
    /// The wire form of this variant: its literal.
    pub open spec fn wire_model(self) -> JsonModel {
        match self {
            RemoveWordsIfNoResults::NoneRemoved => JsonModel::Str("none"@),
            RemoveWordsIfNoResults::LastWords => JsonModel::Str("lastWords"@),
            RemoveWordsIfNoResults::FirstWords => JsonModel::Str("firstWords"@),
            RemoveWordsIfNoResults::AllOptions => JsonModel::Str("allOptions"@),
        }
    }

    /// Shape-directed decoding: exactly the accepted literals come
    /// back; every other value is refused with the message stated.
    pub open spec fn decode_model(m: JsonModel) -> Result<RemoveWordsIfNoResults, Seq<char>> {
        match m {
            JsonModel::Str(s) =>             if s == "none"@ {
                Result::Ok(RemoveWordsIfNoResults::NoneRemoved)
            } else if s == "lastWords"@ {
                Result::Ok(RemoveWordsIfNoResults::LastWords)
            } else if s == "firstWords"@ {
                Result::Ok(RemoveWordsIfNoResults::FirstWords)
            } else if s == "allOptions"@ {
                Result::Ok(RemoveWordsIfNoResults::AllOptions)
            } else {
                Result::Err(unknown_variant_msg("RemoveWordsIfNoResults"@, s))
            },
            _ => Result::Err(invalid_type_msg(m, "a string for RemoveWordsIfNoResults"@)),
        }
    }

    pub fn to_wire(&self) -> (r: JsonValue)
        ensures
            r@ == self.wire_model(),
    {
        match self {
            RemoveWordsIfNoResults::NoneRemoved => JsonValue::Str("none".to_owned()),
            RemoveWordsIfNoResults::LastWords => JsonValue::Str("lastWords".to_owned()),
            RemoveWordsIfNoResults::FirstWords => JsonValue::Str("firstWords".to_owned()),
            RemoveWordsIfNoResults::AllOptions => JsonValue::Str("allOptions".to_owned()),
        }
    }

    pub fn from_wire(v: &JsonValue) -> (r: Result<RemoveWordsIfNoResults, DecodeError>)
        ensures
            match r {
                Result::Ok(x) => Self::decode_model(v@) == Result::Ok::<RemoveWordsIfNoResults, Seq<char>>(x),
                Result::Err(e) => Self::decode_model(v@) matches Result::Err(msg) && e@ == msg,
            },
    {
        match v {
            JsonValue::Str(s) => {
                if str_eq(s.as_str(), "none") {
                    Result::Ok(RemoveWordsIfNoResults::NoneRemoved)
                } else if str_eq(s.as_str(), "lastWords") {
                    Result::Ok(RemoveWordsIfNoResults::LastWords)
                } else if str_eq(s.as_str(), "firstWords") {
                    Result::Ok(RemoveWordsIfNoResults::FirstWords)
                } else if str_eq(s.as_str(), "allOptions") {
                    Result::Ok(RemoveWordsIfNoResults::AllOptions)
                } else {
                    Result::Err(unknown_variant_error("RemoveWordsIfNoResults", s.as_str()))
                }
            },
            _ => Result::Err(invalid_type_error(v, "a string for RemoveWordsIfNoResults")),
        }
    }

    /// The exact JSON text of this variant's wire form.
    pub fn to_json(&self) -> (r: String)
        ensures
            r@ == render(self.wire_model()),
    {
        self.to_wire().to_json_text()
    }
}

/// Every accepted literal round-trips, and any other string is
/// refused with an error naming the enumeration and the literal.
pub proof fn lemma_remove_words_if_no_results_round_trip(v: RemoveWordsIfNoResults, s: Seq<char>)
    ensures
        RemoveWordsIfNoResults::decode_model(v.wire_model()) == Result::Ok::<RemoveWordsIfNoResults, Seq<char>>(v),
        (s != "none"@ && s != "lastWords"@ && s != "firstWords"@ && s != "allOptions"@) ==> RemoveWordsIfNoResults::decode_model(JsonModel::Str(s)) == Result::Err::<RemoveWordsIfNoResults, Seq<
            char,
        >>(unknown_variant_msg("RemoveWordsIfNoResults"@, s)),
{
    reveal_strlit("none");
    reveal_strlit("lastWords");
    reveal_strlit("firstWords");
    reveal_strlit("allOptions");
    assert("none"@ != "lastWords"@) by {
        assert("none"@.len() == 4);
        assert("lastWords"@.len() == 9);
    }
    assert("none"@ != "firstWords"@) by {
        assert("none"@.len() == 4);
        assert("firstWords"@.len() == 10);
    }
    assert("none"@ != "allOptions"@) by {
        assert("none"@.len() == 4);
        assert("allOptions"@.len() == 10);
    }
    assert("lastWords"@ != "firstWords"@) by {
        assert("lastWords"@.len() == 9);
        assert("firstWords"@.len() == 10);
    }
    assert("lastWords"@ != "allOptions"@) by {
        assert("lastWords"@.len() == 9);
        assert("allOptions"@.len() == 10);
    }
    assert("firstWords"@ != "allOptions"@) by {
        assert("firstWords"@[0] == 'f');
        assert("allOptions"@[0] == 'a');
    }
    match v {
        RemoveWordsIfNoResults::NoneRemoved => {
            assert(RemoveWordsIfNoResults::decode_model(JsonModel::Str("none"@)) == Result::Ok::<RemoveWordsIfNoResults, Seq<
                char,
            >>(RemoveWordsIfNoResults::NoneRemoved));
        },
        RemoveWordsIfNoResults::LastWords => {
            assert(RemoveWordsIfNoResults::decode_model(JsonModel::Str("lastWords"@)) == Result::Ok::<RemoveWordsIfNoResults, Seq<
                char,
            >>(RemoveWordsIfNoResults::LastWords));
        },
        RemoveWordsIfNoResults::FirstWords => {
            assert(RemoveWordsIfNoResults::decode_model(JsonModel::Str("firstWords"@)) == Result::Ok::<RemoveWordsIfNoResults, Seq<
                char,
            >>(RemoveWordsIfNoResults::FirstWords));
        },
        RemoveWordsIfNoResults::AllOptions => {
            assert(RemoveWordsIfNoResults::decode_model(JsonModel::Str("allOptions"@)) == Result::Ok::<RemoveWordsIfNoResults, Seq<
                char,
            >>(RemoveWordsIfNoResults::AllOptions));
        },
    }
}

/// When the exact ranking criterion applies on a single-word query.
#[derive(Clone, Debug, PartialEq, Hash)]
pub enum ExactOnSingleWordQuery {
    Attribute,
    NoneExact,
    Word,
}

impl ExactOnSingleWordQuery {
    /// The wire form of this variant: its literal.
    pub open spec fn wire_model(self) -> JsonModel {
        match self {
            ExactOnSingleWordQuery::Attribute => JsonModel::Str("attribute"@),
            ExactOnSingleWordQuery::NoneExact => JsonModel::Str("none"@),
            ExactOnSingleWordQuery::Word => JsonModel::Str("word"@),
        }
    }

    /// Shape-directed decoding: exactly the accepted literals come
    /// back; every other value is refused with the message stated.
    pub open spec fn decode_model(m: JsonModel) -> Result<ExactOnSingleWordQuery, Seq<char>> {
        match m {
            JsonModel::Str(s) =>             if s == "attribute"@ {
                Result::Ok(ExactOnSingleWordQuery::Attribute)
            } else if s == "none"@ {
                Result::Ok(ExactOnSingleWordQuery::NoneExact)
            } else if s == "word"@ {
                Result::Ok(ExactOnSingleWordQuery::Word)
            } else {
                Result::Err(unknown_variant_msg("ExactOnSingleWordQuery"@, s))
            },
            _ => Result::Err(invalid_type_msg(m, "a string for ExactOnSingleWordQuery"@)),
        }
    }

    pub fn to_wire(&self) -> (r: JsonValue)
        ensures
            r@ == self.wire_model(),
    {
        match self {
            ExactOnSingleWordQuery::Attribute => JsonValue::Str("attribute".to_owned()),
            ExactOnSingleWordQuery::NoneExact => JsonValue::Str("none".to_owned()),
            ExactOnSingleWordQuery::Word => JsonValue::Str("word".to_owned()),
        }
    }

    pub fn from_wire(v: &JsonValue) -> (r: Result<ExactOnSingleWordQuery, DecodeError>)
        ensures
            match r {
                Result::Ok(x) => Self::decode_model(v@) == Result::Ok::<ExactOnSingleWordQuery, Seq<char>>(x),
                Result::Err(e) => Self::decode_model(v@) matches Result::Err(msg) && e@ == msg,
            },
    {
        match v {
            JsonValue::Str(s) => {
                if str_eq(s.as_str(), "attribute") {
                    Result::Ok(ExactOnSingleWordQuery::Attribute)
                } else if str_eq(s.as_str(), "none") {
                    Result::Ok(ExactOnSingleWordQuery::NoneExact)
                } else if str_eq(s.as_str(), "word") {
                    Result::Ok(ExactOnSingleWordQuery::Word)
                } else {
                    Result::Err(unknown_variant_error("ExactOnSingleWordQuery", s.as_str()))
                }
            },
            _ => Result::Err(invalid_type_error(v, "a string for ExactOnSingleWordQuery")),
        }
    }

    /// The exact JSON text of this variant's wire form.
    pub fn to_json(&self) -> (r: String)
        ensures
            r@ == render(self.wire_model()),
    {
        self.to_wire().to_json_text()
    }
}

/// Every accepted literal round-trips, and any other string is
/// refused with an error naming the enumeration and the literal.
pub proof fn lemma_exact_on_single_word_query_round_trip(v: ExactOnSingleWordQuery, s: Seq<char>)
    ensures
        ExactOnSingleWordQuery::decode_model(v.wire_model()) == Result::Ok::<ExactOnSingleWordQuery, Seq<char>>(v),
        (s != "attribute"@ && s != "none"@ && s != "word"@) ==> ExactOnSingleWordQuery::decode_model(JsonModel::Str(s)) == Result::Err::<ExactOnSingleWordQuery, Seq<
            char,
        >>(unknown_variant_msg("ExactOnSingleWordQuery"@, s)),
{
    reveal_strlit("attribute");
    reveal_strlit("none");
    reveal_strlit("word");
    assert("attribute"@ != "none"@) by {
        assert("attribute"@.len() == 9);
        assert("none"@.len() == 4);
    }
    assert("attribute"@ != "word"@) by {
        assert("attribute"@.len() == 9);
        assert("word"@.len() == 4);
    }
    assert("none"@ != "word"@) by {
        assert("none"@[0] == 'n');
        assert("word"@[0] == 'w');
    }
    match v {
        ExactOnSingleWordQuery::Attribute => {
            assert(ExactOnSingleWordQuery::decode_model(JsonModel::Str("attribute"@)) == Result::Ok::<ExactOnSingleWordQuery, Seq<
                char,
            >>(ExactOnSingleWordQuery::Attribute));
        },
        ExactOnSingleWordQuery::NoneExact => {
            assert(ExactOnSingleWordQuery::decode_model(JsonModel::Str("none"@)) == Result::Ok::<ExactOnSingleWordQuery, Seq<
                char,
            >>(ExactOnSingleWordQuery::NoneExact));
        },
        ExactOnSingleWordQuery::Word => {
            assert(ExactOnSingleWordQuery::decode_model(JsonModel::Str("word"@)) == Result::Ok::<ExactOnSingleWordQuery, Seq<
                char,
            >>(ExactOnSingleWordQuery::Word));
        },
    }
}

/// Which alternative forms count as exact matches.
#[derive(Clone, Debug, PartialEq, Hash)]
pub enum AlternativesAsExact {
    IgnorePlurals,
    SingleWordSynonym,
    MultiWordsSynonym,
}

impl AlternativesAsExact {
    /// The wire form of this variant: its literal.
    pub open spec fn wire_model(self) -> JsonModel {
        match self {
            AlternativesAsExact::IgnorePlurals => JsonModel::Str("ignorePlurals"@),
            AlternativesAsExact::SingleWordSynonym => JsonModel::Str("singleWordSynonym"@),
            AlternativesAsExact::MultiWordsSynonym => JsonModel::Str("multiWordsSynonym"@),
        }
    }

    /// Shape-directed decoding: exactly the accepted literals come
    /// back; every other value is refused with the message stated.
    pub open spec fn decode_model(m: JsonModel) -> Result<AlternativesAsExact, Seq<char>> {
        match m {
            JsonModel::Str(s) =>             if s == "ignorePlurals"@ {
                Result::Ok(AlternativesAsExact::IgnorePlurals)
            } else if s == "singleWordSynonym"@ {
                Result::Ok(AlternativesAsExact::SingleWordSynonym)
            } else if s == "multiWordsSynonym"@ {
                Result::Ok(AlternativesAsExact::MultiWordsSynonym)
            } else {
                Result::Err(unknown_variant_msg("AlternativesAsExact"@, s))
            },
            _ => Result::Err(invalid_type_msg(m, "a string for AlternativesAsExact"@)),
        }
    }

    pub fn to_wire(&self) -> (r: JsonValue)
        ensures
            r@ == self.wire_model(),
    {
        match self {
            AlternativesAsExact::IgnorePlurals => JsonValue::Str("ignorePlurals".to_owned()),
            AlternativesAsExact::SingleWordSynonym => JsonValue::Str("singleWordSynonym".to_owned()),
            AlternativesAsExact::MultiWordsSynonym => JsonValue::Str("multiWordsSynonym".to_owned()),
        }
    }

    pub fn from_wire(v: &JsonValue) -> (r: Result<AlternativesAsExact, DecodeError>)
        ensures
            match r {
                Result::Ok(x) => Self::decode_model(v@) == Result::Ok::<AlternativesAsExact, Seq<char>>(x),
                Result::Err(e) => Self::decode_model(v@) matches Result::Err(msg) && e@ == msg,
            },
    {
        match v {
            JsonValue::Str(s) => {
                if str_eq(s.as_str(), "ignorePlurals") {
                    Result::Ok(AlternativesAsExact::IgnorePlurals)
                } else if str_eq(s.as_str(), "singleWordSynonym") {
                    Result::Ok(AlternativesAsExact::SingleWordSynonym)
                } else if str_eq(s.as_str(), "multiWordsSynonym") {
                    Result::Ok(AlternativesAsExact::MultiWordsSynonym)
                } else {
                    Result::Err(unknown_variant_error("AlternativesAsExact", s.as_str()))
                }
            },
            _ => Result::Err(invalid_type_error(v, "a string for AlternativesAsExact")),
        }
    }

    /// The exact JSON text of this variant's wire form.
    pub fn to_json(&self) -> (r: String)
        ensures
            r@ == render(self.wire_model()),
    {
        self.to_wire().to_json_text()
    }
}

/// Every accepted literal round-trips, and any other string is
/// refused with an error naming the enumeration and the literal.
pub proof fn lemma_alternatives_as_exact_round_trip(v: AlternativesAsExact, s: Seq<char>)
    ensures
        AlternativesAsExact::decode_model(v.wire_model()) == Result::Ok::<AlternativesAsExact, Seq<char>>(v),
        (s != "ignorePlurals"@ && s != "singleWordSynonym"@ && s != "multiWordsSynonym"@) ==> AlternativesAsExact::decode_model(JsonModel::Str(s)) == Result::Err::<AlternativesAsExact, Seq<
            char,
        >>(unknown_variant_msg("AlternativesAsExact"@, s)),
{
    reveal_strlit("ignorePlurals");
    reveal_strlit("singleWordSynonym");
    reveal_strlit("multiWordsSynonym");
    assert("ignorePlurals"@ != "singleWordSynonym"@) by {
        assert("ignorePlurals"@.len() == 13);
        assert("singleWordSynonym"@.len() == 17);
    }
    assert("ignorePlurals"@ != "multiWordsSynonym"@) by {
        assert("ignorePlurals"@.len() == 13);
        assert("multiWordsSynonym"@.len() == 17);
    }
    assert("singleWordSynonym"@ != "multiWordsSynonym"@) by {
        assert("singleWordSynonym"@[0] == 's');
        assert("multiWordsSynonym"@[0] == 'm');
    }
    match v {
        AlternativesAsExact::IgnorePlurals => {
            assert(AlternativesAsExact::decode_model(JsonModel::Str("ignorePlurals"@)) == Result::Ok::<AlternativesAsExact, Seq<
                char,
            >>(AlternativesAsExact::IgnorePlurals));
        },
        AlternativesAsExact::SingleWordSynonym => {
            assert(AlternativesAsExact::decode_model(JsonModel::Str("singleWordSynonym"@)) == Result::Ok::<AlternativesAsExact, Seq<
                char,
            >>(AlternativesAsExact::SingleWordSynonym));
        },
        AlternativesAsExact::MultiWordsSynonym => {
            assert(AlternativesAsExact::decode_model(JsonModel::Str("multiWordsSynonym"@)) == Result::Ok::<AlternativesAsExact, Seq<
                char,
            >>(AlternativesAsExact::MultiWordsSynonym));
        },
    }
}

/// De-duplication level: how many records sharing the distinct attribute may stay in a result set.
#[derive(Clone, Debug, PartialEq, Hash)]
pub enum Distinct {
    Zero,
    One,
    Two,
    Three,
}

impl Distinct {
    /// The integer carried on the wire for this variant.
    pub open spec fn wire_num(self) -> u64 {
        match self {
            Distinct::Zero => 0,
            Distinct::One => 1,
            Distinct::Two => 2,
            Distinct::Three => 3,
        }
    }

    /// The wire form of this variant: its bare integer.
    pub open spec fn wire_model(self) -> JsonModel {
        JsonModel::Num(self.wire_num())
    }

    /// Shape-directed decoding: exactly the accepted integers come
    /// back; every other value is refused with the message stated.
    pub open spec fn decode_model(m: JsonModel) -> Result<Distinct, Seq<char>> {
        match m {
            JsonModel::Num(n) =>             if n == 0 {
                Result::Ok(Distinct::Zero)
            } else if n == 1 {
                Result::Ok(Distinct::One)
            } else if n == 2 {
                Result::Ok(Distinct::Two)
            } else if n == 3 {
                Result::Ok(Distinct::Three)
            } else {
                Result::Err(out_of_range_msg(n, "0, 1, 2, 3"@))
            },
            _ => Result::Err(invalid_type_msg(m, "u8"@)),
        }
    }

    pub fn to_wire(&self) -> (r: JsonValue)
        ensures
            r@ == self.wire_model(),
    {
        match self {
            Distinct::Zero => JsonValue::Num(0),
            Distinct::One => JsonValue::Num(1),
            Distinct::Two => JsonValue::Num(2),
            Distinct::Three => JsonValue::Num(3),
        }
    }

    pub fn from_wire(v: &JsonValue) -> (r: Result<Distinct, DecodeError>)
        ensures
            match r {
                Result::Ok(x) => Self::decode_model(v@) == Result::Ok::<Distinct, Seq<char>>(x),
                Result::Err(e) => Self::decode_model(v@) matches Result::Err(msg) && e@ == msg,
            },
    {
        match v {
            JsonValue::Num(n) => {
                if *n == 0 {
                    Result::Ok(Distinct::Zero)
                } else if *n == 1 {
                    Result::Ok(Distinct::One)
                } else if *n == 2 {
                    Result::Ok(Distinct::Two)
                } else if *n == 3 {
                    Result::Ok(Distinct::Three)
                } else {
                    Result::Err(out_of_range_error(*n, "0, 1, 2, 3"))
                }
            },
            _ => Result::Err(invalid_type_error(v, "u8")),
        }
    }

    /// The exact JSON text of this variant's wire form.
    pub fn to_json(&self) -> (r: String)
        ensures
            r@ == render(self.wire_model()),
    {
        self.to_wire().to_json_text()
    }
}

/// Every accepted integer round-trips, and any other integer is
/// refused with an error listing the accepted ones.
pub proof fn lemma_distinct_round_trip(v: Distinct, n: u64)
    ensures
        Distinct::decode_model(v.wire_model()) == Result::Ok::<Distinct, Seq<char>>(v),
        !(n == 0 || n == 1 || n == 2 || n == 3) ==> Distinct::decode_model(
            JsonModel::Num(n),
        ) == Result::Err::<Distinct, Seq<char>>(out_of_range_msg(n, "0, 1, 2, 3"@)),
{
}

/// Smallest proximity value between two matching words that counts as best.
#[derive(Clone, Debug, PartialEq, Hash)]
pub enum MinProximity {
    One,
    Two,
    Three,
    Four,
    Five,
    Six,
    Seven,
}

impl MinProximity {
    /// The integer carried on the wire for this variant.
    pub open spec fn wire_num(self) -> u64 {
        match self {
            MinProximity::One => 1,
            MinProximity::Two => 2,
            MinProximity::Three => 3,
            MinProximity::Four => 4,
            MinProximity::Five => 5,
            MinProximity::Six => 6,
            MinProximity::Seven => 7,
        }
    }

    /// The wire form of this variant: its bare integer.
    pub open spec fn wire_model(self) -> JsonModel {
        JsonModel::Num(self.wire_num())
    }

    /// Shape-directed decoding: exactly the accepted integers come
    /// back; every other value is refused with the message stated.
    pub open spec fn decode_model(m: JsonModel) -> Result<MinProximity, Seq<char>> {
        match m {
            JsonModel::Num(n) =>             if n == 1 {
                Result::Ok(MinProximity::One)
            } else if n == 2 {
                Result::Ok(MinProximity::Two)
            } else if n == 3 {
                Result::Ok(MinProximity::Three)
            } else if n == 4 {
                Result::Ok(MinProximity::Four)
            } else if n == 5 {
                Result::Ok(MinProximity::Five)
            } else if n == 6 {
                Result::Ok(MinProximity::Six)
            } else if n == 7 {
                Result::Ok(MinProximity::Seven)
            } else {
                Result::Err(out_of_range_msg(n, "1, 2, 3, 4, 5, 6, 7"@))
            },
            _ => Result::Err(invalid_type_msg(m, "u8"@)),
        }
    }

    pub fn to_wire(&self) -> (r: JsonValue)
        ensures
            r@ == self.wire_model(),
    {
        match self {
            MinProximity::One => JsonValue::Num(1),
            MinProximity::Two => JsonValue::Num(2),
            MinProximity::Three => JsonValue::Num(3),
            MinProximity::Four => JsonValue::Num(4),
            MinProximity::Five => JsonValue::Num(5),
            MinProximity::Six => JsonValue::Num(6),
            MinProximity::Seven => JsonValue::Num(7),
        }
    }

    pub fn from_wire(v: &JsonValue) -> (r: Result<MinProximity, DecodeError>)
        ensures
            match r {
                Result::Ok(x) => Self::decode_model(v@) == Result::Ok::<MinProximity, Seq<char>>(x),
                Result::Err(e) => Self::decode_model(v@) matches Result::Err(msg) && e@ == msg,
            },
    {
        match v {
            JsonValue::Num(n) => {
                if *n == 1 {
                    Result::Ok(MinProximity::One)
                } else if *n == 2 {
                    Result::Ok(MinProximity::Two)
                } else if *n == 3 {
                    Result::Ok(MinProximity::Three)
                } else if *n == 4 {
                    Result::Ok(MinProximity::Four)
                } else if *n == 5 {
                    Result::Ok(MinProximity::Five)
                } else if *n == 6 {
                    Result::Ok(MinProximity::Six)
                } else if *n == 7 {
                    Result::Ok(MinProximity::Seven)
                } else {
                    Result::Err(out_of_range_error(*n, "1, 2, 3, 4, 5, 6, 7"))
                }
            },
            _ => Result::Err(invalid_type_error(v, "u8")),
        }
    }

    /// The exact JSON text of this variant's wire form.
    pub fn to_json(&self) -> (r: String)
        ensures
            r@ == render(self.wire_model()),
    {
        self.to_wire().to_json_text()
    }
}

/// Every accepted integer round-trips, and any other integer is
/// refused with an error listing the accepted ones.
pub proof fn lemma_min_proximity_round_trip(v: MinProximity, n: u64)
    ensures
        MinProximity::decode_model(v.wire_model()) == Result::Ok::<MinProximity, Seq<char>>(v),
        !(n == 1 || n == 2 || n == 3 || n == 4 || n == 5 || n == 6 || n == 7) ==> MinProximity::decode_model(
            JsonModel::Num(n),
        ) == Result::Err::<MinProximity, Seq<char>>(out_of_range_msg(n, "1, 2, 3, 4, 5, 6, 7"@)),
{
}


impl SortFacetValuesBy {
    /// Decodes this value from wire text; a failure carries the
    /// position where the offending value ended.
    pub fn from_json(s: &str) -> (r: Result<SortFacetValuesBy, DecodeError>)
        requires
            s@.len() < usize::MAX,
        ensures
            match read_text_spec(s@) {
                Result::Err(m) => r matches Result::Err(e) && e@ == m,
                Result::Ok(p) => match Self::decode_model(p.0) {
                    Result::Ok(x) => r == Result::Ok::<SortFacetValuesBy, DecodeError>(x),
                    Result::Err(msg) => r matches Result::Err(e) && e@ == msg + pos_suffix(
                        s@,
                        p.1,
                    ),
                },
            },
    {
        let chars = crate::strutil::str_to_chars(s);
        match read_text_chars(&chars) {
            Result::Err(e) => Result::Err(e),
            Result::Ok((v, end)) => match Self::from_wire(&v) {
                Result::Ok(x) => Result::Ok(x),
                Result::Err(e) => Result::Err(with_pos_suffix(e, &chars, end)),
            },
        }
    }
}

impl TypoTolerance {
    /// Decodes this value from wire text; a failure carries the
    /// position where the offending value ended.
    pub fn from_json(s: &str) -> (r: Result<TypoTolerance, DecodeError>)
        requires
            s@.len() < usize::MAX,
        ensures
            match read_text_spec(s@) {
                Result::Err(m) => r matches Result::Err(e) && e@ == m,
                Result::Ok(p) => match Self::decode_model(p.0) {
                    Result::Ok(x) => r == Result::Ok::<TypoTolerance, DecodeError>(x),
                    Result::Err(msg) => r matches Result::Err(e) && e@ == msg + pos_suffix(
                        s@,
                        p.1,
                    ),
                },
            },
    {
        let chars = crate::strutil::str_to_chars(s);
        match read_text_chars(&chars) {
            Result::Err(e) => Result::Err(e),
            Result::Ok((v, end)) => match Self::from_wire(&v) {
                Result::Ok(x) => Result::Ok(x),
                Result::Err(e) => Result::Err(with_pos_suffix(e, &chars, end)),
            },
        }
    }
}

impl QueryType {
    /// Decodes this value from wire text; a failure carries the
    /// position where the offending value ended.
    pub fn from_json(s: &str) -> (r: Result<QueryType, DecodeError>)
        requires
            s@.len() < usize::MAX,
        ensures
            match read_text_spec(s@) {
                Result::Err(m) => r matches Result::Err(e) && e@ == m,
                Result::Ok(p) => match Self::decode_model(p.0) {
                    Result::Ok(x) => r == Result::Ok::<QueryType, DecodeError>(x),
                    Result::Err(msg) => r matches Result::Err(e) && e@ == msg + pos_suffix(
                        s@,
                        p.1,
                    ),
                },
            },
    {
        let chars = crate::strutil::str_to_chars(s);
        match read_text_chars(&chars) {
            Result::Err(e) => Result::Err(e),
            Result::Ok((v, end)) => match Self::from_wire(&v) {
                Result::Ok(x) => Result::Ok(x),
                Result::Err(e) => Result::Err(with_pos_suffix(e, &chars, end)),
            },
        }
    }
}

impl RemoveWordsIfNoResults {
    /// Decodes this value from wire text; a failure carries the
    /// position where the offending value ended.
    pub fn from_json(s: &str) -> (r: Result<RemoveWordsIfNoResults, DecodeError>)
        requires
            s@.len() < usize::MAX,
        ensures
            match read_text_spec(s@) {
                Result::Err(m) => r matches Result::Err(e) && e@ == m,
                Result::Ok(p) => match Self::decode_model(p.0) {
                    Result::Ok(x) => r == Result::Ok::<RemoveWordsIfNoResults, DecodeError>(x),
                    Result::Err(msg) => r matches Result::Err(e) && e@ == msg + pos_suffix(
                        s@,
                        p.1,
                    ),
                },
            },
    {
        let chars = crate::strutil::str_to_chars(s);
        match read_text_chars(&chars) {
            Result::Err(e) => Result::Err(e),
            Result::Ok((v, end)) => match Self::from_wire(&v) {
                Result::Ok(x) => Result::Ok(x),
                Result::Err(e) => Result::Err(with_pos_suffix(e, &chars, end)),
            },
        }
    }
}

impl ExactOnSingleWordQuery {
    /// Decodes this value from wire text; a failure carries the
    /// position where the offending value ended.
    pub fn from_json(s: &str) -> (r: Result<ExactOnSingleWordQuery, DecodeError>)
        requires
            s@.len() < usize::MAX,
        ensures
            match read_text_spec(s@) {
                Result::Err(m) => r matches Result::Err(e) && e@ == m,
                Result::Ok(p) => match Self::decode_model(p.0) {
                    Result::Ok(x) => r == Result::Ok::<ExactOnSingleWordQuery, DecodeError>(x),
                    Result::Err(msg) => r matches Result::Err(e) && e@ == msg + pos_suffix(
                        s@,
                        p.1,
                    ),
                },
            },
    {
        let chars = crate::strutil::str_to_chars(s);
        match read_text_chars(&chars) {
            Result::Err(e) => Result::Err(e),
            Result::Ok((v, end)) => match Self::from_wire(&v) {
                Result::Ok(x) => Result::Ok(x),
                Result::Err(e) => Result::Err(with_pos_suffix(e, &chars, end)),
            },
        }
    }
}

impl AlternativesAsExact {
    /// Decodes this value from wire text; a failure carries the
    /// position where the offending value ended.
    pub fn from_json(s: &str) -> (r: Result<AlternativesAsExact, DecodeError>)
        requires
            s@.len() < usize::MAX,
        ensures
            match read_text_spec(s@) {
                Result::Err(m) => r matches Result::Err(e) && e@ == m,
                Result::Ok(p) => match Self::decode_model(p.0) {
                    Result::Ok(x) => r == Result::Ok::<AlternativesAsExact, DecodeError>(x),
                    Result::Err(msg) => r matches Result::Err(e) && e@ == msg + pos_suffix(
                        s@,
                        p.1,
                    ),
                },
            },
    {
        let chars = crate::strutil::str_to_chars(s);
        match read_text_chars(&chars) {
            Result::Err(e) => Result::Err(e),
            Result::Ok((v, end)) => match Self::from_wire(&v) {
                Result::Ok(x) => Result::Ok(x),
                Result::Err(e) => Result::Err(with_pos_suffix(e, &chars, end)),
            },
        }
    }
}

impl Distinct {
    /// Decodes this value from wire text; a failure carries the
    /// position where the offending value ended.
    pub fn from_json(s: &str) -> (r: Result<Distinct, DecodeError>)
        requires
            s@.len() < usize::MAX,
        ensures
            match read_text_spec(s@) {
                Result::Err(m) => r matches Result::Err(e) && e@ == m,
                Result::Ok(p) => match Self::decode_model(p.0) {
                    Result::Ok(x) => r == Result::Ok::<Distinct, DecodeError>(x),
                    Result::Err(msg) => r matches Result::Err(e) && e@ == msg + pos_suffix(
                        s@,
                        p.1,
                    ),
                },
            },
    {
        let chars = crate::strutil::str_to_chars(s);
        match read_text_chars(&chars) {
            Result::Err(e) => Result::Err(e),
            Result::Ok((v, end)) => match Self::from_wire(&v) {
                Result::Ok(x) => Result::Ok(x),
                Result::Err(e) => Result::Err(with_pos_suffix(e, &chars, end)),
            },
        }
    }
}

impl MinProximity {
    /// Decodes this value from wire text; a failure carries the
    /// position where the offending value ended.
    pub fn from_json(s: &str) -> (r: Result<MinProximity, DecodeError>)
        requires
            s@.len() < usize::MAX,
        ensures
            match read_text_spec(s@) {
                Result::Err(m) => r matches Result::Err(e) && e@ == m,
                Result::Ok(p) => match Self::decode_model(p.0) {
                    Result::Ok(x) => r == Result::Ok::<MinProximity, DecodeError>(x),
                    Result::Err(msg) => r matches Result::Err(e) && e@ == msg + pos_suffix(
                        s@,
                        p.1,
                    ),
                },
            },
    {
        let chars = crate::strutil::str_to_chars(s);
        match read_text_chars(&chars) {
            Result::Err(e) => Result::Err(e),
            Result::Ok((v, end)) => match Self::from_wire(&v) {
                Result::Ok(x) => Result::Ok(x),
                Result::Err(e) => Result::Err(with_pos_suffix(e, &chars, end)),
            },
        }
    }
}

impl IgnorePlurals {
    /// Decodes this value from wire text; a failure carries the
    /// position where the offending value ended.
    pub fn from_json(s: &str) -> (r: Result<IgnorePlurals, DecodeError>)
        requires
            s@.len() < usize::MAX,
        ensures
            match read_text_spec(s@) {
                Result::Err(m) => r matches Result::Err(e) && e@ == m,
                Result::Ok(p) => match Self::decode_model(p.0) {
                    Result::Ok(_x) => r matches Result::Ok(y) && Self::decode_model(p.0) == Result::Ok::<IgnorePluralsModel, Seq<char>>(y@),
                    Result::Err(msg) => r matches Result::Err(e) && e@ == msg + pos_suffix(
                        s@,
                        p.1,
                    ),
                },
            },
    {
        let chars = crate::strutil::str_to_chars(s);
        match read_text_chars(&chars) {
            Result::Err(e) => Result::Err(e),
            Result::Ok((v, end)) => match Self::from_wire(&v) {
                Result::Ok(x) => Result::Ok(x),
                Result::Err(e) => Result::Err(with_pos_suffix(e, &chars, end)),
            },
        }
    }
}


/// The wire form of an optional string field.
pub open spec fn opt_str_w(v: Option<String>) -> Option<JsonModel> {
    match v {
        Option::None => Option::None,
        Option::Some(s) => Option::Some(JsonModel::Str(s@)),
    }
}

/// The wire form of an optional integer field.
pub open spec fn opt_u64_w(v: Option<u64>) -> Option<JsonModel> {
    match v {
        Option::None => Option::None,
        Option::Some(n) => Option::Some(JsonModel::Num(n)),
    }
}

/// The wire form of an optional boolean field.
pub open spec fn opt_bool_w(v: Option<bool>) -> Option<JsonModel> {
    match v {
        Option::None => Option::None,
        Option::Some(b) => Option::Some(JsonModel::Bool(b)),
    }
}

/// The wire form of an optional list of strings.
pub open spec fn opt_str_list_w(v: Option<Vec<String>>) -> Option<JsonModel> {
    match v {
        Option::None => Option::None,
        Option::Some(vs) => Option::Some(
            JsonModel::Arr(vs.deep_view().map_values(|s: Seq<char>| JsonModel::Str(s))),
        ),
    }
}

/// The wire form of an optional typo-tolerance value.
pub open spec fn opt_typo_w(v: Option<TypoTolerance>) -> Option<JsonModel> {
    match v {
        Option::None => Option::None,
        Option::Some(x) => Option::Some(x.wire_model()),
    }
}

/// The wire form of an optional plural-handling value.
pub open spec fn opt_plurals_w(v: Option<IgnorePlurals>) -> Option<JsonModel> {
    match v {
        Option::None => Option::None,
        Option::Some(x) => Option::Some(IgnorePlurals::wire_of(x@)),
    }
}

/// The wire form of an optional facet-ordering value.
pub open spec fn opt_sortfacet_w(v: Option<SortFacetValuesBy>) -> Option<JsonModel> {
    match v {
        Option::None => Option::None,
        Option::Some(x) => Option::Some(x.wire_model()),
    }
}

/// The wire form of an optional query-type value.
pub open spec fn opt_qtype_w(v: Option<QueryType>) -> Option<JsonModel> {
    match v {
        Option::None => Option::None,
        Option::Some(x) => Option::Some(x.wire_model()),
    }
}

/// The wire form of an optional word-removal strategy.
pub open spec fn opt_remove_w(v: Option<RemoveWordsIfNoResults>) -> Option<JsonModel> {
    match v {
        Option::None => Option::None,
        Option::Some(x) => Option::Some(x.wire_model()),
    }
}

/// The wire form of an optional exactness criterion.
pub open spec fn opt_exact_w(v: Option<ExactOnSingleWordQuery>) -> Option<JsonModel> {
    match v {
        Option::None => Option::None,
        Option::Some(x) => Option::Some(x.wire_model()),
    }
}

/// The wire form of an optional alternative-exactness value.
pub open spec fn opt_alt_w(v: Option<AlternativesAsExact>) -> Option<JsonModel> {
    match v {
        Option::None => Option::None,
        Option::Some(x) => Option::Some(x.wire_model()),
    }
}

/// The wire form of an optional de-duplication level.
pub open spec fn opt_distinct_w(v: Option<Distinct>) -> Option<JsonModel> {
    match v {
        Option::None => Option::None,
        Option::Some(x) => Option::Some(x.wire_model()),
    }
}

/// The wire form of an optional proximity value.
pub open spec fn opt_minprox_w(v: Option<MinProximity>) -> Option<JsonModel> {
    match v {
        Option::None => Option::None,
        Option::Some(x) => Option::Some(x.wire_model()),
    }
}


/// The object-body contribution of one optional field: nothing when
/// unset, one named entry when set.
pub open spec fn opt_entry(name: Seq<char>, w: Option<JsonModel>) -> Seq<(Seq<char>, JsonModel)> {
    match w {
        Option::None => Seq::empty(),
        Option::Some(m) => seq![(name, m)],
    }
}

/// The model of the entry just pushed: a helper for stating what one
/// field contributed.
pub open spec fn last_entry_model(entries: Seq<(String, JsonValue)>) -> JsonModel
    recommends
        entries.len() > 0,
{
    entries[entries.len() - 1].1.model()
}

/// The wire form of an optional list of alternative-exactness values.
pub open spec fn opt_alt_list_w(v: Option<Vec<AlternativesAsExact>>) -> Option<JsonModel> {
    match v {
        Option::None => Option::None,
        Option::Some(vs) => Option::Some(
            JsonModel::Arr(vs@.map_values(|a: AlternativesAsExact| a.wire_model())),
        ),
    }
}

/// The model of a list of named string lists, as a JSON object's
/// entries.
pub open spec fn strmap_model(m: Seq<(String, Vec<String>)>) -> Seq<(Seq<char>, JsonModel)> {
    m.map_values(
        |kv: (String, Vec<String>)|
            (kv.0@, JsonModel::Arr(kv.1.deep_view().map_values(|s: Seq<char>| JsonModel::Str(s)))),
    )
}

/// The wire form of an optional map from attribute to word list.
pub open spec fn opt_str_map_w(v: Option<Vec<(String, Vec<String>)>>) -> Option<JsonModel> {
    match v {
        Option::None => Option::None,
        Option::Some(entries) => Option::Some(JsonModel::Obj(strmap_model(entries@))),
    }
}

/// Builds the wire list for a vector of alternative-exactness values.
pub fn alt_vec_to_wire(vs: &Vec<AlternativesAsExact>) -> (r: Vec<JsonValue>)
    ensures
        arr_model(r@) == vs@.map_values(|a: AlternativesAsExact| a.wire_model()),
{
    let mut items: Vec<JsonValue> = Vec::new();
    let n = vs.len();
    for i in 0..n
        invariant
            n == vs@.len(),
            items@.len() == i,
            forall|j: int| 0 <= j < i ==> items@[j].model() == #[trigger] vs@[j].wire_model(),
    {
        let w = vs[i].to_wire();
        items.push(w);
    }
    proof {
        lemma_arr_model_len(items@);
        assert forall|j: int| 0 <= j < n implies arr_model(items@)[j] == vs@[j].wire_model() by {
            lemma_arr_model_index(items@, j);
        }
        assert(arr_model(items@) =~= vs@.map_values(|a: AlternativesAsExact| a.wire_model()));
    }
    items
}

/// Builds the wire object for a list of named string lists.
pub fn str_map_to_wire(entries: &Vec<(String, Vec<String>)>) -> (r: Vec<(String, JsonValue)>)
    ensures
        obj_model(r@) == strmap_model(entries@),
{
    let mut out: Vec<(String, JsonValue)> = Vec::new();
    let n = entries.len();
    proof {
        assert(obj_model(out@) =~= Seq::<(Seq<char>, JsonModel)>::empty());
        assert(strmap_model(entries@).take(0) =~= Seq::<(Seq<char>, JsonModel)>::empty());
    }
    for i in 0..n
        invariant
            n == entries@.len(),
            obj_model(out@) == strmap_model(entries@).take(i as int),
    {
        let entry = &entries[i];
        let w = JsonValue::Arr(str_vec_to_wire(&entry.1));
        let key = entry.0.clone();
        let ghost prev = out@;
        let ghost kv = (key, w);
        out.push((key, w));
        proof {
            crate::json::lemma_obj_model_push(prev, kv);
            assert(strmap_model(entries@)[i as int] == (
                entries@[i as int].0@,
                JsonModel::Arr(
                    entries@[i as int].1.deep_view().map_values(|s: Seq<char>| JsonModel::Str(s)),
                ),
            ));
            assert(strmap_model(entries@).take(i as int + 1) =~= strmap_model(entries@).take(
                i as int,
            ) + seq![strmap_model(entries@)[i as int]]);
            assert(obj_model(out@) == strmap_model(entries@).take(i as int + 1));
        }
    }
    proof {
        assert(strmap_model(entries@).take(n as int) =~= strmap_model(entries@));
    }
    out
}

fn push_entry(entries: &mut Vec<(String, JsonValue)>, name: &str, w: JsonValue)
    ensures
        obj_model(final(entries)@) == obj_model(old(entries)@) + seq![(name@, w@)],
        final(entries)@.len() > 0,
        last_entry_model(final(entries)@) == w@,
{
    let key = name.to_owned();
    let ghost prev = entries@;
    let ghost kv = (key, w);
    entries.push((key, w));
    proof {
        crate::json::lemma_obj_model_push(prev, kv);
    }
}

/// Persistent per-index configuration: every field optional, only the
/// fields a caller sets appear in the JSON settings body, in
/// declaration order, under the fixed wire names.
#[derive(Clone, Debug, Default)]
pub struct IndexSettings {
    pub searchable_attributes: Option<Vec<String>>,
    pub attributes_for_facetting: Option<Vec<String>>,
    pub unretrievable_attributes: Option<Vec<String>>,
    pub attributes_to_retrieve: Option<Vec<String>>,
    pub ranking: Option<Vec<String>>,
    pub custom_ranking: Option<Vec<String>>,
    pub replicas: Option<Vec<String>>,
    pub max_values_per_facet: Option<u64>,
    pub sort_facet_values_by: Option<SortFacetValuesBy>,
    pub attributes_to_highlight: Option<Vec<String>>,
    pub attributes_to_snippet: Option<Vec<String>>,
    pub highlight_pre_tag: Option<String>,
    pub highlight_post_tag: Option<String>,
    pub snippet_ellipsis_text: Option<String>,
    pub restrict_highlight_and_snippet_arrays: Option<bool>,
    pub hits_per_page: Option<u64>,
    pub pagination_limited_to: Option<u64>,
    pub min_word_sizefor_1_typo: Option<u64>,
    pub min_word_sizefor_2_typos: Option<u64>,
    pub typo_tolerance: Option<TypoTolerance>,
    pub allow_typos_on_numeric_tokens: Option<bool>,
    pub disable_typo_tolerance_on_attributes: Option<Vec<String>>,
    pub disable_typo_tolerance_on_words: Option<Vec<String>>,
    pub separators_to_index: Option<String>,
    pub ignore_plurals: Option<IgnorePlurals>,
    pub remove_stop_words: Option<RemoveStopWords>,
    pub camel_case_attributes: Option<Vec<String>>,
    pub decompounded_attributes: Option<Vec<(String, Vec<String>)>>,
    pub keep_diacritics_on_characters: Option<String>,
    pub query_languages: Option<Vec<String>>,
    pub query_type: Option<String>,
    pub remove_words_if_no_results: Option<RemoveWordsIfNoResults>,
    pub advanced_syntax: Option<bool>,
    pub optional_words: Option<Vec<String>>,
    pub disable_prefix_on_attributes: Option<Vec<String>>,
    pub disable_exact_on_attributes: Option<Vec<String>>,
    pub exact_on_single_word_query: Option<ExactOnSingleWordQuery>,
    pub alternatives_as_exact: Option<Vec<AlternativesAsExact>>,
    pub enable_rules: Option<bool>,
    pub numeric_attributes_for_filtering: Option<Vec<String>>,
    pub allow_compression_of_integer_array: Option<bool>,
    pub attribute_for_distinct: Option<String>,
    pub distinct: Option<Distinct>,
    pub replace_synonyms_in_highlight: Option<bool>,
    pub min_proximity: Option<MinProximity>,
    pub response_fields: Option<Vec<String>>,
    pub max_facet_hits: Option<u64>,
}

impl IndexSettings {
    /// The settings with no field set.
    pub open spec fn unset() -> IndexSettings {
        IndexSettings {
            searchable_attributes: Option::None,
            attributes_for_facetting: Option::None,
            unretrievable_attributes: Option::None,
            attributes_to_retrieve: Option::None,
            ranking: Option::None,
            custom_ranking: Option::None,
            replicas: Option::None,
            max_values_per_facet: Option::None,
            sort_facet_values_by: Option::None,
            attributes_to_highlight: Option::None,
            attributes_to_snippet: Option::None,
            highlight_pre_tag: Option::None,
            highlight_post_tag: Option::None,
            snippet_ellipsis_text: Option::None,
            restrict_highlight_and_snippet_arrays: Option::None,
            hits_per_page: Option::None,
            pagination_limited_to: Option::None,
            min_word_sizefor_1_typo: Option::None,
            min_word_sizefor_2_typos: Option::None,
            typo_tolerance: Option::None,
            allow_typos_on_numeric_tokens: Option::None,
            disable_typo_tolerance_on_attributes: Option::None,
            disable_typo_tolerance_on_words: Option::None,
            separators_to_index: Option::None,
            ignore_plurals: Option::None,
            remove_stop_words: Option::None,
            camel_case_attributes: Option::None,
            decompounded_attributes: Option::None,
            keep_diacritics_on_characters: Option::None,
            query_languages: Option::None,
            query_type: Option::None,
            remove_words_if_no_results: Option::None,
            advanced_syntax: Option::None,
            optional_words: Option::None,
            disable_prefix_on_attributes: Option::None,
            disable_exact_on_attributes: Option::None,
            exact_on_single_word_query: Option::None,
            alternatives_as_exact: Option::None,
            enable_rules: Option::None,
            numeric_attributes_for_filtering: Option::None,
            allow_compression_of_integer_array: Option::None,
            attribute_for_distinct: Option::None,
            distinct: Option::None,
            replace_synonyms_in_highlight: Option::None,
            min_proximity: Option::None,
            response_fields: Option::None,
            max_facet_hits: Option::None,
        }
    }

    /// The object entries contributed by attribute selection and ranking.
    #[verifier::opaque]
    pub open spec fn attribute_entries(self) -> Seq<(Seq<char>, JsonModel)> {
        let es = Seq::<(Seq<char>, JsonModel)>::empty();
        let es = es + opt_entry("searchableAttributes"@, opt_str_list_w(self.searchable_attributes));
        let es = es + opt_entry("attributesForFacetting"@, opt_str_list_w(self.attributes_for_facetting));
        let es = es + opt_entry("unretrievableAttributes"@, opt_str_list_w(self.unretrievable_attributes));
        let es = es + opt_entry("attributesToRetrieve"@, opt_str_list_w(self.attributes_to_retrieve));
        let es = es + opt_entry("ranking"@, opt_str_list_w(self.ranking));
        let es = es + opt_entry("customRanking"@, opt_str_list_w(self.custom_ranking));
        let es = es + opt_entry("replicas"@, opt_str_list_w(self.replicas));
        let es = es + opt_entry("maxValuesPerFacet"@, opt_u64_w(self.max_values_per_facet));
        let es = es + opt_entry("sortFacetValuesBy"@, opt_sortfacet_w(self.sort_facet_values_by));
        es
    }
    /// The object entries contributed by highlighting, snippets and pagination.
    #[verifier::opaque]
    pub open spec fn display_entries(self) -> Seq<(Seq<char>, JsonModel)> {
        let es = Seq::<(Seq<char>, JsonModel)>::empty();
        let es = es + opt_entry("attributesToHighlight"@, opt_str_list_w(self.attributes_to_highlight));
        let es = es + opt_entry("attributesToSnippet"@, opt_str_list_w(self.attributes_to_snippet));
        let es = es + opt_entry("highlightPreTag"@, opt_str_w(self.highlight_pre_tag));
        let es = es + opt_entry("highlightPostTag"@, opt_str_w(self.highlight_post_tag));
        let es = es + opt_entry("snippetEllipsisText"@, opt_str_w(self.snippet_ellipsis_text));
        let es = es + opt_entry("restrictHighlightAndSnippetArrays"@, opt_bool_w(self.restrict_highlight_and_snippet_arrays));
        let es = es + opt_entry("hitsPerPage"@, opt_u64_w(self.hits_per_page));
        let es = es + opt_entry("paginationLimitedTo"@, opt_u64_w(self.pagination_limited_to));
        let es = es + opt_entry("minWordSizefor1Typo"@, opt_u64_w(self.min_word_sizefor_1_typo));
        let es = es + opt_entry("minWordSizefor2Typo"@, opt_u64_w(self.min_word_sizefor_2_typos));
        es
    }
    /// The object entries contributed by typo tolerance.
    #[verifier::opaque]
    pub open spec fn typo_entries(self) -> Seq<(Seq<char>, JsonModel)> {
        let es = Seq::<(Seq<char>, JsonModel)>::empty();
        let es = es + opt_entry("typoTolerance"@, opt_typo_w(self.typo_tolerance));
        let es = es + opt_entry("allowTyposOnNumericTokens"@, opt_bool_w(self.allow_typos_on_numeric_tokens));
        let es = es + opt_entry("disableTypoToleranceOnAttributes"@, opt_str_list_w(self.disable_typo_tolerance_on_attributes));
        let es = es + opt_entry("disableTypoToleranceOnWords"@, opt_str_list_w(self.disable_typo_tolerance_on_words));
        let es = es + opt_entry("separatorsToIndex"@, opt_str_w(self.separators_to_index));
        es
    }

    /// The object entries contributed by language rules.
    #[verifier::opaque]
    pub open spec fn language_entries(self) -> Seq<(Seq<char>, JsonModel)> {
        let es = Seq::<(Seq<char>, JsonModel)>::empty();
        let es = es + opt_entry("ignorePlurals"@, opt_plurals_w(self.ignore_plurals));
        let es = es + opt_entry("removeStopWords"@, opt_plurals_w(self.remove_stop_words));
        let es = es + opt_entry("camelCaseAttributes"@, opt_str_list_w(self.camel_case_attributes));
        let es = es + opt_entry("decompoundedAttributes"@, opt_str_map_w(self.decompounded_attributes));
        let es = es + opt_entry("keepDiacriticsOnCharacters"@, opt_str_w(self.keep_diacritics_on_characters));
        let es = es + opt_entry("queryLanguages"@, opt_str_list_w(self.query_languages));
        let es = es + opt_entry("queryType"@, opt_str_w(self.query_type));
        es
    }

    /// The object entries contributed by query strategy.
    #[verifier::opaque]
    pub open spec fn strategy_entries(self) -> Seq<(Seq<char>, JsonModel)> {
        let es = Seq::<(Seq<char>, JsonModel)>::empty();
        let es = es + opt_entry("removeWordsIfNoResults"@, opt_remove_w(self.remove_words_if_no_results));
        let es = es + opt_entry("advancedSyntax"@, opt_bool_w(self.advanced_syntax));
        let es = es + opt_entry("optionalWords"@, opt_str_list_w(self.optional_words));
        let es = es + opt_entry("disablePrefixOnAttributes"@, opt_str_list_w(self.disable_prefix_on_attributes));
        let es = es + opt_entry("disableExactOnAttributes"@, opt_str_list_w(self.disable_exact_on_attributes));
        let es = es + opt_entry("exactOnSingleWordQuery"@, opt_exact_w(self.exact_on_single_word_query));
        let es = es + opt_entry("alternativesAsExact"@, opt_alt_list_w(self.alternatives_as_exact));
        let es = es + opt_entry("enableRules"@, opt_bool_w(self.enable_rules));
        es
    }
    /// The object entries contributed by performance and advanced knobs.
    #[verifier::opaque]
    pub open spec fn advanced_entries(self) -> Seq<(Seq<char>, JsonModel)> {
        let es = Seq::<(Seq<char>, JsonModel)>::empty();
        let es = es + opt_entry("numericAttributesForFiltering"@, opt_str_list_w(self.numeric_attributes_for_filtering));
        let es = es + opt_entry("allowCompressionOfIntegerArray"@, opt_bool_w(self.allow_compression_of_integer_array));
        let es = es + opt_entry("attributeForDistinct"@, opt_str_w(self.attribute_for_distinct));
        let es = es + opt_entry("distinct"@, opt_distinct_w(self.distinct));
        let es = es + opt_entry("replaceSynonymsInHighlight"@, opt_bool_w(self.replace_synonyms_in_highlight));
        let es = es + opt_entry("minProximity"@, opt_minprox_w(self.min_proximity));
        let es = es + opt_entry("responseFields"@, opt_str_list_w(self.response_fields));
        let es = es + opt_entry("maxFacetHits"@, opt_u64_w(self.max_facet_hits));
        es
    }

    /// The ordered object entries of the set fields: the content of
    /// the JSON settings body.
    pub open spec fn wire_entries(self) -> Seq<(Seq<char>, JsonModel)> {
        self.attribute_entries() + self.display_entries() + self.typo_entries()
            + self.language_entries() + self.strategy_entries() + self.advanced_entries()
    }

    /// Fresh settings with no field set.
    pub fn new() -> (r: IndexSettings)
        ensures
            r == IndexSettings::unset(),
    {
        IndexSettings {
            searchable_attributes: Option::None,
            attributes_for_facetting: Option::None,
            unretrievable_attributes: Option::None,
            attributes_to_retrieve: Option::None,
            ranking: Option::None,
            custom_ranking: Option::None,
            replicas: Option::None,
            max_values_per_facet: Option::None,
            sort_facet_values_by: Option::None,
            attributes_to_highlight: Option::None,
            attributes_to_snippet: Option::None,
            highlight_pre_tag: Option::None,
            highlight_post_tag: Option::None,
            snippet_ellipsis_text: Option::None,
            restrict_highlight_and_snippet_arrays: Option::None,
            hits_per_page: Option::None,
            pagination_limited_to: Option::None,
            min_word_sizefor_1_typo: Option::None,
            min_word_sizefor_2_typos: Option::None,
            typo_tolerance: Option::None,
            allow_typos_on_numeric_tokens: Option::None,
            disable_typo_tolerance_on_attributes: Option::None,
            disable_typo_tolerance_on_words: Option::None,
            separators_to_index: Option::None,
            ignore_plurals: Option::None,
            remove_stop_words: Option::None,
            camel_case_attributes: Option::None,
            decompounded_attributes: Option::None,
            keep_diacritics_on_characters: Option::None,
            query_languages: Option::None,
            query_type: Option::None,
            remove_words_if_no_results: Option::None,
            advanced_syntax: Option::None,
            optional_words: Option::None,
            disable_prefix_on_attributes: Option::None,
            disable_exact_on_attributes: Option::None,
            exact_on_single_word_query: Option::None,
            alternatives_as_exact: Option::None,
            enable_rules: Option::None,
            numeric_attributes_for_filtering: Option::None,
            allow_compression_of_integer_array: Option::None,
            attribute_for_distinct: Option::None,
            distinct: Option::None,
            replace_synonyms_in_highlight: Option::None,
            min_proximity: Option::None,
            response_fields: Option::None,
            max_facet_hits: Option::None,
        }
    }

    #[verifier::rlimit(100)]
    #[verifier::spinoff_prover]
    fn push_attribute_entries(&self, entries: &mut Vec<(String, JsonValue)>)
        ensures
            obj_model(final(entries)@) == obj_model(old(entries)@) + self.attribute_entries(),
    {
        let ghost mut exp: Seq<(Seq<char>, JsonModel)> = Seq::empty();
        proof {
            lemma_seq_add_empty(obj_model(entries@));
            assert(obj_model(entries@) == obj_model(old(entries)@) + exp);
        }
        match &self.searchable_attributes {
            Option::Some(x) => {
                let wv = JsonValue::Arr(str_vec_to_wire(x));
                push_entry(entries, "searchableAttributes", wv);
                proof {
                    assert(opt_entry("searchableAttributes"@, opt_str_list_w(self.searchable_attributes)) == seq![(
                        "searchableAttributes"@,
                        last_entry_model(entries@),
                    )]);
                    lemma_seq_assoc(
                        obj_model(old(entries)@),
                        exp,
                        opt_entry("searchableAttributes"@, opt_str_list_w(self.searchable_attributes)),
                    );
                    exp = exp + opt_entry("searchableAttributes"@, opt_str_list_w(self.searchable_attributes));
                    assert(obj_model(entries@) == obj_model(old(entries)@) + exp);
                }
            },
            Option::None => {
                proof {
                    lemma_seq_add_empty(exp);
                    exp = exp + opt_entry("searchableAttributes"@, opt_str_list_w(self.searchable_attributes));
                    assert(obj_model(entries@) == obj_model(old(entries)@) + exp);
                }
            },
        }
        match &self.attributes_for_facetting {
            Option::Some(x) => {
                let wv = JsonValue::Arr(str_vec_to_wire(x));
                push_entry(entries, "attributesForFacetting", wv);
                proof {
                    assert(opt_entry("attributesForFacetting"@, opt_str_list_w(self.attributes_for_facetting)) == seq![(
                        "attributesForFacetting"@,
                        last_entry_model(entries@),
                    )]);
                    lemma_seq_assoc(
                        obj_model(old(entries)@),
                        exp,
                        opt_entry("attributesForFacetting"@, opt_str_list_w(self.attributes_for_facetting)),
                    );
                    exp = exp + opt_entry("attributesForFacetting"@, opt_str_list_w(self.attributes_for_facetting));
                    assert(obj_model(entries@) == obj_model(old(entries)@) + exp);
                }
            },
            Option::None => {
                proof {
                    lemma_seq_add_empty(exp);
                    exp = exp + opt_entry("attributesForFacetting"@, opt_str_list_w(self.attributes_for_facetting));
                    assert(obj_model(entries@) == obj_model(old(entries)@) + exp);
                }
            },
        }
        match &self.unretrievable_attributes {
            Option::Some(x) => {
                let wv = JsonValue::Arr(str_vec_to_wire(x));
                push_entry(entries, "unretrievableAttributes", wv);
                proof {
                    assert(opt_entry("unretrievableAttributes"@, opt_str_list_w(self.unretrievable_attributes)) == seq![(
                        "unretrievableAttributes"@,
                        last_entry_model(entries@),
                    )]);
                    lemma_seq_assoc(
                        obj_model(old(entries)@),
                        exp,
                        opt_entry("unretrievableAttributes"@, opt_str_list_w(self.unretrievable_attributes)),
                    );
                    exp = exp + opt_entry("unretrievableAttributes"@, opt_str_list_w(self.unretrievable_attributes));
                    assert(obj_model(entries@) == obj_model(old(entries)@) + exp);
                }
            },
            Option::None => {
                proof {
                    lemma_seq_add_empty(exp);
                    exp = exp + opt_entry("unretrievableAttributes"@, opt_str_list_w(self.unretrievable_attributes));
                    assert(obj_model(entries@) == obj_model(old(entries)@) + exp);
                }
            },
        }
        match &self.attributes_to_retrieve {
            Option::Some(x) => {
                let wv = JsonValue::Arr(str_vec_to_wire(x));
                push_entry(entries, "attributesToRetrieve", wv);
                proof {
                    assert(opt_entry("attributesToRetrieve"@, opt_str_list_w(self.attributes_to_retrieve)) == seq![(
                        "attributesToRetrieve"@,
                        last_entry_model(entries@),
                    )]);
                    lemma_seq_assoc(
                        obj_model(old(entries)@),
                        exp,
                        opt_entry("attributesToRetrieve"@, opt_str_list_w(self.attributes_to_retrieve)),
                    );
                    exp = exp + opt_entry("attributesToRetrieve"@, opt_str_list_w(self.attributes_to_retrieve));
                    assert(obj_model(entries@) == obj_model(old(entries)@) + exp);
                }
            },
            Option::None => {
                proof {
                    lemma_seq_add_empty(exp);
                    exp = exp + opt_entry("attributesToRetrieve"@, opt_str_list_w(self.attributes_to_retrieve));
                    assert(obj_model(entries@) == obj_model(old(entries)@) + exp);
                }
            },
        }
        match &self.ranking {
            Option::Some(x) => {
                let wv = JsonValue::Arr(str_vec_to_wire(x));
                push_entry(entries, "ranking", wv);
                proof {
                    assert(opt_entry("ranking"@, opt_str_list_w(self.ranking)) == seq![(
                        "ranking"@,
                        last_entry_model(entries@),
                    )]);
                    lemma_seq_assoc(
                        obj_model(old(entries)@),
                        exp,
                        opt_entry("ranking"@, opt_str_list_w(self.ranking)),
                    );
                    exp = exp + opt_entry("ranking"@, opt_str_list_w(self.ranking));
                    assert(obj_model(entries@) == obj_model(old(entries)@) + exp);
                }
            },
            Option::None => {
                proof {
                    lemma_seq_add_empty(exp);
                    exp = exp + opt_entry("ranking"@, opt_str_list_w(self.ranking));
                    assert(obj_model(entries@) == obj_model(old(entries)@) + exp);
                }
            },
        }
        match &self.custom_ranking {
            Option::Some(x) => {
                let wv = JsonValue::Arr(str_vec_to_wire(x));
                push_entry(entries, "customRanking", wv);
                proof {
                    assert(opt_entry("customRanking"@, opt_str_list_w(self.custom_ranking)) == seq![(
                        "customRanking"@,
                        last_entry_model(entries@),
                    )]);
                    lemma_seq_assoc(
                        obj_model(old(entries)@),
                        exp,
                        opt_entry("customRanking"@, opt_str_list_w(self.custom_ranking)),
                    );
                    exp = exp + opt_entry("customRanking"@, opt_str_list_w(self.custom_ranking));
                    assert(obj_model(entries@) == obj_model(old(entries)@) + exp);
                }
            },
            Option::None => {
                proof {
                    lemma_seq_add_empty(exp);
                    exp = exp + opt_entry("customRanking"@, opt_str_list_w(self.custom_ranking));
                    assert(obj_model(entries@) == obj_model(old(entries)@) + exp);
                }
            },
        }
        match &self.replicas {
            Option::Some(x) => {
                let wv = JsonValue::Arr(str_vec_to_wire(x));
                push_entry(entries, "replicas", wv);
                proof {
                    assert(opt_entry("replicas"@, opt_str_list_w(self.replicas)) == seq![(
                        "replicas"@,
                        last_entry_model(entries@),
                    )]);
                    lemma_seq_assoc(
                        obj_model(old(entries)@),
                        exp,
                        opt_entry("replicas"@, opt_str_list_w(self.replicas)),
                    );
                    exp = exp + opt_entry("replicas"@, opt_str_list_w(self.replicas));
                    assert(obj_model(entries@) == obj_model(old(entries)@) + exp);
                }
            },
            Option::None => {
                proof {
                    lemma_seq_add_empty(exp);
                    exp = exp + opt_entry("replicas"@, opt_str_list_w(self.replicas));
                    assert(obj_model(entries@) == obj_model(old(entries)@) + exp);
                }
            },
        }
        match &self.max_values_per_facet {
            Option::Some(x) => {
                let wv = JsonValue::Num(*x);
                push_entry(entries, "maxValuesPerFacet", wv);
                proof {
                    assert(opt_entry("maxValuesPerFacet"@, opt_u64_w(self.max_values_per_facet)) == seq![(
                        "maxValuesPerFacet"@,
                        last_entry_model(entries@),
                    )]);
                    lemma_seq_assoc(
                        obj_model(old(entries)@),
                        exp,
                        opt_entry("maxValuesPerFacet"@, opt_u64_w(self.max_values_per_facet)),
                    );
                    exp = exp + opt_entry("maxValuesPerFacet"@, opt_u64_w(self.max_values_per_facet));
                    assert(obj_model(entries@) == obj_model(old(entries)@) + exp);
                }
            },
            Option::None => {
                proof {
                    lemma_seq_add_empty(exp);
                    exp = exp + opt_entry("maxValuesPerFacet"@, opt_u64_w(self.max_values_per_facet));
                    assert(obj_model(entries@) == obj_model(old(entries)@) + exp);
                }
            },
        }
        match &self.sort_facet_values_by {
            Option::Some(x) => {
                let wv = x.to_wire();
                push_entry(entries, "sortFacetValuesBy", wv);
                proof {
                    assert(opt_entry("sortFacetValuesBy"@, opt_sortfacet_w(self.sort_facet_values_by)) == seq![(
                        "sortFacetValuesBy"@,
                        last_entry_model(entries@),
                    )]);
                    lemma_seq_assoc(
                        obj_model(old(entries)@),
                        exp,
                        opt_entry("sortFacetValuesBy"@, opt_sortfacet_w(self.sort_facet_values_by)),
                    );
                    exp = exp + opt_entry("sortFacetValuesBy"@, opt_sortfacet_w(self.sort_facet_values_by));
                    assert(obj_model(entries@) == obj_model(old(entries)@) + exp);
                }
            },
            Option::None => {
                proof {
                    lemma_seq_add_empty(exp);
                    exp = exp + opt_entry("sortFacetValuesBy"@, opt_sortfacet_w(self.sort_facet_values_by));
                    assert(obj_model(entries@) == obj_model(old(entries)@) + exp);
                }
            },
        }
        proof {
            reveal(IndexSettings::attribute_entries);
            assert(self.attribute_entries() == exp);
        }
    }
    #[verifier::rlimit(100)]
    #[verifier::spinoff_prover]
    fn push_display_entries(&self, entries: &mut Vec<(String, JsonValue)>)
        ensures
            obj_model(final(entries)@) == obj_model(old(entries)@) + self.display_entries(),
    {
        let ghost mut exp: Seq<(Seq<char>, JsonModel)> = Seq::empty();
        proof {
            lemma_seq_add_empty(obj_model(entries@));
            assert(obj_model(entries@) == obj_model(old(entries)@) + exp);
        }
        match &self.attributes_to_highlight {
            Option::Some(x) => {
                let wv = JsonValue::Arr(str_vec_to_wire(x));
                push_entry(entries, "attributesToHighlight", wv);
                proof {
                    assert(opt_entry("attributesToHighlight"@, opt_str_list_w(self.attributes_to_highlight)) == seq![(
                        "attributesToHighlight"@,
                        last_entry_model(entries@),
                    )]);
                    lemma_seq_assoc(
                        obj_model(old(entries)@),
                        exp,
                        opt_entry("attributesToHighlight"@, opt_str_list_w(self.attributes_to_highlight)),
                    );
                    exp = exp + opt_entry("attributesToHighlight"@, opt_str_list_w(self.attributes_to_highlight));
                    assert(obj_model(entries@) == obj_model(old(entries)@) + exp);
                }
            },
            Option::None => {
                proof {
                    lemma_seq_add_empty(exp);
                    exp = exp + opt_entry("attributesToHighlight"@, opt_str_list_w(self.attributes_to_highlight));
                    assert(obj_model(entries@) == obj_model(old(entries)@) + exp);
                }
            },
        }
        match &self.attributes_to_snippet {
            Option::Some(x) => {
                let wv = JsonValue::Arr(str_vec_to_wire(x));
                push_entry(entries, "attributesToSnippet", wv);
                proof {
                    assert(opt_entry("attributesToSnippet"@, opt_str_list_w(self.attributes_to_snippet)) == seq![(
                        "attributesToSnippet"@,
                        last_entry_model(entries@),
                    )]);
                    lemma_seq_assoc(
                        obj_model(old(entries)@),
                        exp,
                        opt_entry("attributesToSnippet"@, opt_str_list_w(self.attributes_to_snippet)),
                    );
                    exp = exp + opt_entry("attributesToSnippet"@, opt_str_list_w(self.attributes_to_snippet));
                    assert(obj_model(entries@) == obj_model(old(entries)@) + exp);
                }
            },
            Option::None => {
                proof {
                    lemma_seq_add_empty(exp);
                    exp = exp + opt_entry("attributesToSnippet"@, opt_str_list_w(self.attributes_to_snippet));
                    assert(obj_model(entries@) == obj_model(old(entries)@) + exp);
                }
            },
        }
        match &self.highlight_pre_tag {
            Option::Some(x) => {
                let wv = JsonValue::Str(x.clone());
                push_entry(entries, "highlightPreTag", wv);
                proof {
                    assert(opt_entry("highlightPreTag"@, opt_str_w(self.highlight_pre_tag)) == seq![(
                        "highlightPreTag"@,
                        last_entry_model(entries@),
                    )]);
                    lemma_seq_assoc(
                        obj_model(old(entries)@),
                        exp,
                        opt_entry("highlightPreTag"@, opt_str_w(self.highlight_pre_tag)),
                    );
                    exp = exp + opt_entry("highlightPreTag"@, opt_str_w(self.highlight_pre_tag));
                    assert(obj_model(entries@) == obj_model(old(entries)@) + exp);
                }
            },
            Option::None => {
                proof {
                    lemma_seq_add_empty(exp);
                    exp = exp + opt_entry("highlightPreTag"@, opt_str_w(self.highlight_pre_tag));
                    assert(obj_model(entries@) == obj_model(old(entries)@) + exp);
                }
            },
        }
        match &self.highlight_post_tag {
            Option::Some(x) => {
                let wv = JsonValue::Str(x.clone());
                push_entry(entries, "highlightPostTag", wv);
                proof {
                    assert(opt_entry("highlightPostTag"@, opt_str_w(self.highlight_post_tag)) == seq![(
                        "highlightPostTag"@,
                        last_entry_model(entries@),
                    )]);
                    lemma_seq_assoc(
                        obj_model(old(entries)@),
                        exp,
                        opt_entry("highlightPostTag"@, opt_str_w(self.highlight_post_tag)),
                    );
                    exp = exp + opt_entry("highlightPostTag"@, opt_str_w(self.highlight_post_tag));
                    assert(obj_model(entries@) == obj_model(old(entries)@) + exp);
                }
            },
            Option::None => {
                proof {
                    lemma_seq_add_empty(exp);
                    exp = exp + opt_entry("highlightPostTag"@, opt_str_w(self.highlight_post_tag));
                    assert(obj_model(entries@) == obj_model(old(entries)@) + exp);
                }
            },
        }
        match &self.snippet_ellipsis_text {
            Option::Some(x) => {
                let wv = JsonValue::Str(x.clone());
                push_entry(entries, "snippetEllipsisText", wv);
                proof {
                    assert(opt_entry("snippetEllipsisText"@, opt_str_w(self.snippet_ellipsis_text)) == seq![(
                        "snippetEllipsisText"@,
                        last_entry_model(entries@),
                    )]);
                    lemma_seq_assoc(
                        obj_model(old(entries)@),
                        exp,
                        opt_entry("snippetEllipsisText"@, opt_str_w(self.snippet_ellipsis_text)),
                    );
                    exp = exp + opt_entry("snippetEllipsisText"@, opt_str_w(self.snippet_ellipsis_text));
                    assert(obj_model(entries@) == obj_model(old(entries)@) + exp);
                }
            },
            Option::None => {
                proof {
                    lemma_seq_add_empty(exp);
                    exp = exp + opt_entry("snippetEllipsisText"@, opt_str_w(self.snippet_ellipsis_text));
                    assert(obj_model(entries@) == obj_model(old(entries)@) + exp);
                }
            },
        }
        match &self.restrict_highlight_and_snippet_arrays {
            Option::Some(x) => {
                let wv = JsonValue::Bool(*x);
                push_entry(entries, "restrictHighlightAndSnippetArrays", wv);
                proof {
                    assert(opt_entry("restrictHighlightAndSnippetArrays"@, opt_bool_w(self.restrict_highlight_and_snippet_arrays)) == seq![(
                        "restrictHighlightAndSnippetArrays"@,
                        last_entry_model(entries@),
                    )]);
                    lemma_seq_assoc(
                        obj_model(old(entries)@),
                        exp,
                        opt_entry("restrictHighlightAndSnippetArrays"@, opt_bool_w(self.restrict_highlight_and_snippet_arrays)),
                    );
                    exp = exp + opt_entry("restrictHighlightAndSnippetArrays"@, opt_bool_w(self.restrict_highlight_and_snippet_arrays));
                    assert(obj_model(entries@) == obj_model(old(entries)@) + exp);
                }
            },
            Option::None => {
                proof {
                    lemma_seq_add_empty(exp);
                    exp = exp + opt_entry("restrictHighlightAndSnippetArrays"@, opt_bool_w(self.restrict_highlight_and_snippet_arrays));
                    assert(obj_model(entries@) == obj_model(old(entries)@) + exp);
                }
            },
        }
        match &self.hits_per_page {
            Option::Some(x) => {
                let wv = JsonValue::Num(*x);
                push_entry(entries, "hitsPerPage", wv);
                proof {
                    assert(opt_entry("hitsPerPage"@, opt_u64_w(self.hits_per_page)) == seq![(
                        "hitsPerPage"@,
                        last_entry_model(entries@),
                    )]);
                    lemma_seq_assoc(
                        obj_model(old(entries)@),
                        exp,
                        opt_entry("hitsPerPage"@, opt_u64_w(self.hits_per_page)),
                    );
                    exp = exp + opt_entry("hitsPerPage"@, opt_u64_w(self.hits_per_page));
                    assert(obj_model(entries@) == obj_model(old(entries)@) + exp);
                }
            },
            Option::None => {
                proof {
                    lemma_seq_add_empty(exp);
                    exp = exp + opt_entry("hitsPerPage"@, opt_u64_w(self.hits_per_page));
                    assert(obj_model(entries@) == obj_model(old(entries)@) + exp);
                }
            },
        }
        match &self.pagination_limited_to {
            Option::Some(x) => {
                let wv = JsonValue::Num(*x);
                push_entry(entries, "paginationLimitedTo", wv);
                proof {
                    assert(opt_entry("paginationLimitedTo"@, opt_u64_w(self.pagination_limited_to)) == seq![(
                        "paginationLimitedTo"@,
                        last_entry_model(entries@),
                    )]);
                    lemma_seq_assoc(
                        obj_model(old(entries)@),
                        exp,
                        opt_entry("paginationLimitedTo"@, opt_u64_w(self.pagination_limited_to)),
                    );
                    exp = exp + opt_entry("paginationLimitedTo"@, opt_u64_w(self.pagination_limited_to));
                    assert(obj_model(entries@) == obj_model(old(entries)@) + exp);
                }
            },
            Option::None => {
                proof {
                    lemma_seq_add_empty(exp);
                    exp = exp + opt_entry("paginationLimitedTo"@, opt_u64_w(self.pagination_limited_to));
                    assert(obj_model(entries@) == obj_model(old(entries)@) + exp);
                }
            },
        }
        match &self.min_word_sizefor_1_typo {
            Option::Some(x) => {
                let wv = JsonValue::Num(*x);
                push_entry(entries, "minWordSizefor1Typo", wv);
                proof {
                    assert(opt_entry("minWordSizefor1Typo"@, opt_u64_w(self.min_word_sizefor_1_typo)) == seq![(
                        "minWordSizefor1Typo"@,
                        last_entry_model(entries@),
                    )]);
                    lemma_seq_assoc(
                        obj_model(old(entries)@),
                        exp,
                        opt_entry("minWordSizefor1Typo"@, opt_u64_w(self.min_word_sizefor_1_typo)),
                    );
                    exp = exp + opt_entry("minWordSizefor1Typo"@, opt_u64_w(self.min_word_sizefor_1_typo));
                    assert(obj_model(entries@) == obj_model(old(entries)@) + exp);
                }
            },
            Option::None => {
                proof {
                    lemma_seq_add_empty(exp);
                    exp = exp + opt_entry("minWordSizefor1Typo"@, opt_u64_w(self.min_word_sizefor_1_typo));
                    assert(obj_model(entries@) == obj_model(old(entries)@) + exp);
                }
            },
        }
        match &self.min_word_sizefor_2_typos {
            Option::Some(x) => {
                let wv = JsonValue::Num(*x);
                push_entry(entries, "minWordSizefor2Typo", wv);
                proof {
                    assert(opt_entry("minWordSizefor2Typo"@, opt_u64_w(self.min_word_sizefor_2_typos)) == seq![(
                        "minWordSizefor2Typo"@,
                        last_entry_model(entries@),
                    )]);
                    lemma_seq_assoc(
                        obj_model(old(entries)@),
                        exp,
                        opt_entry("minWordSizefor2Typo"@, opt_u64_w(self.min_word_sizefor_2_typos)),
                    );
                    exp = exp + opt_entry("minWordSizefor2Typo"@, opt_u64_w(self.min_word_sizefor_2_typos));
                    assert(obj_model(entries@) == obj_model(old(entries)@) + exp);
                }
            },
            Option::None => {
                proof {
                    lemma_seq_add_empty(exp);
                    exp = exp + opt_entry("minWordSizefor2Typo"@, opt_u64_w(self.min_word_sizefor_2_typos));
                    assert(obj_model(entries@) == obj_model(old(entries)@) + exp);
                }
            },
        }
        proof {
            reveal(IndexSettings::display_entries);
            assert(self.display_entries() == exp);
        }
    }
    #[verifier::rlimit(100)]
    #[verifier::spinoff_prover]
    fn push_typo_entries(&self, entries: &mut Vec<(String, JsonValue)>)
        ensures
            obj_model(final(entries)@) == obj_model(old(entries)@) + self.typo_entries(),
    {
        let ghost mut exp: Seq<(Seq<char>, JsonModel)> = Seq::empty();
        proof {
            lemma_seq_add_empty(obj_model(entries@));
            assert(obj_model(entries@) == obj_model(old(entries)@) + exp);
        }
        match &self.typo_tolerance {
            Option::Some(x) => {
                let wv = x.to_wire();
                push_entry(entries, "typoTolerance", wv);
                proof {
                    assert(opt_entry("typoTolerance"@, opt_typo_w(self.typo_tolerance)) == seq![(
                        "typoTolerance"@,
                        last_entry_model(entries@),
                    )]);
                    lemma_seq_assoc(
                        obj_model(old(entries)@),
                        exp,
                        opt_entry("typoTolerance"@, opt_typo_w(self.typo_tolerance)),
                    );
                    exp = exp + opt_entry("typoTolerance"@, opt_typo_w(self.typo_tolerance));
                    assert(obj_model(entries@) == obj_model(old(entries)@) + exp);
                }
            },
            Option::None => {
                proof {
                    lemma_seq_add_empty(exp);
                    exp = exp + opt_entry("typoTolerance"@, opt_typo_w(self.typo_tolerance));
                    assert(obj_model(entries@) == obj_model(old(entries)@) + exp);
                }
            },
        }
        match &self.allow_typos_on_numeric_tokens {
            Option::Some(x) => {
                let wv = JsonValue::Bool(*x);
                push_entry(entries, "allowTyposOnNumericTokens", wv);
                proof {
                    assert(opt_entry("allowTyposOnNumericTokens"@, opt_bool_w(self.allow_typos_on_numeric_tokens)) == seq![(
                        "allowTyposOnNumericTokens"@,
                        last_entry_model(entries@),
                    )]);
                    lemma_seq_assoc(
                        obj_model(old(entries)@),
                        exp,
                        opt_entry("allowTyposOnNumericTokens"@, opt_bool_w(self.allow_typos_on_numeric_tokens)),
                    );
                    exp = exp + opt_entry("allowTyposOnNumericTokens"@, opt_bool_w(self.allow_typos_on_numeric_tokens));
                    assert(obj_model(entries@) == obj_model(old(entries)@) + exp);
                }
            },
            Option::None => {
                proof {
                    lemma_seq_add_empty(exp);
                    exp = exp + opt_entry("allowTyposOnNumericTokens"@, opt_bool_w(self.allow_typos_on_numeric_tokens));
                    assert(obj_model(entries@) == obj_model(old(entries)@) + exp);
                }
            },
        }
        match &self.disable_typo_tolerance_on_attributes {
            Option::Some(x) => {
                let wv = JsonValue::Arr(str_vec_to_wire(x));
                push_entry(entries, "disableTypoToleranceOnAttributes", wv);
                proof {
                    assert(opt_entry("disableTypoToleranceOnAttributes"@, opt_str_list_w(self.disable_typo_tolerance_on_attributes)) == seq![(
                        "disableTypoToleranceOnAttributes"@,
                        last_entry_model(entries@),
                    )]);
                    lemma_seq_assoc(
                        obj_model(old(entries)@),
                        exp,
                        opt_entry("disableTypoToleranceOnAttributes"@, opt_str_list_w(self.disable_typo_tolerance_on_attributes)),
                    );
                    exp = exp + opt_entry("disableTypoToleranceOnAttributes"@, opt_str_list_w(self.disable_typo_tolerance_on_attributes));
                    assert(obj_model(entries@) == obj_model(old(entries)@) + exp);
                }
            },
            Option::None => {
                proof {
                    lemma_seq_add_empty(exp);
                    exp = exp + opt_entry("disableTypoToleranceOnAttributes"@, opt_str_list_w(self.disable_typo_tolerance_on_attributes));
                    assert(obj_model(entries@) == obj_model(old(entries)@) + exp);
                }
            },
        }
        match &self.disable_typo_tolerance_on_words {
            Option::Some(x) => {
                let wv = JsonValue::Arr(str_vec_to_wire(x));
                push_entry(entries, "disableTypoToleranceOnWords", wv);
                proof {
                    assert(opt_entry("disableTypoToleranceOnWords"@, opt_str_list_w(self.disable_typo_tolerance_on_words)) == seq![(
                        "disableTypoToleranceOnWords"@,
                        last_entry_model(entries@),
                    )]);
                    lemma_seq_assoc(
                        obj_model(old(entries)@),
                        exp,
                        opt_entry("disableTypoToleranceOnWords"@, opt_str_list_w(self.disable_typo_tolerance_on_words)),
                    );
                    exp = exp + opt_entry("disableTypoToleranceOnWords"@, opt_str_list_w(self.disable_typo_tolerance_on_words));
                    assert(obj_model(entries@) == obj_model(old(entries)@) + exp);
                }
            },
            Option::None => {
                proof {
                    lemma_seq_add_empty(exp);
                    exp = exp + opt_entry("disableTypoToleranceOnWords"@, opt_str_list_w(self.disable_typo_tolerance_on_words));
                    assert(obj_model(entries@) == obj_model(old(entries)@) + exp);
                }
            },
        }
        match &self.separators_to_index {
            Option::Some(x) => {
                let wv = JsonValue::Str(x.clone());
                push_entry(entries, "separatorsToIndex", wv);
                proof {
                    assert(opt_entry("separatorsToIndex"@, opt_str_w(self.separators_to_index)) == seq![(
                        "separatorsToIndex"@,
                        last_entry_model(entries@),
                    )]);
                    lemma_seq_assoc(
                        obj_model(old(entries)@),
                        exp,
                        opt_entry("separatorsToIndex"@, opt_str_w(self.separators_to_index)),
                    );
                    exp = exp + opt_entry("separatorsToIndex"@, opt_str_w(self.separators_to_index));
                    assert(obj_model(entries@) == obj_model(old(entries)@) + exp);
                }
            },
            Option::None => {
                proof {
                    lemma_seq_add_empty(exp);
                    exp = exp + opt_entry("separatorsToIndex"@, opt_str_w(self.separators_to_index));
                    assert(obj_model(entries@) == obj_model(old(entries)@) + exp);
                }
            },
        }
        proof {
            reveal(IndexSettings::typo_entries);
            assert(self.typo_entries() == exp);
        }
    }

    #[verifier::rlimit(100)]
    #[verifier::spinoff_prover]
    fn push_language_entries(&self, entries: &mut Vec<(String, JsonValue)>)
        ensures
            obj_model(final(entries)@) == obj_model(old(entries)@) + self.language_entries(),
    {
        let ghost mut exp: Seq<(Seq<char>, JsonModel)> = Seq::empty();
        proof {
            lemma_seq_add_empty(obj_model(entries@));
            assert(obj_model(entries@) == obj_model(old(entries)@) + exp);
        }
        match &self.ignore_plurals {
            Option::Some(x) => {
                let wv = x.to_wire();
                push_entry(entries, "ignorePlurals", wv);
                proof {
                    assert(opt_entry("ignorePlurals"@, opt_plurals_w(self.ignore_plurals)) == seq![(
                        "ignorePlurals"@,
                        last_entry_model(entries@),
                    )]);
                    lemma_seq_assoc(
                        obj_model(old(entries)@),
                        exp,
                        opt_entry("ignorePlurals"@, opt_plurals_w(self.ignore_plurals)),
                    );
                    exp = exp + opt_entry("ignorePlurals"@, opt_plurals_w(self.ignore_plurals));
                    assert(obj_model(entries@) == obj_model(old(entries)@) + exp);
                }
            },
            Option::None => {
                proof {
                    lemma_seq_add_empty(exp);
                    exp = exp + opt_entry("ignorePlurals"@, opt_plurals_w(self.ignore_plurals));
                    assert(obj_model(entries@) == obj_model(old(entries)@) + exp);
                }
            },
        }
        match &self.remove_stop_words {
            Option::Some(x) => {
                let wv = x.to_wire();
                push_entry(entries, "removeStopWords", wv);
                proof {
                    assert(opt_entry("removeStopWords"@, opt_plurals_w(self.remove_stop_words)) == seq![(
                        "removeStopWords"@,
                        last_entry_model(entries@),
                    )]);
                    lemma_seq_assoc(
                        obj_model(old(entries)@),
                        exp,
                        opt_entry("removeStopWords"@, opt_plurals_w(self.remove_stop_words)),
                    );
                    exp = exp + opt_entry("removeStopWords"@, opt_plurals_w(self.remove_stop_words));
                    assert(obj_model(entries@) == obj_model(old(entries)@) + exp);
                }
            },
            Option::None => {
                proof {
                    lemma_seq_add_empty(exp);
                    exp = exp + opt_entry("removeStopWords"@, opt_plurals_w(self.remove_stop_words));
                    assert(obj_model(entries@) == obj_model(old(entries)@) + exp);
                }
            },
        }
        match &self.camel_case_attributes {
            Option::Some(x) => {
                let wv = JsonValue::Arr(str_vec_to_wire(x));
                push_entry(entries, "camelCaseAttributes", wv);
                proof {
                    assert(opt_entry("camelCaseAttributes"@, opt_str_list_w(self.camel_case_attributes)) == seq![(
                        "camelCaseAttributes"@,
                        last_entry_model(entries@),
                    )]);
                    lemma_seq_assoc(
                        obj_model(old(entries)@),
                        exp,
                        opt_entry("camelCaseAttributes"@, opt_str_list_w(self.camel_case_attributes)),
                    );
                    exp = exp + opt_entry("camelCaseAttributes"@, opt_str_list_w(self.camel_case_attributes));
                    assert(obj_model(entries@) == obj_model(old(entries)@) + exp);
                }
            },
            Option::None => {
                proof {
                    lemma_seq_add_empty(exp);
                    exp = exp + opt_entry("camelCaseAttributes"@, opt_str_list_w(self.camel_case_attributes));
                    assert(obj_model(entries@) == obj_model(old(entries)@) + exp);
                }
            },
        }
        match &self.decompounded_attributes {
            Option::Some(x) => {
                let wv = JsonValue::Obj(str_map_to_wire(x));
                push_entry(entries, "decompoundedAttributes", wv);
                proof {
                    assert(opt_entry("decompoundedAttributes"@, opt_str_map_w(self.decompounded_attributes)) == seq![(
                        "decompoundedAttributes"@,
                        last_entry_model(entries@),
                    )]);
                    lemma_seq_assoc(
                        obj_model(old(entries)@),
                        exp,
                        opt_entry("decompoundedAttributes"@, opt_str_map_w(self.decompounded_attributes)),
                    );
                    exp = exp + opt_entry("decompoundedAttributes"@, opt_str_map_w(self.decompounded_attributes));
                    assert(obj_model(entries@) == obj_model(old(entries)@) + exp);
                }
            },
            Option::None => {
                proof {
                    lemma_seq_add_empty(exp);
                    exp = exp + opt_entry("decompoundedAttributes"@, opt_str_map_w(self.decompounded_attributes));
                    assert(obj_model(entries@) == obj_model(old(entries)@) + exp);
                }
            },
        }
        match &self.keep_diacritics_on_characters {
            Option::Some(x) => {
                let wv = JsonValue::Str(x.clone());
                push_entry(entries, "keepDiacriticsOnCharacters", wv);
                proof {
                    assert(opt_entry("keepDiacriticsOnCharacters"@, opt_str_w(self.keep_diacritics_on_characters)) == seq![(
                        "keepDiacriticsOnCharacters"@,
                        last_entry_model(entries@),
                    )]);
                    lemma_seq_assoc(
                        obj_model(old(entries)@),
                        exp,
                        opt_entry("keepDiacriticsOnCharacters"@, opt_str_w(self.keep_diacritics_on_characters)),
                    );
                    exp = exp + opt_entry("keepDiacriticsOnCharacters"@, opt_str_w(self.keep_diacritics_on_characters));
                    assert(obj_model(entries@) == obj_model(old(entries)@) + exp);
                }
            },
            Option::None => {
                proof {
                    lemma_seq_add_empty(exp);
                    exp = exp + opt_entry("keepDiacriticsOnCharacters"@, opt_str_w(self.keep_diacritics_on_characters));
                    assert(obj_model(entries@) == obj_model(old(entries)@) + exp);
                }
            },
        }
        match &self.query_languages {
            Option::Some(x) => {
                let wv = JsonValue::Arr(str_vec_to_wire(x));
                push_entry(entries, "queryLanguages", wv);
                proof {
                    assert(opt_entry("queryLanguages"@, opt_str_list_w(self.query_languages)) == seq![(
                        "queryLanguages"@,
                        last_entry_model(entries@),
                    )]);
                    lemma_seq_assoc(
                        obj_model(old(entries)@),
                        exp,
                        opt_entry("queryLanguages"@, opt_str_list_w(self.query_languages)),
                    );
                    exp = exp + opt_entry("queryLanguages"@, opt_str_list_w(self.query_languages));
                    assert(obj_model(entries@) == obj_model(old(entries)@) + exp);
                }
            },
            Option::None => {
                proof {
                    lemma_seq_add_empty(exp);
                    exp = exp + opt_entry("queryLanguages"@, opt_str_list_w(self.query_languages));
                    assert(obj_model(entries@) == obj_model(old(entries)@) + exp);
                }
            },
        }
        match &self.query_type {
            Option::Some(x) => {
                let wv = JsonValue::Str(x.clone());
                push_entry(entries, "queryType", wv);
                proof {
                    assert(opt_entry("queryType"@, opt_str_w(self.query_type)) == seq![(
                        "queryType"@,
                        last_entry_model(entries@),
                    )]);
                    lemma_seq_assoc(
                        obj_model(old(entries)@),
                        exp,
                        opt_entry("queryType"@, opt_str_w(self.query_type)),
                    );
                    exp = exp + opt_entry("queryType"@, opt_str_w(self.query_type));
                    assert(obj_model(entries@) == obj_model(old(entries)@) + exp);
                }
            },
            Option::None => {
                proof {
                    lemma_seq_add_empty(exp);
                    exp = exp + opt_entry("queryType"@, opt_str_w(self.query_type));
                    assert(obj_model(entries@) == obj_model(old(entries)@) + exp);
                }
            },
        }
        proof {
            reveal(IndexSettings::language_entries);
            assert(self.language_entries() == exp);
        }
    }

    #[verifier::rlimit(100)]
    #[verifier::spinoff_prover]
    fn push_strategy_entries(&self, entries: &mut Vec<(String, JsonValue)>)
        ensures
            obj_model(final(entries)@) == obj_model(old(entries)@) + self.strategy_entries(),
    {
        let ghost mut exp: Seq<(Seq<char>, JsonModel)> = Seq::empty();
        proof {
            lemma_seq_add_empty(obj_model(entries@));
            assert(obj_model(entries@) == obj_model(old(entries)@) + exp);
        }
        match &self.remove_words_if_no_results {
            Option::Some(x) => {
                let wv = x.to_wire();
                push_entry(entries, "removeWordsIfNoResults", wv);
                proof {
                    assert(opt_entry("removeWordsIfNoResults"@, opt_remove_w(self.remove_words_if_no_results)) == seq![(
                        "removeWordsIfNoResults"@,
                        last_entry_model(entries@),
                    )]);
                    lemma_seq_assoc(
                        obj_model(old(entries)@),
                        exp,
                        opt_entry("removeWordsIfNoResults"@, opt_remove_w(self.remove_words_if_no_results)),
                    );
                    exp = exp + opt_entry("removeWordsIfNoResults"@, opt_remove_w(self.remove_words_if_no_results));
                    assert(obj_model(entries@) == obj_model(old(entries)@) + exp);
                }
            },
            Option::None => {
                proof {
                    lemma_seq_add_empty(exp);
                    exp = exp + opt_entry("removeWordsIfNoResults"@, opt_remove_w(self.remove_words_if_no_results));
                    assert(obj_model(entries@) == obj_model(old(entries)@) + exp);
                }
            },
        }
        match &self.advanced_syntax {
            Option::Some(x) => {
                let wv = JsonValue::Bool(*x);
                push_entry(entries, "advancedSyntax", wv);
                proof {
                    assert(opt_entry("advancedSyntax"@, opt_bool_w(self.advanced_syntax)) == seq![(
                        "advancedSyntax"@,
                        last_entry_model(entries@),
                    )]);
                    lemma_seq_assoc(
                        obj_model(old(entries)@),
                        exp,
                        opt_entry("advancedSyntax"@, opt_bool_w(self.advanced_syntax)),
                    );
                    exp = exp + opt_entry("advancedSyntax"@, opt_bool_w(self.advanced_syntax));
                    assert(obj_model(entries@) == obj_model(old(entries)@) + exp);
                }
            },
            Option::None => {
                proof {
                    lemma_seq_add_empty(exp);
                    exp = exp + opt_entry("advancedSyntax"@, opt_bool_w(self.advanced_syntax));
                    assert(obj_model(entries@) == obj_model(old(entries)@) + exp);
                }
            },
        }
        match &self.optional_words {
            Option::Some(x) => {
                let wv = JsonValue::Arr(str_vec_to_wire(x));
                push_entry(entries, "optionalWords", wv);
                proof {
                    assert(opt_entry("optionalWords"@, opt_str_list_w(self.optional_words)) == seq![(
                        "optionalWords"@,
                        last_entry_model(entries@),
                    )]);
                    lemma_seq_assoc(
                        obj_model(old(entries)@),
                        exp,
                        opt_entry("optionalWords"@, opt_str_list_w(self.optional_words)),
                    );
                    exp = exp + opt_entry("optionalWords"@, opt_str_list_w(self.optional_words));
                    assert(obj_model(entries@) == obj_model(old(entries)@) + exp);
                }
            },
            Option::None => {
                proof {
                    lemma_seq_add_empty(exp);
                    exp = exp + opt_entry("optionalWords"@, opt_str_list_w(self.optional_words));
                    assert(obj_model(entries@) == obj_model(old(entries)@) + exp);
                }
            },
        }
        match &self.disable_prefix_on_attributes {
            Option::Some(x) => {
                let wv = JsonValue::Arr(str_vec_to_wire(x));
                push_entry(entries, "disablePrefixOnAttributes", wv);
                proof {
                    assert(opt_entry("disablePrefixOnAttributes"@, opt_str_list_w(self.disable_prefix_on_attributes)) == seq![(
                        "disablePrefixOnAttributes"@,
                        last_entry_model(entries@),
                    )]);
                    lemma_seq_assoc(
                        obj_model(old(entries)@),
                        exp,
                        opt_entry("disablePrefixOnAttributes"@, opt_str_list_w(self.disable_prefix_on_attributes)),
                    );
                    exp = exp + opt_entry("disablePrefixOnAttributes"@, opt_str_list_w(self.disable_prefix_on_attributes));
                    assert(obj_model(entries@) == obj_model(old(entries)@) + exp);
                }
            },
            Option::None => {
                proof {
                    lemma_seq_add_empty(exp);
                    exp = exp + opt_entry("disablePrefixOnAttributes"@, opt_str_list_w(self.disable_prefix_on_attributes));
                    assert(obj_model(entries@) == obj_model(old(entries)@) + exp);
                }
            },
        }
        match &self.disable_exact_on_attributes {
            Option::Some(x) => {
                let wv = JsonValue::Arr(str_vec_to_wire(x));
                push_entry(entries, "disableExactOnAttributes", wv);
                proof {
                    assert(opt_entry("disableExactOnAttributes"@, opt_str_list_w(self.disable_exact_on_attributes)) == seq![(
                        "disableExactOnAttributes"@,
                        last_entry_model(entries@),
                    )]);
                    lemma_seq_assoc(
                        obj_model(old(entries)@),
                        exp,
                        opt_entry("disableExactOnAttributes"@, opt_str_list_w(self.disable_exact_on_attributes)),
                    );
                    exp = exp + opt_entry("disableExactOnAttributes"@, opt_str_list_w(self.disable_exact_on_attributes));
                    assert(obj_model(entries@) == obj_model(old(entries)@) + exp);
                }
            },
            Option::None => {
                proof {
                    lemma_seq_add_empty(exp);
                    exp = exp + opt_entry("disableExactOnAttributes"@, opt_str_list_w(self.disable_exact_on_attributes));
                    assert(obj_model(entries@) == obj_model(old(entries)@) + exp);
                }
            },
        }
        match &self.exact_on_single_word_query {
            Option::Some(x) => {
                let wv = x.to_wire();
                push_entry(entries, "exactOnSingleWordQuery", wv);
                proof {
                    assert(opt_entry("exactOnSingleWordQuery"@, opt_exact_w(self.exact_on_single_word_query)) == seq![(
                        "exactOnSingleWordQuery"@,
                        last_entry_model(entries@),
                    )]);
                    lemma_seq_assoc(
                        obj_model(old(entries)@),
                        exp,
                        opt_entry("exactOnSingleWordQuery"@, opt_exact_w(self.exact_on_single_word_query)),
                    );
                    exp = exp + opt_entry("exactOnSingleWordQuery"@, opt_exact_w(self.exact_on_single_word_query));
                    assert(obj_model(entries@) == obj_model(old(entries)@) + exp);
                }
            },
            Option::None => {
                proof {
                    lemma_seq_add_empty(exp);
                    exp = exp + opt_entry("exactOnSingleWordQuery"@, opt_exact_w(self.exact_on_single_word_query));
                    assert(obj_model(entries@) == obj_model(old(entries)@) + exp);
                }
            },
        }
        match &self.alternatives_as_exact {
            Option::Some(x) => {
                let wv = JsonValue::Arr(alt_vec_to_wire(x));
                push_entry(entries, "alternativesAsExact", wv);
                proof {
                    assert(opt_entry("alternativesAsExact"@, opt_alt_list_w(self.alternatives_as_exact)) == seq![(
                        "alternativesAsExact"@,
                        last_entry_model(entries@),
                    )]);
                    lemma_seq_assoc(
                        obj_model(old(entries)@),
                        exp,
                        opt_entry("alternativesAsExact"@, opt_alt_list_w(self.alternatives_as_exact)),
                    );
                    exp = exp + opt_entry("alternativesAsExact"@, opt_alt_list_w(self.alternatives_as_exact));
                    assert(obj_model(entries@) == obj_model(old(entries)@) + exp);
                }
            },
            Option::None => {
                proof {
                    lemma_seq_add_empty(exp);
                    exp = exp + opt_entry("alternativesAsExact"@, opt_alt_list_w(self.alternatives_as_exact));
                    assert(obj_model(entries@) == obj_model(old(entries)@) + exp);
                }
            },
        }
        match &self.enable_rules {
            Option::Some(x) => {
                let wv = JsonValue::Bool(*x);
                push_entry(entries, "enableRules", wv);
                proof {
                    assert(opt_entry("enableRules"@, opt_bool_w(self.enable_rules)) == seq![(
                        "enableRules"@,
                        last_entry_model(entries@),
                    )]);
                    lemma_seq_assoc(
                        obj_model(old(entries)@),
                        exp,
                        opt_entry("enableRules"@, opt_bool_w(self.enable_rules)),
                    );
                    exp = exp + opt_entry("enableRules"@, opt_bool_w(self.enable_rules));
                    assert(obj_model(entries@) == obj_model(old(entries)@) + exp);
                }
            },
            Option::None => {
                proof {
                    lemma_seq_add_empty(exp);
                    exp = exp + opt_entry("enableRules"@, opt_bool_w(self.enable_rules));
                    assert(obj_model(entries@) == obj_model(old(entries)@) + exp);
                }
            },
        }
        proof {
            reveal(IndexSettings::strategy_entries);
            assert(self.strategy_entries() == exp);
        }
    }
    #[verifier::rlimit(100)]
    #[verifier::spinoff_prover]
    fn push_advanced_entries(&self, entries: &mut Vec<(String, JsonValue)>)
        ensures
            obj_model(final(entries)@) == obj_model(old(entries)@) + self.advanced_entries(),
    {
        let ghost mut exp: Seq<(Seq<char>, JsonModel)> = Seq::empty();
        proof {
            lemma_seq_add_empty(obj_model(entries@));
            assert(obj_model(entries@) == obj_model(old(entries)@) + exp);
        }
        match &self.numeric_attributes_for_filtering {
            Option::Some(x) => {
                let wv = JsonValue::Arr(str_vec_to_wire(x));
                push_entry(entries, "numericAttributesForFiltering", wv);
                proof {
                    assert(opt_entry("numericAttributesForFiltering"@, opt_str_list_w(self.numeric_attributes_for_filtering)) == seq![(
                        "numericAttributesForFiltering"@,
                        last_entry_model(entries@),
                    )]);
                    lemma_seq_assoc(
                        obj_model(old(entries)@),
                        exp,
                        opt_entry("numericAttributesForFiltering"@, opt_str_list_w(self.numeric_attributes_for_filtering)),
                    );
                    exp = exp + opt_entry("numericAttributesForFiltering"@, opt_str_list_w(self.numeric_attributes_for_filtering));
                    assert(obj_model(entries@) == obj_model(old(entries)@) + exp);
                }
            },
            Option::None => {
                proof {
                    lemma_seq_add_empty(exp);
                    exp = exp + opt_entry("numericAttributesForFiltering"@, opt_str_list_w(self.numeric_attributes_for_filtering));
                    assert(obj_model(entries@) == obj_model(old(entries)@) + exp);
                }
            },
        }
        match &self.allow_compression_of_integer_array {
            Option::Some(x) => {
                let wv = JsonValue::Bool(*x);
                push_entry(entries, "allowCompressionOfIntegerArray", wv);
                proof {
                    assert(opt_entry("allowCompressionOfIntegerArray"@, opt_bool_w(self.allow_compression_of_integer_array)) == seq![(
                        "allowCompressionOfIntegerArray"@,
                        last_entry_model(entries@),
                    )]);
                    lemma_seq_assoc(
                        obj_model(old(entries)@),
                        exp,
                        opt_entry("allowCompressionOfIntegerArray"@, opt_bool_w(self.allow_compression_of_integer_array)),
                    );
                    exp = exp + opt_entry("allowCompressionOfIntegerArray"@, opt_bool_w(self.allow_compression_of_integer_array));
                    assert(obj_model(entries@) == obj_model(old(entries)@) + exp);
                }
            },
            Option::None => {
                proof {
                    lemma_seq_add_empty(exp);
                    exp = exp + opt_entry("allowCompressionOfIntegerArray"@, opt_bool_w(self.allow_compression_of_integer_array));
                    assert(obj_model(entries@) == obj_model(old(entries)@) + exp);
                }
            },
        }
        match &self.attribute_for_distinct {
            Option::Some(x) => {
                let wv = JsonValue::Str(x.clone());
                push_entry(entries, "attributeForDistinct", wv);
                proof {
                    assert(opt_entry("attributeForDistinct"@, opt_str_w(self.attribute_for_distinct)) == seq![(
                        "attributeForDistinct"@,
                        last_entry_model(entries@),
                    )]);
                    lemma_seq_assoc(
                        obj_model(old(entries)@),
                        exp,
                        opt_entry("attributeForDistinct"@, opt_str_w(self.attribute_for_distinct)),
                    );
                    exp = exp + opt_entry("attributeForDistinct"@, opt_str_w(self.attribute_for_distinct));
                    assert(obj_model(entries@) == obj_model(old(entries)@) + exp);
                }
            },
            Option::None => {
                proof {
                    lemma_seq_add_empty(exp);
                    exp = exp + opt_entry("attributeForDistinct"@, opt_str_w(self.attribute_for_distinct));
                    assert(obj_model(entries@) == obj_model(old(entries)@) + exp);
                }
            },
        }
        match &self.distinct {
            Option::Some(x) => {
                let wv = x.to_wire();
                push_entry(entries, "distinct", wv);
                proof {
                    assert(opt_entry("distinct"@, opt_distinct_w(self.distinct)) == seq![(
                        "distinct"@,
                        last_entry_model(entries@),
                    )]);
                    lemma_seq_assoc(
                        obj_model(old(entries)@),
                        exp,
                        opt_entry("distinct"@, opt_distinct_w(self.distinct)),
                    );
                    exp = exp + opt_entry("distinct"@, opt_distinct_w(self.distinct));
                    assert(obj_model(entries@) == obj_model(old(entries)@) + exp);
                }
            },
            Option::None => {
                proof {
                    lemma_seq_add_empty(exp);
                    exp = exp + opt_entry("distinct"@, opt_distinct_w(self.distinct));
                    assert(obj_model(entries@) == obj_model(old(entries)@) + exp);
                }
            },
        }
        match &self.replace_synonyms_in_highlight {
            Option::Some(x) => {
                let wv = JsonValue::Bool(*x);
                push_entry(entries, "replaceSynonymsInHighlight", wv);
                proof {
                    assert(opt_entry("replaceSynonymsInHighlight"@, opt_bool_w(self.replace_synonyms_in_highlight)) == seq![(
                        "replaceSynonymsInHighlight"@,
                        last_entry_model(entries@),
                    )]);
                    lemma_seq_assoc(
                        obj_model(old(entries)@),
                        exp,
                        opt_entry("replaceSynonymsInHighlight"@, opt_bool_w(self.replace_synonyms_in_highlight)),
                    );
                    exp = exp + opt_entry("replaceSynonymsInHighlight"@, opt_bool_w(self.replace_synonyms_in_highlight));
                    assert(obj_model(entries@) == obj_model(old(entries)@) + exp);
                }
            },
            Option::None => {
                proof {
                    lemma_seq_add_empty(exp);
                    exp = exp + opt_entry("replaceSynonymsInHighlight"@, opt_bool_w(self.replace_synonyms_in_highlight));
                    assert(obj_model(entries@) == obj_model(old(entries)@) + exp);
                }
            },
        }
        match &self.min_proximity {
            Option::Some(x) => {
                let wv = x.to_wire();
                push_entry(entries, "minProximity", wv);
                proof {
                    assert(opt_entry("minProximity"@, opt_minprox_w(self.min_proximity)) == seq![(
                        "minProximity"@,
                        last_entry_model(entries@),
                    )]);
                    lemma_seq_assoc(
                        obj_model(old(entries)@),
                        exp,
                        opt_entry("minProximity"@, opt_minprox_w(self.min_proximity)),
                    );
                    exp = exp + opt_entry("minProximity"@, opt_minprox_w(self.min_proximity));
                    assert(obj_model(entries@) == obj_model(old(entries)@) + exp);
                }
            },
            Option::None => {
                proof {
                    lemma_seq_add_empty(exp);
                    exp = exp + opt_entry("minProximity"@, opt_minprox_w(self.min_proximity));
                    assert(obj_model(entries@) == obj_model(old(entries)@) + exp);
                }
            },
        }
        match &self.response_fields {
            Option::Some(x) => {
                let wv = JsonValue::Arr(str_vec_to_wire(x));
                push_entry(entries, "responseFields", wv);
                proof {
                    assert(opt_entry("responseFields"@, opt_str_list_w(self.response_fields)) == seq![(
                        "responseFields"@,
                        last_entry_model(entries@),
                    )]);
                    lemma_seq_assoc(
                        obj_model(old(entries)@),
                        exp,
                        opt_entry("responseFields"@, opt_str_list_w(self.response_fields)),
                    );
                    exp = exp + opt_entry("responseFields"@, opt_str_list_w(self.response_fields));
                    assert(obj_model(entries@) == obj_model(old(entries)@) + exp);
                }
            },
            Option::None => {
                proof {
                    lemma_seq_add_empty(exp);
                    exp = exp + opt_entry("responseFields"@, opt_str_list_w(self.response_fields));
                    assert(obj_model(entries@) == obj_model(old(entries)@) + exp);
                }
            },
        }
        match &self.max_facet_hits {
            Option::Some(x) => {
                let wv = JsonValue::Num(*x);
                push_entry(entries, "maxFacetHits", wv);
                proof {
                    assert(opt_entry("maxFacetHits"@, opt_u64_w(self.max_facet_hits)) == seq![(
                        "maxFacetHits"@,
                        last_entry_model(entries@),
                    )]);
                    lemma_seq_assoc(
                        obj_model(old(entries)@),
                        exp,
                        opt_entry("maxFacetHits"@, opt_u64_w(self.max_facet_hits)),
                    );
                    exp = exp + opt_entry("maxFacetHits"@, opt_u64_w(self.max_facet_hits));
                    assert(obj_model(entries@) == obj_model(old(entries)@) + exp);
                }
            },
            Option::None => {
                proof {
                    lemma_seq_add_empty(exp);
                    exp = exp + opt_entry("maxFacetHits"@, opt_u64_w(self.max_facet_hits));
                    assert(obj_model(entries@) == obj_model(old(entries)@) + exp);
                }
            },
        }
        proof {
            reveal(IndexSettings::advanced_entries);
            assert(self.advanced_entries() == exp);
        }
    }

    /// The set fields as a wire object, in declaration order.
    pub fn to_wire(&self) -> (r: JsonValue)
        ensures
            r@ == JsonModel::Obj(self.wire_entries()),
    {
        let mut entries: Vec<(String, JsonValue)> = Vec::new();
        proof {
            assert(obj_model(entries@) =~= Seq::<(Seq<char>, JsonModel)>::empty());
        }
        self.push_attribute_entries(&mut entries);
        self.push_display_entries(&mut entries);
        self.push_typo_entries(&mut entries);
        self.push_language_entries(&mut entries);
        self.push_strategy_entries(&mut entries);
        self.push_advanced_entries(&mut entries);
        proof {
            assert(obj_model(entries@) =~= self.wire_entries());
        }
        JsonValue::Obj(entries)
    }

    /// The JSON body for a settings update: the set fields as one
    /// JSON object.
    pub fn to_json_body(&self) -> (r: String)
        ensures
            r@ == render(JsonModel::Obj(self.wire_entries())),
    {
        self.to_wire().to_json_text()
    }
}

/// Settings with no field set serialize to the empty JSON object.
pub proof fn lemma_unset_settings_body(s: IndexSettings)
    requires
        s == IndexSettings::unset(),
    ensures
        s.wire_entries() == Seq::<(Seq<char>, JsonModel)>::empty(),
        render(JsonModel::Obj(s.wire_entries())) == seq!['{', '}'],
{
    reveal(IndexSettings::attribute_entries);
    reveal(IndexSettings::display_entries);
    reveal(IndexSettings::typo_entries);
    reveal(IndexSettings::language_entries);
    reveal(IndexSettings::strategy_entries);
    reveal(IndexSettings::advanced_entries);
    assert(s.attribute_entries() =~= Seq::<(Seq<char>, JsonModel)>::empty());
    assert(s.display_entries() =~= Seq::<(Seq<char>, JsonModel)>::empty());
    assert(s.typo_entries() =~= Seq::<(Seq<char>, JsonModel)>::empty());
    assert(s.language_entries() =~= Seq::<(Seq<char>, JsonModel)>::empty());
    assert(s.strategy_entries() =~= Seq::<(Seq<char>, JsonModel)>::empty());
    assert(s.advanced_entries() =~= Seq::<(Seq<char>, JsonModel)>::empty());
    assert(s.wire_entries() =~= Seq::<(Seq<char>, JsonModel)>::empty());
    assert(crate::json::render_fields(Seq::<(Seq<char>, JsonModel)>::empty()) =~= Seq::<
        char,
    >::empty());
    assert(render(JsonModel::Obj(s.wire_entries())) =~= seq!['{', '}']);
}


/// Decodes an optional field that must be a string.
pub open spec fn dec_opt_str(o: Option<JsonModel>) -> Result<Option<Seq<char>>, Seq<char>> {
    match o {
        Option::None => Result::Ok(Option::None),
        Option::Some(m) => match m {
            JsonModel::Str(s) => Result::Ok(Option::Some(s)),
            other => Result::Err(invalid_type_msg(other, "a string"@)),
        },
    }
}

/// Decodes an optional field that must be an unsigned integer.
pub open spec fn dec_opt_u64(o: Option<JsonModel>) -> Result<Option<u64>, Seq<char>> {
    match o {
        Option::None => Result::Ok(Option::None),
        Option::Some(m) => match m {
            JsonModel::Num(n) => Result::Ok(Option::Some(n)),
            other => Result::Err(invalid_type_msg(other, "u64"@)),
        },
    }
}

/// Decodes an optional field that must be a boolean.
pub open spec fn dec_opt_bool(o: Option<JsonModel>) -> Result<Option<bool>, Seq<char>> {
    match o {
        Option::None => Result::Ok(Option::None),
        Option::Some(m) => match m {
            JsonModel::Bool(b) => Result::Ok(Option::Some(b)),
            other => Result::Err(invalid_type_msg(other, "a boolean"@)),
        },
    }
}

/// Decodes an optional field that must be a list of strings.
pub open spec fn dec_opt_strlist(o: Option<JsonModel>) -> Result<
    Option<Seq<Seq<char>>>,
    Seq<char>,
> {
    match o {
        Option::None => Result::Ok(Option::None),
        Option::Some(m) => match m {
            JsonModel::Arr(items) => match decode_str_seq(items) {
                Result::Ok(ss) => Result::Ok(Option::Some(ss)),
                Result::Err(e) => Result::Err(e),
            },
            other => Result::Err(invalid_type_msg(other, "a sequence"@)),
        },
    }
}

/// Decodes a sequence of wire values that must all be accepted
/// alternative-exactness literals.
pub open spec fn decode_alt_seq(items: Seq<JsonModel>) -> Result<
    Seq<AlternativesAsExact>,
    Seq<char>,
>
    decreases items,
{
    if items.len() == 0 {
        Result::Ok(Seq::empty())
    } else {
        match AlternativesAsExact::decode_model(items[0]) {
            Result::Ok(a) => match decode_alt_seq(items.drop_first()) {
                Result::Ok(r) => Result::Ok(seq![a] + r),
                Result::Err(e) => Result::Err(e),
            },
            Result::Err(e) => Result::Err(e),
        }
    }
}

/// Decodes an optional field that must be a list of
/// alternative-exactness literals.
pub open spec fn dec_opt_altlist(o: Option<JsonModel>) -> Result<
    Option<Seq<AlternativesAsExact>>,
    Seq<char>,
> {
    match o {
        Option::None => Result::Ok(Option::None),
        Option::Some(m) => match m {
            JsonModel::Arr(items) => match decode_alt_seq(items) {
                Result::Ok(ss) => Result::Ok(Option::Some(ss)),
                Result::Err(e) => Result::Err(e),
            },
            other => Result::Err(invalid_type_msg(other, "a sequence"@)),
        },
    }
}

/// Decodes object entries whose values must all be string lists.
pub open spec fn decode_strmap_entries(fields: Seq<(Seq<char>, JsonModel)>) -> Result<
    Seq<(Seq<char>, Seq<Seq<char>>)>,
    Seq<char>,
>
    decreases fields,
{
    if fields.len() == 0 {
        Result::Ok(Seq::empty())
    } else {
        match fields[0].1 {
            JsonModel::Arr(items) => match decode_str_seq(items) {
                Result::Ok(ss) => match decode_strmap_entries(fields.drop_first()) {
                    Result::Ok(r) => Result::Ok(seq![(fields[0].0, ss)] + r),
                    Result::Err(e) => Result::Err(e),
                },
                Result::Err(e) => Result::Err(e),
            },
            other => Result::Err(invalid_type_msg(other, "a sequence"@)),
        }
    }
}

/// Decodes an optional field that must be a map from attribute names
/// to string lists.
pub open spec fn dec_opt_strmap(o: Option<JsonModel>) -> Result<
    Option<Seq<(Seq<char>, Seq<Seq<char>>)>>,
    Seq<char>,
> {
    match o {
        Option::None => Result::Ok(Option::None),
        Option::Some(m) => match m {
            JsonModel::Obj(fields) => match decode_strmap_entries(fields) {
                Result::Ok(es) => Result::Ok(Option::Some(es)),
                Result::Err(e) => Result::Err(e),
            },
            other => Result::Err(invalid_type_msg(other, "a map"@)),
        },
    }
}

/// Decodes an optional field through the TypoTolerance codec.
pub open spec fn dec_opt_typo(o: Option<JsonModel>) -> Result<Option<TypoTolerance>, Seq<char>> {
    match o {
        Option::None => Result::Ok(Option::None),
        Option::Some(m) => match TypoTolerance::decode_model(m) {
            Result::Ok(x) => Result::Ok(Option::Some(x)),
            Result::Err(e) => Result::Err(e),
        },
    }
}

/// Decodes an optional field through the SortFacetValuesBy codec.
pub open spec fn dec_opt_sortfacet(o: Option<JsonModel>) -> Result<Option<SortFacetValuesBy>, Seq<char>> {
    match o {
        Option::None => Result::Ok(Option::None),
        Option::Some(m) => match SortFacetValuesBy::decode_model(m) {
            Result::Ok(x) => Result::Ok(Option::Some(x)),
            Result::Err(e) => Result::Err(e),
        },
    }
}

/// Decodes an optional field through the RemoveWordsIfNoResults codec.
pub open spec fn dec_opt_remove(o: Option<JsonModel>) -> Result<Option<RemoveWordsIfNoResults>, Seq<char>> {
    match o {
        Option::None => Result::Ok(Option::None),
        Option::Some(m) => match RemoveWordsIfNoResults::decode_model(m) {
            Result::Ok(x) => Result::Ok(Option::Some(x)),
            Result::Err(e) => Result::Err(e),
        },
    }
}

/// Decodes an optional field through the ExactOnSingleWordQuery codec.
pub open spec fn dec_opt_exact(o: Option<JsonModel>) -> Result<Option<ExactOnSingleWordQuery>, Seq<char>> {
    match o {
        Option::None => Result::Ok(Option::None),
        Option::Some(m) => match ExactOnSingleWordQuery::decode_model(m) {
            Result::Ok(x) => Result::Ok(Option::Some(x)),
            Result::Err(e) => Result::Err(e),
        },
    }
}

/// Decodes an optional field through the Distinct codec.
pub open spec fn dec_opt_distinct(o: Option<JsonModel>) -> Result<Option<Distinct>, Seq<char>> {
    match o {
        Option::None => Result::Ok(Option::None),
        Option::Some(m) => match Distinct::decode_model(m) {
            Result::Ok(x) => Result::Ok(Option::Some(x)),
            Result::Err(e) => Result::Err(e),
        },
    }
}

/// Decodes an optional field through the MinProximity codec.
pub open spec fn dec_opt_minprox(o: Option<JsonModel>) -> Result<Option<MinProximity>, Seq<char>> {
    match o {
        Option::None => Result::Ok(Option::None),
        Option::Some(m) => match MinProximity::decode_model(m) {
            Result::Ok(x) => Result::Ok(Option::Some(x)),
            Result::Err(e) => Result::Err(e),
        },
    }
}

/// Decodes an optional field through the boolean-or-language-list codec.
pub open spec fn dec_opt_plurals(o: Option<JsonModel>) -> Result<
    Option<IgnorePluralsModel>,
    Seq<char>,
> {
    match o {
        Option::None => Result::Ok(Option::None),
        Option::Some(m) => match IgnorePlurals::decode_model(m) {
            Result::Ok(x) => Result::Ok(Option::Some(x)),
            Result::Err(e) => Result::Err(e),
        },
    }
}

/// The view of an optional alternative-exactness list.
pub open spec fn ovw_altlist(v: Option<Vec<AlternativesAsExact>>) -> Option<
    Seq<AlternativesAsExact>,
> {
    match v {
        Option::None => Option::None,
        Option::Some(vs) => Option::Some(vs@),
    }
}

/// The view of an optional string.
pub open spec fn ovw_str(v: Option<String>) -> Option<Seq<char>> {
    match v {
        Option::None => Option::None,
        Option::Some(s) => Option::Some(s@),
    }
}

/// The view of an optional string list.
pub open spec fn ovw_strlist(v: Option<Vec<String>>) -> Option<Seq<Seq<char>>> {
    match v {
        Option::None => Option::None,
        Option::Some(vs) => Option::Some(vs.deep_view()),
    }
}

/// The view of an optional language union.
pub open spec fn ovw_plurals(v: Option<IgnorePlurals>) -> Option<IgnorePluralsModel> {
    match v {
        Option::None => Option::None,
        Option::Some(x) => Option::Some(x@),
    }
}

/// The view of an optional map from attribute names to string lists.
pub open spec fn ovw_strmap(v: Option<Vec<(String, Vec<String>)>>) -> Option<
    Seq<(Seq<char>, Seq<Seq<char>>)>,
> {
    match v {
        Option::None => Option::None,
        Option::Some(entries) => Option::Some(
            entries@.map_values(|kv: (String, Vec<String>)| (kv.0@, kv.1.deep_view())),
        ),
    }
}


/// Reads an optional string field of a wire object.
pub fn get_opt_str(fields: &Vec<(String, JsonValue)>, name: &str) -> (r: Result<
    Option<String>,
    DecodeError,
>)
    ensures
        match r {
            Result::Ok(v) => dec_opt_str(lookup(obj_model(fields@), name@)) == Result::Ok::<
                Option<Seq<char>>,
                Seq<char>,
            >(ovw_str(v)),
            Result::Err(e) => dec_opt_str(lookup(obj_model(fields@), name@)) matches Result::Err(
                m,
            ) && e@ == m,
        },
{
    match obj_get(fields, name) {
        Option::None => Result::Ok(Option::None),
        Option::Some(v) => match v {
            JsonValue::Str(s) => Result::Ok(Option::Some(s.clone())),
            other => Result::Err(invalid_type_error(other, "a string")),
        },
    }
}

/// Reads an optional unsigned-integer field of a wire object.
pub fn get_opt_u64(fields: &Vec<(String, JsonValue)>, name: &str) -> (r: Result<
    Option<u64>,
    DecodeError,
>)
    ensures
        match r {
            Result::Ok(v) => dec_opt_u64(lookup(obj_model(fields@), name@)) == Result::Ok::<
                Option<u64>,
                Seq<char>,
            >(v),
            Result::Err(e) => dec_opt_u64(lookup(obj_model(fields@), name@)) matches Result::Err(
                m,
            ) && e@ == m,
        },
{
    match obj_get(fields, name) {
        Option::None => Result::Ok(Option::None),
        Option::Some(v) => match v {
            JsonValue::Num(n) => Result::Ok(Option::Some(*n)),
            other => Result::Err(invalid_type_error(other, "u64")),
        },
    }
}

/// Reads an optional boolean field of a wire object.
pub fn get_opt_bool(fields: &Vec<(String, JsonValue)>, name: &str) -> (r: Result<
    Option<bool>,
    DecodeError,
>)
    ensures
        match r {
            Result::Ok(v) => dec_opt_bool(lookup(obj_model(fields@), name@)) == Result::Ok::<
                Option<bool>,
                Seq<char>,
            >(v),
            Result::Err(e) => dec_opt_bool(lookup(obj_model(fields@), name@)) matches Result::Err(
                m,
            ) && e@ == m,
        },
{
    match obj_get(fields, name) {
        Option::None => Result::Ok(Option::None),
        Option::Some(v) => match v {
            JsonValue::Bool(b) => Result::Ok(Option::Some(*b)),
            other => Result::Err(invalid_type_error(other, "a boolean")),
        },
    }
}

/// Reads an optional string-list field of a wire object.
pub fn get_opt_strlist(fields: &Vec<(String, JsonValue)>, name: &str) -> (r: Result<
    Option<Vec<String>>,
    DecodeError,
>)
    ensures
        match r {
            Result::Ok(v) => dec_opt_strlist(lookup(obj_model(fields@), name@)) == Result::Ok::<
                Option<Seq<Seq<char>>>,
                Seq<char>,
            >(ovw_strlist(v)),
            Result::Err(e) => dec_opt_strlist(lookup(obj_model(fields@), name@))
                matches Result::Err(m) && e@ == m,
        },
{
    match obj_get(fields, name) {
        Option::None => Result::Ok(Option::None),
        Option::Some(v) => match v {
            JsonValue::Arr(items) => match str_vec_from_wire(items) {
                Result::Ok(vs) => Result::Ok(Option::Some(vs)),
                Result::Err(e) => Result::Err(e),
            },
            other => Result::Err(invalid_type_error(other, "a sequence")),
        },
    }
}

/// Decodes a wire list whose elements must all be accepted
/// alternative-exactness literals.
pub fn alt_vec_from_wire(items: &Vec<JsonValue>) -> (r: Result<
    Vec<AlternativesAsExact>,
    DecodeError,
>)
    ensures
        match r {
            Result::Ok(vs) => decode_alt_seq(arr_model(items@)) == Result::Ok::<
                Seq<AlternativesAsExact>,
                Seq<char>,
            >(vs@),
            Result::Err(e) => decode_alt_seq(arr_model(items@)) matches Result::Err(m) && e@ == m,
        },
{
    let mut vs: Vec<AlternativesAsExact> = Vec::new();
    let n = items.len();
    proof {
        assert(arr_model(items@).skip(0) =~= arr_model(items@));
        let r0 = decode_alt_seq(arr_model(items@));
        match r0 {
            Result::Ok(all) => {
                assert(vs@ + all =~= all);
            },
            Result::Err(_) => {},
        }
    }
    for i in 0..n
        invariant
            n == items@.len(),
            vs@.len() == i,
            decode_alt_seq(arr_model(items@)) == (match decode_alt_seq(
                arr_model(items@).skip(i as int),
            ) {
                Result::Ok(rest) => Result::Ok::<Seq<AlternativesAsExact>, Seq<char>>(vs@ + rest),
                Result::Err(e) => Result::Err(e),
            }),
    {
        proof {
            let m = arr_model(items@);
            assert(m.skip(i as int).len() == n - i);
            assert(m.skip(i as int)[0] == m[i as int]);
            assert(m.skip(i as int).drop_first() =~= m.skip(i as int + 1));
        }
        match AlternativesAsExact::from_wire(&items[i]) {
            Result::Ok(a) => {
                let ghost old_vs = vs@;
                vs.push(a);
                proof {
                    let rest1 = decode_alt_seq(arr_model(items@).skip(i as int + 1));
                    match rest1 {
                        Result::Ok(rest) => {
                            assert(vs@ =~= old_vs.push(a));
                            assert(old_vs + (seq![a] + rest) =~= vs@ + rest);
                        },
                        Result::Err(_) => {},
                    }
                }
            },
            Result::Err(e) => {
                return Result::Err(e);
            },
        }
    }
    proof {
        assert(arr_model(items@).skip(n as int) =~= Seq::<JsonModel>::empty());
        assert(decode_alt_seq(Seq::<JsonModel>::empty()) == Result::Ok::<
            Seq<AlternativesAsExact>,
            Seq<char>,
        >(Seq::empty()));
        assert(vs@ + Seq::<AlternativesAsExact>::empty() =~= vs@);
    }
    Result::Ok(vs)
}

/// Reads an optional alternative-exactness list field.
pub fn get_opt_altlist(fields: &Vec<(String, JsonValue)>, name: &str) -> (r: Result<
    Option<Vec<AlternativesAsExact>>,
    DecodeError,
>)
    ensures
        match r {
            Result::Ok(v) => dec_opt_altlist(lookup(obj_model(fields@), name@)) == Result::Ok::<
                Option<Seq<AlternativesAsExact>>,
                Seq<char>,
            >(ovw_altlist(v)),
            Result::Err(e) => dec_opt_altlist(lookup(obj_model(fields@), name@))
                matches Result::Err(m) && e@ == m,
        },
{
    match obj_get(fields, name) {
        Option::None => Result::Ok(Option::None),
        Option::Some(v) => match v {
            JsonValue::Arr(items) => match alt_vec_from_wire(items) {
                Result::Ok(vs) => Result::Ok(Option::Some(vs)),
                Result::Err(e) => Result::Err(e),
            },
            other => Result::Err(invalid_type_error(other, "a sequence")),
        },
    }
}

/// Decodes a wire object whose values must all be string lists.
pub fn strmap_from_wire(inner: &Vec<(String, JsonValue)>) -> (r: Result<
    Vec<(String, Vec<String>)>,
    DecodeError,
>)
    ensures
        match r {
            Result::Ok(es) => decode_strmap_entries(obj_model(inner@)) == Result::Ok::<
                Seq<(Seq<char>, Seq<Seq<char>>)>,
                Seq<char>,
            >(es@.map_values(|kv: (String, Vec<String>)| (kv.0@, kv.1.deep_view()))),
            Result::Err(e) => decode_strmap_entries(obj_model(inner@)) matches Result::Err(m) && e@
                == m,
        },
{
    broadcast use crate::json::lemma_obj_model_len, crate::json::lemma_obj_model_index;

    let mut es: Vec<(String, Vec<String>)> = Vec::new();
    let n = inner.len();
    proof {
        assert(obj_model(inner@).skip(0) =~= obj_model(inner@));
        let r0 = decode_strmap_entries(obj_model(inner@));
        match r0 {
            Result::Ok(all) => {
                assert(es@.map_values(|kv: (String, Vec<String>)| (kv.0@, kv.1.deep_view()))
                    + all =~= all);
            },
            Result::Err(_) => {},
        }
    }
    for i in 0..n
        invariant
            n == inner@.len(),
            es@.len() == i,
            decode_strmap_entries(obj_model(inner@)) == (match decode_strmap_entries(
                obj_model(inner@).skip(i as int),
            ) {
                Result::Ok(rest) => Result::Ok::<Seq<(Seq<char>, Seq<Seq<char>>)>, Seq<char>>(
                    es@.map_values(|kv: (String, Vec<String>)| (kv.0@, kv.1.deep_view())) + rest,
                ),
                Result::Err(e) => Result::Err(e),
            }),
    {
        proof {
            let m = obj_model(inner@);
            assert(m.skip(i as int).len() == n - i);
            assert(m.skip(i as int)[0] == m[i as int]);
            assert(m.skip(i as int).drop_first() =~= m.skip(i as int + 1));
        }
        let entry = &inner[i];
        match &entry.1 {
            JsonValue::Arr(items) => match str_vec_from_wire(items) {
                Result::Ok(vs) => {
                    let ghost old_es = es@.map_values(
                        |kv: (String, Vec<String>)| (kv.0@, kv.1.deep_view()),
                    );
                    let key = entry.0.clone();
                    let ghost kvg = (key, vs);
                    es.push((key, vs));
                    proof {
                        let rest1 = decode_strmap_entries(obj_model(inner@).skip(i as int + 1));
                        match rest1 {
                            Result::Ok(rest) => {
                                assert(es@.map_values(
                                    |kv: (String, Vec<String>)| (kv.0@, kv.1.deep_view()),
                                ) =~= old_es.push((kvg.0@, kvg.1.deep_view())));
                                assert(old_es + (seq![(inner@[i as int].0@, kvg.1.deep_view())]
                                    + rest) =~= es@.map_values(
                                    |kv: (String, Vec<String>)| (kv.0@, kv.1.deep_view()),
                                ) + rest);
                            },
                            Result::Err(_) => {},
                        }
                    }
                },
                Result::Err(e) => {
                    return Result::Err(e);
                },
            },
            other => {
                return Result::Err(invalid_type_error(other, "a sequence"));
            },
        }
    }
    proof {
        assert(obj_model(inner@).skip(n as int) =~= Seq::<(Seq<char>, JsonModel)>::empty());
        assert(decode_strmap_entries(Seq::<(Seq<char>, JsonModel)>::empty()) == Result::Ok::<
            Seq<(Seq<char>, Seq<Seq<char>>)>,
            Seq<char>,
        >(Seq::empty()));
        assert(es@.map_values(|kv: (String, Vec<String>)| (kv.0@, kv.1.deep_view())) + Seq::<
            (Seq<char>, Seq<Seq<char>>),
        >::empty() =~= es@.map_values(|kv: (String, Vec<String>)| (kv.0@, kv.1.deep_view())));
    }
    Result::Ok(es)
}

/// Reads an optional attribute-to-word-list map field.
pub fn get_opt_strmap(fields: &Vec<(String, JsonValue)>, name: &str) -> (r: Result<
    Option<Vec<(String, Vec<String>)>>,
    DecodeError,
>)
    ensures
        match r {
            Result::Ok(v) => dec_opt_strmap(lookup(obj_model(fields@), name@)) == Result::Ok::<
                Option<Seq<(Seq<char>, Seq<Seq<char>>)>>,
                Seq<char>,
            >(ovw_strmap(v)),
            Result::Err(e) => dec_opt_strmap(lookup(obj_model(fields@), name@))
                matches Result::Err(m) && e@ == m,
        },
{
    match obj_get(fields, name) {
        Option::None => Result::Ok(Option::None),
        Option::Some(v) => match v {
            JsonValue::Obj(inner) => match strmap_from_wire(inner) {
                Result::Ok(es) => Result::Ok(Option::Some(es)),
                Result::Err(e) => Result::Err(e),
            },
            other => Result::Err(invalid_type_error(other, "a map")),
        },
    }
}

/// Reads an optional field through the TypoTolerance codec.
pub fn get_opt_typo(fields: &Vec<(String, JsonValue)>, name: &str) -> (r: Result<
    Option<TypoTolerance>,
    DecodeError,
>)
    ensures
        match r {
            Result::Ok(v) => dec_opt_typo(lookup(obj_model(fields@), name@)) == Result::Ok::<
                Option<TypoTolerance>,
                Seq<char>,
            >(v),
            Result::Err(e) => dec_opt_typo(lookup(obj_model(fields@), name@)) matches Result::Err(m)
                && e@ == m,
        },
{
    match obj_get(fields, name) {
        Option::None => Result::Ok(Option::None),
        Option::Some(v) => match TypoTolerance::from_wire(v) {
            Result::Ok(x) => Result::Ok(Option::Some(x)),
            Result::Err(e) => Result::Err(e),
        },
    }
}

/// Reads an optional field through the SortFacetValuesBy codec.
pub fn get_opt_sortfacet(fields: &Vec<(String, JsonValue)>, name: &str) -> (r: Result<
    Option<SortFacetValuesBy>,
    DecodeError,
>)
    ensures
        match r {
            Result::Ok(v) => dec_opt_sortfacet(lookup(obj_model(fields@), name@)) == Result::Ok::<
                Option<SortFacetValuesBy>,
                Seq<char>,
            >(v),
            Result::Err(e) => dec_opt_sortfacet(lookup(obj_model(fields@), name@)) matches Result::Err(m)
                && e@ == m,
        },
{
    match obj_get(fields, name) {
        Option::None => Result::Ok(Option::None),
        Option::Some(v) => match SortFacetValuesBy::from_wire(v) {
            Result::Ok(x) => Result::Ok(Option::Some(x)),
            Result::Err(e) => Result::Err(e),
        },
    }
}

/// Reads an optional field through the RemoveWordsIfNoResults codec.
pub fn get_opt_remove(fields: &Vec<(String, JsonValue)>, name: &str) -> (r: Result<
    Option<RemoveWordsIfNoResults>,
    DecodeError,
>)
    ensures
        match r {
            Result::Ok(v) => dec_opt_remove(lookup(obj_model(fields@), name@)) == Result::Ok::<
                Option<RemoveWordsIfNoResults>,
                Seq<char>,
            >(v),
            Result::Err(e) => dec_opt_remove(lookup(obj_model(fields@), name@)) matches Result::Err(m)
                && e@ == m,
        },
{
    match obj_get(fields, name) {
        Option::None => Result::Ok(Option::None),
        Option::Some(v) => match RemoveWordsIfNoResults::from_wire(v) {
            Result::Ok(x) => Result::Ok(Option::Some(x)),
            Result::Err(e) => Result::Err(e),
        },
    }
}

/// Reads an optional field through the ExactOnSingleWordQuery codec.
pub fn get_opt_exact(fields: &Vec<(String, JsonValue)>, name: &str) -> (r: Result<
    Option<ExactOnSingleWordQuery>,
    DecodeError,
>)
    ensures
        match r {
            Result::Ok(v) => dec_opt_exact(lookup(obj_model(fields@), name@)) == Result::Ok::<
                Option<ExactOnSingleWordQuery>,
                Seq<char>,
            >(v),
            Result::Err(e) => dec_opt_exact(lookup(obj_model(fields@), name@)) matches Result::Err(m)
                && e@ == m,
        },
{
    match obj_get(fields, name) {
        Option::None => Result::Ok(Option::None),
        Option::Some(v) => match ExactOnSingleWordQuery::from_wire(v) {
            Result::Ok(x) => Result::Ok(Option::Some(x)),
            Result::Err(e) => Result::Err(e),
        },
    }
}

/// Reads an optional field through the Distinct codec.
pub fn get_opt_distinct(fields: &Vec<(String, JsonValue)>, name: &str) -> (r: Result<
    Option<Distinct>,
    DecodeError,
>)
    ensures
        match r {
            Result::Ok(v) => dec_opt_distinct(lookup(obj_model(fields@), name@)) == Result::Ok::<
                Option<Distinct>,
                Seq<char>,
            >(v),
            Result::Err(e) => dec_opt_distinct(lookup(obj_model(fields@), name@)) matches Result::Err(m)
                && e@ == m,
        },
{
    match obj_get(fields, name) {
        Option::None => Result::Ok(Option::None),
        Option::Some(v) => match Distinct::from_wire(v) {
            Result::Ok(x) => Result::Ok(Option::Some(x)),
            Result::Err(e) => Result::Err(e),
        },
    }
}

/// Reads an optional field through the MinProximity codec.
pub fn get_opt_minprox(fields: &Vec<(String, JsonValue)>, name: &str) -> (r: Result<
    Option<MinProximity>,
    DecodeError,
>)
    ensures
        match r {
            Result::Ok(v) => dec_opt_minprox(lookup(obj_model(fields@), name@)) == Result::Ok::<
                Option<MinProximity>,
                Seq<char>,
            >(v),
            Result::Err(e) => dec_opt_minprox(lookup(obj_model(fields@), name@)) matches Result::Err(m)
                && e@ == m,
        },
{
    match obj_get(fields, name) {
        Option::None => Result::Ok(Option::None),
        Option::Some(v) => match MinProximity::from_wire(v) {
            Result::Ok(x) => Result::Ok(Option::Some(x)),
            Result::Err(e) => Result::Err(e),
        },
    }
}

/// Reads an optional field through the boolean-or-language-list codec.
pub fn get_opt_plurals(fields: &Vec<(String, JsonValue)>, name: &str) -> (r: Result<
    Option<IgnorePlurals>,
    DecodeError,
>)
    ensures
        match r {
            Result::Ok(v) => dec_opt_plurals(lookup(obj_model(fields@), name@)) == Result::Ok::<
                Option<IgnorePluralsModel>,
                Seq<char>,
            >(ovw_plurals(v)),
            Result::Err(e) => dec_opt_plurals(lookup(obj_model(fields@), name@))
                matches Result::Err(m) && e@ == m,
        },
{
    match obj_get(fields, name) {
        Option::None => Result::Ok(Option::None),
        Option::Some(v) => match IgnorePlurals::from_wire(v) {
            Result::Ok(x) => Result::Ok(Option::Some(x)),
            Result::Err(e) => Result::Err(e),
        },
    }
}


/// Strict decoding of a settings object: the value must be an
/// object, and every known field that is present must decode through
/// its codec; unknown entries are ignored.
#[verifier::rlimit(100)]
pub fn decode_index_settings(v: &JsonValue) -> (r: Result<IndexSettings, DecodeError>)
    ensures
        (v@ !is Obj) ==> (r matches Result::Err(e) && e@ == invalid_type_msg(
            v@,
            "struct IndexSettings"@,
        )),
        v@ matches JsonModel::Obj(fields) ==> {
            &&& (r is Ok <==> (dec_opt_strlist(lookup(fields, "searchableAttributes"@)) is Ok && dec_opt_strlist(lookup(fields, "attributesForFacetting"@)) is Ok && dec_opt_strlist(lookup(fields, "unretrievableAttributes"@)) is Ok && dec_opt_strlist(lookup(fields, "attributesToRetrieve"@)) is Ok && dec_opt_strlist(lookup(fields, "ranking"@)) is Ok && dec_opt_strlist(lookup(fields, "customRanking"@)) is Ok && dec_opt_strlist(lookup(fields, "replicas"@)) is Ok && dec_opt_u64(lookup(fields, "maxValuesPerFacet"@)) is Ok && dec_opt_sortfacet(lookup(fields, "sortFacetValuesBy"@)) is Ok && dec_opt_strlist(lookup(fields, "attributesToHighlight"@)) is Ok && dec_opt_strlist(lookup(fields, "attributesToSnippet"@)) is Ok && dec_opt_str(lookup(fields, "highlightPreTag"@)) is Ok && dec_opt_str(lookup(fields, "highlightPostTag"@)) is Ok && dec_opt_str(lookup(fields, "snippetEllipsisText"@)) is Ok && dec_opt_bool(lookup(fields, "restrictHighlightAndSnippetArrays"@)) is Ok && dec_opt_u64(lookup(fields, "hitsPerPage"@)) is Ok && dec_opt_u64(lookup(fields, "paginationLimitedTo"@)) is Ok && dec_opt_u64(lookup(fields, "minWordSizefor1Typo"@)) is Ok && dec_opt_u64(lookup(fields, "minWordSizefor2Typo"@)) is Ok && dec_opt_typo(lookup(fields, "typoTolerance"@)) is Ok && dec_opt_bool(lookup(fields, "allowTyposOnNumericTokens"@)) is Ok && dec_opt_strlist(lookup(fields, "disableTypoToleranceOnAttributes"@)) is Ok && dec_opt_strlist(lookup(fields, "disableTypoToleranceOnWords"@)) is Ok && dec_opt_str(lookup(fields, "separatorsToIndex"@)) is Ok && dec_opt_plurals(lookup(fields, "ignorePlurals"@)) is Ok && dec_opt_plurals(lookup(fields, "removeStopWords"@)) is Ok && dec_opt_strlist(lookup(fields, "camelCaseAttributes"@)) is Ok && dec_opt_strmap(lookup(fields, "decompoundedAttributes"@)) is Ok && dec_opt_str(lookup(fields, "keepDiacriticsOnCharacters"@)) is Ok && dec_opt_strlist(lookup(fields, "queryLanguages"@)) is Ok && dec_opt_str(lookup(fields, "queryType"@)) is Ok && dec_opt_remove(lookup(fields, "removeWordsIfNoResults"@)) is Ok && dec_opt_bool(lookup(fields, "advancedSyntax"@)) is Ok && dec_opt_strlist(lookup(fields, "optionalWords"@)) is Ok && dec_opt_strlist(lookup(fields, "disablePrefixOnAttributes"@)) is Ok && dec_opt_strlist(lookup(fields, "disableExactOnAttributes"@)) is Ok && dec_opt_exact(lookup(fields, "exactOnSingleWordQuery"@)) is Ok && dec_opt_altlist(lookup(fields, "alternativesAsExact"@)) is Ok && dec_opt_bool(lookup(fields, "enableRules"@)) is Ok && dec_opt_strlist(lookup(fields, "numericAttributesForFiltering"@)) is Ok && dec_opt_bool(lookup(fields, "allowCompressionOfIntegerArray"@)) is Ok && dec_opt_str(lookup(fields, "attributeForDistinct"@)) is Ok && dec_opt_distinct(lookup(fields, "distinct"@)) is Ok && dec_opt_bool(lookup(fields, "replaceSynonymsInHighlight"@)) is Ok && dec_opt_minprox(lookup(fields, "minProximity"@)) is Ok && dec_opt_strlist(lookup(fields, "responseFields"@)) is Ok && dec_opt_u64(lookup(fields, "maxFacetHits"@)) is Ok))
            &&& (r matches Result::Ok(s) ==> {
                &&& dec_opt_strlist(lookup(fields, "searchableAttributes"@)) == Result::Ok::<Option<Seq<Seq<char>>>, Seq<char>>(ovw_strlist(s.searchable_attributes))
             &&& dec_opt_strlist(lookup(fields, "attributesForFacetting"@)) == Result::Ok::<Option<Seq<Seq<char>>>, Seq<char>>(ovw_strlist(s.attributes_for_facetting))
             &&& dec_opt_strlist(lookup(fields, "unretrievableAttributes"@)) == Result::Ok::<Option<Seq<Seq<char>>>, Seq<char>>(ovw_strlist(s.unretrievable_attributes))
             &&& dec_opt_strlist(lookup(fields, "attributesToRetrieve"@)) == Result::Ok::<Option<Seq<Seq<char>>>, Seq<char>>(ovw_strlist(s.attributes_to_retrieve))
             &&& dec_opt_strlist(lookup(fields, "ranking"@)) == Result::Ok::<Option<Seq<Seq<char>>>, Seq<char>>(ovw_strlist(s.ranking))
             &&& dec_opt_strlist(lookup(fields, "customRanking"@)) == Result::Ok::<Option<Seq<Seq<char>>>, Seq<char>>(ovw_strlist(s.custom_ranking))
             &&& dec_opt_strlist(lookup(fields, "replicas"@)) == Result::Ok::<Option<Seq<Seq<char>>>, Seq<char>>(ovw_strlist(s.replicas))
             &&& dec_opt_u64(lookup(fields, "maxValuesPerFacet"@)) == Result::Ok::<Option<u64>, Seq<char>>(s.max_values_per_facet)
             &&& dec_opt_sortfacet(lookup(fields, "sortFacetValuesBy"@)) == Result::Ok::<Option<SortFacetValuesBy>, Seq<char>>(s.sort_facet_values_by)
             &&& dec_opt_strlist(lookup(fields, "attributesToHighlight"@)) == Result::Ok::<Option<Seq<Seq<char>>>, Seq<char>>(ovw_strlist(s.attributes_to_highlight))
             &&& dec_opt_strlist(lookup(fields, "attributesToSnippet"@)) == Result::Ok::<Option<Seq<Seq<char>>>, Seq<char>>(ovw_strlist(s.attributes_to_snippet))
             &&& dec_opt_str(lookup(fields, "highlightPreTag"@)) == Result::Ok::<Option<Seq<char>>, Seq<char>>(ovw_str(s.highlight_pre_tag))
             &&& dec_opt_str(lookup(fields, "highlightPostTag"@)) == Result::Ok::<Option<Seq<char>>, Seq<char>>(ovw_str(s.highlight_post_tag))
             &&& dec_opt_str(lookup(fields, "snippetEllipsisText"@)) == Result::Ok::<Option<Seq<char>>, Seq<char>>(ovw_str(s.snippet_ellipsis_text))
             &&& dec_opt_bool(lookup(fields, "restrictHighlightAndSnippetArrays"@)) == Result::Ok::<Option<bool>, Seq<char>>(s.restrict_highlight_and_snippet_arrays)
             &&& dec_opt_u64(lookup(fields, "hitsPerPage"@)) == Result::Ok::<Option<u64>, Seq<char>>(s.hits_per_page)
             &&& dec_opt_u64(lookup(fields, "paginationLimitedTo"@)) == Result::Ok::<Option<u64>, Seq<char>>(s.pagination_limited_to)
             &&& dec_opt_u64(lookup(fields, "minWordSizefor1Typo"@)) == Result::Ok::<Option<u64>, Seq<char>>(s.min_word_sizefor_1_typo)
             &&& dec_opt_u64(lookup(fields, "minWordSizefor2Typo"@)) == Result::Ok::<Option<u64>, Seq<char>>(s.min_word_sizefor_2_typos)
             &&& dec_opt_typo(lookup(fields, "typoTolerance"@)) == Result::Ok::<Option<TypoTolerance>, Seq<char>>(s.typo_tolerance)
             &&& dec_opt_bool(lookup(fields, "allowTyposOnNumericTokens"@)) == Result::Ok::<Option<bool>, Seq<char>>(s.allow_typos_on_numeric_tokens)
             &&& dec_opt_strlist(lookup(fields, "disableTypoToleranceOnAttributes"@)) == Result::Ok::<Option<Seq<Seq<char>>>, Seq<char>>(ovw_strlist(s.disable_typo_tolerance_on_attributes))
             &&& dec_opt_strlist(lookup(fields, "disableTypoToleranceOnWords"@)) == Result::Ok::<Option<Seq<Seq<char>>>, Seq<char>>(ovw_strlist(s.disable_typo_tolerance_on_words))
             &&& dec_opt_str(lookup(fields, "separatorsToIndex"@)) == Result::Ok::<Option<Seq<char>>, Seq<char>>(ovw_str(s.separators_to_index))
             &&& dec_opt_plurals(lookup(fields, "ignorePlurals"@)) == Result::Ok::<Option<IgnorePluralsModel>, Seq<char>>(ovw_plurals(s.ignore_plurals))
             &&& dec_opt_plurals(lookup(fields, "removeStopWords"@)) == Result::Ok::<Option<IgnorePluralsModel>, Seq<char>>(ovw_plurals(s.remove_stop_words))
             &&& dec_opt_strlist(lookup(fields, "camelCaseAttributes"@)) == Result::Ok::<Option<Seq<Seq<char>>>, Seq<char>>(ovw_strlist(s.camel_case_attributes))
             &&& dec_opt_strmap(lookup(fields, "decompoundedAttributes"@)) == Result::Ok::<Option<Seq<(Seq<char>, Seq<Seq<char>>)>>, Seq<char>>(ovw_strmap(s.decompounded_attributes))
             &&& dec_opt_str(lookup(fields, "keepDiacriticsOnCharacters"@)) == Result::Ok::<Option<Seq<char>>, Seq<char>>(ovw_str(s.keep_diacritics_on_characters))
             &&& dec_opt_strlist(lookup(fields, "queryLanguages"@)) == Result::Ok::<Option<Seq<Seq<char>>>, Seq<char>>(ovw_strlist(s.query_languages))
             &&& dec_opt_str(lookup(fields, "queryType"@)) == Result::Ok::<Option<Seq<char>>, Seq<char>>(ovw_str(s.query_type))
             &&& dec_opt_remove(lookup(fields, "removeWordsIfNoResults"@)) == Result::Ok::<Option<RemoveWordsIfNoResults>, Seq<char>>(s.remove_words_if_no_results)
             &&& dec_opt_bool(lookup(fields, "advancedSyntax"@)) == Result::Ok::<Option<bool>, Seq<char>>(s.advanced_syntax)
             &&& dec_opt_strlist(lookup(fields, "optionalWords"@)) == Result::Ok::<Option<Seq<Seq<char>>>, Seq<char>>(ovw_strlist(s.optional_words))
             &&& dec_opt_strlist(lookup(fields, "disablePrefixOnAttributes"@)) == Result::Ok::<Option<Seq<Seq<char>>>, Seq<char>>(ovw_strlist(s.disable_prefix_on_attributes))
             &&& dec_opt_strlist(lookup(fields, "disableExactOnAttributes"@)) == Result::Ok::<Option<Seq<Seq<char>>>, Seq<char>>(ovw_strlist(s.disable_exact_on_attributes))
             &&& dec_opt_exact(lookup(fields, "exactOnSingleWordQuery"@)) == Result::Ok::<Option<ExactOnSingleWordQuery>, Seq<char>>(s.exact_on_single_word_query)
             &&& dec_opt_altlist(lookup(fields, "alternativesAsExact"@)) == Result::Ok::<Option<Seq<AlternativesAsExact>>, Seq<char>>(ovw_altlist(s.alternatives_as_exact))
             &&& dec_opt_bool(lookup(fields, "enableRules"@)) == Result::Ok::<Option<bool>, Seq<char>>(s.enable_rules)
             &&& dec_opt_strlist(lookup(fields, "numericAttributesForFiltering"@)) == Result::Ok::<Option<Seq<Seq<char>>>, Seq<char>>(ovw_strlist(s.numeric_attributes_for_filtering))
             &&& dec_opt_bool(lookup(fields, "allowCompressionOfIntegerArray"@)) == Result::Ok::<Option<bool>, Seq<char>>(s.allow_compression_of_integer_array)
             &&& dec_opt_str(lookup(fields, "attributeForDistinct"@)) == Result::Ok::<Option<Seq<char>>, Seq<char>>(ovw_str(s.attribute_for_distinct))
             &&& dec_opt_distinct(lookup(fields, "distinct"@)) == Result::Ok::<Option<Distinct>, Seq<char>>(s.distinct)
             &&& dec_opt_bool(lookup(fields, "replaceSynonymsInHighlight"@)) == Result::Ok::<Option<bool>, Seq<char>>(s.replace_synonyms_in_highlight)
             &&& dec_opt_minprox(lookup(fields, "minProximity"@)) == Result::Ok::<Option<MinProximity>, Seq<char>>(s.min_proximity)
             &&& dec_opt_strlist(lookup(fields, "responseFields"@)) == Result::Ok::<Option<Seq<Seq<char>>>, Seq<char>>(ovw_strlist(s.response_fields))
             &&& dec_opt_u64(lookup(fields, "maxFacetHits"@)) == Result::Ok::<Option<u64>, Seq<char>>(s.max_facet_hits)
            
            })
        },
{
    let fields = match v {
        JsonValue::Obj(fields) => fields,
        other => {
            return Result::Err(invalid_type_error(other, "struct IndexSettings"));
        },
    };
        let f_searchable_attributes = match get_opt_strlist(fields, "searchableAttributes") {
            Result::Ok(v) => v,
            Result::Err(e) => {
                return Result::Err(e);
            },
        };
        let f_attributes_for_facetting = match get_opt_strlist(fields, "attributesForFacetting") {
            Result::Ok(v) => v,
            Result::Err(e) => {
                return Result::Err(e);
            },
        };
        let f_unretrievable_attributes = match get_opt_strlist(fields, "unretrievableAttributes") {
            Result::Ok(v) => v,
            Result::Err(e) => {
                return Result::Err(e);
            },
        };
        let f_attributes_to_retrieve = match get_opt_strlist(fields, "attributesToRetrieve") {
            Result::Ok(v) => v,
            Result::Err(e) => {
                return Result::Err(e);
            },
        };
        let f_ranking = match get_opt_strlist(fields, "ranking") {
            Result::Ok(v) => v,
            Result::Err(e) => {
                return Result::Err(e);
            },
        };
        let f_custom_ranking = match get_opt_strlist(fields, "customRanking") {
            Result::Ok(v) => v,
            Result::Err(e) => {
                return Result::Err(e);
            },
        };
        let f_replicas = match get_opt_strlist(fields, "replicas") {
            Result::Ok(v) => v,
            Result::Err(e) => {
                return Result::Err(e);
            },
        };
        let f_max_values_per_facet = match get_opt_u64(fields, "maxValuesPerFacet") {
            Result::Ok(v) => v,
            Result::Err(e) => {
                return Result::Err(e);
            },
        };
        let f_sort_facet_values_by = match get_opt_sortfacet(fields, "sortFacetValuesBy") {
            Result::Ok(v) => v,
            Result::Err(e) => {
                return Result::Err(e);
            },
        };
        let f_attributes_to_highlight = match get_opt_strlist(fields, "attributesToHighlight") {
            Result::Ok(v) => v,
            Result::Err(e) => {
                return Result::Err(e);
            },
        };
        let f_attributes_to_snippet = match get_opt_strlist(fields, "attributesToSnippet") {
            Result::Ok(v) => v,
            Result::Err(e) => {
                return Result::Err(e);
            },
        };
        let f_highlight_pre_tag = match get_opt_str(fields, "highlightPreTag") {
            Result::Ok(v) => v,
            Result::Err(e) => {
                return Result::Err(e);
            },
        };
        let f_highlight_post_tag = match get_opt_str(fields, "highlightPostTag") {
            Result::Ok(v) => v,
            Result::Err(e) => {
                return Result::Err(e);
            },
        };
        let f_snippet_ellipsis_text = match get_opt_str(fields, "snippetEllipsisText") {
            Result::Ok(v) => v,
            Result::Err(e) => {
                return Result::Err(e);
            },
        };
        let f_restrict_highlight_and_snippet_arrays = match get_opt_bool(fields, "restrictHighlightAndSnippetArrays") {
            Result::Ok(v) => v,
            Result::Err(e) => {
                return Result::Err(e);
            },
        };
        let f_hits_per_page = match get_opt_u64(fields, "hitsPerPage") {
            Result::Ok(v) => v,
            Result::Err(e) => {
                return Result::Err(e);
            },
        };
        let f_pagination_limited_to = match get_opt_u64(fields, "paginationLimitedTo") {
            Result::Ok(v) => v,
            Result::Err(e) => {
                return Result::Err(e);
            },
        };
        let f_min_word_sizefor_1_typo = match get_opt_u64(fields, "minWordSizefor1Typo") {
            Result::Ok(v) => v,
            Result::Err(e) => {
                return Result::Err(e);
            },
        };
        let f_min_word_sizefor_2_typos = match get_opt_u64(fields, "minWordSizefor2Typo") {
            Result::Ok(v) => v,
            Result::Err(e) => {
                return Result::Err(e);
            },
        };
        let f_typo_tolerance = match get_opt_typo(fields, "typoTolerance") {
            Result::Ok(v) => v,
            Result::Err(e) => {
                return Result::Err(e);
            },
        };
        let f_allow_typos_on_numeric_tokens = match get_opt_bool(fields, "allowTyposOnNumericTokens") {
            Result::Ok(v) => v,
            Result::Err(e) => {
                return Result::Err(e);
            },
        };
        let f_disable_typo_tolerance_on_attributes = match get_opt_strlist(fields, "disableTypoToleranceOnAttributes") {
            Result::Ok(v) => v,
            Result::Err(e) => {
                return Result::Err(e);
            },
        };
        let f_disable_typo_tolerance_on_words = match get_opt_strlist(fields, "disableTypoToleranceOnWords") {
            Result::Ok(v) => v,
            Result::Err(e) => {
                return Result::Err(e);
            },
        };
        let f_separators_to_index = match get_opt_str(fields, "separatorsToIndex") {
            Result::Ok(v) => v,
            Result::Err(e) => {
                return Result::Err(e);
            },
        };
        let f_ignore_plurals = match get_opt_plurals(fields, "ignorePlurals") {
            Result::Ok(v) => v,
            Result::Err(e) => {
                return Result::Err(e);
            },
        };
        let f_remove_stop_words = match get_opt_plurals(fields, "removeStopWords") {
            Result::Ok(v) => v,
            Result::Err(e) => {
                return Result::Err(e);
            },
        };
        let f_camel_case_attributes = match get_opt_strlist(fields, "camelCaseAttributes") {
            Result::Ok(v) => v,
            Result::Err(e) => {
                return Result::Err(e);
            },
        };
        let f_decompounded_attributes = match get_opt_strmap(fields, "decompoundedAttributes") {
            Result::Ok(v) => v,
            Result::Err(e) => {
                return Result::Err(e);
            },
        };
        let f_keep_diacritics_on_characters = match get_opt_str(fields, "keepDiacriticsOnCharacters") {
            Result::Ok(v) => v,
            Result::Err(e) => {
                return Result::Err(e);
            },
        };
        let f_query_languages = match get_opt_strlist(fields, "queryLanguages") {
            Result::Ok(v) => v,
            Result::Err(e) => {
                return Result::Err(e);
            },
        };
        let f_query_type = match get_opt_str(fields, "queryType") {
            Result::Ok(v) => v,
            Result::Err(e) => {
                return Result::Err(e);
            },
        };
        let f_remove_words_if_no_results = match get_opt_remove(fields, "removeWordsIfNoResults") {
            Result::Ok(v) => v,
            Result::Err(e) => {
                return Result::Err(e);
            },
        };
        let f_advanced_syntax = match get_opt_bool(fields, "advancedSyntax") {
            Result::Ok(v) => v,
            Result::Err(e) => {
                return Result::Err(e);
            },
        };
        let f_optional_words = match get_opt_strlist(fields, "optionalWords") {
            Result::Ok(v) => v,
            Result::Err(e) => {
                return Result::Err(e);
            },
        };
        let f_disable_prefix_on_attributes = match get_opt_strlist(fields, "disablePrefixOnAttributes") {
            Result::Ok(v) => v,
            Result::Err(e) => {
                return Result::Err(e);
            },
        };
        let f_disable_exact_on_attributes = match get_opt_strlist(fields, "disableExactOnAttributes") {
            Result::Ok(v) => v,
            Result::Err(e) => {
                return Result::Err(e);
            },
        };
        let f_exact_on_single_word_query = match get_opt_exact(fields, "exactOnSingleWordQuery") {
            Result::Ok(v) => v,
            Result::Err(e) => {
                return Result::Err(e);
            },
        };
        let f_alternatives_as_exact = match get_opt_altlist(fields, "alternativesAsExact") {
            Result::Ok(v) => v,
            Result::Err(e) => {
                return Result::Err(e);
            },
        };
        let f_enable_rules = match get_opt_bool(fields, "enableRules") {
            Result::Ok(v) => v,
            Result::Err(e) => {
                return Result::Err(e);
            },
        };
        let f_numeric_attributes_for_filtering = match get_opt_strlist(fields, "numericAttributesForFiltering") {
            Result::Ok(v) => v,
            Result::Err(e) => {
                return Result::Err(e);
            },
        };
        let f_allow_compression_of_integer_array = match get_opt_bool(fields, "allowCompressionOfIntegerArray") {
            Result::Ok(v) => v,
            Result::Err(e) => {
                return Result::Err(e);
            },
        };
        let f_attribute_for_distinct = match get_opt_str(fields, "attributeForDistinct") {
            Result::Ok(v) => v,
            Result::Err(e) => {
                return Result::Err(e);
            },
        };
        let f_distinct = match get_opt_distinct(fields, "distinct") {
            Result::Ok(v) => v,
            Result::Err(e) => {
                return Result::Err(e);
            },
        };
        let f_replace_synonyms_in_highlight = match get_opt_bool(fields, "replaceSynonymsInHighlight") {
            Result::Ok(v) => v,
            Result::Err(e) => {
                return Result::Err(e);
            },
        };
        let f_min_proximity = match get_opt_minprox(fields, "minProximity") {
            Result::Ok(v) => v,
            Result::Err(e) => {
                return Result::Err(e);
            },
        };
        let f_response_fields = match get_opt_strlist(fields, "responseFields") {
            Result::Ok(v) => v,
            Result::Err(e) => {
                return Result::Err(e);
            },
        };
        let f_max_facet_hits = match get_opt_u64(fields, "maxFacetHits") {
            Result::Ok(v) => v,
            Result::Err(e) => {
                return Result::Err(e);
            },
        };
    Result::Ok(
        IndexSettings {
            searchable_attributes: f_searchable_attributes,
            attributes_for_facetting: f_attributes_for_facetting,
            unretrievable_attributes: f_unretrievable_attributes,
            attributes_to_retrieve: f_attributes_to_retrieve,
            ranking: f_ranking,
            custom_ranking: f_custom_ranking,
            replicas: f_replicas,
            max_values_per_facet: f_max_values_per_facet,
            sort_facet_values_by: f_sort_facet_values_by,
            attributes_to_highlight: f_attributes_to_highlight,
            attributes_to_snippet: f_attributes_to_snippet,
            highlight_pre_tag: f_highlight_pre_tag,
            highlight_post_tag: f_highlight_post_tag,
            snippet_ellipsis_text: f_snippet_ellipsis_text,
            restrict_highlight_and_snippet_arrays: f_restrict_highlight_and_snippet_arrays,
            hits_per_page: f_hits_per_page,
            pagination_limited_to: f_pagination_limited_to,
            min_word_sizefor_1_typo: f_min_word_sizefor_1_typo,
            min_word_sizefor_2_typos: f_min_word_sizefor_2_typos,
            typo_tolerance: f_typo_tolerance,
            allow_typos_on_numeric_tokens: f_allow_typos_on_numeric_tokens,
            disable_typo_tolerance_on_attributes: f_disable_typo_tolerance_on_attributes,
            disable_typo_tolerance_on_words: f_disable_typo_tolerance_on_words,
            separators_to_index: f_separators_to_index,
            ignore_plurals: f_ignore_plurals,
            remove_stop_words: f_remove_stop_words,
            camel_case_attributes: f_camel_case_attributes,
            decompounded_attributes: f_decompounded_attributes,
            keep_diacritics_on_characters: f_keep_diacritics_on_characters,
            query_languages: f_query_languages,
            query_type: f_query_type,
            remove_words_if_no_results: f_remove_words_if_no_results,
            advanced_syntax: f_advanced_syntax,
            optional_words: f_optional_words,
            disable_prefix_on_attributes: f_disable_prefix_on_attributes,
            disable_exact_on_attributes: f_disable_exact_on_attributes,
            exact_on_single_word_query: f_exact_on_single_word_query,
            alternatives_as_exact: f_alternatives_as_exact,
            enable_rules: f_enable_rules,
            numeric_attributes_for_filtering: f_numeric_attributes_for_filtering,
            allow_compression_of_integer_array: f_allow_compression_of_integer_array,
            attribute_for_distinct: f_attribute_for_distinct,
            distinct: f_distinct,
            replace_synonyms_in_highlight: f_replace_synonyms_in_highlight,
            min_proximity: f_min_proximity,
            response_fields: f_response_fields,
            max_facet_hits: f_max_facet_hits,
        },
    )
}

} // verus!
