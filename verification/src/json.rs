//! The wire value model: a JSON-like tagged value, its mathematical
//! model, and the exact text rendering used for request bodies.
//!
//! The remote protocol represents every parameter and every response
//! field with the JSON token categories modeled here; numbers on this
//! wire are unsigned integers.

use crate::strutil::{dec_str_of, push_char, write_dec_u64};
use vstd::prelude::*;
use vstd::string::StringExecFns;

verus! {

/// Mathematical model of a wire value: strings become character
/// sequences, so contracts can speak about the exact wire text.
pub enum JsonModel {
    Null,
    Bool(bool),
    Num(u64),
    Str(Seq<char>),
    Arr(Seq<JsonModel>),
    Obj(Seq<(Seq<char>, JsonModel)>),
}

/// A wire value: one JSON token tree, with numbers restricted to the
/// unsigned integers the protocol uses.
#[derive(Debug, PartialEq)]
pub enum JsonValue {
    Null,
    Bool(bool),
    Num(u64),
    Str(String),
    Arr(Vec<JsonValue>),
    Obj(Vec<(String, JsonValue)>),
}

/// Model of a sequence of wire values, element by element.
pub open spec fn arr_model(items: Seq<JsonValue>) -> Seq<JsonModel>
    decreases items,
{
    if items.len() == 0 {
        Seq::empty()
    } else {
        seq![items[0].model()] + arr_model(items.drop_first())
    }
}

/// Model of a sequence of object entries, element by element.
pub open spec fn obj_model(fields: Seq<(String, JsonValue)>) -> Seq<(Seq<char>, JsonModel)>
    decreases fields,
{
    if fields.len() == 0 {
        Seq::empty()
    } else {
        seq![(fields[0].0@, fields[0].1.model())] + obj_model(fields.drop_first())
    }
}

impl JsonValue {
    /// The mathematical model of this wire value.
    pub open spec fn model(self) -> JsonModel
        decreases self,
    {
        match self {
            JsonValue::Null => JsonModel::Null,
            JsonValue::Bool(b) => JsonModel::Bool(b),
            JsonValue::Num(n) => JsonModel::Num(n),
            JsonValue::Str(s) => JsonModel::Str(s@),
            JsonValue::Arr(items) => JsonModel::Arr(arr_model(items@)),
            JsonValue::Obj(fields) => JsonModel::Obj(obj_model(fields@)),
        }
    }
}

impl View for JsonValue {
    type V = JsonModel;

    open spec fn view(&self) -> JsonModel {
        self.model()
    }
}

pub broadcast proof fn lemma_arr_model_len(items: Seq<JsonValue>)
    ensures
        (#[trigger] arr_model(items)).len() == items.len(),
    decreases items,
{
    if items.len() > 0 {
        lemma_arr_model_len(items.drop_first());
    }
}

pub broadcast proof fn lemma_arr_model_index(items: Seq<JsonValue>, i: int)
    requires
        0 <= i < items.len(),
    ensures
        #[trigger] arr_model(items)[i] == items[i].model(),
    decreases items,
{
    lemma_arr_model_len(items);
    if i > 0 {
        lemma_arr_model_index(items.drop_first(), i - 1);
    }
}

pub broadcast proof fn lemma_obj_model_len(fields: Seq<(String, JsonValue)>)
    ensures
        (#[trigger] obj_model(fields)).len() == fields.len(),
    decreases fields,
{
    if fields.len() > 0 {
        lemma_obj_model_len(fields.drop_first());
    }
}

pub broadcast proof fn lemma_obj_model_index(fields: Seq<(String, JsonValue)>, i: int)
    requires
        0 <= i < fields.len(),
    ensures
        #[trigger] obj_model(fields)[i] == (fields[i].0@, fields[i].1.model()),
    decreases fields,
{
    lemma_obj_model_len(fields);
    if i > 0 {
        lemma_obj_model_index(fields.drop_first(), i - 1);
    }
}

pub proof fn lemma_arr_model_push(items: Seq<JsonValue>, v: JsonValue)
    ensures
        arr_model(items.push(v)) == arr_model(items) + seq![v.model()],
    decreases items,
{
    if items.len() == 0 {
        assert(items.push(v) =~= seq![v]);
        assert(seq![v].drop_first() =~= Seq::<JsonValue>::empty());
        assert(arr_model(Seq::<JsonValue>::empty()) =~= Seq::<JsonModel>::empty());
        assert(arr_model(items.push(v)) =~= seq![v.model()] + arr_model(
            Seq::<JsonValue>::empty(),
        ));
        assert(arr_model(items.push(v)) =~= arr_model(items) + seq![v.model()]);
    } else {
        assert(items.push(v).drop_first() =~= items.drop_first().push(v));
        lemma_arr_model_push(items.drop_first(), v);
        assert(arr_model(items.push(v)) =~= arr_model(items) + seq![v.model()]);
    }
}

pub proof fn lemma_obj_model_push(fields: Seq<(String, JsonValue)>, kv: (String, JsonValue))
    ensures
        obj_model(fields.push(kv)) == obj_model(fields) + seq![(kv.0@, kv.1.model())],
    decreases fields,
{
    if fields.len() == 0 {
        assert(fields.push(kv) =~= seq![kv]);
        assert(seq![kv].drop_first() =~= Seq::<(String, JsonValue)>::empty());
        assert(obj_model(Seq::<(String, JsonValue)>::empty()) =~= Seq::<
            (Seq<char>, JsonModel),
        >::empty());
        assert(obj_model(fields.push(kv)) =~= seq![(kv.0@, kv.1.model())] + obj_model(
            Seq::<(String, JsonValue)>::empty(),
        ));
        assert(obj_model(fields.push(kv)) =~= obj_model(fields) + seq![(kv.0@, kv.1.model())]);
    } else {
        assert(fields.push(kv).drop_first() =~= fields.drop_first().push(kv));
        lemma_obj_model_push(fields.drop_first(), kv);
        assert(obj_model(fields.push(kv)) =~= obj_model(fields) + seq![(kv.0@, kv.1.model())]);
    }
}

/// The lowercase hexadecimal digit character for `d` (0 through 15).
pub open spec fn hex_digit_char(d: int) -> char {
    if d == 0 {
        '0'
    } else if d == 1 {
        '1'
    } else if d == 2 {
        '2'
    } else if d == 3 {
        '3'
    } else if d == 4 {
        '4'
    } else if d == 5 {
        '5'
    } else if d == 6 {
        '6'
    } else if d == 7 {
        '7'
    } else if d == 8 {
        '8'
    } else if d == 9 {
        '9'
    } else if d == 10 {
        'a'
    } else if d == 11 {
        'b'
    } else if d == 12 {
        'c'
    } else if d == 13 {
        'd'
    } else if d == 14 {
        'e'
    } else {
        'f'
    }
}

/// How one character is written inside a JSON string literal: quote
/// and backslash get a backslash escape, the five short control
/// escapes are used where they exist, any other control character
/// becomes a `\u00..` escape, and everything else stands as itself.
pub open spec fn json_escape_char(c: char) -> Seq<char> {
    if c == '"' {
        seq!['\\', '"']
    } else if c == '\\' {
        seq!['\\', '\\']
    } else if c == '\x08' {
        seq!['\\', 'b']
    } else if c == '\t' {
        seq!['\\', 't']
    } else if c == '\n' {
        seq!['\\', 'n']
    } else if c == '\x0c' {
        seq!['\\', 'f']
    } else if c == '\r' {
        seq!['\\', 'r']
    } else if (c as u32) < 0x20 {
        seq!['\\', 'u', '0', '0', hex_digit_char((c as u32) as int / 16), hex_digit_char(
            (c as u32) as int % 16,
        )]
    } else {
        seq![c]
    }
}

/// The body of a JSON string literal holding the characters of `s`.
pub open spec fn json_escape(s: Seq<char>) -> Seq<char>
    decreases s,
{
    if s.len() == 0 {
        Seq::empty()
    } else {
        json_escape_char(s[0]) + json_escape(s.drop_first())
    }
}

pub proof fn lemma_json_escape_push(s: Seq<char>, c: char)
    ensures
        json_escape(s.push(c)) == json_escape(s) + json_escape_char(c),
    decreases s,
{
    if s.len() == 0 {
        assert(s.push(c) =~= seq![c]);
        assert(seq![c].drop_first() =~= Seq::<char>::empty());
        assert(json_escape(s.push(c)) =~= json_escape_char(c) + json_escape(
            Seq::<char>::empty(),
        ));
        assert(json_escape(s.push(c)) =~= json_escape(s) + json_escape_char(c));
    } else {
        assert(s.push(c).drop_first() =~= s.drop_first().push(c));
        lemma_json_escape_push(s.drop_first(), c);
        assert(json_escape(s.push(c)) =~= json_escape(s) + json_escape_char(c));
    }
}

/// Exact JSON text of a model value: canonical rendering with no
/// added whitespace, matching what the remote service is sent.
pub open spec fn render(m: JsonModel) -> Seq<char>
    decreases m, 2int,
{
    match m {
        JsonModel::Null => seq!['n', 'u', 'l', 'l'],
        JsonModel::Bool(b) => if b {
            seq!['t', 'r', 'u', 'e']
        } else {
            seq!['f', 'a', 'l', 's', 'e']
        },
        JsonModel::Num(n) => dec_str_of(n as nat),
        JsonModel::Str(s) => seq!['"'] + json_escape(s) + seq!['"'],
        JsonModel::Arr(items) => seq!['['] + render_list(items) + seq![']'],
        JsonModel::Obj(fields) => seq!['{'] + render_fields(fields) + seq!['}'],
    }
}

/// The comma-separated renderings of `items`.
pub open spec fn render_list(items: Seq<JsonModel>) -> Seq<char>
    decreases items, 1int,
{
    if items.len() == 0 {
        Seq::empty()
    } else {
        render(items[0]) + render_list_rest(items.drop_first())
    }
}

/// The renderings of `items`, each preceded by a comma.
pub open spec fn render_list_rest(items: Seq<JsonModel>) -> Seq<char>
    decreases items, 0int,
{
    if items.len() == 0 {
        Seq::empty()
    } else {
        seq![','] + render(items[0]) + render_list_rest(items.drop_first())
    }
}

/// The rendering of one object entry: quoted key, colon, value.
pub open spec fn render_field(kv: (Seq<char>, JsonModel)) -> Seq<char>
    decreases kv, 3int,
{
    seq!['"'] + json_escape(kv.0) + seq!['"', ':'] + render(kv.1)
}

/// The comma-separated renderings of the object entries `fields`.
pub open spec fn render_fields(fields: Seq<(Seq<char>, JsonModel)>) -> Seq<char>
    decreases fields, 1int,
{
    if fields.len() == 0 {
        Seq::empty()
    } else {
        render_field(fields[0]) + render_fields_rest(fields.drop_first())
    }
}

/// The renderings of the object entries, each preceded by a comma.
pub open spec fn render_fields_rest(fields: Seq<(Seq<char>, JsonModel)>) -> Seq<char>
    decreases fields, 0int,
{
    if fields.len() == 0 {
        Seq::empty()
    } else {
        seq![','] + render_field(fields[0]) + render_fields_rest(fields.drop_first())
    }
}

fn hex_digit(d: u32) -> (c: char)
    requires
        d < 16,
    ensures
        c == hex_digit_char(d as int),
{
    if d == 0 {
        '0'
    } else if d == 1 {
        '1'
    } else if d == 2 {
        '2'
    } else if d == 3 {
        '3'
    } else if d == 4 {
        '4'
    } else if d == 5 {
        '5'
    } else if d == 6 {
        '6'
    } else if d == 7 {
        '7'
    } else if d == 8 {
        '8'
    } else if d == 9 {
        '9'
    } else if d == 10 {
        'a'
    } else if d == 11 {
        'b'
    } else if d == 12 {
        'c'
    } else if d == 13 {
        'd'
    } else if d == 14 {
        'e'
    } else {
        'f'
    }
}

fn write_escaped_char(c: char, out: &mut String)
    ensures
        final(out)@ == old(out)@ + json_escape_char(c),
{
    if c == '"' {
        push_char(out, '\\');
        push_char(out, '"');
    } else if c == '\\' {
        push_char(out, '\\');
        push_char(out, '\\');
    } else if c == '\x08' {
        push_char(out, '\\');
        push_char(out, 'b');
    } else if c == '\t' {
        push_char(out, '\\');
        push_char(out, 't');
    } else if c == '\n' {
        push_char(out, '\\');
        push_char(out, 'n');
    } else if c == '\x0c' {
        push_char(out, '\\');
        push_char(out, 'f');
    } else if c == '\r' {
        push_char(out, '\\');
        push_char(out, 'r');
    } else {
        let u = c as u32;
        if u < 0x20 {
            push_char(out, '\\');
            push_char(out, 'u');
            push_char(out, '0');
            push_char(out, '0');
            push_char(out, hex_digit(u / 16));
            push_char(out, hex_digit(u % 16));
            proof {
                assert(final(out)@ =~= old(out)@ + json_escape_char(c));
            }
        } else {
            push_char(out, c);
            proof {
                assert(final(out)@ =~= old(out)@ + json_escape_char(c));
            }
        }
    }
    proof {
        assert(final(out)@ =~= old(out)@ + json_escape_char(c));
    }
}

/// Appends the JSON string-literal body for the characters of `s`.
pub fn write_escaped(s: &str, out: &mut String)
    ensures
        final(out)@ == old(out)@ + json_escape(s@),
{
    proof {
        assert(s@.take(0) =~= Seq::<char>::empty());
        assert(old(out)@ + json_escape(s@.take(0)) =~= old(out)@);
    }
    for c in it: s.chars()
        invariant
            it.seq() == s@,
            out@ == old(out)@ + json_escape(it.seq().take(it.index() as int)),
    {
        proof {
            assert(it.seq().take(it.index() as int + 1) =~= it.seq().take(
                it.index() as int,
            ).push(it.seq()[it.index() as int]));
            lemma_json_escape_push(it.seq().take(it.index() as int), it.seq()[it.index() as int]);
        }
        write_escaped_char(c, out);
        proof {
            assert(out@ =~= old(out)@ + json_escape(it.seq().take(it.index() as int + 1)));
        }
    }
    proof {
        assert(s@.take(s@.len() as int) =~= s@);
    }
}

/// Appends the exact JSON text of `v` to `out`.
pub fn write_json(v: &JsonValue, out: &mut String)
    ensures
        final(out)@ == old(out)@ + render(v@),
    decreases *v, 1int,
{
    broadcast use lemma_arr_model_len, lemma_arr_model_index, lemma_obj_model_len, lemma_obj_model_index;

    match v {
        JsonValue::Null => {
            out.append("null");
            proof {
                reveal_strlit("null");
                assert("null"@ =~= seq!['n', 'u', 'l', 'l']);
            }
        },
        JsonValue::Bool(b) => {
            if *b {
                out.append("true");
                proof {
                    reveal_strlit("true");
                    assert("true"@ =~= seq!['t', 'r', 'u', 'e']);
                }
            } else {
                out.append("false");
                proof {
                    reveal_strlit("false");
                    assert("false"@ =~= seq!['f', 'a', 'l', 's', 'e']);
                }
            }
        },
        JsonValue::Num(n) => {
            write_dec_u64(*n, out);
        },
        JsonValue::Str(s) => {
            push_char(out, '"');
            write_escaped(s.as_str(), out);
            push_char(out, '"');
            proof {
                assert(final(out)@ =~= old(out)@ + render(v@));
            }
        },
        JsonValue::Arr(items) => {
            push_char(out, '[');
            if items.len() > 0 {
                write_json(&items[0], out);
                write_list_rest(items, 1, out);
                proof {
                    assert(arr_model(items@).drop_first() =~= arr_model(items@).skip(1));
                }
            }
            push_char(out, ']');
            proof {
                assert(final(out)@ =~= old(out)@ + render(v@));
            }
        },
        JsonValue::Obj(fields) => {
            push_char(out, '{');
            if fields.len() > 0 {
                write_one_field(&fields[0], out);
                write_fields_rest(fields, 1, out);
                proof {
                    assert(obj_model(fields@).drop_first() =~= obj_model(fields@).skip(1));
                }
            }
            push_char(out, '}');
            proof {
                assert(final(out)@ =~= old(out)@ + render(v@));
            }
        },
    }
}

fn write_list_rest(items: &Vec<JsonValue>, i: usize, out: &mut String)
    requires
        i <= items@.len(),
    ensures
        final(out)@ == old(out)@ + render_list_rest(arr_model(items@).skip(i as int)),
    decreases *items, items@.len() - i, 2int,
{
    broadcast use lemma_arr_model_len, lemma_arr_model_index;

    if i < items.len() {
        push_char(out, ',');
        write_json(&items[i], out);
        write_list_rest(items, i + 1, out);
        proof {
            let m = arr_model(items@);
            assert(m.skip(i as int)[0] == m[i as int]);
            assert(m.skip(i as int).drop_first() =~= m.skip(i as int + 1));
            assert(final(out)@ =~= old(out)@ + render_list_rest(m.skip(i as int)));
        }
    } else {
        proof {
            assert(arr_model(items@).skip(i as int) =~= Seq::<JsonModel>::empty());
            assert(final(out)@ =~= old(out)@ + render_list_rest(arr_model(items@).skip(i as int)));
        }
    }
}

fn write_one_field(kv: &(String, JsonValue), out: &mut String)
    ensures
        final(out)@ == old(out)@ + render_field((kv.0@, kv.1@)),
    decreases *kv, 2int,
{
    push_char(out, '"');
    write_escaped(kv.0.as_str(), out);
    push_char(out, '"');
    push_char(out, ':');
    write_json(&kv.1, out);
    proof {
        assert(final(out)@ =~= old(out)@ + render_field((kv.0@, kv.1@)));
    }
}

fn write_fields_rest(fields: &Vec<(String, JsonValue)>, i: usize, out: &mut String)
    requires
        i <= fields@.len(),
    ensures
        final(out)@ == old(out)@ + render_fields_rest(obj_model(fields@).skip(i as int)),
    decreases *fields, fields@.len() - i, 3int,
{
    broadcast use lemma_obj_model_len, lemma_obj_model_index;

    if i < fields.len() {
        push_char(out, ',');
        write_one_field(&fields[i], out);
        write_fields_rest(fields, i + 1, out);
        proof {
            let m = obj_model(fields@);
            assert(m.skip(i as int)[0] == m[i as int]);
            assert(m.skip(i as int).drop_first() =~= m.skip(i as int + 1));
            assert(final(out)@ =~= old(out)@ + render_fields_rest(m.skip(i as int)));
        }
    } else {
        proof {
            assert(obj_model(fields@).skip(i as int) =~= Seq::<(Seq<char>, JsonModel)>::empty());
            assert(final(out)@ =~= old(out)@ + render_fields_rest(
                obj_model(fields@).skip(i as int),
            ));
        }
    }
}

impl JsonValue {
    /// The exact JSON text of this value.
    pub fn to_json_text(&self) -> (r: String)
        ensures
            r@ == render(self@),
    {
        let mut out = String::new();
        write_json(self, &mut out);
        out
    }

    /// A structurally identical copy of this value.
    #[verifier::loop_isolation(false)]
    pub fn duplicate(&self) -> (r: JsonValue)
        ensures
            r@ == self@,
        decreases *self,
    {
        broadcast use lemma_arr_model_len, lemma_arr_model_index, lemma_obj_model_len, lemma_obj_model_index;

        match self {
            JsonValue::Null => JsonValue::Null,
            JsonValue::Bool(b) => JsonValue::Bool(*b),
            JsonValue::Num(n) => JsonValue::Num(*n),
            JsonValue::Str(s) => JsonValue::Str(s.clone()),
            JsonValue::Arr(items) => {
                let mut copy: Vec<JsonValue> = Vec::new();
                let n = items.len();
                for i in 0..n
                    invariant
                        n == items@.len(),
                        copy@.len() == i,
                        forall|j: int| 0 <= j < i ==> copy@[j].model() == items@[j].model(),
                {
                    proof {
                        assert(decreases_to!(*self => *items));
                        assert(decreases_to!(*items => items@));
                        assert(decreases_to!(items@ => items@[i as int]));
                    }
                    copy.push(items[i].duplicate());
                }
                proof {
                    assert forall|j: int| 0 <= j < n implies arr_model(copy@)[j] == arr_model(
                        items@,
                    )[j] by {
                        lemma_arr_model_index(copy@, j);
                        lemma_arr_model_index(items@, j);
                    }
                    assert(arr_model(copy@) =~= arr_model(items@));
                }
                JsonValue::Arr(copy)
            },
            JsonValue::Obj(fields) => {
                let mut copy: Vec<(String, JsonValue)> = Vec::new();
                let n = fields.len();
                for i in 0..n
                    invariant
                        n == fields@.len(),
                        copy@.len() == i,
                        forall|j: int|
                            0 <= j < i ==> copy@[j].0@ == fields@[j].0@ && copy@[j].1.model()
                                == fields@[j].1.model(),
                {
                    proof {
                        assert(decreases_to!(*self => *fields));
                        assert(decreases_to!(*fields => fields@));
                        assert(decreases_to!(fields@ => fields@[i as int]));
                        assert(decreases_to!(fields@[i as int] => fields@[i as int].1));
                    }
                    let entry = &fields[i];
                    copy.push((entry.0.clone(), entry.1.duplicate()));
                }
                proof {
                    assert forall|j: int| 0 <= j < n implies obj_model(copy@)[j] == obj_model(
                        fields@,
                    )[j] by {
                        lemma_obj_model_index(copy@, j);
                        lemma_obj_model_index(fields@, j);
                    }
                    assert(obj_model(copy@) =~= obj_model(fields@));
                }
                JsonValue::Obj(copy)
            },
        }
    }
}

/// First binding for `key` among the model object entries, if any.
pub open spec fn lookup(fields: Seq<(Seq<char>, JsonModel)>, key: Seq<char>) -> Option<JsonModel>
    decreases fields,
{
    if fields.len() == 0 {
        Option::None
    } else if fields[0].0 == key {
        Option::Some(fields[0].1)
    } else {
        lookup(fields.drop_first(), key)
    }
}

/// First entry named `key` in the object entry list, if any.
pub fn obj_get<'a>(fields: &'a Vec<(String, JsonValue)>, key: &str) -> (r: Option<&'a JsonValue>)
    ensures
        match r {
            Option::Some(v) => lookup(obj_model(fields@), key@) == Option::Some(v.model()),
            Option::None => lookup(obj_model(fields@), key@) is None,
        },
{
    let n = fields.len();
    proof {
        lemma_obj_model_len(fields@);
        assert(obj_model(fields@).skip(0) =~= obj_model(fields@));
    }
    for i in 0..n
        invariant
            n == fields@.len(),
            obj_model(fields@).len() == n,
            lookup(obj_model(fields@), key@) == lookup(
                obj_model(fields@).skip(i as int),
                key@,
            ),
    {
        let entry = &fields[i];
        proof {
            lemma_obj_model_index(fields@, i as int);
            let m = obj_model(fields@);
            assert(m.skip(i as int).len() == n - i);
            assert(m.skip(i as int)[0] == m[i as int]);
        }
        if crate::strutil::str_eq(entry.0.as_str(), key) {
            return Option::Some(&entry.1);
        }
        proof {
            let m = obj_model(fields@);
            assert(m.skip(i as int).drop_first() =~= m.skip(i as int + 1));
        }
    }
    proof {
        assert(obj_model(fields@).skip(n as int) =~= Seq::<(Seq<char>, JsonModel)>::empty());
    }
    Option::None
}

} // verus!
