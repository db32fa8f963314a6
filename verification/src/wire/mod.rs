//! Reader for wire-value text: turns the JSON text the service
//! exchanges into a [`JsonValue`](crate::json::JsonValue), tracking
//! positions so that errors carry the familiar `at line L column C`
//! suffix.
//!
//! The grammar is the protocol's wire subset: `null`, booleans,
//! unsigned integers, strings (with the short escapes and `\u00XX`),
//! arrays and objects. Fractions, exponents, negative numbers and
//! escapes beyond `\u00ff` do not occur on this wire and are refused.

pub mod pos;

use crate::error::DecodeError;
use crate::json::{JsonModel, JsonValue};
use crate::strutil::push_char;
use crate::json::{arr_model, lemma_arr_model_push, lemma_obj_model_push, obj_model};
use pos::{clamp_idx, dec_val, digits_end, hex_val, hex_val_char, lemma_dec_val_bound,
    lemma_pow10_19_value, lemma_pow10_mono, pos_suffix, pow10, skip_ws, skip_ws_exec, syn_error,
    syn_msg, with_pos_suffix};
use vstd::prelude::*;

verus! {

broadcast use pos::lemma_skip_ws_bounds, pos::lemma_digits_end_bounds;

/// Reads the body of a string literal starting right after the
/// opening quote; yields the decoded characters and the index just
/// past the closing quote.
pub open spec fn read_string_body(s: Seq<char>, i: int) -> Result<(Seq<char>, int), Seq<char>>
    decreases s.len() - i, 0int,
{
    if i < 0 || i >= s.len() {
        Result::Err(syn_msg("EOF while parsing a string"@, s, s.len() as int))
    } else {
        let c = s[i];
        if c == '"' {
            Result::Ok((Seq::empty(), i + 1))
        } else if c == '\\' {
            if i + 1 >= s.len() {
                Result::Err(syn_msg("EOF while parsing a string"@, s, s.len() as int))
            } else {
                let e = s[i + 1];
                if e == 'u' {
                    if i + 6 > s.len() {
                        Result::Err(syn_msg("EOF while parsing a string"@, s, s.len() as int))
                    } else if hex_val_char(s[i + 2]) == 16 || hex_val_char(s[i + 3]) == 16
                        || hex_val_char(s[i + 4]) == 16 || hex_val_char(s[i + 5]) == 16 {
                        Result::Err(syn_msg("invalid escape"@, s, i + 2))
                    } else if s[i + 2] != '0' || s[i + 3] != '0' {
                        Result::Err(syn_msg("unsupported unicode escape"@, s, i + 2))
                    } else {
                        let v = hex_val_char(s[i + 4]) * 16 + hex_val_char(s[i + 5]);
                        match read_string_body(s, i + 6) {
                            Result::Ok((cs, end)) => Result::Ok(
                                (seq![(v as u8) as char] + cs, end),
                            ),
                            Result::Err(m) => Result::Err(m),
                        }
                    }
                } else {
                    let d: char = if e == '"' {
                        '"'
                    } else if e == '\\' {
                        '\\'
                    } else if e == '/' {
                        '/'
                    } else if e == 'b' {
                        '\x08'
                    } else if e == 'f' {
                        '\x0c'
                    } else if e == 'n' {
                        '\n'
                    } else if e == 'r' {
                        '\r'
                    } else if e == 't' {
                        '\t'
                    } else {
                        '\x00'
                    };
                    if d == '\x00' {
                        Result::Err(syn_msg("invalid escape"@, s, i + 2))
                    } else {
                        match read_string_body(s, i + 2) {
                            Result::Ok((cs, end)) => Result::Ok((seq![d] + cs, end)),
                            Result::Err(m) => Result::Err(m),
                        }
                    }
                }
            }
        } else if (c as u32) < 0x20 {
            Result::Err(
                syn_msg(
                    "control character (\\u0000-\\u001F) found while parsing a string"@,
                    s,
                    i + 1,
                ),
            )
        } else {
            match read_string_body(s, i + 1) {
                Result::Ok((cs, end)) => Result::Ok((seq![c] + cs, end)),
                Result::Err(m) => Result::Err(m),
            }
        }
    }
}

/// Every string body read ends past where it started, within the text.
pub proof fn lemma_read_string_body_bounds(s: Seq<char>, i: int)
    requires
        0 <= i <= s.len(),
    ensures
        read_string_body(s, i) matches Result::Ok(p) ==> i < p.1 <= s.len(),
    decreases s.len() - i,
{
    if i < s.len() {
        let c = s[i];
        if c == '\\' && i + 1 < s.len() {
            if s[i + 1] == 'u' {
                if i + 6 <= s.len() {
                    lemma_read_string_body_bounds(s, i + 6);
                }
            } else {
                lemma_read_string_body_bounds(s, i + 2);
            }
        } else if c != '"' && !((c as u32) < 0x20) {
            lemma_read_string_body_bounds(s, i + 1);
        }
    }
}

fn read_string_body_exec(s: &Vec<char>, i: usize) -> (r: Result<(String, usize), DecodeError>)
    requires
        i <= s@.len(),
        s@.len() < usize::MAX,
    ensures
        match r {
            Result::Ok(p) => read_string_body(s@, i as int) matches Result::Ok(q) && q.0 == p.0@
                && q.1 == p.1 && i < p.1 <= s@.len(),
            Result::Err(e) => read_string_body(s@, i as int) matches Result::Err(m) && e@ == m,
        },
{
    let mut acc = String::new();
    let mut cur = i;
    while cur < s.len()
        invariant
            i <= cur <= s@.len(),
            s@.len() < usize::MAX,
            read_string_body(s@, i as int) == (match read_string_body(s@, cur as int) {
                Result::Ok(p) => Result::Ok::<(Seq<char>, int), Seq<char>>((acc@ + p.0, p.1)),
                Result::Err(m) => Result::Err(m),
            }),
        decreases s@.len() - cur,
    {
        proof {
            lemma_read_string_body_bounds(s@, cur as int);
            lemma_read_string_body_bounds(s@, i as int);
        }
        let c = s[cur];
        if c == '"' {
            proof {
                assert(acc@ + Seq::<char>::empty() =~= acc@);
            }
            return Result::Ok((acc, cur + 1));
        } else if c == '\\' {
            if s.len() - cur < 2 {
                return Result::Err(syn_error("EOF while parsing a string", s, s.len()));
            }
            let e = s[cur + 1];
            if e == 'u' {
                if s.len() - cur < 6 {
                    return Result::Err(syn_error("EOF while parsing a string", s, s.len()));
                }
                let h2 = hex_val(s[cur + 2]);
                let h3 = hex_val(s[cur + 3]);
                let h4 = hex_val(s[cur + 4]);
                let h5 = hex_val(s[cur + 5]);
                if h2 == 16 || h3 == 16 || h4 == 16 || h5 == 16 {
                    return Result::Err(syn_error("invalid escape", s, cur + 2));
                }
                if s[cur + 2] != '0' || s[cur + 3] != '0' {
                    return Result::Err(syn_error("unsupported unicode escape", s, cur + 2));
                }
                let v: u32 = h4 * 16 + h5;
                let d: char = (v as u8) as char;
                let ghost prev = acc@;
                push_char(&mut acc, d);
                proof {
                    match read_string_body(s@, cur as int + 6) {
                        Result::Ok(p) => {
                            assert(prev + (seq![d] + p.0) =~= acc@ + p.0);
                        },
                        Result::Err(_) => {},
                    }
                }
                cur = cur + 6;
            } else {
                let d: char = if e == '"' {
                    '"'
                } else if e == '\\' {
                    '\\'
                } else if e == '/' {
                    '/'
                } else if e == 'b' {
                    '\x08'
                } else if e == 'f' {
                    '\x0c'
                } else if e == 'n' {
                    '\n'
                } else if e == 'r' {
                    '\r'
                } else if e == 't' {
                    '\t'
                } else {
                    '\x00'
                };
                if d == '\x00' {
                    return Result::Err(syn_error("invalid escape", s, cur + 2));
                }
                let ghost prev = acc@;
                push_char(&mut acc, d);
                proof {
                    match read_string_body(s@, cur as int + 2) {
                        Result::Ok(p) => {
                            assert(prev + (seq![d] + p.0) =~= acc@ + p.0);
                        },
                        Result::Err(_) => {},
                    }
                }
                cur = cur + 2;
            }
        } else {
            let u = c as u32;
            if u < 0x20 {
                return Result::Err(
                    syn_error(
                        "control character (\\u0000-\\u001F) found while parsing a string",
                        s,
                        cur + 1,
                    ),
                );
            }
            let ghost prev = acc@;
            push_char(&mut acc, c);
            proof {
                match read_string_body(s@, cur as int + 1) {
                    Result::Ok(p) => {
                        assert(prev + (seq![c] + p.0) =~= acc@ + p.0);
                    },
                    Result::Err(_) => {},
                }
            }
            cur = cur + 1;
        }
    }
    Result::Err(syn_error("EOF while parsing a string", s, s.len()))
}

/// Reads an unsigned integer whose first digit stands at `j`: a lone
/// `0`, or a run of at most nineteen digits not starting with zero.
pub open spec fn read_number(s: Seq<char>, j: int) -> Result<(JsonModel, int), Seq<char>>
    recommends
        0 <= j < s.len(),
        hex_val_char(s[j]) < 10,
{
    if s[j] == '0' {
        Result::Ok((JsonModel::Num(0), j + 1))
    } else {
        let e = digits_end(s, j);
        if e - j > 19 {
            Result::Err(syn_msg("number out of range"@, s, e))
        } else {
            Result::Ok((JsonModel::Num(dec_val(s, j, e) as u64), e))
        }
    }
}

fn read_number_exec(s: &Vec<char>, j: usize) -> (r: Result<(JsonValue, usize), DecodeError>)
    requires
        j < s@.len(),
        s@.len() < usize::MAX,
        hex_val_char(s@[j as int]) < 10,
    ensures
        match r {
            Result::Ok(p) => read_number(s@, j as int) matches Result::Ok(q) && q.0 == p.0@ && q.1
                == p.1 && j < p.1 <= s@.len(),
            Result::Err(e) => read_number(s@, j as int) matches Result::Err(m) && e@ == m,
        },
{
    if s[j] == '0' {
        return Result::Ok((JsonValue::Num(0), j + 1));
    }
    let mut e = j;
    while e < s.len() && hex_val(s[e]) < 10
        invariant
            j <= e <= s@.len(),
            digits_end(s@, j as int) == digits_end(s@, e as int),
        decreases s@.len() - e,
    {
        e = e + 1;
    }
    proof {
        assert(digits_end(s@, j as int) == e);
        assert(e > j);
    }
    if e - j > 19 {
        return Result::Err(syn_error("number out of range", s, e));
    }
    let mut acc: u64 = 0;
    let mut k = j;
    while k < e
        invariant
            j <= k <= e <= s@.len(),
            e - j <= 19,
            digits_end(s@, j as int) == e,
            acc == dec_val(s@, j as int, k as int),
        decreases e - k,
    {
        proof {
            lemma_dec_val_bound(s@, j as int, k as int);
            lemma_pow10_mono((k - j) as nat, 18);
            lemma_pow10_19_value();
            assert(pow10(19) == 10 * pow10(18));
            assert(acc < pow10(18));
        }
        let d = hex_val(s[k]);
        proof {
            assert(d < 10);
        }
        acc = acc * 10 + (d as u64);
        k = k + 1;
    }
    proof {
        lemma_dec_val_bound(s@, j as int, e as int);
        lemma_pow10_mono((e - j) as nat, 19);
        lemma_pow10_19_value();
        assert(acc == dec_val(s@, j as int, e as int) as u64);
    }
    Result::Ok((JsonValue::Num(acc), e))
}

/// Reads one wire value beginning at or after `i`, skipping leading
/// whitespace; yields its model and the index just past it.
pub open spec fn read_value(s: Seq<char>, i: int) -> Result<(JsonModel, int), Seq<char>>
    decreases s.len() - i, 0int,
{
    let j = clamp_idx(skip_ws(s, i), i, s.len() as int);
    if j >= s.len() {
        Result::Err(syn_msg("EOF while parsing a value"@, s, s.len() as int))
    } else {
        let c = s[j];
        if c == 't' {
            if j + 4 <= s.len() && s[j + 1] == 'r' && s[j + 2] == 'u' && s[j + 3] == 'e' {
                Result::Ok((JsonModel::Bool(true), j + 4))
            } else {
                Result::Err(
                    syn_msg(
                        "expected ident"@,
                        s,
                        if j + 4 <= s.len() {
                            j + 4
                        } else {
                            s.len() as int
                        },
                    ),
                )
            }
        } else if c == 'f' {
            if j + 5 <= s.len() && s[j + 1] == 'a' && s[j + 2] == 'l' && s[j + 3] == 's' && s[j
                + 4] == 'e' {
                Result::Ok((JsonModel::Bool(false), j + 5))
            } else {
                Result::Err(
                    syn_msg(
                        "expected ident"@,
                        s,
                        if j + 5 <= s.len() {
                            j + 5
                        } else {
                            s.len() as int
                        },
                    ),
                )
            }
        } else if c == 'n' {
            if j + 4 <= s.len() && s[j + 1] == 'u' && s[j + 2] == 'l' && s[j + 3] == 'l' {
                Result::Ok((JsonModel::Null, j + 4))
            } else {
                Result::Err(
                    syn_msg(
                        "expected ident"@,
                        s,
                        if j + 4 <= s.len() {
                            j + 4
                        } else {
                            s.len() as int
                        },
                    ),
                )
            }
        } else if c == '"' {
            match read_string_body(s, j + 1) {
                Result::Ok((cs, end)) => Result::Ok((JsonModel::Str(cs), end)),
                Result::Err(m) => Result::Err(m),
            }
        } else if hex_val_char(c) < 10 {
            read_number(s, j)
        } else if c == '[' {
            match read_list(s, j + 1) {
                Result::Ok((ms, end)) => Result::Ok((JsonModel::Arr(ms), end)),
                Result::Err(m) => Result::Err(m),
            }
        } else if c == '{' {
            match read_obj(s, j + 1) {
                Result::Ok((fs, end)) => Result::Ok((JsonModel::Obj(fs), end)),
                Result::Err(m) => Result::Err(m),
            }
        } else {
            Result::Err(syn_msg("expected value"@, s, j + 1))
        }
    }
}

/// Reads the elements of an array, starting right after the `[`.
pub open spec fn read_list(s: Seq<char>, i: int) -> Result<(Seq<JsonModel>, int), Seq<char>>
    decreases s.len() - i, 2int,
{
    let k = clamp_idx(skip_ws(s, i), i, s.len() as int);
    if k >= s.len() {
        Result::Err(syn_msg("EOF while parsing a list"@, s, s.len() as int))
    } else if s[k] == ']' {
        Result::Ok((Seq::empty(), k + 1))
    } else {
        match read_value(s, k) {
            Result::Ok((m, e)) => {
                let e2 = clamp_idx(e, k + 1, s.len() as int);
                match read_list_rest(s, e2) {
                    Result::Ok((ms, end)) => Result::Ok((seq![m] + ms, end)),
                    Result::Err(x) => Result::Err(x),
                }
            },
            Result::Err(x) => Result::Err(x),
        }
    }
}

/// Reads the continuation of an array: a closing bracket, or a comma
/// followed by the next element.
pub open spec fn read_list_rest(s: Seq<char>, i: int) -> Result<(Seq<JsonModel>, int), Seq<char>>
    decreases s.len() - i, 2int,
{
    let k = clamp_idx(skip_ws(s, i), i, s.len() as int);
    if k >= s.len() {
        Result::Err(syn_msg("EOF while parsing a list"@, s, s.len() as int))
    } else if s[k] == ']' {
        Result::Ok((Seq::empty(), k + 1))
    } else if s[k] == ',' {
        match read_value(s, k + 1) {
            Result::Ok((m, e)) => {
                let e2 = clamp_idx(e, k + 2, s.len() as int);
                match read_list_rest(s, e2) {
                    Result::Ok((ms, end)) => Result::Ok((seq![m] + ms, end)),
                    Result::Err(x) => Result::Err(x),
                }
            },
            Result::Err(x) => Result::Err(x),
        }
    } else {
        Result::Err(syn_msg("expected `,` or `]`"@, s, k + 1))
    }
}

/// Reads one object entry whose key's opening quote stands at `kq`.
pub open spec fn read_entry(s: Seq<char>, kq: int) -> Result<((Seq<char>, JsonModel), int), Seq<
    char,
>>
    recommends
        0 <= kq < s.len(),
        s[kq] == '"',
    decreases s.len() - kq, 1int,
{
    match read_string_body(s, kq + 1) {
        Result::Err(m) => Result::Err(m),
        Result::Ok((key, ek)) => {
            let ek2 = clamp_idx(ek, kq + 2, s.len() as int);
            let t = clamp_idx(skip_ws(s, ek2), ek2, s.len() as int);
            if t >= s.len() {
                Result::Err(syn_msg("EOF while parsing an object"@, s, s.len() as int))
            } else if s[t] == ':' {
                match read_value(s, t + 1) {
                    Result::Ok((m, e)) => Result::Ok(((key, m), e)),
                    Result::Err(x) => Result::Err(x),
                }
            } else {
                Result::Err(syn_msg("expected `:`"@, s, t + 1))
            }
        },
    }
}

/// Reads the entries of an object, starting right after the `{`.
pub open spec fn read_obj(s: Seq<char>, i: int) -> Result<(Seq<(Seq<char>, JsonModel)>, int), Seq<
    char,
>>
    decreases s.len() - i, 2int,
{
    let k = clamp_idx(skip_ws(s, i), i, s.len() as int);
    if k >= s.len() {
        Result::Err(syn_msg("EOF while parsing an object"@, s, s.len() as int))
    } else if s[k] == '}' {
        Result::Ok((Seq::empty(), k + 1))
    } else if s[k] == '"' {
        match read_entry(s, k) {
            Result::Err(x) => Result::Err(x),
            Result::Ok((kv, e)) => {
                let e2 = clamp_idx(e, k + 1, s.len() as int);
                match read_obj_rest(s, e2) {
                    Result::Ok((fs, end)) => Result::Ok((seq![kv] + fs, end)),
                    Result::Err(x) => Result::Err(x),
                }
            },
        }
    } else {
        Result::Err(syn_msg("key must be a string"@, s, k + 1))
    }
}

/// Reads the continuation of an object: a closing brace, or a comma
/// followed by the next entry.
pub open spec fn read_obj_rest(s: Seq<char>, i: int) -> Result<
    (Seq<(Seq<char>, JsonModel)>, int),
    Seq<char>,
>
    decreases s.len() - i, 2int,
{
    let k = clamp_idx(skip_ws(s, i), i, s.len() as int);
    if k >= s.len() {
        Result::Err(syn_msg("EOF while parsing an object"@, s, s.len() as int))
    } else if s[k] == '}' {
        Result::Ok((Seq::empty(), k + 1))
    } else if s[k] == ',' {
        let k2 = clamp_idx(skip_ws(s, k + 1), k + 1, s.len() as int);
        if k2 >= s.len() {
            Result::Err(syn_msg("EOF while parsing an object"@, s, s.len() as int))
        } else if s[k2] == '"' {
            match read_entry(s, k2) {
                Result::Err(x) => Result::Err(x),
                Result::Ok((kv, e)) => {
                    let e2 = clamp_idx(e, k2 + 1, s.len() as int);
                    match read_obj_rest(s, e2) {
                        Result::Ok((fs, end)) => Result::Ok((seq![kv] + fs, end)),
                        Result::Err(x) => Result::Err(x),
                    }
                },
            }
        } else {
            Result::Err(syn_msg("key must be a string"@, s, k2 + 1))
        }
    } else {
        Result::Err(syn_msg("expected `,` or `}`"@, s, k + 1))
    }
}


fn read_value_exec(s: &Vec<char>, i: usize) -> (r: Result<(JsonValue, usize), DecodeError>)
    requires
        i <= s@.len(),
        s@.len() < usize::MAX,
    ensures
        match r {
            Result::Ok(p) => read_value(s@, i as int) matches Result::Ok(q) && q.0 == p.0@ && q.1
                == p.1 && i < p.1 <= s@.len(),
            Result::Err(e) => read_value(s@, i as int) matches Result::Err(m) && e@ == m,
        },
    decreases s@.len() - i, 0int,
{
    let j = skip_ws_exec(s, i);
    if j >= s.len() {
        return Result::Err(syn_error("EOF while parsing a value", s, s.len()));
    }
    let c = s[j];
    if c == 't' {
        if s.len() - j >= 4 && s[j + 1] == 'r' && s[j + 2] == 'u' && s[j + 3] == 'e' {
            Result::Ok((JsonValue::Bool(true), j + 4))
        } else {
            let p = if s.len() - j >= 4 {
                j + 4
            } else {
                s.len()
            };
            Result::Err(syn_error("expected ident", s, p))
        }
    } else if c == 'f' {
        if s.len() - j >= 5 && s[j + 1] == 'a' && s[j + 2] == 'l' && s[j + 3] == 's' && s[j + 4]
            == 'e' {
            Result::Ok((JsonValue::Bool(false), j + 5))
        } else {
            let p = if s.len() - j >= 5 {
                j + 5
            } else {
                s.len()
            };
            Result::Err(syn_error("expected ident", s, p))
        }
    } else if c == 'n' {
        if s.len() - j >= 4 && s[j + 1] == 'u' && s[j + 2] == 'l' && s[j + 3] == 'l' {
            Result::Ok((JsonValue::Null, j + 4))
        } else {
            let p = if s.len() - j >= 4 {
                j + 4
            } else {
                s.len()
            };
            Result::Err(syn_error("expected ident", s, p))
        }
    } else if c == '"' {
        match read_string_body_exec(s, j + 1) {
            Result::Ok((body, end)) => Result::Ok((JsonValue::Str(body), end)),
            Result::Err(e) => Result::Err(e),
        }
    } else if hex_val(c) < 10 {
        read_number_exec(s, j)
    } else if c == '[' {
        match read_list_exec(s, j + 1) {
            Result::Ok((items, end)) => Result::Ok((JsonValue::Arr(items), end)),
            Result::Err(e) => Result::Err(e),
        }
    } else if c == '{' {
        match read_obj_exec(s, j + 1) {
            Result::Ok((fields, end)) => Result::Ok((JsonValue::Obj(fields), end)),
            Result::Err(e) => Result::Err(e),
        }
    } else {
        Result::Err(syn_error("expected value", s, j + 1))
    }
}

fn read_list_exec(s: &Vec<char>, i: usize) -> (r: Result<(Vec<JsonValue>, usize), DecodeError>)
    requires
        i <= s@.len(),
        s@.len() < usize::MAX,
    ensures
        match r {
            Result::Ok(p) => read_list(s@, i as int) matches Result::Ok(q) && q.0 == arr_model(
                p.0@,
            ) && q.1 == p.1 && i < p.1 <= s@.len(),
            Result::Err(e) => read_list(s@, i as int) matches Result::Err(m) && e@ == m,
        },
    decreases s@.len() - i, 2int,
{
    let k = skip_ws_exec(s, i);
    if k >= s.len() {
        return Result::Err(syn_error("EOF while parsing a list", s, s.len()));
    }
    if s[k] == ']' {
        let items: Vec<JsonValue> = Vec::new();
        proof {
            assert(arr_model(items@) =~= Seq::<JsonModel>::empty());
        }
        return Result::Ok((items, k + 1));
    }
    let mut items: Vec<JsonValue> = Vec::new();
    let mut cur: usize;
    match read_value_exec(s, k) {
        Result::Ok((v, e)) => {
            let ghost prev = items@;
            items.push(v);
            proof {
                lemma_arr_model_push(prev, v);
                assert(arr_model(prev) =~= Seq::<JsonModel>::empty());
                assert(arr_model(items@) =~= seq![v@]);
            }
            cur = e;
        },
        Result::Err(e) => {
            return Result::Err(e);
        },
    }
    loop
        invariant
            i < cur <= s@.len(),
            s@.len() < usize::MAX,
            read_list(s@, i as int) == (match read_list_rest(s@, cur as int) {
                Result::Ok(p) => Result::Ok::<(Seq<JsonModel>, int), Seq<char>>(
                    (arr_model(items@) + p.0, p.1),
                ),
                Result::Err(m) => Result::Err(m),
            }),
        decreases s@.len() - cur,
    {
        let k2 = skip_ws_exec(s, cur);
        if k2 >= s.len() {
            return Result::Err(syn_error("EOF while parsing a list", s, s.len()));
        }
        if s[k2] == ']' {
            proof {
                assert(arr_model(items@) + Seq::<JsonModel>::empty() =~= arr_model(items@));
            }
            return Result::Ok((items, k2 + 1));
        }
        if s[k2] == ',' {
            match read_value_exec(s, k2 + 1) {
                Result::Ok((v, e)) => {
                    let ghost prev = items@;
                    items.push(v);
                    proof {
                        lemma_arr_model_push(prev, v);
                        match read_list_rest(s@, e as int) {
                            Result::Ok(p) => {
                                assert(arr_model(prev) + (seq![v@] + p.0) =~= arr_model(items@)
                                    + p.0);
                            },
                            Result::Err(_) => {},
                        }
                    }
                    cur = e;
                },
                Result::Err(e) => {
                    return Result::Err(e);
                },
            }
        } else {
            return Result::Err(syn_error("expected `,` or `]`", s, k2 + 1));
        }
    }
}

fn read_entry_exec(s: &Vec<char>, kq: usize) -> (r: Result<((String, JsonValue), usize),
    DecodeError>)
    requires
        kq < s@.len(),
        s@.len() < usize::MAX,
    ensures
        match r {
            Result::Ok(p) => read_entry(s@, kq as int) matches Result::Ok(q) && q.0.0 == p.0.0@
                && q.0.1 == p.0.1@ && q.1 == p.1 && kq < p.1 <= s@.len(),
            Result::Err(e) => read_entry(s@, kq as int) matches Result::Err(m) && e@ == m,
        },
    decreases s@.len() - kq, 1int,
{
    match read_string_body_exec(s, kq + 1) {
        Result::Err(e) => Result::Err(e),
        Result::Ok((key, ek)) => {
            let t = skip_ws_exec(s, ek);
            if t >= s.len() {
                Result::Err(syn_error("EOF while parsing an object", s, s.len()))
            } else if s[t] == ':' {
                match read_value_exec(s, t + 1) {
                    Result::Ok((v, e)) => Result::Ok(((key, v), e)),
                    Result::Err(e) => Result::Err(e),
                }
            } else {
                Result::Err(syn_error("expected `:`", s, t + 1))
            }
        },
    }
}

fn read_obj_exec(s: &Vec<char>, i: usize) -> (r: Result<(Vec<(String, JsonValue)>, usize),
    DecodeError>)
    requires
        i <= s@.len(),
        s@.len() < usize::MAX,
    ensures
        match r {
            Result::Ok(p) => read_obj(s@, i as int) matches Result::Ok(q) && q.0 == obj_model(
                p.0@,
            ) && q.1 == p.1 && i < p.1 <= s@.len(),
            Result::Err(e) => read_obj(s@, i as int) matches Result::Err(m) && e@ == m,
        },
    decreases s@.len() - i, 2int,
{
    let k = skip_ws_exec(s, i);
    if k >= s.len() {
        return Result::Err(syn_error("EOF while parsing an object", s, s.len()));
    }
    if s[k] == '}' {
        let fields: Vec<(String, JsonValue)> = Vec::new();
        proof {
            assert(obj_model(fields@) =~= Seq::<(Seq<char>, JsonModel)>::empty());
        }
        return Result::Ok((fields, k + 1));
    }
    if s[k] != '"' {
        return Result::Err(syn_error("key must be a string", s, k + 1));
    }
    let mut fields: Vec<(String, JsonValue)> = Vec::new();
    let mut cur: usize;
    match read_entry_exec(s, k) {
        Result::Ok((kv, e)) => {
            let ghost prev = fields@;
            let ghost kvg = kv;
            fields.push(kv);
            proof {
                lemma_obj_model_push(prev, kvg);
                assert(obj_model(prev) =~= Seq::<(Seq<char>, JsonModel)>::empty());
                assert(obj_model(fields@) =~= seq![(kvg.0@, kvg.1.model())]);
            }
            cur = e;
        },
        Result::Err(e) => {
            return Result::Err(e);
        },
    }
    loop
        invariant
            i < cur <= s@.len(),
            s@.len() < usize::MAX,
            read_obj(s@, i as int) == (match read_obj_rest(s@, cur as int) {
                Result::Ok(p) => Result::Ok::<(Seq<(Seq<char>, JsonModel)>, int), Seq<char>>(
                    (obj_model(fields@) + p.0, p.1),
                ),
                Result::Err(m) => Result::Err(m),
            }),
        decreases s@.len() - cur,
    {
        let k2 = skip_ws_exec(s, cur);
        if k2 >= s.len() {
            return Result::Err(syn_error("EOF while parsing an object", s, s.len()));
        }
        if s[k2] == '}' {
            proof {
                assert(obj_model(fields@) + Seq::<(Seq<char>, JsonModel)>::empty() =~= obj_model(
                    fields@,
                ));
            }
            return Result::Ok((fields, k2 + 1));
        }
        if s[k2] != ',' {
            return Result::Err(syn_error("expected `,` or `}`", s, k2 + 1));
        }
        let k3 = skip_ws_exec(s, k2 + 1);
        if k3 >= s.len() {
            return Result::Err(syn_error("EOF while parsing an object", s, s.len()));
        }
        if s[k3] != '"' {
            return Result::Err(syn_error("key must be a string", s, k3 + 1));
        }
        match read_entry_exec(s, k3) {
            Result::Ok((kv, e)) => {
                let ghost prev = fields@;
                let ghost kvg = kv;
                fields.push(kv);
                proof {
                    lemma_obj_model_push(prev, kvg);
                    match read_obj_rest(s@, e as int) {
                        Result::Ok(p) => {
                            assert(obj_model(prev) + (seq![(kvg.0@, kvg.1.model())] + p.0)
                                =~= obj_model(fields@) + p.0);
                        },
                        Result::Err(_) => {},
                    }
                }
                cur = e;
            },
            Result::Err(e) => {
                return Result::Err(e);
            },
        }
    }
}

/// Reads a complete wire text: one value, with nothing but
/// whitespace after it.
pub open spec fn read_text_spec(s: Seq<char>) -> Result<(JsonModel, int), Seq<char>> {
    match read_value(s, 0) {
        Result::Err(m) => Result::Err(m),
        Result::Ok((m, e)) => {
            let t = skip_ws(s, clamp_idx(e, 0, s.len() as int));
            if t < s.len() {
                Result::Err(syn_msg("trailing characters"@, s, t + 1))
            } else {
                Result::Ok((m, e))
            }
        },
    }
}

/// Reads a complete wire text from a character vector; on success the
/// returned index is where the value ended, for position reporting.
pub fn read_text_chars(s: &Vec<char>) -> (r: Result<(JsonValue, usize), DecodeError>)
    requires
        s@.len() < usize::MAX,
    ensures
        match r {
            Result::Ok(p) => read_text_spec(s@) matches Result::Ok(q) && q.0 == p.0@ && q.1 == p.1
                && p.1 <= s@.len(),
            Result::Err(e) => read_text_spec(s@) matches Result::Err(m) && e@ == m,
        },
{
    match read_value_exec(s, 0) {
        Result::Err(e) => Result::Err(e),
        Result::Ok((v, end)) => {
            let t = skip_ws_exec(s, end);
            if t < s.len() {
                Result::Err(syn_error("trailing characters", s, t + 1))
            } else {
                Result::Ok((v, end))
            }
        },
    }
}

/// Reads a complete wire text: the whole of `s` must be one value,
/// surrounded at most by whitespace.
pub fn read_text(s: &str) -> (r: Result<(JsonValue, usize), DecodeError>)
    requires
        s@.len() < usize::MAX,
    ensures
        match r {
            Result::Ok(p) => read_text_spec(s@) matches Result::Ok(q) && q.0 == p.0@ && q.1 == p.1
                && p.1 <= s@.len(),
            Result::Err(e) => read_text_spec(s@) matches Result::Err(m) && e@ == m,
        },
{
    let chars = crate::strutil::str_to_chars(s);
    read_text_chars(&chars)
}

} // verus!
