//! The decode error type and the exact texts of its messages.
//!
//! The message formats follow the remote protocol's established
//! conventions: a shape mismatch names the offered shape and the
//! expected one; a closed enumeration rejects an unknown literal by
//! naming the enumeration and echoing the literal.

use crate::json::{JsonModel, JsonValue};
use crate::strutil::{dec_str_of, write_dec_u64};
use vstd::prelude::*;
use vstd::string::StringExecFns;

verus! {

/// Error produced when a wire value's shape or content does not match
/// any accepted case of the field being decoded.
///
/// The message names the accepted shapes and echoes the offending
/// value; callers surface it unchanged.
#[derive(Debug, Clone)]
pub struct DecodeError {
    message: String,
}

impl View for DecodeError {
    type V = Seq<char>;

    closed spec fn view(&self) -> Seq<char> {
        self.message@
    }
}

impl DecodeError {
    pub fn new(message: String) -> (r: DecodeError)
        ensures
            r@ == message@,
    {
        DecodeError { message }
    }

    /// The human-readable description of the failure.
    pub fn message(&self) -> (r: &str)
        ensures
            r@ == self@,
    {
        self.message.as_str()
    }
}

/// How a wire value is described when it has the wrong shape:
/// its token category, echoing the value itself for scalars.
pub open spec fn unexpected_desc(m: JsonModel) -> Seq<char> {
    match m {
        JsonModel::Null => "null"@,
        JsonModel::Bool(b) => if b {
            "boolean `true`"@
        } else {
            "boolean `false`"@
        },
        JsonModel::Num(n) => "integer `"@ + dec_str_of(n as nat) + "`"@,
        JsonModel::Str(s) => "string \""@ + s + "\""@,
        JsonModel::Arr(_) => "sequence"@,
        JsonModel::Obj(_) => "map"@,
    }
}

/// The message for a value of the wrong shape: names the shape that
/// was found and the description of what was expected.
pub open spec fn invalid_type_msg(m: JsonModel, expecting: Seq<char>) -> Seq<char> {
    "invalid type: "@ + unexpected_desc(m) + ", expected "@ + expecting
}

/// The message for an unknown literal of a closed string enumeration:
/// names the enumeration and echoes the rejected literal.
pub open spec fn unknown_variant_msg(enum_name: Seq<char>, got: Seq<char>) -> Seq<char> {
    "invalid value: unknown "@ + enum_name + " variant: "@ + got + ", expected a string for "@
        + enum_name
}

fn write_unexpected_desc(v: &JsonValue, out: &mut String)
    ensures
        final(out)@ == old(out)@ + unexpected_desc(v@),
{
    match v {
        JsonValue::Null => {
            out.append("null");
        },
        JsonValue::Bool(b) => {
            if *b {
                out.append("boolean `true`");
            } else {
                out.append("boolean `false`");
            }
        },
        JsonValue::Num(n) => {
            out.append("integer `");
            write_dec_u64(*n, out);
            out.append("`");
            proof {
                assert(final(out)@ =~= old(out)@ + unexpected_desc(v@));
            }
        },
        JsonValue::Str(s) => {
            out.append("string \"");
            out.append(s.as_str());
            out.append("\"");
            proof {
                assert(final(out)@ =~= old(out)@ + unexpected_desc(v@));
            }
        },
        JsonValue::Arr(_) => {
            out.append("sequence");
        },
        JsonValue::Obj(_) => {
            out.append("map");
        },
    }
}

/// The error for a value of the wrong shape.
pub fn invalid_type_error(v: &JsonValue, expecting: &str) -> (r: DecodeError)
    ensures
        r@ == invalid_type_msg(v@, expecting@),
{
    let mut m = String::new();
    m.append("invalid type: ");
    write_unexpected_desc(v, &mut m);
    m.append(", expected ");
    m.append(expecting);
    proof {
        assert(m@ =~= invalid_type_msg(v@, expecting@));
    }
    DecodeError::new(m)
}

/// The message refusing an integer outside a closed integer
/// enumeration's accepted range.
pub open spec fn out_of_range_msg(n: u64, accepted: Seq<char>) -> Seq<char> {
    "invalid value: integer `"@ + dec_str_of(n as nat) + "`, expected one of: "@ + accepted
}

/// The error for an integer outside the accepted range.
pub fn out_of_range_error(n: u64, accepted: &str) -> (r: DecodeError)
    ensures
        r@ == out_of_range_msg(n, accepted@),
{
    let mut m = String::new();
    m.append("invalid value: integer `");
    write_dec_u64(n, &mut m);
    m.append("`, expected one of: ");
    m.append(accepted);
    proof {
        assert(m@ =~= out_of_range_msg(n, accepted@));
    }
    DecodeError::new(m)
}

/// The message for a required field that the object does not hold.
pub open spec fn missing_field_msg(name: Seq<char>) -> Seq<char> {
    "missing field `"@ + name + "`"@
}

/// The error for a required field that the object does not hold.
pub fn missing_field_error(name: &str) -> (r: DecodeError)
    ensures
        r@ == missing_field_msg(name@),
{
    let mut m = String::new();
    m.append("missing field `");
    m.append(name);
    m.append("`");
    proof {
        assert(m@ =~= missing_field_msg(name@));
    }
    DecodeError::new(m)
}

/// The message for a date-time text the calendar library refuses.
pub open spec fn bad_datetime_msg(s: Seq<char>) -> Seq<char> {
    "invalid RFC 3339 date-time: \""@ + s + "\""@
}

/// The error for a date-time text the calendar library refuses.
pub fn bad_datetime_error(s: &str) -> (r: DecodeError)
    ensures
        r@ == bad_datetime_msg(s@),
{
    let mut m = String::new();
    m.append("invalid RFC 3339 date-time: \"");
    m.append(s);
    m.append("\"");
    proof {
        assert(m@ =~= bad_datetime_msg(s@));
    }
    DecodeError::new(m)
}

/// The error for an unknown literal of a closed string enumeration.
pub fn unknown_variant_error(enum_name: &str, got: &str) -> (r: DecodeError)
    ensures
        r@ == unknown_variant_msg(enum_name@, got@),
{
    let mut m = String::new();
    m.append("invalid value: unknown ");
    m.append(enum_name);
    m.append(" variant: ");
    m.append(got);
    m.append(", expected a string for ");
    m.append(enum_name);
    proof {
        assert(m@ =~= unknown_variant_msg(enum_name@, got@));
    }
    DecodeError::new(m)
}

} // verus!
