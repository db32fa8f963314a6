//! Text positions and whitespace for the wire reader: line and
//! column accounting, the position suffix that every reader message
//! carries, and whitespace skipping.

use crate::error::DecodeError;
use crate::strutil::{dec_str_of, write_dec_u64};
use vstd::prelude::*;
use vstd::string::StringExecFns;

verus! {


/// The four whitespace characters the wire grammar skips.
pub open spec fn is_ws_char(c: char) -> bool {
    c == ' ' || c == '\t' || c == '\n' || c == '\r'
}

pub(crate) fn is_ws(c: char) -> (r: bool)
    ensures
        r == is_ws_char(c),
{
    c == ' ' || c == '\t' || c == '\n' || c == '\r'
}

/// Index of the first non-whitespace character at or after `i`.
pub open spec fn skip_ws(s: Seq<char>, i: int) -> int
    decreases s.len() - i,
{
    if 0 <= i < s.len() && is_ws_char(s[i]) {
        skip_ws(s, i + 1)
    } else {
        i
    }
}

pub broadcast proof fn lemma_skip_ws_bounds(s: Seq<char>, i: int)
    requires
        0 <= i <= s.len(),
    ensures
        i <= #[trigger] skip_ws(s, i) <= s.len(),
    decreases s.len() - i,
{
    if i < s.len() && is_ws_char(s[i]) {
        lemma_skip_ws_bounds(s, i + 1);
    }
}

pub(crate) fn skip_ws_exec(s: &Vec<char>, i: usize) -> (r: usize)
    requires
        i <= s@.len(),
    ensures
        r == skip_ws(s@, i as int),
        i <= r <= s@.len(),
{
    let mut k = i;
    while k < s.len() && is_ws(s[k])
        invariant
            i <= k <= s@.len(),
            skip_ws(s@, i as int) == skip_ws(s@, k as int),
        decreases s@.len() - k,
    {
        k = k + 1;
    }
    k
}

/// One-based line number of position `p`: one more than the count of
/// newlines before it.
pub open spec fn line_of(s: Seq<char>, p: int) -> int
    decreases p,
{
    if p <= 0 {
        1
    } else if s[p - 1] == '\n' {
        line_of(s, p - 1) + 1
    } else {
        line_of(s, p - 1)
    }
}

/// Column of position `p`: the count of characters consumed since the
/// last newline.
pub open spec fn col_of(s: Seq<char>, p: int) -> int
    decreases p,
{
    if p <= 0 {
        0
    } else if s[p - 1] == '\n' {
        0
    } else {
        col_of(s, p - 1) + 1
    }
}

proof fn lemma_pos_bounds(s: Seq<char>, p: int)
    requires
        0 <= p,
    ensures
        1 <= line_of(s, p) <= p + 1,
        0 <= col_of(s, p) <= p,
    decreases p,
{
    if p > 0 {
        lemma_pos_bounds(s, p - 1);
    }
}

/// The position suffix appended to every message produced while
/// reading text.
pub open spec fn pos_suffix(s: Seq<char>, p: int) -> Seq<char> {
    " at line "@ + dec_str_of(line_of(s, p) as nat) + " column "@ + dec_str_of(
        col_of(s, p) as nat,
    )
}

/// A reader message: its text followed by the position suffix.
pub open spec fn syn_msg(lit: Seq<char>, s: Seq<char>, p: int) -> Seq<char> {
    lit + pos_suffix(s, p)
}

pub(crate) fn pos_parts(s: &Vec<char>, p: usize) -> (r: (u64, u64))
    requires
        p <= s@.len(),
        s@.len() < usize::MAX,
    ensures
        r.0 == line_of(s@, p as int),
        r.1 == col_of(s@, p as int),
{
    let mut line: u64 = 1;
    let mut col: u64 = 0;
    for i in 0..p
        invariant
            p <= s@.len(),
            s@.len() < usize::MAX,
            line == line_of(s@, i as int),
            col == col_of(s@, i as int),
            1 <= line <= i + 1,
            col <= i,
    {
        if s[i] == '\n' {
            line = line + 1;
            col = 0;
        } else {
            col = col + 1;
        }
    }
    (line, col)
}

/// Appends `base` and the position suffix for `p` into one message.
pub(crate) fn syn_error(lit: &str, s: &Vec<char>, p: usize) -> (r: DecodeError)
    requires
        p <= s@.len(),
        s@.len() < usize::MAX,
    ensures
        r@ == syn_msg(lit@, s@, p as int),
{
    let (line, col) = pos_parts(s, p);
    let mut m = String::new();
    m.append(lit);
    m.append(" at line ");
    write_dec_u64(line, &mut m);
    m.append(" column ");
    write_dec_u64(col, &mut m);
    proof {
        assert(m@ =~= syn_msg(lit@, s@, p as int));
    }
    DecodeError::new(m)
}

/// Attaches the reader's position suffix to a decode message.
pub fn with_pos_suffix(base: DecodeError, s: &Vec<char>, p: usize) -> (r: DecodeError)
    requires
        p <= s@.len(),
        s@.len() < usize::MAX,
    ensures
        r@ == base@ + pos_suffix(s@, p as int),
{
    let (line, col) = pos_parts(s, p);
    let mut m = String::new();
    m.append(base.message());
    m.append(" at line ");
    write_dec_u64(line, &mut m);
    m.append(" column ");
    write_dec_u64(col, &mut m);
    proof {
        assert(m@ =~= base@ + pos_suffix(s@, p as int));
    }
    DecodeError::new(m)
}

/// Numeric value of a hexadecimal digit, or 16 for any other character.
pub open spec fn hex_val_char(c: char) -> int {
    if c == '0' {
        0
    } else if c == '1' {
        1
    } else if c == '2' {
        2
    } else if c == '3' {
        3
    } else if c == '4' {
        4
    } else if c == '5' {
        5
    } else if c == '6' {
        6
    } else if c == '7' {
        7
    } else if c == '8' {
        8
    } else if c == '9' {
        9
    } else if c == 'a' || c == 'A' {
        10
    } else if c == 'b' || c == 'B' {
        11
    } else if c == 'c' || c == 'C' {
        12
    } else if c == 'd' || c == 'D' {
        13
    } else if c == 'e' || c == 'E' {
        14
    } else if c == 'f' || c == 'F' {
        15
    } else {
        16
    }
}

pub(crate) fn hex_val(c: char) -> (r: u32)
    ensures
        r == hex_val_char(c),
{
    if c == '0' {
        0
    } else if c == '1' {
        1
    } else if c == '2' {
        2
    } else if c == '3' {
        3
    } else if c == '4' {
        4
    } else if c == '5' {
        5
    } else if c == '6' {
        6
    } else if c == '7' {
        7
    } else if c == '8' {
        8
    } else if c == '9' {
        9
    } else if c == 'a' || c == 'A' {
        10
    } else if c == 'b' || c == 'B' {
        11
    } else if c == 'c' || c == 'C' {
        12
    } else if c == 'd' || c == 'D' {
        13
    } else if c == 'e' || c == 'E' {
        14
    } else if c == 'f' || c == 'F' {
        15
    } else {
        16
    }
}

/// An index clamped into `[lo, hi]`; the reader uses it so that the
/// position after a sub-read is always a sound place to continue.
pub open spec fn clamp_idx(e: int, lo: int, hi: int) -> int {
    if lo > hi {
        hi
    } else if e < lo {
        lo
    } else if e > hi {
        hi
    } else {
        e
    }
}

/// Index of the first non-digit character at or after `i`.
pub open spec fn digits_end(s: Seq<char>, i: int) -> int
    decreases s.len() - i,
{
    if 0 <= i < s.len() && hex_val_char(s[i]) < 10 {
        digits_end(s, i + 1)
    } else {
        i
    }
}

pub broadcast proof fn lemma_digits_end_bounds(s: Seq<char>, i: int)
    requires
        0 <= i <= s.len(),
    ensures
        i <= #[trigger] digits_end(s, i) <= s.len(),
        forall|k: int| i <= k < digits_end(s, i) ==> hex_val_char(#[trigger] s[k]) < 10,
    decreases s.len() - i,
{
    if i < s.len() && hex_val_char(s[i]) < 10 {
        lemma_digits_end_bounds(s, i + 1);
    }
}

/// Value of the digit run `s[j..e]`, most significant digit first.
pub open spec fn dec_val(s: Seq<char>, j: int, e: int) -> int
    decreases e - j,
{
    if e <= j {
        0
    } else {
        dec_val(s, j, e - 1) * 10 + hex_val_char(s[e - 1])
    }
}

/// Ten to the `k`.
pub open spec fn pow10(k: nat) -> nat
    decreases k,
{
    if k == 0 {
        1nat
    } else {
        10 * pow10((k - 1) as nat)
    }
}

pub proof fn lemma_dec_val_bound(s: Seq<char>, j: int, e: int)
    requires
        j <= e,
        forall|k: int| j <= k < e ==> hex_val_char(#[trigger] s[k]) < 10,
    ensures
        0 <= dec_val(s, j, e) < pow10((e - j) as nat),
    decreases e - j,
{
    if e > j {
        lemma_dec_val_bound(s, j, e - 1);
    }
}

pub proof fn lemma_pow10_mono(a: nat, b: nat)
    requires
        a <= b,
    ensures
        pow10(a) <= pow10(b),
    decreases b,
{
    if a < b {
        lemma_pow10_mono(a, (b - 1) as nat);
    }
}

pub proof fn lemma_pow10_19_value()
    ensures
        pow10(19) == 10000000000000000000,
{
    reveal_with_fuel(pow10, 21);
}

} // verus!
