//! Small verified helpers for building the wire strings: appending
//! characters, decimal rendering of integers, and converting between
//! `&str` and `Vec<char>`.

use vstd::prelude::*;

verus! {

/// Relies on `String::push`: appends exactly one character to the string.
#[verifier::external_body]
pub fn push_char(s: &mut String, c: char)
    ensures
        final(s)@ == old(s)@.push(c),
{
    s.push(c);
}

/// Relies on `str`'s `PartialEq`: two string slices compare equal
/// exactly when they hold the same characters.
#[verifier::external_body]
pub fn str_eq(a: &str, b: &str) -> (r: bool)
    ensures
        r == (a@ == b@),
{
    a == b
}

/// The decimal digit character for `d` (0 through 9).
pub open spec fn dec_digit_char(d: int) -> char {
    if d == 0 {
        '0'
    } else if d == 1 {
        '1'
    } else if d == 2 {
        '2'
    } else if d == 3 {
        '3'
    } else if d == 4 {
        '4'
    } else if d == 5 {
        '5'
    } else if d == 6 {
        '6'
    } else if d == 7 {
        '7'
    } else if d == 8 {
        '8'
    } else {
        '9'
    }
}

/// The usual decimal rendering of `n`, most significant digit first,
/// with no leading zeros (`0` renders as `"0"`).
pub open spec fn dec_str_of(n: nat) -> Seq<char>
    decreases n,
{
    if n < 10 {
        seq![dec_digit_char(n as int)]
    } else {
        dec_str_of(n / 10) + seq![dec_digit_char((n % 10) as int)]
    }
}

fn dec_digit(d: u64) -> (c: char)
    requires
        d < 10,
    ensures
        c == dec_digit_char(d as int),
{
    if d == 0 {
        '0'
    } else if d == 1 {
        '1'
    } else if d == 2 {
        '2'
    } else if d == 3 {
        '3'
    } else if d == 4 {
        '4'
    } else if d == 5 {
        '5'
    } else if d == 6 {
        '6'
    } else if d == 7 {
        '7'
    } else if d == 8 {
        '8'
    } else {
        '9'
    }
}

/// Appends the decimal rendering of `n` to `out`.
pub fn write_dec_u64(n: u64, out: &mut String)
    ensures
        final(out)@ == old(out)@ + dec_str_of(n as nat),
{
    let mut digits: Vec<char> = Vec::new();
    let mut m: u64 = n;
    if m < 10 {
        digits.push(dec_digit(m));
    } else {
        while m >= 10
            invariant
                m >= 1,
                dec_str_of(n as nat) == dec_str_of(m as nat) + digits@.reverse(),
            decreases m,
        {
            proof {
                assert(digits@.push(dec_digit_char((m % 10) as int)).reverse() =~= seq![
                    dec_digit_char((m % 10) as int),
                ] + digits@.reverse());
                assert(dec_str_of(m as nat) == dec_str_of((m as nat) / 10) + seq![
                    dec_digit_char((m % 10) as int),
                ]);
                assert(dec_str_of((m as nat) / 10) + (seq![dec_digit_char((m % 10) as int)]
                    + digits@.reverse()) =~= (dec_str_of((m as nat) / 10) + seq![
                    dec_digit_char((m % 10) as int),
                ]) + digits@.reverse());
            }
            digits.push(dec_digit(m % 10));
            m = m / 10;
        }
        proof {
            assert(digits@.push(dec_digit_char(m as int)).reverse() =~= seq![
                dec_digit_char(m as int),
            ] + digits@.reverse());
            assert(dec_str_of(m as nat) == seq![dec_digit_char(m as int)]);
        }
        digits.push(dec_digit(m));
    }
    let mut i: usize = digits.len();
    proof {
        assert(digits@.reverse() =~= dec_str_of(n as nat));
        assert(digits@.skip(i as int) =~= Seq::<char>::empty());
    }
    while i > 0
        invariant
            i <= digits.len(),
            out@ == old(out)@ + digits@.skip(i as int).reverse(),
        decreases i,
    {
        i = i - 1;
        proof {
            assert(digits@.skip(i as int) =~= seq![digits@[i as int]] + digits@.skip(i as int + 1));
            assert(digits@.skip(i as int).reverse() =~= digits@.skip(i as int + 1).reverse().push(
                digits@[i as int],
            ));
        }
        push_char(out, digits[i]);
    }
    proof {
        assert(digits@.skip(0).reverse() =~= digits@.reverse());
    }
}

/// The characters of `s`, as an indexable vector.
pub fn str_to_chars(s: &str) -> (r: Vec<char>)
    ensures
        r@ == s@,
{
    let mut r: Vec<char> = Vec::new();
    for c in it: s.chars()
        invariant
            it.seq() == s@,
            r@ == it.seq().take(it.index() as int),
    {
        r.push(c);
        proof {
            assert(it.seq().take(it.index() as int + 1) =~= it.seq().take(it.index() as int).push(
                it.seq()[it.index() as int],
            ));
        }
    }
    proof {
        assert(s@.take(s@.len() as int) =~= s@);
    }
    r
}

/// Concatenation of sequences associates.
pub proof fn lemma_seq_assoc<T>(a: Seq<T>, b: Seq<T>, c: Seq<T>)
    ensures
        (a + b) + c == a + (b + c),
{
    assert((a + b) + c =~= a + (b + c));
}

/// The empty sequence is a right identity for concatenation.
pub proof fn lemma_seq_add_empty<T>(a: Seq<T>)
    ensures
        a + Seq::<T>::empty() == a,
{
    assert(a + Seq::<T>::empty() =~= a);
}

} // verus!
