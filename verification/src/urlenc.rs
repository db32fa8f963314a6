//! The parameter string: form-urlencoding of key=value pairs, as the
//! search endpoint expects them inside its JSON envelope.
//!
//! A byte passes unchanged when it is a letter, a digit or one of
//! `*-._`; a space becomes `+`; every other byte of the character's
//! UTF-8 form becomes `%` and two uppercase hexadecimal digits.

use crate::strutil::push_char;
use vstd::prelude::*;
use vstd::string::StringExecFns;

verus! {

/// Bytes that stand for themselves in a form-urlencoded string.
pub open spec fn is_unreserved_byte(b: u8) -> bool {
    b == 0x2A || b == 0x2D || b == 0x2E || (0x30 <= b <= 0x39) || (0x41 <= b <= 0x5A) || b == 0x5F
        || (0x61 <= b <= 0x7A)
}

/// The uppercase hexadecimal digit character for `d` (0 through 15).
pub open spec fn hex_upper_char(d: int) -> char {
    if d == 0 {
        '0'
    } else if d == 1 {
        '1'
    } else if d == 2 {
        '2'
    } else if d == 3 {
        '3'
    } else if d == 4 {
        '4'
    } else if d == 5 {
        '5'
    } else if d == 6 {
        '6'
    } else if d == 7 {
        '7'
    } else if d == 8 {
        '8'
    } else if d == 9 {
        '9'
    } else if d == 10 {
        'A'
    } else if d == 11 {
        'B'
    } else if d == 12 {
        'C'
    } else if d == 13 {
        'D'
    } else if d == 14 {
        'E'
    } else {
        'F'
    }
}

/// How one byte is written in a form-urlencoded string.
pub open spec fn form_byte(b: u8) -> Seq<char> {
    if b == 0x20 {
        seq!['+']
    } else if is_unreserved_byte(b) {
        seq![b as char]
    } else {
        seq!['%', hex_upper_char(b as int / 16), hex_upper_char(b as int % 16)]
    }
}

/// The UTF-8 bytes of one character.
pub open spec fn char_utf8(c: char) -> Seq<u8> {
    let u = c as u32;
    if u < 0x80 {
        seq![u as u8]
    } else if u < 0x800 {
        seq![(0xC0 + u / 64) as u8, (0x80 + u % 64) as u8]
    } else if u < 0x10000 {
        seq![(0xE0 + u / 4096) as u8, (0x80 + (u / 64) % 64) as u8, (0x80 + u % 64) as u8]
    } else {
        seq![(0xF0 + u / 262144) as u8, (0x80 + (u / 4096) % 64) as u8, (0x80 + (u / 64)
            % 64) as u8, (0x80 + u % 64) as u8]
    }
}

/// The form-urlencoded rendering of a byte sequence.
pub open spec fn form_bytes(bs: Seq<u8>) -> Seq<char>
    decreases bs,
{
    if bs.len() == 0 {
        Seq::empty()
    } else {
        form_byte(bs[0]) + form_bytes(bs.drop_first())
    }
}

/// The UTF-8 bytes of a character sequence.
pub open spec fn utf8_of(s: Seq<char>) -> Seq<u8>
    decreases s,
{
    if s.len() == 0 {
        Seq::empty()
    } else {
        char_utf8(s[0]) + utf8_of(s.drop_first())
    }
}

/// The form-urlencoded rendering of a character sequence.
pub open spec fn form_escape(s: Seq<char>) -> Seq<char> {
    form_bytes(utf8_of(s))
}

pub proof fn lemma_form_bytes_concat(a: Seq<u8>, b: Seq<u8>)
    ensures
        form_bytes(a + b) == form_bytes(a) + form_bytes(b),
    decreases a,
{
    if a.len() == 0 {
        assert(a + b =~= b);
        assert(form_bytes(a) =~= Seq::<char>::empty());
        assert(form_bytes(a) + form_bytes(b) =~= form_bytes(b));
    } else {
        assert((a + b).drop_first() =~= a.drop_first() + b);
        assert((a + b)[0] == a[0]);
        assert((a + b).len() > 0);
        lemma_form_bytes_concat(a.drop_first(), b);
        assert(form_bytes(a + b) =~= form_bytes(a) + form_bytes(b));
    }
}

pub proof fn lemma_utf8_push(s: Seq<char>, c: char)
    ensures
        utf8_of(s.push(c)) == utf8_of(s) + char_utf8(c),
    decreases s,
{
    if s.len() == 0 {
        assert(s.push(c) =~= seq![c]);
        assert(seq![c].drop_first() =~= Seq::<char>::empty());
        assert(utf8_of(Seq::<char>::empty()) =~= Seq::<u8>::empty());
        assert(utf8_of(s.push(c)) =~= char_utf8(c) + utf8_of(Seq::<char>::empty()));
        assert(utf8_of(s.push(c)) =~= utf8_of(s) + char_utf8(c));
    } else {
        assert(s.push(c).drop_first() =~= s.drop_first().push(c));
        lemma_utf8_push(s.drop_first(), c);
        assert(utf8_of(s.push(c)) =~= utf8_of(s) + char_utf8(c));
    }
}

/// One character's contribution to the form-urlencoded rendering.
pub proof fn lemma_form_escape_push(s: Seq<char>, c: char)
    ensures
        form_escape(s.push(c)) == form_escape(s) + form_bytes(char_utf8(c)),
{
    lemma_utf8_push(s, c);
    lemma_form_bytes_concat(utf8_of(s), char_utf8(c));
}

fn hex_upper(d: u32) -> (c: char)
    requires
        d < 16,
    ensures
        c == hex_upper_char(d as int),
{
    if d == 0 {
        '0'
    } else if d == 1 {
        '1'
    } else if d == 2 {
        '2'
    } else if d == 3 {
        '3'
    } else if d == 4 {
        '4'
    } else if d == 5 {
        '5'
    } else if d == 6 {
        '6'
    } else if d == 7 {
        '7'
    } else if d == 8 {
        '8'
    } else if d == 9 {
        '9'
    } else if d == 10 {
        'A'
    } else if d == 11 {
        'B'
    } else if d == 12 {
        'C'
    } else if d == 13 {
        'D'
    } else if d == 14 {
        'E'
    } else {
        'F'
    }
}

fn is_unreserved(b: u8) -> (r: bool)
    ensures
        r == is_unreserved_byte(b),
{
    b == 0x2A || b == 0x2D || b == 0x2E || (0x30 <= b && b <= 0x39) || (0x41 <= b && b <= 0x5A)
        || b == 0x5F || (0x61 <= b && b <= 0x7A)
}

fn write_form_byte(b: u8, out: &mut String)
    ensures
        final(out)@ == old(out)@ + form_byte(b),
{
    if b == 0x20 {
        push_char(out, '+');
    } else if is_unreserved(b) {
        push_char(out, b as char);
    } else {
        push_char(out, '%');
        push_char(out, hex_upper(b as u32 / 16));
        push_char(out, hex_upper(b as u32 % 16));
        proof {
            assert(final(out)@ =~= old(out)@ + form_byte(b));
        }
    }
}

fn write_form_char(c: char, out: &mut String)
    ensures
        final(out)@ == old(out)@ + form_bytes(char_utf8(c)),
{
    let u = c as u32;
    if u < 0x80 {
        write_form_byte(u as u8, out);
        proof {
            assert(char_utf8(c) =~= seq![u as u8]);
            assert(seq![u as u8].drop_first() =~= Seq::<u8>::empty());
            assert(form_bytes(Seq::<u8>::empty()) =~= Seq::<char>::empty());
            assert(form_bytes(seq![u as u8]) =~= form_byte(u as u8));
            assert(final(out)@ =~= old(out)@ + form_bytes(char_utf8(c)));
        }
    } else if u < 0x800 {
        let b0: u8 = (0xC0 + u / 64) as u8;
        let b1: u8 = (0x80 + u % 64) as u8;
        write_form_byte(b0, out);
        write_form_byte(b1, out);
        proof {
            assert(char_utf8(c) =~= seq![b0, b1]);
            assert(seq![b0, b1].drop_first() =~= seq![b1]);
            assert(seq![b1].drop_first() =~= Seq::<u8>::empty());
            assert(form_bytes(Seq::<u8>::empty()) =~= Seq::<char>::empty());
            assert(form_bytes(seq![b1]) =~= form_byte(b1));
            assert(form_bytes(seq![b0, b1]) =~= form_byte(b0) + form_bytes(seq![b1]));
            assert(final(out)@ =~= old(out)@ + form_bytes(char_utf8(c)));
        }
    } else if u < 0x10000 {
        let b0: u8 = (0xE0 + u / 4096) as u8;
        let b1: u8 = (0x80 + (u / 64) % 64) as u8;
        let b2: u8 = (0x80 + u % 64) as u8;
        write_form_byte(b0, out);
        write_form_byte(b1, out);
        write_form_byte(b2, out);
        proof {
            assert(char_utf8(c) =~= seq![b0, b1, b2]);
            assert(seq![b0, b1, b2].drop_first() =~= seq![b1, b2]);
            assert(seq![b1, b2].drop_first() =~= seq![b2]);
            assert(seq![b2].drop_first() =~= Seq::<u8>::empty());
            assert(form_bytes(Seq::<u8>::empty()) =~= Seq::<char>::empty());
            assert(form_bytes(seq![b2]) =~= form_byte(b2));
            assert(form_bytes(seq![b1, b2]) =~= form_byte(b1) + form_bytes(seq![b2]));
            assert(form_bytes(seq![b0, b1, b2]) =~= form_byte(b0) + form_bytes(seq![b1, b2]));
            assert(final(out)@ =~= old(out)@ + form_bytes(char_utf8(c)));
        }
    } else {
        let b0: u8 = (0xF0 + u / 262144) as u8;
        let b1: u8 = (0x80 + (u / 4096) % 64) as u8;
        let b2: u8 = (0x80 + (u / 64) % 64) as u8;
        let b3: u8 = (0x80 + u % 64) as u8;
        write_form_byte(b0, out);
        write_form_byte(b1, out);
        write_form_byte(b2, out);
        write_form_byte(b3, out);
        proof {
            assert(char_utf8(c) =~= seq![b0, b1, b2, b3]);
            assert(seq![b0, b1, b2, b3].drop_first() =~= seq![b1, b2, b3]);
            assert(seq![b1, b2, b3].drop_first() =~= seq![b2, b3]);
            assert(seq![b2, b3].drop_first() =~= seq![b3]);
            assert(seq![b3].drop_first() =~= Seq::<u8>::empty());
            assert(form_bytes(Seq::<u8>::empty()) =~= Seq::<char>::empty());
            assert(form_bytes(seq![b3]) =~= form_byte(b3));
            assert(form_bytes(seq![b2, b3]) =~= form_byte(b2) + form_bytes(seq![b3]));
            assert(form_bytes(seq![b1, b2, b3]) =~= form_byte(b1) + form_bytes(seq![b2, b3]));
            assert(form_bytes(seq![b0, b1, b2, b3]) =~= form_byte(b0) + form_bytes(
                seq![b1, b2, b3],
            ));
            assert(final(out)@ =~= old(out)@ + form_bytes(char_utf8(c)));
        }
    }
}

/// Appends the form-urlencoded rendering of `s` to `out`.
pub fn write_form_escaped(s: &str, out: &mut String)
    ensures
        final(out)@ == old(out)@ + form_escape(s@),
{
    proof {
        assert(s@.take(0) =~= Seq::<char>::empty());
        assert(utf8_of(Seq::<char>::empty()) =~= Seq::<u8>::empty());
        assert(old(out)@ + form_escape(s@.take(0)) =~= old(out)@);
    }
    for c in it: s.chars()
        invariant
            it.seq() == s@,
            out@ == old(out)@ + form_escape(it.seq().take(it.index() as int)),
    {
        proof {
            assert(it.seq().take(it.index() as int + 1) =~= it.seq().take(
                it.index() as int,
            ).push(it.seq()[it.index() as int]));
            lemma_form_escape_push(it.seq().take(it.index() as int), it.seq()[it.index() as int]);
        }
        write_form_char(c, out);
        proof {
            assert(out@ =~= old(out)@ + form_escape(it.seq().take(it.index() as int + 1)));
        }
    }
    proof {
        assert(s@.take(s@.len() as int) =~= s@);
    }
}


/// Model of an exec pair list: each string as its characters.
pub open spec fn pairs_model(s: Seq<(String, String)>) -> Seq<(Seq<char>, Seq<char>)>
    decreases s,
{
    if s.len() == 0 {
        Seq::empty()
    } else {
        seq![(s[0].0@, s[0].1@)] + pairs_model(s.drop_first())
    }
}

pub broadcast proof fn lemma_pairs_model_len(s: Seq<(String, String)>)
    ensures
        (#[trigger] pairs_model(s)).len() == s.len(),
    decreases s,
{
    if s.len() > 0 {
        lemma_pairs_model_len(s.drop_first());
    }
}

pub broadcast proof fn lemma_pairs_model_index(s: Seq<(String, String)>, i: int)
    requires
        0 <= i < s.len(),
    ensures
        #[trigger] pairs_model(s)[i] == (s[i].0@, s[i].1@),
    decreases s,
{
    lemma_pairs_model_len(s);
    if i > 0 {
        lemma_pairs_model_index(s.drop_first(), i - 1);
    }
}

pub proof fn lemma_pairs_model_push(s: Seq<(String, String)>, kv: (String, String))
    ensures
        pairs_model(s.push(kv)) == pairs_model(s) + seq![(kv.0@, kv.1@)],
    decreases s,
{
    if s.len() == 0 {
        assert(s.push(kv) =~= seq![kv]);
        assert(seq![kv].drop_first() =~= Seq::<(String, String)>::empty());
        assert(pairs_model(Seq::<(String, String)>::empty()) =~= Seq::<
            (Seq<char>, Seq<char>),
        >::empty());
        assert(pairs_model(s.push(kv)) =~= seq![(kv.0@, kv.1@)] + pairs_model(
            Seq::<(String, String)>::empty(),
        ));
        assert(pairs_model(s.push(kv)) =~= pairs_model(s) + seq![(kv.0@, kv.1@)]);
    } else {
        assert(s.push(kv).drop_first() =~= s.drop_first().push(kv));
        lemma_pairs_model_push(s.drop_first(), kv);
        assert(pairs_model(s.push(kv)) =~= pairs_model(s) + seq![(kv.0@, kv.1@)]);
    }
}


/// Holds when every character of `s` is unreserved ASCII: such text
/// passes through the form-urlencoding unchanged.
pub open spec fn all_unreserved(s: Seq<char>) -> bool {
    forall|i: int|
        0 <= i < s.len() ==> ((#[trigger] s[i]) as u32) < 0x80 && is_unreserved_byte(
            ((s[i] as u32) as u8),
        )
}

/// Unreserved ASCII text is its own form-urlencoded rendering.
pub proof fn lemma_form_escape_unreserved(s: Seq<char>)
    requires
        all_unreserved(s),
    ensures
        form_escape(s) == s,
    decreases s.len(),
{
    if s.len() == 0 {
        assert(utf8_of(s) =~= Seq::<u8>::empty());
        assert(form_escape(s) =~= s);
    } else {
        let c = s[0];
        let b = ((c as u32) as u8);
        assert(char_utf8(c) =~= seq![b]);
        lemma_form_bytes_concat(char_utf8(c), utf8_of(s.drop_first()));
        assert(utf8_of(s) == char_utf8(c) + utf8_of(s.drop_first()));
        assert(seq![b].drop_first() =~= Seq::<u8>::empty());
        assert(form_bytes(Seq::<u8>::empty()) =~= Seq::<char>::empty());
        assert(form_bytes(seq![b]) =~= form_byte(b));
        assert(b != 0x20);
        assert(form_byte(b) =~= seq![b as char]);
        vstd::utf8::char_u32_cast(c, c as u32);
        assert(((c as u32) as char) == c);
        assert(b as char == c);
        assert forall|i: int| 0 <= i < s.drop_first().len() implies ((
        #[trigger] s.drop_first()[i]) as u32) < 0x80 && is_unreserved_byte(
            ((s.drop_first()[i] as u32) as u8),
        ) by {
            assert(s.drop_first()[i] == s[i + 1]);
        }
        lemma_form_escape_unreserved(s.drop_first());
        assert(form_escape(s) =~= seq![c] + s.drop_first());
        assert(seq![c] + s.drop_first() =~= s);
    }
}

/// The form-urlencoded parameter string for a list of pairs: each
/// pair as `key=value`, pairs joined by `&`, keys and values escaped.
pub open spec fn params_of(pairs: Seq<(Seq<char>, Seq<char>)>) -> Seq<char>
    decreases pairs,
{
    if pairs.len() == 0 {
        Seq::empty()
    } else {
        pair_text(pairs[0]) + params_rest(pairs.drop_first())
    }
}

/// The continuation of a parameter string: each pair preceded by `&`.
pub open spec fn params_rest(pairs: Seq<(Seq<char>, Seq<char>)>) -> Seq<char>
    decreases pairs,
{
    if pairs.len() == 0 {
        Seq::empty()
    } else {
        seq!['&'] + pair_text(pairs[0]) + params_rest(pairs.drop_first())
    }
}

/// One pair's text: escaped key, `=`, escaped value.
pub open spec fn pair_text(kv: (Seq<char>, Seq<char>)) -> Seq<char> {
    form_escape(kv.0) + seq!['='] + form_escape(kv.1)
}

fn write_pair(kv: &(String, String), out: &mut String)
    ensures
        final(out)@ == old(out)@ + pair_text((kv.0@, kv.1@)),
{
    write_form_escaped(kv.0.as_str(), out);
    push_char(out, '=');
    write_form_escaped(kv.1.as_str(), out);
    proof {
        assert(final(out)@ =~= old(out)@ + pair_text((kv.0@, kv.1@)));
    }
}

/// The complete parameter string for `pairs`.
pub fn params_string(pairs: &Vec<(String, String)>) -> (r: String)
    ensures
        r@ == params_of(pairs_model(pairs@)),
{
    broadcast use lemma_pairs_model_len, lemma_pairs_model_index;

    let mut out = String::new();
    let n = pairs.len();
    if n == 0 {
        proof {
            lemma_pairs_model_len(pairs@);
            assert(params_of(pairs_model(pairs@)) =~= Seq::<char>::empty());
        }
        return out;
    }
    write_pair(&pairs[0], &mut out);
    proof {
        lemma_pairs_model_len(pairs@);
        lemma_pairs_model_index(pairs@, 0);
        assert(params_rest_prefix(pairs_model(pairs@), 1) =~= Seq::<char>::empty());
    }
    for i in 1..n
        invariant
            n == pairs@.len(),
            1 <= i <= n,
            out@ == pair_text(pairs_model(pairs@)[0]) + params_rest_prefix(
                pairs_model(pairs@),
                i as int,
            ),
    {
        push_char(&mut out, '&');
        write_pair(&pairs[i], &mut out);
        proof {
            lemma_pairs_model_len(pairs@);
            lemma_pairs_model_index(pairs@, i as int);
            lemma_params_rest_prefix_step(pairs_model(pairs@), i as int);
            assert(out@ =~= pair_text(pairs_model(pairs@)[0]) + params_rest_prefix(
                pairs_model(pairs@),
                i as int + 1,
            ));
        }
    }
    proof {
        lemma_pairs_model_len(pairs@);
        lemma_pairs_model_index(pairs@, 0);
        lemma_params_rest_prefix_full(pairs_model(pairs@));
        assert(out@ =~= params_of(pairs_model(pairs@)));
    }
    out
}


/// The text of pairs `1..i`, each preceded by `&`.
pub open spec fn params_rest_prefix(pairs: Seq<(Seq<char>, Seq<char>)>, i: int) -> Seq<char>
    decreases i,
{
    if i <= 1 {
        Seq::empty()
    } else {
        params_rest_prefix(pairs, i - 1) + seq!['&'] + pair_text(pairs[i - 1])
    }
}

proof fn lemma_params_rest_prefix_step(pairs: Seq<(Seq<char>, Seq<char>)>, i: int)
    requires
        1 <= i,
    ensures
        params_rest_prefix(pairs, i + 1) == params_rest_prefix(pairs, i) + seq!['&'] + pair_text(
            pairs[i],
        ),
{
}

proof fn lemma_params_rest_tail(pairs: Seq<(Seq<char>, Seq<char>)>, i: int)
    requires
        1 <= i <= pairs.len(),
    ensures
        params_rest(pairs.skip(1)) == params_rest_prefix(pairs, i) + params_rest(pairs.skip(i)),
    decreases i,
{
    if i == 1 {
        assert(params_rest_prefix(pairs, 1) =~= Seq::<char>::empty());
        assert(params_rest(pairs.skip(1)) =~= params_rest_prefix(pairs, 1) + params_rest(
            pairs.skip(1),
        ));
    } else {
        lemma_params_rest_tail(pairs, i - 1);
        assert(pairs.skip(i - 1).len() > 0);
        assert(pairs.skip(i - 1)[0] == pairs[i - 1]);
        assert(pairs.skip(i - 1).drop_first() =~= pairs.skip(i));
        assert(params_rest(pairs.skip(i - 1)) == seq!['&'] + pair_text(pairs[i - 1])
            + params_rest(pairs.skip(i)));
        assert(params_rest(pairs.skip(1)) =~= params_rest_prefix(pairs, i) + params_rest(
            pairs.skip(i),
        ));
    }
}

proof fn lemma_params_rest_prefix_full(pairs: Seq<(Seq<char>, Seq<char>)>)
    requires
        pairs.len() >= 1,
    ensures
        params_of(pairs) == pair_text(pairs[0]) + params_rest_prefix(pairs, pairs.len() as int),
{
    lemma_params_rest_tail(pairs, pairs.len() as int);
    assert(pairs.skip(pairs.len() as int) =~= Seq::<(Seq<char>, Seq<char>)>::empty());
    assert(params_rest(Seq::<(Seq<char>, Seq<char>)>::empty()) =~= Seq::<char>::empty());
    assert(pairs.drop_first() =~= pairs.skip(1));
    assert(params_rest_prefix(pairs, pairs.len() as int) =~= params_rest(pairs.skip(1)));
    assert(params_of(pairs) =~= pair_text(pairs[0]) + params_rest_prefix(
        pairs,
        pairs.len() as int,
    ));
}

} // verus!
