//! Percent-encoding of values placed in a URL query string.
//!
//! A character is kept as it is when it is an ASCII letter or digit, one of
//! `-`, `.`, `_`, `~`, or a comma (so that a tag list such as `prod,api`
//! stays readable). Every other character is replaced by its UTF-8 bytes,
//! each written `%XY` in upper-case hexadecimal. A decoder of the query thus
//! gets every value back exactly, whatever `&`, `=`, `#`, `%`, `+` or spaces it
//! holds.
use vstd::prelude::*;
use vstd::string::{StrSliceExecFns, StringExecFns};
use vstd::utf8::{decode_utf8, encode_scalar, encode_utf8, encode_utf8_decode_utf8};

use crate::payload::{digit_char, digit_str};

verus! {

/// Whether `c` is written into a query value unchanged.
pub open spec fn is_kept(c: char) -> bool {
    let v = c as u32;
    ||| 0x41 <= v <= 0x5A
    ||| 0x61 <= v <= 0x7A
    ||| 0x30 <= v <= 0x39
    ||| v == 0x2D
    ||| v == 0x2E
    ||| v == 0x5F
    ||| v == 0x7E
    ||| v == 0x2C
}

/// The upper-case hexadecimal digit of `d < 16`.
pub open spec fn hex_digit(d: nat) -> char {
    if d < 10 {
        digit_char(d)
    } else if d == 10 {
        'A'
    } else if d == 11 {
        'B'
    } else if d == 12 {
        'C'
    } else if d == 13 {
        'D'
    } else if d == 14 {
        'E'
    } else {
        'F'
    }
}

/// `%XY` for each byte, in order.
pub open spec fn percent_bytes(bytes: Seq<u8>) -> Seq<char>
    decreases bytes.len(),
{
    if bytes.len() == 0 {
        seq![]
    } else {
        percent_bytes(bytes.drop_last()) + seq![
            '%',
            hex_digit(bytes.last() as nat / 16),
            hex_digit(bytes.last() as nat % 16),
        ]
    }
}

/// How one character is written into a query value.
pub open spec fn encode_char(c: char) -> Seq<char> {
    if is_kept(c) {
        seq![c]
    } else {
        percent_bytes(encode_scalar(c as u32))
    }
}

/// How a whole value is written into a query string.
pub open spec fn query_encoded(s: Seq<char>) -> Seq<char>
    decreases s.len(),
{
    if s.len() == 0 {
        seq![]
    } else {
        encode_char(s[0]) + query_encoded(s.drop_first())
    }
}

proof fn lemma_query_encoded_push(s: Seq<char>, c: char)
    ensures
        query_encoded(s.push(c)) == query_encoded(s) + encode_char(c),
    decreases s.len(),
{
    if s.len() == 0 {
        assert(s.push(c).drop_first() =~= seq![]);
        assert(query_encoded(s.push(c).drop_first()) =~= seq![]);
        assert(s.push(c)[0] == c);
        assert(query_encoded(s.push(c)) =~= encode_char(c));
    } else {
        assert(s.push(c).drop_first() =~= s.drop_first().push(c));
        lemma_query_encoded_push(s.drop_first(), c);
        assert(query_encoded(s.push(c)) =~= query_encoded(s) + encode_char(c));
    }
}

/// The value of an upper-case hexadecimal digit; `None` for any other
/// character.
pub open spec fn hex_value(c: char) -> Option<nat> {
    let v = c as u32;
    if 0x30 <= v <= 0x39 {
        Some((v - 0x30) as nat)
    } else if 0x41 <= v <= 0x46 {
        Some((v - 0x37) as nat)
    } else {
        None
    }
}

/// Percent-decoding of a query value into bytes: `%XY` with two hexadecimal
/// digits gives the byte `XY`, and any other character gives its own UTF-8
/// bytes.
pub open spec fn percent_decoded(t: Seq<char>) -> Seq<u8>
    decreases t.len(),
{
    if t.len() == 0 {
        seq![]
    } else if t.len() >= 3 && t[0] == '%' && hex_value(t[1]) is Some && hex_value(t[2]) is Some {
        seq![(16 * hex_value(t[1]).unwrap() + hex_value(t[2]).unwrap()) as u8] + percent_decoded(
            t.subrange(3, t.len() as int),
        )
    } else {
        encode_scalar(t[0] as u32) + percent_decoded(t.drop_first())
    }
}

/// The characters a decoder of the query reads back from the value `t`.
pub open spec fn query_decoded(t: Seq<char>) -> Seq<char> {
    decode_utf8(percent_decoded(t))
}

proof fn lemma_hex_round_trip(d: nat)
    requires
        d < 16,
    ensures
        hex_value(hex_digit(d)) == Some(d),
{
}

proof fn lemma_decode_percent_triple(b: u8, t: Seq<char>)
    ensures
        percent_decoded(seq!['%', hex_digit(b as nat / 16), hex_digit(b as nat % 16)] + t) == seq![b]
            + percent_decoded(t),
{
    let u = seq!['%', hex_digit(b as nat / 16), hex_digit(b as nat % 16)] + t;
    lemma_hex_round_trip(b as nat / 16);
    lemma_hex_round_trip(b as nat % 16);
    assert(u[0] == '%' && u[1] == hex_digit(b as nat / 16) && u[2] == hex_digit(b as nat % 16));
    assert(u.subrange(3, u.len() as int) =~= t);
    assert(16 * (b as nat / 16) + b as nat % 16 == b as nat);
}

proof fn lemma_decode_percent_bytes(bytes: Seq<u8>, t: Seq<char>)
    ensures
        percent_decoded(percent_bytes(bytes) + t) == bytes + percent_decoded(t),
    decreases bytes.len(),
{
    if bytes.len() == 0 {
        assert(percent_bytes(bytes) + t =~= t);
        assert(bytes + percent_decoded(t) =~= percent_decoded(t));
    } else {
        let init = bytes.drop_last();
        let b = bytes.last();
        let triple = seq!['%', hex_digit(b as nat / 16), hex_digit(b as nat % 16)];
        assert(percent_bytes(bytes) + t =~= percent_bytes(init) + (triple + t));
        lemma_decode_percent_bytes(init, triple + t);
        lemma_decode_percent_triple(b, t);
        assert(init + (seq![b] + percent_decoded(t)) =~= bytes + percent_decoded(t));
    }
}

proof fn lemma_decode_encoded_char(c: char, t: Seq<char>)
    ensures
        percent_decoded(encode_char(c) + t) == encode_scalar(c as u32) + percent_decoded(t),
{
    if is_kept(c) {
        let u = seq![c] + t;
        assert(u[0] == c);
        assert(u.drop_first() =~= t);
    } else {
        lemma_decode_percent_bytes(encode_scalar(c as u32), t);
    }
}

proof fn lemma_decode_encoded_bytes(s: Seq<char>)
    ensures
        percent_decoded(query_encoded(s)) == encode_utf8(s),
    decreases s.len(),
{
    if s.len() > 0 {
        lemma_decode_encoded_char(s[0], query_encoded(s.drop_first()));
        lemma_decode_encoded_bytes(s.drop_first());
    }
}

/// Decoding an encoded value gives the value back, for every value: the host
/// name and the tags reach a decoder of the query exactly as the session
/// holds them.
pub proof fn lemma_query_round_trip(s: Seq<char>)
    ensures
        query_decoded(query_encoded(s)) == s,
{
    lemma_decode_encoded_bytes(s);
    encode_utf8_decode_utf8(s);
}

/// The characters that an encoded value may hold.
pub open spec fn is_encoded_char(c: char) -> bool {
    is_kept(c) || c == '%'
}

proof fn lemma_percent_bytes_chars(bytes: Seq<u8>)
    ensures
        forall|i: int|
            0 <= i < percent_bytes(bytes).len() ==> is_encoded_char(#[trigger] percent_bytes(bytes)[i]),
    decreases bytes.len(),
{
    if bytes.len() > 0 {
        let init = bytes.drop_last();
        let b = bytes.last();
        lemma_percent_bytes_chars(init);
        let triple = seq!['%', hex_digit(b as nat / 16), hex_digit(b as nat % 16)];
        assert(is_kept(hex_digit(b as nat / 16)));
        assert(is_kept(hex_digit(b as nat % 16)));
        assert forall|i: int| 0 <= i < percent_bytes(bytes).len() implies is_encoded_char(
            #[trigger] percent_bytes(bytes)[i],
        ) by {
            if i < percent_bytes(init).len() {
                assert(percent_bytes(bytes)[i] == percent_bytes(init)[i]);
            } else {
                assert(percent_bytes(bytes)[i] == triple[i - percent_bytes(init).len()]);
            }
        }
    }
}

/// An encoded value holds only unreserved characters, commas and `%`: never
/// `&`, `=` or `#`. In a query built of encoded values, `&` and `=` thus
/// stand only where they separate the parameters.
pub proof fn lemma_encoded_has_no_delimiters(s: Seq<char>)
    ensures
        forall|i: int|
            0 <= i < query_encoded(s).len() ==> is_encoded_char(#[trigger] query_encoded(s)[i]),
        forall|i: int|
            0 <= i < query_encoded(s).len() ==> query_encoded(s)[i] != '&' && query_encoded(s)[i]
                != '=' && query_encoded(s)[i] != '#',
    decreases s.len(),
{
    if s.len() > 0 {
        let head = encode_char(s[0]);
        let rest = query_encoded(s.drop_first());
        lemma_encoded_has_no_delimiters(s.drop_first());
        if !is_kept(s[0]) {
            lemma_percent_bytes_chars(encode_scalar(s[0] as u32));
        }
        assert forall|i: int| 0 <= i < query_encoded(s).len() implies is_encoded_char(
            #[trigger] query_encoded(s)[i],
        ) by {
            if i < head.len() {
                assert(query_encoded(s)[i] == head[i]);
            } else {
                assert(query_encoded(s)[i] == rest[i - head.len()]);
            }
        }
    }
}

fn hex_str(d: u8) -> (r: &'static str)
    requires
        d < 16,
    ensures
        r@ == seq![hex_digit(d as nat)],
{
    if d < 10 {
        digit_str(d as u128)
    } else if d == 10 {
        proof { reveal_strlit("A"); }
        "A"
    } else if d == 11 {
        proof { reveal_strlit("B"); }
        "B"
    } else if d == 12 {
        proof { reveal_strlit("C"); }
        "C"
    } else if d == 13 {
        proof { reveal_strlit("D"); }
        "D"
    } else if d == 14 {
        proof { reveal_strlit("E"); }
        "E"
    } else {
        proof { reveal_strlit("F"); }
        "F"
    }
}

fn kept(c: char) -> (r: bool)
    ensures
        r == is_kept(c),
{
    let v = c as u32;
    (0x41 <= v && v <= 0x5A) || (0x61 <= v && v <= 0x7A) || (0x30 <= v && v <= 0x39) || v == 0x2D
        || v == 0x2E || v == 0x5F || v == 0x7E || v == 0x2C
}

/// Appends `%XY` for each of `bytes` to `out`.
fn append_percent_bytes(out: &mut String, bytes: &[u8])
    ensures
        final(out)@ == old(out)@ + percent_bytes(bytes@),
{
    let ghost start = out@;
    let mut j: usize = 0;
    while j < bytes.len()
        invariant
            j <= bytes@.len(),
            out@ == start + percent_bytes(bytes@.subrange(0, j as int)),
        decreases bytes@.len() - j,
    {
        let b = bytes[j];
        out.append("%");
        out.append(hex_str(b / 16));
        out.append(hex_str(b % 16));
        proof {
            reveal_strlit("%");
            let next = bytes@.subrange(0, j + 1);
            assert(next.drop_last() =~= bytes@.subrange(0, j as int));
            assert(out@ =~= start + percent_bytes(next));
        }
        j = j + 1;
    }
    proof {
        assert(bytes@.subrange(0, j as int) =~= bytes@);
    }
}

/// Percent-encodes `s` for use as a query value, as [`query_encoded`] says.
pub fn encode_query_value(s: &str) -> (r: String)
    ensures
        r@ == query_encoded(s@),
{
    let n = s.unicode_len();
    let mut out = String::new();
    let mut i: usize = 0;
    while i < n
        invariant
            n == s@.len(),
            i <= n,
            out@ == query_encoded(s@.subrange(0, i as int)),
        decreases n - i,
    {
        let c = s.get_char(i);
        let piece = s.substring_char(i, i + 1);
        proof {
            assert(piece@ =~= seq![c]);
            lemma_query_encoded_push(s@.subrange(0, i as int), c);
            assert(s@.subrange(0, i + 1) =~= s@.subrange(0, i as int).push(c));
        }
        if kept(c) {
            out.append(piece);
        } else {
            let bytes = piece.as_bytes();
            proof {
                assert(piece@.drop_first() =~= seq![]);
                assert(encode_utf8(piece@.drop_first()) =~= seq![]);
                assert(piece@[0] == c);
                assert(encode_utf8(piece@) =~= encode_scalar(c as u32));
            }
            append_percent_bytes(&mut out, bytes);
        }
        i = i + 1;
    }
    proof {
        assert(s@.subrange(0, n as int) =~= s@);
    }
    out
}

} // verus!
