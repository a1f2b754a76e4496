use vstd::prelude::*;
use vstd::string::StrSliceExecFns;
use vstd::utf8::decode_utf8;
use vstd::utf8::encode_scalar;
use vstd::utf8::encode_utf8;
use vstd::utf8::valid_utf8;

use crate::strutil::string_from_utf8;

verus! {

/// Bytes that a percent-encoded URL segment keeps as they are: ASCII
/// alphanumerics and `-`, `.`, `_`, `~`.
pub open spec fn is_unreserved(b: u8) -> bool {
    (48 <= b <= 57) || (65 <= b <= 90) || (97 <= b <= 122) || b == 45 || b == 46 || b == 95
        || b == 126
}

/// Uppercase hex digit for a value below 16, as a byte.
pub open spec fn hex_byte(d: u8) -> u8
    recommends
        d < 16,
{
    if d < 10 {
        (48 + d) as u8
    } else {
        (55 + d) as u8
    }
}

/// Percent-encoding of a byte sequence, at the byte level: unreserved bytes
/// stay, every other byte becomes `%` and two uppercase hex digits.
pub open spec fn pct_bytes(s: Seq<u8>) -> Seq<u8>
    decreases s.len(),
{
    if s.len() == 0 {
        Seq::<u8>::empty()
    } else {
        let b = s[0];
        let rest = pct_bytes(s.drop_first());
        if is_unreserved(b) {
            seq![b] + rest
        } else {
            seq![37u8, hex_byte(b >> 4), hex_byte((b & 15) as u8)] + rest
        }
    }
}

/// The same encoding as a character sequence; every output byte is ASCII,
/// so each stands for one character.
pub open spec fn pct_chars(s: Seq<u8>) -> Seq<char>
    decreases s.len(),
{
    if s.len() == 0 {
        Seq::<char>::empty()
    } else {
        let b = s[0];
        let rest = pct_chars(s.drop_first());
        if is_unreserved(b) {
            seq![b as char] + rest
        } else {
            seq![37u8 as char, hex_byte(b >> 4) as char, hex_byte((b & 15) as u8) as char] + rest
        }
    }
}

/// Value of a hex digit byte, upper or lower case; `None` for any other byte.
pub open spec fn hex_val(b: u8) -> Option<u8> {
    if 48 <= b <= 57 {
        Some((b - 48) as u8)
    } else if 65 <= b <= 70 {
        Some((b - 55) as u8)
    } else if 97 <= b <= 102 {
        Some((b - 87) as u8)
    } else {
        None
    }
}

/// Percent-decoding of a byte sequence: `%` followed by two hex digits decodes
/// to one byte; a `%` not followed by two hex digits passes through, together
/// with a first digit that is not followed by a second.
pub open spec fn pct_decoded(s: Seq<u8>) -> Seq<u8>
    decreases s.len(),
{
    if s.len() == 0 {
        Seq::<u8>::empty()
    } else if s[0] == 37 {
        if s.len() >= 3 && hex_val(s[1]) is Some && hex_val(s[2]) is Some {
            seq![(((hex_val(s[1])->Some_0) << 4) | (hex_val(s[2])->Some_0)) as u8] + pct_decoded(
                s.skip(3),
            )
        } else if s.len() >= 2 && hex_val(s[1]) is Some {
            seq![37u8, s[1]] + pct_decoded(s.skip(2))
        } else if s.len() >= 2 {
            seq![37u8] + pct_decoded(s.skip(1))
        } else {
            seq![37u8]
        }
    } else {
        seq![s[0]] + pct_decoded(s.drop_first())
    }
}

/// Relies on urlencoding::encode_binary: every byte except ASCII alphanumerics
/// and `-`, `.`, `_`, `~` is written as `%` followed by two uppercase hex
/// digits; the result is an ASCII string.
#[verifier::external_body]
pub(crate) fn pct_encode(b: &Vec<u8>) -> (r: String)
    ensures
        r@ == pct_chars(b@),
{
    urlencoding::encode_binary(b.as_slice()).into_owned()
}

/// Relies on urlencoding::decode_binary: `%` followed by two hex digits (either
/// case) decodes to one byte; a `%` not followed by two hex digits passes
/// through; every other byte is kept.
#[verifier::external_body]
pub(crate) fn pct_decode(b: &Vec<u8>) -> (r: Vec<u8>)
    ensures
        r@ == pct_decoded(b@),
{
    urlencoding::decode_binary(b.as_slice()).into_owned()
}

/// Percent-encodes one path segment of a file name.
pub fn encode_segment(name: &str) -> (r: String)
    ensures
        r@ == pct_chars(encode_utf8(name@)),
{
    let bytes = name.as_bytes_vec();
    pct_encode(&bytes)
}

/// Percent-decodes one path segment back to a file name; `None` when the
/// decoded bytes are not UTF-8.
pub fn decode_segment(s: &str) -> (r: Option<String>)
    ensures
        r is Some <==> valid_utf8(pct_decoded(encode_utf8(s@))),
        r matches Some(t) ==> encode_utf8(t@) == pct_decoded(encode_utf8(s@)),
{
    let bytes = s.as_bytes_vec();
    let dec = pct_decode(&bytes);
    string_from_utf8(dec)
}

proof fn lemma_hex_val_of_hex_byte(d: u8)
    requires
        d < 16,
    ensures
        hex_val(hex_byte(d)) == Some(d),
{
}

/// Law: percent-decoding undoes percent-encoding on any byte sequence.
pub proof fn lemma_pct_round_trip(s: Seq<u8>)
    ensures
        pct_decoded(pct_bytes(s)) == s,
    decreases s.len(),
{
    if s.len() == 0 {
        assert(pct_decoded(pct_bytes(s)) =~= s);
    } else {
        let b = s[0];
        let rest = pct_bytes(s.drop_first());
        lemma_pct_round_trip(s.drop_first());
        if is_unreserved(b) {
            let e = seq![b] + rest;
            assert(e[0] == b && b != 37);
            assert(e.drop_first() =~= rest);
            assert(pct_decoded(pct_bytes(s)) =~= seq![b] + pct_decoded(rest));
            assert(seq![b] + s.drop_first() =~= s);
        } else {
            let h1 = hex_byte(b >> 4);
            let h2 = hex_byte((b & 15) as u8);
            let e = seq![37u8, h1, h2] + rest;
            assert(b >> 4 < 16 && (b & 15) < 16) by (bit_vector);
            lemma_hex_val_of_hex_byte(b >> 4);
            lemma_hex_val_of_hex_byte((b & 15) as u8);
            assert(e[0] == 37 && e.len() >= 3 && e[1] == h1 && e[2] == h2);
            assert(hex_val(h1) == Some(b >> 4) && hex_val(h2) == Some((b & 15) as u8));
            assert((((b >> 4) << 4) | (b & 15)) == b) by (bit_vector);
            assert(e.skip(3) =~= rest);
            assert(pct_decoded(pct_bytes(s)) =~= seq![b] + pct_decoded(rest));
            assert(seq![b] + s.drop_first() =~= s);
        }
    }
}

/// The character-level encoding is the byte-level encoding read as ASCII:
/// its UTF-8 bytes are exactly `pct_bytes`.
pub proof fn lemma_pct_chars_utf8(s: Seq<u8>)
    ensures
        encode_utf8(pct_chars(s)) == pct_bytes(s),
    decreases s.len(),
{
    if s.len() == 0 {
        assert(encode_utf8(pct_chars(s)) =~= pct_bytes(s));
    } else {
        let b = s[0];
        lemma_pct_chars_utf8(s.drop_first());
        assert(b >> 4 < 16 && (b & 15) < 16) by (bit_vector);
        if is_unreserved(b) {
            lemma_encode_ascii_char(b);
            lemma_encode_utf8_unfold(b as char, pct_chars(s.drop_first()));
        } else {
            let h1 = hex_byte(b >> 4);
            let h2 = hex_byte((b & 15) as u8);
            lemma_encode_ascii_char(37u8);
            lemma_encode_ascii_char(h1);
            lemma_encode_ascii_char(h2);
            lemma_encode_utf8_unfold(h2 as char, pct_chars(s.drop_first()));
            lemma_encode_utf8_unfold(h1 as char, seq![h2 as char] + pct_chars(s.drop_first()));
            lemma_encode_utf8_unfold(
                37u8 as char,
                seq![h1 as char, h2 as char] + pct_chars(s.drop_first()),
            );
            assert(seq![37u8 as char, h1 as char, h2 as char] + pct_chars(s.drop_first()) =~= seq![
                37u8 as char,
            ] + (seq![h1 as char, h2 as char] + pct_chars(s.drop_first())));
            assert(seq![h1 as char, h2 as char] + pct_chars(s.drop_first()) =~= seq![h1 as char]
                + (seq![h2 as char] + pct_chars(s.drop_first())));
            assert(encode_utf8(pct_chars(s)) =~= pct_bytes(s));
        }
    }
}

/// The UTF-8 encoding of an ASCII byte read as a character is that byte alone.
proof fn lemma_encode_ascii_char(b: u8)
    requires
        b < 128,
    ensures
        encode_scalar((b as char) as u32) == seq![b],
{
    assert((b as char) as u32 == b as u32);
    assert((b as u32) & 0x7F == b as u32) by (bit_vector)
        requires
            b < 128,
    ;
    assert(encode_scalar((b as char) as u32) =~= seq![b]);
}

proof fn lemma_encode_utf8_unfold(c: char, rest: Seq<char>)
    ensures
        encode_utf8(seq![c] + rest) == encode_scalar(c as u32) + encode_utf8(rest),
{
    let s = seq![c] + rest;
    assert(s.len() > 0 && s[0] == c);
    assert(s.drop_first() =~= rest);
}

/// Law: decoding an encoded file-name segment restores the original name,
/// character for character.
pub proof fn lemma_segment_round_trip(name: Seq<char>)
    ensures
        pct_decoded(encode_utf8(pct_chars(encode_utf8(name)))) == encode_utf8(name),
        valid_utf8(pct_decoded(encode_utf8(pct_chars(encode_utf8(name))))),
        decode_utf8(pct_decoded(encode_utf8(pct_chars(encode_utf8(name)))))
            == name,
{
    broadcast use vstd::utf8::encode_utf8_valid_utf8, vstd::utf8::encode_utf8_decode_utf8;

    lemma_pct_chars_utf8(encode_utf8(name));
    lemma_pct_round_trip(encode_utf8(name));
}

} // verus!
