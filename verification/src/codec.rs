//! The codec: sixteen bytes to 22 characters and back.
//!
//! The text form of a byte string is its Base64 encoding over the URL-safe
//! alphabet, without padding (RFC 4648, sections 3.2 and 5). The bytes are
//! read as one string of bits, most significant bit first. Each group of six
//! bits becomes one character; where the bits run out inside the last group,
//! zero bits fill it. Decoding reads the characters back into bits and keeps
//! every whole byte; bits of the last character beyond the last whole byte
//! are not looked at.
//!
//! The first part of this file says this in definitions, the second encodes
//! and decodes with the `base64` crate's engine, and the third proves what
//! follows from the definitions: above all that decoding undoes encoding.
use vstd::prelude::*;
use inlinable_string::InlineString;
use vstd::utf8::{is_ascii_chars, is_ascii_chars_encode_utf8};
use crate::alphabet::{
    is_symbol, lemma_symbol_of_symbol_value, lemma_symbol_value_of_symbol, symbol, symbol_value,
};
use crate::engine::{ascii, encode_slice, encode_string};
use crate::errors::ParseError;
use crate::inline::{inline_capacity, inline_text};

verus! {

/// The byte at `k`, or zero past the end.
pub open spec fn byte_or_zero(bytes: Seq<u8>, k: int) -> int {
    if 0 <= k < bytes.len() {
        bytes[k] as int
    } else {
        0
    }
}

/// The `i`-th group of six bits of `bytes`. Three bytes make four groups.
pub open spec fn sextet(bytes: Seq<u8>, i: int) -> int {
    let k = i / 4 * 3;
    let b0 = byte_or_zero(bytes, k);
    let b1 = byte_or_zero(bytes, k + 1);
    let b2 = byte_or_zero(bytes, k + 2);
    if i % 4 == 0 {
        b0 / 4
    } else if i % 4 == 1 {
        b0 % 4 * 16 + b1 / 16
    } else if i % 4 == 2 {
        b1 % 16 * 4 + b2 / 64
    } else {
        b2 % 64
    }
}

/// How many characters encode `n` bytes.
pub open spec fn encoded_len(n: nat) -> nat {
    ((n * 4 + 2) / 3) as nat
}

/// The text form of `bytes`.
pub open spec fn encoded(bytes: Seq<u8>) -> Seq<char> {
    Seq::new(encoded_len(bytes.len()), |i: int| symbol(sextet(bytes, i)))
}

/// Whether `text` can be decoded: it holds only characters of the alphabet,
/// and its length is not one more than a multiple of four (one character
/// alone carries no whole byte).
pub open spec fn well_formed(text: Seq<char>) -> bool {
    &&& text.len() % 4 != 1
    &&& forall|i: int| 0 <= i < text.len() ==> is_symbol(#[trigger] text[i])
}

/// The six-bit value of the character at `i`, or zero past the end.
pub open spec fn value_or_zero(text: Seq<char>, i: int) -> int {
    if 0 <= i < text.len() {
        symbol_value(text[i])
    } else {
        0
    }
}

/// The `j`-th byte that `text` carries. Four characters make three bytes.
pub open spec fn octet(text: Seq<char>, j: int) -> int {
    let q = j / 3 * 4;
    let v0 = value_or_zero(text, q);
    let v1 = value_or_zero(text, q + 1);
    let v2 = value_or_zero(text, q + 2);
    let v3 = value_or_zero(text, q + 3);
    if j % 3 == 0 {
        v0 * 4 + v1 / 16
    } else if j % 3 == 1 {
        v1 % 16 * 16 + v2 / 4
    } else {
        v2 % 4 * 64 + v3
    }
}

/// How many whole bytes `n` characters carry.
pub open spec fn decoded_len(n: nat) -> nat {
    (n * 3 / 4) as nat
}

/// The bytes that a well-formed `text` carries.
pub open spec fn decoded(text: Seq<char>) -> Seq<u8> {
    Seq::new(decoded_len(text.len()), |j: int| octet(text, j) as u8)
}

/// Whether `text` is the text form of an identifier, up to the bits of its
/// last character that no byte takes: 22 characters of the alphabet.
pub open spec fn is_identifier_text(text: Seq<char>) -> bool {
    &&& text.len() == 22
    &&& forall|i: int| 0 <= i < text.len() ==> is_symbol(#[trigger] text[i])
}

/// Appends the text form of `bytes` to `buf`, after what it holds.
pub fn encode_into(bytes: &[u8; 16], buf: &mut String)
    ensures
        final(buf)@ == old(buf)@ + encoded(bytes@),
{
    encode_string(bytes, buf)
}

/// The text form of `bytes` as a new `String`. It has 22 characters, all of
/// the alphabet, so none of them is padding.
pub fn encode(bytes: &[u8; 16]) -> (r: String)
    ensures
        r@ == encoded(bytes@),
        is_identifier_text(r@),
{
    let mut text = String::new();
    encode_into(bytes, &mut text);
    proof {
        assert(text@ =~= encoded(bytes@));
        lemma_encoded_well_formed(bytes@);
    }
    text
}

/// The text form of `bytes` as an `InlineString`, which needs no allocation.
///
/// The text needs 22 bytes of inline storage. Where an `InlineString` has
/// room for fewer, the result holds the characters that fit.
pub fn encode_inline(bytes: &[u8; 16]) -> (r: InlineString)
    ensures
        inline_capacity() >= 22 ==> inline_text(r) == encoded(bytes@),
        inline_capacity() < 22 ==> inline_text(r) == encoded(bytes@).take(inline_capacity() as int),
{
    let ghost text = encoded(bytes@);
    let mut buf = [0u8; 22];
    encode_slice(bytes, &mut buf);
    let mut out = InlineString::new();
    let mut i: usize = 0;
    proof {
        lemma_encoded_well_formed(bytes@);
        assert(text.take(0) =~= Seq::<char>::empty());
    }
    while i < 22
        invariant_except_break
            inline_text(out) == text.take(i as int),
        invariant
            i <= 22,
            i <= inline_capacity(),
            text.len() == 22,
            buf@ == ascii(text),
            forall|j: int| 0 <= j < 22 ==> is_symbol(#[trigger] text[j]),
        ensures
            inline_capacity() >= 22 ==> inline_text(out) == text,
            inline_capacity() < 22 ==> inline_text(out) == text.take(inline_capacity() as int),
        decreases 22 - i,
    {
        let ch = buf[i] as char;
        proof {
            let next = text.take(i as int + 1);
            assert(is_symbol(text[i as int]));
            assert(ch == text[i as int]);
            assert(next =~= text.take(i as int).push(ch));
            assert(is_ascii_chars(next)) by {
                assert forall|j: int| 0 <= j < next.len() implies '\0' <= #[trigger] next[j]
                    <= '\u{7f}' by {
                    assert(is_symbol(text[j]));
                }
            }
            is_ascii_chars_encode_utf8(next);
        }
        match out.push(ch) {
            Ok(()) => {
                i += 1;
            },
            Err(_) => {
                break ;
            },
        }
    }
    proof {
        assert(text.take(22) =~= text);
    }
    out
}

/// Reads sixteen bytes from their text form.
///
/// Succeeds exactly on 22 characters of the alphabet, with the bytes that
/// they carry. The text is checked in two steps: it must be well formed, and
/// it must carry sixteen bytes, no more and no fewer. A text that fails
/// either comes back in the error: another length, a character outside the
/// alphabet, padding.
pub fn decode(text: &str) -> (r: Result<[u8; 16], ParseError>)
    ensures
        r is Ok <==> is_identifier_text(text@),
        r matches Ok(bytes) ==> bytes@ == decoded(text@),
        r matches Err(e) ==> e@ == text@,
{
    match crate::engine::decode(text) {
        Ok(carried) => {
            if carried.len() != 16 {
                return Err(ParseError::new(text));
            }
            let mut bytes = [0u8; 16];
            let mut i: usize = 0;
            while i < 16
                invariant
                    i <= 16,
                    carried.len() == 16,
                    forall|j: int| 0 <= j < i ==> bytes@[j] == carried@[j],
                decreases 16 - i,
            {
                bytes[i] = carried[i];
                i += 1;
            }
            assert(bytes@ =~= carried@);
            Ok(bytes)
        },
        Err(_) => Err(ParseError::new(text)),
    }
}

/// Three bytes cut into four groups of six bits are put together again from
/// those groups.
pub proof fn lemma_cut_and_join(b0: int, b1: int, b2: int)
    requires
        0 <= b0 < 256,
        0 <= b1 < 256,
        0 <= b2 < 256,
    ensures
        ({
            let v0 = b0 / 4;
            let v1 = b0 % 4 * 16 + b1 / 16;
            let v2 = b1 % 16 * 4 + b2 / 64;
            let v3 = b2 % 64;
            &&& 0 <= v0 < 64 && 0 <= v1 < 64 && 0 <= v2 < 64 && 0 <= v3 < 64
            &&& v0 * 4 + v1 / 16 == b0
            &&& v1 % 16 * 16 + v2 / 4 == b1
            &&& v2 % 4 * 64 + v3 == b2
        }),
{
}

/// Four groups of six bits joined into three bytes are cut out of those
/// bytes again.
pub proof fn lemma_join_and_cut(v0: int, v1: int, v2: int, v3: int)
    requires
        0 <= v0 < 64,
        0 <= v1 < 64,
        0 <= v2 < 64,
        0 <= v3 < 64,
    ensures
        ({
            let b0 = v0 * 4 + v1 / 16;
            let b1 = v1 % 16 * 16 + v2 / 4;
            let b2 = v2 % 4 * 64 + v3;
            &&& 0 <= b0 < 256 && 0 <= b1 < 256 && 0 <= b2 < 256
            &&& b0 / 4 == v0
            &&& b0 % 4 * 16 + b1 / 16 == v1
            &&& b1 % 16 * 4 + b2 / 64 == v2
            &&& b2 % 64 == v3
        }),
{
}

/// Every group of six bits is a six-bit value.
pub proof fn lemma_sextet_range(bytes: Seq<u8>, i: int)
    requires
        0 <= i,
    ensures
        0 <= sextet(bytes, i) < 64,
{
}

/// The text form holds only characters of the alphabet, so never `=`, `+`
/// or `/`, and it is well formed.
pub proof fn lemma_encoded_well_formed(bytes: Seq<u8>)
    ensures
        well_formed(encoded(bytes)),
        forall|i: int|
            0 <= i < encoded(bytes).len() ==> {
                &&& #[trigger] encoded(bytes)[i] != '='
                &&& encoded(bytes)[i] != '+'
                &&& encoded(bytes)[i] != '/'
            },
{
    let text = encoded(bytes);
    assert forall|i: int| 0 <= i < text.len() implies is_symbol(#[trigger] text[i]) && text[i]
        != '=' && text[i] != '+' && text[i] != '/' by {
        lemma_sextet_range(bytes, i);
        lemma_symbol_value_of_symbol(sextet(bytes, i));
    }
}

/// In a well-formed text every byte that it carries is a byte.
pub proof fn lemma_octet_range(text: Seq<char>, j: int)
    requires
        well_formed(text),
        0 <= j < decoded_len(text.len()),
    ensures
        0 <= octet(text, j) < 256,
{
    let q = j / 3 * 4;
    assert(q + 1 < text.len());
    lemma_symbol_of_symbol_value(text[q]);
    lemma_symbol_of_symbol_value(text[q + 1]);
    if q + 2 < text.len() {
        lemma_symbol_of_symbol_value(text[q + 2]);
    }
    if q + 3 < text.len() {
        lemma_symbol_of_symbol_value(text[q + 3]);
    }
}

/// Decoding is the left inverse of encoding: the text form of any bytes
/// decodes to those bytes.
pub proof fn lemma_decode_encode(bytes: Seq<u8>)
    ensures
        well_formed(encoded(bytes)),
        decoded(encoded(bytes)) == bytes,
{
    lemma_encoded_well_formed(bytes);
    let text = encoded(bytes);
    assert(decoded_len(text.len()) == bytes.len());
    assert forall|j: int| 0 <= j < bytes.len() implies octet(text, j) == bytes[j] as int by {
        let k = j / 3 * 3;
        let q = j / 3 * 4;
        let b0 = byte_or_zero(bytes, k);
        let b1 = byte_or_zero(bytes, k + 1);
        let b2 = byte_or_zero(bytes, k + 2);
        lemma_cut_and_join(b0, b1, b2);
        assert(q / 4 * 3 == k && q % 4 == 0);
        assert((q + 1) / 4 * 3 == k && (q + 1) % 4 == 1);
        assert((q + 2) / 4 * 3 == k && (q + 2) % 4 == 2);
        assert((q + 3) / 4 * 3 == k && (q + 3) % 4 == 3);
        lemma_symbol_value_of_symbol(sextet(bytes, q));
        lemma_symbol_value_of_symbol(sextet(bytes, q + 1));
        lemma_symbol_value_of_symbol(sextet(bytes, q + 2));
        lemma_symbol_value_of_symbol(sextet(bytes, q + 3));
        assert(value_or_zero(text, q) == b0 / 4);
        assert(value_or_zero(text, q + 1) == b0 % 4 * 16 + b1 / 16);
        if q + 2 < text.len() {
            assert(value_or_zero(text, q + 2) == b1 % 16 * 4 + b2 / 64);
        } else {
            assert(k + 1 >= bytes.len());
        }
        if q + 3 < text.len() {
            assert(value_or_zero(text, q + 3) == b2 % 64);
        } else {
            assert(k + 2 >= bytes.len());
        }
    }
    assert(decoded(text) =~= bytes);
}

/// The two checks that reading a text makes, in their order: the text is
/// well formed, and it carries exactly 16 bytes. Together they say that the
/// text has 22 characters of the alphabet.
pub proof fn lemma_identifier_text(text: Seq<char>)
    ensures
        is_identifier_text(text) <==> well_formed(text) && decoded(text).len() == 16,
{
}

/// A text that carries another number of bytes than 16 is no identifier's
/// text, well formed or not.
pub proof fn lemma_wrong_length_rejected(text: Seq<char>)
    requires
        decoded(text).len() != 16,
    ensures
        !is_identifier_text(text),
{
}

/// A text that holds `+`, `/` or `=` is not well formed, and so is no
/// identifier's text.
pub proof fn lemma_foreign_character_rejected(text: Seq<char>, i: int)
    requires
        0 <= i < text.len(),
        text[i] == '+' || text[i] == '/' || text[i] == '=',
    ensures
        !well_formed(text),
        !is_identifier_text(text),
{
}

/// The characters of an identifier's text stand for the groups of six bits
/// of the bytes that it carries. The last character gives only its upper two
/// bits to the last byte; its other four bits reach no byte.
pub proof fn lemma_sextet_of_decoded(text: Seq<char>, i: int)
    requires
        is_identifier_text(text),
        0 <= i < 22,
    ensures
        0 <= symbol_value(text[i]) < 64,
        i < 21 ==> sextet(decoded(text), i) == symbol_value(text[i]),
        i == 21 ==> sextet(decoded(text), i) == symbol_value(text[i]) / 16 * 16,
{
    let q = i / 4 * 4;
    let k = i / 4 * 3;
    let bytes = decoded(text);
    let v0 = value_or_zero(text, q);
    let v1 = value_or_zero(text, q + 1);
    let v2 = value_or_zero(text, q + 2);
    let v3 = value_or_zero(text, q + 3);
    lemma_symbol_of_symbol_value(text[q]);
    lemma_symbol_of_symbol_value(text[q + 1]);
    if q + 3 < 22 {
        lemma_symbol_of_symbol_value(text[q + 2]);
        lemma_symbol_of_symbol_value(text[q + 3]);
    }
    lemma_join_and_cut(v0, v1, v2, v3);
    assert(k / 3 * 4 == q && k % 3 == 0);
    assert(octet(text, k) == v0 * 4 + v1 / 16);
    assert(bytes[k] == v0 * 4 + v1 / 16);
    if q + 3 < 22 {
        assert((k + 1) / 3 * 4 == q && (k + 1) % 3 == 1);
        assert((k + 2) / 3 * 4 == q && (k + 2) % 3 == 2);
        assert(octet(text, k + 1) == v1 % 16 * 16 + v2 / 4);
        assert(octet(text, k + 2) == v2 % 4 * 64 + v3);
        assert(bytes[k + 1] == v1 % 16 * 16 + v2 / 4);
        assert(bytes[k + 2] == v2 % 4 * 64 + v3);
    } else {
        assert(q == 20 && k == 15);
        assert(byte_or_zero(bytes, 16) == 0);
    }
}

/// Two identifiers' texts carry the same bytes exactly when they agree on
/// the first 21 characters and on the upper two bits of the last.
pub proof fn lemma_same_bytes(t: Seq<char>, u: Seq<char>)
    requires
        is_identifier_text(t),
        is_identifier_text(u),
    ensures
        decoded(t) == decoded(u) <==> {
            &&& forall|i: int| 0 <= i < 21 ==> t[i] == u[i]
            &&& symbol_value(t[21]) / 16 == symbol_value(u[21]) / 16
        },
{
    if decoded(t) == decoded(u) {
        assert forall|i: int| 0 <= i < 21 implies t[i] == u[i] by {
            lemma_sextet_of_decoded(t, i);
            lemma_sextet_of_decoded(u, i);
            lemma_symbol_of_symbol_value(t[i]);
            lemma_symbol_of_symbol_value(u[i]);
        }
        lemma_sextet_of_decoded(t, 21);
        lemma_sextet_of_decoded(u, 21);
    }
    if (forall|i: int| 0 <= i < 21 ==> t[i] == u[i]) && symbol_value(t[21]) / 16 == symbol_value(
        u[21],
    ) / 16 {
        assert forall|j: int| 0 <= j < 16 implies octet(t, j) == octet(u, j) by {
            let q = j / 3 * 4;
            assert(t[q] == u[q]);
            if q + 3 < 22 {
                assert(t[q + 1] == u[q + 1]);
                assert(t[q + 2] == u[q + 2]);
                assert(t[q + 3] == u[q + 3]);
            }
        }
        assert(decoded(t) =~= decoded(u));
    }
}

/// Among the texts that carry the same bytes, the text form is the one whose
/// last character has zero in its lower four bits.
pub proof fn lemma_canonical_text(text: Seq<char>)
    requires
        is_identifier_text(text),
    ensures
        encoded(decoded(text)) == text <==> symbol_value(text[21]) % 16 == 0,
{
    let bytes = decoded(text);
    let again = encoded(bytes);
    assert(again.len() == 22);
    assert forall|i: int| 0 <= i < 22 implies again[i] == symbol(
        if i < 21 {
            symbol_value(text[i])
        } else {
            symbol_value(text[i]) / 16 * 16
        },
    ) by {
        lemma_sextet_of_decoded(text, i);
    }
    lemma_sextet_of_decoded(text, 21);
    let last = symbol_value(text[21]);
    lemma_symbol_of_symbol_value(text[21]);
    lemma_symbol_value_of_symbol(last / 16 * 16);
    if last % 16 == 0 {
        assert forall|i: int| 0 <= i < 22 implies again[i] == text[i] by {
            lemma_symbol_of_symbol_value(text[i]);
        }
        assert(again =~= text);
    } else {
        assert(symbol_value(again[21]) != last);
    }
}

/// The bytes that hyphenated hexadecimal shows as
/// `b0c1ee86-6f46-4f1b-8d8b-7849e75dbcee`.
pub open spec fn example_bytes() -> Seq<u8> {
    seq![
        0xb0u8, 0xc1, 0xee, 0x86, 0x6f, 0x46, 0x4f, 0x1b, 0x8d, 0x8b, 0x78, 0x49, 0xe7, 0x5d, 0xbc,
        0xee,
    ]
}

/// The definitions at work on one identifier: the text form of
/// [`example_bytes`] is `sMHuhm9GTxuNi3hJ51287g`, and that text carries those
/// bytes.
pub proof fn example_known_identifier()
    ensures
        encoded(example_bytes()) == "sMHuhm9GTxuNi3hJ51287g"@,
        is_identifier_text("sMHuhm9GTxuNi3hJ51287g"@),
        decoded("sMHuhm9GTxuNi3hJ51287g"@) == example_bytes(),
{
    reveal_strlit("sMHuhm9GTxuNi3hJ51287g");
    assert(encoded(example_bytes()) =~= "sMHuhm9GTxuNi3hJ51287g"@);
    lemma_decode_encode(example_bytes());
}

/// Encoding is injective: different bytes have different text forms.
pub proof fn lemma_encoded_injective(x: Seq<u8>, y: Seq<u8>)
    requires
        x != y,
    ensures
        encoded(x) != encoded(y),
{
    lemma_decode_encode(x);
    lemma_decode_encode(y);
}

} // verus!
