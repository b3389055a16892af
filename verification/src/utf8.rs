//! UTF-8 characters in raw byte streams.

use vstd::prelude::*;

verus! {

/// `std::char::from_u32`: the character with the scalar value `code`, `None` for
/// a surrogate and for a number above the last code point.
#[verifier::external_body]
fn scalar_char(code: u32) -> (c: Option<char>)
    ensures
        c is Some <==> vstd::utf8::is_scalar(code),
        c matches Some(ch) ==> ch as u32 == code,
{
    std::char::from_u32(code)
}

/// The UTF-8 encoding of one character.
pub open spec fn char_bytes(c: char) -> Seq<u8> {
    vstd::utf8::encode_scalar(c as u32)
}

/// The character at the front of `bytes` and the number of bytes that hold it.
///
/// A character is a lead byte, the continuation bytes that it announces, and a
/// scalar value in their payload; the encoding need not be the shortest one.
pub open spec fn first_char(bytes: Seq<u8>) -> Option<(char, nat)> {
    if vstd::utf8::valid_leading_and_continuation_bytes_first_codepoint(bytes)
        && vstd::utf8::is_scalar(vstd::utf8::decode_first_codepoint(bytes)) {
        Some(
            (
                vstd::utf8::decode_first_codepoint(bytes) as char,
                vstd::utf8::length_of_first_codepoint(bytes) as nat,
            ),
        )
    } else {
        None
    }
}

/// The encoding of a character is a well-formed one, and decodes to the character.
pub proof fn lemma_char_bytes(c: char)
    ensures
        vstd::utf8::valid_first_scalar(char_bytes(c)),
        vstd::utf8::decode_first_codepoint(char_bytes(c)) == c as u32,
        vstd::utf8::length_of_first_codepoint(char_bytes(c)) == char_bytes(c).len(),
        1 <= char_bytes(c).len() <= 4,
        vstd::utf8::valid_utf8(char_bytes(c)),
        vstd::utf8::decode_utf8(char_bytes(c)) == seq![c],
        (c as u32) < 0x80 <==> char_bytes(c)[0] < 0x80,
        (c as u32) < 0x80 ==> char_bytes(c) == seq![c as u8],
{
    let text = seq![c];
    let v = c as u32;
    reveal_with_fuel(vstd::utf8::encode_utf8, 2);
    assert(text.drop_first() =~= Seq::<char>::empty());
    assert(vstd::utf8::encode_utf8(text) =~= char_bytes(c));
    vstd::utf8::encode_utf8_first_scalar(text);
    vstd::utf8::encode_utf8_valid_utf8(text);
    vstd::utf8::encode_utf8_decode_utf8(text);
    vstd::utf8::char_is_scalar(c);
    assert(v <= 0x7f ==> (v & 0x7f) as u8 == v as u8 && (v & 0x7f) as u8 <= 0x7f) by (bit_vector);
    assert(v <= 0x7ff ==> 0xC0 | ((v >> 6) & 0x1F) as u8 >= 0xC0) by (bit_vector);
    assert(v <= 0xffff ==> 0xE0 | ((v >> 12) & 0x0F) as u8 >= 0xE0) by (bit_vector);
    assert(v <= 0x10ffff ==> 0xF0 | ((v >> 18) & 0x07) as u8 >= 0xF0) by (bit_vector);
}

/// An encoded character decodes to itself, whatever follows it.
pub proof fn law_decode_of_encoded(c: char, rest: Seq<u8>)
    ensures
        first_char(char_bytes(c) + rest) == Some((c, char_bytes(c).len())),
{
    lemma_char_bytes(c);
    vstd::utf8::char_is_scalar(c);
    vstd::utf8::char_u32_cast(c, c as u32);
    let bytes = char_bytes(c) + rest;
    let n = char_bytes(c).len();
    assert(bytes[0] == char_bytes(c)[0]);
    assert(n > 1 ==> bytes[1] == char_bytes(c)[1]);
    assert(n > 2 ==> bytes[2] == char_bytes(c)[2]);
    assert(n > 3 ==> bytes[3] == char_bytes(c)[3]);
}

/// The bits that a lead and the continuation bytes before `end` put together.
spec fn payload(lead: u32, bytes: Seq<u8>, end: int) -> u32
    decreases end,
{
    if end <= 1 {
        lead
    } else {
        (payload(lead, bytes, end - 1) << 6) | vstd::utf8::continuation_bits(bytes[end - 1])
    }
}

/// Shifting the payload in byte by byte gives the code point in one piece.
proof fn lemma_payload(bytes: Seq<u8>, lead: u32, len: int)
    requires
        1 <= len <= 4,
        len <= bytes.len(),
    ensures
        len == 2 ==> payload(lead, bytes, len) == (lead << 6) | vstd::utf8::continuation_bits(
            bytes[1],
        ),
        len == 3 ==> payload(lead, bytes, len) == (lead << 12) | (
        vstd::utf8::continuation_bits(bytes[1]) << 6) | vstd::utf8::continuation_bits(bytes[2]),
        len == 4 ==> payload(lead, bytes, len) == (lead << 18) | (
        vstd::utf8::continuation_bits(bytes[1]) << 12) | (vstd::utf8::continuation_bits(bytes[2])
            << 6) | vstd::utf8::continuation_bits(bytes[3]),
{
    reveal_with_fuel(payload, 4);
    let a = vstd::utf8::continuation_bits(bytes[1]);
    let b = vstd::utf8::continuation_bits(bytes[2]);
    let c = vstd::utf8::continuation_bits(bytes[3]);
    assert((((lead << 6) | a) << 6) | b == (lead << 12) | (a << 6) | b) by (bit_vector);
    assert((((((lead << 6) | a) << 6) | b) << 6) | c == (lead << 18) | (a << 12) | (b << 6) | c)
        by (bit_vector);
}

/// Appends the UTF-8 encoding of `c`.
pub fn push_char(out: &mut Vec<u8>, c: char)
    ensures
        final(out)@ == old(out)@ + char_bytes(c),
{
    let v: u32 = c as u32;
    proof {
        vstd::utf8::char_is_scalar(c);
    }
    if v <= 0x7F {
        out.push((v & 0x7F) as u8);
    } else if v <= 0x7FF {
        out.push(0xC0 | ((v >> 6) & 0x1F) as u8);
        out.push(0x80 | (v & 0x3F) as u8);
    } else if v <= 0xFFFF {
        out.push(0xE0 | ((v >> 12) & 0x0F) as u8);
        out.push(0x80 | ((v >> 6) & 0x3F) as u8);
        out.push(0x80 | (v & 0x3F) as u8);
    } else {
        out.push(0xF0 | ((v >> 18) & 0x07) as u8);
        out.push(0x80 | ((v >> 12) & 0x3F) as u8);
        out.push(0x80 | ((v >> 6) & 0x3F) as u8);
        out.push(0x80 | (v & 0x3F) as u8);
    }
    assert(out@ =~= old(out)@ + char_bytes(c));
}

/// Decodes the character at the front of `data`; the second part of the result
/// is the number of bytes it takes.
pub fn decode_utf8_char(data: &[u8]) -> (r: Option<(char, usize)>)
    ensures
        match r {
            Some((c, len)) => first_char(data@) == Some((c, len as nat)) && 1 <= len <= data@.len(),
            None => first_char(data@) is None,
        },
{
    if data.len() == 0 {
        return None;
    }
    let first: u8 = data[0];
    proof {
        vstd::utf8::utf8_byte_ranges_bitwise(first);
    }
    let len: usize;
    let mut code: u32;
    if first & 0x80 == 0 {
        len = 1;
        code = (first & 0x7F) as u32;
    } else if first & 0xE0 == 0xC0 {
        len = 2;
        code = (first & 0x1F) as u32;
    } else if first & 0xF0 == 0xE0 {
        len = 3;
        code = (first & 0x0F) as u32;
    } else if first & 0xF8 == 0xF0 {
        len = 4;
        code = (first & 0x07) as u32;
    } else {
        return None;
    }
    if data.len() < len {
        return None;
    }
    let ghost lead: u32 = code;
    let mut i: usize = 1;
    while i < len
        invariant
            1 <= i <= len <= data@.len(),
            len <= 4,
            forall|k: int| 1 <= k < i ==> vstd::utf8::is_continuation_byte(#[trigger] data@[k]),
            len == vstd::utf8::length_of_first_codepoint(data@),
            len == 4 ==> vstd::utf8::is_leading_byte_width_4(data@[0]),
            code == payload(lead, data@, i as int),
        decreases len - i,
    {
        let byte: u8 = data[i];
        proof {
            vstd::utf8::utf8_byte_ranges_bitwise(byte);
        }
        if byte & 0xC0 != 0x80 {
            return None;
        }
        code = (code << 6) | (byte & 0x3F) as u32;
        i += 1;
    }
    proof {
        lemma_payload(data@, lead, len as int);
        assert(code == vstd::utf8::decode_first_codepoint(data@));
        assert(vstd::utf8::valid_leading_and_continuation_bytes_first_codepoint(data@));
    }
    match scalar_char(code) {
        Some(c) => {
            proof {
                vstd::utf8::char_u32_cast(c, code);
            }
            Some((c, len))
        },
        None => None,
    }
}

/// Text that grows by a character grows by its encoding.
pub proof fn lemma_encode_push(text: Seq<char>, c: char)
    ensures
        vstd::utf8::encode_utf8(text.push(c)) == vstd::utf8::encode_utf8(text) + char_bytes(c),
    decreases text.len(),
{
    let longer = text.push(c);
    reveal_with_fuel(vstd::utf8::encode_utf8, 2);
    if text.len() == 0 {
        assert(longer.drop_first() =~= Seq::<char>::empty());
        assert(vstd::utf8::encode_utf8(longer) =~= vstd::utf8::encode_utf8(text) + char_bytes(c));
    } else {
        assert(longer.drop_first() =~= text.drop_first().push(c));
        lemma_encode_push(text.drop_first(), c);
        assert(longer[0] == text[0]);
        assert(vstd::utf8::encode_utf8(longer) =~= vstd::utf8::encode_utf8(text) + char_bytes(c));
    }
}

/// Bytes start with no character if the first is a continuation byte or one that
/// no encoding has, or if they end before the character does.
pub proof fn law_no_char(bytes: Seq<u8>)
    requires
        bytes.len() == 0 || 0x80 <= bytes[0] < 0xc0 || 0xf8 <= bytes[0] || (0xc0 <= bytes[0]
            && bytes.len() < 2) || (0xe0 <= bytes[0] && bytes.len() < 3) || (0xf0 <= bytes[0]
            && bytes.len() < 4),
    ensures
        first_char(bytes) is None,
{
}

/// A character that bytes start with takes one to four of them: one for ASCII,
/// and otherwise a lead byte and as many continuation bytes as it announces.
pub proof fn law_char_length(bytes: Seq<u8>)
    ensures
        first_char(bytes) matches Some((c, len)) ==> {
            &&& len <= bytes.len()
            &&& len == if bytes[0] < 0x80 {
                1nat
            } else if bytes[0] < 0xe0 {
                2
            } else if bytes[0] < 0xf0 {
                3
            } else {
                4
            }
            &&& forall|i: int| 1 <= i < len ==> 0x80 <= #[trigger] bytes[i] < 0xc0
            &&& c as u32 == vstd::utf8::decode_first_codepoint(bytes)
        },
{
    if let Some((c, len)) = first_char(bytes) {
        vstd::utf8::char_u32_cast(c, vstd::utf8::decode_first_codepoint(bytes));
    }
}

/// A byte below 0x80 is a character by itself. Otherwise the first byte holds the
/// highest bits and each continuation byte six more. What they add up to is the
/// character, also where fewer bytes could have held it; surrogates and numbers
/// above the last code point are none.
pub proof fn law_value_of_bytes(bytes: Seq<u8>, value: u32, len: nat)
    requires
        1 <= len <= bytes.len(),
        forall|i: int| 1 <= i < len ==> 0x80 <= #[trigger] bytes[i] < 0xc0,
        ({
            ||| len == 1 && bytes[0] < 0x80 && value == bytes[0]
            ||| len == 2 && 0xc0 <= bytes[0] < 0xe0 && value == 64 * (bytes[0] - 0xc0) + (bytes[1]
                - 0x80)
            ||| len == 3 && 0xe0 <= bytes[0] < 0xf0 && value == 4096 * (bytes[0] - 0xe0) + 64 * (
            bytes[1] - 0x80) + (bytes[2] - 0x80)
            ||| len == 4 && 0xf0 <= bytes[0] < 0xf8 && value == 262144 * (bytes[0] - 0xf0) + 4096
                * (bytes[1] - 0x80) + 64 * (bytes[2] - 0x80) + (bytes[3] - 0x80)
        }),
    ensures
        value < 0xd800 || 0xe000 <= value <= 0x10ffff ==> first_char(bytes) == Some(
            (value as char, len),
        ),
        0xd800 <= value < 0xe000 || value > 0x10ffff ==> first_char(bytes) is None,
{
    let a = bytes[0];
    if len == 1 {
        assert(a < 0x80 ==> (a & 0x7f) as u32 == a as u32) by (bit_vector);
    } else if len == 2 {
        let b = bytes[1];
        assert(0x80 <= b < 0xc0);
        assert(0xc0 <= a < 0xe0 && 0x80 <= b < 0xc0 ==> ((a & 0x1f) as u32) << 6 | ((b & 0x3f)
            as u32) == 64 * (a - 0xc0) + (b - 0x80)) by (bit_vector);
    } else if len == 3 {
        let b = bytes[1];
        let c = bytes[2];
        assert(0x80 <= b < 0xc0 && 0x80 <= c < 0xc0);
        assert(0xe0 <= a < 0xf0 && 0x80 <= b < 0xc0 && 0x80 <= c < 0xc0 ==> ((a & 0x0f) as u32)
            << 12 | ((b & 0x3f) as u32) << 6 | ((c & 0x3f) as u32) == 4096 * (a - 0xe0) + 64 * (b
            - 0x80) + (c - 0x80)) by (bit_vector);
    } else {
        let b = bytes[1];
        let c = bytes[2];
        let d = bytes[3];
        assert(0x80 <= b < 0xc0 && 0x80 <= c < 0xc0 && 0x80 <= d < 0xc0);
        assert(0xf0 <= a < 0xf8 && 0x80 <= b < 0xc0 && 0x80 <= c < 0xc0 && 0x80 <= d < 0xc0 ==> ((
        a & 0x07) as u32) << 18 | ((b & 0x3f) as u32) << 12 | ((c & 0x3f) as u32) << 6 | ((d & 0x3f)
            as u32) == 262144 * (a - 0xf0) + 4096 * (b - 0x80) + 64 * (c - 0x80) + (d - 0x80))
            by (bit_vector);
    }
    assert(value == vstd::utf8::decode_first_codepoint(bytes));
}

} // verus!
