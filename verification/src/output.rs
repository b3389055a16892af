//! What the server prints.

use crate::ansi::{self, BRACKET, BS, DEL, ESC, SPACE, UPPER_H};
use crate::utf8;
use vstd::prelude::*;

verus! {

/// A byte that ends an escape sequence: an ASCII letter or `~`.
pub open spec fn ends_escape(byte: u8) -> bool {
    0x41 <= byte <= 0x5a || 0x61 <= byte <= 0x7a || byte == 0x7e
}

/// Number of bytes that an escape sequence takes after its escape character,
/// whatever kind it is: up to the first byte that ends one, or else all there
/// are. So a sequence of two bytes takes in what follows up to the next letter,
/// and of a command with text in it, such as one that sets a title, the text
/// behind its first letter is not part of it.
pub open spec fn escape_len(bytes: Seq<u8>) -> nat
    decreases bytes.len(),
{
    if bytes.len() == 0 {
        0
    } else if ends_escape(bytes[0]) {
        1
    } else {
        1 + escape_len(bytes.skip(1))
    }
}

/// An escape sequence lies within the bytes that are there.
pub proof fn lemma_escape_len(bytes: Seq<u8>)
    ensures
        escape_len(bytes) <= bytes.len(),
    decreases bytes.len(),
{
    if bytes.len() != 0 && !ends_escape(bytes[0]) {
        lemma_escape_len(bytes.skip(1));
    }
}

/// A control character, delete included.
pub open spec fn is_control(byte: u8) -> bool {
    byte < SPACE || byte == DEL
}

/// The printable characters in server output. Control characters and bytes that
/// start no character are passed over, and so is what [`escape_len`] counts
/// behind an escape character: up to the first letter or `~` and no further.
pub open spec fn printed(bytes: Seq<u8>) -> Seq<char>
    decreases bytes.len(),
{
    if bytes.len() == 0 {
        Seq::empty()
    } else if bytes[0] == ESC {
        proof {
            lemma_escape_len(bytes.skip(1));
        }
        printed(bytes.skip(1).skip(escape_len(bytes.skip(1)) as int))
    } else if is_control(bytes[0]) {
        printed(bytes.skip(1))
    } else {
        match utf8::first_char(bytes) {
            Some((c, len)) => seq![c] + printed(bytes.skip(len as int)),
            None => printed(bytes.skip(1)),
        }
    }
}

/// Number of backspace and delete characters in server output, outside escape sequences.
pub open spec fn erasures(bytes: Seq<u8>) -> nat
    decreases bytes.len(),
{
    if bytes.len() == 0 {
        0
    } else if bytes[0] == ESC {
        proof {
            lemma_escape_len(bytes.skip(1));
        }
        erasures(bytes.skip(1).skip(escape_len(bytes.skip(1)) as int))
    } else if is_control(bytes[0]) {
        erasures(bytes.skip(1)) + if bytes[0] == BS || bytes[0] == DEL {
            1nat
        } else {
            0nat
        }
    } else {
        match utf8::first_char(bytes) {
            Some((_, len)) => erasures(bytes.skip(len as int)),
            None => erasures(bytes.skip(1)),
        }
    }
}

/// The bytes after the first `n`.
fn tail(data: &[u8], n: usize) -> (r: &[u8])
    requires
        n <= data@.len(),
    ensures
        r@ == data@.skip(n as int),
{
    vstd::slice::slice_subrange(data, n, data.len())
}

/// The printable characters in server output, and the number of backspace and
/// delete characters.
pub fn read_output(data: &[u8]) -> (read: (Vec<char>, usize))
    ensures
        read.0@ == printed(data@),
        read.1 == erasures(data@),
{
    let mut events: Vec<char> = Vec::new();
    let mut erased: usize = 0;
    let mut i: usize = 0;
    assert(data@.skip(0) =~= data@);
    while i < data.len()
        invariant
            i <= data@.len(),
            erased <= i,
            printed(data@) == events@ + printed(data@.skip(i as int)),
            erasures(data@) == erased + erasures(data@.skip(i as int)),
        decreases data@.len() - i,
    {
        let byte: u8 = data[i];
        let ghost rest = data@.skip(i as int);
        assert(rest[0] == byte);
        if byte == ESC {
            let start: usize = i + 1;
            i = start;
            let mut ended: bool = false;
            while !ended && i < data.len()
                invariant
                    start <= i <= data@.len(),
                    escape_len(data@.skip(start as int)) == (i - start) + if ended {
                        0
                    } else {
                        escape_len(data@.skip(i as int))
                    },
                decreases data@.len() - i,
            {
                let b: u8 = data[i];
                assert(data@.skip(i as int).skip(1) =~= data@.skip(i + 1));
                i += 1;
                if (0x41 <= b && b <= 0x5a) || (0x61 <= b && b <= 0x7a) || b == 0x7e {
                    ended = true;
                }
            }
            proof {
                assert(rest.skip(1) =~= data@.skip(start as int));
                assert(rest.skip(1).skip(i - start) =~= data@.skip(i as int));
            }
        } else if byte < SPACE || byte == DEL {
            if byte == BS || byte == DEL {
                erased += 1;
            }
            i += 1;
            assert(rest.skip(1) =~= data@.skip(i as int));
        } else {
            match utf8::decode_utf8_char(tail(data, i)) {
                Some((c, len)) => {
                    let ghost seen = events@;
                    events.push(c);
                    i += len;
                    assert(rest.skip(len as int) =~= data@.skip(i as int));
                    assert(seen + (seq![c] + printed(data@.skip(i as int))) =~= events@ + printed(
                        data@.skip(i as int),
                    ));
                },
                None => {
                    i += 1;
                    assert(rest.skip(1) =~= data@.skip(i as int));
                },
            }
        }
    }
    assert(events@ + printed(data@.skip(i as int)) =~= events@);
    (events, erased)
}

/// The printable characters in server output.
pub fn extract_server_events(data: &[u8]) -> (events: Vec<char>)
    ensures
        events@ == printed(data@),
{
    read_output(data).0
}

/// A character that is printed: neither a control character nor delete.
pub open spec fn is_printable(c: char) -> bool {
    c as u32 >= 0x20 && c as u32 != 0x7f
}

/// A printable character is printed, and what follows is read on its own.
pub proof fn law_prints_char(c: char, rest: Seq<u8>)
    requires
        is_printable(c),
    ensures
        printed(utf8::char_bytes(c) + rest) == seq![c] + printed(rest),
{
    let bytes = utf8::char_bytes(c) + rest;
    utf8::lemma_char_bytes(c);
    utf8::law_decode_of_encoded(c, rest);
    assert(bytes[0] == utf8::char_bytes(c)[0]);
    assert(bytes.skip(utf8::char_bytes(c).len() as int) =~= rest);
}

/// Printable text is printed as it is, and what follows is read on its own.
pub proof fn law_prints_text(text: Seq<char>, rest: Seq<u8>)
    requires
        forall|i: int| 0 <= i < text.len() ==> is_printable(#[trigger] text[i]),
    ensures
        printed(vstd::utf8::encode_utf8(text) + rest) == text + printed(rest),
    decreases text.len(),
{
    if text.len() == 0 {
        assert(vstd::utf8::encode_utf8(text) + rest =~= rest);
        assert(text + printed(rest) =~= printed(rest));
    } else {
        let tail_text = text.drop_first();
        let tail = vstd::utf8::encode_utf8(tail_text) + rest;
        assert(vstd::utf8::encode_utf8(text) + rest =~= utf8::char_bytes(text[0]) + tail);
        law_prints_char(text[0], tail);
        assert forall|i: int| 0 <= i < tail_text.len() implies is_printable(
            #[trigger] tail_text[i],
        ) by {
            assert(tail_text[i] == text[i + 1]);
        }
        law_prints_text(tail_text, rest);
        assert(seq![text[0]] + (tail_text + printed(rest)) =~= text + printed(rest));
    }
}

/// The sequence ends at its first final byte.
proof fn lemma_escape_ends(body: Seq<u8>, end: u8, rest: Seq<u8>)
    requires
        forall|i: int| 0 <= i < body.len() ==> !ends_escape(#[trigger] body[i]),
        ends_escape(end),
    ensures
        escape_len(body + seq![end] + rest) == body.len() + 1,
    decreases body.len(),
{
    let bytes = body + seq![end] + rest;
    if body.len() == 0 {
        assert(bytes[0] == end);
    } else {
        assert(bytes[0] == body[0]);
        assert(bytes.skip(1) =~= body.skip(1) + seq![end] + rest);
        assert forall|i: int| 0 <= i < body.skip(1).len() implies !ends_escape(
            #[trigger] body.skip(1)[i],
        ) by {
            assert(body.skip(1)[i] == body[i + 1]);
        }
        lemma_escape_ends(body.skip(1), end, rest);
    }
}

/// An escape sequence prints nothing: what follows its first final byte is read
/// on its own.
pub proof fn law_escape_prints_nothing(body: Seq<u8>, end: u8, rest: Seq<u8>)
    requires
        forall|i: int| 0 <= i < body.len() ==> !ends_escape(#[trigger] body[i]),
        ends_escape(end),
    ensures
        printed(seq![ESC] + body + seq![end] + rest) == printed(rest),
{
    let bytes = seq![ESC] + body + seq![end] + rest;
    lemma_escape_ends(body, end, rest);
    assert(bytes.skip(1) =~= body + seq![end] + rest);
    assert(bytes.skip(1).skip((body.len() + 1) as int) =~= rest);
}

/// A control character, backspace and delete among them, prints nothing.
pub proof fn law_control_prints_nothing(byte: u8, rest: Seq<u8>)
    requires
        is_control(byte),
        byte != ESC,
    ensures
        printed(seq![byte] + rest) == printed(rest),
{
    assert((seq![byte] + rest).skip(1) =~= rest);
}

/// Decimal digits end no escape sequence.
proof fn lemma_decimal_digits(n: nat)
    ensures
        forall|i: int| 0 <= i < ansi::decimal(n).len() ==> 0x30 <= #[trigger] ansi::decimal(n)[i]
            <= 0x39,
    decreases n,
{
    if n >= 10 {
        lemma_decimal_digits(n / 10);
        let front = ansi::decimal(n / 10);
        assert forall|i: int| 0 <= i < ansi::decimal(n).len() implies 0x30
            <= #[trigger] ansi::decimal(n)[i] <= 0x39 by {
            if i < front.len() {
                assert(ansi::decimal(n)[i] == front[i]);
            }
        }
    }
}

/// Moving the cursor prints nothing.
pub proof fn law_move_to_prints_nothing(row: nat, col: nat, rest: Seq<u8>)
    ensures
        printed(ansi::move_to(row, col) + rest) == printed(rest),
{
    let body = seq![BRACKET] + ansi::decimal(row + 1) + seq![ansi::SEMICOLON] + ansi::decimal(
        col + 1,
    );
    lemma_decimal_digits(row + 1);
    lemma_decimal_digits(col + 1);
    law_escape_prints_nothing(body, UPPER_H, rest);
    assert(ansi::move_to(row, col) + rest =~= seq![ESC] + body + seq![UPPER_H] + rest);
}

/// No byte of a printable character is a control character.
pub proof fn lemma_printable_bytes(c: char)
    requires
        is_printable(c),
    ensures
        forall|i: int|
            0 <= i < utf8::char_bytes(c).len() ==> !is_control(#[trigger] utf8::char_bytes(c)[i]),
{
    utf8::lemma_char_bytes(c);
}

/// Printable text erases nothing, and what follows is read on its own.
pub proof fn law_text_erases_nothing(text: Seq<char>, rest: Seq<u8>)
    requires
        forall|i: int| 0 <= i < text.len() ==> #[trigger] text[i] as u32 >= 0x20 && text[i] as u32
            != 0x7f,
    ensures
        erasures(vstd::utf8::encode_utf8(text) + rest) == erasures(rest),
    decreases text.len(),
{
    if text.len() == 0 {
        assert(vstd::utf8::encode_utf8(text) + rest =~= rest);
    } else {
        let tail_text = text.drop_first();
        let tail = vstd::utf8::encode_utf8(tail_text) + rest;
        let bytes = utf8::char_bytes(text[0]) + tail;
        assert(vstd::utf8::encode_utf8(text) + rest =~= bytes);
        utf8::lemma_char_bytes(text[0]);
        utf8::law_decode_of_encoded(text[0], tail);
        assert(bytes[0] == utf8::char_bytes(text[0])[0]);
        assert(text[0] as u32 >= 0x20);
        assert(bytes.skip(utf8::char_bytes(text[0]).len() as int) =~= tail);
        assert forall|i: int| 0 <= i < tail_text.len() implies #[trigger] tail_text[i] as u32
            >= 0x20 && tail_text[i] as u32 != 0x7f by {
            assert(tail_text[i] == text[i + 1]);
        }
        law_text_erases_nothing(tail_text, rest);
    }
}

/// Backspace and delete characters are counted one by one, and no other control
/// character is; none is printed.
pub proof fn law_control_erases(byte: u8, rest: Seq<u8>)
    requires
        byte < 0x20 || byte == 0x7f,
        byte != 0x1b,
    ensures
        erasures(seq![byte] + rest) == erasures(rest) + if byte == 0x08 || byte == 0x7f {
            1nat
        } else {
            0
        },
        printed(seq![byte] + rest) == printed(rest),
{
    assert((seq![byte] + rest).skip(1) =~= rest);
}

/// An escape sequence goes up to its first letter or `~`. It prints and erases
/// nothing, whatever stands in it, and what follows is read on its own.
pub proof fn law_escape_is_passed_over(body: Seq<u8>, end: u8, rest: Seq<u8>)
    requires
        forall|i: int|
            0 <= i < body.len() ==> !(0x41 <= #[trigger] body[i] <= 0x5a) && !(0x61 <= body[i]
                <= 0x7a) && body[i] != 0x7e,
        0x41 <= end <= 0x5a || 0x61 <= end <= 0x7a || end == 0x7e,
    ensures
        printed(seq![0x1bu8] + body + seq![end] + rest) == printed(rest),
        erasures(seq![0x1bu8] + body + seq![end] + rest) == erasures(rest),
{
    let bytes = seq![0x1bu8] + body + seq![end] + rest;
    lemma_escape_ends(body, end, rest);
    assert(bytes.skip(1) =~= body + seq![end] + rest);
    assert(bytes.skip(1).skip((body.len() + 1) as int) =~= rest);
}

/// An escape sequence without a letter or `~` takes all that is there.
pub proof fn law_unfinished_escape(body: Seq<u8>)
    requires
        forall|i: int|
            0 <= i < body.len() ==> !(0x41 <= #[trigger] body[i] <= 0x5a) && !(0x61 <= body[i]
                <= 0x7a) && body[i] != 0x7e,
    ensures
        printed(seq![0x1bu8] + body) == Seq::<char>::empty(),
        erasures(seq![0x1bu8] + body) == 0,
{
    let bytes = seq![0x1bu8] + body;
    lemma_escape_unfinished(body);
    reveal_with_fuel(printed, 2);
    reveal_with_fuel(erasures, 2);
    assert(bytes.skip(1) =~= body);
    assert(body.skip(body.len() as int) =~= Seq::<u8>::empty());
}

/// It is as long as what there is.
proof fn lemma_escape_unfinished(body: Seq<u8>)
    requires
        forall|i: int| 0 <= i < body.len() ==> !ends_escape(#[trigger] body[i]),
    ensures
        escape_len(body) == body.len(),
    decreases body.len(),
{
    if body.len() > 0 {
        assert forall|i: int| 0 <= i < body.skip(1).len() implies !ends_escape(
            #[trigger] body.skip(1)[i],
        ) by {
            assert(body.skip(1)[i] == body[i + 1]);
        }
        lemma_escape_unfinished(body.skip(1));
    }
}

/// Output that ends prints and erases nothing more, and a byte that can start no
/// character is passed over: a continuation byte, or one that no encoding has.
pub proof fn law_stray_byte(byte: u8, rest: Seq<u8>)
    requires
        0x80 <= byte < 0xc0 || 0xf8 <= byte,
    ensures
        printed(Seq::empty()) == Seq::<char>::empty(),
        erasures(Seq::empty()) == 0,
        printed(seq![byte] + rest) == printed(rest),
        erasures(seq![byte] + rest) == erasures(rest),
{
    utf8::law_no_char(seq![byte] + rest);
    assert((seq![byte] + rest)[0] == byte);
    assert((seq![byte] + rest).skip(1) =~= rest);
}

} // verus!
