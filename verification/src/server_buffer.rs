//! Holds back a character that the server has sent only in part.

use vstd::prelude::*;
use vstd::utf8::*;

verus! {

/// Number of continuation bytes at the end of `bytes`.
pub open spec fn trailing(bytes: Seq<u8>) -> nat
    decreases bytes.len(),
{
    if bytes.len() > 0 && is_continuation_byte(bytes.last()) {
        1 + trailing(bytes.drop_last())
    } else {
        0
    }
}

/// Number of bytes in the character that `byte` starts; one for a byte that
/// starts none.
pub open spec fn announced(byte: u8) -> nat {
    if is_leading_byte_width_4(byte) {
        4
    } else if is_leading_byte_width_3(byte) {
        3
    } else if is_leading_byte_width_2(byte) {
        2
    } else {
        1
    }
}

/// Number of bytes in the character that `byte` starts; one for a byte that
/// starts none.
pub fn announced_len(byte: u8) -> (n: usize)
    ensures
        n == announced(byte),
        1 <= n <= 4,
{
    proof {
        utf8_byte_ranges_bitwise(byte);
    }
    if byte & 0xF8 == 0xF0 {
        4
    } else if byte & 0xF0 == 0xE0 {
        3
    } else if byte & 0xE0 == 0xC0 {
        2
    } else {
        1
    }
}

/// Number of continuation bytes at the end of `bytes`.
pub fn count_trailing(bytes: &[u8]) -> (n: usize)
    ensures
        n == trailing(bytes@),
        n <= bytes@.len(),
{
    let len: usize = bytes.len();
    let mut n: usize = 0;
    assert(bytes@.take(len as int) =~= bytes@);
    while n < len
        invariant
            n <= len,
            len == bytes@.len(),
            trailing(bytes@) == n + trailing(bytes@.take(len - n)),
        decreases len - n,
    {
        let byte: u8 = bytes[len - 1 - n];
        proof {
            utf8_byte_ranges_bitwise(byte);
            assert(bytes@.take(len - n).last() == byte);
            assert(bytes@.take(len - n).drop_last() =~= bytes@.take(len - n - 1));
        }
        if byte & 0xC0 != 0x80 {
            return n;
        }
        n += 1;
    }
    n
}

/// Number of bytes that can be shown without cutting a character in two.
///
/// A character that is still incomplete at the end is held back. So are four or
/// more continuation bytes that belong to no character, and continuation bytes
/// with nothing before them: their start may yet come.
pub open spec fn complete_len(bytes: Seq<u8>) -> nat {
    let tail = trailing(bytes);
    if tail >= bytes.len() {
        0
    } else {
        let start = (bytes.len() - 1 - tail) as nat;
        let needed = announced(bytes[start as int]);
        if tail + 1 < needed {
            start
        } else if tail >= 4 {
            start + needed
        } else {
            bytes.len()
        }
    }
}

/// Server output that was not shown yet.
pub struct ServerOutputBuffer {
    buf: Vec<u8>,
}

impl View for ServerOutputBuffer {
    type V = Seq<u8>;

    closed spec fn view(&self) -> Seq<u8> {
        self.buf@
    }
}

impl ServerOutputBuffer {
    /// A buffer that holds nothing.
    pub fn new() -> (b: ServerOutputBuffer)
        ensures
            b@ == Seq::<u8>::empty(),
    {
        ServerOutputBuffer { buf: Vec::new() }
    }

    /// Takes in server output and gives back the bytes that are safe to show;
    /// an incomplete character at the end is held back.
    pub fn process(&mut self, data: &[u8]) -> (shown: Vec<u8>)
        ensures
            shown@ == (old(self)@ + data@).take(complete_len(old(self)@ + data@) as int),
            final(self)@ == (old(self)@ + data@).skip(complete_len(old(self)@ + data@) as int),
            shown@ + final(self)@ == old(self)@ + data@,
    {
        self.buf.extend_from_slice(data);
        let ghost all = old(self)@ + data@;
        assert(self.buf@ =~= all);
        let complete: usize = self.find_complete_utf8_len();
        let mut shown: Vec<u8> = self.buf.split_off(complete);
        std::mem::swap(&mut shown, &mut self.buf);
        assert(shown@ =~= all.take(complete as int));
        assert(self.buf@ =~= all.skip(complete as int));
        assert(shown@ + self.buf@ =~= all);
        shown
    }

    /// Number of held bytes that can be shown without cutting a character in two.
    pub fn find_complete_utf8_len(&self) -> (n: usize)
        ensures
            n == complete_len(self@),
            n <= self@.len(),
    {
        let len: usize = self.buf.len();
        let tail: usize = count_trailing(self.buf.as_slice());
        if tail >= len {
            return 0;
        }
        let start: usize = len - 1 - tail;
        let needed: usize = announced_len(self.buf[start]);
        if tail + 1 < needed {
            start
        } else if tail >= 4 {
            start + needed
        } else {
            len
        }
    }
}

/// Bytes in front do not count once a byte that is no continuation was met.
proof fn lemma_trailing_behind(front: Seq<u8>, bytes: Seq<u8>)
    requires
        trailing(bytes) < bytes.len(),
    ensures
        trailing(front + bytes) == trailing(bytes),
    decreases bytes.len(),
{
    assert((front + bytes).last() == bytes.last());
    if is_continuation_byte(bytes.last()) {
        lemma_trailing_behind(front, bytes.drop_last());
        assert((front + bytes).drop_last() =~= front + bytes.drop_last());
    }
}

/// A lead byte and continuation bytes.
proof fn lemma_trailing_of_char(bytes: Seq<u8>)
    requires
        bytes.len() > 0,
        !is_continuation_byte(bytes[0]),
        forall|i: int| 1 <= i < bytes.len() ==> is_continuation_byte(#[trigger] bytes[i]),
    ensures
        trailing(bytes) == bytes.len() - 1,
    decreases bytes.len(),
{
    if bytes.len() > 1 {
        assert(is_continuation_byte(bytes[bytes.len() - 1]));
        assert forall|i: int| 1 <= i < bytes.drop_last().len() implies is_continuation_byte(
            #[trigger] bytes.drop_last()[i],
        ) by {
            assert(bytes.drop_last()[i] == bytes[i]);
        }
        lemma_trailing_of_char(bytes.drop_last());
    } else {
        assert(bytes.last() == bytes[0]);
    }
}

/// A valid text that is cut anywhere: what can be shown of the front is valid
/// text too, fewer than four bytes are held back, and none if the cut is
/// between two characters.
pub proof fn law_cut_text(text: Seq<u8>, n: int)
    requires
        valid_utf8(text),
        0 <= n <= text.len(),
    ensures
        n > 0 ==> trailing(text.take(n)) < n,
        trailing(text.take(n)) <= 3,
        complete_len(text.take(n)) <= n < complete_len(text.take(n)) + 4,
        valid_utf8(text.take(complete_len(text.take(n)) as int)),
        valid_utf8(text.take(n)) ==> complete_len(text.take(n)) == n,
    decreases text.len(),
{
    let cut = text.take(n);
    if n == 0 {
        assert(text.take(0) =~= Seq::<u8>::empty());
    } else {
        let len = length_of_first_scalar(text);
        assert(cut[0] == text[0]);
        if n < len {
            lemma_trailing_of_char(cut);
            assert(text.take(0) =~= Seq::<u8>::empty());
        } else {
            let first = take_first_scalar(text);
            let rest = pop_first_scalar(text);
            let m = n - len;
            assert(first.len() == len);
            assert(valid_utf8(first)) by {
                reveal_with_fuel(valid_utf8, 2);
                assert(pop_first_scalar(first) =~= Seq::<u8>::empty());
            }
            law_cut_text(rest, m);
            if m == 0 {
                assert(cut =~= first);
                lemma_trailing_of_char(cut);
                assert(text.take(n) =~= first);
            } else {
                let tail = rest.take(m);
                assert(cut =~= first + tail);
                lemma_trailing_behind(first, tail);
                let k = complete_len(tail) as int;
                let start = tail.len() - 1 - trailing(tail);
                assert(cut[len + start] == tail[start]);
                assert(complete_len(cut) == len + k);
                assert(text.take(len + k) =~= first + rest.take(k));
                valid_utf8_concat(first, rest.take(k));
                if valid_utf8(cut) {
                    assert(pop_first_scalar(cut) =~= tail);
                }
            }
        }
    }
}

/// All chunks in a row.
pub open spec fn joined(chunks: Seq<Seq<u8>>) -> Seq<u8>
    decreases chunks.len(),
{
    if chunks.len() == 0 {
        Seq::empty()
    } else {
        joined(chunks.drop_last()) + chunks.last()
    }
}

/// What an empty buffer holds back after it took in `chunks` one by one.
pub open spec fn held_after(chunks: Seq<Seq<u8>>) -> Seq<u8>
    decreases chunks.len(),
{
    if chunks.len() == 0 {
        Seq::empty()
    } else {
        let all = held_after(chunks.drop_last()) + chunks.last();
        all.skip(complete_len(all) as int)
    }
}

/// What an empty buffer has given back after it took in `chunks` one by one.
pub open spec fn shown_after(chunks: Seq<Seq<u8>>) -> Seq<u8>
    decreases chunks.len(),
{
    if chunks.len() == 0 {
        Seq::empty()
    } else {
        let all = held_after(chunks.drop_last()) + chunks.last();
        shown_after(chunks.drop_last()) + all.take(complete_len(all) as int)
    }
}

/// No more can be shown than there is.
proof fn lemma_complete_len(bytes: Seq<u8>)
    ensures
        complete_len(bytes) <= bytes.len(),
{
}

/// Nothing is lost, added or put in another order: what was given back and what
/// is held back are together what was taken in.
pub proof fn law_nothing_lost(chunks: Seq<Seq<u8>>)
    ensures
        shown_after(chunks) + held_after(chunks) == joined(chunks),
    decreases chunks.len(),
{
    if chunks.len() > 0 {
        let front = chunks.drop_last();
        let all = held_after(front) + chunks.last();
        law_nothing_lost(front);
        lemma_complete_len(all);
        assert(shown_after(chunks) + held_after(chunks) =~= shown_after(front) + held_after(front)
            + chunks.last());
    }
}

/// While the server sends the beginning of a valid text, in whatever chunks,
/// only whole characters are shown and fewer than four bytes are held back; when
/// it has sent whole characters, all of it has been shown.
pub proof fn law_whole_characters(chunks: Seq<Seq<u8>>, rest: Seq<u8>)
    requires
        valid_utf8(joined(chunks) + rest),
    ensures
        valid_utf8(shown_after(chunks)),
        held_after(chunks).len() < 4,
        valid_utf8(joined(chunks)) ==> shown_after(chunks) == joined(chunks),
    decreases chunks.len(),
{
    law_nothing_lost(chunks);
    if chunks.len() > 0 {
        let front = chunks.drop_last();
        let shown = shown_after(front);
        let all = held_after(front) + chunks.last();
        let text = all + rest;
        assert(joined(front) + (chunks.last() + rest) =~= joined(chunks) + rest);
        law_whole_characters(front, chunks.last() + rest);
        law_nothing_lost(front);
        assert(joined(chunks) + rest =~= shown + text);
        lemma_valid_behind(shown, text);
        law_cut_text(text, all.len() as int);
        assert(text.take(all.len() as int) =~= all);
        let k = complete_len(all) as int;
        assert(text.take(k) =~= all.take(k));
        valid_utf8_concat(shown, all.take(k));
        if valid_utf8(joined(chunks)) {
            assert(joined(chunks) =~= shown + all);
            lemma_valid_behind(shown, all);
            assert(held_after(chunks) =~= Seq::<u8>::empty());
            assert(shown_after(chunks) + held_after(chunks) =~= shown_after(chunks));
        }
    } else {
        assert(joined(chunks) =~= shown_after(chunks));
    }
}

/// Behind valid text a valid text goes on validly.
proof fn lemma_valid_behind(front: Seq<u8>, back: Seq<u8>)
    requires
        valid_utf8(front),
        valid_utf8(front + back),
    ensures
        valid_utf8(back),
{
    let bytes = front + back;
    let n = front.len() as int;
    assert(bytes.subrange(0, n) =~= front);
    assert(bytes.subrange(n, bytes.len() as int) =~= back);
    if !valid_utf8(back) {
        partial_valid_partial_invalid_utf8(bytes, n);
    }
}

/// What is shown of bytes that end in a byte that is no continuation byte and
/// some that are: nothing of a character that is still incomplete, no more than a
/// complete character of four or more continuation bytes, and otherwise all.
pub proof fn law_end_is_held_back(front: Seq<u8>, lead: u8, tail: Seq<u8>)
    requires
        !(0x80 <= lead < 0xc0),
        forall|i: int| 0 <= i < tail.len() ==> 0x80 <= #[trigger] tail[i] < 0xc0,
    ensures
        ({
            let bytes = front + seq![lead] + tail;
            let needed = if 0xf0 <= lead < 0xf8 {
                4nat
            } else if 0xe0 <= lead < 0xf0 {
                3
            } else if 0xc0 <= lead < 0xe0 {
                2
            } else {
                1
            };
            complete_len(bytes) == if tail.len() + 1 < needed {
                front.len()
            } else if tail.len() >= 4 {
                front.len() + needed
            } else {
                bytes.len()
            }
        }),
{
    let bytes = front + seq![lead] + tail;
    lemma_trailing_behind_lead(front, lead, tail);
    assert(bytes[front.len() as int] == lead);
}

/// Continuation bytes at the end are counted back to a byte that is none.
pub proof fn lemma_trailing_behind_lead(front: Seq<u8>, lead: u8, tail: Seq<u8>)
    requires
        !(0x80 <= lead < 0xc0),
        forall|i: int| 0 <= i < tail.len() ==> 0x80 <= #[trigger] tail[i] < 0xc0,
    ensures
        trailing(front + seq![lead] + tail) == tail.len(),
        trailing(tail) == tail.len(),
{
    let char_bytes = seq![lead] + tail;
    assert(char_bytes[0] == lead);
    assert forall|i: int| 1 <= i < char_bytes.len() implies is_continuation_byte(
        #[trigger] char_bytes[i],
    ) by {
        assert(char_bytes[i] == tail[i - 1]);
    }
    lemma_trailing_of_char(char_bytes);
    lemma_trailing_behind(front, char_bytes);
    assert(front + seq![lead] + tail =~= front + char_bytes);
    lemma_all_trailing(tail);
}

/// Continuation bytes with nothing before them are all held back.
pub proof fn law_lone_continuations_wait(bytes: Seq<u8>)
    requires
        forall|i: int| 0 <= i < bytes.len() ==> 0x80 <= #[trigger] bytes[i] < 0xc0,
    ensures
        complete_len(bytes) == 0,
    decreases bytes.len(),
{
    lemma_all_trailing(bytes);
}

/// They are all counted.
proof fn lemma_all_trailing(bytes: Seq<u8>)
    requires
        forall|i: int| 0 <= i < bytes.len() ==> 0x80 <= #[trigger] bytes[i] < 0xc0,
    ensures
        trailing(bytes) == bytes.len(),
    decreases bytes.len(),
{
    if bytes.len() > 0 {
        assert(0x80 <= bytes[bytes.len() - 1] < 0xc0);
        assert forall|i: int| 0 <= i < bytes.drop_last().len() implies 0x80
            <= #[trigger] bytes.drop_last()[i] < 0xc0 by {
            assert(bytes.drop_last()[i] == bytes[i]);
        }
        lemma_all_trailing(bytes.drop_last());
    }
}

} // verus!
