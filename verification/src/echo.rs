//! What becomes of text that is typed when the server answers it.

use crate::alt_screen;
use crate::ansi::ESC;
use crate::adaptive::SRTT_TRIGGER_HIGH;
use crate::clock;
use crate::input::{self, InputState};
use crate::output;
use crate::prediction::{self, Prediction, Verdict};
use crate::server_buffer;
use crate::session::{self, SessionState, MAX_PENDING};
use crate::utf8;
use vstd::prelude::*;

verus! {

/// Typing can be taken in in any number of pieces.
pub proof fn law_typing_in_pieces(s: SessionState, a: Seq<u8>, b: Seq<u8>, now: u64)
    ensures
        s.after_input(a + b, now) == s.after_input(a, now).after_input(b, now),
        s.overlays(a + b, now) == s.overlays(a, now) + s.after_input(a, now).overlays(b, now),
    decreases b.len(),
{
    if b.len() == 0 {
        assert(a + b =~= a);
        assert(s.overlays(a, now) + Seq::<u8>::empty() =~= s.overlays(a, now));
    } else {
        law_typing_in_pieces(s, a, b.drop_last(), now);
        assert((a + b).drop_last() =~= a + b.drop_last());
        let end = s.after_input(a, now);
        assert(s.overlays(a, now) + (end.overlays(b.drop_last(), now) + end.after_input(
            b.drop_last(),
            now,
        ).overlay(b.last())) =~= (s.overlays(a, now) + end.overlays(b.drop_last(), now))
            + end.after_input(b.drop_last(), now).overlay(b.last()));
    }
}

/// The prediction that the character `c` makes, typed at `now`.
pub open spec fn prediction_of(s: SessionState, c: char, now: u64) -> Prediction {
    Prediction {
        cmd: input::char_command(c, input::char_columns(c), s.emulator),
        made: now,
        shown: s.predicts(),
    }
}

/// The session after the character `c` was typed at `now`: one more prediction.
pub open spec fn with_char(s: SessionState, c: char, now: u64) -> SessionState {
    SessionState { emulator: s.emulator.with(prediction_of(s, c, now)), ..s }
}

/// Predictions are made, shown or not, and no character or escape sequence has begun.
pub open spec fn ready_to_predict(s: SessionState) -> bool {
    &&& s.predicts() || s.probes()
    &&& s.input.utf8.len() == 0
    &&& s.input.esc.len() == 0
}

/// The bytes of a character but the last predict nothing yet.
proof fn lemma_typing_begun(s: SessionState, c: char, k: int, now: u64)
    requires
        ready_to_predict(s),
        output::is_printable(c),
        0 <= k < utf8::char_bytes(c).len(),
    ensures
        s.after_input(utf8::char_bytes(c).take(k), now) == (SessionState {
            input: InputState { utf8: utf8::char_bytes(c).take(k), ..s.input },
            ..s
        }),
        s.overlays(utf8::char_bytes(c).take(k), now) == Seq::<u8>::empty(),
    decreases k,
{
    let bytes = utf8::char_bytes(c);
    if k == 0 {
        assert(bytes.take(0) =~= s.input.utf8);
        assert(s.after_input(bytes.take(0), now) =~= s);
    } else {
        lemma_typing_begun(s, c, k - 1, now);
        input::law_char_completed_once(s.input, c, k - 1);
        output::lemma_printable_bytes(c);
        assert(bytes.take(k).drop_last() =~= bytes.take(k - 1));
        assert(bytes.take(k).last() == bytes[k - 1]);
        assert(!output::is_control(bytes[k - 1]));
        assert(s.overlays(bytes.take(k), now) =~= Seq::<u8>::empty());
    }
}

/// Typing a character, in however many bytes, predicts it once, and shows its
/// overlay at once if predictions are shown.
pub proof fn law_typing_a_char(s: SessionState, c: char, now: u64)
    requires
        ready_to_predict(s),
        output::is_printable(c),
        prediction_of(s, c, now).cmd.undoable(s.emulator.screen),
    ensures
        s.after_input(utf8::char_bytes(c), now) == with_char(s, c, now),
        s.overlays(utf8::char_bytes(c), now) == if s.predicts() {
            prediction_of(s, c, now).cmd.overlay(s.flagging())
        } else {
            Seq::empty()
        },
{
    let bytes = utf8::char_bytes(c);
    utf8::lemma_char_bytes(c);
    let k = bytes.len() - 1;
    lemma_typing_begun(s, c, k, now);
    input::law_char_completed_once(s.input, c, k);
    output::lemma_printable_bytes(c);
    assert(!output::is_control(bytes[k]));
    assert(bytes.drop_last() =~= bytes.take(k));
    assert(bytes.last() == bytes[k]);
    let begun = s.after_input(bytes.take(k), now);
    assert(begun.emulator == s.emulator);
    assert(s.after_input(bytes, now) =~= with_char(s, c, now));
    assert(s.overlays(bytes, now) =~= begun.overlay(bytes[k]));
}

/// The session after `text` was typed at `now`: one more prediction for each character.
pub open spec fn with_text(s: SessionState, text: Seq<char>, now: u64) -> SessionState
    decreases text.len(),
{
    if text.len() == 0 {
        s
    } else {
        with_char(with_text(s, text.drop_last(), now), text.last(), now)
    }
}

/// Every prediction that typing `text` at `now` makes lies on the screen.
pub open spec fn fits(s: SessionState, text: Seq<char>, now: u64) -> bool
    decreases text.len(),
{
    text.len() > 0 ==> fits(s, text.drop_last(), now) && prediction_of(
        with_text(s, text.drop_last(), now),
        text.last(),
        now,
    ).cmd.undoable(s.emulator.screen)
}

/// Every character of `text` is printable.
pub open spec fn all_printable(text: Seq<char>) -> bool {
    forall|i: int| 0 <= i < text.len() ==> output::is_printable(#[trigger] text[i])
}

/// Typing text predicts it character by character.
pub proof fn law_typing_text(s: SessionState, text: Seq<char>, now: u64)
    requires
        ready_to_predict(s),
        all_printable(text),
        fits(s, text, now),
    ensures
        s.after_input(vstd::utf8::encode_utf8(text), now) == with_text(s, text, now),
        ready_to_predict(with_text(s, text, now)),
        with_text(s, text, now).predicts() == s.predicts(),
        with_text(s, text, now).emulator.screen == s.emulator.screen,
        with_text(s, text, now).emulator.pending.len() == s.emulator.pending.len() + text.len(),
        forall|i: int|
            s.emulator.pending.len() <= i < with_text(s, text, now).emulator.pending.len() ==> (
            #[trigger] with_text(s, text, now).emulator.pending[i]).shown == s.predicts(),
    decreases text.len(),
{
    if text.len() > 0 {
        let front = text.drop_last();
        assert forall|i: int| 0 <= i < front.len() implies output::is_printable(
            #[trigger] front[i],
        ) by {
            assert(front[i] == text[i]);
        }
        law_typing_text(s, front, now);
        assert(front.push(text.last()) =~= text);
        utf8::lemma_encode_push(front, text.last());
        law_typing_in_pieces(
            s,
            vstd::utf8::encode_utf8(front),
            utf8::char_bytes(text.last()),
            now,
        );
        assert(output::is_printable(text[text.len() - 1]));
        let before = with_text(s, front, now);
        law_typing_a_char(before, text.last(), now);
        if !s.predicts() {
            session::lemma_probe_draws_nothing(
                before.emulator.pending,
                prediction_of(before, text.last(), now),
            );
        }
    }
}

/// One more character behind the end of the spelling.
proof fn lemma_spells_push(
    pending: Seq<Prediction>,
    text: Seq<char>,
    row: nat,
    col: nat,
    newest: Prediction,
    c: char,
)
    requires
        prediction::spells(pending, text, row, col),
        prediction::predicts(newest.cmd, row, (col + prediction::total_delta(pending)) as nat, c),
    ensures
        prediction::spells(pending.push(newest), text.push(c), row, col),
    decreases pending.len(),
{
    let longer = pending.push(newest);
    let more = text.push(c);
    reveal_with_fuel(prediction::spells, 2);
    if pending.len() == 0 {
        assert(longer.skip(1) =~= Seq::<Prediction>::empty());
        assert(more.skip(1) =~= Seq::<char>::empty());
    } else {
        lemma_delta_front(pending);
        assert(longer[0] == pending[0]);
        assert(more[0] == text[0]);
        assert(longer.skip(1) =~= pending.skip(1).push(newest));
        assert(more.skip(1) =~= text.skip(1).push(c));
        lemma_spells_push(
            pending.skip(1),
            text.skip(1),
            row,
            (col + pending[0].cmd.delta()) as nat,
            newest,
            c,
        );
    }
}

/// The columns of all predictions are those of the first and those of the rest.
proof fn lemma_delta_front(pending: Seq<Prediction>)
    requires
        pending.len() > 0,
    ensures
        prediction::total_delta(pending) == pending[0].cmd.delta() + prediction::total_delta(
            pending.skip(1),
        ),
    decreases pending.len(),
{
    reveal_with_fuel(prediction::total_delta, 2);
    if pending.len() == 1 {
        assert(pending.drop_last() =~= Seq::<Prediction>::empty());
        assert(pending.skip(1) =~= Seq::<Prediction>::empty());
    } else {
        lemma_delta_front(pending.drop_last());
        assert(pending.drop_last().skip(1) =~= pending.skip(1).drop_last());
        assert(pending.skip(1).last() == pending.last());
        assert(pending.drop_last()[0] == pending[0]);
    }
}

/// Predictions that spell text move the cursor to the right.
proof fn lemma_spelling_moves_right(
    pending: Seq<Prediction>,
    text: Seq<char>,
    row: nat,
    col: nat,
)
    requires
        prediction::spells(pending, text, row, col),
    ensures
        prediction::total_delta(pending) >= 0,
    decreases pending.len(),
{
    if pending.len() > 0 {
        lemma_delta_front(pending);
        lemma_spelling_moves_right(
            pending.skip(1),
            text.skip(1),
            row,
            (col + pending[0].cmd.delta()) as nat,
        );
    }
}

/// Nothing was predicted yet, and text can be typed and echoed from here.
pub open spec fn fresh(s: SessionState) -> bool {
    &&& s.wf()
    &&& ready_to_predict(s)
    &&& s.emulator.pending.len() == 0
    &&& s.held.len() == 0
    &&& s.emulator.alt.partial.len() == 0
    &&& s.emulator.screen.holds(
        s.emulator.screen.cursor().0,
        s.emulator.screen.cursor().1,
    )
}

/// The predictions spell the text that was typed, from the server's cursor on.
pub proof fn law_typed_text_is_spelled(s: SessionState, text: Seq<char>, now: u64)
    requires
        fresh(s),
        all_printable(text),
        fits(s, text, now),
        text.len() <= MAX_PENDING,
    ensures
        prediction::spells(
            with_text(s, text, now).emulator.pending,
            text,
            s.emulator.screen.cursor().0,
            s.emulator.screen.cursor().1,
        ),
        with_text(s, text, now).emulator.screen == s.emulator.screen,
        with_text(s, text, now).emulator.alt == s.emulator.alt,
        with_text(s, text, now).held == s.held,
        with_text(s, text, now).adaptive == s.adaptive,
    decreases text.len(),
{
    if text.len() > 0 {
        let front = text.drop_last();
        let c = text.last();
        let (row, col) = s.emulator.screen.cursor();
        assert forall|i: int| 0 <= i < front.len() implies output::is_printable(
            #[trigger] front[i],
        ) by {
            assert(front[i] == text[i]);
        }
        law_typed_text_is_spelled(s, front, now);
        law_typing_text(s, front, now);
        let before = with_text(s, front, now);
        let pending = before.emulator.pending;
        lemma_spelling_moves_right(pending, front, row, col);
        prediction::lemma_total_delta(pending);
        lemma_spells_push(pending, front, row, col, prediction_of(before, c, now), c);
        assert(front.push(c) =~= text);
    }
}

/// Printable text leaves the alternate screen's watcher as it is, and passes the
/// server buffer in one piece.
proof fn lemma_plain(s: SessionState, text: Seq<char>)
    requires
        s.held.len() == 0,
        s.emulator.alt.partial.len() == 0,
        all_printable(text),
    ensures
        s.ready(vstd::utf8::encode_utf8(text)) == vstd::utf8::encode_utf8(text),
        !s.emulator.alt.enters(vstd::utf8::encode_utf8(text)),
        output::printed(vstd::utf8::encode_utf8(text)) == text,
{
    let data = vstd::utf8::encode_utf8(text);
    vstd::utf8::encode_utf8_valid_utf8(text);
    server_buffer::law_cut_text(data, data.len() as int);
    assert(data.take(data.len() as int) =~= data);
    assert(s.held + data =~= data);
    output::law_prints_text(text, Seq::empty());
    assert(data + Seq::<u8>::empty() =~= data);
    assert(text + output::printed(Seq::empty()) =~= text);
    lemma_no_escape(text);
    alt_screen::law_plain_text(s.emulator.alt, data);
}

/// Printable text holds no escape character.
proof fn lemma_no_escape(text: Seq<char>)
    requires
        all_printable(text),
    ensures
        !vstd::utf8::encode_utf8(text).contains(ESC),
    decreases text.len(),
{
    if text.len() > 0 {
        let tail = text.drop_first();
        assert forall|i: int| 0 <= i < tail.len() implies output::is_printable(
            #[trigger] tail[i],
        ) by {
            assert(tail[i] == text[i + 1]);
        }
        lemma_no_escape(tail);
        output::lemma_printable_bytes(text[0]);
        let first = utf8::char_bytes(text[0]);
        let rest = vstd::utf8::encode_utf8(tail);
        assert forall|i: int| 0 <= i < (first + rest).len() implies (first + rest)[i] != ESC by {
            if i < first.len() {
                assert(!output::is_control(first[i]));
            } else {
                assert((first + rest)[i] == rest[i - first.len()]);
                assert(rest.contains(rest[i - first.len()]));
            }
        }
        assert(vstd::utf8::encode_utf8(text) == first + rest);
    }
}

/// Text that is typed and then echoed by the server is confirmed to the last
/// character: nothing is undone, the server's bytes are all that is printed,
/// and no prediction is left.
pub proof fn law_echoed_text_is_confirmed(
    s: SessionState,
    text: Seq<char>,
    now: u64,
    later: u64,
)
    requires
        fresh(s),
        all_printable(text),
        fits(s, text, now),
        0 < text.len() <= MAX_PENDING,
    ensures
        ({
            let data = vstd::utf8::encode_utf8(text);
            let typed = s.after_input(data, now);
            &&& typed.emulator.verdict(data) == Verdict::Confirmed(text.len())
            &&& typed.received(data, later).emulator.pending.len() == 0
            &&& typed.reply(data, later) == Some(
                session::repositioned(typed.emulator.pending, s.emulator.screen.cursor()) + data,
            )
        }),
{
    let data = vstd::utf8::encode_utf8(text);
    let typed = s.after_input(data, now);
    law_typing_text(s, text, now);
    law_typed_text_is_spelled(s, text, now);
    lemma_plain(typed, text);
    let cursor = s.emulator.screen.cursor();
    prediction::law_echo_confirms(
        typed.emulator.pending,
        text,
        text.len(),
        output::erasures(data),
        cursor,
        typed.emulator.fed(data).screen.cursor(),
    );
    assert(text.take(text.len() as int) =~= text);
    vstd::utf8::encode_utf8_first_scalar(text);
    let back = session::repositioned(typed.emulator.pending, cursor);
    let none = Seq::<u8>::empty();
    assert(none + back + data + none =~= back + data);
}

/// Text that is typed and then answered with another character is confirmed up
/// to there and undone from there on: where predictions are shown, the undoing
/// comes first, then the server's bytes; and no prediction is left.
pub proof fn law_other_text_is_undone(
    s: SessionState,
    text: Seq<char>,
    k: nat,
    c: char,
    now: u64,
    later: u64,
)
    requires
        fresh(s),
        all_printable(text),
        fits(s, text, now),
        k < text.len() <= MAX_PENDING,
        output::is_printable(c),
        c != text[k as int],
    ensures
        ({
            let typed = s.after_input(vstd::utf8::encode_utf8(text), now);
            let data = vstd::utf8::encode_utf8(text.take(k as int).push(c));
            let shown = typed.emulator.fed(data);
            &&& typed.emulator.verdict(data) == Verdict::Rollback(k)
            &&& typed.received(data, later).emulator.pending.len() == 0
            &&& s.predicts() ==> typed.reply(data, later) == Some(
                prediction::rollback(shown.pending.skip(k as int), shown.screen)
                    + session::repositioned(
                    typed.emulator.pending,
                    s.emulator.screen.cursor(),
                ) + data,
            )
        }),
{
    let answer = text.take(k as int).push(c);
    let typed = s.after_input(vstd::utf8::encode_utf8(text), now);
    let data = vstd::utf8::encode_utf8(answer);
    law_typing_text(s, text, now);
    law_typed_text_is_spelled(s, text, now);
    assert forall|i: int| 0 <= i < answer.len() implies output::is_printable(
        #[trigger] answer[i],
    ) by {
        if i < k {
            assert(answer[i] == text[i]);
        }
    }
    lemma_plain(typed, answer);
    let cursor = s.emulator.screen.cursor();
    prediction::law_other_char_refutes(
        typed.emulator.pending,
        text,
        k,
        c,
        Seq::empty(),
        output::erasures(data),
        cursor,
        typed.emulator.fed(data).screen.cursor(),
    );
    assert(answer + Seq::<char>::empty() =~= answer);
    vstd::utf8::encode_utf8_first_scalar(answer);
    if s.predicts() {
        assert(typed.emulator.pending[0].shown);
    }
    let undo = typed.undone(data);
    let back = session::repositioned(typed.emulator.pending, cursor);
    assert(undo + back + data + Seq::<u8>::empty() =~= undo + back + data);
}

/// Where the measurements decide and nothing was measured yet, a character whose
/// echo takes more than 30 ms turns predictions on: typing shows nothing before
/// the echo, and everything that is typed after it is shown at once.
pub proof fn law_auto_turns_on(s: SessionState, c: char, sent: u64, answered: u64)
    requires
        s.wf(),
        s.adaptive,
        s.input.enabled,
        s.input.utf8.len() == 0,
        s.input.esc.len() == 0,
        !s.emulator.alt.active,
        s.emulator.alt.partial.len() == 0,
        s.emulator.pending.len() == 0,
        s.held.len() == 0,
        s.emulator.adaptive.srtt is None,
        output::is_printable(c),
        clock::elapsed(sent, answered) > SRTT_TRIGGER_HIGH,
        s.emulator.screen.holds(
            s.emulator.screen.cursor().0,
            s.emulator.screen.cursor().1,
        ),
    ensures
        ({
            let data = utf8::char_bytes(c);
            let end = s.after_input(data, sent).received(data, answered);
            &&& end.predicts()
            &&& ready_to_predict(end)
            &&& end.emulator.pending.len() == 0
            &&& end.emulator.adaptive.srtt == Some(clock::elapsed(sent, answered))
        }),
{
    let text = seq![c];
    let data = utf8::char_bytes(c);
    utf8::lemma_encode_push(Seq::empty(), c);
    assert(Seq::<char>::empty().push(c) =~= text);
    assert(vstd::utf8::encode_utf8(Seq::empty()) + data =~= data);
    assert(vstd::utf8::encode_utf8(text) == data);
    reveal_with_fuel(fits, 2);
    reveal_with_fuel(with_text, 2);
    assert(text.drop_last() =~= Seq::<char>::empty());
    law_echoed_text_is_confirmed(s, text, sent, answered);
    law_typing_text(s, text, sent);
    let typed = s.after_input(data, sent);
    lemma_plain(typed, text);
    lemma_no_escape(text);
    alt_screen::law_plain_text(typed.emulator.alt, data);
    reveal_with_fuel(prediction::measured, 2);
}

/// Typing one byte does what that byte does, and typing nothing does nothing.
pub proof fn law_typing_a_byte(s: SessionState, byte: u8, now: u64)
    ensures
        s.after_input(Seq::empty(), now) == s,
        s.overlays(Seq::empty(), now).len() == 0,
        s.shows_all(Seq::empty(), now),
        s.after_input(seq![byte], now) == s.typed(byte, now),
        s.overlays(seq![byte], now) == s.overlay(byte),
        s.shows_all(seq![byte], now) == s.shows(byte),
{
    let none = Seq::<u8>::empty();
    assert(seq![byte].drop_last() =~= none);
    assert(seq![byte].last() == byte);
    reveal_with_fuel(SessionState::after_input, 2);
    reveal_with_fuel(SessionState::overlays, 2);
    reveal_with_fuel(SessionState::shows_all, 2);
    assert(none + s.overlay(byte) =~= s.overlay(byte));
}

/// Text that is typed and echoed is confirmed, whatever is typed behind it before
/// the echo comes, backspaces among it: the predictions for the text are taken
/// off, those for the rest stay, and nothing is undone.
pub proof fn law_echo_of_the_beginning(
    s: SessionState,
    text: Seq<char>,
    rest: Seq<u8>,
    now: u64,
    later: u64,
)
    requires
        fresh(s),
        all_printable(text),
        fits(s, text, now),
        0 < text.len() <= MAX_PENDING,
    ensures
        ({
            let echo = vstd::utf8::encode_utf8(text);
            let typed = s.after_input(echo + rest, now);
            &&& typed.emulator.verdict(echo) == Verdict::Confirmed(text.len())
            &&& typed.received(echo, later).emulator.pending == typed.emulator.pending.skip(
                text.len() as int,
            )
            &&& typed.undone(echo).len() == 0
        }),
{
    let echo = vstd::utf8::encode_utf8(text);
    let before = s.after_input(echo, now);
    let typed = s.after_input(echo + rest, now);
    let (row, col) = s.emulator.screen.cursor();
    law_typing_in_pieces(s, echo, rest, now);
    law_typing_text(s, text, now);
    law_typed_text_is_spelled(s, text, now);
    session::law_typing_only_predicts(before, rest, now);
    lemma_plain(typed, text);
    let pending = before.emulator.pending;
    lemma_spelling_begins(pending, text, row, col);
    assert(pending.len() == text.len());
    assert(prediction::begins_with_text(typed.emulator.pending, text, row, col)) by {
        let all = typed.emulator.pending;
        assert(all.take(pending.len() as int) == pending);
        assert forall|i: int| 0 <= i < text.len() implies #[trigger] all[i] == pending[i] by {
            assert(all.take(pending.len() as int)[i] == all[i]);
        }
    }
    prediction::law_echo_confirms_oldest(
        typed.emulator.pending,
        text,
        output::erasures(echo),
        (row, col),
        typed.emulator.fed(echo).screen.cursor(),
    );
    vstd::utf8::encode_utf8_first_scalar(text);
}

/// Predictions that spell a text are its characters, side by side.
proof fn lemma_spelling_begins(pending: Seq<Prediction>, text: Seq<char>, row: nat, col: nat)
    requires
        prediction::spells(pending, text, row, col),
    ensures
        pending.len() == text.len(),
        prediction::begins_with_text(pending, text, row, col),
    decreases pending.len(),
{
    if pending.len() > 0 {
        let rest = pending.skip(1);
        let next = (col + pending[0].cmd.delta()) as nat;
        lemma_spelling_begins(rest, text.skip(1), row, next);
        assert forall|i: int| 0 <= i < text.len() implies prediction::is_char_on(
            (#[trigger] pending[i]).cmd,
            row,
            text[i],
        ) by {
            if i > 0 {
                assert(rest[i - 1] == pending[i]);
                assert(text.skip(1)[i - 1] == text[i]);
            }
        }
        assert forall|i: int, j: int|
            0 <= i && i + 1 == j && j < text.len() implies prediction::char_start(
            (#[trigger] pending[j]).cmd,
        ) == prediction::char_end((#[trigger] pending[i]).cmd) by {
            assert(rest[j - 1] == pending[j]);
            if i > 0 {
                assert(rest[i - 1] == pending[i]);
            }
        }
    }
}

} // verus!
