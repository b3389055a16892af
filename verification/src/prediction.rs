//! The queue of predictions that wait for the server's answer, oldest first, and
//! what an answer does to them.

use crate::adaptive::Adaptive;
use crate::ansi;
use crate::clock;
use crate::command::Command;
use crate::screen::ScreenState;
use vstd::prelude::*;

verus! {

/// A prediction that waits for the server's answer.
#[derive(Debug, Clone, Copy, PartialEq, Eq, Structural)]
pub struct Prediction {
    /// What is predicted.
    pub cmd: Command,
    /// When it was made.
    pub made: u64,
    /// Its overlay is shown. One that is not only measures the round trip.
    pub shown: bool,
}

/// Some of the predictions are shown.
pub open spec fn drawn(pending: Seq<Prediction>) -> bool {
    exists|i: int| 0 <= i < pending.len() && (#[trigger] pending[i]).shown
}

/// Columns by which the predictions together move the cursor.
pub open spec fn total_delta(pending: Seq<Prediction>) -> int
    decreases pending.len(),
{
    if pending.len() == 0 {
        0
    } else {
        total_delta(pending.drop_last()) + pending.last().cmd.delta()
    }
}

/// Each prediction moves the cursor by less than 256 columns.
pub proof fn lemma_total_delta(pending: Seq<Prediction>)
    ensures
        -255 * pending.len() <= total_delta(pending) <= 255 * pending.len(),
    decreases pending.len(),
{
    if pending.len() > 0 {
        lemma_total_delta(pending.drop_last());
    }
}

/// Number of backspaces among the predictions.
pub open spec fn backspace_count(pending: Seq<Prediction>) -> nat
    decreases pending.len(),
{
    if pending.len() == 0 {
        0
    } else {
        backspace_count(pending.drop_last()) + if pending.last().cmd is Backspace {
            1nat
        } else {
            0nat
        }
    }
}

/// Index of the newest character among the predictions; -1 if there is none.
pub open spec fn last_char(pending: Seq<Prediction>) -> int
    decreases pending.len(),
{
    if pending.len() == 0 {
        -1
    } else if pending.last().cmd is Char {
        pending.len() - 1
    } else {
        last_char(pending.drop_last())
    }
}

/// Every prediction that is shown can be undone on `screen`.
pub open spec fn all_undoable(pending: Seq<Prediction>, screen: ScreenState) -> bool {
    forall|i: int|
        0 <= i < pending.len() && (#[trigger] pending[i]).shown ==> pending[i].cmd.undoable(screen)
}

/// Where the cursor will be once every prediction has come true; the first
/// column holds it back.
pub open spec fn prediction_end(pending: Seq<Prediction>, cursor: (nat, nat)) -> (nat, nat) {
    let col = cursor.1 + total_delta(pending);
    (
        cursor.0,
        if col >= 0 {
            col as nat
        } else {
            0
        },
    )
}

/// The bytes that undo the predictions that are shown, newest first.
pub open spec fn undo_all(pending: Seq<Prediction>, screen: ScreenState) -> Seq<u8>
    decreases pending.len(),
{
    if pending.len() == 0 {
        Seq::empty()
    } else {
        (if pending.last().shown {
            pending.last().cmd.undone_on(screen)
        } else {
            Seq::empty()
        }) + undo_all(pending.drop_last(), screen)
    }
}

/// The bytes that undo the predictions and put the cursor where the server has it.
pub open spec fn rollback(pending: Seq<Prediction>, screen: ScreenState) -> Seq<u8> {
    undo_all(pending, screen) + ansi::move_to(screen.cursor().0, screen.cursor().1)
}

/// What the server's answer says of the predictions.
pub enum Verdict {
    /// Nothing yet.
    Pending,
    /// That many of the oldest have come true.
    Confirmed(nat),
    /// That many of the oldest have come true and the next one is wrong, so that
    /// all that are left have to be undone.
    Rollback(nat),
}

/// The predicted character stands at (`row`, `col`) and is `ch`.
pub open spec fn predicts(cmd: Command, row: nat, col: nat, ch: char) -> bool {
    match cmd {
        Command::Char { row: r, col: c, ch: predicted, .. } => r == row && c == col && predicted
            == ch,
        _ => false,
    }
}

/// Number of the oldest predictions that the printed characters confirm one by
/// one, when the first of them is printed at (`row`, `col`).
pub open spec fn echoed(
    pending: Seq<Prediction>,
    events: Seq<char>,
    row: nat,
    col: nat,
) -> nat
    decreases pending.len(),
{
    if pending.len() > 0 && events.len() > 0 && predicts(pending[0].cmd, row, col, events[0]) {
        1 + echoed(
            pending.skip(1),
            events.skip(1),
            row,
            (col + pending[0].cmd.delta()) as nat,
        )
    } else {
        0
    }
}

/// Number of the oldest predictions that are backspaces without a break.
pub open spec fn leading_backspaces(pending: Seq<Prediction>) -> nat
    decreases pending.len(),
{
    if pending.len() > 0 && pending[0].cmd is Backspace {
        1 + leading_backspaces(pending.skip(1))
    } else {
        0
    }
}

/// `n` confirmations, or none yet.
pub open spec fn confirmed(n: nat) -> Verdict {
    if n > 0 {
        Verdict::Confirmed(n)
    } else {
        Verdict::Pending
    }
}

/// Every character is a blank.
pub open spec fn all_blank(events: Seq<char>) -> bool {
    forall|i: int| 0 <= i < events.len() ==> #[trigger] events[i] == ' '
}

/// As many of the leading backspaces as `effects` bear out.
pub open spec fn backspaces_confirmed(pending: Seq<Prediction>, effects: nat) -> Verdict {
    let backspaces = leading_backspaces(pending);
    confirmed(
        if backspaces < effects {
            backspaces
        } else {
            effects
        },
    )
}

/// What server output that prints `events`, holds `erased` backspace and delete
/// characters, and takes the cursor from `before` to `after` says of the
/// predictions.
///
/// A move to the left on the same row that prints nothing but blanks confirms
/// one predicted backspace for each column; without a move, each backspace or
/// delete character confirms one. Otherwise printed characters are held against
/// the predictions one by one; a character where another one or a backspace was
/// predicted is a contradiction. Output that prints nothing but moves the cursor
/// contradicts a predicted character.
pub open spec fn judge(
    pending: Seq<Prediction>,
    events: Seq<char>,
    erased: nat,
    before: (nat, nat),
    after: (nat, nat),
) -> Verdict {
    if pending.len() == 0 {
        Verdict::Pending
    } else if pending[0].cmd is Backspace && all_blank(events) && after.0 == before.0 && after.1
        < before.1 {
        backspaces_confirmed(pending, (before.1 - after.1) as nat)
    } else if events.len() > 0 {
        let n = echoed(pending, events, before.0, before.1);
        if n < pending.len() && n < events.len() && !(pending[n as int].cmd is CursorMove) {
            Verdict::Rollback(n)
        } else {
            confirmed(n)
        }
    } else if pending[0].cmd is Char {
        if before == after {
            Verdict::Pending
        } else {
            Verdict::Rollback(0)
        }
    } else {
        backspaces_confirmed(pending, erased)
    }
}

/// No more characters are echoed than were predicted and printed.
proof fn lemma_echoed(pending: Seq<Prediction>, events: Seq<char>, row: nat, col: nat)
    ensures
        echoed(pending, events, row, col) <= pending.len(),
        echoed(pending, events, row, col) <= events.len(),
    decreases pending.len(),
{
    if pending.len() > 0 && events.len() > 0 && predicts(pending[0].cmd, row, col, events[0]) {
        lemma_echoed(
            pending.skip(1),
            events.skip(1),
            row,
            (col + pending[0].cmd.delta()) as nat,
        );
    }
}

/// No more backspaces lead than were predicted.
proof fn lemma_leading_backspaces(pending: Seq<Prediction>)
    ensures
        leading_backspaces(pending) <= pending.len(),
    decreases pending.len(),
{
    if pending.len() > 0 && pending[0].cmd is Backspace {
        lemma_leading_backspaces(pending.skip(1));
    }
}

/// A verdict speaks only of predictions that were made: no more are confirmed
/// than there are, and what is found wrong is one of them.
pub proof fn law_verdict_in_range(
    pending: Seq<Prediction>,
    events: Seq<char>,
    erased: nat,
    before: (nat, nat),
    after: (nat, nat),
)
    ensures
        judge(pending, events, erased, before, after) matches Verdict::Confirmed(n) ==> 1 <= n
            <= pending.len(),
        judge(pending, events, erased, before, after) matches Verdict::Rollback(n) ==> n
            < pending.len(),
{
    lemma_echoed(pending, events, before.0, before.1);
    lemma_leading_backspaces(pending);
}

/// The measurements after the `n` oldest predictions were confirmed at `now`:
/// each one's age is a round trip.
pub open spec fn measured(
    adaptive: Adaptive,
    pending: Seq<Prediction>,
    n: nat,
    now: u64,
) -> Adaptive
    decreases n,
{
    if n == 0 {
        adaptive
    } else {
        measured(adaptive, pending, (n - 1) as nat, now).sampled(
            clock::elapsed(pending[n - 1].made, now),
            now,
            n < pending.len(),
        )
    }
}

/// The predictions spell `text` from (`row`, `col`) on, each character right
/// behind the one before.
pub open spec fn spells(
    pending: Seq<Prediction>,
    text: Seq<char>,
    row: nat,
    col: nat,
) -> bool
    decreases pending.len(),
{
    if pending.len() == 0 {
        text.len() == 0
    } else {
        &&& text.len() > 0
        &&& predicts(pending[0].cmd, row, col, text[0])
        &&& spells(pending.skip(1), text.skip(1), row, (col + pending[0].cmd.delta()) as nat)
    }
}

/// As many predictions are echoed as characters agree.
proof fn lemma_echoed_spelling(
    pending: Seq<Prediction>,
    text: Seq<char>,
    events: Seq<char>,
    k: nat,
    row: nat,
    col: nat,
)
    requires
        spells(pending, text, row, col),
        k <= text.len(),
        k <= events.len(),
        text.take(k as int) == events.take(k as int),
        k < text.len() && k < events.len() ==> text[k as int] != events[k as int],
    ensures
        pending.len() == text.len(),
        echoed(pending, events, row, col) == k,
        forall|i: int| 0 <= i < pending.len() ==> (#[trigger] pending[i]).cmd is Char,
    decreases pending.len(),
{
    if pending.len() > 0 {
        let next_col = (col + pending[0].cmd.delta()) as nat;
        if k > 0 {
            assert(text.take(k as int)[0] == text[0]);
            assert(events.take(k as int)[0] == events[0]);
            assert(text.skip(1).take(k - 1) =~= text.take(k as int).skip(1));
            assert(events.skip(1).take(k - 1) =~= events.take(k as int).skip(1));
            lemma_echoed_spelling(
                pending.skip(1),
                text.skip(1),
                events.skip(1),
                (k - 1) as nat,
                row,
                next_col,
            );
        } else {
            let none = Seq::<char>::empty();
            assert(text.skip(1).take(0) =~= none.take(0));
            lemma_echoed_spelling(
                pending.skip(1),
                text.skip(1),
                none,
                0,
                row,
                next_col,
            );
        }
        assert forall|i: int| 0 <= i < pending.len() implies (#[trigger] pending[i]).cmd is Char by {
            if i > 0 {
                assert(pending.skip(1)[i - 1] == pending[i]);
            }
        }
    }
}

/// A server that echoes what was typed confirms it: the first `k` of the
/// predicted characters, printed where they were predicted, confirm `k`
/// predictions.
pub proof fn law_echo_confirms(
    pending: Seq<Prediction>,
    text: Seq<char>,
    k: nat,
    erased: nat,
    cursor: (nat, nat),
    after: (nat, nat),
)
    requires
        spells(pending, text, cursor.0, cursor.1),
        0 < k <= text.len(),
    ensures
        judge(pending, text.take(k as int), erased, cursor, after) == Verdict::Confirmed(k),
{
    assert(text.take(k as int).take(k as int) =~= text.take(k as int));
    lemma_echoed_spelling(pending, text, text.take(k as int), k, cursor.0, cursor.1);
}

/// Once all predictions are confirmed, what the server prints behind them says
/// nothing against them.
pub proof fn law_echo_and_more_confirms(
    pending: Seq<Prediction>,
    text: Seq<char>,
    more: Seq<char>,
    erased: nat,
    cursor: (nat, nat),
    after: (nat, nat),
)
    requires
        spells(pending, text, cursor.0, cursor.1),
        text.len() > 0,
    ensures
        judge(pending, text + more, erased, cursor, after) == Verdict::Confirmed(text.len()),
{
    assert(text.take(text.len() as int) =~= (text + more).take(text.len() as int));
    lemma_echoed_spelling(pending, text, text + more, text.len(), cursor.0, cursor.1);
}

/// A server that prints another character than was predicted refutes the
/// predictions from there on; those before it are confirmed.
pub proof fn law_other_char_refutes(
    pending: Seq<Prediction>,
    text: Seq<char>,
    k: nat,
    ch: char,
    more: Seq<char>,
    erased: nat,
    cursor: (nat, nat),
    after: (nat, nat),
)
    requires
        spells(pending, text, cursor.0, cursor.1),
        k < text.len(),
        ch != text[k as int],
    ensures
        judge(pending, text.take(k as int).push(ch) + more, erased, cursor, after)
            == Verdict::Rollback(k),
{
    let events = text.take(k as int).push(ch) + more;
    assert(events.take(k as int) =~= text.take(k as int));
    assert(events[k as int] == ch);
    lemma_echoed_spelling(pending, text, events, k, cursor.0, cursor.1);
    assert(pending[k as int].cmd is Char);
}

/// A server that moves the cursor without printing refutes a predicted
/// character: it took the key for a command.
pub proof fn law_bare_move_refutes_char(
    pending: Seq<Prediction>,
    erased: nat,
    before: (nat, nat),
    after: (nat, nat),
)
    requires
        pending.len() > 0,
        pending[0].cmd is Char,
        before != after,
    ensures
        judge(pending, Seq::empty(), erased, before, after) == Verdict::Rollback(0),
{
}

/// A server that moves the cursor to the left on its row, and prints nothing but
/// blanks on the way, confirms as many predicted backspaces as columns.
pub proof fn law_move_left_confirms_backspaces(
    pending: Seq<Prediction>,
    n: nat,
    events: Seq<char>,
    erased: nat,
    before: (nat, nat),
    after: (nat, nat),
)
    requires
        0 < n <= pending.len(),
        forall|i: int| 0 <= i < n ==> (#[trigger] pending[i]).cmd is Backspace,
        before.0 == after.0,
        before.1 == after.1 + n,
        all_blank(events),
    ensures
        judge(pending, events, erased, before, after) == Verdict::Confirmed(n),
{
    lemma_backspaces_lead(pending, n);
    assert(pending[0].cmd is Backspace);
}

/// `n` backspaces in front are counted.
proof fn lemma_backspaces_lead(pending: Seq<Prediction>, n: nat)
    requires
        n <= pending.len(),
        forall|i: int| 0 <= i < n ==> (#[trigger] pending[i]).cmd is Backspace,
    ensures
        leading_backspaces(pending) >= n,
    decreases n,
{
    if n > 0 {
        assert(pending[0].cmd is Backspace);
        assert forall|i: int| 0 <= i < n - 1 implies (#[trigger] pending.skip(1)[i]).cmd
            is Backspace by {
            assert(pending.skip(1)[i] == pending[i + 1]);
        }
        lemma_backspaces_lead(pending.skip(1), (n - 1) as nat);
    }
}

/// A server that answers predicted backspaces with backspace or delete
/// characters confirms as many, though the cursor stays where it is.
pub proof fn law_erasures_confirm_backspaces(
    pending: Seq<Prediction>,
    n: nat,
    cursor: (nat, nat),
)
    requires
        0 < n <= pending.len(),
        forall|i: int| 0 <= i < n ==> (#[trigger] pending[i]).cmd is Backspace,
    ensures
        judge(pending, Seq::empty(), n, cursor, cursor) == Verdict::Confirmed(n),
{
    lemma_backspaces_lead(pending, n);
    assert(pending[0].cmd is Backspace);
}

/// Output that neither prints nor erases nor moves the cursor says nothing.
pub proof fn law_silence_is_pending(pending: Seq<Prediction>, cursor: (nat, nat))
    ensures
        judge(pending, Seq::empty(), 0, cursor, cursor) == Verdict::Pending,
{
}

/// Predictions are undone newest first.
pub proof fn law_undo_newest_first(
    older: Seq<Prediction>,
    newer: Seq<Prediction>,
    screen: ScreenState,
)
    ensures
        undo_all(older + newer, screen) == undo_all(newer, screen) + undo_all(older, screen),
    decreases newer.len(),
{
    if newer.len() == 0 {
        assert(older + newer =~= older);
        assert(undo_all(newer, screen) + undo_all(older, screen) =~= undo_all(older, screen));
    } else {
        law_undo_newest_first(older, newer.drop_last(), screen);
        assert((older + newer).drop_last() =~= older + newer.drop_last());
        assert(undo_all(older + newer, screen) =~= undo_all(newer, screen) + undo_all(
            older,
            screen,
        ));
    }
}

/// The newest character is one, and there is none behind it.
pub proof fn law_last_char(pending: Seq<Prediction>)
    ensures
        -1 <= last_char(pending) < pending.len(),
        last_char(pending) >= 0 ==> pending[last_char(pending)].cmd is Char,
        forall|i: int|
            last_char(pending) < i < pending.len() ==> !((#[trigger] pending[i]).cmd is Char),
    decreases pending.len(),
{
    if pending.len() > 0 && !(pending.last().cmd is Char) {
        let front = pending.drop_last();
        law_last_char(front);
        assert forall|i: int| last_char(pending) < i < pending.len() implies !((
        #[trigger] pending[i]).cmd is Char) by {
            if i < front.len() {
                assert(front[i] == pending[i]);
            }
        }
    }
}

/// The column that a predicted character starts in.
pub open spec fn char_start(cmd: Command) -> nat {
    match cmd {
        Command::Char { col, .. } => col as nat,
        _ => 0,
    }
}

/// The column behind a predicted character.
pub open spec fn char_end(cmd: Command) -> nat {
    match cmd {
        Command::Char { col, width, .. } => (col + width) as nat,
        _ => 0,
    }
}

/// `cmd` is the character `expected` on `row`.
pub open spec fn is_char_on(cmd: Command, row: nat, expected: char) -> bool {
    cmd matches Command::Char { row: r, ch, .. } && r == row && ch == expected
}

/// The oldest predictions are the characters of `text`, one each, on one row and
/// side by side: the first at (`row`, `col`) and each other right behind the one
/// before it. Nothing is said of the predictions behind them.
pub open spec fn begins_with_text(
    pending: Seq<Prediction>,
    text: Seq<char>,
    row: nat,
    col: nat,
) -> bool {
    &&& text.len() <= pending.len()
    &&& text.len() > 0 ==> char_start(pending[0].cmd) == col
    &&& forall|i: int|
        0 <= i < text.len() ==> is_char_on((#[trigger] pending[i]).cmd, row, text[i])
    &&& forall|i: int, j: int|
        0 <= i && i + 1 == j && j < text.len() ==> char_start((#[trigger] pending[j]).cmd)
            == char_end((#[trigger] pending[i]).cmd)
}

/// Text behind its first character.
proof fn lemma_begins_behind(pending: Seq<Prediction>, text: Seq<char>, row: nat, col: nat)
    requires
        begins_with_text(pending, text, row, col),
        text.len() > 0,
    ensures
        predicts(pending[0].cmd, row, col, text[0]),
        begins_with_text(
            pending.skip(1),
            text.skip(1),
            row,
            (col + pending[0].cmd.delta()) as nat,
        ),
        pending[0].cmd is Char,
{
    let rest = pending.skip(1);
    let more = text.skip(1);
    assert(is_char_on(pending[0].cmd, row, text[0]));
    if more.len() > 0 {
        assert(rest[0] == pending[1]);
        assert(char_start(pending[1].cmd) == char_end(pending[0].cmd));
    }
    assert forall|i: int| 0 <= i < more.len() implies is_char_on(
        (#[trigger] rest[i]).cmd,
        row,
        more[i],
    ) by {
        assert(rest[i] == pending[i + 1]);
    }
    assert forall|i: int, j: int| 0 <= i && i + 1 == j && j < more.len() implies char_start(
        (#[trigger] rest[j]).cmd,
    ) == char_end((#[trigger] rest[i]).cmd) by {
        assert(rest[i] == pending[i + 1]);
        assert(rest[j] == pending[j + 1]);
    }
}

/// All of the text is echoed, and what is printed behind it is held against what
/// is predicted behind it.
proof fn lemma_echoed_begin(
    pending: Seq<Prediction>,
    text: Seq<char>,
    events: Seq<char>,
    row: nat,
    col: nat,
)
    requires
        begins_with_text(pending, text, row, col),
        text.len() <= events.len(),
        events.take(text.len() as int) == text,
        !(text.len() < events.len() && begins_with_text(
            pending,
            events.take((text.len() + 1) as int),
            row,
            col,
        )),
    ensures
        echoed(pending, events, row, col) == text.len(),
    decreases text.len(),
{
    if text.len() > 0 {
        lemma_begins_behind(pending, text, row, col);
        assert(events.take(text.len() as int)[0] == events[0]);
        let next = (col + pending[0].cmd.delta()) as nat;
        let more = events.skip(1);
        assert(more.take(text.len() - 1) =~= events.take(text.len() as int).skip(1));
        if text.len() < events.len() && begins_with_text(
            pending.skip(1),
            more.take((text.skip(1).len() + 1) as int),
            row,
            next,
        ) {
            let longer = events.take((text.len() + 1) as int);
            let rest = pending.skip(1);
            assert(more.take((text.skip(1).len() + 1) as int) =~= longer.skip(1));
            assert forall|i: int| 0 <= i < longer.len() implies is_char_on(
                (#[trigger] pending[i]).cmd,
                row,
                longer[i],
            ) by {
                if i > 0 {
                    assert(rest[i - 1] == pending[i]);
                    assert(longer.skip(1)[i - 1] == longer[i]);
                }
            }
            assert forall|i: int, j: int|
                0 <= i && i + 1 == j && j < longer.len() implies char_start(
                (#[trigger] pending[j]).cmd,
            ) == char_end((#[trigger] pending[i]).cmd) by {
                assert(rest[j - 1] == pending[j]);
                if i > 0 {
                    assert(rest[i - 1] == pending[i]);
                } else {
                    assert(is_char_on(pending[0].cmd, row, longer[0]));
                }
            }
            assert(rest.len() == pending.len() - 1);
        }
        lemma_echoed_begin(pending.skip(1), text.skip(1), more, row, next);
    } else if pending.len() > 0 && events.len() > 0 && predicts(
        pending[0].cmd,
        row,
        col,
        events[0],
    ) {
        assert(begins_with_text(pending, events.take(1), row, col));
    }
}

/// A server that prints exactly the text that the oldest predictions are
/// confirms those and no others, whatever is predicted behind them: more text,
/// backspaces or cursor moves.
pub proof fn law_echo_confirms_oldest(
    pending: Seq<Prediction>,
    text: Seq<char>,
    erased: nat,
    cursor: (nat, nat),
    after: (nat, nat),
)
    requires
        begins_with_text(pending, text, cursor.0, cursor.1),
        text.len() > 0,
    ensures
        judge(pending, text, erased, cursor, after) == Verdict::Confirmed(text.len()),
{
    lemma_begins_behind(pending, text, cursor.0, cursor.1);
    assert(text.take(text.len() as int) =~= text);
    lemma_echoed_begin(pending, text, text, cursor.0, cursor.1);
}

/// A server that goes on with another character than is predicted next, or
/// prints one where a backspace is predicted next or the next character lies
/// elsewhere, contradicts that prediction; those before it have come true. Blanks
/// that erase on the way to the left contradict no backspace.
pub proof fn law_print_contradicts(
    pending: Seq<Prediction>,
    text: Seq<char>,
    ch: char,
    more: Seq<char>,
    erased: nat,
    before: (nat, nat),
    after: (nat, nat),
)
    requires
        begins_with_text(pending, text, before.0, before.1),
        text.len() < pending.len(),
        !(pending[text.len() as int].cmd is CursorMove),
        !begins_with_text(pending, text.push(ch), before.0, before.1),
        text.len() > 0 || pending[0].cmd is Char || after.0 != before.0 || after.1 >= before.1
            || exists|i: int|
            0 <= i < (text.push(ch) + more).len() && #[trigger] (text.push(ch) + more)[i] != ' ',
    ensures
        judge(pending, text.push(ch) + more, erased, before, after) == Verdict::Rollback(
            text.len(),
        ),
{
    let events = text.push(ch) + more;
    assert(events.take(text.len() as int) =~= text);
    assert(events.take((text.len() + 1) as int) =~= text.push(ch));
    if text.len() > 0 {
        lemma_begins_behind(pending, text, before.0, before.1);
    }
    lemma_echoed_begin(pending, text, events, before.0, before.1);
}

/// Where a cursor move is predicted next, or nothing is, what the server prints
/// behind the predicted text says nothing more: the text has come true, if there
/// was any.
pub proof fn law_print_beyond_text(
    pending: Seq<Prediction>,
    text: Seq<char>,
    more: Seq<char>,
    erased: nat,
    before: (nat, nat),
    after: (nat, nat),
)
    requires
        begins_with_text(pending, text, before.0, before.1),
        text.len() < pending.len() ==> pending[text.len() as int].cmd is CursorMove,
        text.len() + more.len() > 0,
    ensures
        judge(pending, text + more, erased, before, after) == if text.len() > 0 {
            Verdict::Confirmed(text.len())
        } else {
            Verdict::Pending
        },
{
    let events = text + more;
    assert(events.take(text.len() as int) =~= text);
    if text.len() > 0 {
        lemma_begins_behind(pending, text, before.0, before.1);
    }
    if text.len() < events.len() && begins_with_text(
        pending,
        events.take((text.len() + 1) as int),
        before.0,
        before.1,
    ) {
        assert(pending[text.len() as int].cmd is Char);
    }
    lemma_echoed_begin(pending, text, events, before.0, before.1);
}

/// The oldest `n` predictions are backspaces, and the one behind them is none.
pub open spec fn begins_with_backspaces(pending: Seq<Prediction>, n: nat) -> bool {
    &&& n <= pending.len()
    &&& forall|i: int| 0 <= i < n ==> (#[trigger] pending[i]).cmd is Backspace
    &&& n < pending.len() ==> !(pending[n as int].cmd is Backspace)
}

/// They are counted.
proof fn lemma_leading(pending: Seq<Prediction>, n: nat)
    requires
        begins_with_backspaces(pending, n),
    ensures
        leading_backspaces(pending) == n,
    decreases n,
{
    if n > 0 {
        assert(pending[0].cmd is Backspace);
        assert forall|i: int| 0 <= i < n - 1 implies (#[trigger] pending.skip(1)[i]).cmd
            is Backspace by {
            assert(pending.skip(1)[i] == pending[i + 1]);
        }
        lemma_leading(pending.skip(1), (n - 1) as nat);
    }
}

/// A server that goes to the left on its row, and prints nothing but blanks on
/// the way, confirms one predicted backspace for each column, and no more than
/// there are before anything else is predicted.
pub proof fn law_moves_left_confirm(
    pending: Seq<Prediction>,
    n: nat,
    columns: nat,
    events: Seq<char>,
    erased: nat,
    after: (nat, nat),
)
    requires
        begins_with_backspaces(pending, n),
        n > 0,
        columns > 0,
        forall|i: int| 0 <= i < events.len() ==> #[trigger] events[i] == ' ',
    ensures
        judge(pending, events, erased, (after.0, after.1 + columns), after) == Verdict::Confirmed(
            if columns < n {
                columns
            } else {
                n
            },
        ),
{
    lemma_leading(pending, n);
    assert(pending[0].cmd is Backspace);
}

/// A server that prints nothing and does not go to the left on its row confirms
/// one predicted backspace for each backspace or delete character that it sends,
/// and no more than there are before anything else is predicted.
pub proof fn law_erasures_confirm(
    pending: Seq<Prediction>,
    n: nat,
    erased: nat,
    before: (nat, nat),
    after: (nat, nat),
)
    requires
        begins_with_backspaces(pending, n),
        pending.len() > 0 ==> !(pending[0].cmd is Char),
        n == 0 || after.0 != before.0 || after.1 >= before.1,
    ensures
        judge(pending, Seq::empty(), erased, before, after) == if n > 0 && erased > 0 {
            Verdict::Confirmed(
                if erased < n {
                    erased
                } else {
                    n
                },
            )
        } else {
            Verdict::Pending
        },
{
    lemma_leading(pending, n);
}

/// As many backspaces are confirmed as had an effect, and no more than there are
/// before anything else is predicted.
pub proof fn law_effects_confirm(pending: Seq<Prediction>, n: nat, effects: nat)
    requires
        begins_with_backspaces(pending, n),
    ensures
        backspaces_confirmed(pending, effects) == if n > 0 && effects > 0 {
            Verdict::Confirmed(
                if effects < n {
                    effects
                } else {
                    n
                },
            )
        } else {
            Verdict::Pending
        },
{
    lemma_leading(pending, n);
}

/// A server that prints nothing and leaves the cursor where it is says nothing of
/// a predicted character, whatever it erases; and no output says anything where
/// nothing is predicted.
pub proof fn law_no_answer_yet(
    pending: Seq<Prediction>,
    events: Seq<char>,
    erased: nat,
    before: (nat, nat),
    after: (nat, nat),
)
    requires
        pending.len() == 0 || pending[0].cmd is Char && events.len() == 0 && before == after,
    ensures
        judge(pending, events, erased, before, after) == Verdict::Pending,
{
}

/// The columns of predictions add up, a character's to the right and an erased
/// one's to the left.
pub proof fn law_columns_add_up(a: Seq<Prediction>, b: Seq<Prediction>, p: Prediction)
    ensures
        total_delta(Seq::empty()) == 0,
        total_delta(seq![p]) == match p.cmd {
            Command::Char { width, .. } => width as int,
            Command::Backspace { width, .. } => -(width as int),
            Command::CursorMove { direction: crate::command::Direction::Left, .. } => -1,
            Command::CursorMove { direction: crate::command::Direction::Right, .. } => 1,
            Command::CursorMove { .. } => 0,
        },
        total_delta(a + b) == total_delta(a) + total_delta(b),
    decreases b.len(),
{
    reveal_with_fuel(total_delta, 2);
    assert(seq![p].drop_last() =~= Seq::<Prediction>::empty());
    if b.len() == 0 {
        assert(a + b =~= a);
    } else {
        law_columns_add_up(a, b.drop_last(), p);
        assert((a + b).drop_last() =~= a + b.drop_last());
    }
}

/// The predictions end on the cursor's row, as many columns from the cursor as
/// they move it, but no further to the left than the first column.
pub proof fn law_where_predictions_end(pending: Seq<Prediction>, cursor: (nat, nat))
    ensures
        ({
            let (row, col) = prediction_end(pending, cursor);
            &&& row == cursor.0
            &&& cursor.1 + total_delta(pending) >= 0 ==> col == cursor.1 + total_delta(pending)
            &&& cursor.1 + total_delta(pending) < 0 ==> col == 0
        }),
{
}

/// Backspaces are counted one by one.
pub proof fn law_backspaces_add_up(a: Seq<Prediction>, b: Seq<Prediction>, p: Prediction)
    ensures
        backspace_count(Seq::empty()) == 0,
        backspace_count(seq![p]) == if p.cmd is Backspace {
            1nat
        } else {
            0
        },
        backspace_count(a + b) == backspace_count(a) + backspace_count(b),
    decreases b.len(),
{
    reveal_with_fuel(backspace_count, 2);
    assert(seq![p].drop_last() =~= Seq::<Prediction>::empty());
    if b.len() == 0 {
        assert(a + b =~= a);
    } else {
        law_backspaces_add_up(a, b.drop_last(), p);
        assert((a + b).drop_last() =~= a + b.drop_last());
    }
}

/// Something is shown if one of the predictions is, and by nothing else.
pub proof fn law_drawn(a: Seq<Prediction>, b: Seq<Prediction>, p: Prediction)
    ensures
        !drawn(Seq::empty()),
        drawn(seq![p]) == p.shown,
        drawn(a + b) == (drawn(a) || drawn(b)),
{
    assert(seq![p][0] == p);
    if drawn(a) {
        let i = choose|i: int| 0 <= i < a.len() && (#[trigger] a[i]).shown;
        assert((a + b)[i].shown);
    }
    if drawn(b) {
        let i = choose|i: int| 0 <= i < b.len() && (#[trigger] b[i]).shown;
        assert((a + b)[a.len() + i].shown);
    }
    if drawn(a + b) {
        let i = choose|i: int| 0 <= i < (a + b).len() && (#[trigger] (a + b)[i]).shown;
        if i < a.len() {
            assert(a[i].shown);
        } else {
            assert(b[i - a.len()].shown);
        }
    }
}

/// A rollback undoes each prediction that is shown, the newest first, leaves out
/// those that are not, and goes to the server's cursor in the end.
pub proof fn law_rollback_ends_at_cursor(pending: Seq<Prediction>, p: Prediction, screen: ScreenState)
    ensures
        ({
            let (row, col) = screen.cursor();
            ansi::goes_to(rollback(Seq::empty(), screen), row, col, Seq::empty())
        }),
        rollback(pending.push(p), screen) == (if p.shown {
            p.cmd.undone_on(screen)
        } else {
            Seq::empty()
        }) + rollback(pending, screen),
{
    let (row, col) = screen.cursor();
    ansi::law_bare_move_to(row, col);
    assert(rollback(Seq::empty(), screen) =~= ansi::move_to(row, col));
    assert(pending.push(p).drop_last() =~= pending);
    assert(rollback(pending.push(p), screen) =~= (if p.shown {
        p.cmd.undone_on(screen)
    } else {
        Seq::empty()
    }) + rollback(pending, screen));
}

/// Confirming some predictions and then some more measures what confirming all
/// of them at once measures.
pub proof fn law_measures_in_steps(
    adaptive: Adaptive,
    pending: Seq<Prediction>,
    m: nat,
    n: nat,
    now: u64,
)
    requires
        m + n <= pending.len(),
    ensures
        measured(adaptive, pending, m + n, now) == measured(
            measured(adaptive, pending, m, now),
            pending.skip(m as int),
            n,
            now,
        ),
    decreases n,
{
    if n > 0 {
        law_measures_in_steps(adaptive, pending, m, (n - 1) as nat, now);
        assert(pending.skip(m as int)[n - 1] == pending[m + n - 1]);
    }
}

/// Each confirmed prediction is one round trip, from when it was made until now;
/// without one nothing is measured.
pub proof fn law_measures_each(adaptive: Adaptive, pending: Seq<Prediction>, now: u64)
    requires
        pending.len() > 0,
    ensures
        measured(adaptive, pending, 0, now) == adaptive,
        pending[0].made <= now ==> measured(adaptive, pending, 1, now) == adaptive.sampled(
            (now - pending[0].made) as u64,
            now,
            pending.len() != 1,
        ),
        pending[0].made > now ==> measured(adaptive, pending, 1, now) == adaptive.sampled(
            0,
            now,
            pending.len() != 1,
        ),
{
    reveal_with_fuel(measured, 2);
}

} // verus!
