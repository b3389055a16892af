//! Keeps the server's screen and the predictions that wait for its answer.

use crate::adaptive::{self, Adaptive, MAX_TIMEOUT};
use crate::alt_screen::{self, AltScreen, AltState};
use crate::ansi;
use crate::clock::{self, Clock};
use crate::command::Command;
use crate::output;
use crate::prediction::{self, Prediction, Verdict};
use crate::screen::{Screen, ScreenState, MAX_SIDE, MIN_COLS};
use std::collections::VecDeque;
use vstd::prelude::*;

verus! {

/// What server output says of the predictions.
#[derive(Debug)]
pub enum VerifyResult {
    /// That many of the oldest have come true.
    Confirmed(usize),
    /// Nothing yet.
    Pending,
    /// They were wrong; the bytes undo their overlays.
    Rollback(Vec<u8>),
}

/// What an emulator holds.
#[verifier::ext_equal]
pub struct EmulatorState {
    /// The server's screen.
    pub screen: ScreenState,
    /// The predictions that wait for an answer, oldest first.
    pub pending: Seq<Prediction>,
    /// The watcher for the alternate screen.
    pub alt: AltState,
    /// When to predict and when to underline.
    pub adaptive: Adaptive,
}

impl EmulatorState {
    /// A `cols` by `rows` screen that shows nothing, and no predictions.
    pub open spec fn initial(cols: nat, rows: nat) -> EmulatorState {
        EmulatorState {
            screen: ScreenState::blank(cols, rows),
            pending: Seq::empty(),
            alt: AltState { active: false, partial: Seq::empty() },
            adaptive: Adaptive::initial(),
        }
    }

    /// The screen has a size that it can work with.
    pub open spec fn wf(self) -> bool {
        self.screen.wf()
    }

    /// Every prediction that is shown can be undone.
    pub open spec fn undoable(self) -> bool {
        prediction::all_undoable(self.pending, self.screen)
    }

    /// The state with one more prediction.
    pub open spec fn with(self, prediction: Prediction) -> EmulatorState {
        EmulatorState { pending: self.pending.push(prediction), ..self }
    }

    /// Where the cursor will be once every prediction has come true.
    pub open spec fn prediction_end(self) -> (nat, nat) {
        prediction::prediction_end(self.pending, self.screen.cursor())
    }

    /// The predictions move the cursor by a number of columns that an `i32` holds.
    pub open spec fn delta_fits(self) -> bool {
        i32::MIN <= prediction::total_delta(self.pending) <= i32::MAX
    }

    /// The oldest prediction has waited too long at `now`.
    pub open spec fn expired(self, now: u64) -> bool {
        self.pending.len() > 0 && clock::elapsed(self.pending[0].made, now) >= self.adaptive.timeout()
    }

    /// Nanoseconds that are left at `now` until the oldest prediction has waited too long.
    pub open spec fn time_left(self, now: u64) -> Option<u64> {
        if self.pending.len() == 0 {
            None
        } else if self.expired(now) {
            Some(0)
        } else {
            Some((self.adaptive.timeout() - clock::elapsed(self.pending[0].made, now)) as u64)
        }
    }

    /// The state after it was looked at `now` how long the oldest prediction has
    /// waited. One that is not shown does not count.
    pub open spec fn glitch_checked(self, now: u64) -> EmulatorState {
        EmulatorState {
            adaptive: if self.pending.len() > 0 && self.pending[0].shown {
                self.adaptive.waited(clock::elapsed(self.pending[0].made, now))
            } else {
                self.adaptive
            },
            ..self
        }
    }

    /// The state after `data` arrived from the server, before it is held against
    /// the predictions. Entering the alternate screen drops them all.
    pub open spec fn fed(self, data: Seq<u8>) -> EmulatorState {
        EmulatorState {
            screen: self.screen.fed(data),
            pending: if self.alt.enters(data) {
                Seq::empty()
            } else {
                self.pending
            },
            alt: self.alt.after(data),
            adaptive: self.adaptive,
        }
    }

    /// The state after `verdict` was passed at `now`. What was confirmed measures
    /// the round trip, and so does a wrong prediction if it was shown.
    pub open spec fn settled(self, verdict: Verdict, now: u64) -> EmulatorState {
        match verdict {
            Verdict::Pending => self,
            Verdict::Confirmed(n) => EmulatorState {
                pending: self.pending.skip(n as int),
                adaptive: prediction::measured(self.adaptive, self.pending, n, now),
                ..self
            },
            Verdict::Rollback(n) => EmulatorState {
                pending: Seq::empty(),
                adaptive: ({
                    let measured = prediction::measured(self.adaptive, self.pending, n, now);
                    if self.pending[n as int].shown {
                        measured.sampled(
                            clock::elapsed(self.pending[n as int].made, now),
                            now,
                            false,
                        )
                    } else {
                        measured
                    }
                }),
                ..self
            },
        }
    }

    /// What `data` from the server says of the predictions.
    pub open spec fn verdict(self, data: Seq<u8>) -> Verdict {
        prediction::judge(
            self.fed(data).pending,
            output::printed(data),
            output::erasures(data),
            self.screen.cursor(),
            self.fed(data).screen.cursor(),
        )
    }

    /// The state after `data` arrived from the server at `now` and was held
    /// against the predictions.
    pub open spec fn answered(self, data: Seq<u8>, now: u64) -> EmulatorState {
        self.fed(data).settled(self.verdict(data), now)
    }

    /// `result` reports `verdict` on this state's predictions.
    pub open spec fn reported(self, verdict: Verdict, result: VerifyResult) -> bool {
        match verdict {
            Verdict::Pending => result is Pending,
            Verdict::Confirmed(n) => result matches VerifyResult::Confirmed(count) && count == n,
            Verdict::Rollback(n) => result matches VerifyResult::Rollback(undo) && undo@
                == prediction::rollback(self.pending.skip(n as int), self.screen),
        }
    }
}

/// Where all predictions can be undone, the newest of them can.
proof fn lemma_skip_undoable(state: EmulatorState)
    requires
        state.undoable(),
    ensures
        forall|n: int|
            0 <= n <= state.pending.len() ==> prediction::all_undoable(
                #[trigger] state.pending.skip(n),
                state.screen,
            ),
{
    assert forall|n: int| 0 <= n <= state.pending.len() implies prediction::all_undoable(
        #[trigger] state.pending.skip(n),
        state.screen,
    ) by {
        assert forall|i: int|
            0 <= i < state.pending.skip(n).len() && (
            #[trigger] state.pending.skip(n)[i]).shown implies state.pending.skip(n)[i].cmd.undoable(
            state.screen,
        ) by {
            assert(state.pending[n + i].cmd.undoable(state.screen));
        }
    }
}

/// Server output leaves no predictions but some that were there, so they stay undoable.
pub proof fn lemma_answered(state: EmulatorState, data: Seq<u8>, now: u64)
    requires
        state.undoable(),
    ensures
        state.fed(data).undoable(),
        state.answered(data, now).undoable(),
        state.answered(data, now).pending.len() <= state.pending.len(),
        state.verdict(data) matches Verdict::Rollback(n) ==> prediction::all_undoable(
            state.fed(data).pending.skip(n as int),
            state.fed(data).screen,
        ),
{
    let fed = state.fed(data);
    assert forall|i: int|
        0 <= i < fed.pending.len() && (
        #[trigger] fed.pending[i]).shown implies fed.pending[i].cmd.undoable(fed.screen) by {
        assert(state.pending[i].cmd.undoable(state.screen));
    }
    prediction::law_verdict_in_range(
        fed.pending,
        output::printed(data),
        output::erasures(data),
        state.screen.cursor(),
        fed.screen.cursor(),
    );
    lemma_skip_undoable(fed);
}

/// Tracks the server's screen and the predictions that wait for its answer.
pub struct Emulator {
    screen: Screen,
    clock: Clock,
    commands: VecDeque<Prediction>,
    alt: AltScreen,
    adaptive: Adaptive,
}

impl View for Emulator {
    type V = EmulatorState;

    closed spec fn view(&self) -> EmulatorState {
        EmulatorState {
            screen: self.screen@,
            pending: self.commands@,
            alt: self.alt@,
            adaptive: self.adaptive,
        }
    }
}

impl Emulator {
    /// Creates an emulator with an empty screen.
    pub fn new(cols: usize, rows: usize) -> (emu: Self)
        requires
            MIN_COLS <= cols <= MAX_SIDE,
            1 <= rows <= MAX_SIDE,
        ensures
            emu@ == EmulatorState::initial(cols as nat, rows as nat),
            emu@.wf(),
    {
        Emulator {
            screen: Screen::new(cols, rows),
            clock: Clock::start(),
            commands: VecDeque::new(),
            alt: AltScreen::new(),
            adaptive: Adaptive::new(),
        }
    }

    /// A reading of the clock that predictions are timed with. Nothing is
    /// promised of it.
    pub(crate) fn now(&self) -> u64 {
        self.clock.now()
    }

    /// Tracks a prediction that was made and shown at `now`.
    pub fn push_command_at(&mut self, cmd: Command, now: u64)
        ensures
            final(self)@ == old(self)@.with(Prediction { cmd, made: now, shown: true }),
    {
        self.commands.push_back(Prediction { cmd, made: now, shown: true });
    }

    /// Tracks a prediction that is made and shown now.
    pub fn push_command(&mut self, cmd: Command)
        ensures
            exists|now: u64|
                final(self)@ == #[trigger] old(self)@.with(
                    Prediction { cmd, made: now, shown: true },
                ),
    {
        let now: u64 = self.now();
        self.push_command_at(cmd, now);
    }

    /// Tracks a prediction that was made at `now` and is not shown: the server's
    /// answer to it measures the round trip.
    pub fn push_probe_at(&mut self, cmd: Command, now: u64)
        ensures
            final(self)@ == old(self)@.with(Prediction { cmd, made: now, shown: false }),
    {
        self.commands.push_back(Prediction { cmd, made: now, shown: false });
    }

    /// Whether some of the predictions are shown.
    pub fn any_shown(&self) -> (r: bool)
        ensures
            r == prediction::drawn(self@.pending),
    {
        let mut i: usize = 0;
        let ghost pending = self@.pending;
        while i < self.commands.len()
            invariant
                pending == self.commands@,
                i <= pending.len(),
                forall|k: int| 0 <= k < i ==> !(#[trigger] pending[k]).shown,
            decreases pending.len() - i,
        {
            if self.commands[i].shown {
                assert(pending[i as int].shown);
                return true;
            }
            i += 1;
        }
        false
    }

    /// The newest prediction.
    pub fn newest(&self) -> (r: Option<Command>)
        ensures
            r == if self@.pending.len() > 0 {
                Some(self@.pending.last().cmd)
            } else {
                None
            },
    {
        let n: usize = self.commands.len();
        if n > 0 {
            Some(self.commands[n - 1].cmd)
        } else {
            None
        }
    }

    /// Number of predictions that wait for an answer.
    pub fn pending_count(&self) -> (n: usize)
        ensures
            n == self@.pending.len(),
    {
        self.commands.len()
    }

    /// Number of backspaces among them.
    pub fn pending_backspace_count(&self) -> (n: usize)
        ensures
            n == prediction::backspace_count(self@.pending),
    {
        let mut n: usize = 0;
        let mut i: usize = 0;
        let ghost pending = self@.pending;
        assert(pending.take(0) =~= Seq::empty());
        while i < self.commands.len()
            invariant
                pending == self.commands@,
                n <= i <= pending.len(),
                n == prediction::backspace_count(pending.take(i as int)),
            decreases pending.len() - i,
        {
            assert(pending.take(i + 1).drop_last() =~= pending.take(i as int));
            if matches!(self.commands[i].cmd, Command::Backspace { .. }) {
                n += 1;
            }
            i += 1;
        }
        assert(pending.take(i as int) =~= pending);
        n
    }

    /// Columns by which the predictions together move the cursor.
    pub fn pending_cursor_delta(&self) -> (delta: i32)
        requires
            self@.delta_fits(),
        ensures
            delta == prediction::total_delta(self@.pending),
    {
        let mut sum: i128 = 0;
        let mut i: usize = 0;
        let ghost pending = self@.pending;
        assert(pending.take(0) =~= Seq::empty());
        while i < self.commands.len()
            invariant
                pending == self.commands@,
                i <= pending.len(),
                -255 * i <= sum <= 255 * i,
                sum == prediction::total_delta(pending.take(i as int)),
            decreases pending.len() - i,
        {
            assert(pending.take(i + 1).drop_last() =~= pending.take(i as int));
            let delta: i32 = self.commands[i].cmd.cursor_delta();
            sum = sum + delta as i128;
            i += 1;
        }
        assert(pending.take(i as int) =~= pending);
        sum as i32
    }

    /// Columns by which the predictions together move the cursor, in either direction.
    pub fn pending_width(&self) -> (width: usize)
        requires
            self@.delta_fits(),
        ensures
            width == vstd::math::abs(prediction::total_delta(self@.pending)),
    {
        let delta: i64 = self.pending_cursor_delta() as i64;
        if delta >= 0 {
            delta as usize
        } else {
            (-delta) as usize
        }
    }

    /// Row and column of the server's cursor.
    pub fn server_cursor(&self) -> (cursor: (usize, usize))
        requires
            self@.wf(),
        ensures
            (cursor.0 as nat, cursor.1 as nat) == self@.screen.cursor(),
            self@.screen.holds(cursor.0 as nat, cursor.1 as nat),
            self@.screen.input.len() == 0 ==> cursor == (0usize, 0usize),
    {
        self.screen.cursor_point()
    }

    /// Where the cursor will be once every prediction has come true.
    pub fn prediction_end_cursor(&self) -> (cursor: (usize, usize))
        requires
            self@.wf(),
            self@.delta_fits(),
        ensures
            (cursor.0 as nat, cursor.1 as nat) == self@.prediction_end(),
            cursor.0 < self@.screen.rows,
            cursor.1 < self@.screen.cols + vstd::math::abs(prediction::total_delta(self@.pending)),
    {
        let (row, col): (usize, usize) = self.server_cursor();
        let delta: i64 = self.pending_cursor_delta() as i64;
        if delta >= 0 {
            (row, col + delta as usize)
        } else {
            (row, col.saturating_sub((-delta) as usize))
        }
    }

    /// The character that the server's screen holds in one cell.
    pub fn char_at(&self, row: usize, col: usize) -> (c: char)
        requires
            self@.wf(),
            self@.screen.holds(row as nat, col as nat),
        ensures
            c == self@.screen.cell(row as nat, col as nat),
            self@.screen.input.len() == 0 ==> c == ' ',
    {
        self.screen.cell_char(row, col)
    }

    /// The server's screen.
    pub fn screen(&self) -> (screen: &Screen)
        ensures
            screen@ == self@.screen,
    {
        &self.screen
    }

    /// Drops all predictions; gives back the bytes that undo their overlays and
    /// put the cursor where the server has it.
    pub fn rollback_all(&mut self) -> (out: Vec<u8>)
        requires
            old(self)@.wf(),
            old(self)@.undoable(),
        ensures
            out@ == prediction::rollback(old(self)@.pending, old(self)@.screen),
            final(self)@ == (EmulatorState { pending: Seq::empty(), ..old(self)@ }),
    {
        let mut out: Vec<u8> = Vec::new();
        let ghost all = self@.pending;
        assert(out@ + prediction::undo_all(all, self@.screen) =~= prediction::undo_all(
            all,
            self@.screen,
        ));
        while self.commands.len() > 0
            invariant
                self@.wf(),
                self@.undoable(),
                self@.screen == old(self)@.screen,
                self@.alt == old(self)@.alt,
                self@.adaptive == old(self)@.adaptive,
                out@ + prediction::undo_all(self@.pending, self@.screen) == prediction::undo_all(
                    old(self)@.pending,
                    old(self)@.screen,
                ),
            decreases self@.pending.len(),
        {
            let ghost before = self@;
            let ghost shown = out@;
            if let Some(newest) = self.commands.pop_back() {
                proof {
                    assert(newest == before.pending[before.pending.len() - 1]);
                    assert(self@.pending =~= before.pending.drop_last());
                    assert forall|i: int|
                        0 <= i < self@.pending.len() && (
                        #[trigger] self@.pending[i]).shown implies self@.pending[i].cmd.undoable(
                        self@.screen,
                    ) by {
                        assert(self@.pending[i] == before.pending[i]);
                    }
                }
                if newest.shown {
                    let mut undo: Vec<u8> = newest.cmd.undo(&self.screen);
                    assert((shown + undo@) + prediction::undo_all(self@.pending, self@.screen)
                        =~= shown + (undo@ + prediction::undo_all(self@.pending, self@.screen)));
                    out.append(&mut undo);
                } else {
                    assert(shown + (Seq::<u8>::empty() + prediction::undo_all(
                        self@.pending,
                        self@.screen,
                    )) =~= shown + prediction::undo_all(self@.pending, self@.screen));
                }
            }
        }
        assert(self@.pending =~= Seq::empty());
        assert(out@ =~= prediction::undo_all(old(self)@.pending, old(self)@.screen));
        let (row, col): (usize, usize) = self.server_cursor();
        ansi::push_move_to(&mut out, row, col);
        assert(self@ =~= (EmulatorState { pending: Seq::empty(), ..old(self)@ }));
        out
    }

    /// Takes off the oldest prediction, which came true at `now`, and measures its age.
    fn confirm_oldest(&mut self, now: u64)
        requires
            old(self)@.pending.len() > 0,
        ensures
            final(self)@ == (EmulatorState {
                pending: old(self)@.pending.skip(1),
                adaptive: old(self)@.adaptive.sampled(
                    clock::elapsed(old(self)@.pending[0].made, now),
                    now,
                    old(self)@.pending.len() > 1,
                ),
                ..old(self)@
            }),
    {
        if let Some(oldest) = self.commands.pop_front() {
            let pending: bool = self.commands.len() > 0;
            self.adaptive.update_srtt(now.saturating_sub(oldest.made), now, pending);
            assert(self@.pending =~= old(self)@.pending.skip(1));
        }
    }

    /// Drops all predictions, the oldest of which was found wrong at `now`, and
    /// measures its age all the same if it was shown: the server did answer.
    fn reject_oldest(&mut self, now: u64) -> (undo: Vec<u8>)
        requires
            old(self)@.wf(),
            old(self)@.undoable(),
            old(self)@.pending.len() > 0,
        ensures
            undo@ == prediction::rollback(old(self)@.pending, old(self)@.screen),
            final(self)@ == (EmulatorState {
                pending: Seq::empty(),
                adaptive: if old(self)@.pending[0].shown {
                    old(self)@.adaptive.sampled(
                        clock::elapsed(old(self)@.pending[0].made, now),
                        now,
                        false,
                    )
                } else {
                    old(self)@.adaptive
                },
                ..old(self)@
            }),
    {
        let oldest: Prediction = self.commands[0];
        let undo: Vec<u8> = self.rollback_all();
        if oldest.shown {
            self.adaptive.update_srtt(now.saturating_sub(oldest.made), now, false);
        }
        undo
    }

    /// Holds `effects` of a backspace (columns to the left, or backspace
    /// characters), seen at `now`, against the predicted backspaces.
    pub fn verify_backspaces(&mut self, effects: usize, now: u64) -> (result: VerifyResult)
        ensures
            ({
                let verdict = prediction::backspaces_confirmed(
                    old(self)@.pending,
                    effects as nat,
                );
                &&& final(self)@ == old(self)@.settled(verdict, now)
                &&& old(self)@.reported(verdict, result)
            }),
    {
        let ghost all = self@.pending;
        let mut confirmed: usize = 0;
        assert(all.skip(0) =~= all);
        while confirmed < effects && self.commands.len() > 0 && matches!(
            self.commands[0].cmd,
            Command::Backspace { .. }
        )
            invariant
                all == old(self)@.pending,
                confirmed <= effects,
                confirmed <= all.len(),
                self@ == (EmulatorState {
                    pending: all.skip(confirmed as int),
                    adaptive: prediction::measured(
                        old(self)@.adaptive,
                        all,
                        confirmed as nat,
                        now,
                    ),
                    ..old(self)@
                }),
                prediction::leading_backspaces(all) == confirmed + prediction::leading_backspaces(
                    all.skip(confirmed as int),
                ),
            decreases effects - confirmed,
        {
            let ghost rest = all.skip(confirmed as int);
            assert(rest.skip(1) =~= all.skip(confirmed + 1));
            assert(rest[0] == all[confirmed as int]);
            self.confirm_oldest(now);
            confirmed += 1;
        }
        assert(all.skip(0) =~= all);
        if confirmed > 0 {
            VerifyResult::Confirmed(confirmed)
        } else {
            VerifyResult::Pending
        }
    }

    /// Holds printed characters, the first of them at (`row`, `col`), seen at
    /// `now`, against the predictions.
    fn verify_events(&mut self, events: &Vec<char>, row: usize, col: usize, now: u64) -> (result:
        VerifyResult)
        requires
            old(self)@.wf(),
            old(self)@.pending.len() > 0,
            events@.len() > 0,
            ({
                let n = prediction::echoed(
                    old(self)@.pending,
                    events@,
                    row as nat,
                    col as nat,
                );
                n < old(self)@.pending.len() && n < events@.len() && !(old(
                    self,
                )@.pending[n as int].cmd is CursorMove) ==> prediction::all_undoable(
                    old(self)@.pending.skip(n as int),
                    old(self)@.screen,
                )
            }),
        ensures
            ({
                let n = prediction::echoed(
                    old(self)@.pending,
                    events@,
                    row as nat,
                    col as nat,
                );
                let verdict = if n < old(self)@.pending.len() && n < events@.len() && !(old(
                    self,
                )@.pending[n as int].cmd is CursorMove) {
                    Verdict::Rollback(n)
                } else {
                    prediction::confirmed(n)
                };
                &&& final(self)@ == old(self)@.settled(verdict, now)
                &&& old(self)@.reported(verdict, result)
            }),
    {
        let ghost all = self@.pending;
        let ghost state = self@;
        let mut confirmed: usize = 0;
        let mut current_col: u128 = col as u128;
        proof {
            assert(all.skip(0) =~= all);
            assert(events@.skip(0) =~= events@);
        }
        while confirmed < events.len() && self.commands.len() > 0
            invariant
                all == old(self)@.pending,
                state == old(self)@,
                state.wf(),
                confirmed <= events@.len(),
                confirmed <= all.len(),
                current_col <= usize::MAX + 255 * confirmed,
                all.len() > 0,
                events@.len() > 0,
                self@ == (EmulatorState {
                    pending: all.skip(confirmed as int),
                    adaptive: prediction::measured(state.adaptive, all, confirmed as nat, now),
                    ..state
                }),
                prediction::echoed(all, events@, row as nat, col as nat) == confirmed
                    + prediction::echoed(
                    all.skip(confirmed as int),
                    events@.skip(confirmed as int),
                    row as nat,
                    current_col as nat,
                ),
                ({
                    let n = prediction::echoed(all, events@, row as nat, col as nat);
                    n < all.len() && n < events@.len() && !(all[n as int].cmd is CursorMove)
                        ==> prediction::all_undoable(all.skip(n as int), state.screen)
                }),
            ensures
                confirmed == events@.len() || self@.pending.len() == 0
                    || self@.pending[0].cmd is CursorMove,
            decreases events@.len() - confirmed,
        {
            let ghost rest = all.skip(confirmed as int);
            let ghost left = events@.skip(confirmed as int);
            proof {
                assert(rest.skip(1) =~= all.skip(confirmed + 1));
                assert(left.skip(1) =~= events@.skip(confirmed + 1));
                assert(rest[0] == all[confirmed as int]);
                assert(left[0] == events@[confirmed as int]);
            }
            match self.commands[0].cmd {
                Command::Char { row: r, col: c, ch, width, .. } => {
                    if r == row && c as u128 == current_col && ch == events[confirmed] {
                        self.confirm_oldest(now);
                        confirmed += 1;
                        current_col = current_col + width as u128;
                    } else {
                        let undo: Vec<u8> = self.reject_oldest(now);
                        return VerifyResult::Rollback(undo);
                    }
                },
                Command::Backspace { .. } => {
                    let undo: Vec<u8> = self.reject_oldest(now);
                    return VerifyResult::Rollback(undo);
                },
                Command::CursorMove { .. } => {
                    break;
                },
            }
        }
        proof {
            let rest = all.skip(confirmed as int);
            if rest.len() > 0 {
                assert(rest[0] == all[confirmed as int]);
            }
            assert(all.skip(0) =~= all);
        }
        if confirmed > 0 {
            VerifyResult::Confirmed(confirmed)
        } else {
            VerifyResult::Pending
        }
    }

    /// Holds server output that took the cursor from `before` to `after`, seen at
    /// `now`, against the predictions.
    pub fn verify(
        &mut self,
        data: &[u8],
        before: (usize, usize),
        after: (usize, usize),
        now: u64,
    ) -> (result: VerifyResult)
        requires
            old(self)@.wf(),
            prediction::judge(
                old(self)@.pending,
                output::printed(data@),
                output::erasures(data@),
                (before.0 as nat, before.1 as nat),
                (after.0 as nat, after.1 as nat),
            ) matches Verdict::Rollback(n) ==> prediction::all_undoable(
                old(self)@.pending.skip(n as int),
                old(self)@.screen,
            ),
        ensures
            ({
                let verdict = prediction::judge(
                    old(self)@.pending,
                    output::printed(data@),
                    output::erasures(data@),
                    (before.0 as nat, before.1 as nat),
                    (after.0 as nat, after.1 as nat),
                );
                &&& final(self)@ == old(self)@.settled(verdict, now)
                &&& old(self)@.reported(verdict, result)
            }),
    {
        if self.commands.len() == 0 {
            return VerifyResult::Pending;
        }
        let (events, erased): (Vec<char>, usize) = output::read_output(data);
        if matches!(self.commands[0].cmd, Command::Backspace { .. }) && after.0 == before.0
            && after.1 < before.1 && Self::are_blank(&events) {
            return self.verify_backspaces(before.1 - after.1, now);
        }
        if events.len() > 0 {
            return self.verify_events(&events, before.0, before.1, now);
        }
        if self.commands[0].cmd.is_char() {
            if before.0 == after.0 && before.1 == after.1 {
                return VerifyResult::Pending;
            }
            assert(self@.pending.skip(0) =~= self@.pending);
            let undo: Vec<u8> = self.reject_oldest(now);
            return VerifyResult::Rollback(undo);
        }
        self.verify_backspaces(erased, now)
    }

    /// Whether every character is a blank.
    fn are_blank(events: &Vec<char>) -> (r: bool)
        ensures
            r == prediction::all_blank(events@),
    {
        let mut i: usize = 0;
        while i < events.len()
            invariant
                i <= events@.len(),
                forall|k: int| 0 <= k < i ==> #[trigger] events@[k] == ' ',
            decreases events@.len() - i,
        {
            if events[i] != ' ' {
                return false;
            }
            i += 1;
        }
        true
    }

    /// Feeds server output, seen at `now`, to the screen and holds it against the
    /// predictions: those that came true are taken off, and if one is wrong all
    /// that are left are undone.
    pub fn feed_and_verify_at(&mut self, data: &[u8], now: u64) -> (result: VerifyResult)
        requires
            old(self)@.wf(),
            old(self)@.verdict(data@) matches Verdict::Rollback(n) ==> prediction::all_undoable(
                old(self)@.fed(data@).pending.skip(n as int),
                old(self)@.fed(data@).screen,
            ),
        ensures
            final(self)@ == old(self)@.answered(data@, now),
            old(self)@.fed(data@).reported(old(self)@.verdict(data@), result),
            final(self)@.wf(),
    {
        if self.alt.scan(data) {
            self.commands.clear();
        }
        let before: (usize, usize) = self.screen.cursor_point();
        self.screen.feed(data);
        let after: (usize, usize) = self.screen.cursor_point();
        assert(self@ =~= old(self)@.fed(data@));
        self.verify(data, before, after, now)
    }

    /// Feeds server output to the screen and holds it against the predictions:
    /// those that came true are taken off, and if one is wrong all that are left
    /// are undone.
    pub fn feed_and_verify(&mut self, data: &[u8]) -> (result: VerifyResult)
        requires
            old(self)@.wf(),
            old(self)@.verdict(data@) matches Verdict::Rollback(n) ==> prediction::all_undoable(
                old(self)@.fed(data@).pending.skip(n as int),
                old(self)@.fed(data@).screen,
            ),
        ensures
            exists|now: u64| final(self)@ == #[trigger] old(self)@.answered(data@, now),
            old(self)@.fed(data@).reported(old(self)@.verdict(data@), result),
            final(self)@.wf(),
    {
        let now: u64 = self.now();
        self.feed_and_verify_at(data, now)
    }

    /// Takes off the newest prediction.
    pub fn pop_command(&mut self) -> (r: Option<Command>)
        ensures
            old(self)@.pending.len() == 0 ==> r is None && final(self)@ == old(self)@,
            old(self)@.pending.len() > 0 ==> r == Some(old(self)@.pending.last().cmd) && final(self)@
                == (EmulatorState { pending: old(self)@.pending.drop_last(), ..old(self)@ }),
    {
        match self.commands.pop_back() {
            Some(newest) => {
                assert(self@.pending =~= old(self)@.pending.drop_last());
                Some(newest.cmd)
            },
            None => None,
        }
    }

    /// Takes off the newest predicted character, wherever it stands among the predictions.
    pub fn pop_last_char_command(&mut self) -> (r: Option<Command>)
        ensures
            ({
                let i = prediction::last_char(old(self)@.pending);
                if i < 0 {
                    r is None && final(self)@ == old(self)@
                } else {
                    r == Some(old(self)@.pending[i].cmd) && final(self)@ == (EmulatorState {
                        pending: old(self)@.pending.remove(i),
                        ..old(self)@
                    })
                }
            }),
    {
        let mut i: usize = self.commands.len();
        let ghost all = self@.pending;
        assert(all.take(i as int) =~= all);
        while i > 0
            invariant
                all == self.commands@,
                self@ == old(self)@,
                self@.pending == all,
                i <= all.len(),
                prediction::last_char(all) == prediction::last_char(all.take(i as int)),
            decreases i,
        {
            let ghost front = all.take(i as int);
            proof {
                assert(front.drop_last() =~= all.take(i - 1));
                assert(front.last() == all[i - 1]);
            }
            i -= 1;
            if self.commands[i].cmd.is_char() {
                match self.commands.remove(i) {
                    Some(removed) => {
                        return Some(removed.cmd);
                    },
                    None => {
                        return None;
                    },
                }
            }
        }
        None
    }

    /// Undoes all predictions if the oldest has waited too long at `now`.
    pub fn check_timeout_at(&mut self, now: u64) -> (r: Option<Vec<u8>>)
        requires
            old(self)@.wf(),
            old(self)@.expired(now) ==> old(self)@.undoable(),
        ensures
            if old(self)@.expired(now) {
                &&& r matches Some(undo)
                &&& undo@ == prediction::rollback(old(self)@.pending, old(self)@.screen)
                &&& final(self)@ == (EmulatorState { pending: Seq::empty(), ..old(self)@ })
            } else {
                r is None && final(self)@ == old(self)@
            },
    {
        let timeout: u64 = self.prediction_timeout();
        if self.commands.len() > 0 && now.saturating_sub(self.commands[0].made) >= timeout {
            return Some(self.rollback_all());
        }
        None
    }

    /// Undoes all predictions if the oldest has waited too long.
    pub fn check_timeout(&mut self) -> (r: Option<Vec<u8>>)
        requires
            old(self)@.wf(),
            old(self)@.undoable(),
        ensures
            exists|now: u64|
                if #[trigger] old(self)@.expired(now) {
                    &&& r matches Some(undo)
                    &&& undo@ == prediction::rollback(old(self)@.pending, old(self)@.screen)
                    &&& final(self)@ == (EmulatorState { pending: Seq::empty(), ..old(self)@ })
                } else {
                    r is None && final(self)@ == old(self)@
                },
    {
        let now: u64 = self.now();
        self.check_timeout_at(now)
    }

    /// Nanoseconds that are left at `now` until the oldest prediction has waited too long.
    pub fn time_until_expire_at(&self, now: u64) -> (r: Option<u64>)
        ensures
            r == self@.time_left(now),
    {
        if self.commands.len() > 0 {
            let waited: u64 = now.saturating_sub(self.commands[0].made);
            let timeout: u64 = self.prediction_timeout();
            Some(timeout.saturating_sub(waited))
        } else {
            None
        }
    }

    /// Nanoseconds until the oldest prediction has waited too long.
    pub fn time_until_expire(&self) -> (r: Option<u64>)
        ensures
            exists|now: u64| r == #[trigger] self@.time_left(now),
    {
        self.time_until_expire_at(self.now())
    }

    /// Takes in how long the oldest prediction has waited at `now`.
    pub fn check_glitch_at(&mut self, now: u64)
        ensures
            final(self)@ == old(self)@.glitch_checked(now),
    {
        if self.commands.len() > 0 && self.commands[0].shown {
            let waited: u64 = now.saturating_sub(self.commands[0].made);
            self.adaptive.note_wait(waited);
        }
    }

    /// Takes in how long the oldest prediction has waited.
    pub fn check_glitch(&mut self)
        ensures
            exists|now: u64| final(self)@ == #[trigger] old(self)@.glitch_checked(now),
    {
        let now: u64 = self.now();
        self.check_glitch_at(now);
    }

    /// Nanoseconds that a prediction may wait.
    pub fn prediction_timeout(&self) -> (timeout: u64)
        ensures
            timeout == self@.adaptive.timeout(),
    {
        self.adaptive.prediction_timeout()
    }

    /// Takes in a round trip of `rtt` that was measured at `now`.
    pub fn update_srtt(&mut self, rtt: u64, now: u64)
        ensures
            final(self)@ == (EmulatorState {
                adaptive: old(self)@.adaptive.sampled(rtt, now, old(self)@.pending.len() > 0),
                ..old(self)@
            }),
    {
        let pending: bool = self.has_pending();
        self.adaptive.update_srtt(rtt, now, pending);
    }

    /// Lets the triggers follow the smoothed round trip time.
    pub fn update_triggers(&mut self)
        ensures
            final(self)@ == (EmulatorState {
                adaptive: old(self)@.adaptive.triggered(old(self)@.pending.len() > 0),
                ..old(self)@
            }),
    {
        let pending: bool = self.has_pending();
        self.adaptive.update_triggers(pending);
    }

    /// Whether predictions are to be shown.
    pub fn should_predict(&self) -> (r: bool)
        ensures
            r == self@.adaptive.predicts(),
    {
        self.adaptive.srtt_trigger || self.adaptive.glitch_trigger > 0
    }

    /// Whether predictions are to be underlined.
    pub fn should_flag(&self) -> (r: bool)
        ensures
            r == self@.adaptive.flagging,
    {
        self.adaptive.flagging
    }

    /// The smoothed round trip time in nanoseconds, once one was measured.
    pub fn get_srtt(&self) -> (r: Option<u64>)
        ensures
            r == self@.adaptive.srtt,
    {
        self.adaptive.srtt
    }

    /// What decides whether predictions are shown and underlined.
    pub fn measurements(&self) -> (a: Adaptive)
        ensures
            a == self@.adaptive,
    {
        self.adaptive
    }

    /// Replaces what decides whether predictions are shown and underlined.
    pub fn set_measurements(&mut self, a: Adaptive)
        ensures
            final(self)@ == (EmulatorState { adaptive: a, ..old(self)@ }),
    {
        self.adaptive = a;
    }

    /// Whether predictions wait for an answer.
    fn has_pending(&self) -> (r: bool)
        ensures
            r == (self@.pending.len() > 0),
    {
        self.commands.len() > 0
    }

    /// Resets the triggers; the measurements stay.
    pub fn reset_adaptive(&mut self)
        ensures
            final(self)@ == (EmulatorState {
                adaptive: old(self)@.adaptive.untriggered(),
                ..old(self)@
            }),
    {
        self.adaptive.srtt_trigger = false;
        self.adaptive.glitch_trigger = 0;
        self.adaptive.flagging = false;
    }

    /// Whether the alternate screen is shown.
    pub fn in_alt_screen(&self) -> (r: bool)
        ensures
            r == self@.alt.active,
    {
        self.alt.is_active()
    }
}

/// Nothing is left to wait for exactly when the oldest prediction has waited too
/// long, and there is never more than ten seconds left.
pub proof fn law_time_left(state: EmulatorState, now: u64)
    ensures
        state.expired(now) <==> state.time_left(now) == Some(0u64),
        state.time_left(now) is None <==> state.pending.len() == 0,
        state.time_left(now) matches Some(left) ==> left <= MAX_TIMEOUT,
{
    adaptive::law_timeout_bounds(state.adaptive);
}

/// A result fits what becomes of the predictions. Those that are confirmed are
/// the oldest ones, and the others stay as they are. A rollback leaves none.
/// Otherwise all stay, unless the server enters the alternate screen. A round
/// trip is measured by a result and by nothing else; a contradicted prediction
/// that was never shown is not measured either.
pub proof fn law_result_fits(state: EmulatorState, data: Seq<u8>, now: u64, result: VerifyResult)
    requires
        state.fed(data).reported(state.verdict(data), result),
    ensures
        ({
            let after = state.answered(data, now);
            match result {
                VerifyResult::Confirmed(n) => {
                    &&& 1 <= n <= state.pending.len()
                    &&& after.pending == state.pending.skip(n as int)
                    &&& after.adaptive.srtt is Some
                },
                VerifyResult::Rollback(_) => {
                    &&& state.pending.len() > 0
                    &&& after.pending.len() == 0
                    &&& state.pending[0].shown ==> after.adaptive.srtt is Some
                },
                VerifyResult::Pending => {
                    &&& after.adaptive == state.adaptive
                    &&& after.pending == if state.alt.enters(data) {
                        Seq::empty()
                    } else {
                        state.pending
                    }
                },
            }
        }),
{
    prediction::law_verdict_in_range(
        state.fed(data).pending,
        output::printed(data),
        output::erasures(data),
        state.screen.cursor(),
        state.fed(data).screen.cursor(),
    );
}

/// Entering the alternate screen drops every prediction and shows that it is active.
pub proof fn law_alt_screen_drops(state: EmulatorState, mode: Seq<u8>, now: u64)
    requires
        state.alt.partial.len() == 0,
        alt_screen::names_alt_screen(mode),
    ensures
        state.answered(alt_screen::mode_sequence(mode, true), now).pending.len() == 0,
        state.answered(alt_screen::mode_sequence(mode, true), now).alt.active,
        !state.answered(alt_screen::mode_sequence(mode, false), now).alt.active,
{
    alt_screen::law_switches(state.alt, mode, true);
    alt_screen::law_switches(state.alt, mode, false);
}

/// Whatever output says of the predictions, it reaches the screen and the
/// watcher for the alternate screen.
pub proof fn law_output_reaches_screen(state: EmulatorState, data: Seq<u8>, now: u64)
    ensures
        state.answered(data, now).screen == state.screen.fed(data),
        state.answered(data, now).alt == state.alt.after(data),
{
}

/// Output that prints exactly the text that the oldest predictions are, from the
/// server's cursor on, confirms those: they are taken off, and whatever was
/// predicted behind them stays.
pub proof fn law_echo_takes_off(
    state: EmulatorState,
    text: Seq<char>,
    data: Seq<u8>,
    now: u64,
    result: VerifyResult,
)
    requires
        !state.alt.enters(data),
        output::printed(data) == text,
        text.len() > 0,
        prediction::begins_with_text(
            state.pending,
            text,
            state.screen.cursor().0,
            state.screen.cursor().1,
        ),
        state.fed(data).reported(state.verdict(data), result),
    ensures
        result matches VerifyResult::Confirmed(n) && n == text.len(),
        state.answered(data, now).pending == state.pending.skip(text.len() as int),
{
    prediction::law_echo_confirms_oldest(
        state.pending,
        text,
        output::erasures(data),
        state.screen.cursor(),
        state.fed(data).screen.cursor(),
    );
}

/// Output that goes on with another character than is predicted next, or prints
/// one where a backspace is predicted next, contradicts the predictions from
/// there on: they are undone on the screen as it is after the output, and no
/// prediction is left.
pub proof fn law_contradiction_undoes(
    state: EmulatorState,
    text: Seq<char>,
    ch: char,
    more: Seq<char>,
    data: Seq<u8>,
    now: u64,
    result: VerifyResult,
)
    requires
        !state.alt.enters(data),
        output::printed(data) == text.push(ch) + more,
        text.len() < state.pending.len(),
        !(state.pending[text.len() as int].cmd is CursorMove),
        prediction::begins_with_text(
            state.pending,
            text,
            state.screen.cursor().0,
            state.screen.cursor().1,
        ),
        !prediction::begins_with_text(
            state.pending,
            text.push(ch),
            state.screen.cursor().0,
            state.screen.cursor().1,
        ),
        text.len() > 0 || state.pending[0].cmd is Char,
        state.fed(data).reported(state.verdict(data), result),
    ensures
        result matches VerifyResult::Rollback(undo) && undo@ == prediction::rollback(
            state.pending.skip(text.len() as int),
            state.screen.fed(data),
        ),
        state.answered(data, now).pending.len() == 0,
{
    prediction::law_print_contradicts(
        state.pending,
        text,
        ch,
        more,
        output::erasures(data),
        state.screen.cursor(),
        state.fed(data).screen.cursor(),
    );
}

/// Output that prints nothing but blanks and takes the cursor to the left on its
/// row confirms one of the oldest backspaces for each column.
pub proof fn law_erasing_takes_off(
    state: EmulatorState,
    n: nat,
    columns: nat,
    data: Seq<u8>,
    now: u64,
    result: VerifyResult,
)
    requires
        !state.alt.enters(data),
        forall|i: int|
            0 <= i < output::printed(data).len() ==> #[trigger] output::printed(data)[i] == ' ',
        prediction::begins_with_backspaces(state.pending, n),
        0 < columns <= n,
        state.screen.cursor().0 == state.screen.fed(data).cursor().0,
        state.screen.cursor().1 == state.screen.fed(data).cursor().1 + columns,
        state.fed(data).reported(state.verdict(data), result),
    ensures
        result matches VerifyResult::Confirmed(count) && count == columns,
        state.answered(data, now).pending == state.pending.skip(columns as int),
{
    let after = state.screen.fed(data).cursor();
    prediction::law_moves_left_confirm(
        state.pending,
        n,
        columns,
        output::printed(data),
        output::erasures(data),
        after,
    );
    assert(state.screen.cursor() == (after.0, after.1 + columns));
}

/// Output that moves the cursor without printing anything contradicts a predicted
/// character.
pub proof fn law_bare_move_undoes(
    state: EmulatorState,
    data: Seq<u8>,
    now: u64,
    result: VerifyResult,
)
    requires
        !state.alt.enters(data),
        output::printed(data).len() == 0,
        state.pending.len() > 0,
        state.pending[0].cmd is Char,
        state.fed(data).reported(state.verdict(data), result),
    ensures
        state.screen.cursor() != state.screen.fed(data).cursor() ==> {
            &&& result matches VerifyResult::Rollback(undo)
            &&& undo@ == prediction::rollback(state.pending, state.screen.fed(data))
            &&& state.answered(data, now).pending.len() == 0
        },
        state.screen.cursor() == state.screen.fed(data).cursor() ==> {
            &&& result is Pending
            &&& state.answered(data, now).pending == state.pending
            &&& state.answered(data, now).adaptive == state.adaptive
        },
{
    assert(output::printed(data) =~= Seq::<char>::empty());
    assert(state.pending.skip(0) =~= state.pending);
}

/// Entering the alternate screen drops all predictions, and the output that does
/// so says nothing of them.
pub proof fn law_entering_drops(
    state: EmulatorState,
    data: Seq<u8>,
    now: u64,
    result: VerifyResult,
)
    requires
        state.alt.enters(data),
        state.fed(data).reported(state.verdict(data), result),
    ensures
        result is Pending,
        state.answered(data, now).pending.len() == 0,
        state.answered(data, now).adaptive == state.adaptive,
{
}

/// A contradicted prediction that is shown is measured like one that has come
/// true, as the last of those that are answered.
pub proof fn law_contradiction_is_measured(state: EmulatorState, n: nat, now: u64)
    requires
        n < state.pending.len(),
    ensures
        ({
            let answered = EmulatorState { pending: state.pending.take((n + 1) as int), ..state };
            &&& state.pending[n as int].shown ==> state.settled(
                Verdict::Rollback(n),
                now,
            ).adaptive == answered.settled(Verdict::Confirmed(n + 1), now).adaptive
            &&& !state.pending[n as int].shown ==> state.settled(
                Verdict::Rollback(n),
                now,
            ).adaptive == state.settled(Verdict::Confirmed(n), now).adaptive
        }),
{
    let front = state.pending.take((n + 1) as int);
    lemma_measured_front(state.adaptive, state.pending, front, n, now);
    assert(front[n as int] == state.pending[n as int]);
}

/// What is measured rests on the predictions that are answered and on whether
/// there are more.
proof fn lemma_measured_front(
    adaptive: Adaptive,
    all: Seq<Prediction>,
    front: Seq<Prediction>,
    n: nat,
    now: u64,
)
    requires
        n < front.len() <= all.len(),
        front == all.take(front.len() as int),
    ensures
        prediction::measured(adaptive, all, n, now) == prediction::measured(
            adaptive,
            front,
            n,
            now,
        ),
    decreases n,
{
    if n > 0 {
        lemma_measured_front(adaptive, all, front, (n - 1) as nat, now);
        assert(front[n - 1] == all[n - 1]);
    }
}

/// Confirmed predictions are measured one after the other, oldest first.
pub proof fn law_confirmed_are_measured(state: EmulatorState, n: nat, now: u64)
    requires
        0 < n <= state.pending.len(),
        state.pending[0].made <= now,
    ensures
        ({
            let first = EmulatorState {
                pending: state.pending.skip(1),
                adaptive: state.adaptive.sampled(
                    (now - state.pending[0].made) as u64,
                    now,
                    state.pending.len() != 1,
                ),
                ..state
            };
            &&& state.settled(Verdict::Confirmed(1), now) == first
            &&& state.settled(Verdict::Confirmed(n), now) == first.settled(
                Verdict::Confirmed((n - 1) as nat),
                now,
            )
        }),
{
    prediction::law_measures_each(state.adaptive, state.pending, now);
    prediction::law_measures_in_steps(state.adaptive, state.pending, 1, (n - 1) as nat, now);
    assert(state.pending.skip(1).skip(n - 1) =~= state.pending.skip(n as int));
}

/// The oldest prediction expires when the time that a prediction may wait has
/// passed since it was made, and not before; the time that is left counts down
/// to that moment. Nothing expires where nothing is predicted.
pub proof fn law_expires_in_time(state: EmulatorState, now: u64)
    ensures
        state.pending.len() == 0 ==> !state.expired(now) && state.time_left(now) is None,
        state.pending.len() > 0 ==> {
            let deadline = state.pending[0].made + state.adaptive.timeout();
            &&& state.pending[0].made <= now ==> (state.expired(now) <==> deadline <= now)
            &&& state.pending[0].made > now ==> !state.expired(now)
            &&& state.time_left(now) matches Some(left)
            &&& deadline <= now ==> left == 0
            &&& state.pending[0].made <= now <= deadline ==> now + left == deadline
            &&& state.pending[0].made > now ==> left == state.adaptive.timeout()
        },
{
    adaptive::law_timeout_is_three_srtts(state.adaptive);
}

/// What counts as a glitch is how long the oldest prediction has waited, if it is
/// shown; nothing else changes.
pub proof fn law_glitch_is_a_long_wait(state: EmulatorState, now: u64)
    ensures
        ({
            let checked = state.glitch_checked(now);
            &&& checked.pending == state.pending
            &&& checked.screen == state.screen
            &&& checked.alt == state.alt
            &&& state.pending.len() == 0 || !state.pending[0].shown ==> checked == state
            &&& state.pending.len() > 0 && state.pending[0].shown && state.pending[0].made <= now
                ==> checked.adaptive == state.adaptive.waited(
                (now - state.pending[0].made) as u64,
            )
            &&& state.pending.len() > 0 && state.pending[0].shown && state.pending[0].made > now
                ==> checked.adaptive == state.adaptive.waited(0)
        }),
{
}

/// A new emulator has seen nothing, predicts nothing and shows the primary screen.
pub proof fn law_initial(cols: nat, rows: nat)
    ensures
        ({
            let state = EmulatorState::initial(cols, rows);
            &&& state.pending.len() == 0
            &&& state.screen.cols == cols
            &&& state.screen.rows == rows
            &&& state.screen.input.len() == 0
            &&& state.screen.held.len() == 0
            &&& !state.alt.active
            &&& state.alt.partial.len() == 0
            &&& state.adaptive.srtt is None
            &&& !state.adaptive.predicts()
            &&& !state.adaptive.flagging
        }),
{
}

/// One more prediction stands behind all others and changes nothing else.
pub proof fn law_newest_is_last(state: EmulatorState, p: Prediction)
    ensures
        state.with(p).pending == state.pending + seq![p],
        state.with(p).screen == state.screen,
        state.with(p).alt == state.alt,
        state.with(p).adaptive == state.adaptive,
{
    assert(state.pending.push(p) =~= state.pending + seq![p]);
}

/// A result says what was found: nothing yet, how many have come true, or the
/// bytes that undo the wrong ones, from the first of them on.
pub proof fn law_results_are_exact(state: EmulatorState, verdict: Verdict, result: VerifyResult)
    requires
        state.reported(verdict, result),
    ensures
        verdict is Pending <==> result is Pending,
        verdict matches Verdict::Confirmed(n) ==> result matches VerifyResult::Confirmed(count)
            && count == n,
        verdict matches Verdict::Rollback(n) ==> result matches VerifyResult::Rollback(undo)
            && undo@ == prediction::rollback(state.pending.skip(n as int), state.screen),
{
}

} // verus!
