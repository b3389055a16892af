//! The proxy between a user and a server: what is written to the local terminal
//! when the user types, the server answers, time passes or the window changes.

use crate::adaptive::Adaptive;
use crate::ansi::{self, BS, DEL};
use crate::cli::PredictMode;
use crate::clock::MILLISECOND;
use crate::command::Command;
use crate::emulator::{Emulator, EmulatorState, VerifyResult};
use crate::input::{self, InputHandler, InputState};
use crate::output;
use crate::prediction::{self, Prediction, Verdict};
use crate::screen::{ScreenState, MAX_SIDE, MIN_COLS};
use crate::server_buffer::{self, ServerOutputBuffer};
use vstd::prelude::*;

verus! {

/// Most predictions that may wait at once: their widths add up in an `i32`.
pub const MAX_PENDING: usize = 8_000_000;

/// Longest time to wait for an event while predictions are pending, in milliseconds.
pub const MAX_POLL: u64 = 60_000;

/// What a session holds.
#[verifier::ext_equal]
pub struct SessionState {
    /// The server's screen and the predictions.
    pub emulator: EmulatorState,
    /// The user's input.
    pub input: InputState,
    /// Server output that was not shown yet.
    pub held: Seq<u8>,
    /// The measurements decide when to predict and when to underline.
    pub adaptive: bool,
}

/// Milliseconds to wait for an event when so many nanoseconds are left until a
/// prediction expires: one at least, a minute at most.
pub open spec fn poll_millis(left: u64) -> u16 {
    let ms = left / MILLISECOND;
    if ms < 1 {
        1
    } else if ms > MAX_POLL {
        MAX_POLL as u16
    } else {
        ms as u16
    }
}

/// The bytes that put the cursor at `position` if predictions that are shown had
/// moved it.
pub open spec fn repositioned(pending: Seq<Prediction>, position: (nat, nat)) -> Seq<u8> {
    if prediction::drawn(pending) && prediction::total_delta(pending) != 0 {
        ansi::move_to(position.0, position.1)
    } else {
        Seq::empty()
    }
}

/// A character of two columns ends just before column `col` of `screen`.
pub open spec fn wide_before(screen: ScreenState, row: nat, col: nat) -> bool {
    &&& 2 <= col <= screen.cols
    &&& input::char_columns(screen.cell(row, (col - 2) as nat)) == Some(2usize)
    &&& screen.cell(row, (col - 1) as nat) == ' '
}

/// The prediction that a backspace makes, if there is anything to erase: a
/// character that was typed last goes whole, and so does one of two columns that
/// the server shows; otherwise one column does.
pub open spec fn backspace_command(emu: EmulatorState) -> Option<Command> {
    let (row, col) = emu.prediction_end();
    let newest = if emu.pending.len() > 0 {
        Some(emu.pending.last().cmd)
    } else {
        None
    };
    match newest {
        Some(
            Command::Char { row: r, col: c, width, .. },
        ) if r == row && c + width == col && width > 0 => Some(
            Command::Backspace {
                row: r,
                col: c,
                original: emu.screen.cell(r as nat, c as nat),
                width,
            },
        ),
        _ => if wide_before(emu.screen, row, col) {
            Some(
                Command::Backspace {
                    row: row as usize,
                    col: (col - 2) as usize,
                    original: emu.screen.cell(row, (col - 2) as nat),
                    width: 2,
                },
            )
        } else if col > 0 {
            Some(
                Command::Backspace {
                    row: row as usize,
                    col: (col - 1) as usize,
                    original: emu.screen.cell(row, (col - 1) as nat),
                    width: 1,
                },
            )
        } else {
            None
        },
    }
}

/// A vector of bytes as a sequence, if there is one.
pub open spec fn bytes_of(out: Option<Vec<u8>>) -> Option<Seq<u8>> {
    match out {
        Some(bytes) => Some(bytes@),
        None => None,
    }
}

impl SessionState {
    /// A session in `mode` on an empty screen.
    pub open spec fn initial(mode: PredictMode, cols: nat, rows: nat) -> SessionState {
        SessionState {
            emulator: EmulatorState::initial(cols, rows),
            input: InputState {
                enabled: mode != PredictMode::Never,
                ignore_alt_screen: mode == PredictMode::Always,
                ..InputState::initial()
            },
            held: Seq::empty(),
            adaptive: mode == PredictMode::Auto,
        }
    }

    /// Every prediction can be undone, and there are not too many.
    pub open spec fn wf(self) -> bool {
        &&& self.emulator.wf()
        &&& self.emulator.undoable()
        &&& self.emulator.pending.len() <= MAX_PENDING
        &&& self.input.wf()
    }

    /// Predictions may be made here: they are made at all, and the screen is one
    /// that they are made on.
    pub open spec fn allowed(self) -> bool {
        self.input.enabled && (self.emulator.alt.active ==> self.input.ignore_alt_screen)
    }

    /// Predictions are made and shown now.
    pub open spec fn predicts(self) -> bool {
        self.input.predicts(self.emulator, self.adaptive)
    }

    /// Predictions are made now, but not shown: where the measurements decide and
    /// do not ask for any, what is typed measures the round trip.
    pub open spec fn probes(self) -> bool {
        &&& self.allowed()
        &&& self.adaptive
        &&& !self.emulator.adaptive.predicts()
        &&& !prediction::drawn(self.emulator.pending)
    }

    /// Predictions are underlined now: where the measurements have no say, always.
    pub open spec fn flagging(self) -> bool {
        self.adaptive ==> self.emulator.adaptive.flagging
    }

    /// The prediction that `byte` stands for, wherever it lies: backspace erases
    /// what is before the end of the predictions, a character appears there.
    pub open spec fn guess(self, byte: u8) -> Option<Command> {
        if !self.predicts() && !self.probes() {
            None
        } else if byte == BS || byte == DEL {
            backspace_command(self.emulator)
        } else {
            match self.input.completed(byte) {
                Some(ch) => Some(
                    input::char_command(ch, input::char_columns(ch), self.emulator),
                ),
                None => None,
            }
        }
    }

    /// The prediction that `byte` makes: one that lies on the screen.
    pub open spec fn predicted(self, byte: u8) -> Option<Command> {
        match self.guess(byte) {
            Some(cmd) if cmd.undoable(self.emulator.screen) => Some(cmd),
            _ => None,
        }
    }

    /// `byte` can be taken in: what it stands for lies on the screen. Where the
    /// measurements decide, what lies off the screen is just not predicted.
    pub open spec fn shows(self, byte: u8) -> bool {
        self.adaptive || self.guess(byte) == self.predicted(byte)
    }

    /// The input handler after `byte`; a backspace and what is typed while no
    /// predictions are made pass it by.
    pub open spec fn input_after(self, byte: u8) -> InputState {
        if (self.predicts() || self.probes()) && byte != BS && byte != DEL {
            self.input.after(byte)
        } else {
            self.input
        }
    }

    /// The session after `byte` was typed at `now`.
    pub open spec fn typed(self, byte: u8, now: u64) -> SessionState {
        SessionState {
            emulator: match self.predicted(byte) {
                Some(cmd) => self.emulator.with(
                    Prediction { cmd, made: now, shown: self.predicts() },
                ),
                None => self.emulator,
            },
            input: self.input_after(byte),
            ..self
        }
    }

    /// What typing `byte` shows at once.
    pub open spec fn overlay(self, byte: u8) -> Seq<u8> {
        match self.predicted(byte) {
            Some(cmd) if self.predicts() => cmd.overlay(self.flagging()),
            _ => Seq::empty(),
        }
    }

    /// The session after `data` was typed at `now`.
    pub open spec fn after_input(self, data: Seq<u8>, now: u64) -> SessionState
        decreases data.len(),
    {
        if data.len() == 0 {
            self
        } else {
            self.after_input(data.drop_last(), now).typed(data.last(), now)
        }
    }

    /// What typing `data` shows at once.
    pub open spec fn overlays(self, data: Seq<u8>, now: u64) -> Seq<u8>
        decreases data.len(),
    {
        if data.len() == 0 {
            Seq::empty()
        } else {
            self.overlays(data.drop_last(), now) + self.after_input(data.drop_last(), now).overlay(
                data.last(),
            )
        }
    }

    /// Every byte of `data` can be taken in.
    pub open spec fn shows_all(self, data: Seq<u8>, now: u64) -> bool
        decreases data.len(),
    {
        data.len() > 0 ==> self.shows_all(data.drop_last(), now) && self.after_input(
            data.drop_last(),
            now,
        ).shows(data.last())
    }

    /// The bytes of server output that can be shown once `data` has arrived.
    pub open spec fn ready(self, data: Seq<u8>) -> Seq<u8> {
        (self.held + data).take(server_buffer::complete_len(self.held + data) as int)
    }

    /// The bytes that are still held back once `data` has arrived.
    pub open spec fn still_held(self, data: Seq<u8>) -> Seq<u8> {
        (self.held + data).skip(server_buffer::complete_len(self.held + data) as int)
    }

    /// The session after `data` arrived from the server at `now`.
    pub open spec fn received(self, data: Seq<u8>, now: u64) -> SessionState {
        SessionState {
            emulator: if self.ready(data).len() > 0 {
                self.emulator.answered(self.ready(data), now)
            } else {
                self.emulator
            },
            held: self.still_held(data),
            ..self
        }
    }

    /// The bytes that undo the predictions which `data` from the server
    /// contradicts; where none is shown, there is nothing to undo.
    pub open spec fn undone(self, data: Seq<u8>) -> Seq<u8> {
        let fed = self.emulator.fed(self.ready(data));
        match self.emulator.verdict(self.ready(data)) {
            Verdict::Rollback(n) if prediction::drawn(
                self.emulator.pending,
            ) => prediction::rollback(fed.pending.skip(n as int), fed.screen),
            _ => Seq::empty(),
        }
    }

    /// What is written when `data` arrives from the server at `now`, if anything
    /// can be shown: wrong predictions are undone, the server's output appears
    /// where the server's cursor was, and the cursor goes to the end of the
    /// predictions that are left.
    pub open spec fn reply(self, data: Seq<u8>, now: u64) -> Option<Seq<u8>> {
        if self.ready(data).len() == 0 {
            None
        } else {
            let cursor = self.emulator.screen.cursor();
            let end = self.received(data, now).emulator;
            Some(
                self.undone(data) + repositioned(self.emulator.pending, cursor) + self.ready(data)
                    + repositioned(end.pending, end.prediction_end()),
            )
        }
    }

    /// The emulator after time has passed up to `now` without an event, before
    /// expired predictions are dropped.
    pub open spec fn waited(self, now: u64) -> EmulatorState {
        if self.adaptive {
            self.emulator.glitch_checked(now)
        } else {
            self.emulator
        }
    }

    /// The session after time has passed up to `now` without an event.
    pub open spec fn after_timeout(self, now: u64) -> SessionState {
        SessionState {
            emulator: if self.emulator.expired(now) {
                EmulatorState { pending: Seq::empty(), ..self.waited(now) }
            } else {
                self.waited(now)
            },
            ..self
        }
    }

    /// What is written when time has passed up to `now` without an event.
    pub open spec fn expiry(self, now: u64) -> Option<Seq<u8>> {
        if self.emulator.expired(now) && prediction::drawn(self.emulator.pending) {
            Some(prediction::rollback(self.emulator.pending, self.emulator.screen))
        } else {
            None
        }
    }

    /// `outcome` and the session `end` are what typing `data` at `now` comes to.
    pub open spec fn input_reported(
        self,
        data: Seq<u8>,
        now: u64,
        end: SessionState,
        outcome: InputOutcome,
    ) -> bool {
        match outcome {
            InputOutcome::Shown { overlay, forward } => {
                &&& self.shows_all(data, now)
                &&& overlay@ == self.overlays(data, now)
                &&& forward@ == self.forwarded(Event::Typed(data), now)
                &&& end == self.after_input(data, now)
            },
            InputOutcome::OffScreen(out) => exists|n: int|
                #![trigger data.take(n)]
                {
                    &&& 0 <= n < data.len()
                    &&& self.shows_all(data.take(n), now)
                    &&& !self.after_input(data.take(n), now).shows(data[n])
                    &&& out@ == self.overlays(data.take(n), now)
                    &&& end == self.after_input(data.take(n + 1), now)
                },
        }
    }
}

/// What typing comes to.
#[derive(Debug)]
pub enum InputOutcome {
    /// It was taken in.
    Shown {
        /// The bytes that show the predictions.
        overlay: Vec<u8>,
        /// The bytes to send to the server.
        forward: Vec<u8>,
    },
    /// A prediction would lie off the screen; the bytes show those before it,
    /// and what was typed behind it was not looked at.
    OffScreen(Vec<u8>),
}

/// The proxy's state.
pub struct Session {
    emulator: Emulator,
    input: InputHandler,
    server_buf: ServerOutputBuffer,
    use_adaptive: bool,
    cols: usize,
}

impl View for Session {
    type V = SessionState;

    closed spec fn view(&self) -> SessionState {
        SessionState {
            emulator: self.emulator@,
            input: self.input@,
            held: self.server_buf@,
            adaptive: self.use_adaptive,
        }
    }
}

impl Session {
    /// What every operation keeps.
    pub closed spec fn inv(&self) -> bool {
        &&& self@.wf()
        &&& self.cols == self@.emulator.screen.cols
    }

    /// Starts a session in `mode` on an empty screen.
    pub fn new(mode: PredictMode, cols: usize, rows: usize) -> (s: Session)
        requires
            MIN_COLS <= cols <= MAX_SIDE,
            1 <= rows <= MAX_SIDE,
        ensures
            s@ == SessionState::initial(mode, cols as nat, rows as nat),
            s.inv(),
    {
        let mut input: InputHandler = InputHandler::new();
        match mode {
            PredictMode::Always => {
                input.set_ignore_alt_screen(true);
            },
            PredictMode::Auto => {},
            PredictMode::Never => {
                input.set_enabled(false);
            },
        }
        Session {
            emulator: Emulator::new(cols, rows),
            input,
            server_buf: ServerOutputBuffer::new(),
            use_adaptive: mode == PredictMode::Auto,
            cols,
        }
    }

    /// Number of predictions that wait for an answer.
    pub fn pending_count(&self) -> (n: usize)
        ensures
            n == self@.emulator.pending.len(),
    {
        self.emulator.pending_count()
    }

    /// What decides whether predictions are shown and underlined.
    pub fn measurements(&self) -> (a: Adaptive)
        ensures
            a == self@.emulator.adaptive,
    {
        self.emulator.measurements()
    }

    /// Takes in one byte that was typed at `now`; gives back the bytes that show
    /// the prediction it makes, and nothing if it cannot be taken in.
    pub fn type_byte(&mut self, byte: u8, now: u64) -> (out: Option<Vec<u8>>)
        requires
            old(self).inv(),
            old(self)@.emulator.pending.len() < MAX_PENDING,
        ensures
            final(self).inv(),
            final(self)@ == old(self)@.typed(byte, now),
            match out {
                Some(shown) => old(self)@.shows(byte) && shown@ == old(self)@.overlay(byte),
                None => !old(self)@.shows(byte),
            },
    {
        proof {
            prediction::lemma_total_delta(self@.emulator.pending);
        }
        let draws: bool = self.input.predicts_on(&self.emulator, self.use_adaptive);
        let probes: bool = !draws && self.use_adaptive && self.input.predicts_on(
            &self.emulator,
            false,
        ) && !self.emulator.any_shown();
        if !draws && !probes {
            assert(self@ =~= old(self)@.typed(byte, now));
            return Some(Vec::new());
        }
        let (row, col): (usize, usize) = self.emulator.prediction_end_cursor();
        let erases: bool = byte == BS || byte == DEL;
        let guess: Option<Command>;
        if erases {
            guess = self.track_backspace(row, col);
            if guess.is_none() {
                let off: bool = !self.use_adaptive && col > 0;
                assert(self@ =~= old(self)@.typed(byte, now));
                return if off {
                    None
                } else {
                    Some(Vec::new())
                };
            }
        } else if col < self.cols {
            guess = self.track_char(byte, draws);
        } else {
            let off: bool = self.input.take_byte(byte).is_some() && !self.use_adaptive;
            assert(self@ =~= old(self)@.typed(byte, now));
            return if off {
                None
            } else {
                Some(Vec::new())
            };
        }
        match guess {
            Some(cmd) => Some(self.track(cmd, now, draws)),
            None => {
                assert(self@ =~= old(self)@.typed(byte, now));
                Some(Vec::new())
            },
        }
    }

    /// The prediction that a backspace makes where the predictions end at
    /// (`row`, `col`), if it lies on the screen.
    fn track_backspace(&self, row: usize, col: usize) -> (cmd: Option<Command>)
        requires
            self.inv(),
            (row as nat, col as nat) == self@.emulator.prediction_end(),
            row < self@.emulator.screen.rows,
        ensures
            cmd == match backspace_command(self@.emulator) {
                Some(c) if c.undoable(self@.emulator.screen) => Some(c),
                _ => None,
            },
            backspace_command(self@.emulator) is Some <==> col > 0,
    {
        if let Some(Command::Char { row: r, col: c, width, .. }) = self.emulator.newest() {
            if r == row && c <= col && col - c == width as usize && width > 0 {
                if c >= self.cols {
                    return None;
                }
                let original: char = self.emulator.char_at(r, c);
                return Some(Command::backspace(r, c, original, width));
            }
        }
        if col == 0 || col - 1 >= self.cols {
            return None;
        }
        let original: char = self.emulator.char_at(row, col - 1);
        if col >= 2 && original == ' ' {
            let wide: char = self.emulator.char_at(row, col - 2);
            if let Some(columns) = input::columns_of(wide) {
                if columns == 2 {
                    return Some(Command::backspace(row, col - 2, wide, 2));
                }
            }
        }
        Some(Command::backspace(row, col - 1, original, 1))
    }

    /// Takes in a byte where the predictions end on the screen; gives back the
    /// prediction that it stands for.
    fn track_char(&mut self, byte: u8, draws: bool) -> (cmd: Option<Command>)
        requires
            old(self).inv(),
            old(self)@.emulator.delta_fits(),
            old(self)@.emulator.prediction_end().1 < old(self)@.emulator.screen.cols,
            draws == old(self)@.predicts(),
        ensures
            final(self).inv(),
            final(self)@ == (SessionState {
                input: old(self)@.input.after(byte),
                ..old(self)@
            }),
            cmd == match old(self)@.input.completed(byte) {
                Some(ch) => Some(
                    input::char_command(
                        ch,
                        input::char_columns(ch),
                        old(self)@.emulator,
                    ),
                ),
                None => None,
            },
    {
        if draws {
            return self.input.handle_byte(byte, &self.emulator, self.use_adaptive);
        }
        match self.input.take_byte(byte) {
            Some(ch) => Some(self.input.create_char_command(ch, &self.emulator)),
            None => None,
        }
    }

    /// Tracks a prediction that is made at `now`; gives back the bytes that show
    /// it, if it is to be shown.
    fn track(&mut self, cmd: Command, now: u64, shown: bool) -> (out: Vec<u8>)
        requires
            old(self).inv(),
            old(self)@.emulator.pending.len() < MAX_PENDING,
            cmd.undoable(old(self)@.emulator.screen),
            !(cmd is CursorMove),
        ensures
            final(self).inv(),
            out@ == if shown {
                cmd.overlay(old(self)@.flagging())
            } else {
                Seq::empty()
            },
            final(self)@ == (SessionState {
                emulator: old(self)@.emulator.with(Prediction { cmd, made: now, shown }),
                ..old(self)@
            }),
    {
        let out: Vec<u8>;
        if shown {
            let flagging: bool = !self.use_adaptive || self.emulator.should_flag();
            out = cmd.execute(flagging);
            self.emulator.push_command_at(cmd, now);
        } else {
            out = Vec::new();
            self.emulator.push_probe_at(cmd, now);
        }
        proof {
            let pending = self@.emulator.pending;
            assert forall|i: int|
                0 <= i < pending.len() && (
                #[trigger] pending[i]).shown implies pending[i].cmd.undoable(
                self@.emulator.screen,
            ) by {
                if i < old(self)@.emulator.pending.len() {
                    assert(old(self)@.emulator.pending[i].shown);
                }
            }
        }
        out
    }

    /// Takes in what was typed at `now`; gives back the bytes that show the
    /// predictions and those to send to the server.
    pub fn on_input_at(&mut self, data: &[u8], now: u64) -> (outcome: InputOutcome)
        requires
            old(self).inv(),
            old(self)@.emulator.pending.len() + data@.len() <= MAX_PENDING,
        ensures
            final(self).inv(),
            old(self)@.input_reported(data@, now, final(self)@, outcome),
    {
        let mut out: Vec<u8> = Vec::new();
        let mut i: usize = 0;
        assert(data@.take(0) =~= Seq::<u8>::empty());
        while i < data.len()
            invariant
                self.inv(),
                i <= data@.len(),
                self@ == old(self)@.after_input(data@.take(i as int), now),
                out@ == old(self)@.overlays(data@.take(i as int), now),
                old(self)@.shows_all(data@.take(i as int), now),
                self@.emulator.pending.len() <= old(self)@.emulator.pending.len() + i,
                old(self)@.emulator.pending.len() + data@.len() <= MAX_PENDING,
            decreases data@.len() - i,
        {
            proof {
                assert(data@.take(i + 1).drop_last() =~= data@.take(i as int));
                assert(data@.take(i + 1).last() == data@[i as int]);
            }
            match self.type_byte(data[i], now) {
                Some(mut shown) => {
                    out.append(&mut shown);
                },
                None => {
                    return InputOutcome::OffScreen(out);
                },
            }
            i += 1;
        }
        assert(data@.take(i as int) =~= data@);
        InputOutcome::Shown { overlay: out, forward: vstd::slice::slice_to_vec(data) }
    }

    /// Takes in what is typed now; gives back the bytes that show the predictions
    /// and those to send to the server.
    pub fn on_input(&mut self, data: &[u8]) -> (outcome: InputOutcome)
        requires
            old(self).inv(),
            old(self)@.emulator.pending.len() + data@.len() <= MAX_PENDING,
        ensures
            final(self).inv(),
            exists|now: u64| #[trigger]
                old(self)@.input_reported(data@, now, final(self)@, outcome),
    {
        let now: u64 = self.emulator.now();
        self.on_input_at(data, now)
    }

    /// Takes in server output that arrived at a known time, or else now; gives
    /// back the bytes to write, if any of it can be shown.
    fn receive(&mut self, data: &[u8], arrived: Option<u64>) -> (reply: Option<Vec<u8>>)
        requires
            old(self).inv(),
        ensures
            final(self).inv(),
            exists|now: u64|
                {
                    &&& bytes_of(reply) == #[trigger] old(self)@.reply(data@, now)
                    &&& final(self)@ == old(self)@.received(data@, now)
                    &&& arrived is Some ==> arrived == Some(now)
                },
    {
        let shown: Vec<u8> = self.server_buf.process(data);
        let ghost before = old(self)@;
        let ghost mut now: u64 = match arrived {
            Some(at) => at,
            None => 0,
        };
        assert(shown@ =~= before.ready(data@));
        if shown.len() == 0 {
            proof {
                assert(self@ =~= before.received(data@, now));
                assert(before.reply(data@, now) is None);
            }
            return None;
        }
        let mark: Option<(usize, usize)> = self.cursor_mark();
        let drawn: bool = self.emulator.any_shown();
        proof {
            crate::emulator::lemma_answered(before.emulator, shown@, now);
        }
        let result: VerifyResult = match arrived {
            Some(at) => self.emulator.feed_and_verify_at(shown.as_slice(), at),
            None => self.emulator.feed_and_verify(shown.as_slice()),
        };
        proof {
            if arrived is None {
                now = choose|now: u64|
                    self.emulator@ == #[trigger] before.emulator.answered(shown@, now);
            }
            crate::emulator::lemma_answered(before.emulator, shown@, now);
            assert(self@ =~= before.received(data@, now));
        }
        Some(self.compose(result, drawn, mark, shown, Ghost(before), Ghost(data@), Ghost(now)))
    }

    /// Takes in server output that arrived at `now`; gives back the bytes to
    /// write, if any of it can be shown.
    pub fn on_output_at(&mut self, data: &[u8], now: u64) -> (reply: Option<Vec<u8>>)
        requires
            old(self).inv(),
        ensures
            final(self).inv(),
            bytes_of(reply) == old(self)@.reply(data@, now),
            final(self)@ == old(self)@.received(data@, now),
    {
        self.receive(data, Some(now))
    }

    /// Takes in server output; gives back the bytes to write, if any of it can be shown.
    pub fn on_output(&mut self, data: &[u8]) -> (reply: Option<Vec<u8>>)
        requires
            old(self).inv(),
        ensures
            final(self).inv(),
            exists|now: u64|
                {
                    &&& bytes_of(reply) == #[trigger] old(self)@.reply(data@, now)
                    &&& final(self)@ == old(self)@.received(data@, now)
                },
    {
        self.receive(data, None)
    }

    /// Where the server's cursor is, if predictions that are shown have moved it.
    fn cursor_mark(&self) -> (mark: Option<(usize, usize)>)
        requires
            self@.wf(),
        ensures
            match mark {
                Some((row, col)) => {
                    &&& prediction::drawn(self@.emulator.pending)
                    &&& prediction::total_delta(self@.emulator.pending) != 0
                    &&& (row as nat, col as nat) == self@.emulator.screen.cursor()
                    &&& self@.emulator.screen.holds(row as nat, col as nat)
                },
                None => !prediction::drawn(self@.emulator.pending) || prediction::total_delta(
                    self@.emulator.pending,
                ) == 0,
            },
    {
        proof {
            prediction::lemma_total_delta(self@.emulator.pending);
        }
        if self.emulator.any_shown() && self.emulator.pending_width() > 0 {
            Some(self.emulator.server_cursor())
        } else {
            None
        }
    }

    /// The bytes to write once `shown` was held against the predictions.
    fn compose(
        &self,
        result: VerifyResult,
        drawn: bool,
        mark: Option<(usize, usize)>,
        shown: Vec<u8>,
        Ghost(before): Ghost<SessionState>,
        Ghost(data): Ghost<Seq<u8>>,
        Ghost(now): Ghost<u64>,
    ) -> (out: Vec<u8>)
        requires
            self@.wf(),
            self@ == before.received(data, now),
            shown@ == before.ready(data),
            shown@.len() > 0,
            drawn == prediction::drawn(before.emulator.pending),
            before.emulator.fed(shown@).reported(before.emulator.verdict(shown@), result),
            match mark {
                Some((row, col)) => {
                    &&& drawn && prediction::total_delta(before.emulator.pending) != 0
                    &&& (row as nat, col as nat) == before.emulator.screen.cursor()
                    &&& before.emulator.screen.wf()
                    &&& before.emulator.screen.holds(row as nat, col as nat)
                },
                None => !drawn || prediction::total_delta(before.emulator.pending) == 0,
            },
        ensures
            Some(out@) == before.reply(data, now),
    {
        proof {
            prediction::lemma_total_delta(self@.emulator.pending);
        }
        let mut shown = shown;
        let mut out: Vec<u8> = Vec::new();
        if let VerifyResult::Rollback(mut undo) = result {
            if drawn {
                out.append(&mut undo);
            }
        }
        assert(out@ =~= before.undone(data));
        if let Some((row, col)) = mark {
            ansi::push_move_to(&mut out, row, col);
        }
        out.append(&mut shown);
        if self.emulator.any_shown() && self.emulator.pending_width() > 0 {
            let (row, col): (usize, usize) = self.emulator.prediction_end_cursor();
            ansi::push_move_to(&mut out, row, col);
        }
        assert(Some(out@) =~~= before.reply(data, now));
        out
    }

    /// Takes in that there was no event up to `now`; gives back the bytes that
    /// undo the predictions if the oldest has waited too long.
    pub fn on_timeout_at(&mut self, now: u64) -> (restore: Option<Vec<u8>>)
        requires
            old(self).inv(),
        ensures
            final(self).inv(),
            bytes_of(restore) == old(self)@.expiry(now),
            final(self)@ == old(self)@.after_timeout(now),
    {
        let drawn: bool = self.emulator.any_shown();
        if self.use_adaptive {
            self.emulator.check_glitch_at(now);
        }
        let restore: Option<Vec<u8>> = self.emulator.check_timeout_at(now);
        assert(self@ =~= old(self)@.after_timeout(now));
        if drawn {
            restore
        } else {
            None
        }
    }

    /// Takes in that there was no event; gives back the bytes that undo the
    /// predictions if the oldest has waited too long.
    pub fn on_timeout(&mut self) -> (restore: Option<Vec<u8>>)
        requires
            old(self).inv(),
        ensures
            final(self).inv(),
            exists|now: u64|
                {
                    &&& bytes_of(restore) == #[trigger] old(self)@.expiry(now)
                    &&& final(self)@ == old(self)@.after_timeout(now)
                },
    {
        let now: u64 = self.emulator.now();
        self.on_timeout_at(now)
    }

    /// Takes in that the window has a new size: the predictions are undone, and
    /// the session goes on with an empty screen and nothing measured. Gives back
    /// the bytes to write.
    pub fn on_resize(&mut self, cols: usize, rows: usize) -> (restore: Vec<u8>)
        requires
            old(self).inv(),
            MIN_COLS <= cols <= MAX_SIDE,
            1 <= rows <= MAX_SIDE,
        ensures
            final(self).inv(),
            restore@ == if prediction::drawn(old(self)@.emulator.pending) {
                prediction::rollback(old(self)@.emulator.pending, old(self)@.emulator.screen)
            } else {
                Seq::empty()
            },
            final(self)@ == (SessionState {
                emulator: EmulatorState::initial(cols as nat, rows as nat),
                ..old(self)@
            }),
    {
        let restore: Vec<u8> = if self.emulator.any_shown() {
            self.emulator.rollback_all()
        } else {
            Vec::new()
        };
        self.emulator = Emulator::new(cols, rows);
        self.cols = cols;
        restore
    }

    /// Milliseconds to wait for an event from `now` on; no limit while nothing is predicted.
    pub fn poll_timeout_at(&self, now: u64) -> (ms: Option<u16>)
        ensures
            ms == match self@.emulator.time_left(now) {
                Some(left) => Some(poll_millis(left)),
                None => None,
            },
    {
        match self.emulator.time_until_expire_at(now) {
            Some(left) => {
                let whole: u64 = left / MILLISECOND;
                let ms: u16 = if whole > MAX_POLL {
                    MAX_POLL as u16
                } else {
                    whole as u16
                };
                Some(
                    if ms < 1 {
                        1
                    } else {
                        ms
                    },
                )
            },
            None => None,
        }
    }

    /// Milliseconds to wait for an event; no limit while nothing is predicted.
    pub fn poll_timeout(&self) -> (ms: Option<u16>)
        ensures
            exists|now: u64|
                ms == match #[trigger] self@.emulator.time_left(now) {
                    Some(left) => Some(poll_millis(left)),
                    None => None,
                },
    {
        self.poll_timeout_at(self.emulator.now())
    }
}

/// Typing changes only the predictions and the input handler: the server's
/// screen, what was measured and what is held back stay, the predictions so far
/// stay in front, and each byte makes one more at most.
pub proof fn law_typing_only_predicts(s: SessionState, data: Seq<u8>, now: u64)
    ensures
        ({
            let end = s.after_input(data, now);
            &&& end.emulator.screen == s.emulator.screen
            &&& end.emulator.alt == s.emulator.alt
            &&& end.emulator.adaptive == s.emulator.adaptive
            &&& end.held == s.held
            &&& end.adaptive == s.adaptive
            &&& end.predicts() == s.predicts()
            &&& end.flagging() == s.flagging()
            &&& s.emulator.pending.len() <= end.emulator.pending.len()
                <= s.emulator.pending.len() + data.len()
            &&& end.emulator.pending.take(s.emulator.pending.len() as int) == s.emulator.pending
        }),
    decreases data.len(),
{
    if data.len() == 0 {
        assert(s.emulator.pending.take(s.emulator.pending.len() as int) =~= s.emulator.pending);
    } else {
        law_typing_only_predicts(s, data.drop_last(), now);
        let before = s.after_input(data.drop_last(), now);
        let end = before.typed(data.last(), now);
        let n = s.emulator.pending.len() as int;
        assert(end.emulator.pending.take(n) =~= before.emulator.pending.take(n));
    }
}

/// Where predictions may not be made, typing shows nothing and changes nothing.
pub proof fn law_no_predictions(s: SessionState, data: Seq<u8>, now: u64)
    requires
        !s.allowed(),
    ensures
        s.after_input(data, now) == s,
        s.overlays(data, now) == Seq::<u8>::empty(),
        s.shows_all(data, now),
    decreases data.len(),
{
    if data.len() > 0 {
        law_no_predictions(s, data.drop_last(), now);
        assert(s.typed(data.last(), now) =~= s);
        assert(s.overlays(data, now) =~= Seq::<u8>::empty());
    }
}

/// A prediction that is not shown leaves it at what is shown.
pub proof fn lemma_probe_draws_nothing(pending: Seq<Prediction>, probe: Prediction)
    requires
        !probe.shown,
    ensures
        prediction::drawn(pending.push(probe)) == prediction::drawn(pending),
{
    let longer = pending.push(probe);
    if prediction::drawn(pending) {
        let i = choose|i: int| 0 <= i < pending.len() && (#[trigger] pending[i]).shown;
        assert(longer[i].shown);
    }
    if prediction::drawn(longer) {
        let i = choose|i: int| 0 <= i < longer.len() && (#[trigger] longer[i]).shown;
        assert(pending[i].shown);
    }
}

/// While no predictions are shown, server output is passed on as it stands,
/// whether or not some are made to measure the round trip.
pub proof fn law_passthrough(s: SessionState, data: Seq<u8>, now: u64)
    requires
        !prediction::drawn(s.emulator.pending),
    ensures
        !prediction::drawn(s.received(data, now).emulator.pending),
        s.emulator.pending.len() == 0 ==> s.received(data, now).emulator.pending.len() == 0,
        s.reply(data, now) == if s.ready(data).len() > 0 {
            Some(s.ready(data))
        } else {
            None
        },
{
    let end = s.received(data, now).emulator.pending;
    if prediction::drawn(end) {
        let i = choose|i: int| 0 <= i < end.len() && (#[trigger] end[i]).shown;
        let fed = s.emulator.fed(s.ready(data)).pending;
        prediction::law_verdict_in_range(
            fed,
            output::printed(s.ready(data)),
            output::erasures(s.ready(data)),
            s.emulator.screen.cursor(),
            s.emulator.fed(s.ready(data)).screen.cursor(),
        );
        let n = fed.len() - end.len();
        assert(end[i] == s.emulator.pending[n + i]);
    }
    assert(s.reply(data, now) is Some ==> s.reply(data, now)->0 =~= s.ready(data));
}

/// What happens to a session.
pub enum Event {
    /// These bytes are typed.
    Typed(Seq<u8>),
    /// These bytes arrive from the server.
    Received(Seq<u8>),
    /// Nothing happens for a while.
    Waited,
    /// The window has so many columns and rows.
    Resized(nat, nat),
}

impl SessionState {
    /// The session after `event` at `now`.
    pub open spec fn after_event(self, event: Event, now: u64) -> SessionState {
        match event {
            Event::Typed(data) => self.after_input(data, now),
            Event::Received(data) => self.received(data, now),
            Event::Waited => self.after_timeout(now),
            Event::Resized(cols, rows) => SessionState {
                emulator: EmulatorState::initial(cols, rows),
                ..self
            },
        }
    }

    /// What is sent to the server on `event` at `now`: what was typed, as it
    /// stands, if it can be taken in.
    pub open spec fn forwarded(self, event: Event, now: u64) -> Seq<u8> {
        match event {
            Event::Typed(data) if self.shows_all(data, now) => data,
            _ => Seq::empty(),
        }
    }

    /// The server's bytes that are written to the local terminal on `event`.
    pub open spec fn passed_on(self, event: Event) -> Seq<u8> {
        match event {
            Event::Received(data) => self.ready(data),
            _ => Seq::empty(),
        }
    }

    /// The session after a run of events, each with its time.
    pub open spec fn after_events(self, events: Seq<(Event, u64)>) -> SessionState
        decreases events.len(),
    {
        if events.len() == 0 {
            self
        } else {
            self.after_events(events.drop_last()).after_event(events.last().0, events.last().1)
        }
    }

    /// All that is sent to the server in a run of events.
    pub open spec fn all_forwarded(self, events: Seq<(Event, u64)>) -> Seq<u8>
        decreases events.len(),
    {
        if events.len() == 0 {
            Seq::empty()
        } else {
            self.all_forwarded(events.drop_last()) + self.after_events(
                events.drop_last(),
            ).forwarded(events.last().0, events.last().1)
        }
    }

    /// All the server's bytes that are written to the local terminal in a run of events.
    pub open spec fn all_passed_on(self, events: Seq<(Event, u64)>) -> Seq<u8>
        decreases events.len(),
    {
        if events.len() == 0 {
            Seq::empty()
        } else {
            self.all_passed_on(events.drop_last()) + self.after_events(
                events.drop_last(),
            ).passed_on(events.last().0)
        }
    }

    /// Everything that is typed in a run of events can be taken in.
    pub open spec fn shows_events(self, events: Seq<(Event, u64)>) -> bool
        decreases events.len(),
    {
        events.len() > 0 ==> self.shows_events(events.drop_last()) && (
        events.last().0 matches Event::Typed(data) ==> self.after_events(
            events.drop_last(),
        ).shows_all(data, events.last().1))
    }

    /// What is written to the local terminal on `event` at `now`.
    pub open spec fn written(self, event: Event, now: u64) -> Seq<u8> {
        match event {
            Event::Typed(data) => self.overlays(data, now),
            Event::Received(data) => match self.reply(data, now) {
                Some(reply) => reply,
                None => Seq::empty(),
            },
            Event::Waited => match self.expiry(now) {
                Some(restore) => restore,
                None => Seq::empty(),
            },
            Event::Resized(..) => if prediction::drawn(self.emulator.pending) {
                prediction::rollback(self.emulator.pending, self.emulator.screen)
            } else {
                Seq::empty()
            },
        }
    }
}

/// All that is typed in a run of events.
pub open spec fn all_typed(events: Seq<(Event, u64)>) -> Seq<u8>
    decreases events.len(),
{
    if events.len() == 0 {
        Seq::empty()
    } else {
        all_typed(events.drop_last()) + match events.last().0 {
            Event::Typed(data) => data,
            _ => Seq::empty(),
        }
    }
}

/// What arrives from the server in one event.
pub open spec fn received_in(event: Event) -> Seq<u8> {
    match event {
        Event::Received(data) => data,
        _ => Seq::empty(),
    }
}

/// All that arrives from the server in a run of events.
pub open spec fn all_received(events: Seq<(Event, u64)>) -> Seq<u8>
    decreases events.len(),
{
    if events.len() == 0 {
        Seq::empty()
    } else {
        all_received(events.drop_last()) + received_in(events.last().0)
    }
}

/// What is typed is sent to the server once and in order, whatever was predicted.
pub proof fn law_typed_bytes_are_forwarded(s: SessionState, events: Seq<(Event, u64)>)
    requires
        s.shows_events(events),
    ensures
        s.all_forwarded(events) == all_typed(events),
    decreases events.len(),
{
    if events.len() > 0 {
        law_typed_bytes_are_forwarded(s, events.drop_last());
    }
}

/// What one event passes on and leaves held back is what was held back and what arrived.
proof fn lemma_event_passes_on(s: SessionState, event: Event, now: u64)
    ensures
        s.passed_on(event) + s.after_event(event, now).held == s.held + received_in(event),
{
    match event {
        Event::Typed(data) => {
            law_typing_only_predicts(s, data, now);
            assert(s.passed_on(event) + s.held =~= s.held + received_in(event));
        },
        Event::Received(data) => {
            let all = s.held + data;
            assert(server_buffer::complete_len(all) <= all.len());
            assert(s.ready(data) + s.still_held(data) =~= all);
        },
        _ => {
            assert(s.passed_on(event) + s.held =~= s.held + received_in(event));
        },
    }
}

/// What the server sends is written to the local terminal once and in order,
/// whatever was predicted; at most the end of it is still held back.
pub proof fn law_server_bytes_are_passed_on(s: SessionState, events: Seq<(Event, u64)>)
    ensures
        s.all_passed_on(events) + s.after_events(events).held == s.held + all_received(events),
    decreases events.len(),
{
    if events.len() == 0 {
        assert(s.all_passed_on(events) + s.held =~= s.held + all_received(events));
    } else {
        let front = events.drop_last();
        let before = s.after_events(front);
        let (event, now) = events.last();
        law_server_bytes_are_passed_on(s, front);
        lemma_event_passes_on(before, event, now);
        lemma_regroup(
            s.all_passed_on(front),
            before.passed_on(event),
            before.after_event(event, now).held,
            before.held,
            received_in(event),
            s.held,
            all_received(front),
        );
    }
}

/// Two equal concatenations, joined where they meet, are one.
proof fn lemma_regroup(
    a: Seq<u8>,
    b: Seq<u8>,
    c: Seq<u8>,
    d: Seq<u8>,
    e: Seq<u8>,
    f: Seq<u8>,
    g: Seq<u8>,
)
    requires
        a + d == f + g,
        b + c == d + e,
    ensures
        (a + b) + c == f + (g + e),
{
    assert((a + b) + c =~= a + (b + c));
    assert(a + (d + e) =~= (a + d) + e);
    assert((f + g) + e =~= f + (g + e));
}

/// What is written on server output holds the server's bytes in one piece, and
/// the undoing of wrong predictions comes before them.
pub proof fn law_reply_holds_output(s: SessionState, data: Seq<u8>, now: u64)
    ensures
        s.reply(data, now) matches Some(reply) ==> {
            let start = (s.undone(data) + repositioned(
                s.emulator.pending,
                s.emulator.screen.cursor(),
            )).len() as int;
            &&& reply.subrange(start, start + s.ready(data).len()) == s.ready(data)
            &&& reply.take(s.undone(data).len() as int) == s.undone(data)
        },
{
    if let Some(reply) = s.reply(data, now) {
        let back = repositioned(s.emulator.pending, s.emulator.screen.cursor());
        let start = (s.undone(data) + back).len() as int;
        assert(reply.subrange(start, start + s.ready(data).len()) =~= s.ready(data));
        assert(reply.take(s.undone(data).len() as int) =~= s.undone(data));
    }
}

/// A session that never predicts is a pure passthrough: on any event, nothing is
/// written but the server's own bytes, and nothing is predicted afterwards.
pub proof fn law_never_is_passthrough(s: SessionState, event: Event, now: u64)
    requires
        !s.input.enabled,
        s.emulator.pending.len() == 0,
    ensures
        !s.after_event(event, now).input.enabled,
        s.after_event(event, now).emulator.pending.len() == 0,
        s.written(event, now) == match event {
            Event::Received(data) => s.ready(data),
            _ => Seq::<u8>::empty(),
        },
{
    match event {
        Event::Typed(data) => {
            law_no_predictions(s, data, now);
        },
        Event::Received(data) => {
            law_passthrough(s, data, now);
            assert(s.ready(data).len() == 0 ==> s.ready(data) =~= Seq::<u8>::empty());
        },
        _ => {},
    }
}

/// On the alternate screen typing shows nothing, unless predictions are made there as well.
pub proof fn law_alt_screen_is_silent(s: SessionState, data: Seq<u8>, now: u64)
    requires
        s.emulator.alt.active,
        !s.input.ignore_alt_screen,
    ensures
        s.after_input(data, now) == s,
        s.overlays(data, now) == Seq::<u8>::empty(),
{
    law_no_predictions(s, data, now);
}

/// Where the measurements decide, typing shows nothing as long as round trips
/// are quick and no glitch was seen: at most it makes predictions that measure
/// the round trip.
pub proof fn law_quick_server_is_silent(s: SessionState, data: Seq<u8>, now: u64)
    requires
        s.adaptive,
        !s.emulator.adaptive.predicts(),
    ensures
        s.overlays(data, now) == Seq::<u8>::empty(),
        s.shows_all(data, now),
        prediction::drawn(s.after_input(data, now).emulator.pending) == prediction::drawn(
            s.emulator.pending,
        ),
    decreases data.len(),
{
    if data.len() > 0 {
        law_quick_server_is_silent(s, data.drop_last(), now);
        law_typing_only_predicts(s, data.drop_last(), now);
        let before = s.after_input(data.drop_last(), now);
        if let Some(cmd) = before.predicted(data.last()) {
            lemma_probe_draws_nothing(
                before.emulator.pending,
                Prediction { cmd, made: now, shown: false },
            );
        }
        assert(s.overlays(data, now) =~= Seq::<u8>::empty());
    }
}

/// The mode decides where predictions are made: always, everywhere; never,
/// nowhere; and in a session that is left to the measurements, not on the
/// alternate screen.
pub proof fn law_modes(mode: PredictMode, cols: nat, rows: nat)
    ensures
        ({
            let s = SessionState::initial(mode, cols, rows);
            &&& mode == PredictMode::Always ==> s.input.enabled && s.input.ignore_alt_screen
                && !s.adaptive
            &&& mode == PredictMode::Auto ==> s.input.enabled && !s.input.ignore_alt_screen
                && s.adaptive && !s.predicts() && s.probes()
            &&& mode == PredictMode::Never ==> !s.input.enabled && !s.predicts()
        }),
{
}

/// `bytes` put the cursor at (`row`, `col`) if it has to be moved, and are none
/// otherwise.
pub open spec fn places(bytes: Seq<u8>, has_to: bool, row: nat, col: nat) -> bool {
    if has_to {
        ansi::goes_to(bytes, row, col, Seq::empty())
    } else {
        bytes.len() == 0
    }
}

/// Some predictions are shown, and together they move the cursor.
pub open spec fn moves_cursor(pending: Seq<Prediction>) -> bool {
    &&& exists|i: int| 0 <= i < pending.len() && (#[trigger] pending[i]).shown
    &&& prediction::total_delta(pending) != 0
}

/// The server's bytes are written at the server's own cursor, on its row and in
/// its column, if predictions that are shown have moved the cursor from there.
/// Behind them the cursor goes to where the predictions that are left end: on the
/// row of the server's cursor, as many columns on as they are wide. What undoes
/// wrong predictions comes before all that.
pub proof fn law_output_appears_at_server_cursor(s: SessionState, data: Seq<u8>, now: u64)
    ensures
        s.reply(data, now) is None <==> s.ready(data).len() == 0,
        s.reply(data, now) matches Some(reply) ==> {
            let start = s.emulator.screen.cursor();
            let end = s.received(data, now).emulator;
            let col = end.screen.cursor().1 + prediction::total_delta(end.pending);
            exists|there: Seq<u8>, back: Seq<u8>|
                {
                    &&& reply == #[trigger] (s.undone(data) + there + s.ready(data) + back)
                    &&& places(there, moves_cursor(s.emulator.pending), start.0, start.1)
                    &&& places(
                        back,
                        moves_cursor(end.pending),
                        end.screen.cursor().0,
                        if col >= 0 {
                            col as nat
                        } else {
                            0
                        },
                    )
                }
        },
{
    if let Some(reply) = s.reply(data, now) {
        let start = s.emulator.screen.cursor();
        let end = s.received(data, now).emulator;
        let there = repositioned(s.emulator.pending, start);
        let back = repositioned(end.pending, end.prediction_end());
        ansi::law_bare_move_to(start.0, start.1);
        ansi::law_bare_move_to(end.prediction_end().0, end.prediction_end().1);
        assert(reply == s.undone(data) + there + s.ready(data) + back);
    }
}

/// Predictions are undone when the server contradicts them, and only where some
/// were shown: those from the contradicted one on, newest first, on the screen as
/// the server has it then, and the cursor goes to the server's.
pub proof fn law_contradiction_is_undone(s: SessionState, data: Seq<u8>)
    ensures
        ({
            let shown = exists|i: int|
                0 <= i < s.emulator.pending.len() && (#[trigger] s.emulator.pending[i]).shown;
            let verdict = s.emulator.verdict(s.ready(data));
            &&& !shown || !(verdict is Rollback) ==> s.undone(data).len() == 0
            &&& shown && !s.emulator.alt.enters(s.ready(data)) ==> (verdict matches
                Verdict::Rollback(n) ==> s.undone(data) == prediction::rollback(
                s.emulator.pending.skip(n as int),
                s.emulator.screen.fed(s.ready(data)),
            ))
        }),
{
}

/// Server output is held against the predictions as far as it can be shown; the
/// rest waits, and nothing of it is lost. Nothing else of the session changes.
pub proof fn law_received_is_answered(s: SessionState, data: Seq<u8>, now: u64)
    ensures
        ({
            let end = s.received(data, now);
            &&& s.ready(data) + end.held == s.held + data
            &&& s.ready(data).len() > 0 ==> end.emulator == s.emulator.answered(s.ready(data), now)
            &&& s.ready(data).len() == 0 ==> end.emulator == s.emulator
            &&& end.input == s.input
            &&& end.adaptive == s.adaptive
        }),
{
    let all = s.held + data;
    assert(server_buffer::complete_len(all) <= all.len());
    assert(s.ready(data) + s.still_held(data) =~= all);
}

/// Predictions are shown where they are made at all, not on the alternate screen
/// unless that is ignored, and, where the measurements decide, if they ask for
/// it. Where the measurements decide and ask for none, what is typed measures the
/// round trip unseen, as long as nothing is shown.
pub proof fn law_when_predictions_are_shown(s: SessionState)
    ensures
        s.predicts() <==> s.input.enabled && (s.emulator.alt.active ==> s.input.ignore_alt_screen)
            && (s.adaptive ==> s.emulator.adaptive.srtt_trigger
            || s.emulator.adaptive.glitch_trigger > 0),
        s.probes() <==> s.input.enabled && (s.emulator.alt.active ==> s.input.ignore_alt_screen)
            && s.adaptive && !s.emulator.adaptive.srtt_trigger
            && s.emulator.adaptive.glitch_trigger == 0 && forall|i: int|
            0 <= i < s.emulator.pending.len() ==> !(#[trigger] s.emulator.pending[i]).shown,
        s.flagging() <==> !s.adaptive || s.emulator.adaptive.flagging,
{
}

/// A byte makes one prediction at most. It is timed, and shown if predictions
/// are shown: then its overlay is all that is written. One that is not shown
/// writes nothing.
pub proof fn law_byte_makes_one_prediction(s: SessionState, byte: u8, now: u64)
    ensures
        match s.predicted(byte) {
            Some(cmd) => {
                &&& s.predicts() || s.probes()
                &&& s.typed(byte, now).emulator.pending == s.emulator.pending.push(
                    Prediction { cmd, made: now, shown: s.predicts() },
                )
                &&& s.predicts() ==> s.overlay(byte) == cmd.overlay(
                    !s.adaptive || s.emulator.adaptive.flagging,
                )
                &&& !s.predicts() ==> s.overlay(byte).len() == 0
            },
            None => {
                &&& s.typed(byte, now).emulator.pending == s.emulator.pending
                &&& s.overlay(byte).len() == 0
            },
        },
        s.typed(byte, now).emulator.screen == s.emulator.screen,
        s.typed(byte, now).emulator.alt == s.emulator.alt,
        s.typed(byte, now).emulator.adaptive == s.emulator.adaptive,
        s.typed(byte, now).held == s.held,
        s.typed(byte, now).adaptive == s.adaptive,
        s.typed(byte, now).input == if (s.predicts() || s.probes()) && byte != 0x08 && byte
            != 0x7f {
            s.input.after(byte)
        } else {
            s.input
        },
        byte != 0x08 && byte != 0x7f && s.input.completed(byte) is None ==> s.guess(byte) is None,
{
}

/// The prediction that a byte makes lies on the screen. Where the measurements
/// decide, any byte is taken in; otherwise one whose prediction would lie off the
/// screen is not.
pub proof fn law_predicted_on_screen(s: SessionState, byte: u8)
    ensures
        s.predicted(byte) matches Some(cmd) ==> s.guess(byte) == Some(cmd) && match cmd {
            Command::Char { row, col, .. } | Command::Backspace { row, col, .. } => row
                < s.emulator.screen.rows && col < s.emulator.screen.cols,
            Command::CursorMove { .. } => false,
        },
        s.adaptive ==> s.shows(byte),
        s.guess(byte) is None ==> s.shows(byte) && s.predicted(byte) is None,
        !s.adaptive && s.guess(byte) is Some ==> (s.shows(byte) <==> s.predicted(byte) is Some),
        !s.predicts() && !s.probes() ==> s.guess(byte) is None,
{
}

/// Where predictions are made, a character that a byte completes is predicted
/// where the predictions so far end: on the row of the server's cursor, as many
/// columns on as they are wide, if that lies on the screen. It is as wide as the
/// character, or one column if the character has no width.
pub proof fn law_char_is_predicted_at_end(s: SessionState, byte: u8, ch: char)
    requires
        s.wf(),
        s.predicts() || s.probes(),
        byte != 0x08 && byte != 0x7f,
        s.input.completed(byte) == Some(ch),
        s.emulator.screen.cursor().0 < s.emulator.screen.rows,
        s.emulator.screen.cursor().1 < s.emulator.screen.cols,
    ensures
        ({
            let (row, col) = s.emulator.screen.cursor();
            let end = col + prediction::total_delta(s.emulator.pending);
            let at = if end >= 0 {
                end as nat
            } else {
                0
            };
            &&& at < s.emulator.screen.cols ==> {
                &&& s.predicted(byte) matches Some(
                    Command::Char { row: r, col: c, ch: predicted, original, width },
                )
                &&& r == row
                &&& c == at
                &&& predicted == ch
                &&& original == s.emulator.screen.cell(row, at)
                &&& width == match input::char_columns(ch) {
                    Some(n) => n as u8,
                    None => 1,
                }
            }
            &&& at >= s.emulator.screen.cols ==> s.predicted(byte) is None
        }),
{
    prediction::lemma_total_delta(s.emulator.pending);
}

/// A backspace or delete key takes back the character that was typed last, as
/// wide as it is: the predictions then end where they did before it was typed.
pub proof fn law_backspace_takes_back_typed(s: SessionState, byte: u8, now: u64)
    requires
        s.wf(),
        s.predicts() || s.probes(),
        byte == 0x08 || byte == 0x7f,
        s.emulator.pending.len() > 0,
        s.emulator.pending.last().cmd matches Command::Char { row, col, width, .. } && {
            &&& width > 0
            &&& row == s.emulator.screen.cursor().0
            &&& col + width == s.emulator.screen.cursor().1 + prediction::total_delta(
                s.emulator.pending,
            )
            &&& row < s.emulator.screen.rows
        },
    ensures
        s.emulator.pending.last().cmd matches Command::Char { row, col, width, .. } && {
            &&& col < s.emulator.screen.cols ==> {
                &&& s.predicted(byte) == Some(
                    Command::Backspace {
                        row,
                        col,
                        original: s.emulator.screen.cell(row as nat, col as nat),
                        width,
                    },
                )
                &&& s.typed(byte, now).emulator.prediction_end() == (row as nat, col as nat)
            }
            &&& col >= s.emulator.screen.cols ==> s.predicted(byte) is None
        },
{
    let pending = s.typed(byte, now).emulator.pending;
    if s.predicted(byte) is Some {
        assert(pending.drop_last() =~= s.emulator.pending);
    }
}

/// A backspace or delete key that takes back no typed character erases what is
/// before the end of the predictions: a character of two columns whole, and
/// otherwise one column. In the first column there is nothing to erase.
pub proof fn law_backspace_erases_before_end(s: SessionState, byte: u8)
    requires
        s.wf(),
        s.predicts() || s.probes(),
        byte == 0x08 || byte == 0x7f,
        s.emulator.pending.len() > 0 ==> !(s.emulator.pending.last().cmd matches Command::Char {
            row,
            col,
            width,
            ..
        } && width > 0 && row == s.emulator.screen.cursor().0 && col + width
            == s.emulator.screen.cursor().1 + prediction::total_delta(s.emulator.pending)),
        s.emulator.screen.cursor().0 < s.emulator.screen.rows,
        s.emulator.screen.cursor().1 < s.emulator.screen.cols,
    ensures
        ({
            let screen = s.emulator.screen;
            let (row, col) = screen.cursor();
            let end = col + prediction::total_delta(s.emulator.pending);
            &&& end <= 0 ==> s.guess(byte) is None
            &&& end > screen.cols ==> s.predicted(byte) is None
            &&& 0 < end <= screen.cols ==> {
                let wide = end >= 2 && input::char_columns(screen.cell(row, (end - 2) as nat))
                    == Some(2usize) && screen.cell(row, (end - 1) as nat) == ' ';
                let width = if wide {
                    2int
                } else {
                    1
                };
                &&& s.predicted(byte) matches Some(
                    Command::Backspace { row: r, col: c, original, width: w },
                )
                &&& r == row
                &&& c == end - width
                &&& w == width
                &&& original == screen.cell(row, (end - width) as nat)
            }
        }),
{
    prediction::lemma_total_delta(s.emulator.pending);
}

/// When nothing has happened for a while and the oldest prediction has waited too
/// long, all predictions are dropped, and undone if some are shown. Otherwise
/// nothing is written and they all stay. A long wait counts as a glitch where the
/// measurements decide, and nowhere else.
pub proof fn law_waiting_expires(s: SessionState, now: u64)
    ensures
        ({
            let end = s.after_timeout(now);
            let shown = exists|i: int|
                0 <= i < s.emulator.pending.len() && (#[trigger] s.emulator.pending[i]).shown;
            let over = s.emulator.pending.len() > 0 && s.emulator.pending[0].made
                + s.emulator.adaptive.timeout() <= now;
            &&& over ==> end.emulator.pending.len() == 0
            &&& !over ==> end.emulator.pending == s.emulator.pending
            &&& over && shown ==> s.expiry(now) == Some(
                prediction::rollback(s.emulator.pending, s.emulator.screen),
            )
            &&& !over || !shown ==> s.expiry(now) is None
            &&& s.adaptive ==> end.emulator.adaptive == s.emulator.glitch_checked(now).adaptive
            &&& !s.adaptive ==> end.emulator.adaptive == s.emulator.adaptive
            &&& end.emulator.screen == s.emulator.screen
            &&& end.emulator.alt == s.emulator.alt
            &&& end.input == s.input
            &&& end.held == s.held
            &&& end.adaptive == s.adaptive
        }),
{
    crate::emulator::law_expires_in_time(s.emulator, now);
    crate::adaptive::law_timeout_is_three_srtts(s.emulator.adaptive);
}

/// The wait for an event is the time that is left, in whole milliseconds, but one
/// at least and a minute at most.
pub proof fn law_poll_is_time_left(left: u64)
    ensures
        1 <= poll_millis(left) <= 60_000,
        1_000_000 <= left < 60_000_000_000 ==> poll_millis(left) * 1_000_000 <= left < (
        poll_millis(left) + 1) * 1_000_000,
        left < 1_000_000 ==> poll_millis(left) == 1,
        left >= 60_000_000_000 ==> poll_millis(left) == 60_000,
{
}

/// A new session predicts nothing yet and holds nothing back.
pub proof fn law_new_session(mode: PredictMode, cols: nat, rows: nat)
    ensures
        ({
            let s = SessionState::initial(mode, cols, rows);
            &&& s.emulator == EmulatorState::initial(cols, rows)
            &&& s.held.len() == 0
            &&& s.input.utf8.len() == 0
            &&& s.input.esc.len() == 0
            &&& s.predicts() == (mode == PredictMode::Always)
            &&& s.flagging() == (mode != PredictMode::Auto)
        }),
{
}

/// A new window size starts over with an empty screen of that size and nothing
/// measured; what is typed and what is held back go on.
pub proof fn law_resize_starts_over(s: SessionState, cols: nat, rows: nat, now: u64)
    ensures
        ({
            let end = s.after_event(Event::Resized(cols, rows), now);
            &&& end.emulator == EmulatorState::initial(cols, rows)
            &&& end.input == s.input
            &&& end.held == s.held
            &&& end.adaptive == s.adaptive
        }),
{
}

/// What can be taken in is sent to the server as it was typed; on other events
/// nothing is sent.
pub proof fn law_sent_as_typed(s: SessionState, data: Seq<u8>, cols: nat, rows: nat, now: u64)
    ensures
        s.shows_all(data, now) ==> s.forwarded(Event::Typed(data), now) == data,
        s.forwarded(Event::Received(data), now).len() == 0,
        s.forwarded(Event::Waited, now).len() == 0,
        s.forwarded(Event::Resized(cols, rows), now).len() == 0,
{
}

/// What can be taken in as a whole can be taken in byte by byte.
proof fn lemma_shows_each(s: SessionState, data: Seq<u8>, n: int, now: u64)
    requires
        s.shows_all(data, now),
        0 <= n < data.len(),
    ensures
        s.after_input(data.take(n), now).shows(data[n]),
    decreases data.len(),
{
    if n == data.len() - 1 {
        assert(data.take(n) =~= data.drop_last());
    } else {
        lemma_shows_each(s, data.drop_last(), n, now);
        assert(data.drop_last().take(n) =~= data.take(n));
    }
}

/// Typing is taken in if each of its bytes can be, and only then. All of it is
/// then sent as it stands, and all its overlays are shown. Otherwise the overlays
/// before the first byte that cannot be are shown, and nothing behind it counts.
pub proof fn law_typing_is_taken_in(
    s: SessionState,
    data: Seq<u8>,
    now: u64,
    end: SessionState,
    outcome: InputOutcome,
)
    requires
        s.input_reported(data, now, end, outcome),
    ensures
        s.shows_all(data, now) <==> outcome is Shown,
        match outcome {
            InputOutcome::Shown { overlay, forward } => {
                &&& overlay@ == s.overlays(data, now)
                &&& forward@ == data
                &&& end == s.after_input(data, now)
            },
            InputOutcome::OffScreen(out) => exists|n: int|
                {
                    &&& 0 <= n < data.len()
                    &&& s.shows_all(#[trigger] data.take(n), now)
                    &&& !s.shows_all(data.take(n + 1), now)
                    &&& out@ == s.overlays(data.take(n), now)
                    &&& end == s.after_input(data.take(n + 1), now)
                },
        },
{
    if let InputOutcome::OffScreen(out) = outcome {
        let n = choose|n: int|
            #![trigger data.take(n)]
            {
                &&& 0 <= n < data.len()
                &&& s.shows_all(data.take(n), now)
                &&& !s.after_input(data.take(n), now).shows(data[n])
                &&& out@ == s.overlays(data.take(n), now)
                &&& end == s.after_input(data.take(n + 1), now)
            };
        if s.shows_all(data, now) {
            lemma_shows_each(s, data, n, now);
        }
        assert(data.take(n + 1).drop_last() =~= data.take(n));
        assert(data.take(n + 1).last() == data[n]);
    }
}

/// A vector of bytes stands for just those bytes, and no vector for none.
pub proof fn law_bytes_of(out: Vec<u8>)
    ensures
        bytes_of(Some(out)) == Some(out@),
        bytes_of(None) is None,
{
}

} // verus!
