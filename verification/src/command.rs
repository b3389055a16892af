//! Predictions as commands.
//!
//! Each key that is predicted (a character, a backspace, a cursor move) becomes
//! a [`Command`] that can be executed (its overlay is shown) and undone (what
//! the server's screen holds is shown again).

use crate::ansi;
use crate::output;
use crate::screen::{Screen, ScreenState};
use crate::utf8;
use vstd::prelude::*;

verus! {

/// Direction of a cursor move.
#[derive(Debug, Clone, Copy, PartialEq, Eq, Structural)]
pub enum Direction {
    Left,
    Right,
    Up,
    Down,
}

/// A prediction that can be executed and undone. Positions are zero-based.
#[derive(Debug, Clone, Copy, PartialEq, Eq, Structural)]
pub enum Command {
    /// A typed character.
    Char {
        row: usize,
        col: usize,
        ch: char,
        /// The character that the cell held when the prediction was made.
        original: char,
        /// Columns that the character takes.
        width: u8,
    },
    /// An erased cell.
    Backspace {
        row: usize,
        /// The column that is blanked.
        col: usize,
        /// The character that the cell held when the prediction was made.
        original: char,
        /// Columns that the erased character takes.
        width: u8,
    },
    /// A cursor move by one cell.
    CursorMove { from_row: usize, from_col: usize, direction: Direction },
}

/// `width` blanks.
pub open spec fn blanks(width: nat) -> Seq<u8> {
    Seq::new(width, |i: int| ansi::SPACE)
}

/// The text that shows `current` in a field of `width` columns.
pub open spec fn repaint(current: char, width: nat) -> Seq<u8> {
    if current == '\0' || current == ' ' {
        blanks(width)
    } else {
        utf8::char_bytes(current)
    }
}

/// `text`, underlined if `flagging` holds.
pub open spec fn flagged(text: Seq<u8>, flagging: bool) -> Seq<u8> {
    if flagging {
        ansi::underline_on() + text + ansi::underline_off()
    } else {
        text
    }
}

/// Where a move by one cell from (`row`, `col`) ends; the first row and column
/// hold the cursor back.
pub open spec fn moved(row: nat, col: nat, direction: Direction) -> (nat, nat) {
    match direction {
        Direction::Left => (row, if col > 0 { (col - 1) as nat } else { 0 }),
        Direction::Right => (row, col + 1),
        Direction::Up => (if row > 0 { (row - 1) as nat } else { 0 }, col),
        Direction::Down => (row + 1, col),
    }
}

impl Command {
    /// The cell that the command draws over, if it draws at all.
    pub open spec fn target(self) -> Option<(nat, nat)> {
        match self {
            Command::Char { row, col, .. } => Some((row as nat, col as nat)),
            Command::Backspace { row, col, .. } => Some((row as nat, col as nat)),
            Command::CursorMove { .. } => None,
        }
    }

    /// Where the overlay puts the cursor before it draws.
    pub open spec fn overlay_position(self) -> (nat, nat) {
        match self {
            Command::Char { row, col, .. } => (row as nat, col as nat),
            Command::Backspace { row, col, .. } => (row as nat, col as nat),
            Command::CursorMove { from_row, from_col, direction } => moved(
                from_row as nat,
                from_col as nat,
                direction,
            ),
        }
    }

    /// What the overlay draws, underlining apart.
    pub open spec fn overlay_text(self) -> Seq<u8> {
        match self {
            Command::Char { ch, .. } => utf8::char_bytes(ch),
            Command::Backspace { width, .. } => blanks(width as nat),
            Command::CursorMove { .. } => Seq::empty(),
        }
    }

    /// The bytes that show the prediction. A cursor move is never underlined.
    pub open spec fn overlay(self, flagging: bool) -> Seq<u8> {
        let (row, col) = self.overlay_position();
        ansi::move_to(row, col) + flagged(
            self.overlay_text(),
            flagging && !(self is CursorMove),
        )
    }

    /// Where undoing the command puts the cursor before it draws.
    pub open spec fn undo_position(self) -> (nat, nat) {
        match self {
            Command::Char { row, col, .. } => (row as nat, col as nat),
            Command::Backspace { row, col, .. } => (row as nat, col as nat),
            Command::CursorMove { from_row, from_col, .. } => (from_row as nat, from_col as nat),
        }
    }

    /// The bytes that undo the overlay where the server's cell holds `current`.
    pub open spec fn undo_bytes(self, current: char) -> Seq<u8> {
        let (row, col) = self.undo_position();
        ansi::move_to(row, col) + match self {
            Command::Char { width, .. } => repaint(current, width as nat),
            Command::Backspace { width, .. } => repaint(current, width as nat),
            Command::CursorMove { .. } => Seq::empty(),
        }
    }

    /// The bytes that undo the overlay on `screen`.
    pub open spec fn undone_on(self, screen: ScreenState) -> Seq<u8> {
        let (row, col) = self.undo_position();
        self.undo_bytes(screen.cell(row, col))
    }

    /// Columns by which the prediction moves the cursor; negative is to the left.
    pub open spec fn delta(self) -> int {
        match self {
            Command::Char { width, .. } => width as int,
            Command::Backspace { width, .. } => -(width as int),
            Command::CursorMove { direction: Direction::Left, .. } => -1,
            Command::CursorMove { direction: Direction::Right, .. } => 1,
            Command::CursorMove { .. } => 0,
        }
    }

    /// Columns that the prediction takes; one for a cursor move.
    pub open spec fn columns(self) -> nat {
        match self {
            Command::Char { width, .. } => width as nat,
            Command::Backspace { width, .. } => width as nat,
            Command::CursorMove { .. } => 1,
        }
    }

    /// The command can be undone on `screen`: the cell that it drew over lies on
    /// the screen, and its position can be written down.
    pub open spec fn undoable(self, screen: ScreenState) -> bool {
        &&& match self.target() {
            Some((row, col)) => screen.holds(row, col),
            None => true,
        }
        &&& self.undo_position().0 < usize::MAX
        &&& self.undo_position().1 < usize::MAX
    }

    /// Creates a character prediction.
    pub fn char(row: usize, col: usize, ch: char, original: char, width: u8) -> (cmd: Self)
        ensures
            cmd == (Command::Char { row, col, ch, original, width }),
    {
        Command::Char { row, col, ch, original, width }
    }

    /// Creates a backspace prediction; `col` is the column that is blanked.
    pub fn backspace(row: usize, col: usize, original: char, width: u8) -> (cmd: Self)
        ensures
            cmd == (Command::Backspace { row, col, original, width }),
    {
        Command::Backspace { row, col, original, width }
    }

    /// Creates a cursor move prediction.
    pub fn cursor_move(from_row: usize, from_col: usize, direction: Direction) -> (cmd: Self)
        ensures
            cmd == (Command::CursorMove { from_row, from_col, direction }),
    {
        Command::CursorMove { from_row, from_col, direction }
    }

    /// The bytes that show the prediction, underlined if `flagging` holds.
    pub fn execute(&self, flagging: bool) -> (out: Vec<u8>)
        requires
            self.overlay_position().0 < usize::MAX,
            self.overlay_position().1 < usize::MAX,
        ensures
            out@ == self.overlay(flagging),
    {
        let mut out: Vec<u8> = Vec::new();
        match self {
            Command::Char { row, col, ch, .. } => {
                ansi::push_move_to(&mut out, *row, *col);
                if flagging {
                    ansi::push_underline_on(&mut out);
                }
                utf8::push_char(&mut out, *ch);
                if flagging {
                    ansi::push_underline_off(&mut out);
                }
            },
            Command::Backspace { row, col, width, .. } => {
                ansi::push_move_to(&mut out, *row, *col);
                if flagging {
                    ansi::push_underline_on(&mut out);
                }
                push_blanks(&mut out, *width);
                if flagging {
                    ansi::push_underline_off(&mut out);
                }
            },
            Command::CursorMove { from_row, from_col, direction } => {
                let (row, col): (usize, usize) = match direction {
                    Direction::Left => (*from_row, from_col.saturating_sub(1)),
                    Direction::Right => (*from_row, *from_col + 1),
                    Direction::Up => (from_row.saturating_sub(1), *from_col),
                    Direction::Down => (*from_row + 1, *from_col),
                };
                ansi::push_move_to(&mut out, row, col);
            },
        }
        assert(out@ =~= self.overlay(flagging));
        out
    }

    /// The bytes that undo the overlay where the server's cell holds `current`.
    pub fn undo_showing(&self, current: char) -> (out: Vec<u8>)
        requires
            self.undo_position().0 < usize::MAX,
            self.undo_position().1 < usize::MAX,
        ensures
            out@ == self.undo_bytes(current),
    {
        let mut out: Vec<u8> = Vec::new();
        match self {
            Command::Char { row, col, width, .. } | Command::Backspace { row, col, width, .. } => {
                ansi::push_move_to(&mut out, *row, *col);
                if current == '\0' || current == ' ' {
                    push_blanks(&mut out, *width);
                } else {
                    utf8::push_char(&mut out, current);
                }
            },
            Command::CursorMove { from_row, from_col, .. } => {
                ansi::push_move_to(&mut out, *from_row, *from_col);
            },
        }
        assert(out@ =~= self.undo_bytes(current));
        out
    }

    /// The bytes that undo the overlay: what the server's screen holds in the
    /// command's cell is shown again.
    pub fn undo(&self, screen: &Screen) -> (out: Vec<u8>)
        requires
            screen@.wf(),
            self.undoable(screen@),
        ensures
            out@ == self.undone_on(screen@),
    {
        match self {
            Command::Char { row, col, .. } | Command::Backspace { row, col, .. } => {
                let current: char = screen.cell_char(*row, *col);
                self.undo_showing(current)
            },
            Command::CursorMove { .. } => self.undo_showing(' '),
        }
    }

    /// Columns by which the prediction moves the cursor; negative is to the left.
    pub fn cursor_delta(&self) -> (delta: i32)
        ensures
            delta == self.delta(),
            -255 <= delta <= 255,
    {
        match self {
            Command::Char { width, .. } => *width as i32,
            Command::Backspace { width, .. } => -(*width as i32),
            Command::CursorMove { direction, .. } => match direction {
                Direction::Left => -1,
                Direction::Right => 1,
                Direction::Up | Direction::Down => 0,
            },
        }
    }

    /// Columns that the prediction takes; one for a cursor move.
    pub fn width(&self) -> (width: u8)
        ensures
            width == self.columns(),
    {
        match self {
            Command::Char { width, .. } => *width,
            Command::Backspace { width, .. } => *width,
            Command::CursorMove { .. } => 1,
        }
    }

    /// Whether a typed character is predicted.
    pub fn is_char(&self) -> (r: bool)
        ensures
            r == (*self is Char),
    {
        matches!(self, Command::Char { .. })
    }

    /// The typed character and its width, if one is predicted.
    pub fn as_char(&self) -> (r: Option<(char, u8)>)
        ensures
            r == match *self {
                Command::Char { ch, width, .. } => Some((ch, width)),
                _ => None,
            },
    {
        match self {
            Command::Char { ch, width, .. } => Some((*ch, *width)),
            _ => None,
        }
    }
}

/// Appends `width` blanks.
fn push_blanks(out: &mut Vec<u8>, width: u8)
    ensures
        final(out)@ == old(out)@ + blanks(width as nat),
{
    let mut i: u8 = 0;
    while i < width
        invariant
            i <= width,
            out@ == old(out)@ + blanks(i as nat),
        decreases width - i,
    {
        out.push(ansi::SPACE);
        i += 1;
        assert(out@ =~= old(out)@ + blanks(i as nat));
    }
}

/// What blanks print.
proof fn lemma_prints_blanks(width: nat, rest: Seq<u8>)
    ensures
        output::printed(blanks(width) + rest) == Seq::new(width, |i: int| ' ') + output::printed(
            rest,
        ),
    decreases width,
{
    if width == 0 {
        assert(blanks(width) + rest =~= rest);
        assert(Seq::new(width, |i: int| ' ') + output::printed(rest) =~= output::printed(rest));
    } else {
        let fewer = (width - 1) as nat;
        utf8::lemma_char_bytes(' ');
        assert(blanks(width) + rest =~= utf8::char_bytes(' ') + (blanks(fewer) + rest));
        output::law_prints_char(' ', blanks(fewer) + rest);
        lemma_prints_blanks(fewer, rest);
        assert(seq![' '] + (Seq::new(fewer, |i: int| ' ') + output::printed(rest)) =~= Seq::new(
            width,
            |i: int| ' ',
        ) + output::printed(rest));
    }
}

/// Underlining prints nothing.
proof fn lemma_underline_prints_nothing(rest: Seq<u8>)
    ensures
        output::printed(ansi::underline_on() + rest) == output::printed(rest),
        output::printed(ansi::underline_off() + rest) == output::printed(rest),
{
    output::law_escape_prints_nothing(seq![ansi::BRACKET, ansi::FOUR], ansi::LOWER_M, rest);
    assert(ansi::underline_on() + rest =~= seq![ansi::ESC] + seq![ansi::BRACKET, ansi::FOUR]
        + seq![ansi::LOWER_M] + rest);
    output::law_escape_prints_nothing(
        seq![ansi::BRACKET, ansi::TWO, ansi::FOUR],
        ansi::LOWER_M,
        rest,
    );
    assert(ansi::underline_off() + rest =~= seq![ansi::ESC] + seq![
        ansi::BRACKET,
        ansi::TWO,
        ansi::FOUR,
    ] + seq![ansi::LOWER_M] + rest);
}

/// The text that the overlay of `cmd` prints.
pub open spec fn overlay_print(cmd: Command) -> Seq<char> {
    match cmd {
        Command::Char { ch, .. } => seq![ch],
        Command::Backspace { width, .. } => Seq::new(width as nat, |i: int| ' '),
        Command::CursorMove { .. } => Seq::empty(),
    }
}

/// An overlay prints the predicted character, or blanks for a backspace, or
/// nothing for a cursor move; underlining makes no difference to what is printed.
pub proof fn law_overlay_prints(cmd: Command, flagging: bool)
    requires
        cmd matches Command::Char { ch, .. } ==> output::is_printable(ch),
    ensures
        output::printed(cmd.overlay(flagging)) == overlay_print(cmd),
{
    let (row, col) = cmd.overlay_position();
    let text = cmd.overlay_text();
    let none = Seq::<u8>::empty();
    let off = ansi::underline_off() + none;
    assert(output::printed(none) =~= Seq::<char>::empty());
    lemma_underline_prints_nothing(none);
    lemma_underline_prints_nothing(text + off);
    output::law_move_to_prints_nothing(row, col, flagged(text, flagging && !(cmd is CursorMove)));
    match cmd {
        Command::Char { ch, .. } => {
            output::law_prints_char(ch, off);
            output::law_prints_char(ch, none);
        },
        Command::Backspace { width, .. } => {
            lemma_prints_blanks(width as nat, off);
            lemma_prints_blanks(width as nat, none);
        },
        Command::CursorMove { .. } => {},
    }
    assert(text + none =~= text);
    assert(ansi::underline_on() + text + ansi::underline_off() =~= ansi::underline_on() + (text
        + off));
    assert(overlay_print(cmd) + output::printed(off) =~= overlay_print(cmd));
    assert(overlay_print(cmd) + output::printed(none) =~= overlay_print(cmd));
}

/// Undoing a prediction goes to the cell that its overlay drew over and prints
/// what the server has there, or blanks where the server has nothing.
pub proof fn law_undo_repaints(cmd: Command, screen: ScreenState)
    requires
        cmd.target() matches Some((row, col)) ==> screen.cell(row, col) == '\0'
            || output::is_printable(screen.cell(row, col)),
    ensures
        cmd.target() matches Some(cell) ==> {
            &&& cmd.undo_position() == cell
            &&& cmd.overlay_position() == cell
            &&& output::printed(cmd.undone_on(screen)) == if screen.cell(cell.0, cell.1) == '\0'
                || screen.cell(cell.0, cell.1) == ' ' {
                Seq::new(cmd.columns(), |i: int| ' ')
            } else {
                seq![screen.cell(cell.0, cell.1)]
            }
        },
{
    if let Some((row, col)) = cmd.target() {
        let current = screen.cell(row, col);
        let none = Seq::<u8>::empty();
        let text = repaint(current, cmd.columns());
        assert(output::printed(none) =~= Seq::<char>::empty());
        output::law_move_to_prints_nothing(row, col, text);
        lemma_prints_blanks(cmd.columns(), none);
        if current != '\0' {
            output::law_prints_char(current, none);
        }
        assert(text + none =~= text);
        assert(Seq::new(cmd.columns(), |i: int| ' ') + output::printed(none) =~= Seq::new(
            cmd.columns(),
            |i: int| ' ',
        ));
        assert(seq![current] + output::printed(none) =~= seq![current]);
    }
}

/// `text` between the sequences that turn underlining on and off, if it is to be
/// underlined.
pub open spec fn attributed(text: Seq<u8>, underlined: bool) -> Seq<u8> {
    if underlined {
        seq![0x1bu8, 0x5b, 0x34, 0x6d] + text + seq![0x1bu8, 0x5b, 0x32, 0x34, 0x6d]
    } else {
        text
    }
}

/// An overlay goes to the very cell that is predicted and draws there: the
/// character, or as many blanks as an erased character is wide, underlined if
/// that is asked for. A cursor move goes one cell on, no further than the first
/// row and column, and draws nothing.
pub proof fn law_overlay_goes_to_cell(cmd: Command, flagging: bool)
    ensures
        match cmd {
            Command::Char { row, col, ch, .. } => ansi::goes_to(
                cmd.overlay(flagging),
                row as nat,
                col as nat,
                attributed(vstd::utf8::encode_scalar(ch as u32), flagging),
            ),
            Command::Backspace { row, col, width, .. } => ansi::goes_to(
                cmd.overlay(flagging),
                row as nat,
                col as nat,
                attributed(Seq::new(width as nat, |i: int| 0x20u8), flagging),
            ),
            Command::CursorMove { from_row, from_col, direction } => exists|row: nat, col: nat|
                {
                    &&& #[trigger] ansi::goes_to(cmd.overlay(flagging), row, col, Seq::empty())
                    &&& match direction {
                        Direction::Left => row == from_row && (col + 1 == from_col || from_col == 0
                            && col == 0),
                        Direction::Right => row == from_row && col == from_col + 1,
                        Direction::Up => col == from_col && (row + 1 == from_row || from_row == 0
                            && row == 0),
                        Direction::Down => col == from_col && row == from_row + 1,
                    }
                },
        },
{
    let (row, col) = cmd.overlay_position();
    let text = flagged(cmd.overlay_text(), flagging && !(cmd is CursorMove));
    ansi::law_move_to(row, col, text);
    ansi::law_underline();
    match cmd {
        Command::Char { row: r, col: c, ch, .. } => {
            let drawn = attributed(vstd::utf8::encode_scalar(ch as u32), flagging);
            assert(text =~= drawn);
            assert(ansi::goes_to(cmd.overlay(flagging), r as nat, c as nat, drawn));
        },
        Command::Backspace { width, .. } => {
            let erased = Seq::new(width as nat, |i: int| 0x20u8);
            assert(blanks(width as nat) =~= erased);
            assert(text =~= attributed(erased, flagging));
        },
        Command::CursorMove { .. } => {
            assert(text =~= Seq::<u8>::empty());
            assert(ansi::goes_to(cmd.overlay(flagging), row, col, Seq::empty()));
        },
    }
}

/// Undoing goes to the very cell that was drawn over and puts back what the
/// server's screen holds there, or as many blanks as the prediction is wide. A
/// cursor move is undone by going back to where it started.
pub proof fn law_undo_goes_to_cell(cmd: Command, screen: ScreenState)
    ensures
        match cmd {
            Command::Char { row, col, width, .. } | Command::Backspace { row, col, width, .. } => {
                let current = screen.cell(row as nat, col as nat);
                let restored = if current == '\0' || current == ' ' {
                    Seq::new(width as nat, |i: int| 0x20u8)
                } else {
                    vstd::utf8::encode_scalar(current as u32)
                };
                ansi::goes_to(cmd.undone_on(screen), row as nat, col as nat, restored)
            },
            Command::CursorMove { from_row, from_col, .. } => ansi::goes_to(
                cmd.undone_on(screen),
                from_row as nat,
                from_col as nat,
                Seq::empty(),
            ),
        },
{
    let (row, col) = cmd.undo_position();
    match cmd {
        Command::Char { width, .. } | Command::Backspace { width, .. } => {
            let current = screen.cell(row, col);
            let restored = if current == '\0' || current == ' ' {
                Seq::new(width as nat, |i: int| 0x20u8)
            } else {
                vstd::utf8::encode_scalar(current as u32)
            };
            assert(repaint(current, width as nat) =~= restored);
            ansi::law_move_to(row, col, restored);
        },
        Command::CursorMove { .. } => {
            ansi::law_move_to(row, col, Seq::empty());
        },
    }
}

/// A character moves the cursor by its width to the right, and erasing it by as
/// much to the left, so that the two together leave the cursor where it was.
/// Moves to the left and to the right are one column each and take each other
/// back, and other moves change no column.
pub proof fn law_delta(cmd: Command)
    ensures
        match cmd {
            Command::Char { row, col, original, width, .. } => {
                &&& cmd.delta() == width
                &&& cmd.columns() == width
                &&& cmd.delta() + (Command::Backspace { row, col, original, width }).delta() == 0
            },
            Command::Backspace { width, .. } => cmd.delta() == -(width as int) && cmd.columns()
                == width,
            Command::CursorMove { direction, .. } => {
                &&& cmd.columns() == 1
                &&& cmd.delta() == match direction {
                    Direction::Left => -1int,
                    Direction::Right => 1,
                    _ => 0,
                }
            },
        },
{
}

} // verus!
