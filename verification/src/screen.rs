//! The server's screen, as a terminal emulator computes it from the server's output.

use crate::ansi::ESC;
use crate::osc::{self, OscState};
use crate::server_buffer;
use alacritty_terminal::event::VoidListener;
use alacritty_terminal::index::{Column, Line};
use alacritty_terminal::term::test::TermSize;
use alacritty_terminal::term::{Config, Term};
use alacritty_terminal::vte::ansi::Processor;
use vstd::prelude::*;

verus! {

/// Fewest columns of a screen: a double-width character takes two. It is
/// `MIN_COLUMNS` of `alacritty_terminal`.
pub const MIN_COLS: usize = 2;

/// Most columns and most rows of a screen: the grid counts its lines in `i32`,
/// and a control sequence can ask for `u16::MAX` lines more than there are, twice
/// over where positions count from the top of a scroll region.
pub const MAX_SIDE: usize = 0x7ffe_0000;

/// A terminal grid of `alacritty_terminal` together with the parser that feeds it.
///
/// The parser's type is generic over an outside trait, so the pair is opaque:
/// what it holds is [`grid_input`], and the wrappers below say what each
/// outside call does to it.
#[verifier::external_body]
pub struct Grid {
    term: Term<VoidListener>,
    processor: Processor,
}

/// The columns and rows that a grid was made with.
pub uninterp spec fn grid_size(grid: Grid) -> (nat, nat);

/// The chunks of bytes that a grid has been fed, in order.
pub uninterp spec fn grid_input(grid: Grid) -> Seq<Seq<u8>>;

/// Row and column of the cursor of a `cols` by `rows` grid that was fed `input`.
pub uninterp spec fn cursor_after(cols: nat, rows: nat, input: Seq<Seq<u8>>) -> (nat, nat);

/// The character in one cell of a `cols` by `rows` grid that was fed `input`.
pub uninterp spec fn cell_after(
    cols: nat,
    rows: nat,
    input: Seq<Seq<u8>>,
    row: nat,
    col: nat,
) -> char;

/// A size that the grid can work with.
pub open spec fn is_size(size: (nat, nat)) -> bool {
    MIN_COLS <= size.0 <= MAX_SIDE && 1 <= size.1 <= MAX_SIDE
}

impl Grid {
    /// `Term::new` with the default configuration, and `Processor::new`: an
    /// empty grid of the given size that has been fed nothing. Events that the
    /// grid emits go to the crate's own null listener.
    #[verifier::external_body]
    fn new(cols: usize, rows: usize) -> (grid: Grid)
        requires
            is_size((cols as nat, rows as nat)),
        ensures
            grid_size(grid) == (cols as nat, rows as nat),
            grid_input(grid) == Seq::<Seq<u8>>::empty(),
    {
        let size = TermSize::new(cols, rows);
        Grid {
            term: Term::new(Config::default(), &size, VoidListener),
            processor: Processor::new(),
        }
    }

    /// `Processor::advance` on the grid: the chunk is added to what the grid was
    /// fed, and the size stays. What the grid then shows is a function of its
    /// size and of the chunks alone: the parser keeps a deadline for
    /// synchronized updates, but only asks whether one is set, never the time.
    ///
    /// `parse_legacy_color` of `vte` cuts what follows a `#` into thirds, whatever
    /// it is, and shifts a third that is a number by four bits for every byte but
    /// one. That overflows where a colour is too long, so none may be: not even
    /// one that comes in several chunks.
    #[verifier::external_body]
    fn feed(&mut self, data: &[u8])
        requires
            is_size(grid_size(*old(self))),
            OscState::Outside.calm(server_buffer::joined(grid_input(*old(self)).push(data@))),
        ensures
            grid_size(*final(self)) == grid_size(*old(self)),
            grid_input(*final(self)) == grid_input(*old(self)).push(data@),
    {
        self.processor.advance(&mut self.term, data);
    }

    /// `Term::grid` and its public field `cursor.point`. Every handler of the
    /// grid keeps the cursor inside the grid, and a fresh grid has it at the
    /// top left.
    #[verifier::external_body]
    fn cursor_point(&self) -> (point: (usize, usize))
        requires
            is_size(grid_size(*self)),
        ensures
            (point.0 as nat, point.1 as nat) == cursor_after(
                grid_size(*self).0,
                grid_size(*self).1,
                grid_input(*self),
            ),
            point.0 < grid_size(*self).1,
            point.1 < grid_size(*self).0,
            grid_input(*self).len() == 0 ==> point == (0usize, 0usize),
    {
        let point = self.term.grid().cursor.point;
        (point.line.0 as usize, point.column.0)
    }

    /// `Term::grid`, indexed by line and by column, and the cell's public field
    /// `c`. A fresh grid holds blanks.
    #[verifier::external_body]
    fn cell_char(&self, row: usize, col: usize) -> (c: char)
        requires
            is_size(grid_size(*self)),
            row < grid_size(*self).1,
            col < grid_size(*self).0,
        ensures
            c == cell_after(
                grid_size(*self).0,
                grid_size(*self).1,
                grid_input(*self),
                row as nat,
                col as nat,
            ),
            grid_input(*self).len() == 0 ==> c == ' ',
    {
        self.term.grid()[Line(row as i32)][Column(col)].c
    }
}

/// What a screen shows is a function of its size and its input.
#[verifier::ext_equal]
pub struct ScreenState {
    /// Number of columns.
    pub cols: nat,
    /// Number of rows.
    pub rows: nat,
    /// The chunks of server output that the grid has been fed, in order, cut
    /// between characters and without what is too many in a colour.
    pub input: Seq<Seq<u8>>,
    /// Where in an operating system command the input stands.
    pub osc: OscState,
    /// The bytes of a character that has begun.
    pub held: Seq<u8>,
}

/// Number of bytes up to a character that is incomplete at the end.
pub open spec fn whole_len(bytes: Seq<u8>) -> nat {
    let tail = server_buffer::trailing(bytes);
    if tail < bytes.len() && tail + 1 < server_buffer::announced(bytes[bytes.len() - 1 - tail]) {
        (bytes.len() - 1 - tail) as nat
    } else {
        bytes.len()
    }
}

/// Number of bytes up to a character that is incomplete at the end.
fn find_whole_len(bytes: &Vec<u8>) -> (n: usize)
    ensures
        n == whole_len(bytes@),
        n <= bytes@.len(),
{
    let tail: usize = server_buffer::count_trailing(bytes.as_slice());
    if tail < bytes.len() {
        let start: usize = bytes.len() - 1 - tail;
        if tail + 1 < server_buffer::announced_len(bytes[start]) {
            return start;
        }
    }
    bytes.len()
}

impl ScreenState {
    /// A screen that shows nothing.
    pub open spec fn blank(cols: nat, rows: nat) -> ScreenState {
        ScreenState {
            cols,
            rows,
            input: Seq::empty(),
            osc: OscState::Outside,
            held: Seq::empty(),
        }
    }

    /// Row and column of the server's cursor.
    pub open spec fn cursor(self) -> (nat, nat) {
        cursor_after(self.cols, self.rows, self.input)
    }

    /// The character in one cell.
    pub open spec fn cell(self, row: nat, col: nat) -> char {
        cell_after(self.cols, self.rows, self.input, row, col)
    }

    /// What of one more chunk of server output the grid gets: whole characters,
    /// without what is too many in a colour.
    pub open spec fn kept(self, data: Seq<u8>) -> Seq<u8> {
        let all = self.held + data;
        self.osc.tamed(all.take(whole_len(all) as int))
    }

    /// The screen after one more chunk of server output.
    pub open spec fn fed(self, data: Seq<u8>) -> ScreenState {
        let all = self.held + data;
        ScreenState {
            input: if self.kept(data).len() > 0 {
                self.input.push(self.kept(data))
            } else {
                self.input
            },
            osc: self.osc.after(self.kept(data)),
            held: all.skip(whole_len(all) as int),
            ..self
        }
    }

    /// A position on the screen.
    pub open spec fn holds(self, row: nat, col: nat) -> bool {
        row < self.rows && col < self.cols
    }

    /// The screen has a size that the grid can work with, and was fed no colour
    /// that is too long.
    pub open spec fn wf(self) -> bool {
        &&& is_size((self.cols, self.rows))
        &&& self.osc == OscState::Outside.after(server_buffer::joined(self.input))
        &&& OscState::Outside.calm(server_buffer::joined(self.input))
    }
}

/// A screen stays well-formed whatever the server sends.
pub proof fn law_fed_is_wf(screen: ScreenState, data: Seq<u8>)
    requires
        screen.wf(),
    ensures
        screen.fed(data).wf(),
{
    let all = screen.held + data;
    let kept = screen.kept(data);
    let input = screen.input.push(kept);
    assert(input.drop_last() =~= screen.input);
    osc::law_tamed_is_calm(screen.osc, all.take(whole_len(all) as int));
    osc::lemma_pieces(OscState::Outside, server_buffer::joined(screen.input), kept);
}

/// Whole characters without a colour that is too long are fed to the grid as
/// they stand.
pub proof fn law_fed_as_it_stands(screen: ScreenState, data: Seq<u8>)
    requires
        screen.held.len() == 0,
        whole_len(data) == data.len(),
        data.len() > 0,
        screen.osc.calm(data),
    ensures
        screen.fed(data).input == screen.input.push(data),
        screen.fed(data).held.len() == 0,
{
    assert(screen.held + data =~= data);
    assert(data.take(data.len() as int) =~= data);
    osc::law_calm_is_kept(screen.osc, data);
}

/// However output is cut into chunks, none of it is lost or moved: what the grid
/// was fed and the character that has begun are all that arrived, as long as no
/// colour is too long.
pub proof fn law_nothing_is_lost(screen: ScreenState, data: Seq<u8>)
    requires
        screen.osc.calm((screen.held + data).take(whole_len(screen.held + data) as int)),
    ensures
        server_buffer::joined(screen.fed(data).input) + screen.fed(data).held
            == server_buffer::joined(screen.input) + screen.held + data,
{
    let all = screen.held + data;
    let chars = all.take(whole_len(all) as int);
    let before = server_buffer::joined(screen.input);
    osc::law_calm_is_kept(screen.osc, chars);
    assert(screen.input.push(chars).drop_last() =~= screen.input);
    assert(chars + screen.fed(data).held =~= all);
    assert((before + chars) + screen.fed(data).held =~= before + all);
    assert(before + screen.held + data =~= before + all);
}

/// Outside a command, whole characters without an escape character are fed to
/// the grid as they stand.
pub proof fn law_text_fed_as_it_stands(screen: ScreenState, data: Seq<u8>)
    requires
        screen.held.len() == 0,
        screen.osc is Outside,
        vstd::utf8::valid_utf8(data),
        data.len() > 0,
        !data.contains(ESC),
    ensures
        screen.fed(data).input == screen.input.push(data),
        screen.fed(data).osc is Outside,
        screen.fed(data).held.len() == 0,
{
    server_buffer::law_cut_text(data, data.len() as int);
    assert(data.take(data.len() as int) =~= data);
    osc::law_plain_is_calm(data);
    law_fed_as_it_stands(screen, data);
    osc::law_calm_is_kept(screen.osc, data);
}

/// The server's screen.
pub struct Screen {
    grid: Grid,
    osc: OscState,
    held: Vec<u8>,
}

impl View for Screen {
    type V = ScreenState;

    closed spec fn view(&self) -> ScreenState {
        ScreenState {
            cols: grid_size(self.grid).0,
            rows: grid_size(self.grid).1,
            input: grid_input(self.grid),
            osc: self.osc,
            held: self.held@,
        }
    }
}

impl Screen {
    /// A screen that shows nothing.
    pub fn new(cols: usize, rows: usize) -> (screen: Screen)
        requires
            MIN_COLS <= cols <= MAX_SIDE,
            1 <= rows <= MAX_SIDE,
        ensures
            screen@ == ScreenState::blank(cols as nat, rows as nat),
            screen@.wf(),
    {
        Screen { grid: Grid::new(cols, rows), osc: OscState::Outside, held: Vec::new() }
    }

    /// Takes in server output. A character that is incomplete at the end waits for
    /// its rest, and what is too many in a colour is left out: neither is part of
    /// what a screen shows. The parser behind the grid would put a character
    /// together itself, but might then pass over an escape character behind it.
    pub fn feed(&mut self, data: &[u8])
        requires
            old(self)@.wf(),
        ensures
            final(self)@ == old(self)@.fed(data@),
            final(self)@.wf(),
    {
        proof {
            law_fed_is_wf(self@, data@);
        }
        self.held.extend_from_slice(data);
        let ghost all = old(self)@.held + data@;
        assert(self.held@ =~= all);
        let whole: usize = find_whole_len(&self.held);
        let mut chars: Vec<u8> = self.held.split_off(whole);
        std::mem::swap(&mut chars, &mut self.held);
        assert(chars@ =~= all.take(whole as int));
        assert(self.held@ =~= all.skip(whole as int));
        let kept: Vec<u8> = self.osc.tame(chars.as_slice());
        if kept.len() > 0 {
            self.grid.feed(kept.as_slice());
        }
    }

    /// Row and column of the server's cursor.
    pub fn cursor_point(&self) -> (point: (usize, usize))
        requires
            self@.wf(),
        ensures
            (point.0 as nat, point.1 as nat) == self@.cursor(),
            self@.holds(point.0 as nat, point.1 as nat),
            self@.input.len() == 0 ==> point == (0usize, 0usize),
    {
        self.grid.cursor_point()
    }

    /// The character in one cell.
    pub fn cell_char(&self, row: usize, col: usize) -> (c: char)
        requires
            self@.wf(),
            self@.holds(row as nat, col as nat),
        ensures
            c == self@.cell(row as nat, col as nat),
            self@.input.len() == 0 ==> c == ' ',
    {
        self.grid.cell_char(row, col)
    }
}

/// A character that is incomplete at the end waits, and nothing else does: not
/// even continuation bytes that belong to none.
pub proof fn law_incomplete_character_waits(front: Seq<u8>, lead: u8, tail: Seq<u8>)
    requires
        !(0x80 <= lead < 0xc0),
        forall|i: int| 0 <= i < tail.len() ==> 0x80 <= #[trigger] tail[i] < 0xc0,
    ensures
        ({
            let bytes = front + seq![lead] + tail;
            let needed = if 0xf0 <= lead < 0xf8 {
                4nat
            } else if 0xe0 <= lead < 0xf0 {
                3
            } else if 0xc0 <= lead < 0xe0 {
                2
            } else {
                1
            };
            whole_len(bytes) == if tail.len() + 1 < needed {
                front.len()
            } else {
                bytes.len()
            }
        }),
        whole_len(tail) == tail.len(),
{
    server_buffer::lemma_trailing_behind_lead(front, lead, tail);
    let bytes = front + seq![lead] + tail;
    assert(bytes[front.len() as int] == lead);
}

/// Output changes no size, and a position is on the screen if its row and its
/// column are.
pub proof fn law_size_stays(screen: ScreenState, data: Seq<u8>, row: nat, col: nat)
    ensures
        screen.fed(data).cols == screen.cols,
        screen.fed(data).rows == screen.rows,
        screen.holds(row, col) <==> row < screen.rows && col < screen.cols,
        ScreenState::blank(row, col).cols == row,
        ScreenState::blank(row, col).rows == col,
        ScreenState::blank(row, col).input.len() == 0,
        ScreenState::blank(row, col).held.len() == 0,
{
}

/// The grid is fed all whole characters that have arrived, one run of bytes at a
/// time, but for what is too many in a colour.
pub proof fn law_grid_is_fed(screen: ScreenState, data: Seq<u8>)
    ensures
        ({
            let all = screen.held + data;
            let whole = all.take(whole_len(all) as int);
            let fed = screen.fed(data);
            &&& whole + fed.held == all
            &&& server_buffer::joined(fed.input) == server_buffer::joined(screen.input)
                + screen.osc.tamed(whole)
            &&& screen.osc.tamed(whole).len() > 0 ==> fed.input == screen.input.push(
                screen.osc.tamed(whole),
            )
            &&& screen.osc.tamed(whole).len() == 0 ==> fed.input == screen.input
            &&& fed.osc == screen.osc.after(screen.osc.tamed(whole))
        }),
{
    let all = screen.held + data;
    let whole = all.take(whole_len(all) as int);
    let kept = screen.osc.tamed(whole);
    assert(whole + screen.fed(data).held =~= all);
    assert(screen.input.push(kept).drop_last() =~= screen.input);
    assert(kept.len() == 0 ==> server_buffer::joined(screen.input) + kept
        =~= server_buffer::joined(screen.input));
}

/// The server's cursor and cells are those of the grid, on every row and in every
/// column alike.
pub proof fn law_screen_is_the_grid(screen: ScreenState, row: nat, col: nat)
    ensures
        screen.cursor().0 == cursor_after(screen.cols, screen.rows, screen.input).0,
        screen.cursor().1 == cursor_after(screen.cols, screen.rows, screen.input).1,
        screen.cell(row, col) == cell_after(screen.cols, screen.rows, screen.input, row, col),
{
}

} // verus!
