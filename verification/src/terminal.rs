//! The size of the local terminal.

use vstd::prelude::*;

verus! {

/// Columns of a terminal whose size is not known.
pub const DEFAULT_COLS: usize = 80;

/// Rows of a terminal whose size is not known.
pub const DEFAULT_ROWS: usize = 24;

/// The columns and rows that a terminal says it has; it says nothing useful if
/// either is zero.
pub open spec fn usable(size: Option<(u16, u16)>) -> Option<(usize, usize)> {
    match size {
        Some((cols, rows)) if cols > 0 && rows > 0 => Some((cols as usize, rows as usize)),
        _ => None,
    }
}

/// The columns and rows to go by, where standard input and standard output say
/// which they have, if they do: standard input comes first.
pub fn terminal_size(stdin: Option<(u16, u16)>, stdout: Option<(u16, u16)>) -> (size: (
    usize,
    usize,
))
    ensures
        size == match (usable(stdin), usable(stdout)) {
            (Some(given), _) => given,
            (None, Some(given)) => given,
            (None, None) => (DEFAULT_COLS, DEFAULT_ROWS),
        },
        1 <= size.0 <= u16::MAX,
        1 <= size.1 <= u16::MAX,
{
    if let Some((cols, rows)) = stdin {
        if cols > 0 && rows > 0 {
            return (cols as usize, rows as usize);
        }
    }
    if let Some((cols, rows)) = stdout {
        if cols > 0 && rows > 0 {
            return (cols as usize, rows as usize);
        }
    }
    (DEFAULT_COLS, DEFAULT_ROWS)
}

/// A size is usable as it stands if neither side is zero, and not at all otherwise.
pub proof fn law_usable(cols: u16, rows: u16)
    ensures
        usable(None) is None,
        cols == 0 || rows == 0 ==> usable(Some((cols, rows))) is None,
        cols > 0 && rows > 0 ==> usable(Some((cols, rows))) == Some((cols as usize, rows as usize)),
        DEFAULT_COLS == 80,
        DEFAULT_ROWS == 24,
{
}

} // verus!
