//! Turns what the user types into predictions.

use crate::ansi::{BRACKET, DEL, ESC, SPACE};
use crate::command::Command;
use crate::emulator::{Emulator, EmulatorState};
use crate::output;
use crate::utf8;
use unicode_width::UnicodeWidthChar;
use vstd::prelude::*;
use vstd::string::*;

verus! {

/// Most bytes of an unfinished character that are kept.
pub const MAX_CHAR_BYTES: usize = 4;

/// Columns that `unicode_width` gives a character from the no-break space on.
pub uninterp spec fn table_columns(c: char) -> Option<usize>;

/// A control character: below the blank, or from delete up to the no-break space.
pub open spec fn is_control_char(c: char) -> bool {
    (c as u32) < 0x20 || 0x7f <= (c as u32) < 0xa0
}

/// Columns that a character takes; a control character has no width.
pub open spec fn char_columns(c: char) -> Option<usize> {
    if is_control_char(c) {
        None
    } else if (c as u32) < 0x7f {
        Some(1)
    } else {
        table_columns(c)
    }
}

/// `UnicodeWidthChar::width`: the columns that a character takes. Control
/// characters have none, the other ASCII characters take one column, and what
/// the crate's table gives any other character is named.
#[verifier::external_body]
pub(crate) fn columns_of(c: char) -> (columns: Option<usize>)
    ensures
        is_control_char(c) ==> columns is None,
        0x20 <= (c as u32) < 0x7f ==> columns == Some(1usize),
        c as u32 >= 0xa0 ==> columns == table_columns(c) && columns is Some,
{
    c.width()
}

/// `std::str::from_utf8`: the text that `bytes` encode, if they are well-formed UTF-8.
#[verifier::external_body]
fn utf8_text(bytes: &[u8]) -> (text: Option<&str>)
    ensures
        text is Some <==> vstd::utf8::valid_utf8(bytes@),
        text matches Some(s) ==> s@ == vstd::utf8::decode_utf8(bytes@),
{
    std::str::from_utf8(bytes).ok()
}

/// The width that a prediction gives a character of so many columns; a
/// character without a width takes one column.
pub open spec fn command_width(columns: Option<usize>) -> u8 {
    match columns {
        Some(n) => n as u8,
        None => 1,
    }
}

/// The prediction that `ch` appears where the predictions so far end, over what
/// the server's screen holds there.
pub open spec fn char_command(ch: char, columns: Option<usize>, emu: EmulatorState) -> Command {
    let (row, col) = emu.prediction_end();
    Command::Char {
        row: row as usize,
        col: col as usize,
        ch,
        original: emu.screen.cell(row, col),
        width: command_width(columns),
    }
}

/// What an input handler holds.
#[verifier::ext_equal]
pub struct InputState {
    /// The bytes of a character that has begun.
    pub utf8: Seq<u8>,
    /// The bytes of an escape sequence that has begun.
    pub esc: Seq<u8>,
    /// Predictions are made at all.
    pub enabled: bool,
    /// Predictions are made on the alternate screen as well.
    pub ignore_alt_screen: bool,
}

impl InputState {
    /// A handler that has seen no input and predicts, except on the alternate screen.
    pub open spec fn initial() -> InputState {
        InputState {
            utf8: Seq::empty(),
            esc: Seq::empty(),
            enabled: true,
            ignore_alt_screen: false,
        }
    }

    /// Both unfinished sequences are as short as the handler keeps them.
    pub open spec fn wf(self) -> bool {
        self.utf8.len() <= MAX_CHAR_BYTES && self.esc.len() <= 2
    }

    /// Predictions are made now. In adaptive mode the measurements have a say.
    pub open spec fn predicts(self, emu: EmulatorState, adaptive: bool) -> bool {
        &&& self.enabled
        &&& emu.alt.active ==> self.ignore_alt_screen
        &&& adaptive ==> emu.adaptive.predicts()
    }

    /// The character that `byte` completes, if it completes one.
    ///
    /// An escape sequence completes none, but a printable character behind a
    /// lone escape counts. Of several characters in one run of bytes the first counts.
    pub open spec fn completed(self, byte: u8) -> Option<char> {
        if self.esc.len() > 0 {
            if self.esc.len() == 1 && byte != BRACKET && SPACE <= byte < DEL {
                Some(byte as char)
            } else {
                None
            }
        } else if byte < SPACE || byte == DEL {
            None
        } else if byte < 0x80 {
            Some(byte as char)
        } else if vstd::utf8::valid_utf8(self.utf8.push(byte)) {
            Some(vstd::utf8::decode_utf8(self.utf8.push(byte))[0])
        } else {
            None
        }
    }

    /// The handler after `byte`.
    ///
    /// An escape sequence ends with the byte behind its bracket. Bytes that are
    /// no character after four of them are given up.
    pub open spec fn after(self, byte: u8) -> InputState {
        if self.esc.len() > 0 {
            InputState {
                esc: if self.esc.len() == 1 && byte == BRACKET {
                    self.esc.push(byte)
                } else {
                    Seq::empty()
                },
                ..self
            }
        } else if byte == ESC {
            InputState { esc: seq![ESC], utf8: Seq::empty(), ..self }
        } else {
            InputState {
                utf8: if byte >= 0x80 && !vstd::utf8::valid_utf8(self.utf8.push(byte))
                    && self.utf8.len() < MAX_CHAR_BYTES {
                    self.utf8.push(byte)
                } else {
                    Seq::empty()
                },
                ..self
            }
        }
    }
}

/// Makes predictions from input, byte by byte.
pub struct InputHandler {
    utf8_buf: Vec<u8>,
    esc_buf: Vec<u8>,
    enabled: bool,
    ignore_alt_screen: bool,
}

impl View for InputHandler {
    type V = InputState;

    closed spec fn view(&self) -> InputState {
        InputState {
            utf8: self.utf8_buf@,
            esc: self.esc_buf@,
            enabled: self.enabled,
            ignore_alt_screen: self.ignore_alt_screen,
        }
    }
}

impl InputHandler {
    /// A handler that has seen no input and predicts, except on the alternate screen.
    pub fn new() -> (h: InputHandler)
        ensures
            h@ == InputState::initial(),
            h@.wf(),
    {
        InputHandler {
            utf8_buf: Vec::new(),
            esc_buf: Vec::new(),
            enabled: true,
            ignore_alt_screen: false,
        }
    }

    /// Whether predictions are made now.
    pub fn predicts_on(&self, emulator: &Emulator, adaptive: bool) -> (r: bool)
        ensures
            r == self@.predicts(emulator@, adaptive),
    {
        self.enabled && (!emulator.in_alt_screen() || self.ignore_alt_screen) && (!adaptive
            || emulator.should_predict())
    }

    /// Takes in one byte of input; gives back the character that it completes.
    pub fn take_byte(&mut self, byte: u8) -> (ch: Option<char>)
        requires
            old(self)@.wf(),
        ensures
            ch == old(self)@.completed(byte),
            final(self)@ == old(self)@.after(byte),
            final(self)@.wf(),
    {
        if self.esc_buf.len() > 0 {
            return self.handle_escape_byte(byte);
        }
        if byte == ESC {
            self.esc_buf.push(byte);
            self.utf8_buf.clear();
            assert(self@ =~= old(self)@.after(byte));
            return None;
        }
        if byte < SPACE || byte == DEL {
            self.utf8_buf.clear();
            return None;
        }
        if byte >= 0x80 {
            self.utf8_buf.push(byte);
            if let Some(text) = utf8_text(self.utf8_buf.as_slice()) {
                let ch: char = text.get_char(0);
                self.utf8_buf.clear();
                return Some(ch);
            }
            if self.utf8_buf.len() > MAX_CHAR_BYTES {
                self.utf8_buf.clear();
            }
            return None;
        }
        self.utf8_buf.clear();
        Some(byte as char)
    }

    /// Takes in a byte of an escape sequence that has begun; gives back the
    /// character that it turns out to be.
    pub fn handle_escape_byte(&mut self, byte: u8) -> (ch: Option<char>)
        requires
            old(self)@.wf(),
            old(self)@.esc.len() > 0,
        ensures
            ch == old(self)@.completed(byte),
            final(self)@ == old(self)@.after(byte),
            final(self)@.wf(),
    {
        if self.esc_buf.len() == 1 {
            if byte == BRACKET {
                self.esc_buf.push(byte);
                return None;
            }
            self.esc_buf.clear();
            if byte >= SPACE && byte < DEL {
                return Some(byte as char);
            }
            return None;
        }
        self.esc_buf.clear();
        None
    }

    /// Takes in one byte of input; gives back the prediction that it makes. While
    /// no predictions are made, input passes by unseen.
    pub fn handle_byte(&mut self, byte: u8, emulator: &Emulator, adaptive: bool) -> (cmd: Option<
        Command,
    >)
        requires
            old(self)@.wf(),
            emulator@.wf(),
            old(self)@.predicts(emulator@, adaptive) && old(self)@.completed(byte) is Some ==> {
                &&& emulator@.delta_fits()
                &&& emulator@.prediction_end().1 < emulator@.screen.cols
            },
        ensures
            final(self)@.wf(),
            if old(self)@.predicts(emulator@, adaptive) {
                &&& final(self)@ == old(self)@.after(byte)
                &&& cmd == match old(self)@.completed(byte) {
                    Some(ch) => Some(char_command(ch, char_columns(ch), emulator@)),
                    None => None,
                }
            } else {
                cmd is None && final(self)@ == old(self)@
            },
    {
        if !self.predicts_on(emulator, adaptive) {
            return None;
        }
        match self.take_byte(byte) {
            Some(ch) => Some(self.create_char_command(ch, emulator)),
            None => None,
        }
    }

    /// The prediction that `ch` appears where the predictions so far end.
    pub fn create_char_command(&self, ch: char, emulator: &Emulator) -> (cmd: Command)
        requires
            emulator@.wf(),
            emulator@.delta_fits(),
            emulator@.prediction_end().1 < emulator@.screen.cols,
        ensures
            cmd == char_command(ch, char_columns(ch), emulator@),
    {
        self.create_command(ch, columns_of(ch), emulator)
    }

    /// The prediction that `ch`, which takes `columns`, appears where the
    /// predictions so far end.
    pub fn create_command(&self, ch: char, columns: Option<usize>, emulator: &Emulator) -> (cmd:
        Command)
        requires
            emulator@.wf(),
            emulator@.delta_fits(),
            emulator@.prediction_end().1 < emulator@.screen.cols,
        ensures
            cmd == char_command(ch, columns, emulator@),
    {
        let width: u8 = match columns {
            Some(n) => n as u8,
            None => 1,
        };
        let (row, col): (usize, usize) = emulator.prediction_end_cursor();
        let original: char = emulator.char_at(row, col);
        Command::char(row, col, ch, original, width)
    }

    /// Whether predictions are made at all.
    pub fn set_enabled(&mut self, enabled: bool)
        ensures
            final(self)@ == (InputState { enabled, ..old(self)@ }),
    {
        self.enabled = enabled;
    }

    /// Whether predictions are made on the alternate screen as well.
    pub fn set_ignore_alt_screen(&mut self, ignore: bool)
        ensures
            final(self)@ == (InputState { ignore_alt_screen: ignore, ..old(self)@ }),
    {
        self.ignore_alt_screen = ignore;
    }
}

/// A character that is typed in one piece is completed by its last byte and by
/// no other, however many bytes encode it, and leaves the handler as it was.
pub proof fn law_char_completed_once(state: InputState, c: char, k: int)
    requires
        state.esc.len() == 0,
        state.utf8.len() == 0,
        output::is_printable(c),
        0 <= k < utf8::char_bytes(c).len(),
    ensures
        ({
            let bytes = utf8::char_bytes(c);
            let begun = InputState { utf8: bytes.take(k), ..state };
            if k + 1 == bytes.len() {
                begun.completed(bytes[k]) == Some(c) && begun.after(bytes[k]) == state
            } else {
                &&& begun.completed(bytes[k]) is None
                &&& begun.after(bytes[k]) == (InputState { utf8: bytes.take(k + 1), ..state })
            }
        }),
{
    let bytes = utf8::char_bytes(c);
    let begun = InputState { utf8: bytes.take(k), ..state };
    utf8::lemma_char_bytes(c);
    let pushed = bytes.take(k).push(bytes[k]);
    assert(pushed =~= bytes.take(k + 1));
    assert(pushed[0] == bytes[0]);
    if k + 1 == bytes.len() {
        assert(pushed =~= bytes);
        assert(begun.after(bytes[k]) =~= state);
    }
}

/// The key sequences of the arrow keys complete no character and leave the
/// handler as it was.
pub proof fn law_arrow_keys_complete_nothing(state: InputState, key: u8)
    requires
        state.esc.len() == 0,
        state.utf8.len() == 0,
    ensures
        state.completed(ESC) is None,
        state.after(ESC).completed(BRACKET) is None,
        state.after(ESC).after(BRACKET).completed(key) is None,
        state.after(ESC).after(BRACKET).after(key) == state,
{
    assert(state.after(ESC).after(BRACKET).after(key) =~= state);
}

/// A control key completes no character and drops one that had begun; the escape
/// key alone begins a sequence.
pub proof fn law_control_key(state: InputState, byte: u8)
    requires
        state.esc.len() == 0,
        byte < 0x20 || byte == 0x7f,
    ensures
        state.completed(byte) is None,
        state.after(byte) == (InputState {
            utf8: Seq::empty(),
            esc: if byte == 0x1b {
                seq![0x1bu8]
            } else {
                Seq::empty()
            },
            ..state
        }),
{
    assert(state.after(byte) =~= (InputState {
        utf8: Seq::empty(),
        esc: if byte == 0x1b {
            seq![0x1bu8]
        } else {
            Seq::empty()
        },
        ..state
    }));
}

/// A printable ASCII key is its character at once, also behind a character that
/// had begun, which is dropped.
pub proof fn law_ascii_key(state: InputState, byte: u8)
    requires
        state.esc.len() == 0,
        0x20 <= byte < 0x7f,
    ensures
        state.completed(byte) == Some(byte as char),
        state.after(byte) == (InputState { utf8: Seq::empty(), ..state }),
{
}

/// Behind a lone escape, a printable ASCII key but `[` is its character, any
/// other key is none, and either ends the sequence. Behind escape and `[`, any
/// key ends it and is no character.
pub proof fn law_key_behind_escape(state: InputState, byte: u8)
    requires
        state.esc.len() > 0,
    ensures
        state.completed(byte) == if state.esc.len() == 1 && byte != 0x5b && 0x20 <= byte < 0x7f {
            Some(byte as char)
        } else {
            None
        },
        state.esc.len() == 1 && byte == 0x5b ==> state.after(byte).esc.len() == 2,
        state.esc.len() != 1 || byte != 0x5b ==> state.after(byte).esc.len() == 0,
        state.after(byte).utf8 == state.utf8,
        state.after(byte).enabled == state.enabled,
        state.after(byte).ignore_alt_screen == state.ignore_alt_screen,
{
}

/// Bytes that are no character yet are kept, four at most, and all dropped with
/// the next that makes them none.
pub proof fn law_bytes_wait_for_character(state: InputState, byte: u8)
    requires
        state.esc.len() == 0,
        byte >= 0x80,
    ensures
        ({
            let bytes = state.utf8.push(byte);
            &&& vstd::utf8::valid_utf8(bytes) ==> {
                &&& state.completed(byte) == Some(vstd::utf8::decode_utf8(bytes)[0])
                &&& state.after(byte) == (InputState { utf8: Seq::empty(), ..state })
            }
            &&& !vstd::utf8::valid_utf8(bytes) ==> {
                &&& state.completed(byte) is None
                &&& bytes.len() <= 4 ==> state.after(byte) == (InputState { utf8: bytes, ..state })
                &&& bytes.len() > 4 ==> state.after(byte) == (InputState {
                    utf8: Seq::empty(),
                    ..state
                })
            }
        }),
{
}

/// The columns of a character: none for a control character, one for any other
/// ASCII character. A prediction takes as many, and one where there are none.
pub proof fn law_columns(c: char, n: usize)
    ensures
        (c as u32) < 0x20 || 0x7f <= (c as u32) < 0xa0 ==> char_columns(c) is None,
        0x20 <= (c as u32) < 0x7f ==> char_columns(c) == Some(1usize),
        0xa0 <= (c as u32) ==> char_columns(c) == table_columns(c),
        command_width(None) == 1,
        n <= 255 ==> command_width(Some(n)) == n,
{
}

/// A new handler predicts, but not on the alternate screen.
pub proof fn law_new_handler()
    ensures
        InputState::initial().enabled,
        !InputState::initial().ignore_alt_screen,
        InputState::initial().utf8.len() == 0,
        InputState::initial().esc.len() == 0,
{
}

} // verus!
