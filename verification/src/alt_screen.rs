//! Watches server output for the switch to and from the alternate screen.
//!
//! Full-screen programs announce themselves with `ESC [ ? 1049 h` or
//! `ESC [ ? 47 h` and take their leave with the same sequence ending in `l`.

use crate::ansi::{BRACKET, ESC};
use vstd::prelude::*;

verus! {

/// `?`, which marks a private mode.
pub const QUESTION: u8 = 0x3f;

/// `h`, the final byte that sets a mode.
pub const LOWER_H: u8 = 0x68;

/// `l`, the final byte that resets a mode.
pub const LOWER_L: u8 = 0x6c;

/// Most bytes of an unfinished sequence that are kept.
pub const MAX_PARTIAL: usize = 10;

/// What the watcher knows.
#[verifier::ext_equal]
pub struct AltState {
    /// The alternate screen is shown.
    pub active: bool,
    /// The bytes of a sequence that has begun and may yet switch screens.
    pub partial: Seq<u8>,
}

/// An ASCII digit.
pub open spec fn is_digit(byte: u8) -> bool {
    0x30 <= byte <= 0x39
}

/// The mode numbers that select the alternate screen: 1049 and 47.
pub open spec fn names_alt_screen(mode: Seq<u8>) -> bool {
    mode == seq![0x31u8, 0x30, 0x34, 0x39] || mode == seq![0x34u8, 0x37]
}

impl AltState {
    /// The switch that `byte` completes: `Some(true)` to the alternate screen,
    /// `Some(false)` back, `None` if it completes none.
    pub open spec fn switch(self, byte: u8) -> Option<bool> {
        if self.partial.len() >= 3 && (byte == LOWER_H || byte == LOWER_L) && names_alt_screen(
            self.partial.skip(3),
        ) {
            Some(byte == LOWER_H)
        } else {
            None
        }
    }

    /// The sequence that is still unfinished after `byte`.
    pub open spec fn partial_after(self, byte: u8) -> Seq<u8> {
        let goes_on = if self.partial.len() == 0 {
            byte == ESC
        } else if self.partial.len() == 1 {
            byte == BRACKET
        } else if self.partial.len() == 2 {
            byte == QUESTION
        } else {
            is_digit(byte) && self.partial.len() < MAX_PARTIAL
        };
        if goes_on {
            self.partial.push(byte)
        } else {
            Seq::empty()
        }
    }

    /// The state after one byte.
    pub open spec fn step(self, byte: u8) -> AltState {
        AltState {
            active: match self.switch(byte) {
                Some(alt) => alt,
                None => self.active,
            },
            partial: self.partial_after(byte),
        }
    }

    /// The state after a run of bytes.
    pub open spec fn after(self, bytes: Seq<u8>) -> AltState
        decreases bytes.len(),
    {
        if bytes.len() == 0 {
            self
        } else {
            self.after(bytes.drop_last()).step(bytes.last())
        }
    }

    /// Somewhere in a run of bytes the alternate screen is entered.
    pub open spec fn enters(self, bytes: Seq<u8>) -> bool
        decreases bytes.len(),
    {
        if bytes.len() == 0 {
            false
        } else {
            self.enters(bytes.drop_last()) || self.after(bytes.drop_last()).switch(bytes.last())
                == Some(true)
        }
    }

    /// The unfinished sequence is as long as the watcher lets it grow.
    pub open spec fn wf(self) -> bool {
        self.partial.len() <= MAX_PARTIAL
    }
}

/// The watcher.
pub struct AltScreen {
    active: bool,
    partial: Vec<u8>,
}

impl View for AltScreen {
    type V = AltState;

    closed spec fn view(&self) -> AltState {
        AltState { active: self.active, partial: self.partial@ }
    }
}

impl AltScreen {
    /// A watcher on the primary screen that has seen nothing.
    pub fn new() -> (w: AltScreen)
        ensures
            w@ == (AltState { active: false, partial: Seq::empty() }),
    {
        AltScreen { active: false, partial: Vec::new() }
    }

    /// Whether the alternate screen is shown.
    pub fn is_active(&self) -> (r: bool)
        ensures
            r == self@.active,
    {
        self.active
    }

    /// Takes in one byte; tells whether it enters the alternate screen.
    pub fn detect_alt_screen(&mut self, byte: u8) -> (entered: bool)
        ensures
            final(self)@ == old(self)@.step(byte),
            entered == (old(self)@.switch(byte) == Some(true)),
    {
        let len: usize = self.partial.len();
        let mut entered: bool = false;
        let goes_on: bool;
        if len == 0 {
            goes_on = byte == ESC;
        } else if len == 1 {
            goes_on = byte == BRACKET;
        } else if len == 2 {
            goes_on = byte == QUESTION;
        } else if byte == LOWER_H || byte == LOWER_L {
            if self.partial_names_alt_screen() {
                self.active = byte == LOWER_H;
                entered = self.active;
            }
            goes_on = false;
        } else {
            goes_on = 0x30 <= byte && byte <= 0x39 && len < MAX_PARTIAL;
        }
        if goes_on {
            self.partial.push(byte);
        } else {
            self.partial.clear();
        }
        assert(self@ =~= old(self)@.step(byte));
        entered
    }

    /// Whether the digits of the unfinished sequence select the alternate screen.
    fn partial_names_alt_screen(&self) -> (r: bool)
        requires
            self@.partial.len() >= 3,
        ensures
            r == names_alt_screen(self@.partial.skip(3)),
    {
        let p = &self.partial;
        let ghost mode = self@.partial.skip(3);
        let long: bool = p.len() == 7 && p[3] == 0x31 && p[4] == 0x30 && p[5] == 0x34 && p[6]
            == 0x39;
        let short: bool = p.len() == 5 && p[3] == 0x34 && p[4] == 0x37;
        proof {
            assert(mode.len() == self@.partial.len() - 3);
            if long {
                assert(mode =~= seq![0x31u8, 0x30, 0x34, 0x39]);
            }
            if short {
                assert(mode =~= seq![0x34u8, 0x37]);
            }
            if mode == seq![0x31u8, 0x30, 0x34, 0x39] {
                assert(mode[0] == 0x31 && mode[1] == 0x30 && mode[2] == 0x34 && mode[3] == 0x39);
            }
            if mode == seq![0x34u8, 0x37] {
                assert(mode[0] == 0x34 && mode[1] == 0x37);
            }
        }
        long || short
    }

    /// Takes in a run of bytes; tells whether the alternate screen is entered on the way.
    pub fn scan(&mut self, data: &[u8]) -> (entered: bool)
        ensures
            final(self)@ == old(self)@.after(data@),
            entered == old(self)@.enters(data@),
    {
        let mut entered: bool = false;
        let mut i: usize = 0;
        assert(data@.take(0) =~= Seq::<u8>::empty());
        while i < data.len()
            invariant
                i <= data@.len(),
                self@ == old(self)@.after(data@.take(i as int)),
                entered == old(self)@.enters(data@.take(i as int)),
            decreases data@.len() - i,
        {
            proof {
                assert(data@.take(i + 1).drop_last() =~= data@.take(i as int));
                assert(data@.take(i + 1).last() == data@[i as int]);
            }
            if self.detect_alt_screen(data[i]) {
                entered = true;
            }
            i += 1;
        }
        assert(data@.take(i as int) =~= data@);
        entered
    }
}

/// A run of bytes can come in any number of pieces.
pub proof fn law_pieces(state: AltState, a: Seq<u8>, b: Seq<u8>)
    ensures
        state.after(a + b) == state.after(a).after(b),
        state.enters(a + b) == (state.enters(a) || state.after(a).enters(b)),
    decreases b.len(),
{
    if b.len() == 0 {
        assert(a + b =~= a);
    } else {
        law_pieces(state, a, b.drop_last());
        assert((a + b).drop_last() =~= a + b.drop_last());
    }
}

/// What one byte at the end does.
proof fn lemma_push(state: AltState, bytes: Seq<u8>, byte: u8)
    ensures
        state.after(bytes.push(byte)) == state.after(bytes).step(byte),
        state.enters(bytes.push(byte)) == (state.enters(bytes) || state.after(bytes).switch(byte)
            == Some(true)),
{
    assert(bytes.push(byte).drop_last() =~= bytes);
}

/// The sequence that sets or resets the private mode with these digits.
pub open spec fn mode_sequence(mode: Seq<u8>, set: bool) -> Seq<u8> {
    (seq![ESC, BRACKET, QUESTION] + mode).push(
        if set {
            LOWER_H
        } else {
            LOWER_L
        },
    )
}

/// A sequence of digits is kept until its final byte, or given up when it grows too long.
proof fn lemma_digits_kept(state: AltState, mode: Seq<u8>)
    requires
        state.partial.len() == 0,
        forall|i: int| 0 <= i < mode.len() ==> is_digit(#[trigger] mode[i]),
    ensures
        state.after(seq![ESC, BRACKET, QUESTION] + mode) == (AltState {
            partial: if mode.len() + 3 <= MAX_PARTIAL {
                seq![ESC, BRACKET, QUESTION] + mode
            } else {
                Seq::empty()
            },
            ..state
        }),
        !state.enters(seq![ESC, BRACKET, QUESTION] + mode),
    decreases mode.len(),
{
    let intro = seq![ESC, BRACKET, QUESTION];
    if mode.len() == 0 {
        let none = Seq::<u8>::empty();
        assert(state.partial =~= none);
        lemma_push(state, none, ESC);
        lemma_push(state, none.push(ESC), BRACKET);
        lemma_push(state, none.push(ESC).push(BRACKET), QUESTION);
        assert(intro + mode =~= none.push(ESC).push(BRACKET).push(QUESTION));
    } else {
        let front = mode.drop_last();
        assert forall|i: int| 0 <= i < front.len() implies is_digit(#[trigger] front[i]) by {
            assert(front[i] == mode[i]);
        }
        lemma_digits_kept(state, front);
        lemma_push(state, intro + front, mode.last());
        assert(is_digit(mode[mode.len() - 1]));
        assert((intro + front).push(mode.last()) =~= intro + mode);
    }
}

/// The sequences for modes 1049 and 47 switch to the alternate screen and back.
pub proof fn law_switches(state: AltState, mode: Seq<u8>, set: bool)
    requires
        state.partial.len() == 0,
        names_alt_screen(mode),
    ensures
        state.after(mode_sequence(mode, set)) == (AltState { active: set, partial: Seq::empty() }),
        state.enters(mode_sequence(mode, set)) == set,
{
    let intro = seq![ESC, BRACKET, QUESTION];
    lemma_digits_kept(state, mode);
    lemma_push(
        state,
        intro + mode,
        if set {
            LOWER_H
        } else {
            LOWER_L
        },
    );
    assert((intro + mode).skip(3) =~= mode);
}

/// The sequences for other modes, however long, switch nothing.
pub proof fn law_other_modes(state: AltState, mode: Seq<u8>, set: bool)
    requires
        state.partial.len() == 0,
        forall|i: int| 0 <= i < mode.len() ==> is_digit(#[trigger] mode[i]),
        !names_alt_screen(mode),
    ensures
        state.after(mode_sequence(mode, set)) == state,
        !state.enters(mode_sequence(mode, set)),
{
    let intro = seq![ESC, BRACKET, QUESTION];
    lemma_digits_kept(state, mode);
    lemma_push(
        state,
        intro + mode,
        if set {
            LOWER_H
        } else {
            LOWER_L
        },
    );
    assert((intro + mode).skip(3) =~= mode);
    assert(state.after(mode_sequence(mode, set)) =~= state);
}

/// Text without an escape character switches nothing.
pub proof fn law_plain_text(state: AltState, bytes: Seq<u8>)
    requires
        state.partial.len() == 0,
        !bytes.contains(ESC),
    ensures
        state.after(bytes) == state,
        !state.enters(bytes),
    decreases bytes.len(),
{
    if bytes.len() > 0 {
        assert forall|i: int| 0 <= i < bytes.drop_last().len() implies bytes.drop_last()[i]
            != ESC by {
            assert(bytes.drop_last()[i] == bytes[i]);
        }
        law_plain_text(state, bytes.drop_last());
        assert(bytes.last() == bytes[bytes.len() - 1]);
        assert(state.after(bytes) =~= state);
    }
}

/// An unfinished sequence never grows beyond its limit.
pub proof fn law_partial_bounded(state: AltState, bytes: Seq<u8>)
    requires
        state.wf(),
    ensures
        state.after(bytes).wf(),
    decreases bytes.len(),
{
    if bytes.len() > 0 {
        law_partial_bounded(state, bytes.drop_last());
    }
}

/// The private mode sequences that select the alternate screen, spelled out:
/// escape, `[?1049` or `[?47`, and `h` to enter it or `l` to leave it.
pub open spec fn selects_alt_screen(bytes: Seq<u8>, set: bool) -> bool {
    let last = if set {
        0x68u8
    } else {
        0x6cu8
    };
    ||| bytes == seq![0x1bu8, 0x5b, 0x3f, 0x31, 0x30, 0x34, 0x39, last]
    ||| bytes == seq![0x1bu8, 0x5b, 0x3f, 0x34, 0x37, last]
}

/// A sequence that selects the alternate screen names one of its modes.
proof fn lemma_selects(bytes: Seq<u8>, set: bool)
    requires
        selects_alt_screen(bytes, set),
    ensures
        exists|mode: Seq<u8>|
            names_alt_screen(mode) && bytes == #[trigger] mode_sequence(mode, set),
{
    let long = seq![0x31u8, 0x30, 0x34, 0x39];
    let short = seq![0x34u8, 0x37];
    if bytes.len() == 8 {
        assert(bytes =~= mode_sequence(long, set));
        assert(names_alt_screen(long));
    } else {
        assert(bytes =~= mode_sequence(short, set));
        assert(names_alt_screen(short));
    }
}

/// Behind any output that leaves no sequence unfinished, the sequences for modes
/// 1049 and 47 enter and leave the alternate screen, whichever is shown.
pub proof fn law_switches_behind(state: AltState, before: Seq<u8>, bytes: Seq<u8>, set: bool)
    requires
        state.after(before).partial.len() == 0,
        selects_alt_screen(bytes, set),
    ensures
        state.after(before + bytes).active == set,
        state.after(before + bytes).partial.len() == 0,
        state.enters(before + bytes) == (state.enters(before) || set),
{
    lemma_selects(bytes, set);
    let mode = choose|mode: Seq<u8>|
        names_alt_screen(mode) && bytes == #[trigger] mode_sequence(mode, set);
    law_pieces(state, before, bytes);
    law_switches(state.after(before), mode, set);
}

/// An escape character and any byte but `[` are a sequence of their own: they
/// switch nothing and leave nothing unfinished.
pub proof fn law_two_bytes_leave_nothing(state: AltState, byte: u8)
    requires
        state.partial.len() == 0,
        byte != 0x5b,
    ensures
        state.after(seq![0x1bu8, byte]) == state,
        !state.enters(seq![0x1bu8, byte]),
{
    let none = Seq::<u8>::empty();
    assert(seq![0x1bu8, byte] =~= none.push(0x1b).push(byte));
    lemma_push(state, none, 0x1b);
    lemma_push(state, none.push(0x1b), byte);
    assert(state.after(seq![0x1bu8, byte]) =~= state);
}

/// A control sequence without `?` switches nothing and leaves nothing
/// unfinished, whatever stands in it, as long as it is not cut by another
/// escape character.
pub proof fn law_control_sequence_leaves_nothing(state: AltState, byte: u8, rest: Seq<u8>)
    requires
        state.partial.len() == 0,
        byte != 0x3f,
        !rest.contains(0x1b),
    ensures
        state.after(seq![0x1bu8, 0x5b, byte] + rest) == state,
        !state.enters(seq![0x1bu8, 0x5b, byte] + rest),
{
    let none = Seq::<u8>::empty();
    let intro = seq![0x1bu8, 0x5b, byte];
    assert(intro =~= none.push(0x1b).push(0x5b).push(byte));
    lemma_push(state, none, 0x1b);
    lemma_push(state, none.push(0x1b), 0x5b);
    lemma_push(state, none.push(0x1b).push(0x5b), byte);
    assert(state.after(intro) =~= state);
    law_pieces(state, intro, rest);
    law_plain_text(state, rest);
}

/// A private mode sequence that ends in another byte than `h` or `l` switches
/// nothing and leaves nothing unfinished, whatever its mode, and neither does one
/// for another mode that ends in one of them.
pub proof fn law_private_sequence_leaves_nothing(state: AltState, mode: Seq<u8>, byte: u8)
    requires
        state.partial.len() == 0,
        forall|i: int| 0 <= i < mode.len() ==> 0x30 <= #[trigger] mode[i] <= 0x39,
        !(0x30 <= byte <= 0x39),
        byte != 0x1b,
        !selects_alt_screen((seq![0x1bu8, 0x5b, 0x3f] + mode).push(byte), true),
        !selects_alt_screen((seq![0x1bu8, 0x5b, 0x3f] + mode).push(byte), false),
    ensures
        state.after((seq![0x1bu8, 0x5b, 0x3f] + mode).push(byte)) == state,
        !state.enters((seq![0x1bu8, 0x5b, 0x3f] + mode).push(byte)),
{
    let intro = seq![ESC, BRACKET, QUESTION];
    assert(intro =~= seq![0x1bu8, 0x5b, 0x3f]);
    assert forall|i: int| 0 <= i < mode.len() implies is_digit(#[trigger] mode[i]) by {}
    lemma_digits_kept(state, mode);
    lemma_push(state, intro + mode, byte);
    assert((intro + mode).skip(3) =~= mode);
    if names_alt_screen(mode) && (byte == LOWER_H || byte == LOWER_L) {
        let whole = (intro + mode).push(byte);
        if mode.len() == 4 {
            assert(whole =~= seq![0x1bu8, 0x5b, 0x3f, 0x31, 0x30, 0x34, 0x39, byte]);
        } else {
            assert(whole =~= seq![0x1bu8, 0x5b, 0x3f, 0x34, 0x37, byte]);
        }
        assert(selects_alt_screen(whole, byte == LOWER_H));
    }
    assert(state.after((intro + mode).push(byte)) =~= state);
}

/// The screens are switched right behind a sequence of two bytes, such as the one
/// that a program sends when it takes its leave.
pub proof fn law_switches_behind_two_bytes(state: AltState, byte: u8, bytes: Seq<u8>, set: bool)
    requires
        state.partial.len() == 0,
        byte != 0x5b,
        selects_alt_screen(bytes, set),
    ensures
        state.after(seq![0x1bu8, byte] + bytes).active == set,
        state.enters(seq![0x1bu8, byte] + bytes) == set,
{
    law_two_bytes_leave_nothing(state, byte);
    law_switches_behind(state, seq![0x1bu8, byte], bytes, set);
}

/// What is unfinished is the end of what arrived: the beginning of a private
/// mode sequence.
proof fn lemma_unfinished(state: AltState, bytes: Seq<u8>)
    requires
        state.partial.len() == 0,
    ensures
        ({
            let partial = state.after(bytes).partial;
            &&& partial.len() <= bytes.len()
            &&& partial == bytes.skip(bytes.len() - partial.len())
            &&& partial.len() > 0 ==> partial[0] == 0x1b
            &&& partial.len() > 1 ==> partial[1] == 0x5b
            &&& partial.len() > 2 ==> partial[2] == 0x3f
        }),
    decreases bytes.len(),
{
    if bytes.len() > 0 {
        let front = bytes.drop_last();
        lemma_unfinished(state, front);
        let before = state.after(front).partial;
        let partial = state.after(bytes).partial;
        if partial.len() > 0 {
            assert(partial =~= before.push(bytes.last()));
            assert(partial =~= bytes.skip(bytes.len() - partial.len()));
        } else {
            assert(partial =~= bytes.skip(bytes.len() as int));
        }
    } else {
        assert(bytes.skip(0) =~= state.partial);
    }
}

/// Some part of `bytes` selects the alternate screen, or the primary one.
pub open spec fn holds_switch(bytes: Seq<u8>, set: bool) -> bool {
    exists|i: int, j: int|
        0 <= i <= j <= bytes.len() && selects_alt_screen(#[trigger] bytes.subrange(i, j), set)
}

/// Nothing but these sequences switches screens: where another screen is shown
/// than before, the sequence for it was among what arrived, and the alternate
/// screen is entered only by one of those for it.
pub proof fn law_nothing_else_switches(state: AltState, bytes: Seq<u8>)
    requires
        state.partial.len() == 0,
    ensures
        state.after(bytes).active != state.active ==> holds_switch(
            bytes,
            state.after(bytes).active,
        ),
        state.enters(bytes) ==> holds_switch(bytes, true),
    decreases bytes.len(),
{
    if bytes.len() > 0 {
        let front = bytes.drop_last();
        let byte = bytes.last();
        let before = state.after(front);
        law_nothing_else_switches(state, front);
        lemma_unfinished(state, front);
        assert forall|set: bool| holds_switch(front, set) implies holds_switch(bytes, set) by {
            let (i, j) = choose|i: int, j: int|
                0 <= i <= j <= front.len() && selects_alt_screen(
                    #[trigger] front.subrange(i, j),
                    set,
                );
            assert(front.subrange(i, j) =~= bytes.subrange(i, j));
        }
        if let Some(set) = before.switch(byte) {
            let start = front.len() - before.partial.len();
            let part = bytes.subrange(start, bytes.len() as int);
            assert(part =~= before.partial.push(byte));
            let mode = before.partial.skip(3);
            assert(before.partial =~= seq![0x1bu8, 0x5b, 0x3f] + mode);
            if mode.len() == 4 {
                assert(part =~= seq![0x1bu8, 0x5b, 0x3f, 0x31, 0x30, 0x34, 0x39, byte]);
            } else {
                assert(part =~= seq![0x1bu8, 0x5b, 0x3f, 0x34, 0x37, byte]);
            }
            assert(selects_alt_screen(part, set));
        }
    }
}

/// A byte with which no private mode sequence goes on ends the one that had
/// begun, an escape character among them: it starts no new one.
pub proof fn law_escape_gives_up(state: AltState)
    requires
        state.partial.len() > 0,
    ensures
        state.after(seq![0x1bu8]) == (AltState { active: state.active, partial: Seq::empty() }),
        !state.enters(seq![0x1bu8]),
{
    let none = Seq::<u8>::empty();
    assert(seq![0x1bu8] =~= none.push(0x1b));
    lemma_push(state, none, 0x1b);
}

/// The digits of a mode are waited for, seven at most: a longer sequence is given
/// up, and what follows it is read on its own.
pub proof fn law_long_mode_is_given_up(state: AltState, mode: Seq<u8>)
    requires
        state.partial.len() == 0,
        forall|i: int| 0 <= i < mode.len() ==> 0x30 <= #[trigger] mode[i] <= 0x39,
    ensures
        state.after(seq![0x1bu8, 0x5b, 0x3f] + mode).active == state.active,
        state.after(seq![0x1bu8, 0x5b, 0x3f] + mode).partial == if mode.len() <= 7 {
            seq![0x1bu8, 0x5b, 0x3f] + mode
        } else {
            Seq::empty()
        },
{
    assert(seq![ESC, BRACKET, QUESTION] =~= seq![0x1bu8, 0x5b, 0x3f]);
    assert forall|i: int| 0 <= i < mode.len() implies is_digit(#[trigger] mode[i]) by {}
    lemma_digits_kept(state, mode);
}

} // verus!
