//! Colours in operating system commands.
//!
//! A command starts with `ESC ]` and holds parameters between semicolons; one
//! that starts with `#` is read as a colour, whatever follows. The parser behind
//! the screen cuts a colour into thirds and shifts each by its length, so no
//! colour that it gets may be longer than a machine word has room for.
//!
//! [`OscState`] follows the parser's states `Escape` and `OscString`: which bytes
//! lead there, which it passes over on the way, and which end a parameter. It
//! takes every escape character for one that the parser sees, which holds of a
//! parser that is fed whole characters.

use crate::ansi::{DEL, ESC, SEMICOLON, SPACE};
use vstd::prelude::*;

verus! {

/// Most bytes of a colour that the parser gets. No third of it then has more than
/// eight, and eight hexadecimal digits fill a 32-bit word; with one byte more the
/// last third would have nine.
pub const MAX_COLOUR: u8 = 22;

/// `]`, which starts a command behind escape.
pub const CLOSE_BRACKET: u8 = 0x5d;

/// `#`, which starts a colour.
pub const HASH: u8 = 0x23;

/// Bell, which ends a command.
pub const BEL: u8 = 0x07;

/// Cancel, which ends any sequence.
pub const CAN: u8 = 0x18;

/// Substitute, which ends any sequence.
pub const SUB: u8 = 0x1a;

/// Where in a command the stream stands.
#[derive(Debug, Clone, Copy, PartialEq, Eq, Structural)]
pub enum OscState {
    /// In none.
    Outside,
    /// Behind an escape character that may start one.
    Escape,
    /// At the start of a parameter.
    Start,
    /// In a colour, behind so many bytes of it.
    Colour(u8),
    /// In a colour of too many bytes.
    TooLong,
    /// In another parameter.
    Other,
}

impl OscState {
    /// Where the stream stands after one more byte. Control characters that end
    /// nothing are passed over; every other byte of a colour counts, digit or not.
    pub open spec fn step(self, byte: u8) -> OscState {
        if byte == ESC {
            OscState::Escape
        } else if byte == CAN || byte == SUB {
            OscState::Outside
        } else if self is Outside {
            self
        } else if self is Escape {
            if byte == CLOSE_BRACKET {
                OscState::Start
            } else if byte < SPACE || byte >= DEL {
                self
            } else {
                OscState::Outside
            }
        } else if byte == BEL {
            OscState::Outside
        } else if byte < SPACE {
            self
        } else if byte == SEMICOLON {
            OscState::Start
        } else {
            match self {
                OscState::Start if byte == HASH => OscState::Colour(0),
                OscState::Colour(n) if n < MAX_COLOUR => OscState::Colour((n + 1) as u8),
                OscState::Colour(_) => OscState::TooLong,
                OscState::TooLong => OscState::TooLong,
                _ => OscState::Other,
            }
        }
    }

    /// Where the stream stands after a run of bytes.
    pub open spec fn after(self, bytes: Seq<u8>) -> OscState
        decreases bytes.len(),
    {
        if bytes.len() == 0 {
            self
        } else {
            self.after(bytes.drop_last()).step(bytes.last())
        }
    }

    /// No colour in a run of bytes is too long.
    pub open spec fn calm(self, bytes: Seq<u8>) -> bool
        decreases bytes.len(),
    {
        bytes.len() > 0 ==> self.calm(bytes.drop_last()) && !(self.after(bytes) is TooLong)
    }

    /// A run of bytes without those that are too many in a colour.
    pub open spec fn tamed(self, bytes: Seq<u8>) -> Seq<u8>
        decreases bytes.len(),
    {
        if bytes.len() == 0 {
            bytes
        } else {
            let front = self.tamed(bytes.drop_last());
            if self.after(front).step(bytes.last()) is TooLong {
                front
            } else {
                front.push(bytes.last())
            }
        }
    }

    /// Where the stream stands after one more byte.
    pub fn advance(self, byte: u8) -> (next: OscState)
        ensures
            next == self.step(byte),
    {
        if byte == ESC {
            return OscState::Escape;
        }
        if byte == CAN || byte == SUB {
            return OscState::Outside;
        }
        match self {
            OscState::Outside => self,
            OscState::Escape => if byte == CLOSE_BRACKET {
                OscState::Start
            } else if byte < SPACE || byte >= DEL {
                self
            } else {
                OscState::Outside
            },
            _ => if byte == BEL {
                OscState::Outside
            } else if byte < SPACE {
                self
            } else if byte == SEMICOLON {
                OscState::Start
            } else {
                match self {
                    OscState::Start if byte == HASH => OscState::Colour(0),
                    OscState::Colour(n) if n < MAX_COLOUR => OscState::Colour(n + 1),
                    OscState::Colour(_) => OscState::TooLong,
                    OscState::TooLong => OscState::TooLong,
                    _ => OscState::Other,
                }
            },
        }
    }

    /// Takes in a run of bytes; gives them back without those that are too many
    /// in a colour.
    pub fn tame(&mut self, data: &[u8]) -> (kept: Vec<u8>)
        ensures
            kept@ == old(self).tamed(data@),
            *final(self) == old(self).after(old(self).tamed(data@)),
    {
        let mut kept: Vec<u8> = Vec::new();
        let mut i: usize = 0;
        assert(data@.take(0) =~= Seq::<u8>::empty());
        while i < data.len()
            invariant
                i <= data@.len(),
                kept@ == old(self).tamed(data@.take(i as int)),
                *self == old(self).after(kept@),
            decreases data@.len() - i,
        {
            proof {
                assert(data@.take(i + 1).drop_last() =~= data@.take(i as int));
                assert(data@.take(i + 1).last() == data@[i as int]);
                assert(kept@.push(data@[i as int]).drop_last() =~= kept@);
            }
            let next: OscState = self.advance(data[i]);
            if !matches!(next, OscState::TooLong) {
                kept.push(data[i]);
                *self = next;
            }
            i += 1;
        }
        assert(data@.take(i as int) =~= data@);
        kept
    }
}

/// A run of bytes can come in any number of pieces.
pub proof fn lemma_pieces(state: OscState, a: Seq<u8>, b: Seq<u8>)
    ensures
        state.after(a + b) == state.after(a).after(b),
        state.calm(a + b) <==> state.calm(a) && state.after(a).calm(b),
    decreases b.len(),
{
    if b.len() == 0 {
        assert(a + b =~= a);
    } else {
        lemma_pieces(state, a, b.drop_last());
        assert((a + b).drop_last() =~= a + b.drop_last());
        assert((a + b).last() == b.last());
    }
}

/// What is given back holds no colour that is too long, whatever came in.
pub proof fn law_tamed_is_calm(state: OscState, bytes: Seq<u8>)
    ensures
        state.calm(state.tamed(bytes)),
    decreases bytes.len(),
{
    if bytes.len() > 0 {
        let front = state.tamed(bytes.drop_last());
        law_tamed_is_calm(state, bytes.drop_last());
        assert(front.push(bytes.last()).drop_last() =~= front);
    }
}

/// Bytes without a colour that is too long are given back as they stand.
pub proof fn law_calm_is_kept(state: OscState, bytes: Seq<u8>)
    requires
        state.calm(bytes),
    ensures
        state.tamed(bytes) == bytes,
    decreases bytes.len(),
{
    if bytes.len() > 0 {
        law_calm_is_kept(state, bytes.drop_last());
        assert(bytes.drop_last().push(bytes.last()) =~= bytes);
    }
}

/// Outside a command, bytes without an escape character hold no colour.
pub proof fn law_plain_is_calm(bytes: Seq<u8>)
    requires
        !bytes.contains(ESC),
    ensures
        OscState::Outside.after(bytes) is Outside,
        OscState::Outside.calm(bytes),
    decreases bytes.len(),
{
    if bytes.len() > 0 {
        assert forall|i: int| 0 <= i < bytes.drop_last().len() implies bytes.drop_last()[i]
            != ESC by {
            assert(bytes.drop_last()[i] == bytes[i]);
        }
        law_plain_is_calm(bytes.drop_last());
        assert(bytes.last() == bytes[bytes.len() - 1]);
    }
}

/// Where the stream stands behind so many bytes of one parameter.
proof fn lemma_parameter(bytes: Seq<u8>)
    requires
        forall|i: int| 0 <= i < bytes.len() ==> #[trigger] bytes[i] >= 0x20 && bytes[i] != 0x3b,
    ensures
        OscState::Start.after(bytes) == if bytes.len() == 0 {
            OscState::Start
        } else if bytes[0] != 0x23 {
            OscState::Other
        } else if bytes.len() <= 23 {
            OscState::Colour((bytes.len() - 1) as u8)
        } else {
            OscState::TooLong
        },
    decreases bytes.len(),
{
    if bytes.len() > 0 {
        let front = bytes.drop_last();
        assert forall|i: int| 0 <= i < front.len() implies #[trigger] front[i] >= 0x20 && front[i]
            != 0x3b by {
            assert(front[i] == bytes[i]);
        }
        lemma_parameter(front);
        assert(bytes[bytes.len() - 1] >= 0x20);
        assert(front.len() > 0 ==> front[0] == bytes[0]);
    }
}

/// A parameter of a command is kept as it stands, unless it is a colour of more
/// than 22 bytes; of such a colour the first 22 are kept.
pub proof fn law_parameter_is_kept(bytes: Seq<u8>)
    requires
        forall|i: int| 0 <= i < bytes.len() ==> #[trigger] bytes[i] >= 0x20 && bytes[i] != 0x3b,
    ensures
        OscState::Start.tamed(bytes) == if bytes.len() > 23 && bytes[0] == 0x23 {
            bytes.take(23)
        } else {
            bytes
        },
    decreases bytes.len(),
{
    if bytes.len() > 0 {
        let front = bytes.drop_last();
        assert forall|i: int| 0 <= i < front.len() implies #[trigger] front[i] >= 0x20 && front[i]
            != 0x3b by {
            assert(front[i] == bytes[i]);
        }
        law_parameter_is_kept(front);
        let kept = OscState::Start.tamed(front);
        let longer = kept.push(bytes.last());
        assert(bytes[bytes.len() - 1] >= 0x20);
        assert forall|i: int| 0 <= i < longer.len() implies #[trigger] longer[i] >= 0x20
            && longer[i] != 0x3b by {
            if i < kept.len() {
                assert(longer[i] == bytes[i]);
            }
        }
        lemma_parameter(longer);
        assert(longer.drop_last() =~= kept);
        assert(longer[0] == bytes[0]);
        if bytes.len() > 23 && bytes[0] == 0x23 {
            assert(OscState::Start.tamed(bytes) =~= bytes.take(23));
        } else {
            assert(OscState::Start.tamed(bytes) =~= bytes);
        }
    }
}

/// A command starts behind escape and `]`, a parameter also behind `;`, and bell,
/// cancel, substitute and escape end it.
pub proof fn law_command_bounds(state: OscState)
    ensures
        state.after(seq![0x1bu8, 0x5d]) == OscState::Start,
        state.after(seq![0x1bu8]) == OscState::Escape,
        !(state is Outside) && !(state is Escape) ==> state.after(seq![0x3bu8])
            == OscState::Start && state.after(seq![0x07u8]) == OscState::Outside,
        state.after(seq![0x18u8]) == OscState::Outside,
        state.after(seq![0x1au8]) == OscState::Outside,
{
    let none = Seq::<u8>::empty();
    reveal_with_fuel(OscState::after, 3);
    assert(seq![0x1bu8, 0x5d].drop_last() =~= seq![0x1bu8]);
    assert(seq![0x1bu8].drop_last() =~= none);
    assert(seq![0x3bu8].drop_last() =~= none);
    assert(seq![0x07u8].drop_last() =~= none);
    assert(seq![0x18u8].drop_last() =~= none);
    assert(seq![0x1au8].drop_last() =~= none);
}

/// What is left out does not depend on how the stream is cut.
pub proof fn law_tamed_in_pieces(state: OscState, a: Seq<u8>, b: Seq<u8>)
    ensures
        state.tamed(a + b) == state.tamed(a) + state.after(state.tamed(a)).tamed(b),
    decreases b.len(),
{
    let kept = state.tamed(a);
    if b.len() == 0 {
        assert(a + b =~= a);
        assert(kept + state.after(kept).tamed(b) =~= kept);
    } else {
        law_tamed_in_pieces(state, a, b.drop_last());
        assert((a + b).drop_last() =~= a + b.drop_last());
        let more = state.after(kept).tamed(b.drop_last());
        lemma_pieces(state, kept, more);
        assert((kept + more).push(b.last()) =~= kept + more.push(b.last()));
    }
}

/// Outside a command only escape leads anywhere. Behind it, control characters
/// and bytes from delete on are passed over, and any other byte but `]` starts
/// another sequence. In a command, control characters that do not end it are
/// passed over.
pub proof fn law_passed_over(state: OscState, byte: u8)
    requires
        byte != 0x1b && byte != 0x18 && byte != 0x1a,
    ensures
        OscState::Outside.after(seq![byte]) == OscState::Outside,
        byte < 0x20 || byte >= 0x7f ==> OscState::Escape.after(seq![byte]) == OscState::Escape,
        0x20 <= byte < 0x7f && byte != 0x5d ==> OscState::Escape.after(seq![byte])
            == OscState::Outside,
        !(state is Outside) && !(state is Escape) && byte < 0x20 && byte != 0x07 ==> state.after(
            seq![byte],
        ) == state,
{
    reveal_with_fuel(OscState::after, 2);
    assert(seq![byte].drop_last() =~= Seq::<u8>::empty());
}

} // verus!
