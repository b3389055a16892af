//! The escape sequences written to the local terminal.

use vstd::prelude::*;

verus! {

/// Escape, which starts every control sequence.
pub const ESC: u8 = 0x1b;

/// Backspace.
pub const BS: u8 = 0x08;

/// Delete, which most keyboards send for the backspace key.
pub const DEL: u8 = 0x7f;

/// The first byte that is not a control character; also the blank.
pub const SPACE: u8 = 0x20;

/// `[`, which follows escape in a control sequence.
pub const BRACKET: u8 = 0x5b;

/// `;`, which separates the numbers of a control sequence.
pub const SEMICOLON: u8 = 0x3b;

/// `H`, the final byte of a cursor position sequence.
pub const UPPER_H: u8 = 0x48;

/// `m`, the final byte of a text attribute sequence.
pub const LOWER_M: u8 = 0x6d;

/// `0`, the first of the ten digits.
pub const ZERO: u8 = 0x30;

/// `2`.
pub const TWO: u8 = 0x32;

/// `4`.
pub const FOUR: u8 = 0x34;

/// The ASCII decimal digits of `n`, most significant first, without leading zeros.
pub open spec fn decimal(n: nat) -> Seq<u8>
    decreases n,
{
    if n < 10 {
        seq![(ZERO + n) as u8]
    } else {
        decimal(n / 10).push((ZERO + n % 10) as u8)
    }
}

/// The number that a string of ASCII digits denotes.
pub open spec fn decimal_value(digits: Seq<u8>) -> nat
    decreases digits.len(),
{
    if digits.len() == 0 {
        0
    } else {
        (10 * decimal_value(digits.drop_last()) + (digits.last() - ZERO)) as nat
    }
}

/// The sequence that moves the cursor to the zero-based position (`row`, `col`).
pub open spec fn move_to(row: nat, col: nat) -> Seq<u8> {
    seq![ESC, BRACKET] + decimal(row + 1) + seq![SEMICOLON] + decimal(col + 1) + seq![UPPER_H]
}

/// The sequence that turns underlining on.
pub open spec fn underline_on() -> Seq<u8> {
    seq![ESC, BRACKET, FOUR, LOWER_M]
}

/// The sequence that turns underlining off.
pub open spec fn underline_off() -> Seq<u8> {
    seq![ESC, BRACKET, TWO, FOUR, LOWER_M]
}

/// The text of a number determines the number.
pub proof fn law_decimal_round_trip(n: nat)
    ensures
        decimal_value(decimal(n)) == n,
    decreases n,
{
    reveal_with_fuel(decimal_value, 2);
    if n < 10 {
        assert(seq![(ZERO + n) as u8].drop_last() =~= Seq::<u8>::empty());
    } else {
        law_decimal_round_trip(n / 10);
        let digits = decimal(n / 10).push((ZERO + n % 10) as u8);
        assert(digits.drop_last() =~= decimal(n / 10));
    }
}

/// Appends the decimal digits of `n`.
pub fn push_decimal(out: &mut Vec<u8>, n: usize)
    ensures
        final(out)@ == old(out)@ + decimal(n as nat),
    decreases n,
{
    if n >= 10 {
        push_decimal(out, n / 10);
    }
    let digit: u8 = (n % 10) as u8;
    out.push(ZERO + digit);
    assert(out@ =~= old(out)@ + decimal(n as nat));
}

/// Appends the sequence that moves the cursor to the zero-based position (`row`, `col`).
pub fn push_move_to(out: &mut Vec<u8>, row: usize, col: usize)
    requires
        row < usize::MAX,
        col < usize::MAX,
    ensures
        final(out)@ == old(out)@ + move_to(row as nat, col as nat),
{
    out.push(ESC);
    out.push(BRACKET);
    push_decimal(out, row + 1);
    out.push(SEMICOLON);
    push_decimal(out, col + 1);
    out.push(UPPER_H);
    assert(out@ =~= old(out)@ + move_to(row as nat, col as nat));
}

/// Appends the sequence that turns underlining on.
pub fn push_underline_on(out: &mut Vec<u8>)
    ensures
        final(out)@ == old(out)@ + underline_on(),
{
    out.push(ESC);
    out.push(BRACKET);
    out.push(FOUR);
    out.push(LOWER_M);
    assert(out@ =~= old(out)@ + underline_on());
}

/// Appends the sequence that turns underlining off.
pub fn push_underline_off(out: &mut Vec<u8>)
    ensures
        final(out)@ == old(out)@ + underline_off(),
{
    out.push(ESC);
    out.push(BRACKET);
    out.push(TWO);
    out.push(FOUR);
    out.push(LOWER_M);
    assert(out@ =~= old(out)@ + underline_off());
}

/// ASCII decimal digits, one at least.
pub open spec fn is_number(bytes: Seq<u8>) -> bool {
    bytes.len() > 0 && forall|i: int| 0 <= i < bytes.len() ==> 0x30 <= #[trigger] bytes[i] <= 0x39
}

/// Escape, `[`, two texts with `;` between them, and `H`.
pub open spec fn position_sequence(row: Seq<u8>, col: Seq<u8>) -> Seq<u8> {
    seq![0x1bu8, 0x5b] + row + seq![0x3bu8] + col + seq![0x48u8]
}

/// A terminal that reads `bytes` first puts its cursor at the zero-based position
/// (`row`, `col`) and then reads `rest`. The sequence that does so holds both as
/// numbers that count from one.
pub open spec fn goes_to(bytes: Seq<u8>, row: nat, col: nat, rest: Seq<u8>) -> bool {
    exists|r: Seq<u8>, c: Seq<u8>|
        {
            &&& bytes == #[trigger] position_sequence(r, c) + rest
            &&& is_number(r) && decimal_value(r) == row + 1
            &&& is_number(c) && decimal_value(c) == col + 1
        }
}

/// A number is written in digits.
pub proof fn law_decimal_is_number(n: nat)
    ensures
        is_number(decimal(n)),
    decreases n,
{
    if n >= 10 {
        law_decimal_is_number(n / 10);
        let front = decimal(n / 10);
        assert forall|i: int| 0 <= i < decimal(n).len() implies 0x30 <= #[trigger] decimal(n)[i]
            <= 0x39 by {
            if i < front.len() {
                assert(decimal(n)[i] == front[i]);
            }
        }
    }
}

/// Ten times as much and a digit more is written with that digit at the end, and
/// a single digit stands for itself: no leading zeros.
pub proof fn law_decimal_grows(n: nat, digit: nat)
    requires
        digit < 10,
    ensures
        decimal(digit) == seq![(0x30 + digit) as u8],
        n > 0 ==> decimal(10 * n + digit) == decimal(n).push((0x30 + digit) as u8),
{
    assert((10 * n + digit) / 10 == n);
    assert((10 * n + digit) % 10 == digit);
}

/// The sequence that moves the cursor is read as a move to that very position,
/// and what follows it is read afterwards.
pub proof fn law_move_to(row: nat, col: nat, rest: Seq<u8>)
    ensures
        goes_to(move_to(row, col) + rest, row, col, rest),
{
    let r = decimal(row + 1);
    let c = decimal(col + 1);
    law_decimal_is_number(row + 1);
    law_decimal_is_number(col + 1);
    law_decimal_round_trip(row + 1);
    law_decimal_round_trip(col + 1);
    assert(move_to(row, col) =~= position_sequence(r, c));
}

/// Where only a move is written, a terminal goes there and reads no more.
pub proof fn law_bare_move_to(row: nat, col: nat)
    ensures
        goes_to(move_to(row, col), row, col, Seq::empty()),
{
    law_move_to(row, col, Seq::empty());
    assert(move_to(row, col) + Seq::<u8>::empty() =~= move_to(row, col));
}

/// Underlining is attribute 4, and 24 takes it back.
pub proof fn law_underline()
    ensures
        underline_on() == seq![0x1bu8, 0x5b, 0x34, 0x6d],
        underline_off() == seq![0x1bu8, 0x5b, 0x32, 0x34, 0x6d],
{
}

} // verus!
