//! How much is logged, and when.

use crate::ansi::{self, ZERO};
use crate::text;
use vstd::prelude::*;

verus! {

/// `.`, which separates seconds from milliseconds.
pub const DOT: u8 = 0x2e;

/// Seconds after which timestamps start over.
pub const TIMESTAMP_PERIOD: u64 = 100_000;

/// How much is logged.
#[derive(Debug, Clone, Copy, PartialEq, Eq, Structural)]
pub enum LogLevel {
    /// Nothing.
    Off,
    /// What went wrong.
    Error,
    /// What may go wrong.
    Warn,
    /// The course of events.
    Info,
    /// Details.
    Debug,
    /// Everything.
    Trace,
}

/// The level with this name.
pub open spec fn level_named(name: Seq<char>) -> Option<LogLevel> {
    if name == "error"@ {
        Some(LogLevel::Error)
    } else if name == "warn"@ {
        Some(LogLevel::Warn)
    } else if name == "info"@ {
        Some(LogLevel::Info)
    } else if name == "debug"@ {
        Some(LogLevel::Debug)
    } else if name == "trace"@ {
        Some(LogLevel::Trace)
    } else {
        None
    }
}

/// What a degree of verbosity logs.
pub open spec fn level_of(verbose: u8) -> LogLevel {
    match verbose {
        0 => LogLevel::Off,
        1 => LogLevel::Info,
        2 => LogLevel::Debug,
        _ => LogLevel::Trace,
    }
}

impl LogLevel {
    /// The level with this name.
    pub fn named(name: &str) -> (level: Option<LogLevel>)
        ensures
            level == level_named(name@),
    {
        if text::same(name, "error") {
            Some(LogLevel::Error)
        } else if text::same(name, "warn") {
            Some(LogLevel::Warn)
        } else if text::same(name, "info") {
            Some(LogLevel::Info)
        } else if text::same(name, "debug") {
            Some(LogLevel::Debug)
        } else if text::same(name, "trace") {
            Some(LogLevel::Trace)
        } else {
            None
        }
    }
}

/// What is logged: a level that is named overrides the degree of verbosity.
pub fn log_level(verbose: u8, name: Option<&str>) -> (level: LogLevel)
    ensures
        level == match name {
            Some(n) if level_named(n@) is Some => level_named(n@)->0,
            _ => level_of(verbose),
        },
{
    if let Some(n) = name {
        if let Some(level) = LogLevel::named(n) {
            return level;
        }
    }
    match verbose {
        0 => LogLevel::Off,
        1 => LogLevel::Info,
        2 => LogLevel::Debug,
        _ => LogLevel::Trace,
    }
}

/// The decimal digits of `n`, with leading zeros up to `width` digits.
pub open spec fn padded(n: nat, width: nat) -> Seq<u8> {
    let digits = ansi::decimal(n);
    if digits.len() < width {
        Seq::new((width - digits.len()) as nat, |i: int| ZERO) + digits
    } else {
        digits
    }
}

/// The time of day in a log: seconds, which start over every so often, and milliseconds.
pub fn chrono_lite(secs: u64, millis: u32) -> (stamp: Vec<u8>)
    ensures
        stamp@ == ansi::decimal((secs % TIMESTAMP_PERIOD) as nat) + seq![DOT] + padded(
            millis as nat,
            3,
        ),
{
    let mut stamp: Vec<u8> = Vec::new();
    ansi::push_decimal(&mut stamp, (secs % TIMESTAMP_PERIOD) as usize);
    stamp.push(DOT);
    if millis < 100 {
        stamp.push(ZERO);
    }
    if millis < 10 {
        stamp.push(ZERO);
    }
    ansi::push_decimal(&mut stamp, millis as usize);
    proof {
        reveal_with_fuel(ansi::decimal, 3);
        assert(stamp@ =~= ansi::decimal((secs % TIMESTAMP_PERIOD) as nat) + seq![DOT] + padded(
            millis as nat,
            3,
        ));
    }
    stamp
}

/// The levels have these names, and there are no others.
pub proof fn law_level_names(name: Seq<char>)
    ensures
        level_named("error"@) == Some(LogLevel::Error),
        level_named("warn"@) == Some(LogLevel::Warn),
        level_named("info"@) == Some(LogLevel::Info),
        level_named("debug"@) == Some(LogLevel::Debug),
        level_named("trace"@) == Some(LogLevel::Trace),
        level_named(name) is Some ==> name == "error"@ || name == "warn"@ || name == "info"@ || name
            == "debug"@ || name == "trace"@,
{
    reveal_strlit("error");
    reveal_strlit("warn");
    reveal_strlit("info");
    reveal_strlit("debug");
    reveal_strlit("trace");
    assert("error"@[0] == 'e' && "debug"@[0] == 'd' && "trace"@[0] == 't');
    assert("warn"@[0] == 'w' && "info"@[0] == 'i');
}

/// Without verbosity nothing is logged; one degree logs the course of events, two
/// log details, and any more log everything.
pub proof fn law_levels(verbose: u8)
    ensures
        level_of(0) == LogLevel::Off,
        level_of(1) == LogLevel::Info,
        level_of(2) == LogLevel::Debug,
        verbose > 2 ==> level_of(verbose) == LogLevel::Trace,
{
}

/// Padding puts zeros in front up to the width and changes no number.
pub proof fn law_padded(n: nat, width: nat)
    ensures
        padded(n, width).len() >= width,
        padded(n, width).len() == width || padded(n, width) == ansi::decimal(n),
        ansi::is_number(padded(n, width)),
        ansi::decimal_value(padded(n, width)) == n,
{
    ansi::law_decimal_is_number(n);
    ansi::law_decimal_round_trip(n);
    let digits = ansi::decimal(n);
    if digits.len() < width {
        let zeros = Seq::new((width - digits.len()) as nat, |i: int| ZERO);
        lemma_zeros_in_front(zeros, digits);
        assert forall|i: int| 0 <= i < (zeros + digits).len() implies 0x30
            <= #[trigger] (zeros + digits)[i] <= 0x39 by {
            if i >= zeros.len() {
                assert((zeros + digits)[i] == digits[i - zeros.len()]);
            }
        }
    }
}

/// Zeros in front change no number.
proof fn lemma_zeros_in_front(zeros: Seq<u8>, digits: Seq<u8>)
    requires
        forall|i: int| 0 <= i < zeros.len() ==> #[trigger] zeros[i] == ZERO,
    ensures
        ansi::decimal_value(zeros + digits) == ansi::decimal_value(digits),
    decreases digits.len(), zeros.len(),
{
    if digits.len() > 0 {
        lemma_zeros_in_front(zeros, digits.drop_last());
        assert((zeros + digits).drop_last() =~= zeros + digits.drop_last());
        assert((zeros + digits).last() == digits.last());
    } else if zeros.len() > 0 {
        lemma_zeros_in_front(zeros.drop_last(), digits);
        assert(zeros + digits =~= zeros);
        assert(zeros.drop_last() + digits =~= zeros.drop_last());
        assert(zeros.last() == zeros[zeros.len() - 1]);
    } else {
        assert(zeros + digits =~= digits);
    }
}

/// Stamps start over every hundred thousand seconds and have a full stop before
/// the milliseconds.
pub proof fn law_stamp_form()
    ensures
        TIMESTAMP_PERIOD == 100_000,
        DOT == 0x2e,
{
}

} // verus!
