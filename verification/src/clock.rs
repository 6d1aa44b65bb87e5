//! The game clock: when play began, and how the time played is shown.

use std::time::{Duration, Instant};
use vstd::prelude::*;

verus! {

/// `std::time::Instant`: a reading of the monotonic clock, opaque here.
#[verifier::external_type_specification]
#[verifier::external_body]
pub struct ExInstant(Instant);

/// `Instant::now` reads the clock. Nothing is claimed of the reading.
pub assume_specification[ Instant::now ]() -> (t: Instant)
;

/// `Instant::elapsed` gives the time that has passed since the reading.
/// Nothing is claimed of its length.
pub assume_specification[ Instant::elapsed ](t: &Instant) -> (d: Duration)
;

/// `Duration::as_secs` gives the whole seconds of a duration. Nothing is
/// claimed of their number.
pub assume_specification[ Duration::as_secs ](d: &Duration) -> (secs: u64)
;

/// The character of one decimal digit.
pub open spec fn digit(d: int) -> char {
    if d == 0 {
        '0'
    } else if d == 1 {
        '1'
    } else if d == 2 {
        '2'
    } else if d == 3 {
        '3'
    } else if d == 4 {
        '4'
    } else if d == 5 {
        '5'
    } else if d == 6 {
        '6'
    } else if d == 7 {
        '7'
    } else if d == 8 {
        '8'
    } else {
        '9'
    }
}

/// The decimal digits of `n`, without leading zeros.
pub open spec fn decimal(n: nat) -> Seq<char>
    decreases n,
{
    if n < 10 {
        seq![digit(n as int)]
    } else {
        decimal(n / 10).push(digit((n % 10) as int))
    }
}

/// The minutes of the clock: they start again from zero after an hour.
pub open spec fn clock_minutes(secs: u64) -> nat {
    ((secs / 60) % 60) as nat
}

/// The seconds of the clock within the minute.
pub open spec fn clock_seconds(secs: u64) -> nat {
    (secs % 60) as nat
}

/// The clock for `secs` seconds of play: the minutes, a colon, and the
/// seconds in two digits.
pub open spec fn clock_face(secs: u64) -> Seq<char> {
    decimal(clock_minutes(secs)) + seq![':'] + seq![
        digit(clock_seconds(secs) as int / 10),
        digit(clock_seconds(secs) as int % 10),
    ]
}

/// The text of one decimal digit.
fn digit_text(d: u64) -> (text: &'static str)
    requires
        d < 10,
    ensures
        text@ == seq![digit(d as int)],
{
    proof {
        reveal_strlit("0");
        reveal_strlit("1");
        reveal_strlit("2");
        reveal_strlit("3");
        reveal_strlit("4");
        reveal_strlit("5");
        reveal_strlit("6");
        reveal_strlit("7");
        reveal_strlit("8");
        reveal_strlit("9");
    }
    let text = match d {
        0 => "0",
        1 => "1",
        2 => "2",
        3 => "3",
        4 => "4",
        5 => "5",
        6 => "6",
        7 => "7",
        8 => "8",
        _ => "9",
    };
    assert(text@ =~= seq![digit(d as int)]);
    text
}

/// The decimal digits of `n`.
pub fn decimal_text(n: u64) -> (text: String)
    ensures
        text@ == decimal(n as nat),
    decreases n,
{
    if n < 10 {
        digit_text(n).to_string()
    } else {
        let mut text = decimal_text(n / 10);
        text.append(digit_text(n % 10));
        assert(text@ =~= decimal(n as nat));
        text
    }
}

/// The clock that a front end shows after `secs` seconds of play, such as
/// `0:07` or `12:34`.
pub fn clock_text(secs: u64) -> (text: String)
    ensures
        text@ == clock_face(secs),
{
    let minutes = (secs / 60) % 60;
    let seconds = secs % 60;
    let mut text = String::new();
    if minutes >= 10 {
        text.append(digit_text(minutes / 10));
    }
    text.append(digit_text(minutes % 10));
    proof {
        reveal_strlit(":");
        reveal_with_fuel(decimal, 2);
        assert(text@ =~= decimal(minutes as nat));
    }
    text.append(":");
    text.append(digit_text(seconds / 10));
    text.append(digit_text(seconds % 10));
    proof {
        assert(text@ =~= clock_face(secs));
    }
    text
}

} // verus!
