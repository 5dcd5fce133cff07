//! Local wall-clock time of day, with the `HH:MM:SS` rendering that is
//! stamped on every published sensor reading.

use vstd::prelude::*;

verus! {

/// A wall-clock time of day with one-second resolution.
#[derive(Clone, Copy, PartialEq, Eq, Structural, Debug)]
pub struct TimeOfDay {
    pub hour: u8,
    pub minute: u8,
    pub second: u8,
}

impl TimeOfDay {
    /// The fields form a valid time of day.
    pub open spec fn wf(self) -> bool {
        self.hour < 24 && self.minute < 60 && self.second < 60
    }
}

/// The character for one decimal digit.
pub open spec fn digit_char(d: int) -> char {
    if d == 0 {
        '0'
    } else if d == 1 {
        '1'
    } else if d == 2 {
        '2'
    } else if d == 3 {
        '3'
    } else if d == 4 {
        '4'
    } else if d == 5 {
        '5'
    } else if d == 6 {
        '6'
    } else if d == 7 {
        '7'
    } else if d == 8 {
        '8'
    } else {
        '9'
    }
}

/// Two-digit, zero-padded decimal rendering of `n`.
pub open spec fn two_digit_seq(n: int) -> Seq<char> {
    seq![digit_char(n / 10), digit_char(n % 10)]
}

/// The `HH:MM:SS` rendering of a time of day.
pub open spec fn time_of_day_seq(t: TimeOfDay) -> Seq<char> {
    two_digit_seq(t.hour as int) + seq![':'] + two_digit_seq(t.minute as int) + seq![':']
        + two_digit_seq(t.second as int)
}

/// The one-character string for a decimal digit.
fn digit_str(d: u8) -> (r: &'static str)
    requires
        d < 10,
    ensures
        r@ == seq![digit_char(d as int)],
{
    proof {
        reveal_strlit("0");
        reveal_strlit("1");
        reveal_strlit("2");
        reveal_strlit("3");
        reveal_strlit("4");
        reveal_strlit("5");
        reveal_strlit("6");
        reveal_strlit("7");
        reveal_strlit("8");
        reveal_strlit("9");
    }
    if d == 0 {
        "0"
    } else if d == 1 {
        "1"
    } else if d == 2 {
        "2"
    } else if d == 3 {
        "3"
    } else if d == 4 {
        "4"
    } else if d == 5 {
        "5"
    } else if d == 6 {
        "6"
    } else if d == 7 {
        "7"
    } else if d == 8 {
        "8"
    } else {
        "9"
    }
}

/// Appends the two-digit rendering of `n` to `out`.
fn push_two_digits(out: &mut String, n: u8)
    requires
        n < 100,
    ensures
        final(out)@ == old(out)@ + two_digit_seq(n as int),
{
    let tens: u8 = n / 10;
    let ones: u8 = n % 10;
    out.append(digit_str(tens));
    out.append(digit_str(ones));
}

/// Renders a time of day as `HH:MM:SS`.
pub fn format_time_of_day(t: TimeOfDay) -> (r: String)
    requires
        t.wf(),
    ensures
        r@ == time_of_day_seq(t),
{
    proof {
        reveal_strlit(":");
    }
    let mut out = String::new();
    push_two_digits(&mut out, t.hour);
    out.append(":");
    push_two_digits(&mut out, t.minute);
    out.append(":");
    push_two_digits(&mut out, t.second);
    out
}

/// Reads the local wall clock. Relies on chrono's `Local::now` and on the
/// `Timelike` accessors `hour`, `minute` and `second`, which chrono
/// documents as returning an hour from 0 to 23 and a minute and second
/// from 0 to 59.
#[verifier::external_body]
pub(crate) fn local_time_now() -> (t: TimeOfDay)
    ensures
        t.wf(),
{
    let now = chrono::Local::now();
    TimeOfDay {
        hour: chrono::Timelike::hour(&now) as u8,
        minute: chrono::Timelike::minute(&now) as u8,
        second: chrono::Timelike::second(&now) as u8,
    }
}

} // verus!
