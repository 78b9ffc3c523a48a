//! The local clock, and how its readings are written.

use vstd::prelude::*;
use vstd::string::*;
use chrono::Timelike;
use crate::text::{decimal, digit_char, push_char, push_decimal};

verus! {

/// A time of day.
#[derive(Clone, Copy, Debug)]
pub struct TimeOfDay {
    pub hour: u32,
    pub minute: u32,
    pub second: u32,
}

impl TimeOfDay {
    /// The hour is below 24, the minute and the second are below 60.
    pub open spec fn valid(&self) -> bool {
        self.hour < 24 && self.minute < 60 && self.second < 60
    }
}

/// `chrono::Local::now` and `DateTime::to_rfc3339`: the current local time as
/// text. Nothing is claimed of the text.
#[verifier::external_body]
pub(crate) fn timestamp_now() -> (stamp: String) {
    chrono::Local::now().to_rfc3339()
}

/// `chrono::Local::now` with `Timelike::hour`, `minute` and `second`: the
/// current local time of day. The hour is from 0 to 23, the minute and the
/// second from 0 to 59.
#[verifier::external_body]
pub(crate) fn local_time() -> (time: TimeOfDay)
    ensures
        time.valid(),
{
    let now = chrono::Local::now();
    TimeOfDay { hour: now.hour(), minute: now.minute(), second: now.second() }
}

/// `chrono::Local::now` and `DateTime::format` with `%Y-%m-%d`: the current
/// local date as text. Nothing is claimed of the text.
#[verifier::external_body]
pub(crate) fn local_date() -> (date: String) {
    chrono::Local::now().format("%Y-%m-%d").to_string()
}

/// A number in decimal digits, with a zero in front where it is below ten.
pub open spec fn two_digits(n: nat) -> Seq<char> {
    if n < 10 {
        seq!['0', digit_char(n)]
    } else {
        decimal(n)
    }
}

/// A time of day as `HH:MM:SS`.
pub open spec fn clock_text(time: TimeOfDay) -> Seq<char> {
    two_digits(time.hour as nat) + seq![':'] + two_digits(time.minute as nat) + seq![':']
        + two_digits(time.second as nat)
}

/// Appends a number in decimal digits, with a zero in front where it is
/// below ten.
fn push_two_digits(text: &mut String, n: u32)
    ensures
        final(text)@ == old(text)@ + two_digits(n as nat),
{
    if n < 10 {
        push_char(text, '0');
        push_char(text, (48u8 + (n as u8)) as char);
        assert(text@ == old(text)@ + two_digits(n as nat));
    } else {
        push_decimal(text, n as u64);
    }
}

/// Writes a time of day as `HH:MM:SS`.
pub fn format_time(time: TimeOfDay) -> (text: String)
    ensures
        text@ == clock_text(time),
{
    let mut text = String::new();
    push_two_digits(&mut text, time.hour);
    push_char(&mut text, ':');
    push_two_digits(&mut text, time.minute);
    push_char(&mut text, ':');
    push_two_digits(&mut text, time.second);
    assert(text@ == clock_text(time));
    text
}

} // verus!
