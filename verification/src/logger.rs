//! The lines of the console log: the time of day, a symbol, who speaks, the
//! message, and the time since the line before.

use vstd::prelude::*;
use vstd::string::*;
use crate::clock::{clock_text, format_time, TimeOfDay};
use crate::text::{decimal, has_prefix, push_char, push_decimal, starts_with};

verus! {

/// A colour of the console.
#[derive(Clone, Copy, Debug, PartialEq, Eq, Structural)]
pub enum Tint {
    Green,
    Yellow,
    Cyan,
}

/// A piece of a line, with the colour in which it is printed.
#[derive(Debug)]
pub struct Segment {
    pub text: String,
    pub tint: Option<Tint>,
}

impl View for Segment {
    type V = (Seq<char>, Option<Tint>);

    open spec fn view(&self) -> (Seq<char>, Option<Tint>) {
        (self.text@, self.tint)
    }
}

/// The state of the log: when the last line was written, in milliseconds on
/// a clock that never runs backwards.
#[derive(Clone, Copy, Debug)]
pub struct Logger {
    pub last: u64,
}

/// A span of time, in the largest unit that it fills: milliseconds under a
/// second, seconds under a minute, minutes under an hour, else hours, of
/// which no more than 999 are shown.
pub open spec fn duration_text(ms: nat) -> Seq<char> {
    if ms < 1000 {
        decimal(ms) + "ms"@
    } else if ms < 60_000 {
        decimal(ms / 1000) + "s"@
    } else if ms < 3_600_000 {
        decimal(ms / 60_000) + "m"@
    } else if ms / 3_600_000 > 999 {
        "999h"@
    } else {
        decimal(ms / 3_600_000) + "h"@
    }
}

/// Who speaks in a line: a key that begins with `client` is the client, in
/// yellow; one that begins with `server` is the server, in cyan; any other
/// key stands for itself, without a colour.
pub open spec fn role_of(identity_key: Seq<char>) -> (Seq<char>, Option<Tint>) {
    if starts_with(identity_key, "client"@) {
        ("Client"@, Some(Tint::Yellow))
    } else if starts_with(identity_key, "server"@) {
        ("Server"@, Some(Tint::Cyan))
    } else {
        (identity_key, None)
    }
}

/// The time since the line before, never negative.
pub open spec fn elapsed(last: u64, now: u64) -> nat {
    if now >= last {
        (now - last) as nat
    } else {
        0
    }
}

/// The pieces of a line: the time in green, the symbol between blanks, the
/// role in its colour, the message after a blank, the time since the line
/// before in yellow after a blank and a plus, and a line feed.
pub open spec fn line_segments(
    identity_key: Seq<char>,
    symbol: Seq<char>,
    msg: Seq<char>,
    time: TimeOfDay,
    since: nat,
) -> Seq<(Seq<char>, Option<Tint>)> {
    seq![
        (clock_text(time), Some(Tint::Green)),
        (" "@ + symbol + " "@, None),
        role_of(identity_key),
        (" "@ + msg, None),
        (" +"@ + duration_text(since), Some(Tint::Yellow)),
        ("\n"@, None),
    ]
}

/// Starts the log at the time `now`.
pub fn init_logger(now: u64) -> (logger: Logger)
    ensures
        logger.last == now,
{
    Logger { last: now }
}

/// Writes the time of day of a line.
pub fn get_timestamp_str(time: TimeOfDay) -> (text: String)
    ensures
        text@ == clock_text(time),
{
    format_time(time)
}

/// Writes a span of time in the largest unit that it fills.
pub fn format_duration(ms: u64) -> (text: String)
    ensures
        text@ == duration_text(ms as nat),
{
    let mut text = String::new();
    if ms < 1000 {
        push_decimal(&mut text, ms);
        text.append("ms");
    } else if ms < 60_000 {
        push_decimal(&mut text, ms / 1000);
        text.append("s");
    } else if ms < 3_600_000 {
        push_decimal(&mut text, ms / 60_000);
        text.append("m");
    } else {
        let hours: u64 = ms / 3_600_000;
        if hours > 999 {
            text.append("999h");
        } else {
            push_decimal(&mut text, hours);
            text.append("h");
        }
    }
    text
}

/// Writes the time since the line before, with a plus in front, and takes
/// `now` as the time of the last line.
pub fn get_delta_str_val(logger: &mut Logger, now: u64) -> (text: String)
    ensures
        text@ == "+"@ + duration_text(elapsed(old(logger).last, now)),
        final(logger).last == now,
{
    let since: u64 = if now >= logger.last {
        now - logger.last
    } else {
        0
    };
    logger.last = now;
    "+".to_owned().concat(format_duration(since).as_str())
}

/// Who speaks in a line, and in which colour.
pub fn get_role_display_info(identity_key: &str) -> (role: (String, Option<Tint>))
    ensures
        (role.0@, role.1) == role_of(identity_key@),
{
    if has_prefix(identity_key, "client") {
        ("Client".to_owned(), Some(Tint::Yellow))
    } else if has_prefix(identity_key, "server") {
        ("Server".to_owned(), Some(Tint::Cyan))
    } else {
        (identity_key.to_owned(), None)
    }
}

/// The pieces of the line that `identity_key` speaks at the time of day
/// `time`, at `now` on the clock of the log.
pub fn log(
    logger: &mut Logger,
    identity_key: &str,
    symbol: &str,
    msg: &str,
    time: TimeOfDay,
    now: u64,
) -> (line: Vec<Segment>)
    ensures
        line@.map_values(|s: Segment| s@) == line_segments(
            identity_key@,
            symbol@,
            msg@,
            time,
            elapsed(old(logger).last, now),
        ),
        final(logger).last == now,
{
    let timestamp = get_timestamp_str(time);
    let delta = get_delta_str_val(logger, now);
    let (role_text, role_tint) = get_role_display_info(identity_key);
    let mut line: Vec<Segment> = Vec::new();
    line.push(Segment { text: timestamp, tint: Some(Tint::Green) });
    line.push(Segment { text: " ".to_owned().concat(symbol).concat(" "), tint: None });
    line.push(Segment { text: role_text, tint: role_tint });
    line.push(Segment { text: " ".to_owned().concat(msg), tint: None });
    line.push(Segment { text: " ".to_owned().concat(delta.as_str()), tint: Some(Tint::Yellow) });
    line.push(Segment { text: "\n".to_owned(), tint: None });
    proof {
        let since = elapsed(old(logger).last, now);
        assert(" "@ + ("+"@ + duration_text(since)) == " +"@ + duration_text(since)) by {
            reveal_strlit(" ");
            reveal_strlit("+");
            reveal_strlit(" +");
            assert(" "@ + "+"@ =~= " +"@);
            assert(" "@ + ("+"@ + duration_text(since)) =~= (" "@ + "+"@) + duration_text(since));
        }
        assert(line@.map_values(|s: Segment| s@) =~= line_segments(
            identity_key@,
            symbol@,
            msg@,
            time,
            since,
        ));
    }
    line
}

/// A line that reports a success, under the symbol `+`.
pub fn good(logger: &mut Logger, identity: &str, msg: &str, time: TimeOfDay, now: u64) -> (line:
    Vec<Segment>)
    ensures
        line@.map_values(|s: Segment| s@) == line_segments(
            identity@,
            "+"@,
            msg@,
            time,
            elapsed(old(logger).last, now),
        ),
        final(logger).last == now,
{
    log(logger, identity, "+", msg, time, now)
}

/// A line that informs, under the symbol `-`.
pub fn info(logger: &mut Logger, identity: &str, msg: &str, time: TimeOfDay, now: u64) -> (line:
    Vec<Segment>)
    ensures
        line@.map_values(|s: Segment| s@) == line_segments(
            identity@,
            "-"@,
            msg@,
            time,
            elapsed(old(logger).last, now),
        ),
        final(logger).last == now,
{
    log(logger, identity, "-", msg, time, now)
}

/// A line that warns, under the symbol `!`.
pub fn warn(logger: &mut Logger, identity: &str, msg: &str, time: TimeOfDay, now: u64) -> (line:
    Vec<Segment>)
    ensures
        line@.map_values(|s: Segment| s@) == line_segments(
            identity@,
            "!"@,
            msg@,
            time,
            elapsed(old(logger).last, now),
        ),
        final(logger).last == now,
{
    log(logger, identity, "!", msg, time, now)
}

/// A line that asks for an action, under the symbol `>`.
pub fn action(logger: &mut Logger, identity: &str, msg: &str, time: TimeOfDay, now: u64) -> (line:
    Vec<Segment>)
    ensures
        line@.map_values(|s: Segment| s@) == line_segments(
            identity@,
            ">"@,
            msg@,
            time,
            elapsed(old(logger).last, now),
        ),
        final(logger).last == now,
{
    log(logger, identity, ">", msg, time, now)
}


/// A line of the plain log: the time of day, the symbol and the message,
/// with a blank between them.
pub open spec fn plain_line_text(time: TimeOfDay, symbol: char, msg: Seq<char>) -> Seq<char> {
    clock_text(time) + seq![' ', symbol, ' '] + msg
}

/// Writes a line of the plain log.
pub fn plain_line(time: TimeOfDay, symbol: char, msg: &str) -> (line: String)
    ensures
        line@ == plain_line_text(time, symbol, msg@),
{
    let mut line = format_time(time);
    push_char(&mut line, ' ');
    push_char(&mut line, symbol);
    push_char(&mut line, ' ');
    assert(line@ == clock_text(time) + seq![' ', symbol, ' ']);
    line.append(msg);
    line
}

} // verus!
