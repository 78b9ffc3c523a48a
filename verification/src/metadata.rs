//! The audit log of a volume: one line for each collection that is created,
//! deleted, transferred away or received, in one file for each day under the
//! directory `logs` of the volume root.

use vstd::prelude::*;
use vstd::string::*;
use crate::clock::{clock_text, format_time, local_date, local_time, TimeOfDay};
use crate::text::push_char;

verus! {

/// What a line of the log records.
#[derive(Clone, Copy, Debug, PartialEq, Eq, Structural)]
pub enum Action {
    Create,
    Delete,
    Transfer,
    Receive,
}

impl Action {
    /// The letter that stands for the action in a line.
    pub open spec fn code_spec(self) -> char {
        match self {
            Action::Create => 'c',
            Action::Delete => 'd',
            Action::Transfer => 't',
            Action::Receive => 'r',
        }
    }

    /// The letter that stands for the action in a line.
    #[verifier::when_used_as_spec(code_spec)]
    pub fn code(self) -> (c: char)
        ensures
            c == self.code_spec(),
    {
        match self {
            Action::Create => 'c',
            Action::Delete => 'd',
            Action::Transfer => 't',
            Action::Receive => 'r',
        }
    }
}

/// A line to append to a log file: the volume root, the name of the file
/// under the directory `logs` of the root, and the line with its line feed.
#[derive(Debug)]
pub struct LogWrite {
    pub root: String,
    pub file: String,
    pub line: String,
}

/// The mathematical model of a line to append.
pub ghost struct LogWriteView {
    pub root: Seq<char>,
    pub file: Seq<char>,
    pub line: Seq<char>,
}

impl View for LogWrite {
    type V = LogWriteView;

    open spec fn view(&self) -> LogWriteView {
        LogWriteView { root: self.root@, file: self.file@, line: self.line@ }
    }
}

/// The name of the log file of a day.
pub open spec fn log_file_of(date: Seq<char>) -> Seq<char> {
    date + ".log"@
}

/// A line of the log: the time, the letter of the action, the subject and,
/// where there is a target, an arrow and the target; then a line feed.
pub open spec fn line_of(
    time: Seq<char>,
    action: Action,
    subject: Seq<char>,
    target: Option<Seq<char>>,
) -> Seq<char> {
    let head = time + seq![' ', action.code_spec(), ' '] + subject;
    match target {
        Some(t) => head + " -> "@ + t + seq!['\n'],
        None => head + seq!['\n'],
    }
}

/// The line to append for an action at a time of a day.
pub open spec fn log_write_of(
    root: Seq<char>,
    action: Action,
    subject: Seq<char>,
    target: Option<Seq<char>>,
    time: TimeOfDay,
    date: Seq<char>,
) -> LogWriteView {
    LogWriteView {
        root,
        file: log_file_of(date),
        line: line_of(clock_text(time), action, subject, target),
    }
}

/// The model of an optional text.
pub open spec fn text_view(text: Option<&str>) -> Option<Seq<char>> {
    match text {
        Some(t) => Some(t@),
        None => None,
    }
}

/// The line to append to the log of `volume_root` for an action at the time
/// `time` of the day `date`.
pub fn write_log(
    volume_root: &str,
    action: Action,
    a: &str,
    b: Option<&str>,
    time: TimeOfDay,
    date: &str,
) -> (write: LogWrite)
    ensures
        write@ == log_write_of(volume_root@, action, a@, text_view(b), time, date@),
{
    let mut line = format_time(time);
    push_char(&mut line, ' ');
    push_char(&mut line, action.code());
    push_char(&mut line, ' ');
    assert(line@ == clock_text(time) + seq![' ', action.code_spec(), ' ']);
    line.append(a);
    match b {
        Some(target) => {
            line.append(" -> ");
            line.append(target);
        },
        None => {},
    }
    push_char(&mut line, '\n');
    let write = LogWrite {
        root: volume_root.to_owned(),
        file: date.to_owned().concat(".log"),
        line,
    };
    assert(write@.line == line_of(clock_text(time), action, a@, text_view(b)));
    write
}

/// A line was made for the action at some time of some day.
pub open spec fn logged_now(
    write: LogWriteView,
    root: Seq<char>,
    action: Action,
    subject: Seq<char>,
    target: Option<Seq<char>>,
) -> bool {
    exists|time: TimeOfDay, date: Seq<char>|
        time.valid() && write == #[trigger] log_write_of(root, action, subject, target, time, date)
}

/// The line for an action now, by the local clock.
fn write_log_now(volume_root: &str, action: Action, a: &str, b: Option<&str>) -> (write: LogWrite)
    ensures
        logged_now(write@, volume_root@, action, a@, text_view(b)),
{
    let time = local_time();
    let date = local_date();
    let write = write_log(volume_root, action, a, b, time, date.as_str());
    assert(write@ == log_write_of(volume_root@, action, a@, text_view(b), time, date@));
    write
}

/// The line that records now that `id` was created.
pub fn create(volume_root: &str, id: &str) -> (write: LogWrite)
    ensures
        logged_now(write@, volume_root@, Action::Create, id@, None),
{
    write_log_now(volume_root, Action::Create, id, None)
}

/// The line that records now that `id` was deleted.
pub fn delete(volume_root: &str, id: &str) -> (write: LogWrite)
    ensures
        logged_now(write@, volume_root@, Action::Delete, id@, None),
{
    write_log_now(volume_root, Action::Delete, id, None)
}

/// The line that records now that `from` was transferred away to `to`.
pub fn transfer(volume_root: &str, from: &str, to: &str) -> (write: LogWrite)
    ensures
        logged_now(write@, volume_root@, Action::Transfer, from@, Some(to@)),
{
    write_log_now(volume_root, Action::Transfer, from, Some(to))
}

/// The line that records now that `from` was received at `to`.
pub fn receive(volume_root: &str, from: &str, to: &str) -> (write: LogWrite)
    ensures
        logged_now(write@, volume_root@, Action::Receive, from@, Some(to@)),
{
    write_log_now(volume_root, Action::Receive, from, Some(to))
}

} // verus!
