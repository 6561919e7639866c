//! Crash records appended to the log when the shell panics.
use crate::decimal::{decimal_chars, push_decimal_str};
use vstd::prelude::*;
use vstd::string::*;

verus! {

/// The text of a crash record.
pub open spec fn spec_crash_record(
    ts: Seq<char>,
    thread: Seq<char>,
    location: Seq<char>,
    message: Seq<char>,
    backtrace: Seq<char>,
) -> Seq<char> {
    "["@ + ts + "] PANIC thread="@ + thread + " at "@ + location + "\n"@ + message + "\n"@
        + backtrace + "\n"@
}

/// A crash record: `[ts] PANIC thread=T at L`, then the message, then the
/// backtrace, each on its own line.
pub fn format_crash_record(
    ts: &str,
    thread: &str,
    location: &str,
    message: &str,
    backtrace: &str,
) -> (s: String)
    ensures
        s@ == spec_crash_record(ts@, thread@, location@, message@, backtrace@),
{
    let mut s = "[".to_owned();
    s.append(ts);
    s.append("] PANIC thread=");
    s.append(thread);
    s.append(" at ");
    s.append(location);
    s.append("\n");
    s.append(message);
    s.append("\n");
    s.append(backtrace);
    s.append("\n");
    s
}

/// The location of a panic as `file:line:column`.
pub open spec fn spec_location(file: Seq<char>, line: u32, column: u32) -> Seq<char> {
    file + ":"@ + decimal_chars(line as nat) + ":"@ + decimal_chars(column as nat)
}

/// A crash record from what the panic hook could read: the thread's name,
/// where the panic happened and its message, each with the placeholder the
/// record uses when it is missing.
pub fn crash_record_from_parts(
    ts: &str,
    thread: Option<&str>,
    location: Option<(&str, u32, u32)>,
    message: Option<&str>,
    backtrace: &str,
) -> (s: String)
    ensures
        s@ == spec_crash_record(
            ts@,
            match thread {
                Some(t) => t@,
                None => "<unnamed>"@,
            },
            match location {
                Some((f, l, c)) => spec_location(f@, l, c),
                None => "<unknown location>"@,
            },
            match message {
                Some(m) => m@,
                None => "<non-string panic payload>"@,
            },
            backtrace@,
        ),
{
    let thread = match thread {
        Some(t) => t,
        None => "<unnamed>",
    };
    let message = match message {
        Some(m) => m,
        None => "<non-string panic payload>",
    };
    let location = match location {
        Some((f, l, c)) => {
            let mut s = f.to_owned();
            s.append(":");
            push_decimal_str(&mut s, l as u64);
            s.append(":");
            push_decimal_str(&mut s, c as u64);
            s
        },
        None => "<unknown location>".to_owned(),
    };
    format_crash_record(ts, thread, location.as_str(), message, backtrace)
}

} // verus!
