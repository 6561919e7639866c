//! Bounded buffering of forwarded log records and message assembly.
use crate::text::{ascii_lower, chars_of, spec_trim, str_eq, to_ascii_lower, trim_bounds};
use std::collections::VecDeque;
use std::time::Duration;
use vstd::prelude::*;
use vstd::string::*;

verus! {

/// One log line waiting to be forwarded to the service.
#[derive(Clone, Debug, PartialEq)]
pub struct LogRecord {
    pub ts_ms: u64,
    pub level: u8,
    pub target: String,
    pub message: String,
}

/// The buffer after appending `rec` to `buf` with capacity `cap`: the oldest
/// record is dropped first when the buffer is already full.
pub open spec fn enqueued(buf: Seq<LogRecord>, cap: nat, rec: LogRecord) -> Seq<LogRecord> {
    if buf.len() >= cap && buf.len() > 0 {
        buf.drop_first().push(rec)
    } else {
        buf.push(rec)
    }
}

/// The buffer after appending each of `recs` in turn.
pub open spec fn enqueued_all(buf: Seq<LogRecord>, cap: nat, recs: Seq<LogRecord>) -> Seq<LogRecord>
    decreases recs.len(),
{
    if recs.len() == 0 {
        buf
    } else {
        enqueued(enqueued_all(buf, cap, recs.drop_last()), cap, recs.last())
    }
}

/// However many records arrive, a buffer within its capacity stays within
/// it, and its newest record is the last one that arrived.
pub proof fn law_forward_buffer_stays_bounded(buf: Seq<LogRecord>, cap: nat, recs: Seq<LogRecord>)
    requires
        cap >= 1,
        buf.len() <= cap,
    ensures
        enqueued_all(buf, cap, recs).len() <= cap,
        recs.len() > 0 ==> enqueued_all(buf, cap, recs).last() == recs.last(),
    decreases recs.len(),
{
    if recs.len() > 0 {
        law_forward_buffer_stays_bounded(buf, cap, recs.drop_last());
    }
}

/// Only the oldest records are ever dropped: after any run of appends, a
/// buffer that started within its capacity holds exactly the newest
/// records of all that it held and received, as many as fit.
pub proof fn law_forward_buffer_keeps_newest(buf: Seq<LogRecord>, cap: nat, recs: Seq<LogRecord>)
    requires
        cap >= 1,
        buf.len() <= cap,
    ensures
        ({
            let all = buf + recs;
            let n = all.len();
            let k = if n <= cap {
                n
            } else {
                cap
            };
            enqueued_all(buf, cap, recs) == all.subrange(n - k, n as int)
        }),
    decreases recs.len(),
{
    let all = buf + recs;
    let n = all.len();
    if recs.len() == 0 {
        assert(all =~= buf);
        assert(all.subrange(0, n as int) =~= all);
    } else {
        let rest = recs.drop_last();
        law_forward_buffer_keeps_newest(buf, cap, rest);
        let prev_all = buf + rest;
        assert(prev_all =~= all.drop_last());
        let m = prev_all.len();
        let k0 = if m <= cap {
            m
        } else {
            cap
        };
        let prev = enqueued_all(buf, cap, rest);
        assert(prev == prev_all.subrange(m - k0, m as int));
        assert(all[n - 1] == recs.last());
        if k0 == cap {
            assert(prev.drop_first().push(recs.last()) =~= all.subrange(n - cap, n as int));
        } else {
            assert(prev.push(recs.last()) =~= all.subrange(0, n as int));
        }
    }
}

/// Appends `rec`, first dropping the oldest record when `buf` holds `cap` or more.
pub fn enqueue_drop_oldest(buf: &mut VecDeque<LogRecord>, cap: usize, rec: LogRecord)
    requires
        old(buf)@.len() < usize::MAX,
    ensures
        final(buf)@ == enqueued(old(buf)@, cap as nat, rec),
        cap >= 1 && old(buf)@.len() <= cap ==> final(buf)@.len() <= cap,
        final(buf)@.last() == rec,
{
    if buf.len() >= cap {
        let _ = buf.pop_front();
    }
    buf.push_back(rec);
}

/// The text of a log event being assembled: its `message` field, and the
/// other fields as ` name=value` pairs in the order they came.
#[derive(Clone, Debug, Default)]
pub struct MessageVisitor {
    pub message: String,
    pub extra: String,
}

impl MessageVisitor {
    /// Records one field of the event, rendered as `rendered`: the field
    /// named `message` is written to the message, any other is appended to
    /// the extra text as ` name=rendered`.
    pub fn record_field(&mut self, name: &str, rendered: &str)
        ensures
            name@ == "message"@ ==> final(self).message@ == old(self).message@ + rendered@
                && final(self).extra@ == old(self).extra@,
            name@ != "message"@ ==> final(self).message@ == old(self).message@
                && final(self).extra@ == old(self).extra@ + " "@ + name@ + "="@ + rendered@,
    {
        if str_eq(name, "message") {
            self.message.append(rendered);
        } else {
            self.extra.append(" ");
            self.extra.append(name);
            self.extra.append("=");
            self.extra.append(rendered);
        }
    }

    /// The event's text: the message followed by the extra fields.
    pub fn into_message(self) -> (s: String)
        ensures
            s@ == self.message@ + self.extra@,
    {
        if self.extra.as_str().is_empty() {
            assert(self.message@ + self.extra@ =~= self.message@);
            self.message
        } else {
            self.message.concat(self.extra.as_str())
        }
    }
}

/// A log level, most severe first.
#[derive(Clone, Copy, Debug, PartialEq, Eq, Structural)]
pub enum LogLevel {
    Error,
    Warn,
    Info,
    Debug,
    Trace,
}

/// How verbose a level is: errors least, traces most.
pub open spec fn verbosity(l: LogLevel) -> nat {
    match l {
        LogLevel::Error => 0,
        LogLevel::Warn => 1,
        LogLevel::Info => 2,
        LogLevel::Debug => 3,
        LogLevel::Trace => 4,
    }
}

fn verbosity_of(l: LogLevel) -> (v: u8)
    ensures
        v as nat == verbosity(l),
{
    match l {
        LogLevel::Error => 0,
        LogLevel::Warn => 1,
        LogLevel::Info => 2,
        LogLevel::Debug => 3,
        LogLevel::Trace => 4,
    }
}

/// Whether an event at `level` is forwarded under `threshold`: when it is
/// no more verbose than the threshold.
pub fn is_forwarded(level: LogLevel, threshold: LogLevel) -> (r: bool)
    ensures
        r == (verbosity(level) <= verbosity(threshold)),
{
    verbosity_of(level) <= verbosity_of(threshold)
}

/// The level the log forwarder passes on from: the value of its setting,
/// trimmed and lower-cased, names a level; anything else, or no setting,
/// is `Info`.
pub open spec fn spec_forward_threshold(setting: Option<Seq<char>>) -> LogLevel {
    match setting {
        None => LogLevel::Info,
        Some(v) => {
            let w = spec_trim(v).map_values(|c: char| ascii_lower(c));
            if w == "error"@ {
                LogLevel::Error
            } else if w == "warn"@ {
                LogLevel::Warn
            } else if w == "info"@ {
                LogLevel::Info
            } else if w == "debug"@ {
                LogLevel::Debug
            } else if w == "trace"@ {
                LogLevel::Trace
            } else {
                LogLevel::Info
            }
        },
    }
}

fn trimmed_lower(v: &str) -> (s: String)
    ensures
        s@ == spec_trim(v@).map_values(|c: char| ascii_lower(c)),
{
    let cs = chars_of(v);
    let n = cs.len();
    let (a, b) = trim_bounds(&cs, 0, n);
    assert(cs@.subrange(0, n as int) =~= v@);
    let mut out = String::new();
    let mut i: usize = a;
    while i < b
        invariant
            a <= i <= b <= n,
            n == cs@.len(),
            out@ == cs@.subrange(a as int, i as int).map_values(|c: char| ascii_lower(c)),
        decreases b - i,
    {
        let lc = to_ascii_lower(cs[i]);
        out.push(lc);
        assert(cs@.subrange(a as int, i + 1).map_values(|c: char| ascii_lower(c)) =~= cs@.subrange(
            a as int,
            i as int,
        ).map_values(|c: char| ascii_lower(c)).push(lc));
        i = i + 1;
    }
    out
}

/// The level the log forwarder passes on from, given the value of its
/// setting (see `spec_forward_threshold`).
pub fn forward_threshold(setting: Option<&str>) -> (level: LogLevel)
    ensures
        level == spec_forward_threshold(
            match setting {
                Some(v) => Some(v@),
                None => None,
            },
        ),
{
    match setting {
        None => LogLevel::Info,
        Some(v) => {
            let w = trimmed_lower(v);
            let w = w.as_str();
            if str_eq(w, "error") {
                LogLevel::Error
            } else if str_eq(w, "warn") {
                LogLevel::Warn
            } else if str_eq(w, "info") {
                LogLevel::Info
            } else if str_eq(w, "debug") {
                LogLevel::Debug
            } else if str_eq(w, "trace") {
                LogLevel::Trace
            } else {
                LogLevel::Info
            }
        },
    }
}

/// `SystemTime::elapsed` on the Unix epoch: the time since the epoch, or
/// `None` where the clock reads earlier. Nothing is stated of the value: it
/// is the time.
#[verifier::external_body]
fn time_since_epoch() -> Option<Duration> {
    std::time::UNIX_EPOCH.elapsed().ok()
}

/// `Duration::as_millis`: the whole milliseconds of a duration. Nothing is
/// stated, as a duration is opaque here.
#[verifier::external_body]
fn whole_millis(d: &Duration) -> u128 {
    d.as_millis()
}

/// The timestamp of a record from the whole milliseconds since the Unix
/// epoch (`None` where the clock reads before the epoch): the milliseconds
/// cut to 64 bits, or 0.
pub fn epoch_ms(elapsed_ms: Option<u128>) -> (r: u64)
    ensures
        r == match elapsed_ms {
            Some(ms) => ms as u64,
            None => 0,
        },
{
    match elapsed_ms {
        Some(ms) => {
            #[verifier::truncate]
            (ms as u64)
        },
        None => 0,
    }
}

/// Milliseconds since the Unix epoch by the system clock, cut to 64 bits;
/// 0 where the clock reads before the epoch (see `epoch_ms`). The reading
/// itself is the time, so nothing more is stated of the result.
pub fn now_ms() -> u64 {
    let elapsed_ms = match time_since_epoch() {
        Some(d) => Some(whole_millis(&d)),
        None => None,
    };
    epoch_ms(elapsed_ms)
}

} // verus!
