//! Audit events: one JSON line per event in `runs/<run-id>/audit.jsonl`.
//! The events are built here; writing them is the runner's job.
use vstd::prelude::*;

use crate::strs::{all_digits, digit_value, is_ascii_digit};

verus! {

/// An audit log write failed; the message says why.
#[derive(Debug)]
pub struct AuditError(pub String);

/// All events share `ts` and `run_id`.  Variant-specific fields are inlined.
#[derive(Debug, Clone)]
pub enum AuditEvent {
    ScriptStart { ts: String, run_id: String, script_path: String, args: Vec<String> },
    ExecStart { ts: String, run_id: String, binary: String, argv: Vec<String> },
    ExecEnd {
        ts: String,
        run_id: String,
        binary: String,
        exit_code: i32,
        duration_ms: u64,
        stdout_bytes: usize,
        stderr_bytes: usize,
    },
    ExecError { ts: String, run_id: String, binary: String, kind: String, limit_ms: Option<u64> },
    ScriptLog { ts: String, run_id: String, level: String, msg: String },
    ScriptEnd {
        ts: String,
        run_id: String,
        exit_status: String,
        duration_ms: u64,
        exec_count: u32,
    },
}

/// The value of the two decimal digits at `s[i]` and `s[i + 1]`.
pub open spec fn two_digit_value(s: Seq<char>, i: int) -> int {
    digit_value(s[i]) * 10 + digit_value(s[i + 1])
}

/// `s[i]` and `s[i + 1]` are decimal digits.
pub open spec fn two_digits_at(s: Seq<char>, i: int) -> bool {
    is_ascii_digit(s[i]) && is_ascii_digit(s[i + 1])
}

/// The year of an RFC 3339 timestamp: four digits, or, for a year outside
/// 0..=9999, a sign followed by at least four digits.
pub open spec fn year_text(y: Seq<char>) -> bool {
    ||| y.len() == 4 && all_digits(y)
    ||| y.len() >= 5 && (y[0] == '+' || y[0] == '-') && all_digits(y.drop_first())
}

/// What follows the year: `-MM-DDTHH:MM:SS.mmmZ`, with a month of 1 to 12,
/// a day of 1 to 31, an hour up to 23, a minute up to 59 and a second up to
/// 60 (a leap second).
pub open spec fn clock_text(t: Seq<char>) -> bool {
    &&& t.len() == 20
    &&& t[0] == '-' && two_digits_at(t, 1) && 1 <= two_digit_value(t, 1) <= 12
    &&& t[3] == '-' && two_digits_at(t, 4) && 1 <= two_digit_value(t, 4) <= 31
    &&& t[6] == 'T' && two_digits_at(t, 7) && two_digit_value(t, 7) <= 23
    &&& t[9] == ':' && two_digits_at(t, 10) && two_digit_value(t, 10) <= 59
    &&& t[12] == ':' && two_digits_at(t, 13) && two_digit_value(t, 13) <= 60
    &&& t[15] == '.' && is_ascii_digit(t[16]) && is_ascii_digit(t[17]) && is_ascii_digit(t[18])
    &&& t[19] == 'Z'
}

/// A UTC timestamp in RFC 3339 with millisecond precision and a `Z` suffix,
/// such as `2024-05-01T12:34:56.789Z`.
pub open spec fn is_utc_millis_timestamp(s: Seq<char>) -> bool {
    &&& s.len() >= 24
    &&& year_text(s.subrange(0, s.len() - 20))
    &&& clock_text(s.subrange(s.len() - 20, s.len() as int))
}

/// `SystemTime::now().duration_since(UNIX_EPOCH)`: how far the clock stands
/// from the Unix epoch, as whole seconds and nanoseconds, `Ok` at or after the
/// epoch and `Err` before it.  The reading depends on the clock; only that
/// the nanoseconds are below one billion (`Duration::subsec_nanos`) is stated.
#[verifier::external_body]
fn clock_since_epoch() -> (r: Result<(u64, u32), (u64, u32)>)
    ensures
        valid_reading(r),
{
    match std::time::SystemTime::now().duration_since(std::time::UNIX_EPOCH) {
        Ok(d) => Ok((d.as_secs(), d.subsec_nanos())),
        Err(e) => Err((e.duration().as_secs(), e.duration().subsec_nanos())),
    }
}

/// The RFC 3339 text with milliseconds and a `Z` suffix that chrono gives
/// for the instant `secs` seconds and `nanos` nanoseconds after the Unix
/// epoch, or nothing when chrono cannot represent that instant.
pub uninterp spec fn chrono_utc_millis(secs: int, nanos: int) -> Option<Seq<char>>;

/// `DateTime::<Utc>::from_timestamp(secs, nanos)`, then
/// `to_rfc3339_opts(SecondsFormat::Millis, true)` on the instant.  The two
/// calls share one body because Verus refuses to declare `DateTime<Tz>` (its
/// `TimeZone` bound).  The result is named `chrono_utc_millis`.  Stated
/// besides: `from_timestamp` is `None` only outside chrono's range or for an
/// invalid `nanos`, and its range spans the years 0 to 9999; the text has the
/// form chrono's `write_rfc3339` writes: the year as four digits (or,
/// outside 0..=9999, signed with at least four digits), then two-digit
/// month, day, hour, minute and second, three digits of milliseconds, and
/// `Z` for the zero offset.
#[verifier::external_body]
fn utc_millis_text(secs: i64, nanos: u32) -> (r: Option<String>)
    ensures
        match r {
            Some(t) => chrono_utc_millis(secs as int, nanos as int) == Some(t@),
            None => chrono_utc_millis(secs as int, nanos as int) is None,
        },
        r matches Some(t) ==> is_utc_millis_timestamp(t@),
        -62167219200 <= secs <= 253402300799 && nanos < 1_000_000_000 ==> r is Some,
{
    chrono::DateTime::<chrono::Utc>::from_timestamp(secs, nanos).map(
        |d| d.to_rfc3339_opts(chrono::SecondsFormat::Millis, true),
    )
}

fn epoch_timestamp() -> (r: String)
    ensures
        r@ == epoch_text(),
        is_utc_millis_timestamp(r@),
{
    let r = String::from_str("1970-01-01T00:00:00.000Z");
    proof {
        reveal_strlit("1970-01-01T00:00:00.000Z");
        let t = r@.subrange(4, 24);
        assert(two_digit_value(t, 1) == 1);
        assert(two_digit_value(t, 4) == 1);
        assert(two_digit_value(t, 7) == 0);
        assert(two_digit_value(t, 10) == 0);
        assert(two_digit_value(t, 13) == 0);
        assert(all_digits(r@.subrange(0, 4)));
    }
    r
}

/// The instant of a clock reading as signed seconds and nanoseconds after
/// the Unix epoch: a reading before the epoch is a negative offset with the
/// nanoseconds kept non-negative; nothing when the seconds do not fit an
/// `i64`, or, before the epoch, the nanoseconds exceed one second.
pub open spec fn signed_instant(reading: Result<(u64, u32), (u64, u32)>) -> Option<(int, int)> {
    match reading {
        Ok((s, n)) => if s > 9223372036854775807u64 {
            None
        } else {
            Some((s as int, n as int))
        },
        Err((s, n)) => if s > 9223372036854775807u64 || n > 1_000_000_000u32 {
            None
        } else if n == 0 {
            Some((-(s as int), 0))
        } else {
            Some((-(s as int) - 1, 1_000_000_000 - n))
        },
    }
}

/// The Unix epoch as a timestamp.
pub open spec fn epoch_text() -> Seq<char> {
    "1970-01-01T00:00:00.000Z"@
}

/// The timestamp of a clock reading: chrono's text for its instant, or the
/// Unix epoch when chrono cannot represent the instant.
pub open spec fn spec_timestamp_at(reading: Result<(u64, u32), (u64, u32)>) -> Seq<char> {
    match signed_instant(reading) {
        None => epoch_text(),
        Some((s, n)) => match chrono_utc_millis(s, n) {
            Some(t) => t,
            None => epoch_text(),
        },
    }
}

/// A clock reading as `clock_since_epoch` gives it: the nanoseconds are
/// below one billion.
pub open spec fn valid_reading(reading: Result<(u64, u32), (u64, u32)>) -> bool {
    match reading {
        Ok((_, n)) => n < 1_000_000_000,
        Err((_, n)) => n < 1_000_000_000,
    }
}

/// The timestamp for a clock reading: `Ok((secs, nanos))` at or after the
/// Unix epoch, `Err((secs, nanos))` before it.
pub fn timestamp_at(reading: Result<(u64, u32), (u64, u32)>) -> (t: String)
    ensures
        t@ == spec_timestamp_at(reading),
        is_utc_millis_timestamp(t@),
{
    let (secs, nanos): (i64, u32) = match reading {
        Ok((s, n)) => {
            if s > 9223372036854775807u64 {
                return epoch_timestamp();
            }
            (s as i64, n)
        },
        Err((s, n)) => {
            if s > 9223372036854775807u64 || n > 1_000_000_000u32 {
                return epoch_timestamp();
            }
            if n == 0 {
                (-(s as i64), 0)
            } else {
                (-(s as i64) - 1, 1_000_000_000 - n)
            }
        },
    };
    match utc_millis_text(secs, nanos) {
        Some(t) => t,
        None => epoch_timestamp(),
    }
}

/// The current UTC time in RFC 3339 with millisecond precision and a `Z`
/// suffix: the timestamp of the clock's reading.
pub(crate) fn utc_now_millis() -> (r: String)
    ensures
        exists|reading: Result<(u64, u32), (u64, u32)>|
            valid_reading(reading) && r@ == #[trigger] spec_timestamp_at(reading),
        is_utc_millis_timestamp(r@),
{
    let reading = clock_since_epoch();
    timestamp_at(reading)
}

impl AuditEvent {
    /// Returns the current time as a UTC timestamp in RFC 3339 with
    /// millisecond precision and a `Z` suffix: the timestamp
    /// (`timestamp_at`) of the clock's reading at the call.
    pub fn now_ts() -> (ts: String)
        ensures
            exists|reading: Result<(u64, u32), (u64, u32)>|
                valid_reading(reading) && ts@ == #[trigger] spec_timestamp_at(reading),
            is_utc_millis_timestamp(ts@),
    {
        utc_now_millis()
    }

    /// The timestamp of any event.
    pub open spec fn spec_ts(self) -> Seq<char> {
        match self {
            AuditEvent::ScriptStart { ts, .. } => ts@,
            AuditEvent::ExecStart { ts, .. } => ts@,
            AuditEvent::ExecEnd { ts, .. } => ts@,
            AuditEvent::ExecError { ts, .. } => ts@,
            AuditEvent::ScriptLog { ts, .. } => ts@,
            AuditEvent::ScriptEnd { ts, .. } => ts@,
        }
    }

    /// The run id of any event.
    pub open spec fn spec_run_id(self) -> Seq<char> {
        match self {
            AuditEvent::ScriptStart { run_id, .. } => run_id@,
            AuditEvent::ExecStart { run_id, .. } => run_id@,
            AuditEvent::ExecEnd { run_id, .. } => run_id@,
            AuditEvent::ExecError { run_id, .. } => run_id@,
            AuditEvent::ScriptLog { run_id, .. } => run_id@,
            AuditEvent::ScriptEnd { run_id, .. } => run_id@,
        }
    }

    pub fn script_start(run_id: &str, script_path: String, args: Vec<String>) -> (e: Self)
        ensures
            e matches AuditEvent::ScriptStart { run_id: r, script_path: p, args: a, .. } && r@
                == run_id@ && p == script_path && a == args,
            is_utc_millis_timestamp(e.spec_ts()),
    {
        AuditEvent::ScriptStart {
            ts: Self::now_ts(),
            run_id: String::from_str(run_id),
            script_path,
            args,
        }
    }

    pub fn exec_start(run_id: &str, binary: String, argv: Vec<String>) -> (e: Self)
        ensures
            e matches AuditEvent::ExecStart { run_id: r, binary: b, argv: a, .. } && r@ == run_id@
                && b == binary && a == argv,
            is_utc_millis_timestamp(e.spec_ts()),
    {
        AuditEvent::ExecStart {
            ts: Self::now_ts(),
            run_id: String::from_str(run_id),
            binary,
            argv,
        }
    }

    pub fn exec_end(
        run_id: &str,
        binary: String,
        exit_code: i32,
        duration_ms: u64,
        stdout_bytes: usize,
        stderr_bytes: usize,
    ) -> (e: Self)
        ensures
            e matches AuditEvent::ExecEnd {
                run_id: r,
                binary: b,
                exit_code: c,
                duration_ms: d,
                stdout_bytes: o,
                stderr_bytes: x,
                ..
            } && r@ == run_id@ && b == binary && c == exit_code && d == duration_ms && o
                == stdout_bytes && x == stderr_bytes,
            is_utc_millis_timestamp(e.spec_ts()),
    {
        AuditEvent::ExecEnd {
            ts: Self::now_ts(),
            run_id: String::from_str(run_id),
            binary,
            exit_code,
            duration_ms,
            stdout_bytes,
            stderr_bytes,
        }
    }

    pub fn exec_error(run_id: &str, binary: String, kind: String, limit_ms: Option<u64>) -> (e:
        Self)
        ensures
            e matches AuditEvent::ExecError { run_id: r, binary: b, kind: k, limit_ms: l, .. }
                && r@ == run_id@ && b == binary && k == kind && l == limit_ms,
            is_utc_millis_timestamp(e.spec_ts()),
    {
        AuditEvent::ExecError {
            ts: Self::now_ts(),
            run_id: String::from_str(run_id),
            binary,
            kind,
            limit_ms,
        }
    }

    pub fn script_log(run_id: &str, level: String, msg: String) -> (e: Self)
        ensures
            e matches AuditEvent::ScriptLog { run_id: r, level: l, msg: m, .. } && r@ == run_id@
                && l == level && m == msg,
            is_utc_millis_timestamp(e.spec_ts()),
    {
        AuditEvent::ScriptLog { ts: Self::now_ts(), run_id: String::from_str(run_id), level, msg }
    }

    pub fn script_end(run_id: &str, exit_status: String, duration_ms: u64, exec_count: u32) -> (e:
        Self)
        ensures
            e matches AuditEvent::ScriptEnd {
                run_id: r,
                exit_status: s,
                duration_ms: d,
                exec_count: c,
                ..
            } && r@ == run_id@ && s == exit_status && d == duration_ms && c == exec_count,
            is_utc_millis_timestamp(e.spec_ts()),
    {
        AuditEvent::ScriptEnd {
            ts: Self::now_ts(),
            run_id: String::from_str(run_id),
            exit_status,
            duration_ms,
            exec_count,
        }
    }
}

} // verus!
