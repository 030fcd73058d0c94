//! Log lines: `<ISO-8601 timestamp> <LEVEL> <message>`, the timestamp in UTC
//! with millisecond precision and a `Z` suffix.
use vstd::prelude::*;

use crate::runtime::audit::{is_utc_millis_timestamp, utc_now_millis};

verus! {

/// The text of a log line.
pub open spec fn log_line(ts: Seq<char>, level: Seq<char>, msg: Seq<char>) -> Seq<char> {
    ts + " "@ + level + " "@ + msg
}

/// Compose a log line from a timestamp, a level and a message.
pub fn compose_log_line(ts: &str, level: &str, msg: &str) -> (r: String)
    ensures
        r@ == log_line(ts@, level@, msg@),
{
    let mut r = String::from_str(ts);
    r.append(" ");
    r.append(level);
    r.append(" ");
    r.append(msg);
    r
}

/// Format a single log line stamped with the current time, a UTC
/// timestamp in RFC 3339 with milliseconds and a `Z` suffix.
pub fn format_log_line(level: &str, msg: &str) -> (r: String)
    ensures
        exists|ts: Seq<char>|
            is_utc_millis_timestamp(ts) && r@ == #[trigger] log_line(ts, level@, msg@),
{
    let ts = utc_now_millis();
    compose_log_line(ts.as_str(), level, msg)
}

} // verus!
