//! Wall-clock stamps for console, compiler output and the log file.

use vstd::prelude::*;
use crate::text::{decimal, decimal_padded, format_decimal, format_padded, owned};

verus! {

/// The system clock type, carried through opaquely.
#[verifier::external_type_specification]
#[verifier::external_body]
pub struct ExSystemTime(std::time::SystemTime);

/// `std::time::SystemTime::now`: the current system time. Nothing is
/// claimed of the value.
#[verifier::external_body]
fn system_now() -> std::time::SystemTime {
    std::time::SystemTime::now()
}

/// `std::time::SystemTime::duration_since` with `UNIX_EPOCH`: the time
/// elapsed since the epoch, `None` when `t` lies before it. Nothing is
/// claimed of the value.
#[verifier::external_body]
fn since_unix_epoch(t: &std::time::SystemTime) -> Option<std::time::Duration> {
    t.duration_since(std::time::UNIX_EPOCH).ok()
}

/// `std::time::Duration::as_secs`: the whole seconds of `d`. Nothing is
/// claimed of the value (a duration is opaque here).
#[verifier::external_body]
fn duration_secs(d: &std::time::Duration) -> u64 {
    d.as_secs()
}

/// `std::time::Duration::subsec_millis`: the fractional part of `d` in whole
/// milliseconds, which the documentation bounds below one thousand.
#[verifier::external_body]
fn duration_subsec_millis(d: &std::time::Duration) -> (r: u32)
    ensures
        r < 1000,
{
    d.subsec_millis()
}

/// Seconds and milliseconds elapsed since the Unix epoch (zero when the
/// clock reads earlier than the epoch).
pub fn unix_now() -> (r: (u64, u32))
    ensures
        r.1 < 1000,
{
    let now = system_now();
    match since_unix_epoch(&now) {
        Some(d) => (duration_secs(&d), duration_subsec_millis(&d)),
        None => (0, 0),
    }
}

/// `HH:MM:SS` of the time of day `secs` seconds after midnight of day 0.
pub open spec fn hms_text(secs: u64) -> Seq<char> {
    let t = secs % 86400;
    decimal_padded((t / 3600) as nat, 2) + ":"@ + decimal_padded(((t % 3600) / 60) as nat, 2) + ":"@
        + decimal_padded((t % 60) as nat, 2)
}

/// `HH:MM:SS` of the time of day `secs` seconds after the epoch.
pub fn hms(secs: u64) -> (r: String)
    ensures
        r@ == hms_text(secs),
{
    let t = secs % 86400;
    let mut r = format_padded(t / 3600, 2);
    r.append(":");
    let m = format_padded((t % 3600) / 60, 2);
    r.append(m.as_str());
    r.append(":");
    let s = format_padded(t % 60, 2);
    r.append(s.as_str());
    r
}

/// "12:45:10" wall-clock stamp used by console and compile output lines.
pub fn clock_hms() -> (r: String)
    ensures
        exists|secs: u64| r@ == hms_text(secs),
{
    let (secs, _ms) = unix_now();
    hms(secs)
}

/// `HH:MM:SS.mmm` stamp of the log file.
pub open spec fn stamp_text(secs: u64, ms: u32) -> Seq<char> {
    decimal_padded(((secs / 3600) % 24) as nat, 2) + ":"@ + decimal_padded(((secs / 60) % 60) as nat, 2) + ":"@
        + decimal_padded((secs % 60) as nat, 2) + "."@ + decimal_padded(ms as nat, 3)
}

/// `HH:MM:SS.mmm` stamp of `secs` seconds and `ms` milliseconds.
pub fn stamp_of(secs: u64, ms: u32) -> (r: String)
    ensures
        r@ == stamp_text(secs, ms),
{
    let mut r = format_padded((secs / 3600) % 24, 2);
    r.append(":");
    let m = format_padded((secs / 60) % 60, 2);
    r.append(m.as_str());
    r.append(":");
    let s = format_padded(secs % 60, 2);
    r.append(s.as_str());
    r.append(".");
    let f = format_padded(ms as u64, 3);
    r.append(f.as_str());
    r
}

/// The log file stamp of the current time.
pub fn stamp() -> (r: String)
    ensures
        exists|secs: u64, ms: u32| ms < 1000 && r@ == stamp_text(secs, ms),
{
    let (secs, ms) = unix_now();
    stamp_of(secs, ms)
}

/// One log file line: `[<stamp> #<seq, 5 digits>] <level>: <message>`.
pub open spec fn log_line_text(stamp: Seq<char>, seq: u64, level: Seq<char>, message: Seq<char>) -> Seq<char> {
    "["@ + stamp + " #"@ + decimal_padded(seq as nat, 5) + "] "@ + level + ": "@ + message
}

/// One log file line (see [`log_line_text`]).
pub fn log_line(stamp: &str, seq: u64, level: &str, message: &str) -> (r: String)
    ensures
        r@ == log_line_text(stamp@, seq, level@, message@),
{
    let mut r = owned("[");
    r.append(stamp);
    r.append(" #");
    let n = format_padded(seq, 5);
    r.append(n.as_str());
    r.append("] ");
    r.append(level);
    r.append(": ");
    r.append(message);
    r
}

/// `unix time <secs>` of the current time.
pub fn chronoish() -> (r: String)
    ensures
        exists|secs: u64| r@ == "unix time "@ + decimal(secs as nat),
{
    let (secs, _ms) = unix_now();
    let mut r = owned("unix time ");
    let d = format_decimal(secs);
    r.append(d.as_str());
    r
}

} // verus!
