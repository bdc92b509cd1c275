//! The time of a commit: read from the system clock, and written as RFC
//! 2822 names it in UTC.
//!
//! A clock may stand before 1970 or past the year 9999, where RFC 2822 has
//! no name for the time. Such a reading is no fault of the caller: it comes
//! out as no stamp, never as a panic.

use vstd::prelude::*;

verus! {

/// `std::time::SystemTime`, a point on the system clock.
#[verifier::external_type_specification]
#[verifier::external_body]
pub struct ExSystemTime(std::time::SystemTime);

/// `SystemTime::now` of the standard library: the system clock as it
/// stands. Nothing is claimed of the point it hands out.
#[verifier::external_body]
fn now() -> (point: std::time::SystemTime) {
    std::time::SystemTime::now()
}

/// `SystemTime::duration_since` of the standard library, asked for the
/// time from the Unix epoch to `point`; nothing where `point` lies before
/// the epoch. Nothing is claimed of the duration it hands out.
#[verifier::external_body]
fn since_epoch(point: &std::time::SystemTime) -> (elapsed: Option<std::time::Duration>) {
    point.duration_since(std::time::UNIX_EPOCH).ok()
}

/// `Duration::as_secs` of the standard library: the whole seconds of the
/// duration. Nothing is claimed of the number, the duration being opaque.
#[verifier::external_body]
fn whole_seconds(elapsed: &std::time::Duration) -> (seconds: u64) {
    elapsed.as_secs()
}

/// The seconds from the Unix epoch to now by the system clock; nothing
/// while the clock stands before the epoch.
pub fn read_clock() -> (clock: Option<u64>) {
    let point = now();
    match since_epoch(&point) {
        Some(elapsed) => Some(whole_seconds(&elapsed)),
        None => None,
    }
}

/// The last second that RFC 2822 can name: the end of the year 9999 in UTC.
pub const LAST_SECOND: u64 = 253_402_300_799;

/// Whether RFC 2822 can name the time `seconds` after the Unix epoch, in
/// UTC: it lies in the years 1970 to 9999.
pub open spec fn stampable(seconds: int) -> bool {
    0 <= seconds <= LAST_SECOND
}

/// What holds of every stamp: it is not empty and fits in the one header
/// line of a commit message.
pub open spec fn is_stamp(text: Seq<char>) -> bool {
    text.len() > 0 && !text.contains('\n')
}

/// The RFC 2822 text of the time `seconds` after the Unix epoch, in UTC,
/// as chrono writes it.
pub uninterp spec fn rfc2822_utc(seconds: int) -> Seq<char>;

/// chrono's `DateTime::from_timestamp` and, on the time it hands out,
/// `DateTime::to_rfc2822`. The text depends on the seconds alone; it is not
/// empty and holds no line feed. `to_rfc2822` panics on a year outside 0 to
/// 9999, which the precondition keeps out; `from_timestamp` hands out a
/// time for every such second.
#[verifier::external_body]
fn render_rfc2822(seconds: i64) -> (stamp: String)
    requires
        stampable(seconds as int),
    ensures
        stamp@ == rfc2822_utc(seconds as int),
        is_stamp(stamp@),
{
    match chrono::DateTime::from_timestamp(seconds, 0) {
        Some(time) => time.to_rfc2822(),
        None => String::new(),
    }
}

/// What a clock reading is stamped with: its RFC 2822 text, where it has
/// one.
pub open spec fn stamp_of(clock: Option<u64>) -> Option<Seq<char>> {
    match clock {
        Some(seconds) => if stampable(seconds as int) {
            Some(rfc2822_utc(seconds as int))
        } else {
            None
        },
        None => None,
    }
}

/// The stamp for a clock reading: the RFC 2822 text of the time in UTC, or
/// nothing where the clock stands before 1970 or past the year 9999.
pub fn timestamp(clock: Option<u64>) -> (r: Option<String>)
    ensures
        match r {
            Some(stamp) => stamp_of(clock) == Some(stamp@) && is_stamp(stamp@),
            None => stamp_of(clock) is None,
        },
{
    match clock {
        Some(seconds) => if seconds <= LAST_SECOND {
            Some(render_rfc2822(seconds as i64))
        } else {
            None
        },
        None => None,
    }
}

} // verus!
