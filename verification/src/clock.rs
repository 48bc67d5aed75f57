use vstd::prelude::*;

verus! {

/// The earliest Unix time (in whole seconds) that chrono can hold as a UTC
/// date-time: the first second of year -262143.
pub const EARLIEST_TIMESTAMP: i64 = -8334601228800i64;

/// The latest Unix time (in whole seconds) that chrono can hold as a UTC
/// date-time: the last second of year 262142.
pub const LATEST_TIMESTAMP: i64 = 8210266876799i64;

/// A reading of the UTC clock: whole seconds since the Unix epoch and the
/// nanoseconds of the current second.
pub struct ClockReading {
    pub secs: i64,
    pub nanos: u32,
}

/// What the clock can read: a time chrono can hold, outside a leap second.
pub open spec fn is_clock_reading(r: ClockReading) -> bool {
    &&& EARLIEST_TIMESTAMP <= r.secs <= LATEST_TIMESTAMP
    &&& r.nanos < 1_000_000_000
}

/// Whether chrono can hold the Unix time `secs` as a UTC date-time:
/// `chrono::DateTime::<Utc>::from_timestamp(secs, 0).is_some()`. Its source
/// builds the date from `secs.div_euclid(86400)` days and accepts it exactly
/// when the year falls between -262143 and 262142; the contract states that
/// range in seconds.
#[verifier::external_body]
pub(crate) fn timestamp_in_range(secs: i64) -> (r: bool)
    ensures
        r == (EARLIEST_TIMESTAMP <= secs <= LATEST_TIMESTAMP),
{
    chrono::DateTime::<chrono::Utc>::from_timestamp(secs, 0).is_some()
}

/// `std::time::SystemTime::UNIX_EPOCH.elapsed()`: the time between the Unix
/// epoch and the current system time, as whole seconds and the nanoseconds
/// of the last second (`Duration::as_secs`, `Duration::subsec_nanos`). Its
/// documentation gives `Ok` with that span when the clock reads at or after
/// the epoch, and otherwise `Err` with how far before the epoch it reads;
/// `subsec_nanos` is always below one billion. Nothing else is stated: the
/// value depends on the clock.
#[verifier::external_body]
fn time_since_epoch() -> (r: Result<(u64, u32), (u64, u32)>)
    ensures
        match r {
            Ok((_, n)) => n < 1_000_000_000,
            Err((_, n)) => n < 1_000_000_000,
        },
{
    match std::time::SystemTime::UNIX_EPOCH.elapsed() {
        Ok(d) => Ok((d.as_secs(), d.subsec_nanos())),
        Err(e) => Err((e.duration().as_secs(), e.duration().subsec_nanos())),
    }
}

/// The clock reading for a span from the Unix epoch: `Ok` spans lie after the
/// epoch, `Err` spans before it, where a fraction of a second moves the
/// reading to the second before (so that the nanoseconds count forward), as
/// chrono reads a `SystemTime`. There is none when chrono cannot hold the
/// time.
pub open spec fn reading_of(t: Result<(u64, u32), (u64, u32)>) -> Option<ClockReading> {
    match t {
        Ok((s, n)) => if s <= LATEST_TIMESTAMP && n < 1_000_000_000 {
            Some(ClockReading { secs: s as i64, nanos: n })
        } else {
            None
        },
        Err((s, n)) => {
            let secs: int = if n == 0 { -s } else { -s - 1 };
            if EARLIEST_TIMESTAMP <= secs && n < 1_000_000_000 {
                Some(ClockReading { secs: secs as i64, nanos: if n == 0 { 0 } else { (1_000_000_000 - n) as u32 } })
            } else {
                None
            }
        },
    }
}

/// The clock reading for a span from the Unix epoch (see `reading_of`).
pub fn clock_reading_from(t: Result<(u64, u32), (u64, u32)>) -> (r: Option<ClockReading>)
    ensures
        r == reading_of(t),
        r matches Some(c) ==> is_clock_reading(c),
{
    match t {
        Ok((s, n)) => {
            if s <= 8210266876799u64 && n < 1_000_000_000 {
                Some(ClockReading { secs: s as i64, nanos: n })
            } else {
                None
            }
        },
        Err((s, n)) => {
            if s > 8334601228800u64 || n >= 1_000_000_000 || (s == 8334601228800u64 && n > 0) {
                None
            } else if n == 0 {
                Some(ClockReading { secs: -(s as i64), nanos: 0 })
            } else {
                Some(ClockReading { secs: -(s as i64) - 1, nanos: 1_000_000_000 - n })
            }
        },
    }
}

/// Reads the UTC clock. A clock that reads beyond the times chrono can hold
/// (past the year 262142, or before the year -262143) is read as the nearest
/// time chrono can hold.
pub(crate) fn read_clock() -> (r: ClockReading)
    ensures
        is_clock_reading(r),
{
    let t = time_since_epoch();
    match clock_reading_from(t) {
        Some(c) => c,
        None => match t {
            Ok(_) => ClockReading { secs: LATEST_TIMESTAMP, nanos: 0 },
            Err(_) => ClockReading { secs: EARLIEST_TIMESTAMP, nanos: 0 },
        },
    }
}

/// The whole seconds from the Unix time `created` (on a second boundary) to
/// the clock reading `now`, rounded toward zero, as chrono's
/// `(now - created).num_seconds()` gives them.
pub open spec fn elapsed_seconds(now: ClockReading, created: int) -> int {
    let d = now.secs - created;
    if d < 0 && now.nanos > 0 { d + 1 } else { d }
}

/// The whole seconds from the Unix time `created` to the clock reading `now`,
/// rounded toward zero.
pub fn whole_seconds_since(now: &ClockReading, created: i64) -> (r: i64)
    requires
        is_clock_reading(*now),
        EARLIEST_TIMESTAMP <= created <= LATEST_TIMESTAMP,
    ensures
        r == elapsed_seconds(*now, created as int),
{
    let d = now.secs - created;
    if d < 0 && now.nanos > 0 { d + 1 } else { d }
}

} // verus!
