//! Points in time and what the scanner reads from them: how long ago one was,
//! and how it is written.
use vstd::prelude::*;

verus! {

/// The first second that a point in time can lie in, counted from 1970 in UTC.
pub const MIN_SECS: i64 = -8_334_601_228_800;

/// The last second that a point in time can lie in.
pub const MAX_SECS: i64 = 8_210_266_876_799;

/// How a point in time is shown and stored with a scan.
pub const DATE_TIME: &'static str = "%Y-%m-%d %H:%M:%S";

/// How a point in time stands in the name of a history file.
pub const FILE_STAMP: &'static str = "%Y%m%d_%H%M%S";

/// A point in time: seconds and nanoseconds since 1970 in UTC, with the offset
/// in seconds of the clock that it was read from.
#[derive(Clone, Copy, Debug)]
pub struct Timestamp {
    secs: i64,
    nanos: u32,
    offset: i32,
}

impl Timestamp {
    #[verifier::type_invariant]
    spec fn valid(self) -> bool {
        valid_parts(self.secs, self.nanos, self.offset)
    }

    /// The full seconds since 1970.
    pub closed spec fn secs(self) -> i64 {
        self.secs
    }

    /// The nanoseconds in the second.
    pub closed spec fn nanos(self) -> u32 {
        self.nanos
    }

    /// The offset from UTC in seconds.
    pub closed spec fn offset(self) -> i32 {
        self.offset
    }

    /// The nanoseconds since 1970.
    pub open spec fn instant(self) -> int {
        self.secs() * 1_000_000_000 + self.nanos()
    }
}

/// Which seconds, nanoseconds and offsets make a point in time.
pub open spec fn valid_parts(secs: i64, nanos: u32, offset: i32) -> bool {
    &&& MIN_SECS <= secs <= MAX_SECS
    &&& nanos < 1_000_000_000
    &&& -86_400 < offset < 86_400
}

impl Timestamp {
    /// The point in time with these parts, if there is one.
    pub fn new(secs: i64, nanos: u32, offset: i32) -> (r: Option<Timestamp>)
        ensures
            r is Some <==> valid_parts(secs, nanos, offset),
            r matches Some(t) ==> t.secs() == secs && t.nanos() == nanos && t.offset() == offset,
    {
        if MIN_SECS <= secs && secs <= MAX_SECS && nanos < 1_000_000_000 && -86_400 < offset
            && offset < 86_400 {
            Some(Timestamp { secs, nanos, offset })
        } else {
            None
        }
    }

    /// Whether this point in time lies before another one.
    pub fn before(&self, other: &Timestamp) -> (r: bool)
        ensures
            r == (self.instant() < other.instant()),
    {
        proof {
            use_type_invariant(self);
            use_type_invariant(other);
        }
        self.secs < other.secs || (self.secs == other.secs && self.nanos < other.nanos)
    }
}

/// What `chrono` writes for the point in time with these parts, under a
/// `strftime` pattern.
pub uninterp spec fn chrono_text(secs: i64, nanos: u32, offset: i32, pattern: Seq<char>) -> Seq<
    char,
>;

/// A point in time as it is shown.
pub open spec fn date_time_text(t: Timestamp) -> Seq<char> {
    chrono_text(t.secs(), t.nanos(), t.offset(), DATE_TIME@)
}

/// A point in time as it stands in a file name.
pub open spec fn file_stamp_text(t: Timestamp) -> Seq<char> {
    chrono_text(t.secs(), t.nanos(), t.offset(), FILE_STAMP@)
}

/// `chrono::Local::now` reads the clock and the time zone of the machine.
/// Nothing is claimed of which point in time it gives, only that it is one:
/// its date lies in the range of `chrono`, the reading is no leap second, and
/// the offset is less than a day.
#[verifier::external_body]
fn local_now() -> (t: Timestamp)
    ensures
        valid_parts(t.secs(), t.nanos(), t.offset()),
{
    let t = chrono::Local::now();
    Timestamp {
        secs: t.timestamp(),
        nanos: t.timestamp_subsec_nanos(),
        offset: t.offset().local_minus_utc(),
    }
}

/// `chrono::DateTime::signed_duration_since` subtracts two points in time; the
/// difference is handed out as its whole seconds, without the fraction
/// whatever the sign (`num_seconds`), and the nanoseconds that are left, with
/// the sign of the difference (`subsec_nanos`).
#[verifier::external_body]
fn signed_duration_since(late: Timestamp, early: Timestamp) -> (r: (i64, i32))
    requires
        valid_parts(late.secs(), late.nanos(), late.offset()),
        valid_parts(early.secs(), early.nanos(), early.offset()),
    ensures
        r.0 * 1_000_000_000 + r.1 == late.instant() - early.instant(),
        -1_000_000_000 < r.1 < 1_000_000_000,
        r.1 > 0 ==> r.0 >= 0,
        r.1 < 0 ==> r.0 <= 0,
{
    let late = chrono::DateTime::from_timestamp(late.secs, late.nanos).unwrap();
    let early = chrono::DateTime::from_timestamp(early.secs, early.nanos).unwrap();
    let difference = late.signed_duration_since(early);
    (difference.num_seconds(), difference.subsec_nanos())
}

/// `chrono::DateTime::format` writes a point in time at its offset under a
/// `strftime` pattern. The text depends on the point in time, its offset and
/// the pattern alone. A pattern that `chrono` does not know makes the writing
/// fail, so only the two patterns of this module are allowed.
#[verifier::external_body]
fn format(t: Timestamp, pattern: &str) -> (r: String)
    requires
        valid_parts(t.secs(), t.nanos(), t.offset()),
        pattern@ == DATE_TIME@ || pattern@ == FILE_STAMP@,
    ensures
        r@ == chrono_text(t.secs(), t.nanos(), t.offset(), pattern@),
{
    let offset = chrono::FixedOffset::east_opt(t.offset).unwrap();
    let utc = chrono::DateTime::from_timestamp(t.secs, t.nanos).unwrap();
    utc.with_timezone(&offset).format(pattern).to_string()
}

/// The current point in time.
pub fn now() -> (t: Timestamp)
    ensures
        valid_parts(t.secs(), t.nanos(), t.offset()),
{
    local_now()
}

/// The whole seconds of a span of nanoseconds, without the fraction.
pub open spec fn whole_seconds(nanos: int) -> int {
    if nanos >= 0 {
        nanos / 1_000_000_000
    } else {
        -((-nanos) / 1_000_000_000)
    }
}

/// The whole seconds from `early` to `late`; negative if `early` is the later
/// one.
pub fn seconds_since(late: Timestamp, early: Timestamp) -> (secs: i64)
    ensures
        secs == whole_seconds(late.instant() - early.instant()),
        late.instant() >= early.instant() ==> secs * 1_000_000_000 <= late.instant()
            - early.instant() < (secs + 1) * 1_000_000_000,
        late.instant() <= early.instant() ==> (secs - 1) * 1_000_000_000 < late.instant()
            - early.instant() <= secs * 1_000_000_000,
{
    proof {
        use_type_invariant(&late);
        use_type_invariant(&early);
    }
    let (secs, nanos): (i64, i32) = signed_duration_since(late, early);
    secs
}

/// Whether `early` is less than `hours` hours before `late`; a point in time
/// after `late` is.
pub fn less_than_hours_ago(late: Timestamp, early: Timestamp, hours: u32) -> (r: bool)
    requires
        hours > 0,
    ensures
        r == (late.instant() - early.instant() < hours * 3_600_000_000_000),
{
    let secs: i64 = seconds_since(late, early);
    secs < hours as i64 * 3_600
}

/// Whether `early` is at most `hours` hours before `late`; a point in time after
/// `late` is.
pub fn at_most_hours_ago(late: Timestamp, early: Timestamp, hours: u32) -> (r: bool)
    requires
        hours > 0,
    ensures
        r == (late.instant() - early.instant() <= hours * 3_600_000_000_000),
{
    proof {
        use_type_invariant(&late);
        use_type_invariant(&early);
    }
    let (secs, nanos): (i64, i32) = signed_duration_since(late, early);
    let limit: i64 = hours as i64 * 3_600;
    secs < limit || (secs == limit && nanos <= 0)
}

/// A point in time as it is shown.
pub fn show_date_time(t: Timestamp) -> (r: String)
    ensures
        r@ == date_time_text(t),
{
    proof {
        use_type_invariant(&t);
    }
    format(t, DATE_TIME)
}

/// A point in time as it stands in a file name.
pub fn show_file_stamp(t: Timestamp) -> (r: String)
    ensures
        r@ == file_stamp_text(t),
{
    proof {
        use_type_invariant(&t);
    }
    format(t, FILE_STAMP)
}

} // verus!
