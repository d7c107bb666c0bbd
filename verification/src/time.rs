//! Instants, dates and their text forms.

use vstd::prelude::*;

use crate::text::opt_view;

verus! {

/// Nanoseconds in a second.
pub const SECOND: u32 = 1_000_000_000;

/// Nanoseconds at the end of a leap second.
pub const LEAP_END: u32 = 2_000_000_000;

/// Seconds in a day.
pub const DAY: i64 = 86_400;

/// The first second that a calendar date can be given for.
pub const MIN_SECS: i64 = -8_334_601_228_800;

/// The last such second.
pub const MAX_SECS: i64 = 8_210_266_876_799;

/// The first day, counted from 1 January 1970.
pub const MIN_DAY: i32 = -96_465_292;

/// The last day.
pub const MAX_DAY: i32 = 95_026_236;

/// A point in time: whole seconds since the Unix epoch and nanoseconds within
/// the second. Nanoseconds of one second or more stand for a leap second,
/// which follows the last second of a minute. Also used for wall-clock times,
/// written as if they were UTC.
#[derive(Clone, Copy, Debug, PartialEq, Eq, Structural)]
pub struct Instant {
    pub secs: i64,
    pub nanos: u32,
}

/// A calendar day, counted from 1 January 1970.
#[derive(Clone, Copy, Debug, PartialEq, Eq, Structural)]
pub struct Date {
    pub day: i32,
}

/// When something takes place: at an instant or on a whole day.
#[derive(Clone, Copy, Debug, PartialEq, Eq, Structural)]
pub enum Moment {
    Timed(Instant),
    AllDay(Date),
}

/// Seconds and nanoseconds that stand for a point in time: within the
/// calendar's range, and in a leap second only at the end of a minute.
pub open spec fn clock_parts(secs: i64, nanos: u32) -> bool {
    &&& MIN_SECS <= secs <= MAX_SECS
    &&& nanos < SECOND || (nanos < LEAP_END && secs as int % 60 == 59)
}

impl Instant {
    /// Within the calendar's range, and in a leap second only at the end of a
    /// minute.
    pub open spec fn wf(self) -> bool {
        clock_parts(self.secs, self.nanos)
    }

    /// Not in a leap second.
    pub open spec fn settled(self) -> bool {
        self.nanos < SECOND
    }

    /// In range and not in a leap second, as clocks and stored times are.
    pub open spec fn steady(self) -> bool {
        self.wf() && self.settled()
    }

    /// Nanoseconds since the epoch, outside leap seconds.
    pub open spec fn ticks(self) -> int {
        self.secs * SECOND + self.nanos
    }

    /// The place of an instant in the order of all instants, leap seconds
    /// among them.
    pub open spec fn rank(self) -> int {
        self.secs * LEAP_END + self.nanos
    }

    /// Whether this instant comes before the other.
    pub fn before(self, other: Instant) -> (r: bool)
        requires
            self.nanos < LEAP_END,
            other.nanos < LEAP_END,
        ensures
            r == (self.rank() < other.rank()),
    {
        self.secs < other.secs || (self.secs == other.secs && self.nanos < other.nanos)
    }

    /// The earlier of two instants.
    pub fn earlier(self, other: Instant) -> (r: Instant)
        requires
            self.nanos < LEAP_END,
            other.nanos < LEAP_END,
        ensures
            r == if self.rank() < other.rank() { self } else { other },
    {
        if self.before(other) {
            self
        } else {
            other
        }
    }

    /// The later of two instants.
    pub fn later(self, other: Instant) -> (r: Instant)
        requires
            self.nanos < LEAP_END,
            other.nanos < LEAP_END,
        ensures
            r == if self.rank() > other.rank() { self } else { other },
    {
        if other.before(self) {
            self
        } else {
            other
        }
    }

    /// The second that a shift by so many seconds is counted from. A shift
    /// out of a leap second starts at the second before it on the way
    /// forward, and at the second after it on the way back.
    pub open spec fn shift_base(self, secs: int) -> int {
        if self.nanos >= SECOND && secs < 0 {
            self.secs + 1
        } else {
            self.secs as int
        }
    }

    /// The instant this many seconds later, as far as it has a calendar date.
    pub open spec fn shifted(self, secs: int) -> Instant {
        Instant {
            secs: (self.shift_base(secs) + secs) as i64,
            nanos: if self.nanos >= SECOND && secs != 0 {
                (self.nanos - SECOND) as u32
            } else {
                self.nanos
            },
        }
    }

    /// Whether the instant this many seconds later has a calendar date.
    pub open spec fn can_shift(self, secs: int) -> bool {
        MIN_SECS <= self.shift_base(secs) + secs <= MAX_SECS
    }

    /// The instant this many seconds later.
    pub fn shift(self, secs: i64) -> (r: Instant)
        requires
            self.wf(),
            self.can_shift(secs as int),
        ensures
            r == self.shifted(secs as int),
            r.wf(),
            self.settled() ==> r.settled() && r.ticks() == self.ticks() + secs * SECOND,
    {
        if self.nanos >= SECOND && secs > 0 {
            return Instant { secs: self.secs + secs, nanos: self.nanos - SECOND };
        }
        if self.nanos >= SECOND && secs < 0 {
            return Instant { secs: self.secs + (secs + 1), nanos: self.nanos - SECOND };
        }
        let r = Instant { secs: self.secs + secs, nanos: self.nanos };
        assert((self.secs + secs) * SECOND == self.secs * SECOND + secs * SECOND)
            by (nonlinear_arith);
        r
    }
}

/// The first instant of the calendar.
pub open spec fn first_instant() -> Instant {
    Instant { secs: MIN_SECS, nanos: 0 }
}

/// The last instant of the calendar.
pub open spec fn last_instant() -> Instant {
    Instant { secs: MAX_SECS, nanos: 999_999_999 }
}

impl Instant {
    /// The instant this many seconds later, or the end of the calendar that
    /// lies in that direction where it has no calendar date.
    pub open spec fn reached(self, secs: int) -> Instant {
        if self.can_shift(secs) {
            self.shifted(secs)
        } else if secs < 0 {
            first_instant()
        } else {
            last_instant()
        }
    }

    /// The instant this many seconds later, or the end of the calendar that
    /// lies in that direction where it has no calendar date.
    pub fn reach(self, secs: i64) -> (r: Instant)
        requires
            self.wf(),
        ensures
            r == self.reached(secs as int),
            r.wf(),
    {
        let base: i128 = if self.nanos >= SECOND && secs < 0 {
            self.secs as i128 + 1
        } else {
            self.secs as i128
        };
        let target: i128 = base + secs as i128;
        if MIN_SECS as i128 <= target && target <= MAX_SECS as i128 {
            self.shift(secs)
        } else if secs < 0 {
            Instant { secs: MIN_SECS, nanos: 0 }
        } else {
            Instant { secs: MAX_SECS, nanos: 999_999_999 }
        }
    }
}

/// The quotient of a division that rounds down.
pub fn floor_div(n: i128, d: i128) -> (r: i128)
    requires
        d > 0,
        i128::MIN / 2 <= n <= i128::MAX / 2,
    ensures
        r == n as int / d as int,
{
    if n >= 0 {
        n / d
    } else {
        let m: i128 = -(n + 1);
        proof {
            let q = m as int / d as int;
            vstd::arithmetic::div_mod::lemma_fundamental_div_mod(m as int, d as int);
            assert(q * d == d * q) by (nonlinear_arith);
            assert((-(q + 1)) * d == -(q * d) - d) by (nonlinear_arith);
            vstd::arithmetic::div_mod::lemma_fundamental_div_mod_converse(
                n as int,
                d as int,
                -(q + 1),
                d - 1 - m as int % d as int,
            );
            assert(0 <= q <= m) by (nonlinear_arith)
                requires
                    q == m as int / d as int,
                    m >= 0,
                    d > 0,
            ;
        }
        -(m / d) - 1
    }
}

/// The instant of this many nanoseconds since the epoch.
pub open spec fn instant_at(ticks: int) -> Instant {
    Instant { secs: (ticks / SECOND as int) as i64, nanos: (ticks % SECOND as int) as u32 }
}

/// Whether so many nanoseconds since the epoch have a calendar date.
pub open spec fn ticks_in_range(ticks: int) -> bool {
    MIN_SECS * SECOND <= ticks < (MAX_SECS + 1) * SECOND
}

impl Instant {
    /// Nanoseconds since the epoch.
    pub fn to_ticks(self) -> (r: i128)
        requires
            self.steady(),
        ensures
            r == self.ticks(),
            ticks_in_range(r as int),
    {
        let secs: i128 = self.secs as i128;
        let whole: i128 = secs * 1_000_000_000;
        whole + self.nanos as i128
    }

    /// The instant of this many nanoseconds since the epoch.
    pub fn from_ticks(ticks: i128) -> (r: Instant)
        requires
            ticks_in_range(ticks as int),
        ensures
            r == instant_at(ticks as int),
            r.wf(),
            r.settled(),
            r.ticks() == ticks,
    {
        let q: i128 = floor_div(ticks, SECOND as i128);
        assert(ticks == q * SECOND + ticks as int % SECOND as int);
        Instant { secs: q as i64, nanos: (ticks - q * SECOND as i128) as u32 }
    }

    /// The day that a wall-clock time falls on.
    pub open spec fn date_spec(self) -> Date {
        Date { day: (self.secs as int / DAY as int) as i32 }
    }

    /// The day that a wall-clock time falls on.
    pub fn date(self) -> (r: Date)
        requires
            self.wf(),
        ensures
            r == self.date_spec(),
            r.wf(),
    {
        let day: i128 = floor_div(self.secs as i128, DAY as i128);
        Date { day: day as i32 }
    }
}

/// The order of instants is the order of their seconds and nanoseconds, and
/// an instant is told apart by its rank. Outside leap seconds the order is
/// that of the ticks.
pub proof fn rank_order(a: Instant, b: Instant)
    requires
        a.nanos < LEAP_END,
        b.nanos < LEAP_END,
    ensures
        a.rank() < b.rank() <==> (a.secs < b.secs || (a.secs == b.secs && a.nanos < b.nanos)),
        a.rank() == b.rank() <==> a == b,
        a.settled() && b.settled() ==> (a.rank() < b.rank() <==> a.ticks() < b.ticks()),
{
}

impl Date {
    /// Within the calendar's range.
    pub open spec fn wf(self) -> bool {
        MIN_DAY <= self.day <= MAX_DAY
    }

    /// Midnight at the start of the day, in UTC.
    pub open spec fn midnight_spec(self) -> Instant {
        Instant { secs: (self.day * DAY) as i64, nanos: 0 }
    }

    /// Midnight at the start of the day, in UTC.
    pub fn midnight(self) -> (r: Instant)
        requires
            self.wf(),
        ensures
            r == self.midnight_spec(),
            r.wf(),
            r.secs == self.day * DAY,
    {
        Instant { secs: self.day as i64 * DAY, nanos: 0 }
    }
}

impl Moment {
    pub open spec fn wf(self) -> bool {
        match self {
            Moment::Timed(at) => at.wf(),
            Moment::AllDay(date) => date.wf(),
        }
    }
}

/// The text of an instant in the form of RFC 3339, with a numeric offset.
pub uninterp spec fn rfc3339_text(secs: i64, nanos: u32) -> Seq<char>;

/// `DateTime::<Utc>::to_rfc3339` on the instant of these seconds and
/// nanoseconds; its text is named, not described.
#[verifier::external_body]
fn chrono_rfc3339(secs: i64, nanos: u32) -> (r: String)
    requires
        clock_parts(secs, nanos),
    ensures
        r@ == rfc3339_text(secs, nanos),
{
    chrono::DateTime::from_timestamp(secs, nanos).unwrap().to_rfc3339()
}

/// The text of an instant in the form of RFC 3339.
pub open spec fn rfc3339(at: Instant) -> Seq<char> {
    rfc3339_text(at.secs, at.nanos)
}

/// The text of an instant in the form of RFC 3339.
pub fn rfc3339_of(at: Instant) -> (r: String)
    requires
        at.wf(),
    ensures
        r@ == rfc3339(at),
{
    chrono_rfc3339(at.secs, at.nanos)
}

/// The text of an instant in JSON.
pub uninterp spec fn json_instant_text(secs: i64, nanos: u32) -> Seq<char>;

/// `serde_json::to_value` on the instant of these seconds and nanoseconds,
/// which gives a string.
#[verifier::external_body]
fn chrono_json(secs: i64, nanos: u32) -> (r: String)
    requires
        clock_parts(secs, nanos),
    ensures
        r@ == json_instant_text(secs, nanos),
{
    match serde_json::to_value(chrono::DateTime::from_timestamp(secs, nanos).unwrap()) {
        Ok(serde_json::Value::String(s)) => s,
        _ => String::new(),
    }
}

/// The text of an instant in JSON.
pub open spec fn json_instant(at: Instant) -> Seq<char> {
    json_instant_text(at.secs, at.nanos)
}

/// The text of an instant in JSON.
pub fn json_instant_of(at: Instant) -> (r: String)
    requires
        at.wf(),
    ensures
        r@ == json_instant(at),
{
    chrono_json(at.secs, at.nanos)
}

/// The seconds and nanoseconds that a text in the form of RFC 3339 stands
/// for. Nanoseconds of one second or more stand for a leap second.
pub uninterp spec fn rfc3339_parts(s: Seq<char>) -> Option<(i64, u32)>;

/// `DateTime::parse_from_rfc3339`, read as seconds and nanoseconds. The year
/// has four digits and the offset is less than a day, which bounds the
/// seconds. A second of 60 is read as nanoseconds of one second or more at
/// the end of a minute, and the offset is in whole minutes.
#[verifier::external_body]
fn chrono_parse_rfc3339(s: &str) -> (r: Option<(i64, u32)>)
    ensures
        r == rfc3339_parts(s@),
        r matches Some(p) ==> -62_167_305_600 <= p.0 <= 253_402_387_199 && clock_parts(p.0, p.1),
{
    match chrono::DateTime::parse_from_rfc3339(s) {
        Ok(at) => Some((at.timestamp(), at.timestamp_subsec_nanos())),
        Err(_) => None,
    }
}

/// The text of an instant under a format, in UTC.
pub uninterp spec fn formatted(secs: i64, nanos: u32, fmt: Seq<char>) -> Seq<char>;

/// `DateTime::<Utc>::format`, rendered. A format that is not well formed
/// would make the rendering panic, so only formats in use are admitted.
#[verifier::external_body]
fn chrono_format(secs: i64, nanos: u32, fmt: &str) -> (r: String)
    requires
        clock_parts(secs, nanos),
        fmt@ == "%Y%m%dT%H%M%SZ"@ || fmt@ == "%Y%m%dT%H%M%S"@ || fmt@ == "%a %b %d %H:%M UTC"@,
    ensures
        r@ == formatted(secs, nanos, fmt@),
{
    chrono::DateTime::from_timestamp(secs, nanos).unwrap().format(fmt).to_string()
}

/// An instant in the basic form of ISO 8601, in UTC, with a closing `Z`.
pub open spec fn utc_stamp(at: Instant) -> Seq<char> {
    formatted(at.secs, at.nanos, "%Y%m%dT%H%M%SZ"@)
}

/// A wall-clock time in the basic form of ISO 8601.
pub open spec fn local_stamp(at: Instant) -> Seq<char> {
    formatted(at.secs, at.nanos, "%Y%m%dT%H%M%S"@)
}

/// An instant for a reader, in UTC.
pub open spec fn utc_words(at: Instant) -> Seq<char> {
    formatted(at.secs, at.nanos, "%a %b %d %H:%M UTC"@)
}

/// An instant in the basic form of ISO 8601, in UTC, with a closing `Z`.
pub fn utc_stamp_of(at: Instant) -> (r: String)
    requires
        at.wf(),
    ensures
        r@ == utc_stamp(at),
{
    chrono_format(at.secs, at.nanos, "%Y%m%dT%H%M%SZ")
}

/// A wall-clock time in the basic form of ISO 8601.
pub fn local_stamp_of(at: Instant) -> (r: String)
    requires
        at.wf(),
    ensures
        r@ == local_stamp(at),
{
    chrono_format(at.secs, at.nanos, "%Y%m%dT%H%M%S")
}

/// An instant for a reader, in UTC.
pub fn utc_words_of(at: Instant) -> (r: String)
    requires
        at.wf(),
    ensures
        r@ == utc_words(at),
{
    chrono_format(at.secs, at.nanos, "%a %b %d %H:%M UTC")
}

/// The names that stand for a time zone.
pub uninterp spec fn known_zone(zone: Seq<char>) -> bool;

/// Whether `chrono_tz::Tz`'s `FromStr` finds a zone for a name.
#[verifier::external_body]
fn chrono_knows_zone(zone: &str) -> (r: bool)
    ensures
        r == known_zone(zone@),
{
    zone.parse::<chrono_tz::Tz>().is_ok()
}

/// The text of an instant under a format, in a named time zone.
pub uninterp spec fn zone_formatted(
    secs: i64,
    nanos: u32,
    zone: Seq<char>,
    fmt: Seq<char>,
) -> Seq<char>;

/// `DateTime::format`, rendered, in a zone that has this name. A format that
/// is not well formed would make the rendering panic, so only the format in
/// use is admitted.
#[verifier::external_body]
fn chrono_zone_format(secs: i64, nanos: u32, zone: &str, fmt: &str) -> (r: String)
    requires
        clock_parts(secs, nanos),
        known_zone(zone@),
        fmt@ == "%a %b %d %H:%M (%Z)"@,
    ensures
        r@ == zone_formatted(secs, nanos, zone@, fmt@),
{
    let at = chrono::DateTime::from_timestamp(secs, nanos).unwrap();
    at.with_timezone(&zone.parse::<chrono_tz::Tz>().unwrap()).format(fmt).to_string()
}

/// An instant for a reader, in a named time zone, where the zone is known.
pub open spec fn zone_words(at: Instant, zone: Seq<char>) -> Option<Seq<char>> {
    if known_zone(zone) {
        Some(zone_formatted(at.secs, at.nanos, zone, "%a %b %d %H:%M (%Z)"@))
    } else {
        None
    }
}

/// An instant for a reader: in the named zone where it is known, else in UTC.
pub open spec fn words_in(at: Instant, zone: Option<Seq<char>>) -> Seq<char> {
    match zone {
        Some(z) => match zone_words(at, z) {
            Some(t) => t,
            None => utc_words(at),
        },
        None => utc_words(at),
    }
}

/// An instant for a reader: in the named zone where it is known, else in UTC.
pub fn words_in_zone(at: Instant, zone: &Option<String>) -> (r: String)
    requires
        at.wf(),
    ensures
        r@ == words_in(at, opt_view(*zone)),
{
    match zone {
        Some(z) => if chrono_knows_zone(z.as_str()) {
            chrono_zone_format(at.secs, at.nanos, z.as_str(), "%a %b %d %H:%M (%Z)")
        } else {
            utc_words_of(at)
        },
        None => utc_words_of(at),
    }
}

/// The instant that a text in the form of RFC 3339 stands for.
pub open spec fn rfc3339_instant(s: Seq<char>) -> Option<Instant> {
    match rfc3339_parts(s) {
        Some(p) => Some(Instant { secs: p.0, nanos: p.1 }),
        None => None,
    }
}

/// Reads an instant in the form of RFC 3339.
pub fn parse_rfc3339(s: &str) -> (r: Option<Instant>)
    ensures
        r == rfc3339_instant(s@),
        r matches Some(at) ==> at.wf(),
{
    match chrono_parse_rfc3339(s) {
        Some(p) => Some(Instant { secs: p.0, nanos: p.1 }),
        None => None,
    }
}

/// The seconds and nanoseconds that a text stands for under a date and time
/// format without a zone, read as UTC.
pub uninterp spec fn datetime_parts(s: Seq<char>, fmt: Seq<char>) -> Option<(i64, u32)>;

/// `NaiveDateTime::parse_from_str`, read as seconds and nanoseconds in UTC.
/// Every such value lies in the calendar's range; a second of 60 is read as
/// nanoseconds of one second or more at the end of a minute.
#[verifier::external_body]
fn chrono_parse_datetime(s: &str, fmt: &str) -> (r: Option<(i64, u32)>)
    ensures
        r == datetime_parts(s@, fmt@),
        r matches Some(p) ==> clock_parts(p.0, p.1),
{
    match chrono::NaiveDateTime::parse_from_str(s, fmt) {
        Ok(at) => Some((at.and_utc().timestamp(), at.and_utc().timestamp_subsec_nanos())),
        Err(_) => None,
    }
}

/// The instant that a stamp in the basic form of ISO 8601 stands for, in UTC.
pub open spec fn stamp_instant(s: Seq<char>) -> Option<Instant> {
    match datetime_parts(s, "%Y%m%dT%H%M%S"@) {
        Some(p) => Some(Instant { secs: p.0, nanos: p.1 }),
        None => None,
    }
}

/// Reads a stamp in the basic form of ISO 8601, in UTC.
pub fn parse_stamp(s: &str) -> (r: Option<Instant>)
    ensures
        r == stamp_instant(s@),
        r matches Some(at) ==> at.wf(),
{
    match chrono_parse_datetime(s, "%Y%m%dT%H%M%S") {
        Some(p) => Some(Instant { secs: p.0, nanos: p.1 }),
        None => None,
    }
}

/// The day that a text stands for under a date format.
pub uninterp spec fn date_value(s: Seq<char>, fmt: Seq<char>) -> Option<i32>;

/// `NaiveDate::parse_from_str`, read as days since 1 January 1970; every date
/// lies in the calendar's range.
#[verifier::external_body]
fn chrono_parse_date(s: &str, fmt: &str) -> (r: Option<i32>)
    ensures
        r == date_value(s@, fmt@),
        r matches Some(d) ==> MIN_DAY <= d <= MAX_DAY,
{
    match chrono::NaiveDate::parse_from_str(s, fmt) {
        Ok(date) => Some(date.to_epoch_days()),
        Err(_) => None,
    }
}

/// The day that a text of the form year-month-day stands for.
pub open spec fn iso_date(s: Seq<char>) -> Option<Date> {
    match date_value(s, "%Y-%m-%d"@) {
        Some(day) => Some(Date { day }),
        None => None,
    }
}

/// Reads a date of the form year-month-day.
pub fn parse_iso_date(s: &str) -> (r: Option<Date>)
    ensures
        r == iso_date(s@),
        r matches Some(d) ==> d.wf(),
{
    match chrono_parse_date(s, "%Y-%m-%d") {
        Some(day) => Some(Date { day }),
        None => None,
    }
}

/// The text of a wall-clock time in JSON.
pub uninterp spec fn wall_clock_text(secs: i64, nanos: u32) -> Seq<char>;

/// `serde_json::to_value` on the wall-clock time of these seconds and
/// nanoseconds, a `NaiveDateTime`, which gives a string.
#[verifier::external_body]
fn chrono_json_wall(secs: i64, nanos: u32) -> (r: String)
    requires
        clock_parts(secs, nanos),
    ensures
        r@ == wall_clock_text(secs, nanos),
{
    let at = chrono::DateTime::from_timestamp(secs, nanos).unwrap().naive_utc();
    match serde_json::to_value(at) {
        Ok(serde_json::Value::String(s)) => s,
        _ => String::new(),
    }
}

/// The text of a wall-clock time in JSON.
pub open spec fn wall_text(at: Instant) -> Seq<char> {
    wall_clock_text(at.secs, at.nanos)
}

/// The text of a wall-clock time in JSON.
pub fn wall_text_of(at: Instant) -> (r: String)
    requires
        at.wf(),
    ensures
        r@ == wall_text(at),
{
    chrono_json_wall(at.secs, at.nanos)
}

/// The text of a day, as year, month and day with hyphens.
pub uninterp spec fn day_text(day: i32) -> Seq<char>;

/// The `Display` form of the `NaiveDate` of so many days since 1 January 1970.
#[verifier::external_body]
fn chrono_date_text(day: i32) -> (r: String)
    requires
        MIN_DAY <= day <= MAX_DAY,
    ensures
        r@ == day_text(day),
{
    chrono::NaiveDate::from_epoch_days(day).unwrap().to_string()
}

/// The text of a day, as year, month and day with hyphens.
pub open spec fn date_text(date: Date) -> Seq<char> {
    day_text(date.day)
}

/// The text of a day, as year, month and day with hyphens.
pub fn date_text_of(date: Date) -> (r: String)
    requires
        date.wf(),
    ensures
        r@ == date_text(date),
{
    chrono_date_text(date.day)
}

/// The text of a day under a date format.
pub uninterp spec fn formatted_date(day: i32, fmt: Seq<char>) -> Seq<char>;

/// `NaiveDate::format`, rendered. A format that is not well formed would make
/// the rendering panic, so only the format in use is admitted.
#[verifier::external_body]
fn chrono_format_date(day: i32, fmt: &str) -> (r: String)
    requires
        MIN_DAY <= day <= MAX_DAY,
        fmt@ == "%Y%m%d"@,
    ensures
        r@ == formatted_date(day, fmt@),
{
    chrono::NaiveDate::from_epoch_days(day).unwrap().format(fmt).to_string()
}

/// A day in the basic form of ISO 8601.
pub open spec fn date_stamp(date: Date) -> Seq<char> {
    formatted_date(date.day, "%Y%m%d"@)
}

/// A day in the basic form of ISO 8601.
pub fn date_stamp_of(date: Date) -> (r: String)
    requires
        date.wf(),
    ensures
        r@ == date_stamp(date),
{
    chrono_format_date(date.day, "%Y%m%d")
}

/// The seconds and nanoseconds of the wall-clock time that a text stands for,
/// read as UTC.
pub uninterp spec fn iso_datetime_parts(s: Seq<char>) -> Option<(i64, u32)>;

/// `NaiveDateTime`'s `FromStr`, read as seconds and nanoseconds in UTC, in the
/// calendar's range and with leap seconds as above.
#[verifier::external_body]
fn chrono_datetime_from_str(s: &str) -> (r: Option<(i64, u32)>)
    ensures
        r == iso_datetime_parts(s@),
        r matches Some(p) ==> clock_parts(p.0, p.1),
{
    match s.parse::<chrono::NaiveDateTime>() {
        Ok(at) => Some((at.and_utc().timestamp(), at.and_utc().timestamp_subsec_nanos())),
        Err(_) => None,
    }
}

/// The wall-clock time that a text stands for, as if it were UTC.
pub open spec fn iso_datetime(s: Seq<char>) -> Option<Instant> {
    match iso_datetime_parts(s) {
        Some(p) => Some(Instant { secs: p.0, nanos: p.1 }),
        None => None,
    }
}

/// Reads a wall-clock time.
pub fn parse_iso_datetime(s: &str) -> (r: Option<Instant>)
    ensures
        r == iso_datetime(s@),
        r matches Some(at) ==> at.wf(),
{
    match chrono_datetime_from_str(s) {
        Some(p) => Some(Instant { secs: p.0, nanos: p.1 }),
        None => None,
    }
}

/// The day that a text stands for.
pub uninterp spec fn plain_day(s: Seq<char>) -> Option<i32>;

/// `NaiveDate`'s `FromStr`, read as days since 1 January 1970.
#[verifier::external_body]
fn chrono_date_from_str(s: &str) -> (r: Option<i32>)
    ensures
        r == plain_day(s@),
        r matches Some(d) ==> MIN_DAY <= d <= MAX_DAY,
{
    match s.parse::<chrono::NaiveDate>() {
        Ok(date) => Some(date.to_epoch_days()),
        Err(_) => None,
    }
}

/// The day that a text stands for.
pub open spec fn plain_date(s: Seq<char>) -> Option<Date> {
    match plain_day(s) {
        Some(day) => Some(Date { day }),
        None => None,
    }
}

/// Reads a day.
pub fn parse_plain_date(s: &str) -> (r: Option<Date>)
    ensures
        r == plain_date(s@),
        r matches Some(d) ==> d.wf(),
{
    match chrono_date_from_str(s) {
        Some(day) => Some(Date { day }),
        None => None,
    }
}

/// The moment that a text stands for: an instant in the form of RFC 3339, or
/// else a date.
pub open spec fn moment_of(s: Seq<char>) -> Option<Moment> {
    match rfc3339_instant(s) {
        Some(at) => Some(Moment::Timed(at)),
        None => match iso_date(s) {
            Some(date) => Some(Moment::AllDay(date)),
            None => None,
        },
    }
}

/// Reads an instant or a date.
pub fn parse_moment(s: &str) -> (r: Option<Moment>)
    ensures
        r == moment_of(s@),
        r matches Some(m) ==> m.wf(),
{
    match parse_rfc3339(s) {
        Some(at) => Some(Moment::Timed(at)),
        None => match parse_iso_date(s) {
            Some(date) => Some(Moment::AllDay(date)),
            None => None,
        },
    }
}

/// `chrono::Utc::now`: the seconds since the epoch on the system's clock, and
/// the nanoseconds within the second. Nothing is said of what time it is. A
/// clock that stands before 1970, or past the end of the calendar, stops the
/// program there; no argument decides that.
#[verifier::external_body]
fn chrono_now() -> (r: (i64, u32))
    ensures
        0 <= r.0 <= MAX_SECS,
        r.1 < SECOND,
{
    let at = chrono::Utc::now();
    (at.timestamp(), at.timestamp_subsec_nanos())
}

/// The time on the clock.
pub fn now() -> (r: Instant)
    ensures
        r.steady(),
        r.secs >= 0,
{
    let (secs, nanos) = chrono_now();
    Instant { secs, nanos }
}

/// The text of an instant for a reader, in UTC.
pub uninterp spec fn display_text(secs: i64, nanos: u32) -> Seq<char>;

/// The `Display` form of the `DateTime<Utc>` of these seconds and nanoseconds,
/// which is named, not described.
#[verifier::external_body]
fn chrono_display(secs: i64, nanos: u32) -> (r: String)
    requires
        clock_parts(secs, nanos),
    ensures
        r@ == display_text(secs, nanos),
{
    chrono::DateTime::from_timestamp(secs, nanos).unwrap().to_string()
}

/// An instant for a reader, in UTC.
pub open spec fn shown(at: Instant) -> Seq<char> {
    display_text(at.secs, at.nanos)
}

/// An instant for a reader, in UTC.
pub fn shown_of(at: Instant) -> (r: String)
    requires
        at.wf(),
    ensures
        r@ == shown(at),
{
    chrono_display(at.secs, at.nanos)
}

} // verus!
