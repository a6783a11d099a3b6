//! Calendar days, instants and time spans as plain integers.
//!
//! A [`Date`] is a day number in the proleptic Gregorian calendar, an
//! [`Instant`] a number of whole seconds since the Unix epoch in UTC. Both are
//! confined to the range that `chrono` can represent, so that every value can
//! be handed to `chrono` and every value that `chrono` yields can be held.

use vstd::prelude::*;

verus! {

/// Day number of 1 January 262144 BCE, the first day `chrono` represents.
pub const MIN_DAY: i32 = -95_746_129;

/// Day number of 31 December 262142 CE, the last day `chrono` represents.
pub const MAX_DAY: i32 = 95_745_399;

/// Day number of 1 January 1970.
pub const UNIX_EPOCH_DAY: i32 = 719_163;

/// Seconds in one calendar day (leap seconds are not counted).
pub const SECONDS_PER_DAY: i64 = 86_400;

/// First second of [`MIN_DAY`], counted from the Unix epoch.
pub const MIN_SECOND: i64 = -8_334_601_228_800;

/// Last second of [`MAX_DAY`], counted from the Unix epoch.
pub const MAX_SECOND: i64 = 8_210_266_876_799;

/// Whether `days` numbers a day that a [`Date`] can hold.
pub open spec fn is_calendar_day(days: int) -> bool {
    MIN_DAY <= days <= MAX_DAY
}

/// Whether `secs` numbers a second that an [`Instant`] can hold.
pub open spec fn is_calendar_second(secs: int) -> bool {
    MIN_SECOND <= secs <= MAX_SECOND
}

/// The day number of the UTC calendar day that contains the second `secs`.
pub open spec fn day_of_second(secs: int) -> int {
    secs / 86_400 + 719_163
}

/// The text of the day numbered `days` in the form `YYYY-MM-DD`, as `chrono`
/// writes it for the format `%Y-%m-%d`.
pub uninterp spec fn iso_date_text(days: int) -> Seq<char>;

/// Reads the system clock through `chrono::Utc::now` and returns
/// `DateTime::timestamp` of it. `chrono` builds the value from the time
/// elapsed since the Unix epoch and refuses anything beyond its last
/// representable day, so the seconds lie between 0 and [`MAX_SECOND`].
/// `chrono` does not return on a machine whose clock stands before 1970.
#[verifier::external_body]
fn unix_seconds_now() -> (secs: i64)
    ensures
        0 <= secs <= MAX_SECOND,
{
    chrono::Utc::now().timestamp()
}

/// Builds the `chrono::NaiveDate` numbered `days` with
/// `NaiveDate::from_num_days_from_ce_opt`, which knows every day of the
/// calendar, and writes it with `NaiveDate::format` and the pattern
/// `%Y-%m-%d`. The text depends on the day number alone; it is named
/// [`iso_date_text`].
#[verifier::external_body]
fn format_iso_day(days: i32) -> (text: String)
    requires
        is_calendar_day(days as int),
    ensures
        text@ == iso_date_text(days as int),
{
    match chrono::NaiveDate::from_num_days_from_ce_opt(days) {
        Some(date) => date.format("%Y-%m-%d").to_string(),
        None => String::new(),
    }
}

/// A calendar day.
#[derive(Clone, Copy, Debug, PartialEq, Eq, Hash)]
pub struct Date {
    days: i32,
}

impl View for Date {
    type V = int;

    /// The day number: 1 for 1 January of year 1.
    closed spec fn view(&self) -> int {
        self.days as int
    }
}

impl Date {
    #[verifier::type_invariant]
    spec fn in_calendar(self) -> bool {
        is_calendar_day(self.days as int)
    }

    /// The day numbered `days`, if the calendar holds it.
    pub fn from_days(days: i32) -> (date: Option<Date>)
        ensures
            date is Some <==> is_calendar_day(days as int),
            date matches Some(d) ==> d@ == days,
    {
        if MIN_DAY <= days && days <= MAX_DAY {
            Some(Date { days })
        } else {
            None
        }
    }

    /// The day number.
    pub fn days(&self) -> (days: i32)
        ensures
            days == self@,
            is_calendar_day(days as int),
    {
        proof {
            use_type_invariant(self);
        }
        self.days
    }

    /// Whether both are the same day.
    pub fn same_day(&self, other: &Date) -> (same: bool)
        ensures
            same == (self@ == other@),
    {
        self.days == other.days
    }

    /// Whether this day comes before `other`.
    pub fn is_before(&self, other: &Date) -> (before: bool)
        ensures
            before == (self@ < other@),
    {
        self.days < other.days
    }

    /// Whether this day comes after `other`.
    pub fn is_after(&self, other: &Date) -> (after: bool)
        ensures
            after == (self@ > other@),
    {
        self.days > other.days
    }

    /// The number of days from `earlier` to this day; negative if `earlier`
    /// is in fact later.
    pub fn days_since(&self, earlier: &Date) -> (days: i64)
        ensures
            days == self@ - earlier@,
    {
        self.days as i64 - earlier.days as i64
    }

    /// The day `count` days before this one, if the calendar holds it.
    pub fn minus_days(&self, count: u32) -> (date: Option<Date>)
        ensures
            date is Some <==> is_calendar_day(self@ - count),
            date matches Some(d) ==> d@ == self@ - count,
    {
        let days: i64 = self.days as i64 - count as i64;
        if MIN_DAY as i64 <= days {
            proof {
                use_type_invariant(self);
            }
            Some(Date { days: days as i32 })
        } else {
            None
        }
    }

    /// The day before this one, if the calendar holds it.
    pub fn pred(&self) -> (date: Option<Date>)
        ensures
            date is Some <==> is_calendar_day(self@ - 1),
            date matches Some(d) ==> d@ == self@ - 1,
    {
        self.minus_days(1)
    }

    /// The day written as `YYYY-MM-DD`.
    pub fn iso_text(&self) -> (text: String)
        ensures
            text@ == iso_date_text(self@),
    {
        proof {
            use_type_invariant(self);
        }
        format_iso_day(self.days)
    }
}

/// Two dates with the same day number are the same date.
pub proof fn lemma_date_by_day(a: Date, b: Date)
    requires
        a@ == b@,
    ensures
        a == b,
{
}

/// A point in time, to the second.
#[derive(Clone, Copy, Debug, PartialEq, Eq, Hash)]
pub struct Instant {
    secs: i64,
}

impl View for Instant {
    type V = int;

    /// Whole seconds since 1970-01-01T00:00:00Z.
    closed spec fn view(&self) -> int {
        self.secs as int
    }
}

impl Instant {
    #[verifier::type_invariant]
    spec fn in_calendar(self) -> bool {
        is_calendar_second(self.secs as int)
    }

    /// The instant `secs` seconds after the Unix epoch, if the calendar holds
    /// it.
    pub fn from_secs(secs: i64) -> (instant: Option<Instant>)
        ensures
            instant is Some <==> is_calendar_second(secs as int),
            instant matches Some(i) ==> i@ == secs,
    {
        if MIN_SECOND <= secs && secs <= MAX_SECOND {
            Some(Instant { secs })
        } else {
            None
        }
    }

    /// The current instant by the system clock. Nothing is known of it but
    /// that it is not before the Unix epoch.
    pub fn now() -> (instant: Instant)
        ensures
            instant@ >= 0,
    {
        Instant { secs: unix_seconds_now() }
    }

    /// Seconds since the Unix epoch.
    pub fn secs(&self) -> (secs: i64)
        ensures
            secs == self@,
            is_calendar_second(secs as int),
    {
        proof {
            use_type_invariant(self);
        }
        self.secs
    }

    /// The UTC calendar day that contains this instant.
    pub fn date(&self) -> (date: Date)
        ensures
            date@ == day_of_second(self@),
    {
        proof {
            use_type_invariant(self);
        }
        let days: i64 = if self.secs >= 0 {
            self.secs / SECONDS_PER_DAY
        } else {
            -((SECONDS_PER_DAY - 1 - self.secs) / SECONDS_PER_DAY)
        };
        let numbered: i64 = days + UNIX_EPOCH_DAY as i64;
        Date { days: numbered as i32 }
    }

    /// Seconds from `earlier` to this instant; negative if `earlier` is in
    /// fact later.
    pub fn seconds_since(&self, earlier: &Instant) -> (secs: i64)
        ensures
            secs == self@ - earlier@,
    {
        proof {
            use_type_invariant(self);
            use_type_invariant(earlier);
        }
        self.secs - earlier.secs
    }
}

/// A span of time in whole seconds, used as a time to live.
#[derive(Clone, Copy, Debug, PartialEq, Eq, Structural)]
pub struct Ttl {
    pub secs: i64,
}

impl Ttl {
    /// A span of `secs` seconds.
    pub fn seconds(secs: i64) -> (ttl: Ttl)
        ensures
            ttl.secs == secs,
    {
        Ttl { secs }
    }

    /// A span of `days` days of 86 400 seconds.
    pub fn days(days: u32) -> (ttl: Ttl)
        ensures
            ttl.secs == days * 86_400,
    {
        Ttl { secs: days as i64 * SECONDS_PER_DAY }
    }
}

} // verus!
