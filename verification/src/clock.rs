//! Wall-clock instants and the proleptic Gregorian calendar.

use vstd::prelude::*;

use crate::text;

verus! {

pub const NANOS_PER_SEC: i128 = 1_000_000_000;

/// A wall-clock instant: whole seconds that fit a signed 64-bit count since
/// the Unix epoch, and the nanoseconds past them.
#[derive(Debug, Clone, Copy, PartialEq, Eq)]
pub struct Timestamp {
    nanos: i128,
}

/// The earliest instant, in nanoseconds since the Unix epoch.
pub open spec fn earliest() -> int {
    i64::MIN * 1_000_000_000
}

/// The latest instant, in nanoseconds since the Unix epoch.
pub open spec fn latest() -> int {
    i64::MAX * 1_000_000_000 + 999_999_999
}

impl View for Timestamp {
    type V = int;

    /// Nanoseconds since the Unix epoch.
    closed spec fn view(&self) -> int {
        self.nanos as int
    }
}

impl Timestamp {
    #[verifier::type_invariant]
    spec fn in_range(self) -> bool {
        earliest() <= self.nanos <= latest()
    }

    /// The instant `secs` whole seconds and `nanos` nanoseconds after the
    /// Unix epoch.
    pub fn new(secs: i64, nanos: u32) -> (instant: Timestamp)
        requires
            nanos < 1_000_000_000,
        ensures
            instant@ == secs * 1_000_000_000 + nanos,
    {
        Timestamp { nanos: secs as i128 * NANOS_PER_SEC + nanos as i128 }
    }

    /// The nanoseconds from `earlier` to `self`; zero where `earlier` is the
    /// later one.
    pub fn nanos_since(&self, earlier: &Timestamp) -> (nanos: u128)
        ensures
            nanos == elapsed(earlier@, self@),
            nanos < 0x1_0000_0000_0000_0000 * 1_000_000_000,
    {
        proof {
            use_type_invariant(self);
            use_type_invariant(earlier);
        }
        if self.nanos < earlier.nanos {
            0
        } else {
            (self.nanos - earlier.nanos) as u128
        }
    }

    /// The instant `micros` microseconds earlier, unless that is before the
    /// earliest one.
    pub fn earlier_by_micros(&self, micros: u64) -> (instant: Option<Timestamp>)
        ensures
            match instant {
                Some(t) => t@ == self@ - micros * 1_000 && self@ - micros * 1_000 >= earliest(),
                None => self@ - micros * 1_000 < earliest(),
            },
    {
        proof {
            use_type_invariant(self);
        }
        let nanos: i128 = self.nanos - micros as i128 * 1_000;
        if nanos < i64::MIN as i128 * NANOS_PER_SEC {
            None
        } else {
            Some(Timestamp { nanos })
        }
    }
}

/// The nanoseconds from one instant to another; zero where they run
/// backwards.
pub open spec fn elapsed(from: int, to: int) -> int {
    if to < from {
        0
    } else {
        to - from
    }
}

// ---------------------------------------------------------------------------
// The calendar.
// ---------------------------------------------------------------------------

pub open spec fn leap_year(year: int) -> bool {
    year % 4 == 0 && (year % 100 != 0 || year % 400 == 0)
}

pub open spec fn month_length(year: int, month: int) -> int {
    if month == 2 {
        if leap_year(year) {
            29
        } else {
            28
        }
    } else if month == 4 || month == 6 || month == 9 || month == 11 {
        30
    } else {
        31
    }
}

pub open spec fn valid_date(year: int, month: int, day: int) -> bool {
    1 <= month <= 12 && 1 <= day <= month_length(year, month)
}

/// The days from 0001-01-01 to the first of January of `year`.
pub open spec fn days_before_year(year: int) -> int {
    365 * (year - 1) + (year - 1) / 4 - (year - 1) / 100 + (year - 1) / 400
}

/// The days from the first of January to the first of `month`.
pub open spec fn days_before_month(year: int, month: int) -> int
    decreases month,
{
    if month <= 1 {
        0
    } else {
        days_before_month(year, month - 1) + month_length(year, month - 1)
    }
}

/// The days from 1970-01-01 to a date.
pub open spec fn day_number(year: int, month: int, day: int) -> int {
    days_before_year(year) + days_before_month(year, month) + (day - 1) - days_before_year(1970)
}

/// A year has 365 days, a leap year one more.
pub proof fn year_lengths_add_up(year: int)
    ensures
        days_before_year(year + 1) == days_before_year(year) + 365 + if leap_year(year) {
            1int
        } else {
            0
        },
{
    assert(year / 4 - (year - 1) / 4 == if year % 4 == 0 {
        1int
    } else {
        0
    });
    assert(year / 100 - (year - 1) / 100 == if year % 100 == 0 {
        1int
    } else {
        0
    });
    assert(year / 400 - (year - 1) / 400 == if year % 400 == 0 {
        1int
    } else {
        0
    });
    assert(year % 400 == 0 ==> year % 100 == 0) by {
        assert(year == 400 * (year / 400) + year % 400);
    }
    assert(year % 100 == 0 ==> year % 4 == 0) by {
        assert(year == 100 * (year / 100) + year % 100);
    }
}

/// The length of a year is that of its twelve months.
pub proof fn month_lengths_add_up(year: int)
    ensures
        days_before_month(year, 13) == 365 + if leap_year(year) {
            1int
        } else {
            0
        },
{
    reveal_with_fuel(days_before_month, 14);
}

proof fn months_are_in_order(year: int, a: int, b: int)
    requires
        1 <= a < b,
    ensures
        days_before_month(year, a) + month_length(year, a) <= days_before_month(year, b),
    decreases b - a,
{
    if a + 1 < b {
        months_are_in_order(year, a, b - 1);
    }
}

proof fn years_are_in_order(a: int, b: int)
    requires
        a < b,
    ensures
        days_before_year(a + 1) <= days_before_year(b),
    decreases b - a,
{
    if a + 1 < b {
        years_are_in_order(a, b - 1);
        year_lengths_add_up(b - 1);
    }
}

/// A later date has a greater day number.
pub proof fn later_dates_have_greater_numbers(
    y1: int,
    m1: int,
    d1: int,
    y2: int,
    m2: int,
    d2: int,
)
    requires
        valid_date(y1, m1, d1),
        valid_date(y2, m2, d2),
        y1 < y2 || (y1 == y2 && (m1 < m2 || (m1 == m2 && d1 < d2))),
    ensures
        day_number(y1, m1, d1) < day_number(y2, m2, d2),
{
    if y1 < y2 {
        months_are_in_order(y1, m1, 13);
        month_lengths_add_up(y1);
        year_lengths_add_up(y1);
        years_are_in_order(y1, y2);
        if m2 > 1 {
            months_are_in_order(y2, 1, m2);
        }
    } else if m1 < m2 {
        months_are_in_order(y1, m1, m2);
    }
}

/// No two valid dates share a day number.
pub proof fn day_numbers_are_unique(y1: int, m1: int, d1: int, y2: int, m2: int, d2: int)
    requires
        valid_date(y1, m1, d1),
        valid_date(y2, m2, d2),
        day_number(y1, m1, d1) == day_number(y2, m2, d2),
    ensures
        y1 == y2,
        m1 == m2,
        d1 == d2,
{
    if y1 < y2 || (y1 == y2 && (m1 < m2 || (m1 == m2 && d1 < d2))) {
        later_dates_have_greater_numbers(y1, m1, d1, y2, m2, d2);
    }
    if y2 < y1 || (y2 == y1 && (m2 < m1 || (m2 == m1 && d2 < d1))) {
        later_dates_have_greater_numbers(y2, m2, d2, y1, m1, d1);
    }
}

/// Where a day of a 400-year era falls: the year of the era, counted from
/// March, starts on or before it, and the next one starts after it.
proof fn year_of_era_is_exact(doe: u64, yoe: u64, next: u64)
    by (bit_vector)
    requires
        doe < 146_097u64,
        yoe == (((doe - doe / 1_460) as u64 + doe / 36_524) as u64 - doe / 146_096) as u64 / 365,
        next == yoe + 1,
    ensures
        yoe < 400u64,
        365 * yoe + yoe / 4 - yoe / 100 <= doe,
        doe < 365 * next + next / 4 - next / 100 + next / 400,
{
}

/// The days from the first of March to the first of the month `mp` months
/// later.
spec fn days_since_march(mp: int) -> int {
    (153 * mp + 2) / 5
}

proof fn march_years_match_the_calendar(year: int, mp: int)
    requires
        0 <= mp < 12,
    ensures
        mp < 10 ==> days_before_month(year, mp + 3) == days_before_month(year, 3)
            + days_since_march(mp),
        mp < 10 ==> days_since_march(mp) + month_length(year, mp + 3) == days_since_march(mp + 1),
        days_before_month(year, 3) + 306 == days_before_month(year, 13),
        days_before_month(year, 1) == 0,
        days_before_month(year, 2) == 31,
        days_since_march(10) == 306,
        days_since_march(11) == 337,
{
    reveal_with_fuel(days_before_month, 14);
}

/// Which month a day of a year that starts in March falls in.
proof fn month_of_day_is_exact(doy: int, mp: int)
    requires
        0 <= doy <= 365,
        mp == (5 * doy + 2) / 153,
    ensures
        0 <= mp < 12,
        days_since_march(mp) <= doy,
        mp < 11 ==> doy < days_since_march(mp + 1),
{
}

/// The first day of a year that starts in March, counted in 400-year eras.
proof fn eras_match_the_calendar(era: int, yoe: int)
    requires
        0 <= yoe < 400,
    ensures
        days_before_year(400 * era + yoe + 1) == 146_097 * era + 365 * yoe + yoe / 4 - yoe / 100
            + yoe / 400,
        days_before_year(400 * era + yoe + 2) == 146_097 * era + 365 * (yoe + 1) + (yoe + 1) / 4 - (
        yoe + 1) / 100 + (yoe + 1) / 400,
{
    let y = 400 * era + yoe;
    assert(y / 4 == 100 * era + yoe / 4);
    assert(y / 100 == 4 * era + yoe / 100);
    assert(y / 400 == era + yoe / 400);
    assert((y + 1) / 4 == 100 * era + (yoe + 1) / 4);
    assert((y + 1) / 100 == 4 * era + (yoe + 1) / 100);
    assert((y + 1) / 400 == era + (yoe + 1) / 400);
}

proof fn civil_date_is_exact(z: int, y: int, doy: int, mp: int)
    requires
        0 <= doy,
        z + 719_468 == days_before_year(y + 1) + doy,
        z + 719_468 < days_before_year(y + 2),
        mp == (5 * doy + 2) / 153,
    ensures
        0 <= mp < 12,
        days_since_march(mp) <= doy,
        doy <= 365,
        ({
            let day = doy - days_since_march(mp) + 1;
            if mp < 10 {
                valid_date(y, mp + 3, day) && day_number(y, mp + 3, day) == z
            } else {
                valid_date(y + 1, mp - 9, day) && day_number(y + 1, mp - 9, day) == z
            }
        }),
{
    year_lengths_add_up(y);
    year_lengths_add_up(y + 1);
    month_of_day_is_exact(doy, mp);
    march_years_match_the_calendar(y, mp);
    march_years_match_the_calendar(y + 1, mp);
    month_lengths_add_up(y);
    assert(days_before_year(1970) == 719_162);
}

/// The proleptic Gregorian year, month and day that lie `z` days after
/// 1970-01-01.
pub fn civil_from_days(z: i64) -> (date: (i64, u32, u32))
    requires
        z <= i64::MAX - 719_468,
    ensures
        valid_date(date.0 as int, date.1 as int, date.2 as int),
        day_number(date.0 as int, date.1 as int, date.2 as int) == z,
{
    let shifted: i64 = z + 719_468;
    let era: i64 = if shifted >= 0 {
        shifted / 146_097
    } else {
        (shifted - 146_096) / 146_097
    };
    assert(era == shifted as int / 146_097);
    let day_of_era: u64 = (shifted - era * 146_097) as u64;
    let year_of_era: u64 = (day_of_era - day_of_era / 1_460 + day_of_era / 36_524 - day_of_era
        / 146_096) / 365;
    proof {
        year_of_era_is_exact(day_of_era, year_of_era, (year_of_era + 1) as u64);
        eras_match_the_calendar(era as int, year_of_era as int);
    }
    let march_year: i64 = year_of_era as i64 + era * 400;
    let day_of_year: u64 = day_of_era - (365 * year_of_era + year_of_era / 4 - year_of_era / 100);
    let mp: u64 = (5 * day_of_year + 2) / 153;
    proof {
        civil_date_is_exact(z as int, march_year as int, day_of_year as int, mp as int);
    }
    let day: u32 = (day_of_year - (153 * mp + 2) / 5 + 1) as u32;
    let month: u32 = if mp < 10 {
        (mp + 3) as u32
    } else {
        (mp - 9) as u32
    };
    let year: i64 = if month <= 2 {
        march_year + 1
    } else {
        march_year
    };
    (year, month, day)
}

// ---------------------------------------------------------------------------
// RFC 3339 text.
// ---------------------------------------------------------------------------

/// The valid date with a given day number.
pub open spec fn date_of(number: int) -> (int, int, int) {
    choose|date: (int, int, int)|
        valid_date(date.0, date.1, date.2) && #[trigger] day_number(date.0, date.1, date.2)
            == number
}

/// The date of a valid date's day number is that date.
pub proof fn date_of_inverts_day_number(year: int, month: int, day: int)
    requires
        valid_date(year, month, day),
    ensures
        date_of(day_number(year, month, day)) == (year, month, day),
{
    let number = day_number(year, month, day);
    let witness = (year, month, day);
    assert(valid_date(witness.0, witness.1, witness.2) && day_number(
        witness.0,
        witness.1,
        witness.2,
    ) == number);
    let found = date_of(number);
    day_numbers_are_unique(found.0, found.1, found.2, year, month, day);
}

/// `YYYY-MM-DDThh:mm:ssZ` for the whole second that `nanos` nanoseconds
/// since the Unix epoch fall in; the epoch itself for an earlier instant.
pub open spec fn rfc3339(nanos: int) -> Seq<char> {
    let secs = if nanos < 0 {
        0
    } else {
        nanos / 1_000_000_000
    };
    let (year, month, day) = date_of(secs / 86_400);
    let second = secs % 86_400;
    text::zero_padded(year as nat, 4) + "-"@ + text::zero_padded(month as nat, 2) + "-"@
        + text::zero_padded(day as nat, 2) + "T"@ + text::zero_padded((second / 3_600) as nat, 2)
        + ":"@ + text::zero_padded((second % 3_600 / 60) as nat, 2) + ":"@ + text::zero_padded(
        (second % 60) as nat,
        2,
    ) + "Z"@
}

/// `now` as a UTC RFC 3339 timestamp with whole seconds.
pub fn format_rfc3339(now: Timestamp) -> (stamp: String)
    ensures
        stamp@ == rfc3339(now@),
{
    proof {
        use_type_invariant(&now);
    }
    let total_secs: u64 = if now.nanos < 0 {
        0
    } else {
        (now.nanos / NANOS_PER_SEC) as u64
    };
    let days: i64 = (total_secs / 86_400) as i64;
    let secs_of_day: u64 = total_secs % 86_400;
    let (year, month, day) = civil_from_days(days);
    proof {
        date_of_inverts_day_number(year as int, month as int, day as int);
        if year < 1970 {
            later_dates_have_greater_numbers(
                year as int,
                month as int,
                day as int,
                1970,
                1,
                1,
            );
        }
    }
    let hour: u64 = secs_of_day / 3_600;
    let minute: u64 = (secs_of_day % 3_600) / 60;
    let second: u64 = secs_of_day % 60;
    let mut stamp = text::zero_padded_decimal(year as u64, 4);
    stamp.append("-");
    stamp.append(text::zero_padded_decimal(month as u64, 2).as_str());
    stamp.append("-");
    stamp.append(text::zero_padded_decimal(day as u64, 2).as_str());
    stamp.append("T");
    stamp.append(text::zero_padded_decimal(hour, 2).as_str());
    stamp.append(":");
    stamp.append(text::zero_padded_decimal(minute, 2).as_str());
    stamp.append(":");
    stamp.append(text::zero_padded_decimal(second, 2).as_str());
    stamp.append("Z");
    stamp
}

// ---------------------------------------------------------------------------
// Laws.
// ---------------------------------------------------------------------------

/// How many days a month has.
pub open spec fn calendar_days(year: int, month: int) -> int {
    if month == 2 {
        if year % 400 == 0 || (year % 4 == 0 && year % 100 != 0) {
            29
        } else {
            28
        }
    } else if month == 1 || month == 3 || month == 5 || month == 7 || month == 8 || month == 10
        || month == 12 {
        31
    } else {
        30
    }
}

/// The day after a day.
pub open spec fn next_day(year: int, month: int, day: int) -> (int, int, int) {
    if day < calendar_days(year, month) {
        (year, month, day + 1)
    } else if month < 12 {
        (year, month + 1, 1)
    } else {
        (year + 1, 1, 1)
    }
}

/// The count of days starts with the first of January 1970 and goes through the
/// calendar day by day.
pub proof fn days_follow_each_other(
    z: i64,
    next: i64,
    today: (i64, u32, u32),
    tomorrow: (i64, u32, u32),
)
    requires
        z < i64::MAX - 719_468,
        next == z + 1,
        call_ensures(civil_from_days, (z,), today),
        call_ensures(civil_from_days, (next,), tomorrow),
    ensures
        z == 0 ==> today == (1970i64, 1u32, 1u32),
        1 <= today.1 <= 12,
        1 <= today.2 <= calendar_days(today.0 as int, today.1 as int),
        (tomorrow.0 as int, tomorrow.1 as int, tomorrow.2 as int) == next_day(
            today.0 as int,
            today.1 as int,
            today.2 as int,
        ),
{
    let (year, month, day) = (today.0 as int, today.1 as int, today.2 as int);
    assert(month_length(year, month) == calendar_days(year, month)) by {
        assert(year % 400 == 0 ==> year % 100 == 0) by {
            assert(year == 400 * (year / 400) + year % 400);
        }
        assert(year % 100 == 0 ==> year % 4 == 0) by {
            assert(year == 100 * (year / 100) + year % 100);
        }
    }
    let (y, m, d) = next_day(year, month, day);
    month_lengths_add_up(year);
    year_lengths_add_up(year);
    reveal_with_fuel(days_before_month, 2);
    assert(days_before_month(year, 13) == days_before_month(year, 12) + 31);
    assert(month_length(y, m) >= 28);
    assert(valid_date(y, m, d));
    assert(day_number(y, m, d) == z + 1);
    day_numbers_are_unique(
        y,
        m,
        d,
        tomorrow.0 as int,
        tomorrow.1 as int,
        tomorrow.2 as int,
    );
    if z == 0 {
        assert(day_number(1970, 1, 1) == 0);
        day_numbers_are_unique(year, month, day, 1970, 1, 1);
    }
}

/// A two-digit number stands at a place.
pub open spec fn two_digits_at(stamp: Seq<char>, at: int, n: int) -> bool {
    text::numeric(stamp.subrange(at, at + 2)) && text::value(stamp.subrange(at, at + 2)) == n
}

/// A timestamp shows the date and the time of day of its whole second, each
/// number in its place; an instant before the epoch shows the epoch.
pub proof fn timestamps_show_date_and_time(
    now: Timestamp,
    stamp: String,
    secs: int,
    day: i64,
    date: (i64, u32, u32),
)
    requires
        call_ensures(format_rfc3339, (now,), stamp),
        now@ >= 0 ==> secs * 1_000_000_000 <= now@ < (secs + 1) * 1_000_000_000,
        now@ < 0 ==> secs == 0,
        0 <= secs,
        day == secs / 86_400,
        day < i64::MAX - 719_468,
        call_ensures(civil_from_days, (day,), date),
        date.0 <= 9_999,
    ensures
        stamp@.len() == 20,
        text::numeric(stamp@.subrange(0, 4)),
        text::value(stamp@.subrange(0, 4)) == date.0,
        stamp@[4] == '-',
        two_digits_at(stamp@, 5, date.1 as int),
        stamp@[7] == '-',
        two_digits_at(stamp@, 8, date.2 as int),
        stamp@[10] == 'T',
        two_digits_at(stamp@, 11, secs % 86_400 / 3_600),
        stamp@[13] == ':',
        two_digits_at(stamp@, 14, secs % 3_600 / 60),
        stamp@[16] == ':',
        two_digits_at(stamp@, 17, secs % 60),
        stamp@[19] == 'Z',
{
    let (year, month, of_month) = (date.0 as int, date.1 as int, date.2 as int);
    date_of_inverts_day_number(year, month, of_month);
    if year < 1970 {
        later_dates_have_greater_numbers(year, month, of_month, 1970, 1, 1);
        assert(day_number(1970, 1, 1) == 0);
    }
    let second = secs % 86_400;
    assert(secs == if now@ < 0 {
        0
    } else {
        now@ / 1_000_000_000
    });
    assert(second % 3_600 == secs % 3_600);
    assert(second % 60 == secs % 60);
    let y = text::zero_padded(year as nat, 4);
    let mo = text::zero_padded(month as nat, 2);
    let d = text::zero_padded(of_month as nat, 2);
    let h = text::zero_padded((second / 3_600) as nat, 2);
    let mi = text::zero_padded((second % 3_600 / 60) as nat, 2);
    let s = text::zero_padded((second % 60) as nat, 2);
    text::padded_numbers_are_read_back(year as nat, 4);
    text::padded_numbers_are_read_back(month as nat, 2);
    text::padded_numbers_are_read_back(of_month as nat, 2);
    text::padded_numbers_are_read_back((second / 3_600) as nat, 2);
    text::padded_numbers_are_read_back((second % 3_600 / 60) as nat, 2);
    text::padded_numbers_are_read_back((second % 60) as nat, 2);
    reveal_strlit("-");
    reveal_strlit("T");
    reveal_strlit(":");
    reveal_strlit("Z");
    assert(stamp@ == y + "-"@ + mo + "-"@ + d + "T"@ + h + ":"@ + mi + ":"@ + s + "Z"@);
    assert(stamp@.subrange(0, 4) =~= y);
    assert(stamp@.subrange(5, 7) =~= mo);
    assert(stamp@.subrange(8, 10) =~= d);
    assert(stamp@.subrange(11, 13) =~= h);
    assert(stamp@.subrange(14, 16) =~= mi);
    assert(stamp@.subrange(17, 19) =~= s);
}

/// Between two instants lies their difference, and nothing where the earlier
/// one is the later.
pub proof fn instants_lie_their_difference_apart(
    later: &Timestamp,
    earlier: &Timestamp,
    nanos: u128,
)
    requires
        call_ensures(Timestamp::nanos_since, (later, earlier), nanos),
    ensures
        earlier@ <= later@ ==> earlier@ + nanos == later@,
        earlier@ > later@ ==> nanos == 0,
{
}

/// An instant is its seconds and nanoseconds, and some microseconds earlier it
/// is that much earlier, unless instants do not reach back so far.
pub proof fn instants_count_from_the_epoch(
    secs: i64,
    nanos: u32,
    instant: Timestamp,
    micros: u64,
    earlier: Option<Timestamp>,
)
    requires
        nanos < 1_000_000_000,
        call_ensures(Timestamp::new, (secs, nanos), instant),
        call_ensures(Timestamp::earlier_by_micros, (&instant, micros), earlier),
    ensures
        instant@ == secs * 1_000_000_000 + nanos,
        earlier matches Some(t) ==> t@ + micros * 1_000 == instant@,
        earlier is None <==> instant@ - micros * 1_000 < -0x8000_0000_0000_0000 * 1_000_000_000,
{
}

} // verus!
