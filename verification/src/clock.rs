//! Points in time, as the library is told them.

use crate::number::decimal;
use crate::number::decimal_signed;
use crate::number::decimal_signed_text;
use crate::number::decimal_text;
use crate::number::law_zeros_fill_up;
use crate::number::two_digits;
use crate::number::two_digits_text;
use crate::number::zero_padded;
use crate::number::zero_padded_text;
use crate::text::cat2;
use crate::text::cat5;
use crate::text::cat6;
use crate::text::copy_text;
use vstd::prelude::*;
use vstd::string::StringExecFns;

verus! {

/// A day of the week.
#[derive(Debug, Clone, Copy, PartialEq, Eq, Structural)]
pub enum Weekday {
    Mon,
    Tue,
    Wed,
    Thu,
    Fri,
    Sat,
    Sun,
}

/// The short name of a day.
pub open spec fn weekday_name(day: Weekday) -> Seq<char> {
    match day {
        Weekday::Mon => "Mon"@,
        Weekday::Tue => "Tue"@,
        Weekday::Wed => "Wed"@,
        Weekday::Thu => "Thu"@,
        Weekday::Fri => "Fri"@,
        Weekday::Sat => "Sat"@,
        Weekday::Sun => "Sun"@,
    }
}

impl Weekday {
    /// The short name of a day.
    pub fn name(&self) -> (r: String)
        ensures
            r@ == weekday_name(*self),
    {
        match self {
            Weekday::Mon => copy_text("Mon"),
            Weekday::Tue => copy_text("Tue"),
            Weekday::Wed => copy_text("Wed"),
            Weekday::Thu => copy_text("Thu"),
            Weekday::Fri => copy_text("Fri"),
            Weekday::Sat => copy_text("Sat"),
            Weekday::Sun => copy_text("Sun"),
        }
    }
}

/// Whether a list holds a day.
pub fn has_day(days: &Vec<Weekday>, day: Weekday) -> (r: bool)
    ensures
        r == days@.contains(day),
{
    let mut i: usize = 0;
    while i < days.len()
        invariant
            i <= days@.len(),
            forall|j: int| 0 <= j < i ==> days@[j] != day,
        decreases days@.len() - i,
    {
        if days[i] == day {
            return true;
        }
        i = i + 1;
    }
    false
}

/// An instant: seconds since the start of 1970 in UTC, and the nanoseconds
/// behind them.
#[derive(Debug, Clone, Copy, PartialEq, Eq, Structural)]
pub struct Timestamp {
    pub secs: i64,
    pub nanos: u32,
}

impl Timestamp {
    /// Nanoseconds since the start of 1970.
    pub open spec fn total_nanos(self) -> int {
        self.secs * 1_000_000_000 + self.nanos
    }
}

/// The whole minutes from `earlier` to `now`, rounded towards zero; negative
/// where `earlier` is the later instant.
pub open spec fn elapsed_minutes(now: Timestamp, earlier: Timestamp) -> int {
    let nanos = now.total_nanos() - earlier.total_nanos();
    if nanos >= 0 {
        nanos / 60_000_000_000
    } else {
        -((-nanos) / 60_000_000_000)
    }
}

/// The whole minutes from `earlier` to `now`, rounded towards zero.
pub fn minutes_between(now: Timestamp, earlier: Timestamp) -> (r: i64)
    ensures
        r == elapsed_minutes(now, earlier),
{
    let a: i128 = now.secs as i128 * 1_000_000_000 + now.nanos as i128;
    let b: i128 = earlier.secs as i128 * 1_000_000_000 + earlier.nanos as i128;
    let nanos: i128 = a - b;
    if nanos >= 0 {
        (nanos / 60_000_000_000) as i64
    } else {
        -(((-nanos) / 60_000_000_000) as i64)
    }
}

/// The clock on the wall, read once: the instant, and what the local calendar
/// says of it.
#[derive(Debug, Clone, Copy, PartialEq, Eq, Structural)]
pub struct ClockReading {
    pub now: Timestamp,
    /// Days since a fixed day; the next day has the next number.
    pub day: i32,
    pub weekday: Weekday,
    pub year: i32,
    pub month: u32,
    pub day_of_month: u32,
    pub hour: u32,
    pub minute: u32,
    pub second: u32,
}

impl ClockReading {
    /// Minutes since midnight.
    pub open spec fn minute_of_day(self) -> int {
        self.hour * 60 + self.minute
    }
}

/// A year in at least four digits, with a sign outside of 0 to 9999.
pub open spec fn year_text(year: int) -> Seq<char> {
    if year < 0 {
        "-"@ + zero_padded(decimal((-year) as nat), 4)
    } else if year > 9999 {
        "+"@ + decimal(year as nat)
    } else {
        zero_padded(decimal(year as nat), 4)
    }
}

/// The local date and time, as in `2024-01-31 08:05:00`.
pub open spec fn stamp(clock: ClockReading) -> Seq<char> {
    year_text(clock.year as int) + "-"@ + two_digits(clock.month as nat) + "-"@ + two_digits(
        clock.day_of_month as nat,
    ) + (" "@ + two_digits(clock.hour as nat) + ":"@ + two_digits(clock.minute as nat) + ":"@
        + two_digits(clock.second as nat))
}

/// A message with the local date and time before it, in square brackets.
pub open spec fn stamped(clock: ClockReading, message: Seq<char>) -> Seq<char> {
    "["@ + stamp(clock) + "] "@ + message
}

/// The name of the log file of a day: month, day and the last two digits of the
/// year.
pub open spec fn log_file_name(clock: ClockReading) -> Seq<char> {
    two_digits(clock.month as nat) + "-"@ + two_digits(clock.day_of_month as nat) + "-"@ + (
    year_of_century(clock.year as int) + ".log"@)
}

/// The year within its century in at least two characters.
pub open spec fn year_of_century(year: int) -> Seq<char> {
    if year < 0 {
        zero_padded(decimal_signed(-((-year) % 100)), 2)
    } else {
        zero_padded(decimal_signed(year % 100), 2)
    }
}

fn year_in_text(year: i32) -> (r: String)
    ensures
        r@ == year_text(year as int),
{
    if year < 0 {
        let digits = zero_padded_text(decimal_text((-(year as i64)) as u64), 4);
        cat2("-", digits.as_str())
    } else if year > 9999 {
        let digits = decimal_text(year as u64);
        cat2("+", digits.as_str())
    } else {
        zero_padded_text(decimal_text(year as u64), 4)
    }
}

impl ClockReading {
    /// The local date and time.
    pub fn stamp(&self) -> (r: String)
        ensures
            r@ == stamp(*self),
    {
        let year = year_in_text(self.year);
        let month = two_digits_text(self.month as u64);
        let day = two_digits_text(self.day_of_month as u64);
        let hour = two_digits_text(self.hour as u64);
        let minute = two_digits_text(self.minute as u64);
        let second = two_digits_text(self.second as u64);
        let date = cat5(year.as_str(), "-", month.as_str(), "-", day.as_str());
        let time = cat6(" ", hour.as_str(), ":", minute.as_str(), ":", second.as_str());
        cat2(date.as_str(), time.as_str())
    }

    /// A message with the local date and time before it.
    pub fn stamped(&self, message: &str) -> (r: String)
        ensures
            r@ == stamped(*self, message@),
    {
        let text = self.stamp();
        let mut r = copy_text("[");
        r.append(text.as_str());
        r.append("] ");
        r.append(message);
        r
    }

    /// The name of the log file of this day.
    pub fn log_file_name(&self) -> (r: String)
        ensures
            r@ == log_file_name(*self),
    {
        let month = two_digits_text(self.month as u64);
        let day = two_digits_text(self.day_of_month as u64);
        let within: i64 = if self.year < 0 {
            -((-(self.year as i64)) % 100)
        } else {
            self.year as i64 % 100
        };
        let year = zero_padded_text(decimal_signed_text(within), 2);
        let ending = cat2(year.as_str(), ".log");
        cat5(month.as_str(), "-", day.as_str(), "-", ending.as_str())
    }
}

// ---------------------------------------------------------------------------
// Laws
// ---------------------------------------------------------------------------

/// So many minutes have passed if and only if so many times sixty seconds have, and not
/// another sixty. They count from the earlier instant to the later one.
pub proof fn law_minutes_are_sixty_seconds(now: Timestamp, earlier: Timestamp, minutes: nat)
    ensures
        ({
            let nanos = (now.secs - earlier.secs) * 1_000_000_000 + (now.nanos - earlier.nanos);
            nanos >= 0 ==> (elapsed_minutes(now, earlier) == minutes <==> minutes * 60_000_000_000
                <= nanos < (minutes + 1) * 60_000_000_000)
        }),
        elapsed_minutes(now, earlier) == -elapsed_minutes(earlier, now),
{
}

/// The days of the week are named by their first three letters.
pub proof fn law_days_are_named()
    ensures
        weekday_name(Weekday::Mon) == "Mon"@,
        weekday_name(Weekday::Tue) == "Tue"@,
        weekday_name(Weekday::Wed) == "Wed"@,
        weekday_name(Weekday::Thu) == "Thu"@,
        weekday_name(Weekday::Fri) == "Fri"@,
        weekday_name(Weekday::Sat) == "Sat"@,
        weekday_name(Weekday::Sun) == "Sun"@,
{
}

/// A date is written year first, and behind it the time of day: `2024-01-31 08:05:00`.
/// A message is written behind it, in square brackets.
pub proof fn law_messages_are_stamped(clock: ClockReading, message: Seq<char>)
    requires
        1000 <= clock.year <= 9999,
    ensures
        stamped(clock, message) == "["@ + decimal(clock.year as nat) + "-"@ + two_digits(
            clock.month as nat,
        ) + "-"@ + two_digits(clock.day_of_month as nat) + " "@ + two_digits(clock.hour as nat)
            + ":"@ + two_digits(clock.minute as nat) + ":"@ + two_digits(clock.second as nat)
            + "] "@ + message,
{
    let year = clock.year as nat;
    lemma_four_digits(year);
    law_zeros_fill_up(decimal(year), 4);
    assert(stamped(clock, message) =~= "["@ + decimal(clock.year as nat) + "-"@ + two_digits(
        clock.month as nat,
    ) + "-"@ + two_digits(clock.day_of_month as nat) + " "@ + two_digits(clock.hour as nat) + ":"@
        + two_digits(clock.minute as nat) + ":"@ + two_digits(clock.second as nat) + "] "@
        + message);
}

/// A number of four digits has them.
proof fn lemma_four_digits(n: nat)
    requires
        1000 <= n <= 9999,
    ensures
        decimal(n).len() == 4,
{
    reveal_with_fuel(decimal, 4);
}

/// The log file of a day is named by its month, its day and the last two digits of its
/// year.
pub proof fn law_log_files_are_named(clock: ClockReading)
    requires
        clock.year >= 0,
    ensures
        log_file_name(clock) == two_digits(clock.month as nat) + "-"@ + two_digits(
            clock.day_of_month as nat,
        ) + "-"@ + two_digits((clock.year % 100) as nat) + ".log"@,
{
    assert(log_file_name(clock) =~= two_digits(clock.month as nat) + "-"@ + two_digits(
        clock.day_of_month as nat,
    ) + "-"@ + two_digits((clock.year % 100) as nat) + ".log"@);
}

/// A year before 1000 is filled up with zeros to four digits, one before the year 0 has a
/// minus before that, and one after 9999 has a plus before it. The rest of a date does not
/// depend on that.
pub proof fn law_all_years_are_written(clock: ClockReading)
    ensures
        ({
            let rest = "-"@ + two_digits(clock.month as nat) + "-"@ + two_digits(
                clock.day_of_month as nat,
            ) + " "@ + two_digits(clock.hour as nat) + ":"@ + two_digits(clock.minute as nat)
                + ":"@ + two_digits(clock.second as nat);
            &&& 0 <= clock.year <= 9999 ==> stamp(clock) == zero_padded(
                decimal(clock.year as nat),
                4,
            ) + rest
            &&& clock.year > 9999 ==> stamp(clock) == seq!['+'] + decimal(clock.year as nat) + rest
            &&& clock.year < 0 ==> stamp(clock) == seq!['-'] + zero_padded(
                decimal((-clock.year) as nat),
                4,
            ) + rest
        }),
{
    reveal_strlit("+");
    reveal_strlit("-");
    assert("+"@ =~= seq!['+']);
    assert("-"@ =~= seq!['-']);
    let rest = "-"@ + two_digits(clock.month as nat) + "-"@ + two_digits(clock.day_of_month as nat)
        + " "@ + two_digits(clock.hour as nat) + ":"@ + two_digits(clock.minute as nat) + ":"@
        + two_digits(clock.second as nat);
    assert(stamp(clock) =~= year_text(clock.year as int) + rest);
}

} // verus!
