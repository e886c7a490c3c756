//! Calendar times as the logger stores them (`YYYY-MM-DD hh:mm:ss` in Indian
//! Standard Time), the clock, and the two-minute rule for recording an exit.
use vstd::prelude::*;
use crate::text::{decimal, pad_front};
use chrono::{Datelike, NaiveDate, NaiveDateTime, Timelike, Utc};
use chrono_tz::Asia::Kolkata;

verus! {

/// A calendar date and wall-clock time without a time zone, field by field
/// as chrono's `NaiveDateTime` reports them. A leap second shows as second
/// 59 with a nanosecond count of at least one billion.
#[derive(Clone, Copy, Debug, PartialEq, Eq, Structural)]
pub struct LocalDateTime {
    pub year: i32,
    pub month: u32,
    pub day: u32,
    pub hour: u32,
    pub minute: u32,
    pub second: u32,
    pub nanosecond: u32,
}

/// Leap years of the proleptic Gregorian calendar.
pub open spec fn is_leap_year(y: int) -> bool {
    y % 4 == 0 && (y % 100 != 0 || y % 400 == 0)
}

/// Number of days in month `m` of year `y`.
pub open spec fn days_in_month(y: int, m: int) -> int {
    if m == 2 {
        if is_leap_year(y) {
            29
        } else {
            28
        }
    } else if m == 4 || m == 6 || m == 9 || m == 11 {
        30
    } else {
        31
    }
}

/// One billion: nanoseconds per second.
pub open spec fn nanos_per_second() -> int {
    1_000_000_000
}

impl LocalDateTime {
    /// A date and time chrono can represent.
    pub open spec fn wf(self) -> bool {
        &&& -262143 <= self.year <= 262142
        &&& 1 <= self.month <= 12
        &&& 1 <= self.day <= days_in_month(self.year as int, self.month as int)
        &&& self.hour < 24
        &&& self.minute < 60
        &&& self.second < 60
        &&& self.nanosecond < 2 * nanos_per_second()
        &&& self.nanosecond >= nanos_per_second() ==> self.second == 59
    }
}

/// Days from 1970-01-01 to the given date of the proleptic Gregorian calendar.
pub open spec fn days_from_civil(y: int, m: int, d: int) -> int {
    let yy = if m <= 2 {
        y - 1
    } else {
        y
    };
    let mp = if m > 2 {
        m - 3
    } else {
        m + 9
    };
    365 * yy + yy / 4 - yy / 100 + yy / 400 + (153 * mp + 2) / 5 + d - 1 - 719468
}

/// Whole seconds from 1970-01-01 00:00:00 to `t`, leaving its nanoseconds out.
pub open spec fn seconds_of(t: LocalDateTime) -> int {
    days_from_civil(t.year as int, t.month as int, t.day as int) * 86400 + t.hour * 3600
        + t.minute * 60 + t.second
}

/// Nanoseconds from `earlier` to `later` (negative when `later` comes first).
pub open spec fn elapsed_nanos(later: LocalDateTime, earlier: LocalDateTime) -> int {
    (seconds_of(later) - seconds_of(earlier)) * nanos_per_second() + later.nanosecond
        - earlier.nanosecond
}

/// Integer division that rounds toward zero, as Rust's `/` on integers.
pub open spec fn div_toward_zero(a: int, b: int) -> int {
    if a >= 0 {
        a / b
    } else {
        -((-a) / b)
    }
}

/// Whole minutes from `earlier` to `later`: whole seconds first, then whole
/// minutes of those, each rounded toward zero (chrono's `num_minutes` of a
/// `signed_duration_since`).
pub open spec fn whole_minutes(later: LocalDateTime, earlier: LocalDateTime) -> int {
    div_toward_zero(div_toward_zero(elapsed_nanos(later, earlier), nanos_per_second()), 60)
}

/// Two digits, zero-padded (`%m`, `%d`, `%H`, `%M`, `%S`).
pub open spec fn two_digits(n: nat) -> Seq<char> {
    pad_front(decimal(n), 2, '0')
}

/// The year as `%Y` writes it: four digits, zero-padded, for 0 to 9999;
/// otherwise with a sign, and zero-padded to four digits after a `-`.
pub open spec fn year_text(y: int) -> Seq<char> {
    if 0 <= y <= 9999 {
        pad_front(decimal(y as nat), 4, '0')
    } else if y > 9999 {
        seq!['+'] + decimal(y as nat)
    } else {
        seq!['-'] + pad_front(decimal((-y) as nat), 4, '0')
    }
}

/// The second as `%S` writes it: 60 during a leap second.
pub open spec fn shown_second(t: LocalDateTime) -> nat {
    if t.nanosecond >= nanos_per_second() {
        (t.second + 1) as nat
    } else {
        t.second as nat
    }
}

/// `%Y-%m-%d` of a date.
pub open spec fn date_text(t: LocalDateTime) -> Seq<char> {
    year_text(t.year as int) + seq!['-'] + two_digits(t.month as nat) + seq!['-'] + two_digits(
        t.day as nat,
    )
}

/// `%Y-%m-%d %H:%M:%S` of a date and time: how the logger stores times.
pub open spec fn timestamp_text(t: LocalDateTime) -> Seq<char> {
    date_text(t) + seq![' '] + two_digits(t.hour as nat) + seq![':'] + two_digits(
        t.minute as nat,
    ) + seq![':'] + two_digits(shown_second(t))
}

/// The chrono format of a stored time.
pub const TIMESTAMP_FORMAT: &'static str = "%Y-%m-%d %H:%M:%S";

/// The chrono format of a stored date.
pub const DATE_FORMAT: &'static str = "%Y-%m-%d";

/// One reading of the clock: the time in UTC, the same instant in
/// Asia/Kolkata, and the milliseconds since the Unix epoch.
#[derive(Clone, Copy, Debug)]
pub struct ClockReading {
    pub utc: LocalDateTime,
    pub kolkata: LocalDateTime,
    pub utc_millis: i64,
}

/// The offset of Indian Standard Time from UTC, in seconds (five hours and a half).
pub open spec fn ist_offset_seconds() -> int {
    19800
}

/// Reads the clock once (`Utc::now()`), with the same instant in Asia/Kolkata
/// (`with_timezone(&Kolkata)`) and as `timestamp_millis()`. Which time comes
/// back depends on the clock. `Utc::now` does not return a time before the
/// Unix epoch (it panics on such a clock), and since 1945 the Asia/Kolkata zone
/// of chrono-tz is UTC+5:30 throughout, so the Kolkata time is the UTC time
/// five and a half hours on, with the same fraction of a second. Both times
/// are valid and outside any leap second, and the milliseconds count the whole
/// seconds of the UTC time from the epoch plus its whole milliseconds.
#[verifier::external_body]
pub(crate) fn read_clock() -> (r: ClockReading)
    ensures
        r.utc.wf(),
        r.kolkata.wf(),
        r.utc.nanosecond < nanos_per_second(),
        r.kolkata.nanosecond == r.utc.nanosecond,
        seconds_of(r.utc) >= 0,
        seconds_of(r.kolkata) == seconds_of(r.utc) + ist_offset_seconds(),
        r.utc_millis == seconds_of(r.utc) * 1000 + r.utc.nanosecond / 1_000_000,
{
    let u = Utc::now();
    let k = u.with_timezone(&Kolkata);
    ClockReading {
        utc: LocalDateTime { year: u.year(), month: u.month(), day: u.day(), hour: u.hour(), minute: u.minute(), second: u.second(), nanosecond: u.nanosecond() },
        kolkata: LocalDateTime { year: k.year(), month: k.month(), day: k.day(), hour: k.hour(), minute: k.minute(), second: k.second(), nanosecond: k.nanosecond() },
        utc_millis: u.timestamp_millis(),
    }
}

/// Formats a date and time with chrono (`format(pattern)`), for the stored
/// time and date formats: chrono writes the year as `year_text`, the other
/// fields as two zero-padded digits, and a leap second as 60.
#[verifier::external_body]
pub(crate) fn format_local(t: &LocalDateTime, pattern: &str) -> (r: String)
    requires
        t.wf(),
        pattern@ == TIMESTAMP_FORMAT@ || pattern@ == DATE_FORMAT@,
    ensures
        pattern@ == TIMESTAMP_FORMAT@ ==> r@ == timestamp_text(*t),
        pattern@ == DATE_FORMAT@ ==> r@ == date_text(*t),
{
    NaiveDate::from_ymd_opt(t.year, t.month, t.day).unwrap().and_hms_nano_opt(
        t.hour,
        t.minute,
        t.second,
        t.nanosecond,
    ).unwrap().format(pattern).to_string()
}

/// What `NaiveDateTime::parse_from_str(text, "%Y-%m-%d %H:%M:%S")` makes of a
/// text: `None` where chrono reports an error.
pub uninterp spec fn parsed_timestamp(text: Seq<char>) -> Option<LocalDateTime>;

/// `NaiveDateTime::parse_from_str(text, pattern)` with the stored time format,
/// field by field. What it accepts is chrono's parser (left to the name); a
/// result is always a valid date and time, and the text that `format_local`
/// writes for a time in the years 0 to 9999 with no fraction of a second
/// parses back to that time.
#[verifier::external_body]
pub(crate) fn parse_local(text: &str, pattern: &str) -> (r: Option<LocalDateTime>)
    requires
        pattern@ == TIMESTAMP_FORMAT@,
    ensures
        r == parsed_timestamp(text@),
        r matches Some(t) ==> t.wf(),
        forall|t: LocalDateTime|
            t.wf() && 0 <= t.year <= 9999 && t.nanosecond == 0 && text@ == timestamp_text(t)
                ==> r == Some(t),
{
    match NaiveDateTime::parse_from_str(text, pattern) {
        Ok(t) => Some(
            LocalDateTime {
                year: t.year(),
                month: t.month(),
                day: t.day(),
                hour: t.hour(),
                minute: t.minute(),
                second: t.second(),
                nanosecond: t.nanosecond(),
            },
        ),
        Err(_) => None,
    }
}

/// `later.signed_duration_since(earlier).num_minutes()`. Outside leap seconds
/// this is `whole_minutes`; when either time is inside a leap second chrono
/// shifts the count by that second, which is left unsaid here.
#[verifier::external_body]
pub(crate) fn minutes_between(later: &LocalDateTime, earlier: &LocalDateTime) -> (r: i64)
    requires
        later.wf(),
        earlier.wf(),
    ensures
        later.nanosecond < nanos_per_second() && earlier.nanosecond < nanos_per_second() ==> r
            == whole_minutes(*later, *earlier),
{
    let a = NaiveDate::from_ymd_opt(later.year, later.month, later.day).unwrap().and_hms_nano_opt(
        later.hour, later.minute, later.second, later.nanosecond).unwrap();
    let b = NaiveDate::from_ymd_opt(earlier.year, earlier.month, earlier.day).unwrap().and_hms_nano_opt(
        earlier.hour, earlier.minute, earlier.second, earlier.nanosecond).unwrap();
    a.signed_duration_since(b).num_minutes()
}

/// Whether `t` is a UTC time that a clock reading gives: a valid time, not
/// before the Unix epoch and outside any leap second.
pub open spec fn is_utc_reading(t: LocalDateTime) -> bool {
    &&& t.wf()
    &&& t.nanosecond < nanos_per_second()
    &&& seconds_of(t) >= 0
}

/// Whether `t` is an Indian Standard Time that a clock reading gives: the
/// time five and a half hours after a UTC time not before the epoch, so at
/// least 19800 seconds after 1970-01-01 00:00:00 on its own count.
pub open spec fn is_ist_reading(t: LocalDateTime) -> bool {
    &&& t.wf()
    &&& t.nanosecond < nanos_per_second()
    &&& seconds_of(t) >= ist_offset_seconds()
}

/// The first year a clock reading can fall in.
pub proof fn lemma_readings_start_in_1970(t: LocalDateTime)
    requires
        t.wf(),
        seconds_of(t) >= 0,
    ensures
        t.year >= 1970,
{
    if t.year <= 1969 {
        let y = t.year as int;
        let m = t.month as int;
        let d = t.day as int;
        let yy = if m <= 2 {
            y - 1
        } else {
            y
        };
        let mp = if m > 2 {
            m - 3
        } else {
            m + 9
        };
        assert(yy <= 1969);
        assert(365 * yy + yy / 4 - yy / 100 + yy / 400 <= 719162 - 365 * (1969 - yy) + (1969
            - yy) / 100 + 1) by {
            assert(yy / 4 <= 492 - (1969 - yy) / 4 + 1);
            assert(yy / 100 >= 19 - (1969 - yy) / 100 - 1);
            assert(yy / 400 <= 4);
        }
        if m > 2 {
            assert((153 * mp + 2) / 5 <= 275);
        } else {
            assert(yy <= 1968);
            assert((153 * mp + 2) / 5 <= 337);
        }
        assert(days_from_civil(y, m, d) < 0);
    }
}

/// The current time in Asia/Kolkata as the logger stores it.
pub fn current_timestamp() -> (r: String)
    ensures
        exists|t: LocalDateTime|
            t.wf() && t.nanosecond < nanos_per_second() && r@ == timestamp_text(t),
        exists|t: LocalDateTime| #[trigger] is_ist_reading(t) && r@ == timestamp_text(t),
{
    let clock = read_clock();
    let now = clock.kolkata;
    let r = format_local(&now, TIMESTAMP_FORMAT);
    proof {
        assert(is_ist_reading(now));
    }
    r
}

/// Today's date in Asia/Kolkata, `YYYY-MM-DD`.
pub fn current_date() -> (r: String)
    ensures
        exists|t: LocalDateTime| t.wf() && r@ == date_text(t),
        exists|t: LocalDateTime| #[trigger] is_ist_reading(t) && r@ == date_text(t),
{
    let clock = read_clock();
    let now = clock.kolkata;
    let r = format_local(&now, DATE_FORMAT);
    proof {
        assert(is_ist_reading(now));
    }
    r
}

/// Whether `exit` is the stored text of a valid time `now` at which the
/// two-minute rule allowed an exit for the stored entry text: the entry reads
/// as a time and, unless one of the two times is inside a leap second, two
/// whole minutes had passed.
pub open spec fn exit_follows_at(entry: Seq<char>, exit: Seq<char>, now: LocalDateTime) -> bool {
    &&& now.wf()
    &&& exit == timestamp_text(now)
    &&& parsed_timestamp(entry) matches Some(e)
    &&& now.nanosecond < nanos_per_second() && e.nanosecond < nanos_per_second() ==> whole_minutes(
        now,
        e,
    ) >= 2
}

/// Whether an exit time `exit` may follow the stored entry text `entry`.
pub open spec fn exit_follows(entry: Seq<char>, exit: Seq<char>) -> bool {
    exists|now: LocalDateTime| #[trigger] exit_follows_at(entry, exit, now)
}

/// What a second scan of a roll number leads to.
pub enum ExitCheck {
    /// The stored entry time is not a `YYYY-MM-DD hh:mm:ss` time.
    Unreadable,
    /// Less than two whole minutes have passed since the entry.
    TooSoon,
    /// The exit is recorded with this time.
    Exit(String),
}

/// Decides, at time `now`, on a second scan whose stored entry time parsed
/// to `entry`: an exit is recorded once two whole minutes have passed.
pub fn exit_decision(now: &LocalDateTime, entry: Option<LocalDateTime>) -> (r: ExitCheck)
    requires
        now.wf(),
        entry matches Some(e) ==> e.wf(),
    ensures
        entry is None <==> r is Unreadable,
        r matches ExitCheck::Exit(t) ==> t@ == timestamp_text(*now),
        entry matches Some(e) ==> (now.nanosecond < nanos_per_second() && e.nanosecond
            < nanos_per_second() ==> (r is Exit <==> whole_minutes(*now, e) >= 2)),
{
    match entry {
        None => ExitCheck::Unreadable,
        Some(e) => {
            let minutes = minutes_between(now, &e);
            if minutes >= 2 {
                ExitCheck::Exit(format_local(now, TIMESTAMP_FORMAT))
            } else {
                ExitCheck::TooSoon
            }
        },
    }
}

/// Decides, at time `now`, on a second scan of a roll number whose stored
/// entry time is `entry_text`.
pub fn exit_check_at(now: &LocalDateTime, entry_text: &str) -> (r: ExitCheck)
    requires
        now.wf(),
    ensures
        parsed_timestamp(entry_text@) is None <==> r is Unreadable,
        r matches ExitCheck::Exit(t) ==> t@ == timestamp_text(*now),
        parsed_timestamp(entry_text@) matches Some(e) ==> (now.nanosecond < nanos_per_second()
            && e.nanosecond < nanos_per_second() ==> (r is Exit <==> whole_minutes(*now, e) >= 2)),
        forall|e: LocalDateTime|
            e.wf() && 0 <= e.year <= 9999 && e.nanosecond == 0 && entry_text@ == timestamp_text(e)
                && now.nanosecond < nanos_per_second() ==> (r is Exit <==> elapsed_nanos(*now, e)
                >= 120 * nanos_per_second()),
        forall|e: LocalDateTime|
            e.wf() && 0 <= e.year <= 9999 && e.nanosecond == 0 && entry_text@ == timestamp_text(e)
                ==> parsed_timestamp(entry_text@) == Some(e),
        r matches ExitCheck::Exit(t) ==> exit_follows(entry_text@, t@),
{
    let entry = parse_local(entry_text, TIMESTAMP_FORMAT);
    let r = exit_decision(now, entry);
    proof {
        assert forall|e: LocalDateTime|
            e.wf() && 0 <= e.year <= 9999 && e.nanosecond == 0 && entry_text@ == timestamp_text(e)
                && now.nanosecond < nanos_per_second() implies (r is Exit <==> elapsed_nanos(
            *now,
            e,
        ) >= 120 * nanos_per_second()) by {
            lemma_two_minutes(*now, e);
        }
        if r is Exit {
            assert(exit_follows_at(entry_text@, r->0@, *now));
        }
    }
    r
}

/// Decides, now, on a second scan of a roll number whose stored entry time
/// is `entry_text`. Whatever the clock says, the decision is the two-minute
/// rule applied at some valid time, which an exit carries as its time.
pub fn exit_check(entry_text: &str) -> (r: ExitCheck)
    ensures
        parsed_timestamp(entry_text@) is None <==> r is Unreadable,
        r matches ExitCheck::Exit(t) ==> exists|now: LocalDateTime|
            {
                &&& now.wf()
                &&& now.nanosecond < nanos_per_second()
                &&& t@ == timestamp_text(now)
                &&& match parsed_timestamp(entry_text@) {
                    Some(e) => e.nanosecond < nanos_per_second() ==> whole_minutes(now, e) >= 2,
                    None => true,
                }
            },
        r is TooSoon ==> exists|now: LocalDateTime|
            {
                &&& now.wf()
                &&& now.nanosecond < nanos_per_second()
                &&& match parsed_timestamp(entry_text@) {
                    Some(e) => e.nanosecond < nanos_per_second() ==> whole_minutes(now, e) < 2,
                    None => true,
                }
            },
        forall|e: LocalDateTime|
            e.wf() && 0 <= e.year <= 9999 && e.nanosecond == 0 && entry_text@ == timestamp_text(e)
                ==> parsed_timestamp(entry_text@) == Some(e),
        r matches ExitCheck::Exit(t) ==> exit_follows(entry_text@, t@),
        r matches ExitCheck::Exit(t) ==> exists|now: LocalDateTime|
            #[trigger] exit_rule_at(entry_text@, now, true) && t@ == timestamp_text(now),
        r is TooSoon ==> exists|now: LocalDateTime| #[trigger] exit_rule_at(entry_text@, now, false),
{
    let clock = read_clock();
    let now = clock.kolkata;
    let r = exit_check_at(&now, entry_text);
    proof {
        assert(is_ist_reading(now));
        if r is Exit {
            assert(exit_rule_at(entry_text@, now, true));
        }
        if r is TooSoon {
            assert(exit_rule_at(entry_text@, now, false));
        }
    }
    r
}

/// Whether `e` is the time an entry text stores: the logger writes times of
/// the years 0 to 9999 in whole seconds.
pub open spec fn stored_as(entry: Seq<char>, e: LocalDateTime) -> bool {
    &&& e.wf()
    &&& 0 <= e.year <= 9999
    &&& e.nanosecond == 0
    &&& entry == timestamp_text(e)
}

/// Whether, at the Indian Standard Time `now` of a clock reading, the
/// two-minute rule says `exits` for an entry stored as `entry`: an exit
/// exactly when at least 120 seconds have passed since the stored time.
pub open spec fn exit_rule_at(entry: Seq<char>, now: LocalDateTime, exits: bool) -> bool {
    &&& is_ist_reading(now)
    &&& forall|e: LocalDateTime|
        #[trigger] stored_as(entry, e) ==> (exits <==> elapsed_nanos(now, e) >= 120
            * nanos_per_second())
}

/// Two whole minutes have passed exactly when at least 120 seconds have.
pub proof fn lemma_two_minutes(later: LocalDateTime, earlier: LocalDateTime)
    ensures
        whole_minutes(later, earlier) >= 2 <==> elapsed_nanos(later, earlier) >= 120
            * nanos_per_second(),
{
    let n = elapsed_nanos(later, earlier);
    let s = div_toward_zero(n, nanos_per_second());
    if n >= 120 * nanos_per_second() {
        assert(s >= 120);
    } else if n >= 0 {
        assert(s < 120);
    } else {
        assert(s <= 0);
    }
}

/// The half of the day a session started in: before noon is `forenoon`.
pub open spec fn session_of(hour: nat) -> Seq<char> {
    if hour < 12 {
        "forenoon"@
    } else {
        "afternoon"@
    }
}

/// The half of the day for a local hour.
pub fn session_of_hour(hour: u32) -> (r: String)
    ensures
        r@ == session_of(hour as nat),
{
    if hour < 12 {
        "forenoon".to_owned()
    } else {
        "afternoon".to_owned()
    }
}

} // verus!
