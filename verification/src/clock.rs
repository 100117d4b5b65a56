//! Clock label projection: the label a `SketchyBar` clock item shows for a
//! local wall-clock time, formatted like `LC_TIME=C date '+%m/%d %a %H:%M:%S'`.

use vstd::prelude::*;

use crate::text::{concat2, digit_char, digit_str, string_views};

verus! {

/// Event emitted when a generic `SketchyBar` clock message should be sent.
pub const OUTPUT_EVENT: &'static str = "clock.sketchybar.message.requested";

/// The `strftime` pattern of the clock label.
pub const CLOCK_LABEL_FORMAT: &'static str = "%m/%d %a %H:%M:%S";

/// Whether `year` is a leap year of the proleptic Gregorian calendar.
pub open spec fn is_leap_year(year: int) -> bool {
    (year % 4 == 0 && year % 100 != 0) || year % 400 == 0
}

/// The number of days of a month.
pub open spec fn days_in_month(year: int, month: int) -> int {
    if month == 2 {
        if is_leap_year(year) {
            29
        } else {
            28
        }
    } else if month == 4 || month == 6 || month == 9 || month == 11 {
        30
    } else {
        31
    }
}

/// Whether the fields name an existing date and time of day within the
/// years `chrono` represents (without leap seconds).
pub open spec fn valid_date_time(
    year: int,
    month: int,
    day: int,
    hour: int,
    minute: int,
    second: int,
) -> bool {
    &&& -262143 <= year <= 262142
    &&& 1 <= month <= 12
    &&& 1 <= day <= days_in_month(year, month)
    &&& 0 <= hour < 24
    &&& 0 <= minute < 60
    &&& 0 <= second < 60
}

/// A local wall-clock date and time.
#[derive(Debug, Clone, Copy)]
pub struct LocalDateTime {
    year: i32,
    month: u32,
    day: u32,
    hour: u32,
    minute: u32,
    second: u32,
}

/// Mathematical model of a [`LocalDateTime`].
pub struct DateTimeModel {
    pub year: int,
    pub month: int,
    pub day: int,
    pub hour: int,
    pub minute: int,
    pub second: int,
}

impl View for LocalDateTime {
    type V = DateTimeModel;

    closed spec fn view(&self) -> DateTimeModel {
        DateTimeModel {
            year: self.year as int,
            month: self.month as int,
            day: self.day as int,
            hour: self.hour as int,
            minute: self.minute as int,
            second: self.second as int,
        }
    }
}

impl LocalDateTime {
    #[verifier::type_invariant]
    spec fn valid(self) -> bool {
        valid_date_time(
            self.year as int,
            self.month as int,
            self.day as int,
            self.hour as int,
            self.minute as int,
            self.second as int,
        )
    }

    /// The date and time of the fields, when they name one.
    pub fn new(year: i32, month: u32, day: u32, hour: u32, minute: u32, second: u32) -> (r: Option<
        Self,
    >)
        ensures
            valid_date_time(
                year as int,
                month as int,
                day as int,
                hour as int,
                minute as int,
                second as int,
            ) <==> r is Some,
            r matches Some(t) ==> t@ == (DateTimeModel {
                year: year as int,
                month: month as int,
                day: day as int,
                hour: hour as int,
                minute: minute as int,
                second: second as int,
            }),
    {
        if year < -262143 || year > 262142 || month < 1 || month > 12 || hour >= 24 || minute >= 60
            || second >= 60 || day < 1 {
            return None;
        }
        let leap = (year % 4 == 0 && year % 100 != 0) || year % 400 == 0;
        proof {
            assert(leap == is_leap_year(year as int)) by (nonlinear_arith)
                requires
                    leap == ((year % 4 == 0 && year % 100 != 0) || year % 400 == 0),
                    -262143 <= year <= 262142,
            ;
        }
        let days: u32 = if month == 2 {
            if leap {
                29
            } else {
                28
            }
        } else if month == 4 || month == 6 || month == 9 || month == 11 {
            30
        } else {
            31
        };
        if day > days {
            return None;
        }
        Some(LocalDateTime { year, month, day, hour, minute, second })
    }
}

/// `n` as two decimal digits, zero-padded, as `strftime` prints `%m`,
/// `%d`, `%H`, `%M` and `%S` (for `0 <= n < 100`).
pub open spec fn two_digits(n: int) -> Seq<char> {
    seq![digit_char(n / 10), digit_char(n % 10)]
}

/// The day of the week of a proleptic Gregorian date by Zeller's
/// congruence: 0 is Saturday, 1 Sunday, and so on to 6, Friday.
pub open spec fn weekday_index(year: int, month: int, day: int) -> int {
    let y = if month < 3 {
        year - 1
    } else {
        year
    };
    let m = if month < 3 {
        month + 12
    } else {
        month
    };
    (day + (13 * (m + 1)) / 5 + y + y / 4 - y / 100 + y / 400) % 7
}

/// `%a`: the English three-letter name of a weekday.
pub open spec fn weekday_abbreviation(index: int) -> Seq<char> {
    if index == 0 {
        "Sat"@
    } else if index == 1 {
        "Sun"@
    } else if index == 2 {
        "Mon"@
    } else if index == 3 {
        "Tue"@
    } else if index == 4 {
        "Wed"@
    } else if index == 5 {
        "Thu"@
    } else {
        "Fri"@
    }
}

/// The clock label of a date and time, `%m/%d %a %H:%M:%S`: month and day
/// of month, the weekday's name, then hours, minutes and seconds.
pub open spec fn clock_label_spec(now: DateTimeModel) -> Seq<char> {
    two_digits(now.month) + "/"@ + two_digits(now.day) + " "@ + weekday_abbreviation(
        weekday_index(now.year, now.month, now.day),
    ) + " "@ + two_digits(now.hour) + ":"@ + two_digits(now.minute) + ":"@ + two_digits(
        now.second,
    )
}

/// Appends `n` as two zero-padded decimal digits.
fn append_two_digits(out: &mut String, n: u32)
    requires
        n < 100,
    ensures
        final(out)@ == old(out)@ + two_digits(n as int),
{
    out.append(digit_str((n / 10) as u64));
    out.append(digit_str((n % 10) as u64));
    assert(seq![digit_char((n / 10) as int)] + seq![digit_char((n % 10) as int)] =~= two_digits(
        n as int,
    ));
}

/// The day of the week of a date, counted from Saturday (0) to Friday (6).
fn weekday_of(year: i32, month: u32, day: u32) -> (r: u32)
    requires
        -262143 <= year <= 262142,
        1 <= month <= 12,
        1 <= day <= 31,
    ensures
        r == weekday_index(year as int, month as int, day as int),
        r < 7,
{
    // 400 Gregorian years hold a whole number of weeks, so shifting the
    // year by a multiple of 400 keeps the weekday and makes it positive.
    let early: i64 = if month < 3 {
        1
    } else {
        0
    };
    let shifted: i64 = year as i64 - early + 400000;
    let m: i64 = if month < 3 {
        month as i64 + 12
    } else {
        month as i64
    };
    let sum: i64 = day as i64 + (13 * (m + 1)) / 5 + shifted + shifted / 4 - shifted / 100 + shifted
        / 400;
    let h: i64 = sum % 7;
    proof {
        let y: int = year as int - early as int;
        assert(shifted == y + 400000);
        assert(shifted / 4 == y / 4 + 100000);
        assert(shifted / 100 == y / 100 + 4000);
        assert(shifted / 400 == y / 400 + 1000);
        let base: int = day as int + (13 * (m + 1)) / 5 + y + y / 4 - y / 100 + y / 400;
        assert(sum == base + 7 * 71000);
        assert(sum % 7 == base % 7) by (nonlinear_arith)
            requires
                sum == base + 7 * 71000,
        ;
    }
    h as u32
}

/// `%a`: the English three-letter name of the weekday `index`.
fn weekday_name(index: u32) -> (r: &'static str)
    requires
        index < 7,
    ensures
        r@ == weekday_abbreviation(index as int),
{
    proof {
        reveal_strlit("Sat");
        reveal_strlit("Sun");
        reveal_strlit("Mon");
        reveal_strlit("Tue");
        reveal_strlit("Wed");
        reveal_strlit("Thu");
        reveal_strlit("Fri");
    }
    match index {
        0 => "Sat",
        1 => "Sun",
        2 => "Mon",
        3 => "Tue",
        4 => "Wed",
        5 => "Thu",
        _ => "Fri",
    }
}

/// The label `chrono`'s `format` renders for the clock's pattern
/// `%m/%d %a %H:%M:%S`: zero-padded month and day, the English weekday
/// name of the date, and zero-padded hours, minutes and seconds. The
/// pattern is this small, so the label is written out and verified here
/// rather than taken on trust.
fn format_with_chrono(now: &LocalDateTime, pattern: &str) -> (r: String)
    requires
        valid_date_time(now@.year, now@.month, now@.day, now@.hour, now@.minute, now@.second),
        pattern@ == CLOCK_LABEL_FORMAT@,
    ensures
        r@ == clock_label_spec(now@),
{
    proof {
        reveal_strlit("/");
        reveal_strlit(" ");
        reveal_strlit(":");
    }
    let mut label = String::new();
    append_two_digits(&mut label, now.month);
    label.append("/");
    append_two_digits(&mut label, now.day);
    label.append(" ");
    label.append(weekday_name(weekday_of(now.year, now.month, now.day)));
    label.append(" ");
    append_two_digits(&mut label, now.hour);
    label.append(":");
    append_two_digits(&mut label, now.minute);
    label.append(":");
    append_two_digits(&mut label, now.second);
    label
}

/// Format a timestamp like `LC_TIME=C date '+%m/%d %a %H:%M:%S'`.
pub fn format_clock_label(now: &LocalDateTime) -> (r: String)
    ensures
        r@ == clock_label_spec(now@),
{
    proof {
        use_type_invariant(now);
    }
    format_with_chrono(now, CLOCK_LABEL_FORMAT)
}

/// Generic `SketchyBar` message request produced by this workflow.
#[derive(Debug, Clone)]
pub struct SketchybarMessageRequest {
    args: Vec<String>,
}

impl View for SketchybarMessageRequest {
    type V = Seq<Seq<char>>;

    closed spec fn view(&self) -> Seq<Seq<char>> {
        string_views(self.args@)
    }
}

impl SketchybarMessageRequest {
    /// Return command-line style `SketchyBar` arguments.
    pub fn args(&self) -> (r: &[String])
        ensures
            string_views(r@) == self@,
    {
        self.args.as_slice()
    }
}

/// Build a `SketchyBar` message request that sets a clock item's label.
pub fn build_clock_message(item: &str, now: &LocalDateTime) -> (r: SketchybarMessageRequest)
    ensures
        r@ == seq!["--set"@, item@, "label="@ + clock_label_spec(now@)],
{
    let label = format_clock_label(now);
    let mut args: Vec<String> = Vec::new();
    args.push(String::from_str("--set"));
    args.push(String::from_str(item));
    args.push(concat2("label=", label.as_str()));
    assert(string_views(args@) =~= seq!["--set"@, item@, "label="@ + clock_label_spec(now@)]);
    SketchybarMessageRequest { args }
}

/// The item a clock render targets: the action's `item` argument, else its
/// `name` argument, else the `NAME` environment value.
pub fn resolve_item(item: Option<String>, name: Option<String>, env_name: Option<String>) -> (r:
    Option<String>)
    ensures
        r == match item {
            Some(i) => Some(i),
            None => match name {
                Some(n) => Some(n),
                None => env_name,
            },
        },
{
    match item {
        Some(i) => Some(i),
        None => match name {
            Some(n) => Some(n),
            None => env_name,
        },
    }
}

/// The date after a valid date: the next day of the month, else the first
/// of the next month, else the first of January of the next year.
pub open spec fn next_date(year: int, month: int, day: int) -> (int, int, int) {
    if day < days_in_month(year, month) {
        (year, month, day + 1)
    } else if month < 12 {
        (year, month + 1, 1)
    } else {
        (year + 1, 1, 1)
    }
}

/// The Zeller sum of a date before it is taken modulo 7.
spec fn zeller_sum(year: int, month: int, day: int) -> int {
    let y = if month < 3 {
        year - 1
    } else {
        year
    };
    let m = if month < 3 {
        month + 12
    } else {
        month
    };
    day + (13 * (m + 1)) / 5 + y + y / 4 - y / 100 + y / 400
}

proof fn lemma_mod_step(a: int, b: int, k: int)
    requires
        b == a + 1 + 7 * k,
    ensures
        b % 7 == (a % 7 + 1) % 7,
{
    assert(b % 7 == (a % 7 + 1) % 7) by (nonlinear_arith)
        requires
            b == a + 1 + 7 * k,
    ;
}

#[verifier::spinoff_prover]
#[verifier::rlimit(30)]
proof fn lemma_leap_day_shift(year: int)
    ensures
        ({
            let p = year - 1;
            (year + year / 4 - year / 100 + year / 400) - (p + p / 4 - p / 100 + p / 400) == if is_leap_year(
                year,
            ) {
                2int
            } else {
                1int
            }
        }),
{
    let p = year - 1;
    assert(year / 4 - p / 4 == if year % 4 == 0 { 1int } else { 0int });
    assert(year / 100 - p / 100 == if year % 100 == 0 { 1int } else { 0int });
    assert(year / 400 - p / 400 == if year % 400 == 0 { 1int } else { 0int });
}

#[verifier::spinoff_prover]
#[verifier::rlimit(30)]
proof fn lemma_month_end_step(year: int, month: int)
    requires
        1 <= month <= 12,
    ensures
        ({
            let (y2, m2, d2) = next_date(year, month, days_in_month(year, month));
            zeller_sum(y2, m2, d2) == zeller_sum(year, month, days_in_month(year, month)) + 1 + 7
                * (if month == 2 {
                -8int
            } else {
                -4int
            })
        }),
{
    if month == 2 {
        lemma_leap_day_shift(year);
    }
}

/// Each day of the calendar falls on the weekday after the one before it,
/// across month ends, leap days and year ends alike.
#[verifier::spinoff_prover]
#[verifier::rlimit(30)]
pub proof fn law_next_day_is_next_weekday(year: int, month: int, day: int)
    requires
        1 <= month <= 12,
        1 <= day <= days_in_month(year, month),
    ensures
        ({
            let (y2, m2, d2) = next_date(year, month, day);
            weekday_index(y2, m2, d2) == (weekday_index(year, month, day) + 1) % 7
        }),
{
    let (y2, m2, d2) = next_date(year, month, day);
    let a = zeller_sum(year, month, day);
    let b = zeller_sum(y2, m2, d2);
    assert(weekday_index(year, month, day) == a % 7);
    assert(weekday_index(y2, m2, d2) == b % 7);
    if day < days_in_month(year, month) {
        lemma_mod_step(a, b, 0);
    } else {
        lemma_month_end_step(year, month);
        if month == 2 {
            lemma_mod_step(a, b, -8);
        } else {
            lemma_mod_step(a, b, -4);
        }
    }
}

/// The week from Monday 8 June 2026 is named `Mon` to `Sun`; with the law
/// above, this fixes the weekday name of every date.
pub proof fn law_weekday_names_of_a_week()
    ensures
        weekday_abbreviation(weekday_index(2026, 6, 8)) == "Mon"@,
        weekday_abbreviation(weekday_index(2026, 6, 9)) == "Tue"@,
        weekday_abbreviation(weekday_index(2026, 6, 10)) == "Wed"@,
        weekday_abbreviation(weekday_index(2026, 6, 11)) == "Thu"@,
        weekday_abbreviation(weekday_index(2026, 6, 12)) == "Fri"@,
        weekday_abbreviation(weekday_index(2026, 6, 13)) == "Sat"@,
        weekday_abbreviation(weekday_index(2026, 6, 14)) == "Sun"@,
{
}

} // verus!
