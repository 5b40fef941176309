//! Calendar dates in the proleptic Gregorian calendar.
use vstd::prelude::*;
use crate::text::{chars_of, string_of, extend_chars, push_decimal, push_decimal_padded, push_signed_padded, parse_i32_range, parse_u32_range, decimal, decimal_padded, signed_decimal, signed_padded, parse_i32_spec, parse_u32_spec, all_digits, is_digit_char, law_parse_u32_reads_padded_decimal, law_parse_i32_reads_signed_padded, lemma_decimal_digits};

verus! {

/// A calendar day. Fields are public, so a value need not be a valid date;
/// `is_valid_date` says when it is.
#[derive(Clone, Copy, Debug, PartialEq, Eq, Structural, Ord)]
pub struct Date {
    pub year: i32,
    pub month: u32,
    pub day: u32,
}

/// Gregorian leap-year rule.
pub open spec fn spec_is_leap_year(year: int) -> bool {
    (year % 4 == 0 && year % 100 != 0) || year % 400 == 0
}

/// Length of a month; months outside 1..=12 count as 30 days.
pub open spec fn spec_days_in_month(year: int, month: int) -> int {
    if month == 1 || month == 3 || month == 5 || month == 7 || month == 8 || month == 10
        || month == 12 {
        31
    } else if month == 4 || month == 6 || month == 9 || month == 11 {
        30
    } else if month == 2 {
        if spec_is_leap_year(year) {
            29
        } else {
            28
        }
    } else {
        30
    }
}

/// A date whose month is 1..=12 and whose day exists in that month.
pub open spec fn is_valid_date(d: Date) -> bool {
    &&& 1 <= d.month <= 12
    &&& 1 <= d.day <= spec_days_in_month(d.year as int, d.month as int)
}

/// The day that follows `d`.
pub open spec fn spec_next_day(d: Date) -> Date {
    if d.day < spec_days_in_month(d.year as int, d.month as int) {
        Date { day: (d.day + 1) as u32, ..d }
    } else if d.month < 12 {
        Date { year: d.year, month: (d.month + 1) as u32, day: 1 }
    } else {
        Date { year: (d.year + 1) as i32, month: 1, day: 1 }
    }
}

/// The day that precedes `d`.
pub open spec fn spec_previous_day(d: Date) -> Date {
    if d.day > 1 {
        Date { day: (d.day - 1) as u32, ..d }
    } else if d.month > 1 {
        Date {
            year: d.year,
            month: (d.month - 1) as u32,
            day: spec_days_in_month(d.year as int, d.month - 1) as u32,
        }
    } else {
        Date { year: (d.year - 1) as i32, month: 12, day: 31 }
    }
}

/// `next_day` stays within `i32` years.
pub open spec fn next_day_in_range(d: Date) -> bool {
    (d.day >= spec_days_in_month(d.year as int, d.month as int) && d.month >= 12) ==> d.year
        < i32::MAX
}

/// `previous_day` stays within `i32` years.
pub open spec fn previous_day_in_range(d: Date) -> bool {
    (d.day <= 1 && d.month <= 1) ==> d.year > i32::MIN
}

/// Chronological order: by year, then month, then day.
pub open spec fn date_lt(a: Date, b: Date) -> bool {
    a.year < b.year || (a.year == b.year && (a.month < b.month || (a.month == b.month && a.day
        < b.day)))
}

/// Returns true when `year` is a Gregorian leap year.
pub fn is_leap_year(year: i32) -> (r: bool)
    ensures
        r == spec_is_leap_year(year as int),
{
    let y = year as i64;
    let a: i64 = if y < 0 {
        -y
    } else {
        y
    };
    proof {
        lemma_divisible_negation(y as int, 4);
        lemma_divisible_negation(y as int, 100);
        lemma_divisible_negation(y as int, 400);
    }
    (a % 4 == 0 && a % 100 != 0) || a % 400 == 0
}

/// A number and its negation have the same divisors.
proof fn lemma_divisible_negation(x: int, k: int)
    requires
        k > 0,
    ensures
        (x % k == 0) <==> ((-x) % k == 0),
{
    vstd::arithmetic::div_mod::lemma_fundamental_div_mod(x, k);
    vstd::arithmetic::div_mod::lemma_fundamental_div_mod(-x, k);
    if x % k == 0 {
        let q = x / k;
        assert(-x == (-q) * k) by (nonlinear_arith)
            requires
                x == k * q + 0,
        ;
        vstd::arithmetic::div_mod::lemma_fundamental_div_mod_converse_mod(-x, k, -(x / k), 0);
    }
    if (-x) % k == 0 {
        let q = (-x) / k;
        assert(x == (-q) * k) by (nonlinear_arith)
            requires
                -x == k * q + 0,
        ;
        vstd::arithmetic::div_mod::lemma_fundamental_div_mod_converse_mod(x, k, -((-x) / k), 0);
    }
}

/// Number of days in `month` of `year`; months outside 1..=12 give 30.
pub fn days_in_month(year: i32, month: u32) -> (r: u32)
    ensures
        r == spec_days_in_month(year as int, month as int),
        28 <= r <= 31,
{
    match month {
        1 | 3 | 5 | 7 | 8 | 10 | 12 => 31,
        4 | 6 | 9 | 11 => 30,
        2 => {
            if is_leap_year(year) {
                29
            } else {
                28
            }
        },
        _ => 30,
    }
}

pub open spec fn spec_month_label(month: u32) -> Seq<char> {
    if month == 1 {
        "Jan"@
    } else if month == 2 {
        "Feb"@
    } else if month == 3 {
        "Mar"@
    } else if month == 4 {
        "Apr"@
    } else if month == 5 {
        "May"@
    } else if month == 6 {
        "Jun"@
    } else if month == 7 {
        "Jul"@
    } else if month == 8 {
        "Aug"@
    } else if month == 9 {
        "Sep"@
    } else if month == 10 {
        "Oct"@
    } else if month == 11 {
        "Nov"@
    } else {
        "Dec"@
    }
}

/// Three-letter English month abbreviation; any month past 11 reads "Dec".
pub fn month_label(month: u32) -> (r: &'static str)
    ensures
        r@ == spec_month_label(month),
{
    match month {
        1 => "Jan",
        2 => "Feb",
        3 => "Mar",
        4 => "Apr",
        5 => "May",
        6 => "Jun",
        7 => "Jul",
        8 => "Aug",
        9 => "Sep",
        10 => "Oct",
        11 => "Nov",
        _ => "Dec",
    }
}

impl Date {
    /// The following calendar day.
    pub fn next_day(self) -> (r: Date)
        requires
            next_day_in_range(self),
        ensures
            r == spec_next_day(self),
    {
        let max_day = days_in_month(self.year, self.month);
        if self.day < max_day {
            return Date { day: self.day + 1, ..self };
        }
        if self.month < 12 {
            Date { year: self.year, month: self.month + 1, day: 1 }
        } else {
            Date { year: self.year + 1, month: 1, day: 1 }
        }
    }

    /// The preceding calendar day.
    pub fn previous_day(self) -> (r: Date)
        requires
            previous_day_in_range(self),
        ensures
            r == spec_previous_day(self),
    {
        if self.day > 1 {
            return Date { day: self.day - 1, ..self };
        }
        if self.month > 1 {
            let month = self.month - 1;
            Date { year: self.year, month, day: days_in_month(self.year, month) }
        } else {
            Date { year: self.year - 1, month: 12, day: 31 }
        }
    }
}


/// Division that rounds toward zero, as Rust's integer `/` does.
pub open spec fn trunc_div(a: int, b: int) -> int {
    if a >= 0 {
        a / b
    } else {
        -((-a) / b)
    }
}

/// Day number of a (year, month, day) triple counted from 1970-01-01, by the
/// era-based civil-calendar formula; months are taken through `i32` as written.
pub open spec fn spec_days_from_civil(year: i32, month: u32, day: u32) -> int {
    let y = year as int - (if month <= 2 {
        1int
    } else {
        0int
    });
    let era = y / 400;
    let yoe = y - era * 400;
    let m = (#[verifier::truncate] (month as i32)) as int;
    let mp = m + (if m > 2 {
        -3int
    } else {
        9int
    });
    let doy = trunc_div(153 * mp + 2, 5) + (#[verifier::truncate] (day as i32)) as int - 1;
    let doe = yoe * 365 + yoe / 4 - yoe / 100 + doy;
    era * 146097 + doe - 719468
}

pub open spec fn spec_date_days(d: Date) -> int {
    spec_days_from_civil(d.year, d.month, d.day)
}

/// Days from 1970-01-01 to the given civil date (negative before it).
pub fn days_from_civil(year: i32, month: u32, day: u32) -> (r: i64)
    ensures
        r == spec_days_from_civil(year, month, day),
{
    let y: i64 = year as i64 - if month <= 2 {
        1i64
    } else {
        0i64
    };
    let shifted: i64 = if y >= 0 {
        y
    } else {
        y - 399
    };
    let era: i64 = shifted / 400;
    proof {
        lemma_floor_div_400(y as int, shifted as int, era as int);
    }
    let yoe: i64 = y - era * 400;
    let m: i64 = (month as i32) as i64;
    let mp: i64 = m + if m > 2 {
        -3i64
    } else {
        9i64
    };
    let doy: i64 = (153 * mp + 2) / 5 + (day as i32) as i64 - 1;
    let doe: i64 = yoe * 365 + yoe / 4 - yoe / 100 + doy;
    era * 146097 + doe - 719468
}

/// Rounding `y - 399` toward zero divides a negative `y` by 400 rounding down.
proof fn lemma_floor_div_400(y: int, shifted: int, q: int)
    requires
        shifted == (if y >= 0 {
            y
        } else {
            y - 399
        }),
        q == trunc_div(shifted, 400),
    ensures
        q == y / 400,
{
    if y < 0 {
        let a = 399 - y;
        let k = a / 400;
        let r = a % 400;
        vstd::arithmetic::div_mod::lemma_fundamental_div_mod(a, 400);
        assert(y == (-k) * 400 + (399 - r));
        vstd::arithmetic::div_mod::lemma_fundamental_div_mod_converse_div(y, 400, -k, 399 - r);
    }
}

/// Days between two dates: positive when `right` comes later.
pub fn days_between(left: Date, right: Date) -> (r: i64)
    ensures
        r == spec_date_days(right) - spec_date_days(left),
{
    let a = days_from_civil(right.year, right.month, right.day);
    let b = days_from_civil(left.year, left.month, left.day);
    proof {
        lemma_days_from_civil_bounds(right.year, right.month, right.day);
        lemma_days_from_civil_bounds(left.year, left.month, left.day);
    }
    a - b
}

/// The day number of any triple stays far inside `i64`.
proof fn lemma_days_from_civil_bounds(year: i32, month: u32, day: u32)
    ensures
        -0x10_0000_0000_0000 < spec_days_from_civil(year, month, day) < 0x10_0000_0000_0000,
{
    let y = year as int - (if month <= 2 {
        1int
    } else {
        0int
    });
    let era = y / 400;
    vstd::arithmetic::div_mod::lemma_fundamental_div_mod(y, 400);
    let m = (#[verifier::truncate] (month as i32)) as int;
    let mp = m + (if m > 2 {
        -3int
    } else {
        9int
    });
    let t = 153 * mp + 2;
    assert(-0x1_0000_0000_0000 < t < 0x1_0000_0000_0000);
    assert(-0x1_0000_0000_0000 < trunc_div(t, 5) < 0x1_0000_0000_0000);
    assert(-0x100_0000 < era < 0x100_0000);
    assert(-0x1_0000_0000_0000 < era * 146097 < 0x1_0000_0000_0000) by (nonlinear_arith)
        requires
            -0x100_0000 < era < 0x100_0000,
    ;
}


/// The year-dependent part of the day-number formula.
spec fn year_days(z: int) -> int {
    let era = z / 400;
    let yoe = z - era * 400;
    era * 146097 + yoe * 365 + yoe / 4 - yoe / 100
}

proof fn lemma_year_days_closed_form(z: int)
    ensures
        year_days(z) == 365 * z + z / 4 - z / 100 + z / 400,
{
    let e = z / 400;
    let r = z % 400;
    vstd::arithmetic::div_mod::lemma_fundamental_div_mod(z, 400);
    assert(z - e * 400 == r);
    let q4 = r / 4;
    vstd::arithmetic::div_mod::lemma_fundamental_div_mod(r, 4);
    assert(z == (100 * e + q4) * 4 + r % 4);
    vstd::arithmetic::div_mod::lemma_fundamental_div_mod_converse_div(z, 4, 100 * e + q4, r % 4);
    let q100 = r / 100;
    vstd::arithmetic::div_mod::lemma_fundamental_div_mod(r, 100);
    assert(z == (4 * e + q100) * 100 + r % 100);
    vstd::arithmetic::div_mod::lemma_fundamental_div_mod_converse_div(
        z,
        100,
        4 * e + q100,
        r % 100,
    );
}

proof fn lemma_floor_div_step(z: int, k: int)
    requires
        k > 0,
    ensures
        (z + 1) / k - z / k == (if (z + 1) % k == 0 {
            1int
        } else {
            0int
        }),
{
    let q = (z + 1) / k;
    let r = (z + 1) % k;
    vstd::arithmetic::div_mod::lemma_fundamental_div_mod(z + 1, k);
    if r == 0 {
        assert(z == (q - 1) * k + (k - 1)) by (nonlinear_arith)
            requires
                z + 1 == k * q + r,
                r == 0,
        ;
        vstd::arithmetic::div_mod::lemma_fundamental_div_mod_converse_div(z, k, q - 1, k - 1);
    } else {
        assert(z == q * k + (r - 1)) by (nonlinear_arith)
            requires
                z + 1 == k * q + r,
        ;
        vstd::arithmetic::div_mod::lemma_fundamental_div_mod_converse_div(z, k, q, r - 1);
    }
}

/// Consecutive shifted years differ by the length of the later calendar year.
proof fn lemma_year_days_step(z: int)
    ensures
        year_days(z + 1) - year_days(z) == 365 + (if spec_is_leap_year(z + 1) {
            1int
        } else {
            0int
        }),
{
    lemma_year_days_closed_form(z);
    lemma_year_days_closed_form(z + 1);
    lemma_floor_div_step(z, 4);
    lemma_floor_div_step(z, 100);
    lemma_floor_div_step(z, 400);
    vstd::arithmetic::div_mod::lemma_fundamental_div_mod(z + 1, 400);
    vstd::arithmetic::div_mod::lemma_fundamental_div_mod(z + 1, 100);
    if (z + 1) % 400 == 0 {
        let q = (z + 1) / 400;
        assert(z + 1 == (4 * q) * 100 + 0);
        vstd::arithmetic::div_mod::lemma_fundamental_div_mod_converse_mod(z + 1, 100, 4 * q, 0);
        assert(z + 1 == (100 * q) * 4 + 0);
        vstd::arithmetic::div_mod::lemma_fundamental_div_mod_converse_mod(z + 1, 4, 100 * q, 0);
    }
    if (z + 1) % 100 == 0 {
        let q = (z + 1) / 100;
        assert(z + 1 == (25 * q) * 4 + 0);
        vstd::arithmetic::div_mod::lemma_fundamental_div_mod_converse_mod(z + 1, 4, 25 * q, 0);
    }
}

/// The day number of a valid date, split into its year part and its day-of-year part.
proof fn lemma_date_days_split(d: Date)
    requires
        is_valid_date(d),
    ensures
        spec_date_days(d) == year_days(d.year - (if d.month <= 2 {
            1int
        } else {
            0int
        })) + (153 * (d.month + (if d.month > 2 {
            -3int
        } else {
            9int
        })) + 2) / 5 + d.day - 1 - 719468,
{
}

/// Law: on a valid date, `next_day` gives a valid, later date whose day number
/// is one more.
pub proof fn law_next_day_advances_one_day(d: Date)
    requires
        is_valid_date(d),
        next_day_in_range(d),
    ensures
        is_valid_date(spec_next_day(d)),
        date_lt(d, spec_next_day(d)),
        spec_date_days(spec_next_day(d)) == spec_date_days(d) + 1,
{
    let n = spec_next_day(d);
    lemma_date_days_split(d);
    lemma_date_days_split(n);
    if d.day < spec_days_in_month(d.year as int, d.month as int) {
    } else if d.month == 2 {
        lemma_year_days_step(d.year - 1);
    } else if d.month < 12 {
        assert(d.month == 1 || d.month == 3 || d.month == 4 || d.month == 5 || d.month == 6
            || d.month == 7 || d.month == 8 || d.month == 9 || d.month == 10 || d.month == 11);
    } else {
    }
}

/// Law: `previous_day` undoes `next_day` on valid dates.
pub proof fn law_previous_day_undoes_next_day(d: Date)
    requires
        is_valid_date(d),
        next_day_in_range(d),
    ensures
        previous_day_in_range(spec_next_day(d)),
        spec_previous_day(spec_next_day(d)) == d,
{
}

/// Law: `next_day` undoes `previous_day` on valid dates.
pub proof fn law_next_day_undoes_previous_day(d: Date)
    requires
        is_valid_date(d),
        previous_day_in_range(d),
    ensures
        is_valid_date(spec_previous_day(d)),
        next_day_in_range(spec_previous_day(d)),
        spec_next_day(spec_previous_day(d)) == d,
{
}


// ----- text forms of dates -----
/// "Mon D, YYYY", as `Date::label` writes it.
pub open spec fn spec_date_label(d: Date) -> Seq<char> {
    spec_month_label(d.month) + seq![' '] + decimal(d.day as nat) + seq![',', ' ']
        + signed_decimal(d.year as int)
}

/// "YYYY-MM-DD" with Rust's `{:04}-{:02}-{:02}` padding.
pub open spec fn spec_iso_date(d: Date) -> Seq<char> {
    signed_padded(d.year as int, 4) + seq!['-'] + decimal_padded(d.month as nat, 2) + seq!['-']
        + decimal_padded(d.day as nat, 2)
}

/// End of the `-`-separated field that begins at `start`.
pub open spec fn field_end(s: Seq<char>, start: int) -> int
    decreases s.len() - start,
{
    if start >= s.len() {
        s.len() as int
    } else if s[start] == '-' {
        start
    } else {
        field_end(s, start + 1)
    }
}

/// The first three `-`-separated fields of `s`, read as a year (`i32`), a month
/// and a day (`u32`), without range checks.
pub open spec fn spec_parse_iso_date(s: Seq<char>) -> Option<Date> {
    let e0 = field_end(s, 0);
    let e1 = field_end(s, e0 + 1);
    let e2 = field_end(s, e1 + 1);
    let year = parse_i32_spec(s.subrange(0, e0));
    let month = parse_u32_spec(s.subrange(e0 + 1, e1));
    let day = parse_u32_spec(s.subrange(e1 + 1, e2));
    if e0 < s.len() && e1 < s.len() && year is Some && month is Some && day is Some {
        Some(Date { year: year->0, month: month->0, day: day->0 })
    } else {
        None
    }
}

pub open spec fn clamp_u32(v: u32, lo: u32, hi: u32) -> u32 {
    if v < lo {
        lo
    } else if v > hi {
        hi
    } else {
        v
    }
}

/// Like `spec_parse_iso_date`, with the month clamped to 1..=12 and the day
/// clamped into that month.
pub open spec fn spec_parse_anchor_date(s: Seq<char>) -> Option<Date> {
    match spec_parse_iso_date(s) {
        Some(d) => {
            let month = clamp_u32(d.month, 1, 12);
            Some(
                Date {
                    year: d.year,
                    month,
                    day: clamp_u32(
                        d.day,
                        1,
                        spec_days_in_month(d.year as int, month as int) as u32,
                    ),
                },
            )
        },
        None => None,
    }
}

fn find_field_end(s: &Vec<char>, start: usize) -> (r: usize)
    requires
        start <= s.len(),
    ensures
        r == field_end(s@, start as int),
        start <= r <= s.len(),
{
    let mut i = start;
    while i < s.len() && s[i] != '-'
        invariant
            start <= i <= s.len(),
            field_end(s@, start as int) == field_end(s@, i as int),
        decreases s.len() - i,
    {
        i += 1;
    }
    i
}

/// Reads "YYYY-MM-DD" (or any `-`-separated year, month, day) without range checks.
pub fn parse_iso_date(value: &str) -> (r: Option<Date>)
    ensures
        r == spec_parse_iso_date(value@),
{
    let s = chars_of(value);
    let e0 = find_field_end(&s, 0);
    let year = parse_i32_range(&s, 0, e0);
    if e0 >= s.len() {
        return None;
    }
    let e1 = find_field_end(&s, e0 + 1);
    let month = parse_u32_range(&s, e0 + 1, e1);
    if e1 >= s.len() {
        return None;
    }
    let e2 = find_field_end(&s, e1 + 1);
    let day = parse_u32_range(&s, e1 + 1, e2);
    match (year, month, day) {
        (Some(year), Some(month), Some(day)) => Some(Date { year, month, day }),
        _ => None,
    }
}

/// The day number of an ISO date string, if it reads as one.
pub fn parse_iso_date_days(value: &str) -> (r: Option<i64>)
    ensures
        r == (match spec_parse_iso_date(value@) {
            Some(d) => Some(spec_date_days(d) as i64),
            None => None,
        }),
{
    match parse_iso_date(value) {
        Some(d) => Some(days_from_civil(d.year, d.month, d.day)),
        None => None,
    }
}

fn clamp(v: u32, lo: u32, hi: u32) -> (r: u32)
    requires
        lo <= hi,
    ensures
        r == clamp_u32(v, lo, hi),
{
    if v < lo {
        lo
    } else if v > hi {
        hi
    } else {
        v
    }
}

/// Reads an anchor date, clamping the month to 1..=12 and the day into the month.
pub fn parse_anchor_date(value: &str) -> (r: Option<Date>)
    ensures
        r == spec_parse_anchor_date(value@),
{
    match parse_iso_date(value) {
        Some(d) => {
            let month = clamp(d.month, 1, 12);
            let day = clamp(d.day, 1, days_in_month(d.year, month));
            Some(Date { year: d.year, month, day })
        },
        None => None,
    }
}

impl Date {
    /// "Mon D, YYYY", for example "May 3, 2026".
    pub fn label(self) -> (r: String)
        ensures
            r@ == spec_date_label(self),
    {
        let mut v: Vec<char> = Vec::new();
        extend_chars(&mut v, month_label(self.month));
        v.push(' ');
        push_decimal(&mut v, self.day as u64);
        v.push(',');
        v.push(' ');
        push_signed_padded(&mut v, self.year as i64, 0);
        string_of(&v)
    }
}

/// "YYYY-MM-DD", the value an HTML date input takes.
pub fn date_input_value(date: Date) -> (r: String)
    ensures
        r@ == spec_iso_date(date),
{
    let mut v: Vec<char> = Vec::new();
    push_signed_padded(&mut v, date.year as i64, 4);
    v.push('-');
    push_decimal_padded(&mut v, date.month as u64, 2);
    v.push('-');
    push_decimal_padded(&mut v, date.day as u64, 2);
    string_of(&v)
}


proof fn lemma_field_end_skips_digits(s: Seq<char>, start: int, len: int)
    requires
        0 <= start,
        0 <= len,
        start + len <= s.len(),
        forall|i: int| start <= i < start + len ==> is_digit_char(#[trigger] s[i]),
        start + len == s.len() || s[start + len] == '-',
    ensures
        field_end(s, start) == start + len,
    decreases len,
{
    if len > 0 {
        lemma_field_end_skips_digits(s, start + 1, len - 1);
    }
}

/// Law: reading back a written date gives the same date, for years from 0 on
/// (a negative year starts with `-`, which the reader takes as a separator).
#[verifier::spinoff_prover]
#[verifier::rlimit(40)]
pub proof fn law_iso_date_round_trip(d: Date)
    requires
        d.year >= 0,
    ensures
        spec_parse_iso_date(spec_iso_date(d)) == Some(d),
{
    let y = signed_padded(d.year as int, 4);
    let m = decimal_padded(d.month as nat, 2);
    let dd = decimal_padded(d.day as nat, 2);
    law_parse_u32_reads_padded_decimal(d.year as u32, 4);
    law_parse_i32_reads_signed_padded(d.year, 4);
    law_parse_u32_reads_padded_decimal(d.month, 2);
    law_parse_u32_reads_padded_decimal(d.day, 2);
    let s = spec_iso_date(d);
    assert(s == y + seq!['-'] + m + seq!['-'] + dd);
    let e0 = y.len() as int;
    let e1 = e0 + 1 + m.len();
    let e2 = e1 + 1 + dd.len();
    assert(s[e0] == '-');
    assert(s[e1] == '-');
    lemma_field_end_skips_digits(s, 0, e0);
    lemma_field_end_skips_digits(s, e0 + 1, m.len() as int);
    lemma_field_end_skips_digits(s, e1 + 1, dd.len() as int);
    assert(s.subrange(0, e0) == y);
    assert(s.subrange(e0 + 1, e1) == m);
    assert(s.subrange(e1 + 1, e2) == dd);
}

/// Law: a valid date with a year from 0 on reads back unchanged as an anchor date.
pub proof fn law_anchor_date_round_trip(d: Date)
    requires
        d.year >= 0,
        is_valid_date(d),
    ensures
        spec_parse_anchor_date(spec_iso_date(d)) == Some(d),
{
    law_iso_date_round_trip(d);
}

/// The day number of any date stays far inside `i64`.
pub proof fn lemma_day_number_bounds(d: Date)
    ensures
        -0x10_0000_0000_0000 < spec_date_days(d) < 0x10_0000_0000_0000,
{
    lemma_days_from_civil_bounds(d.year, d.month, d.day);
}

} // verus!
