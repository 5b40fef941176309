//! When bills and paycheck transfers fall due.
use vstd::prelude::*;
use crate::date::{
    Date, days_between, days_in_month, parse_anchor_date, parse_iso_date, spec_date_days,
    spec_days_in_month, spec_next_day, spec_previous_day, next_day_in_range,
    previous_day_in_range, spec_parse_anchor_date, spec_parse_iso_date, clamp_u32, date_lt,
    is_valid_date, days_from_civil, law_next_day_advances_one_day,
};
use crate::models::Frequency;

verus! {

/// The schedule of a bill or paycheck transfer: the part of a bill that says
/// on which days it is paid.
#[derive(Clone, Debug)]
pub struct BillSchedule {
    pub due_day: u32,
    pub frequency: Frequency,
    pub renewal_month: u32,
    /// "YYYY-MM-DD" of one occurrence, used by biweekly schedules.
    pub anchor_date: Option<String>,
}

pub open spec fn min_u32(a: u32, b: u32) -> u32 {
    if a < b {
        a
    } else {
        b
    }
}

/// Paydays are the 15th and the last payday of the month: the 30th, or the
/// month's last day when it is shorter.
pub open spec fn spec_is_payday(d: Date) -> bool {
    d.day == 15 || d.day == min_u32(30, spec_days_in_month(d.year as int, d.month as int) as u32)
}

/// The anchor used when a schedule has no readable anchor date: the due day of
/// the renewal month in 2026.
pub open spec fn default_anchor(b: BillSchedule) -> Date {
    let month = clamp_u32(b.renewal_month, 1, 12);
    Date {
        year: 2026,
        month,
        day: min_u32(b.due_day, spec_days_in_month(2026, month as int) as u32),
    }
}

/// The anchor of a schedule. `strict` reads the anchor string as the
/// forecast does (clamping month and day); otherwise it is read as the bill
/// editor does (as written).
pub open spec fn spec_anchor(b: BillSchedule, strict: bool) -> Date {
    match b.anchor_date {
        Some(s) => {
            let parsed = if strict {
                spec_parse_anchor_date(s@)
            } else {
                spec_parse_iso_date(s@)
            };
            match parsed {
                Some(d) => d,
                None => default_anchor(b),
            }
        },
        None => default_anchor(b),
    }
}

/// Every fourteenth day from the anchor on.
pub open spec fn spec_biweekly_occurs(anchor: Date, d: Date) -> bool {
    let delta = spec_date_days(d) - spec_date_days(anchor);
    delta >= 0 && delta % 14 == 0
}

/// Whether the schedule has a payment on `d`.
pub open spec fn spec_occurs(b: BillSchedule, d: Date, strict: bool) -> bool {
    if b.frequency == Frequency::Biweekly {
        spec_biweekly_occurs(spec_anchor(b, strict), d)
    } else if b.frequency == Frequency::Semimonthly {
        spec_is_payday(d)
    } else if d.day != min_u32(b.due_day, spec_days_in_month(d.year as int, d.month as int) as u32) {
        false
    } else {
        match b.frequency {
            Frequency::Monthly => true,
            Frequency::Quarterly => d.month % 3 == b.renewal_month % 3,
            Frequency::Yearly => d.month == b.renewal_month,
            _ => false,
        }
    }
}

/// `d` advanced by `k` days.
pub open spec fn advance(d: Date, k: nat) -> Date
    decreases k,
{
    if k == 0 {
        d
    } else {
        advance(spec_next_day(d), (k - 1) as nat)
    }
}

/// `d` moved back by `k` days.
pub open spec fn retreat(d: Date, k: nat) -> Date
    decreases k,
{
    if k == 0 {
        d
    } else {
        retreat(spec_previous_day(d), (k - 1) as nat)
    }
}

/// Checks `d` and the days after it, at most `k` of them, for a payment; when
/// none has one, the day after the last one checked.
pub open spec fn scan_forward(b: BillSchedule, d: Date, k: nat, strict: bool) -> Date
    decreases k,
{
    if k == 0 || spec_occurs(b, d, strict) {
        d
    } else {
        scan_forward(b, spec_next_day(d), (k - 1) as nat, strict)
    }
}

/// The forward scan never steps past the last `i32` year.
pub open spec fn scan_forward_safe(b: BillSchedule, d: Date, k: nat, strict: bool) -> bool
    decreases k,
{
    k == 0 || spec_occurs(b, d, strict) || (next_day_in_range(d) && scan_forward_safe(
        b,
        spec_next_day(d),
        (k - 1) as nat,
        strict,
    ))
}

/// Checks `d` and the days before it, at most `k` of them, for a payment; when
/// none has one, the day before the last one checked.
pub open spec fn scan_backward(b: BillSchedule, d: Date, k: nat, strict: bool) -> Date
    decreases k,
{
    if k == 0 || spec_occurs(b, d, strict) {
        d
    } else {
        scan_backward(b, spec_previous_day(d), (k - 1) as nat, strict)
    }
}

pub open spec fn scan_backward_safe(b: BillSchedule, d: Date, k: nat, strict: bool) -> bool
    decreases k,
{
    k == 0 || spec_occurs(b, d, strict) || (previous_day_in_range(d) && scan_backward_safe(
        b,
        spec_previous_day(d),
        (k - 1) as nat,
        strict,
    ))
}

/// The days a search for the next or previous payment looks at.
pub open spec fn search_span() -> nat {
    371
}

/// Returns true on the 15th and on the month's last payday (the 30th, or the
/// last day of a shorter month).
pub fn is_payday(date: Date) -> (r: bool)
    ensures
        r == spec_is_payday(date),
{
    let last = days_in_month(date.year, date.month);
    let last_payday = if last < 30 {
        last
    } else {
        30
    };
    date.day == 15 || date.day == last_payday
}

/// Semimonthly schedules pay on every payday.
pub fn semimonthly_bill_occurs(date: Date) -> (r: bool)
    ensures
        r == spec_is_payday(date),
{
    is_payday(date)
}

fn default_anchor_date(bill: &BillSchedule) -> (r: Date)
    ensures
        r == default_anchor(*bill),
{
    let month = if bill.renewal_month < 1 {
        1
    } else if bill.renewal_month > 12 {
        12
    } else {
        bill.renewal_month
    };
    let dim = days_in_month(2026, month);
    let day = if bill.due_day < dim {
        bill.due_day
    } else {
        dim
    };
    Date { year: 2026, month, day }
}

/// The anchor date of a schedule, with the anchor string read as the forecast reads it.
pub fn bill_anchor_date(bill: &BillSchedule) -> (r: Option<Date>)
    ensures
        r == Some(spec_anchor(*bill, true)),
{
    match &bill.anchor_date {
        Some(s) => match parse_anchor_date(s.as_str()) {
            Some(d) => Some(d),
            None => Some(default_anchor_date(bill)),
        },
        None => Some(default_anchor_date(bill)),
    }
}

/// The anchor date of a schedule, with the anchor string read as the bill editor reads it.
pub fn bill_anchor_date_for_ui(bill: &BillSchedule) -> (r: Option<Date>)
    ensures
        r == Some(spec_anchor(*bill, false)),
{
    match &bill.anchor_date {
        Some(s) => match parse_iso_date(s.as_str()) {
            Some(d) => Some(d),
            None => Some(default_anchor_date(bill)),
        },
        None => Some(default_anchor_date(bill)),
    }
}

fn biweekly_occurs(anchor: Option<Date>, date: Date) -> (r: bool)
    ensures
        r == match anchor {
            Some(a) => spec_biweekly_occurs(a, date),
            None => false,
        },
{
    let anchor = match anchor {
        Some(a) => a,
        None => {
            return false;
        },
    };
    let delta = days_between(anchor, date);
    delta >= 0 && delta % 14 == 0
}

/// Biweekly schedules pay every fourteenth day from their anchor date.
pub fn biweekly_bill_occurs(bill: &BillSchedule, date: Date) -> (r: bool)
    ensures
        r == spec_biweekly_occurs(spec_anchor(*bill, true), date),
{
    biweekly_occurs(bill_anchor_date(bill), date)
}

/// Biweekly occurrence with the anchor read as the bill editor reads it.
pub fn biweekly_bill_occurs_for_ui(bill: &BillSchedule, date: Date) -> (r: bool)
    ensures
        r == spec_biweekly_occurs(spec_anchor(*bill, false), date),
{
    biweekly_occurs(bill_anchor_date_for_ui(bill), date)
}

fn occurs(bill: &BillSchedule, date: Date, strict: bool) -> (r: bool)
    ensures
        r == spec_occurs(*bill, date, strict),
{
    if bill.frequency == Frequency::Biweekly {
        return if strict {
            biweekly_bill_occurs(bill, date)
        } else {
            biweekly_bill_occurs_for_ui(bill, date)
        };
    }
    if bill.frequency == Frequency::Semimonthly {
        return semimonthly_bill_occurs(date);
    }
    let dim = days_in_month(date.year, date.month);
    let due = if bill.due_day < dim {
        bill.due_day
    } else {
        dim
    };
    if date.day != due {
        return false;
    }
    match bill.frequency {
        Frequency::Biweekly => false,
        Frequency::Semimonthly => false,
        Frequency::Monthly => true,
        Frequency::Quarterly => date.month % 3 == bill.renewal_month % 3,
        Frequency::Yearly => date.month == bill.renewal_month,
    }
}

/// Whether the schedule has a payment on `date`, as the forecast sees it.
pub fn bill_occurs(bill: &BillSchedule, date: Date) -> (r: bool)
    ensures
        r == spec_occurs(*bill, date, true),
{
    occurs(bill, date, true)
}

/// Whether the schedule has a payment on `date`, as the bill editor sees it.
pub fn bill_occurs_for_ui(bill: &BillSchedule, date: Date) -> (r: bool)
    ensures
        r == spec_occurs(*bill, date, false),
{
    occurs(bill, date, false)
}

fn scan_forward_exec(bill: &BillSchedule, start: Date, strict: bool) -> (r: Date)
    requires
        scan_forward_safe(*bill, start, search_span(), strict),
    ensures
        r == scan_forward(*bill, start, search_span(), strict),
{
    let mut date = start;
    let mut i: u32 = 0;
    while i < 371
        invariant
            i <= 371,
            scan_forward(*bill, start, search_span(), strict) == scan_forward(
                *bill,
                date,
                (371 - i) as nat,
                strict,
            ),
            scan_forward_safe(*bill, date, (371 - i) as nat, strict),
        decreases 371 - i,
    {
        if occurs(bill, date, strict) {
            return date;
        }
        date = date.next_day();
        i += 1;
    }
    date
}

fn scan_backward_exec(bill: &BillSchedule, start: Date, strict: bool) -> (r: Date)
    requires
        scan_backward_safe(*bill, start, search_span(), strict),
    ensures
        r == scan_backward(*bill, start, search_span(), strict),
{
    let mut date = start;
    let mut i: u32 = 0;
    while i < 371
        invariant
            i <= 371,
            scan_backward(*bill, start, search_span(), strict) == scan_backward(
                *bill,
                date,
                (371 - i) as nat,
                strict,
            ),
            scan_backward_safe(*bill, date, (371 - i) as nat, strict),
        decreases 371 - i,
    {
        if occurs(bill, date, strict) {
            return date;
        }
        date = date.previous_day();
        i += 1;
    }
    date
}

/// The first payment day from `date` on, looking at most 371 days ahead.
pub fn next_bill_date_on_or_after(bill: &BillSchedule, date: Date) -> (r: Date)
    requires
        scan_forward_safe(*bill, date, search_span(), true),
    ensures
        r == scan_forward(*bill, date, search_span(), true),
{
    scan_forward_exec(bill, date, true)
}

/// The next due date shown by the bill editor: the first payment day from
/// `date` on, looking at most 371 days ahead.
pub fn next_bill_due_date(bill: &BillSchedule, date: Date) -> (r: Date)
    requires
        scan_forward_safe(*bill, date, search_span(), false),
    ensures
        r == scan_forward(*bill, date, search_span(), false),
{
    scan_forward_exec(bill, date, false)
}

/// The last payment day strictly before `date`, looking at most 371 days back.
pub fn previous_bill_date_before(bill: &BillSchedule, date: Date) -> (r: Date)
    requires
        previous_day_in_range(date),
        scan_backward_safe(*bill, spec_previous_day(date), search_span(), true),
    ensures
        r == scan_backward(*bill, spec_previous_day(date), search_span(), true),
{
    let start = date.previous_day();
    scan_backward_exec(bill, start, true)
}

/// Law: the forward scan stops at the first payment day it reaches, and reaches
/// none before it; when it finds none it stops `k` days on.
pub proof fn law_scan_forward_finds_first_payment(b: BillSchedule, d: Date, k: nat, strict: bool)
    ensures
        exists|j: nat|
            #![trigger advance(d, j)]
            {
                &&& j <= k
                &&& scan_forward(b, d, k, strict) == advance(d, j)
                &&& (j < k ==> spec_occurs(b, advance(d, j), strict))
                &&& forall|i: nat| i < j ==> !spec_occurs(b, #[trigger] advance(d, i), strict)
            },
    decreases k,
{
    if k == 0 || spec_occurs(b, d, strict) {
        assert(advance(d, 0) == d);
        assert(forall|i: nat| i < 0 ==> !spec_occurs(b, #[trigger] advance(d, i), strict));
    } else {
        let n = spec_next_day(d);
        law_scan_forward_finds_first_payment(b, n, (k - 1) as nat, strict);
        let j = choose|j: nat|
            #![trigger advance(n, j)]
            {
                &&& j <= (k - 1) as nat
                &&& scan_forward(b, n, (k - 1) as nat, strict) == advance(n, j)
                &&& (j < (k - 1) as nat ==> spec_occurs(b, advance(n, j), strict))
                &&& forall|i: nat| i < j ==> !spec_occurs(b, #[trigger] advance(n, i), strict)
            };
        assert(advance(d, j + 1) == advance(n, j));
        assert forall|i: nat| i < j + 1 implies !spec_occurs(b, #[trigger] advance(d, i), strict) by {
            if i > 0 {
                assert(advance(d, i) == advance(n, (i - 1) as nat));
            }
        }
    }
}

/// Law: the backward scan stops at the first payment day it reaches going back.
pub proof fn law_scan_backward_finds_first_payment(b: BillSchedule, d: Date, k: nat, strict: bool)
    ensures
        exists|j: nat|
            #![trigger retreat(d, j)]
            {
                &&& j <= k
                &&& scan_backward(b, d, k, strict) == retreat(d, j)
                &&& (j < k ==> spec_occurs(b, retreat(d, j), strict))
                &&& forall|i: nat| i < j ==> !spec_occurs(b, #[trigger] retreat(d, i), strict)
            },
    decreases k,
{
    if k == 0 || spec_occurs(b, d, strict) {
        assert(retreat(d, 0) == d);
        assert(forall|i: nat| i < 0 ==> !spec_occurs(b, #[trigger] retreat(d, i), strict));
    } else {
        let n = spec_previous_day(d);
        law_scan_backward_finds_first_payment(b, n, (k - 1) as nat, strict);
        let j = choose|j: nat|
            #![trigger retreat(n, j)]
            {
                &&& j <= (k - 1) as nat
                &&& scan_backward(b, n, (k - 1) as nat, strict) == retreat(n, j)
                &&& (j < (k - 1) as nat ==> spec_occurs(b, retreat(n, j), strict))
                &&& forall|i: nat| i < j ==> !spec_occurs(b, #[trigger] retreat(n, i), strict)
            };
        assert(retreat(d, j + 1) == retreat(n, j));
        assert forall|i: nat| i < j + 1 implies !spec_occurs(b, #[trigger] retreat(d, i), strict) by {
            if i > 0 {
                assert(retreat(d, i) == retreat(n, (i - 1) as nat));
            }
        }
    }
}


// ----- paydays -----
/// The first payday after `d`: the 15th, else the month's last payday, else the
/// 15th of the next month.
pub open spec fn spec_next_payday_after(d: Date) -> Date {
    let last = min_u32(30, spec_days_in_month(d.year as int, d.month as int) as u32);
    if d.day < 15 {
        Date { day: 15, ..d }
    } else if d.day < last {
        Date { day: last, ..d }
    } else if d.month < 12 {
        Date { year: d.year, month: (d.month + 1) as u32, day: 15 }
    } else {
        Date { year: (d.year + 1) as i32, month: 1, day: 15 }
    }
}

pub open spec fn next_payday_in_range(d: Date) -> bool {
    (d.day >= min_u32(30, spec_days_in_month(d.year as int, d.month as int) as u32) && d.day
        >= 15 && d.month >= 12) ==> d.year < i32::MAX
}

/// The first payday strictly after `date`.
pub fn next_payday_after(date: Date) -> (r: Date)
    requires
        next_payday_in_range(date),
    ensures
        r == spec_next_payday_after(date),
{
    let dim = days_in_month(date.year, date.month);
    let last_payday = if dim < 30 {
        dim
    } else {
        30
    };
    if date.day < 15 {
        Date { day: 15, ..date }
    } else if date.day < last_payday {
        Date { day: last_payday, ..date }
    } else if date.month < 12 {
        Date { year: date.year, month: date.month + 1, day: 15 }
    } else {
        Date { year: date.year + 1, month: 1, day: 15 }
    }
}

/// Law: for a valid date, `next_payday_after` gives a later valid payday, and no
/// valid date strictly between them is a payday.
pub proof fn law_next_payday_is_the_next_payday(d: Date)
    requires
        is_valid_date(d),
        next_payday_in_range(d),
    ensures
        is_valid_date(spec_next_payday_after(d)),
        spec_is_payday(spec_next_payday_after(d)),
        date_lt(d, spec_next_payday_after(d)),
        forall|x: Date|
            is_valid_date(x) && date_lt(d, x) && date_lt(x, spec_next_payday_after(d))
                ==> !spec_is_payday(x),
{
}

/// A measure that every step of `next_day` lowers while the date stays in a
/// given year or earlier.
pub open spec fn walk_measure(d: Date, end_year: i32) -> int {
    (end_year - d.year) * 0x4_0000_0000_0000_0000 + (0x1_0000_0000 - d.month) * 0x2_0000_0000 + (
    0x1_0000_0000 - d.day)
}

pub proof fn lemma_walk_measure_decreases(d: Date, end_year: i32)
    requires
        next_day_in_range(d),
    ensures
        walk_measure(spec_next_day(d), end_year) < walk_measure(d, end_year),
        d.year <= end_year ==> walk_measure(d, end_year) > 0,
{
}

/// The number of paydays among `d`, the day after it, and so on while the day
/// is before `end`.
pub open spec fn paydays_between(d: Date, end: Date) -> nat
    decreases (if walk_measure(d, end.year) > 0 {
        walk_measure(d, end.year)
    } else {
        0
    }),
{
    if !date_lt(d, end) || !next_day_in_range(d) {
        0
    } else {
        proof {
            lemma_walk_measure_decreases(d, end.year);
        }
        (if spec_is_payday(d) {
            1nat
        } else {
            0nat
        }) + paydays_between(spec_next_day(d), end)
    }
}

/// Stepping from `d` towards `end` never passes the last `i32` year.
pub open spec fn walk_safe(d: Date, end: Date) -> bool
    decreases (if walk_measure(d, end.year) > 0 {
        walk_measure(d, end.year)
    } else {
        0
    }),
{
    if !date_lt(d, end) {
        true
    } else if !next_day_in_range(d) {
        false
    } else {
        proof {
            lemma_walk_measure_decreases(d, end.year);
        }
        walk_safe(spec_next_day(d), end)
    }
}

/// The number of paydays from `date` up to, not including, `end`.
pub fn paydays_before(date: Date, end: Date) -> (r: usize)
    requires
        walk_safe(date, end),
        paydays_between(date, end) <= usize::MAX,
    ensures
        r == paydays_between(date, end),
{
    if !(date < end) {
        return 0;
    }
    let ghost total = paydays_between(date, end);
    let mut date = date;
    let mut count: usize = 0;
    while date < end
        invariant
            walk_safe(date, end),
            count + paydays_between(date, end) == total,
            total <= usize::MAX,
        decreases (if walk_measure(date, end.year) > 0 {
            walk_measure(date, end.year)
        } else {
            0
        }),
    {
        proof {
            lemma_walk_measure_decreases(date, end.year);
        }
        if is_payday(date) {
            count += 1;
        }
        date = date.next_day();
    }
    count
}


// ----- weekdays -----
/// Day of the week, 0 for Sunday through 6 for Saturday (1970-01-01 was a Thursday).
pub open spec fn spec_weekday(d: Date) -> int {
    (spec_date_days(d) + 4) % 7
}

/// Day of the week, 0 for Sunday through 6 for Saturday.
pub fn weekday_index(date: Date) -> (r: i64)
    ensures
        r == spec_weekday(date),
        0 <= r < 7,
{
    let days = days_from_civil(date.year, date.month, date.day);
    proof {
        crate::date::lemma_day_number_bounds(date);
    }
    let x = days + 4;
    let m = x % 7;
    let r = if m < 0 {
        m + 7
    } else {
        m
    };
    proof {
        let q = if x >= 0 {
            x / 7
        } else {
            -((-x) / 7)
        };
        vstd::arithmetic::div_mod::lemma_fundamental_div_mod(x as int, 7);
        if x < 0 {
            let a = -x;
            vstd::arithmetic::div_mod::lemma_fundamental_div_mod(a as int, 7);
            if a % 7 == 0 {
                assert(x == (-(a / 7)) * 7 + 0);
                vstd::arithmetic::div_mod::lemma_fundamental_div_mod_converse_mod(
                    x as int,
                    7,
                    -(a / 7),
                    0,
                );
            } else {
                assert(x == (-(a / 7) - 1) * 7 + (7 - a % 7));
                vstd::arithmetic::div_mod::lemma_fundamental_div_mod_converse_mod(
                    x as int,
                    7,
                    -(a / 7) - 1,
                    7 - a % 7,
                );
            }
        }
    }
    r
}

/// Law: on a valid date the weekday of the next day is one more, modulo 7.
pub proof fn law_weekday_advances(d: Date)
    requires
        is_valid_date(d),
        next_day_in_range(d),
    ensures
        spec_weekday(spec_next_day(d)) == (spec_weekday(d) + 1) % 7,
{
    law_next_day_advances_one_day(d);
    let x = spec_date_days(d) + 4;
    vstd::arithmetic::div_mod::lemma_fundamental_div_mod(x, 7);
    vstd::arithmetic::div_mod::lemma_fundamental_div_mod(x + 1, 7);
    let r = x % 7;
    if r == 6 {
        vstd::arithmetic::div_mod::lemma_fundamental_div_mod_converse_mod(x + 1, 7, x / 7 + 1, 0);
    } else {
        vstd::arithmetic::div_mod::lemma_fundamental_div_mod_converse_mod(x + 1, 7, x / 7, r + 1);
    }
}

/// Steps left to the next Thursday after `d`; invalid dates first settle into
/// a valid one.
pub open spec fn thursday_measure(d: Date) -> int {
    if is_valid_date(d) {
        (3 - spec_weekday(d)) % 7 + 1
    } else {
        8 + (0x1_0000_0000 - d.day)
    }
}

pub proof fn lemma_thursday_measure(d: Date)
    requires
        next_day_in_range(d),
        spec_weekday(spec_next_day(d)) != 4,
    ensures
        0 <= thursday_measure(spec_next_day(d)) < thursday_measure(d),
{
    let n = spec_next_day(d);
    assert(0 <= spec_weekday(d) < 7);
    assert(0 <= spec_weekday(n) < 7);
    if is_valid_date(d) {
        law_weekday_advances(d);
        law_next_day_advances_one_day(d);
        let w = spec_weekday(d);
        assert(w == 0 || w == 1 || w == 2 || w == 3 || w == 4 || w == 5 || w == 6);
    } else {
        assert(is_valid_date(n) || n.day == d.day + 1);
        if is_valid_date(n) {
            let w = spec_weekday(n);
            assert(w == 0 || w == 1 || w == 2 || w == 3 || w == 4 || w == 5 || w == 6);
        }
    }
}

/// The first Thursday after `d`, or `None` when the walk would pass the last
/// `i32` year first.
pub open spec fn thursday_walk(d: Date) -> Option<Date>
    decreases (if thursday_measure(d) > 0 {
        thursday_measure(d)
    } else {
        0
    }),
{
    if !next_day_in_range(d) {
        None
    } else if spec_weekday(spec_next_day(d)) == 4 {
        Some(spec_next_day(d))
    } else {
        proof {
            lemma_thursday_measure(d);
        }
        thursday_walk(spec_next_day(d))
    }
}

proof fn lemma_thursday_walk_is_thursday(d: Date)
    requires
        thursday_walk(d) is Some,
    ensures
        spec_weekday(thursday_walk(d)->0) == 4,
    decreases (if thursday_measure(d) > 0 {
        thursday_measure(d)
    } else {
        0
    }),
{
    if next_day_in_range(d) && spec_weekday(spec_next_day(d)) != 4 {
        lemma_thursday_measure(d);
        lemma_thursday_walk_is_thursday(spec_next_day(d));
    }
}

/// The first Thursday strictly after `date`.
pub fn next_thursday_after(date: Date) -> (r: Date)
    requires
        thursday_walk(date) is Some,
    ensures
        Some(r) == thursday_walk(date),
        spec_weekday(r) == 4,
{
    proof {
        lemma_thursday_walk_is_thursday(date);
    }
    let mut d = date;
    loop
        invariant
            thursday_walk(d) == thursday_walk(date),
            thursday_walk(date) is Some,
            spec_weekday(thursday_walk(date)->0) == 4,
        decreases (if thursday_measure(d) > 0 {
            thursday_measure(d)
        } else {
            0
        }),
    {
        let ghost prev = d;
        d = d.next_day();
        if weekday_index(d) == 4 {
            assert(thursday_walk(prev) == Some(d));
            return d;
        }
        proof {
            lemma_thursday_measure(prev);
        }
    }
}


// ----- yearly increases -----
/// How many yearly increases apply to a payment on `date` in a projection that
/// starts on `start`: whole years between them, one more when the renewal month
/// is reached in `date`'s year but had not been by `start`'s, one fewer the
/// other way round, and never below zero.
pub open spec fn spec_increase_years(renewal_month: u32, date: Date, start: Date) -> int {
    let years = date.year - start.year;
    let renewal_passed = date.month >= renewal_month;
    let start_renewal_passed = start.month >= renewal_month;
    let adjusted = if renewal_passed && !start_renewal_passed {
        years + 1
    } else if !renewal_passed && start_renewal_passed {
        years - 1
    } else {
        years
    };
    if adjusted > 0 {
        adjusted
    } else {
        0
    }
}

/// The year difference and its adjustment fit in `i32`.
pub open spec fn increase_years_in_range(renewal_month: u32, date: Date, start: Date) -> bool {
    let years = date.year - start.year;
    &&& i32::MIN <= years <= i32::MAX
    &&& (date.month >= renewal_month && start.month < renewal_month) ==> years < i32::MAX
    &&& (date.month < renewal_month && start.month >= renewal_month) ==> years > i32::MIN
}

/// The number of yearly increases a projected payment on `date` carries.
pub fn projected_increase_years(renewal_month: u32, date: Date, start: Date) -> (r: i32)
    requires
        increase_years_in_range(renewal_month, date, start),
    ensures
        r == spec_increase_years(renewal_month, date, start),
        r >= 0,
{
    let mut years = date.year - start.year;
    let renewal_passed = date.month >= renewal_month;
    let start_renewal_passed = start.month >= renewal_month;
    if renewal_passed && !start_renewal_passed {
        years += 1;
    } else if !renewal_passed && start_renewal_passed {
        years -= 1;
    }
    if years > 0 {
        years
    } else {
        0
    }
}

// ----- whether a walk stays within `i32` years -----
/// `next_day` stays within `i32` years.
pub fn next_day_fits(date: Date) -> (r: bool)
    ensures
        r == next_day_in_range(date),
{
    !(date.day >= days_in_month(date.year, date.month) && date.month >= 12 && date.year == i32::MAX)
}

/// `previous_day` stays within `i32` years.
pub fn previous_day_fits(date: Date) -> (r: bool)
    ensures
        r == previous_day_in_range(date),
{
    !(date.day <= 1 && date.month <= 1 && date.year == i32::MIN)
}

/// Searching forward from `date` for a payment stays within `i32` years.
pub fn forward_search_fits(bill: &BillSchedule, date: Date, strict: bool) -> (r: bool)
    ensures
        r == scan_forward_safe(*bill, date, search_span(), strict),
{
    let mut d = date;
    let mut i: u32 = 0;
    while i < 371
        invariant
            i <= 371,
            scan_forward_safe(*bill, date, search_span(), strict) == scan_forward_safe(
                *bill,
                d,
                (371 - i) as nat,
                strict,
            ),
        decreases 371 - i,
    {
        if occurs(bill, d, strict) {
            return true;
        }
        if !next_day_fits(d) {
            return false;
        }
        d = d.next_day();
        i += 1;
    }
    true
}

fn backward_from_fits(bill: &BillSchedule, start: Date) -> (r: bool)
    ensures
        r == scan_backward_safe(*bill, start, search_span(), true),
{
    let mut d = start;
    let mut i: u32 = 0;
    while i < 371
        invariant
            i <= 371,
            scan_backward_safe(*bill, start, search_span(), true) == scan_backward_safe(
                *bill,
                d,
                (371 - i) as nat,
                true,
            ),
        decreases 371 - i,
    {
        if occurs(bill, d, true) {
            return true;
        }
        if !previous_day_fits(d) {
            return false;
        }
        d = d.previous_day();
        i += 1;
    }
    true
}

/// Searching backward from the day before `date` for a payment stays within
/// `i32` years.
pub fn backward_search_fits(bill: &BillSchedule, date: Date) -> (r: bool)
    ensures
        r == (previous_day_in_range(date) && scan_backward_safe(
            *bill,
            spec_previous_day(date),
            search_span(),
            true,
        )),
{
    if !previous_day_fits(date) {
        return false;
    }
    backward_from_fits(bill, date.previous_day())
}

/// Counting the paydays from `date` up to `end` stays within `i32` years, and
/// the count fits in `usize`.
pub fn payday_count_fits(date: Date, end: Date) -> (r: bool)
    ensures
        r == (walk_safe(date, end) && paydays_between(date, end) <= usize::MAX),
{
    let ghost total = paydays_between(date, end);
    let ghost safe = walk_safe(date, end);
    let mut d = date;
    let mut count: usize = 0;
    while d < end
        invariant
            count + paydays_between(d, end) == total,
            safe == walk_safe(d, end),
            safe == walk_safe(date, end),
            total == paydays_between(date, end),
        decreases (if walk_measure(d, end.year) > 0 {
            walk_measure(d, end.year)
        } else {
            0
        }),
    {
        if !next_day_fits(d) {
            return false;
        }
        proof {
            lemma_walk_measure_decreases(d, end.year);
        }
        if is_payday(d) {
            if count == usize::MAX {
                assert(paydays_between(d, end) >= 1);
                return false;
            }
            count += 1;
        }
        d = d.next_day();
    }
    true
}

/// Walking to the next Thursday stays within `i32` years.
pub fn thursday_search_fits(date: Date) -> (r: bool)
    ensures
        r == thursday_walk(date) is Some,
{
    let mut d = date;
    loop
        invariant
            thursday_walk(d) == thursday_walk(date),
        decreases (if thursday_measure(d) > 0 {
            thursday_measure(d)
        } else {
            0
        }),
    {
        if !next_day_fits(d) {
            return false;
        }
        let n = d.next_day();
        if weekday_index(n) == 4 {
            return true;
        }
        proof {
            lemma_thursday_measure(d);
        }
        d = n;
    }
}

/// Finding the next payday stays within `i32` years.
pub fn next_payday_fits(date: Date) -> (r: bool)
    ensures
        r == next_payday_in_range(date),
{
    let dim = days_in_month(date.year, date.month);
    let last_payday = if dim < 30 {
        dim
    } else {
        30
    };
    !(date.day >= last_payday && date.day >= 15 && date.month >= 12 && date.year == i32::MAX)
}

/// Counting the yearly increases between `start` and `date` stays within `i32`.
pub fn increase_years_fit(renewal_month: u32, date: Date, start: Date) -> (r: bool)
    ensures
        r == increase_years_in_range(renewal_month, date, start),
{
    let years = date.year as i64 - start.year as i64;
    let min = i32::MIN as i64;
    let max = i32::MAX as i64;
    if years < min || years > max {
        return false;
    }
    if date.month >= renewal_month && start.month < renewal_month && years >= max {
        return false;
    }
    if date.month < renewal_month && start.month >= renewal_month && years <= min {
        return false;
    }
    true
}

// ----- biweekly spacing -----
/// Advancing `d` by `k` days stays within `i32` years.
pub open spec fn advance_in_range(d: Date, k: nat) -> bool
    decreases k,
{
    k == 0 || (next_day_in_range(d) && advance_in_range(spec_next_day(d), (k - 1) as nat))
}

proof fn lemma_advance_days(d: Date, k: nat)
    requires
        is_valid_date(d),
        advance_in_range(d, k),
    ensures
        is_valid_date(advance(d, k)),
        spec_date_days(advance(d, k)) == spec_date_days(d) + k,
    decreases k,
{
    if k > 0 {
        law_next_day_advances_one_day(d);
        lemma_advance_days(spec_next_day(d), (k - 1) as nat);
    }
}

/// Law: a biweekly payment comes back fourteen days later, and not on any day
/// in between.
#[verifier::spinoff_prover]
pub proof fn law_biweekly_payment_every_fourteen_days(b: BillSchedule, d: Date, strict: bool)
    requires
        b.frequency == Frequency::Biweekly,
        is_valid_date(d),
        advance_in_range(d, 14),
        spec_occurs(b, d, strict),
    ensures
        spec_occurs(b, advance(d, 14), strict),
        forall|i: nat| 0 < i < 14 ==> !spec_occurs(b, #[trigger] advance(d, i), strict),
{
    let a = spec_anchor(b, strict);
    let delta = spec_date_days(d) - spec_date_days(a);
    assert(delta >= 0 && delta % 14 == 0);
    lemma_advance_days(d, 14);
    assert(spec_biweekly_occurs(a, advance(d, 14)));
    assert forall|i: nat| 0 < i < 14 implies !spec_occurs(b, #[trigger] advance(d, i), strict) by {
        lemma_advance_prefix_in_range(d, i, 14);
        lemma_advance_days(d, i);
        assert((delta + i) % 14 != 0);
    }
}

proof fn lemma_advance_prefix_in_range(d: Date, i: nat, k: nat)
    requires
        i <= k,
        advance_in_range(d, k),
    ensures
        advance_in_range(d, i),
    decreases i,
{
    if i > 0 {
        lemma_advance_prefix_in_range(spec_next_day(d), (i - 1) as nat, (k - 1) as nat);
    }
}

// ----- changing a schedule's frequency -----
pub open spec fn anchor_text(anchor: Option<String>) -> Option<Seq<char>> {
    match anchor {
        Some(a) => Some(a@),
        None => None,
    }
}

/// The schedule after its frequency is changed on `today`: one that becomes
/// biweekly without an anchor date takes its next due date (read as the bill
/// editor reads it) as its anchor; nothing else changes.
pub fn change_frequency(bill: &BillSchedule, frequency: Frequency, today: Date) -> (r: BillSchedule)
    requires
        scan_forward_safe(*bill, today, search_span(), false),
    ensures
        r.frequency == frequency,
        r.due_day == bill.due_day,
        r.renewal_month == bill.renewal_month,
        anchor_text(r.anchor_date) == if frequency == Frequency::Biweekly && bill.anchor_date is None {
            Some(crate::date::spec_iso_date(scan_forward(*bill, today, search_span(), false)))
        } else {
            anchor_text(bill.anchor_date)
        },
{
    let next_due = next_bill_due_date(bill, today);
    let anchor_date = if frequency == Frequency::Biweekly && bill.anchor_date.is_none() {
        Some(crate::date::date_input_value(next_due))
    } else {
        bill.anchor_date.clone()
    };
    BillSchedule { due_day: bill.due_day, frequency, renewal_month: bill.renewal_month, anchor_date }
}

/// Law: a quarterly schedule pays, on its due day (clamped to the month's
/// length), in exactly the months that are a whole number of quarters away
/// from its renewal month, in every year: those whose number leaves the same
/// remainder on division by three.
pub proof fn law_quarterly_pays_every_third_month(b: BillSchedule, year: i32, month: u32, strict: bool)
    requires
        b.frequency == Frequency::Quarterly,
        1 <= month <= 12,
    ensures
        spec_occurs(
            b,
            Date {
                year,
                month,
                day: if b.due_day < spec_days_in_month(year as int, month as int) {
                    b.due_day
                } else {
                    spec_days_in_month(year as int, month as int) as u32
                },
            },
            strict,
        ) <==> (month as int - b.renewal_month as int) % 3 == 0,
{
}

/// Law: a quarterly payment is followed by one three months later and
/// preceded by one three months earlier, across year ends: a quarterly
/// schedule pays on its due day of a month exactly when it pays on its due day
/// three months on.
pub proof fn law_quarterly_payment_recurs_three_months_on(
    b: BillSchedule,
    year: i32,
    month: u32,
    strict: bool,
)
    requires
        b.frequency == Frequency::Quarterly,
        1 <= month <= 12,
        year < i32::MAX,
    ensures
        ({
            let later_month: u32 = if month <= 9 {
                (month + 3) as u32
            } else {
                (month - 9) as u32
            };
            let later_year: i32 = if month <= 9 {
                year
            } else {
                (year + 1) as i32
            };
            let due = |y: i32, m: u32|
                Date {
                    year: y,
                    month: m,
                    day: if b.due_day < spec_days_in_month(y as int, m as int) {
                        b.due_day
                    } else {
                        spec_days_in_month(y as int, m as int) as u32
                    },
                };
            spec_occurs(b, due(year, month), strict) <==> spec_occurs(
                b,
                due(later_year, later_month),
                strict,
            )
        }),
{
}

/// Law: a monthly, quarterly or yearly schedule pays only on its due day,
/// clamped to the month's length: every month when monthly, and once a year,
/// in its renewal month, when yearly. A twice-monthly schedule pays on the
/// 15th and on the 30th, or the month's last day when it is shorter.
pub proof fn law_calendar_schedules_pay_on_their_days(b: BillSchedule, d: Date, strict: bool)
    ensures
        ({
            let last = spec_days_in_month(d.year as int, d.month as int);
            let due_day = if b.due_day < last {
                b.due_day as int
            } else {
                last
            };
            &&& (b.frequency == Frequency::Monthly || b.frequency == Frequency::Quarterly
                || b.frequency == Frequency::Yearly) && d.day != due_day ==> !spec_occurs(b, d, strict)
            &&& b.frequency == Frequency::Monthly ==> (spec_occurs(b, d, strict) <==> d.day == due_day)
            &&& b.frequency == Frequency::Yearly ==> (spec_occurs(b, d, strict) <==> d.day == due_day
                && d.month == b.renewal_month)
            &&& b.frequency == Frequency::Semimonthly ==> (spec_occurs(b, d, strict) <==> (d.day == 15
                || d.day == if last < 30 {
                last
            } else {
                30
            }))
        }),
{
}

} // verus!
