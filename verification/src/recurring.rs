//! Detecting how often a run of transactions repeats, from the days between
//! them and the calendar months they fall in.
//!
//! Averages and ratios are compared exactly, as fractions of integers.
use vstd::prelude::*;
use crate::date::{Date, days_in_month, parse_iso_date, spec_days_in_month, spec_parse_iso_date,
    spec_date_days, days_from_civil, lemma_day_number_bounds};
use crate::models::RecurringCadence;
use std::collections::BTreeMap;

verus! {

pub open spec fn abs_int(x: int) -> int {
    if x < 0 {
        -x
    } else {
        x
    }
}

/// Sum of the gaps.
pub open spec fn gap_sum(gaps: Seq<i64>) -> int
    decreases gaps.len(),
{
    if gaps.len() == 0 {
        0
    } else {
        gap_sum(gaps.drop_last()) + gaps.last()
    }
}

/// The average `sum / len` lies within `tol / den` of `target / den`.
pub open spec fn average_within(sum: int, len: int, target: int, tol: int, den: int) -> bool {
    abs_int(den * sum - target * len) <= tol * len
}

/// Gaps within `tolerance` of `target`.
pub open spec fn count_near(gaps: Seq<i64>, target: int, tolerance: int) -> nat
    decreases gaps.len(),
{
    if gaps.len() == 0 {
        0
    } else {
        count_near(gaps.drop_last(), target, tolerance) + (if abs_int(gaps.last() - target)
            <= tolerance {
            1nat
        } else {
            0nat
        })
    }
}

/// At least three quarters of the gaps (of at least one) lie within `tolerance` of `target`.
pub open spec fn spec_mostly_within(gaps: Seq<i64>, target: int, tolerance: int) -> bool {
    4 * count_near(gaps, target, tolerance) >= 3 * (if gaps.len() > 0 {
        gaps.len() as int
    } else {
        1
    })
}

fn abs_i128(x: i128) -> (r: i128)
    requires
        x > i128::MIN,
    ensures
        r == abs_int(x as int),
{
    if x < 0 {
        -x
    } else {
        x
    }
}

/// Counts the gaps within `tolerance` of `target`.
fn count_near_exec(gaps: &Vec<i64>, target: i64, tolerance: i64) -> (r: usize)
    ensures
        r == count_near(gaps@, target as int, tolerance as int),
{
    let mut count: usize = 0;
    let mut i: usize = 0;
    while i < gaps.len()
        invariant
            i <= gaps.len(),
            count == count_near(gaps@.take(i as int), target as int, tolerance as int),
            count <= i,
        decreases gaps.len() - i,
    {
        assert(gaps@.take(i + 1).drop_last() == gaps@.take(i as int));
        let d = abs_i128(gaps[i] as i128 - target as i128);
        if d <= tolerance as i128 {
            count += 1;
        }
        i += 1;
    }
    assert(gaps@.take(gaps.len() as int) == gaps@);
    count
}

/// Whether at least three quarters of the gaps are within `tolerance` months of `target`.
pub fn mostly_within_month_gap(gaps: &Vec<i64>, target: i64, tolerance: i64) -> (r: bool)
    ensures
        r == spec_mostly_within(gaps@, target as int, tolerance as int),
{
    let matching = count_near_exec(gaps, target, tolerance);
    let len: usize = if gaps.len() > 0 {
        gaps.len()
    } else {
        1
    };
    4 * (matching as u128) >= 3 * (len as u128)
}

fn sum_gaps(gaps: &Vec<i64>) -> (r: i128)
    ensures
        r == gap_sum(gaps@),
        gaps.len() > 0 ==> -0x8000_0000_0000_0000 * gaps.len() <= r <= 0x8000_0000_0000_0000
            * gaps.len(),
{
    let mut sum: i128 = 0;
    let mut i: usize = 0;
    while i < gaps.len()
        invariant
            i <= gaps.len(),
            sum == gap_sum(gaps@.take(i as int)),
            -0x8000_0000_0000_0000 * i <= sum <= 0x8000_0000_0000_0000 * i,
            gaps.len() <= usize::MAX,
        decreases gaps.len() - i,
    {
        assert(gaps@.take(i + 1).drop_last() == gaps@.take(i as int));
        assert(0x8000_0000_0000_0000 * (i + 1) <= 0x8000_0000_0000_0000 * 0x1_0000_0000_0000_0000)
            by (nonlinear_arith)
            requires
                i < 0x1_0000_0000_0000_0000,
        ;
        sum = sum + gaps[i] as i128;
        i += 1;
    }
    assert(gaps@.take(gaps.len() as int) == gaps@);
    sum
}

fn average_within_exec(sum: i128, len: usize, target: i128, tol: i128, den: i128) -> (r: bool)
    requires
        -0x8000_0000_0000_0000 * len <= sum <= 0x8000_0000_0000_0000 * len,
        0 <= tol <= target <= 1000,
        1 <= den <= 4,
    ensures
        r == average_within(sum as int, len as int, target as int, tol as int, den as int),
{
    assert(0 <= (target + tol) * len <= 2000 * 0x1_0000_0000_0000_0000) by (nonlinear_arith)
        requires
            0 <= tol <= target <= 1000,
            0 <= len <= 0xffff_ffff_ffff_ffff,
    ;
    assert(0 <= (target - tol) * len <= 1000 * 0x1_0000_0000_0000_0000) by (nonlinear_arith)
        requires
            0 <= tol <= target <= 1000,
            0 <= len <= 0xffff_ffff_ffff_ffff,
    ;
    let l = len as i128;
    let hi = (target + tol) * l;
    let lo = (target - tol) * l;
    let upper = hi / den;
    let lower = (lo + den - 1) / den;
    proof {
        let d = den as int;
        let h = hi as int;
        let g = lo as int;
        let x = sum as int;
        vstd::arithmetic::div_mod::lemma_fundamental_div_mod(h, d);
        vstd::arithmetic::div_mod::lemma_fundamental_div_mod(g + d - 1, d);
        let qh = h / d;
        let rh = h % d;
        let ql = (g + d - 1) / d;
        let rl = (g + d - 1) % d;
        assert((d * x <= h) <==> (x <= qh)) by (nonlinear_arith)
            requires
                h == d * qh + rh,
                0 <= rh < d,
                d >= 1,
        ;
        assert((g <= d * x) <==> (ql <= x)) by (nonlinear_arith)
            requires
                g + d - 1 == d * ql + rl,
                0 <= rl < d,
                d >= 1,
        ;
        assert(abs_int(d * x - (target as int) * (len as int)) <= (tol as int) * (len as int) <==> (
        g <= d * x && d * x <= h)) by (nonlinear_arith)
            requires
                h == ((target as int) + (tol as int)) * (len as int),
                g == ((target as int) - (tol as int)) * (len as int),
        ;
    }
    lower <= sum && sum <= upper
}

// ----- twice-monthly pattern -----
/// A day within two days of the 15th or of the month's last payday.
pub open spec fn near_payday(d: Date) -> bool {
    let day = (#[verifier::truncate] (d.day as i32)) as int;
    let end = if 30 < spec_days_in_month(d.year as int, d.month as int) {
        30
    } else {
        spec_days_in_month(d.year as int, d.month as int)
    };
    abs_int(day - 15) <= 2 || abs_int(day - end) <= 2
}

pub open spec fn count_near_payday(dates: Seq<Date>) -> nat
    decreases dates.len(),
{
    if dates.len() == 0 {
        0
    } else {
        count_near_payday(dates.drop_last()) + (if near_payday(dates.last()) {
            1nat
        } else {
            0nat
        })
    }
}

pub open spec fn same_month(a: Date, b: Date) -> bool {
    a.year == b.year && a.month == b.month
}

/// How many of the dates fall in the same year and month as `d`.
pub open spec fn count_in_month(dates: Seq<Date>, d: Date) -> nat
    decreases dates.len(),
{
    if dates.len() == 0 {
        0
    } else {
        count_in_month(dates.drop_last(), d) + (if same_month(dates.last(), d) {
            1nat
        } else {
            0nat
        })
    }
}

/// `dates[i]` is the first date of its month in the list.
pub open spec fn first_of_month(dates: Seq<Date>, i: int) -> bool {
    forall|j: int| 0 <= j < i ==> !same_month(#[trigger] dates[j], dates[i])
}

/// The number of distinct months among `dates[..n]` that hold two or more of all the dates.
pub open spec fn months_with_two(dates: Seq<Date>, n: int) -> nat
    decreases n,
{
    if n <= 0 {
        0
    } else {
        months_with_two(dates, n - 1) + (if first_of_month(dates, n - 1) && count_in_month(
            dates,
            dates[n - 1],
        ) >= 2 {
            1nat
        } else {
            0nat
        })
    }
}

/// Four or more dates, at least four fifths of them near a payday, and two or
/// more months holding two of them.
pub open spec fn spec_is_semimonthly_pattern(dates: Seq<Date>) -> bool {
    dates.len() >= 4 && 5 * count_near_payday(dates) >= 4 * dates.len() && months_with_two(
        dates,
        dates.len() as int,
    ) >= 2
}

fn is_near_payday(d: Date) -> (r: bool)
    ensures
        r == near_payday(d),
{
    let dim = days_in_month(d.year, d.month);
    let end: i64 = if 30 < dim {
        30
    } else {
        dim as i64
    };
    let day = (d.day as i32) as i64;
    let a = if day - 15 < 0 {
        15 - day
    } else {
        day - 15
    };
    let b = if day - end < 0 {
        end - day
    } else {
        day - end
    };
    a <= 2 || b <= 2
}

proof fn lemma_count_in_month_bound(dates: Seq<Date>, d: Date)
    ensures
        count_in_month(dates, d) <= dates.len(),
    decreases dates.len(),
{
    if dates.len() > 0 {
        lemma_count_in_month_bound(dates.drop_last(), d);
    }
}

/// Year-and-month keys compare as std orders pairs, so a map keyed by them
/// behaves as a map.
proof fn lemma_month_keys_ordered()
    ensures
        vstd::laws_cmp::obeys_cmp::<(i32, u32)>(),
{
    broadcast use vstd::laws_cmp::group_laws_cmp;
}

/// The number of dates in each month, keyed by year and month.
fn month_counts(dates: &Vec<Date>) -> (r: BTreeMap<(i32, u32), usize>)
    ensures
        forall|d: Date|
            #[trigger] count_in_month(dates@, d) == (if r@.contains_key((d.year, d.month)) {
                r@[(d.year, d.month)] as nat
            } else {
                0
            }),
{
    proof {
        lemma_month_keys_ordered();
    }
    let mut counts: BTreeMap<(i32, u32), usize> = BTreeMap::new();
    let mut i: usize = 0;
    while i < dates.len()
        invariant
            i <= dates.len(),
            forall|d: Date|
                #[trigger] count_in_month(dates@.take(i as int), d) == (if counts@.contains_key(
                    (d.year, d.month),
                ) {
                    counts@[(d.year, d.month)] as nat
                } else {
                    0
                }),
        decreases dates.len() - i,
    {
        let key = (dates[i].year, dates[i].month);
        let ghost before = counts@;
        proof {
            lemma_count_in_month_bound(dates@.take(i as int), dates@[i as int]);
            assert(count_in_month(dates@.take(i as int), dates@[i as int]) >= 0);
        }
        let c: usize = match counts.get(&key) {
            Some(c) => *c,
            None => 0,
        };
        assert(c == count_in_month(dates@.take(i as int), dates@[i as int]));
        counts.insert(key, c + 1);
        assert forall|d: Date| #[trigger] count_in_month(dates@.take(i + 1), d) == (if counts@.contains_key(
            (d.year, d.month),
        ) {
            counts@[(d.year, d.month)] as nat
        } else {
            0
        }) by {
            assert(dates@.take(i + 1).drop_last() == dates@.take(i as int));
            assert(dates@.take(i + 1).last() == dates@[i as int]);
            assert(count_in_month(dates@.take(i as int), d) == (if before.contains_key((d.year, d.month)) {
                before[(d.year, d.month)] as nat
            } else {
                0
            }));
            if same_month(dates@[i as int], d) {
                assert((d.year, d.month) == key);
                assert(count_in_month(dates@.take(i as int), d) == count_in_month(
                    dates@.take(i as int),
                    dates@[i as int],
                )) by {
                    lemma_count_same_month(dates@.take(i as int), d, dates@[i as int]);
                }
            } else {
                assert((d.year, d.month) != key);
            }
        }
        i += 1;
    }
    assert(dates@.take(dates.len() as int) == dates@);
    counts
}

proof fn lemma_count_same_month(dates: Seq<Date>, a: Date, b: Date)
    requires
        same_month(a, b),
    ensures
        count_in_month(dates, a) == count_in_month(dates, b),
    decreases dates.len(),
{
    if dates.len() > 0 {
        lemma_count_same_month(dates.drop_last(), a, b);
    }
}

fn is_first_of_month(dates: &Vec<Date>, i: usize) -> (r: bool)
    requires
        i < dates.len(),
    ensures
        r == first_of_month(dates@, i as int),
{
    let mut j: usize = 0;
    while j < i
        invariant
            j <= i < dates.len(),
            forall|k: int| 0 <= k < j ==> !same_month(#[trigger] dates@[k], dates@[i as int]),
        decreases i - j,
    {
        if dates[j].year == dates[i].year && dates[j].month == dates[i].month {
            assert(same_month(dates@[j as int], dates@[i as int]));
            return false;
        }
        j += 1;
    }
    true
}

/// Whether the dates look like twice-monthly paydays.
pub fn is_semimonthly_pattern(dates: &Vec<Date>) -> (r: bool)
    ensures
        r == spec_is_semimonthly_pattern(dates@),
{
    if dates.len() < 4 {
        return false;
    }
    let mut matching: usize = 0;
    let mut i: usize = 0;
    while i < dates.len()
        invariant
            i <= dates.len(),
            matching == count_near_payday(dates@.take(i as int)),
            matching <= i,
        decreases dates.len() - i,
    {
        assert(dates@.take(i + 1).drop_last() == dates@.take(i as int));
        if is_near_payday(dates[i]) {
            matching += 1;
        }
        i += 1;
    }
    assert(dates@.take(dates.len() as int) == dates@);
    let counts = month_counts(dates);
    let mut months: usize = 0;
    let mut k: usize = 0;
    while k < dates.len()
        invariant
            k <= dates.len(),
            months == months_with_two(dates@, k as int),
            months <= k,
            forall|d: Date|
                #[trigger] count_in_month(dates@, d) == (if counts@.contains_key((d.year, d.month)) {
                    counts@[(d.year, d.month)] as nat
                } else {
                    0
                }),
        decreases dates.len() - k,
    {
        let in_month: usize = match counts.get(&(dates[k].year, dates[k].month)) {
            Some(c) => *c,
            None => 0,
        };
        proof {
            lemma_month_keys_ordered();
            assert(count_in_month(dates@, dates@[k as int]) >= 0);
        }
        assert(in_month == count_in_month(dates@, dates@[k as int]));
        if is_first_of_month(dates, k) && in_month >= 2 {
            months += 1;
        }
        k += 1;
    }
    5 * (matching as u128) >= 4 * (dates.len() as u128) && months >= 2
}

// ----- calendar cadence -----
/// The month number of a date: twelve per year.
pub open spec fn month_index(d: Date) -> i64 {
    (d.year * 12 + d.month) as i64
}

pub open spec fn strictly_increasing(s: Seq<i64>) -> bool {
    forall|i: int, j: int| 0 <= i < j < s.len() ==> s[i] < s[j]
}

/// The month numbers the dates fall in.
pub open spec fn month_set(dates: Seq<Date>) -> Set<i64> {
    Set::new(|k: i64| exists|j: int| 0 <= j < dates.len() && month_index(dates[j]) == k)
}

/// The distinct month numbers of the dates, in increasing order.
pub open spec fn sorted_months(dates: Seq<Date>) -> Seq<i64> {
    choose|s: Seq<i64>| strictly_increasing(s) && s.to_set() == month_set(dates)
}

/// Gaps between consecutive entries.
pub open spec fn consecutive_gaps(s: Seq<i64>) -> Seq<i64> {
    Seq::new((if s.len() > 0 {
        s.len() - 1
    } else {
        0
    }) as nat, |i: int| (s[i + 1] - s[i]) as i64)
}

/// Monthly when the average month gap is within a quarter of 1 and three
/// quarters of the gaps are exactly 1; quarterly within 1 of 3 and mostly
/// within 1 of 3; yearly within 4 of 12 and mostly within 4 of 12.
pub open spec fn calendar_cadence_of(months: Seq<i64>) -> Option<RecurringCadence> {
    let gaps = consecutive_gaps(months);
    let sum = gap_sum(gaps);
    let len = gaps.len() as int;
    if months.len() < 2 {
        None
    } else if average_within(sum, len, 4, 1, 4) && spec_mostly_within(gaps, 1, 0) {
        Some(RecurringCadence::Monthly)
    } else if average_within(sum, len, 3, 1, 1) && spec_mostly_within(gaps, 3, 1) {
        Some(RecurringCadence::Quarterly)
    } else if average_within(sum, len, 12, 4, 1) && spec_mostly_within(gaps, 12, 4) {
        Some(RecurringCadence::Yearly)
    } else {
        None
    }
}

pub open spec fn spec_infer_calendar_cadence(dates: Seq<Date>) -> Option<RecurringCadence> {
    if dates.len() < 2 {
        None
    } else {
        calendar_cadence_of(sorted_months(dates))
    }
}

/// Two increasing sequences with the same elements are equal.
proof fn lemma_increasing_unique(a: Seq<i64>, b: Seq<i64>)
    requires
        strictly_increasing(a),
        strictly_increasing(b),
        a.to_set() == b.to_set(),
    ensures
        a == b,
    decreases a.len(),
{
    if a.len() == 0 {
        if b.len() > 0 {
            assert(b.to_set().contains(b[0]));
        }
    } else if b.len() == 0 {
        assert(a.to_set().contains(a[0]));
    } else {
        assert(a.to_set().contains(b[0]));
        assert(b.to_set().contains(a[0]));
        let ia = choose|i: int| 0 <= i < a.len() && a[i] == b[0];
        let ib = choose|i: int| 0 <= i < b.len() && b[i] == a[0];
        assert(a[0] <= a[ia]);
        assert(b[0] <= b[ib]);
        assert(a[0] == b[0]);
        let ra = a.drop_first();
        let rb = b.drop_first();
        assert(ra.to_set() == rb.to_set()) by {
            assert forall|x: i64| ra.to_set().contains(x) implies rb.to_set().contains(x) by {
                let i = choose|i: int| 0 <= i < ra.len() && ra[i] == x;
                assert(a[i + 1] == x);
                assert(b.to_set().contains(x));
                let j = choose|j: int| 0 <= j < b.len() && b[j] == x;
                assert(j != 0);
                assert(rb[j - 1] == x);
            }
            assert forall|x: i64| rb.to_set().contains(x) implies ra.to_set().contains(x) by {
                let i = choose|i: int| 0 <= i < rb.len() && rb[i] == x;
                assert(b[i + 1] == x);
                assert(a.to_set().contains(x));
                let j = choose|j: int| 0 <= j < a.len() && a[j] == x;
                assert(j != 0);
                assert(ra[j - 1] == x);
            }
        }
        lemma_increasing_unique(ra, rb);
        assert(a == seq![a[0]] + ra);
        assert(b == seq![b[0]] + rb);
    }
}

/// Inserts `x` into an increasing vector unless it is already there.
fn insert_sorted(v: &mut Vec<i64>, x: i64)
    requires
        strictly_increasing(old(v)@),
    ensures
        strictly_increasing(final(v)@),
        final(v)@.to_set() == old(v)@.to_set().insert(x),
        final(v)@.len() <= old(v)@.len() + 1,
{
    let mut i: usize = 0;
    while i < v.len() && v[i] < x
        invariant
            i <= v.len(),
            forall|k: int| 0 <= k < i ==> v@[k] < x,
        decreases v.len() - i,
    {
        i += 1;
    }
    if i < v.len() && v[i] == x {
        assert(v@.to_set().insert(x) == v@.to_set()) by {
            assert(v@.to_set().contains(x));
        }
        return ;
    }
    let ghost before = v@;
    v.insert(i, x);
    assert(v@ == before.take(i as int).push(x) + before.skip(i as int));
    assert(v@.to_set() == before.to_set().insert(x)) by {
        assert forall|y: i64| v@.to_set().contains(y) implies before.to_set().insert(x).contains(
            y,
        ) by {
            let k = choose|k: int| 0 <= k < v@.len() && v@[k] == y;
            if k < i {
                assert(before[k] == y);
            } else if k > i {
                assert(before[k - 1] == y);
            }
        }
        assert forall|y: i64| before.to_set().insert(x).contains(y) implies v@.to_set().contains(
            y,
        ) by {
            if y == x {
                assert(v@[i as int] == x);
            } else {
                let k = choose|k: int| 0 <= k < before.len() && before[k] == y;
                if k < i {
                    assert(v@[k] == y);
                } else {
                    assert(v@[k + 1] == y);
                }
            }
        }
    }
}

/// The distinct month numbers of the dates, in increasing order.
fn distinct_months(dates: &Vec<Date>) -> (r: Vec<i64>)
    ensures
        r@ == sorted_months(dates@),
        strictly_increasing(r@),
        forall|k: int| 0 <= k < r@.len() ==> months_bounded(#[trigger] r@[k]),
{
    let mut v: Vec<i64> = Vec::new();
    let mut i: usize = 0;
    while i < dates.len()
        invariant
            i <= dates.len(),
            strictly_increasing(v@),
            v@.to_set() == Set::new(
                |k: i64| exists|j: int| 0 <= j < i && month_index(dates@[j]) == k,
            ),
        decreases dates.len() - i,
    {
        let d = dates[i];
        let m: i64 = (d.year as i64) * 12 + (d.month as i64);
        let ghost prev = v@.to_set();
        insert_sorted(&mut v, m);
        assert(v@.to_set() == Set::new(
            |k: i64| exists|j: int| 0 <= j < i + 1 && month_index(dates@[j]) == k,
        )) by {
            assert forall|k: i64|
                Set::new(|k: i64| exists|j: int| 0 <= j < i + 1 && month_index(dates@[j]) == k).contains(
                    k,
                ) implies v@.to_set().contains(k) by {
                let j = choose|j: int| 0 <= j < i + 1 && month_index(dates@[j]) == k;
                if j < i {
                    assert(prev.contains(k));
                }
            }
        }
        i += 1;
    }
    assert(v@.to_set() == month_set(dates@));
    proof {
        let s = sorted_months(dates@);
        assert(strictly_increasing(s) && s.to_set() == month_set(dates@));
        lemma_increasing_unique(v@, s);
        assert forall|k: int| 0 <= k < v@.len() implies months_bounded(#[trigger] v@[k]) by {
            assert(v@.to_set().contains(v@[k]));
            let j = choose|j: int| 0 <= j < dates@.len() && month_index(dates@[j]) == v@[k];
        }
    }
    v
}

/// Month numbers of dates stay well inside `i64`.
pub open spec fn months_bounded(m: i64) -> bool {
    -0x10_0000_0000 <= m <= 0x10_0000_0000
}

fn calendar_cadence_exec(months: &Vec<i64>) -> (r: Option<RecurringCadence>)
    requires
        strictly_increasing(months@),
        forall|k: int| 0 <= k < months@.len() ==> months_bounded(#[trigger] months@[k]),
    ensures
        r == calendar_cadence_of(months@),
{
    if months.len() < 2 {
        return None;
    }
    let mut gaps: Vec<i64> = Vec::new();
    let mut i: usize = 0;
    while i + 1 < months.len()
        invariant
            i + 1 <= months.len(),
            strictly_increasing(months@),
            gaps@ == consecutive_gaps(months@).take(i as int),
            forall|k: int| 0 <= k < months@.len() ==> months_bounded(#[trigger] months@[k]),
        decreases months.len() - i,
    {
        assert(months@[i as int] < months@[i + 1]);
        let g = months[i + 1] - months[i];
        gaps.push(g);
        i += 1;
    }
    assert(gaps@ == consecutive_gaps(months@));
    let sum = sum_gaps(&gaps);
    let len = gaps.len();
    if average_within_exec(sum, len, 4, 1, 4) && mostly_within_month_gap(&gaps, 1, 0) {
        Some(RecurringCadence::Monthly)
    } else if average_within_exec(sum, len, 3, 1, 1) && mostly_within_month_gap(&gaps, 3, 1) {
        Some(RecurringCadence::Quarterly)
    } else if average_within_exec(sum, len, 12, 4, 1) && mostly_within_month_gap(&gaps, 12, 4) {
        Some(RecurringCadence::Yearly)
    } else {
        None
    }
}

/// Monthly, quarterly or yearly, judged by the calendar months the dates fall in.
pub fn infer_calendar_cadence(dates: &Vec<Date>) -> (r: Option<RecurringCadence>)
    ensures
        r == spec_infer_calendar_cadence(dates@),
{
    if dates.len() < 2 {
        return None;
    }
    let months = distinct_months(dates);
    calendar_cadence_exec(&months)
}

// ----- cadence from gaps -----
/// The cadence before the final check: a twice-monthly pattern first, then the
/// average gap near 7 or 14 days, then the calendar cadence, then the average
/// gap near a month, a quarter or a year; otherwise irregular.
pub open spec fn raw_cadence(gaps: Seq<i64>, dates: Seq<Date>) -> RecurringCadence {
    let sum = gap_sum(gaps);
    let len = gaps.len() as int;
    if spec_is_semimonthly_pattern(dates) {
        RecurringCadence::Semimonthly
    } else if average_within(sum, len, 7, 2, 1) {
        RecurringCadence::Weekly
    } else if average_within(sum, len, 14, 3, 1) {
        RecurringCadence::Biweekly
    } else if spec_infer_calendar_cadence(dates) is Some {
        spec_infer_calendar_cadence(dates)->0
    } else if average_within(sum, len, 61, 40, 2) {
        RecurringCadence::Monthly
    } else if average_within(sum, len, 91, 35, 1) {
        RecurringCadence::Quarterly
    } else if average_within(sum, len, 365, 95, 1) {
        RecurringCadence::Yearly
    } else {
        RecurringCadence::Irregular
    }
}

/// No gaps give no cadence; an irregular one needs three or more gaps.
pub open spec fn spec_infer_cadence(gaps: Seq<i64>, dates: Seq<Date>) -> Option<RecurringCadence> {
    if gaps.len() == 0 {
        None
    } else {
        let c = raw_cadence(gaps, dates);
        if c != RecurringCadence::Irregular || gaps.len() >= 3 {
            Some(c)
        } else {
            None
        }
    }
}

/// The cadence of a run of transactions, from the day gaps between them and their dates.
pub fn infer_cadence(gaps: &Vec<i64>, dates: &Vec<Date>) -> (r: Option<RecurringCadence>)
    ensures
        r == spec_infer_cadence(gaps@, dates@),
{
    if gaps.len() == 0 {
        return None;
    }
    let sum = sum_gaps(gaps);
    let len = gaps.len();
    let cadence = if is_semimonthly_pattern(dates) {
        RecurringCadence::Semimonthly
    } else if average_within_exec(sum, len, 7, 2, 1) {
        RecurringCadence::Weekly
    } else if average_within_exec(sum, len, 14, 3, 1) {
        RecurringCadence::Biweekly
    } else if let Some(calendar) = infer_calendar_cadence(dates) {
        calendar
    } else if average_within_exec(sum, len, 61, 40, 2) {
        RecurringCadence::Monthly
    } else if average_within_exec(sum, len, 91, 35, 1) {
        RecurringCadence::Quarterly
    } else if average_within_exec(sum, len, 365, 95, 1) {
        RecurringCadence::Yearly
    } else {
        RecurringCadence::Irregular
    };
    if cadence != RecurringCadence::Irregular || gaps.len() >= 3 {
        Some(cadence)
    } else {
        None
    }
}

/// Whether a gap of `gap` days fits a cadence: within 2 of 7, 3 of 14, 2 of
/// 15.2, 30 of 30.5, 35 of 91 or 95 of 365 days. Irregular has no target.
pub open spec fn gap_fits(cadence: RecurringCadence, gap: int) -> bool {
    match cadence {
        RecurringCadence::Weekly => abs_int(gap - 7) <= 2,
        RecurringCadence::Biweekly => abs_int(gap - 14) <= 3,
        RecurringCadence::Semimonthly => abs_int(5 * gap - 76) <= 10,
        RecurringCadence::Monthly => abs_int(2 * gap - 61) <= 60,
        RecurringCadence::Quarterly => abs_int(gap - 91) <= 35,
        RecurringCadence::Yearly => abs_int(gap - 365) <= 95,
        RecurringCadence::Irregular => false,
    }
}

pub open spec fn count_fitting(cadence: RecurringCadence, gaps: Seq<i64>) -> nat
    decreases gaps.len(),
{
    if gaps.len() == 0 {
        0
    } else {
        count_fitting(cadence, gaps.drop_last()) + (if gap_fits(cadence, gaps.last() as int) {
            1nat
        } else {
            0nat
        })
    }
}

/// How many gaps fit the cadence's target spacing; `None` for irregular, which
/// has no target.
pub fn gaps_fitting_cadence(cadence: RecurringCadence, gaps: &Vec<i64>) -> (r: Option<usize>)
    ensures
        r == (if cadence == RecurringCadence::Irregular {
            None
        } else {
            Some(count_fitting(cadence, gaps@) as usize)
        }),
        r matches Some(n) ==> n <= gaps.len(),
{
    if cadence == RecurringCadence::Irregular {
        return None;
    }
    let mut count: usize = 0;
    let mut i: usize = 0;
    while i < gaps.len()
        invariant
            i <= gaps.len(),
            cadence != RecurringCadence::Irregular,
            count == count_fitting(cadence, gaps@.take(i as int)),
            count <= i,
        decreases gaps.len() - i,
    {
        assert(gaps@.take(i + 1).drop_last() == gaps@.take(i as int));
        let g = gaps[i] as i128;
        let fits = match cadence {
            RecurringCadence::Weekly => abs_i128(g - 7) <= 2,
            RecurringCadence::Biweekly => abs_i128(g - 14) <= 3,
            RecurringCadence::Semimonthly => abs_i128(5 * g - 76) <= 10,
            RecurringCadence::Monthly => abs_i128(2 * g - 61) <= 60,
            RecurringCadence::Quarterly => abs_i128(g - 91) <= 35,
            RecurringCadence::Yearly => abs_i128(g - 365) <= 95,
            RecurringCadence::Irregular => false,
        };
        if fits {
            count += 1;
        }
        i += 1;
    }
    assert(gaps@.take(gaps.len() as int) == gaps@);
    Some(count)
}

// ----- gaps and dates of a run -----
pub open spec fn parsed_days(s: Seq<char>) -> Option<int> {
    match spec_parse_iso_date(s) {
        Some(d) => Some(spec_date_days(d)),
        None => None,
    }
}

/// The positive day gaps between consecutive dates of `dates[..n]` that both read as dates.
pub open spec fn run_gaps(dates: Seq<Seq<char>>, n: int) -> Seq<i64>
    decreases n,
{
    if n < 2 {
        Seq::empty()
    } else {
        let rest = run_gaps(dates, n - 1);
        match (parsed_days(dates[n - 2]), parsed_days(dates[n - 1])) {
            (Some(l), Some(r)) => if r - l > 0 {
                rest.push((r - l) as i64)
            } else {
                rest
            },
            _ => rest,
        }
    }
}

/// The dates of `dates[..n]` that read as dates.
pub open spec fn run_dates(dates: Seq<Seq<char>>, n: int) -> Seq<Date>
    decreases n,
{
    if n <= 0 {
        Seq::empty()
    } else {
        let rest = run_dates(dates, n - 1);
        match spec_parse_iso_date(dates[n - 1]) {
            Some(d) => rest.push(d),
            None => rest,
        }
    }
}

pub open spec fn string_views(v: Seq<String>) -> Seq<Seq<char>> {
    Seq::new(v.len(), |i: int| v[i]@)
}

/// The day gaps and the dates of a run of transaction dates, in order.
pub fn run_gaps_and_dates(dates: &Vec<String>) -> (r: (Vec<i64>, Vec<Date>))
    ensures
        r.0@ == run_gaps(string_views(dates@), dates.len() as int),
        r.1@ == run_dates(string_views(dates@), dates.len() as int),
{
    let ghost views = string_views(dates@);
    let mut gaps: Vec<i64> = Vec::new();
    let mut parsed: Vec<Date> = Vec::new();
    let mut i: usize = 0;
    while i < dates.len()
        invariant
            i <= dates.len(),
            views == string_views(dates@),
            gaps@ == run_gaps(views, if i > 0 {
                i as int
            } else {
                0
            }),
            parsed@ == run_dates(views, i as int),
        decreases dates.len() - i,
    {
        let here = parse_iso_date(dates[i].as_str());
        match here {
            Some(d) => parsed.push(d),
            None => {},
        }
        if i > 0 {
            let left = parse_iso_date(dates[i - 1].as_str());
            match (left, here) {
                (Some(l), Some(r)) => {
                    let ld = days_from_civil(l.year, l.month, l.day);
                    let rd = days_from_civil(r.year, r.month, r.day);
                    proof {
                        lemma_day_number_bounds(l);
                        lemma_day_number_bounds(r);
                    }
                    let gap = rd - ld;
                    if gap > 0 {
                        gaps.push(gap);
                    }
                },
                _ => {},
            }
        }
        i += 1;
    }
    (gaps, parsed)
}

/// Law: a day gap fits a cadence exactly when it lies within the cadence's
/// tolerance of its target spacing: weekly 7 ± 2 days, biweekly 14 ± 3, twice
/// monthly 15.2 ± 2, monthly 30.5 ± 30, quarterly 91 ± 35 and yearly 365 ± 95;
/// no gap fits an irregular cadence. Adding a gap to a list adds one to the
/// number of fitting gaps when it fits, and nothing otherwise, so a gap at the
/// target spacing always counts.
pub proof fn law_gap_fits_near_target_spacing(cadence: RecurringCadence, gaps: Seq<i64>, g: i64)
    ensures
        count_fitting(cadence, gaps.push(g)) == count_fitting(cadence, gaps) + if match cadence {
            RecurringCadence::Weekly => 5 <= g <= 9,
            RecurringCadence::Biweekly => 11 <= g <= 17,
            RecurringCadence::Semimonthly => 14 <= g <= 17,
            RecurringCadence::Monthly => 1 <= g <= 60,
            RecurringCadence::Quarterly => 56 <= g <= 126,
            RecurringCadence::Yearly => 270 <= g <= 460,
            RecurringCadence::Irregular => false,
        } {
            1nat
        } else {
            0nat
        },
        count_fitting(cadence, gaps) <= gaps.len(),
{
    assert(gaps.push(g).drop_last() =~= gaps);
    lemma_count_fitting_bound(cadence, gaps);
}

proof fn lemma_count_fitting_bound(cadence: RecurringCadence, gaps: Seq<i64>)
    ensures
        count_fitting(cadence, gaps) <= gaps.len(),
    decreases gaps.len(),
{
    if gaps.len() > 0 {
        lemma_count_fitting_bound(cadence, gaps.drop_last());
    }
}

/// Law: a run of gaps has a cadence only when it has at least one gap. Dates
/// that look like twice-monthly paydays make it twice monthly; otherwise an
/// average gap within 2 days of a week makes it weekly, and else one within 3
/// days of two weeks makes it biweekly. A cadence found to be irregular
/// counts only with three gaps or more.
pub proof fn law_infer_cadence_by_average_gap(gaps: Seq<i64>, dates: Seq<Date>)
    ensures
        gaps.len() == 0 ==> spec_infer_cadence(gaps, dates) is None,
        gaps.len() > 0 && spec_is_semimonthly_pattern(dates) ==> spec_infer_cadence(gaps, dates) == Some(
            RecurringCadence::Semimonthly,
        ),
        gaps.len() > 0 && !spec_is_semimonthly_pattern(dates) && 5 * gaps.len() <= gap_sum(gaps) <= 9
            * gaps.len() ==> spec_infer_cadence(gaps, dates) == Some(RecurringCadence::Weekly),
        gaps.len() > 0 && !spec_is_semimonthly_pattern(dates) && !(5 * gaps.len() <= gap_sum(gaps) <= 9
            * gaps.len()) && 11 * gaps.len() <= gap_sum(gaps) <= 17 * gaps.len() ==> spec_infer_cadence(
            gaps,
            dates,
        ) == Some(RecurringCadence::Biweekly),
        spec_infer_cadence(gaps, dates) == Some(RecurringCadence::Irregular) ==> gaps.len() >= 3,
{
}

} // verus!
