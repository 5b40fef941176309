use payflow_forecast::date::{
    date_input_value, days_between, days_from_civil, days_in_month, is_leap_year, month_label,
    parse_anchor_date, parse_iso_date, parse_iso_date_days, Date,
};
use payflow_forecast::models::Frequency;
use payflow_forecast::schedule::{
    backward_search_fits, bill_anchor_date, bill_occurs, bill_occurs_for_ui, change_frequency, forward_search_fits,
    increase_years_fit, is_payday, next_bill_date_on_or_after, next_bill_due_date,
    next_day_fits, next_payday_after, next_payday_fits, next_thursday_after, payday_count_fits,
    paydays_before, previous_bill_date_before, projected_increase_years, semimonthly_bill_occurs,
    thursday_search_fits, weekday_index, BillSchedule,
};

fn day(year: i32, month: u32, day: u32) -> Date {
    Date { year, month, day }
}

fn schedule(due_day: u32, frequency: Frequency, renewal_month: u32, anchor: Option<&str>) -> BillSchedule {
    BillSchedule {
        due_day,
        frequency,
        renewal_month,
        anchor_date: anchor.map(|a| a.to_string()),
    }
}

#[test]
fn yearly_bill_occurs_only_in_renewal_month() {
    // the sample's vehicle registration: yearly on April 12
    let bill = schedule(12, Frequency::Yearly, 4, None);

    assert!(bill_occurs(&bill, day(2026, 4, 12)));
    assert!(!bill_occurs(&bill, day(2026, 5, 12)));
}

#[test]
fn biweekly_bill_occurs_every_fourteen_days_from_anchor() {
    let bill = schedule(3, Frequency::Biweekly, 5, Some("2026-05-03"));

    assert!(bill_occurs(&bill, day(2026, 5, 3)));
    assert!(bill_occurs(&bill, day(2026, 5, 17)));
    assert!(!bill_occurs(&bill, day(2026, 5, 10)));
}

#[test]
fn semimonthly_bill_occurs_on_fifteenth_and_month_end_payday() {
    let bill = schedule(15, Frequency::Semimonthly, 1, None);

    assert!(bill_occurs(&bill, day(2026, 2, 15)));
    assert!(bill_occurs(&bill, day(2026, 2, 28)));
    assert!(!bill_occurs(&bill, day(2026, 2, 27)));
}

#[test]
fn quarterly_bill_occurs_from_renewal_month_every_three_months() {
    let bill = schedule(10, Frequency::Quarterly, 2, None);

    for month in [2, 5, 8, 11] {
        assert!(bill_occurs(&bill, day(2026, month, 10)));
    }
    assert!(!bill_occurs(&bill, day(2026, 3, 10)));
}

#[test]
fn next_bill_due_date_uses_frequency_month_and_day() {
    let mut bill = schedule(12, Frequency::Yearly, 4, None);

    assert_eq!(next_bill_due_date(&bill, day(2026, 5, 3)), day(2027, 4, 12));

    bill.frequency = Frequency::Monthly;
    assert_eq!(next_bill_due_date(&bill, day(2026, 5, 3)), day(2026, 5, 12));
}

#[test]
fn next_bill_due_date_supports_biweekly_anchor_dates() {
    let bill = schedule(3, Frequency::Biweekly, 5, Some("2026-05-03"));

    assert_eq!(next_bill_due_date(&bill, day(2026, 5, 4)), day(2026, 5, 17));
}

#[test]
fn next_thursday_after_picks_the_following_thursday() {
    assert_eq!(next_thursday_after(day(2026, 5, 10)), day(2026, 5, 14));
    assert_eq!(next_thursday_after(day(2026, 5, 14)), day(2026, 5, 21));
}

#[test]
fn paydays_before_counts_paydays_until_the_low_point() {
    assert_eq!(paydays_before(day(2026, 5, 3), day(2026, 11, 14)), 12);
    assert_eq!(paydays_before(day(2026, 5, 3), day(2026, 5, 3)), 0);
    assert_eq!(paydays_before(day(2026, 5, 20), day(2026, 5, 3)), 0);
    assert_eq!(paydays_before(day(2026, 5, 15), day(2026, 5, 16)), 1);
}

#[test]
fn month_end_payday_is_the_thirtieth_or_the_last_day() {
    assert!(is_payday(day(2026, 1, 15)));
    assert!(is_payday(day(2026, 1, 30)));
    assert!(!is_payday(day(2026, 1, 31)));
    assert!(is_payday(day(2026, 2, 28)));
    assert!(is_payday(day(2024, 2, 29)));
    assert!(!is_payday(day(2024, 2, 28)));
    assert!(semimonthly_bill_occurs(day(2026, 4, 30)));
}

#[test]
fn next_payday_after_moves_to_the_following_payday() {
    assert_eq!(next_payday_after(day(2026, 5, 3)), day(2026, 5, 15));
    assert_eq!(next_payday_after(day(2026, 5, 15)), day(2026, 5, 30));
    assert_eq!(next_payday_after(day(2026, 5, 30)), day(2026, 6, 15));
    assert_eq!(next_payday_after(day(2026, 2, 20)), day(2026, 2, 28));
    assert_eq!(next_payday_after(day(2026, 12, 31)), day(2027, 1, 15));
}

#[test]
fn weekday_index_counts_from_sunday() {
    // 1970-01-01 was a Thursday
    assert_eq!(weekday_index(day(1970, 1, 1)), 4);
    assert_eq!(weekday_index(day(2026, 5, 10)), 0);
    assert_eq!(weekday_index(day(2026, 5, 14)), 4);
    assert_eq!(weekday_index(day(1969, 12, 31)), 3);
}

#[test]
fn calendar_arithmetic_follows_the_gregorian_rules() {
    assert!(is_leap_year(2024));
    assert!(!is_leap_year(2026));
    assert!(!is_leap_year(1900));
    assert!(is_leap_year(2000));
    assert!(is_leap_year(-4));
    assert_eq!(days_in_month(2026, 2), 28);
    assert_eq!(days_in_month(2024, 2), 29);
    assert_eq!(days_in_month(2026, 4), 30);
    assert_eq!(days_in_month(2026, 12), 31);
    assert_eq!(days_from_civil(1970, 1, 1), 0);
    assert_eq!(days_from_civil(2000, 3, 1), 11017);
    assert_eq!(days_from_civil(1969, 12, 31), -1);
    assert_eq!(days_between(day(2026, 5, 3), day(2026, 5, 17)), 14);
    assert_eq!(days_between(day(2026, 5, 17), day(2026, 5, 3)), -14);
    assert_eq!(days_between(day(2025, 12, 31), day(2026, 1, 1)), 1);
}

#[test]
fn next_and_previous_day_cross_month_and_year_ends() {
    assert_eq!(day(2026, 1, 31).next_day(), day(2026, 2, 1));
    assert_eq!(day(2026, 2, 28).next_day(), day(2026, 3, 1));
    assert_eq!(day(2024, 2, 28).next_day(), day(2024, 2, 29));
    assert_eq!(day(2026, 12, 31).next_day(), day(2027, 1, 1));
    assert_eq!(day(2027, 1, 1).previous_day(), day(2026, 12, 31));
    assert_eq!(day(2026, 3, 1).previous_day(), day(2026, 2, 28));
    assert_eq!(day(2026, 5, 3).next_day().previous_day(), day(2026, 5, 3));
}

#[test]
fn dates_format_as_labels_and_input_values() {
    assert_eq!(day(2026, 5, 3).label(), "May 3, 2026");
    assert_eq!(day(2026, 12, 25).label(), "Dec 25, 2026");
    assert_eq!(month_label(1), "Jan");
    assert_eq!(month_label(9), "Sep");
    assert_eq!(date_input_value(day(2026, 5, 3)), "2026-05-03");
    assert_eq!(date_input_value(day(12, 1, 9)), "0012-01-09");
}

#[test]
fn iso_dates_parse_and_reject() {
    assert_eq!(parse_iso_date("2026-05-03"), Some(day(2026, 5, 3)));
    assert_eq!(parse_iso_date(&date_input_value(day(1999, 12, 31))), Some(day(1999, 12, 31)));
    assert_eq!(parse_iso_date("2026-5"), None);
    assert_eq!(parse_iso_date("2026-05-xx"), None);
    assert_eq!(parse_iso_date("2026-05-03-01"), Some(day(2026, 5, 3)));
    assert_eq!(parse_iso_date("2026-02-30"), Some(day(2026, 2, 30)));
    assert_eq!(parse_iso_date_days("1970-01-02"), Some(1));
    assert_eq!(parse_iso_date_days("nope"), None);
}

#[test]
fn anchor_dates_clamp_month_and_day() {
    assert_eq!(parse_anchor_date("2026-05-03"), Some(day(2026, 5, 3)));
    assert_eq!(parse_anchor_date("2026-02-31"), Some(day(2026, 2, 28)));
    assert_eq!(parse_anchor_date("2026-13-05"), Some(day(2026, 12, 5)));
    assert_eq!(parse_anchor_date("2026-00-00"), Some(day(2026, 1, 1)));
    assert_eq!(parse_anchor_date("not a date"), None);
    let date = day(2024, 2, 29);
    assert_eq!(parse_anchor_date(&date_input_value(date)), Some(date));
}

#[test]
fn schedules_without_anchor_fall_back_to_the_renewal_month() {
    let bill = schedule(31, Frequency::Biweekly, 2, None);
    assert_eq!(bill_anchor_date(&bill), Some(day(2026, 2, 28)));
    let unreadable = schedule(5, Frequency::Biweekly, 3, Some("soon"));
    assert_eq!(bill_anchor_date(&unreadable), Some(day(2026, 3, 5)));
}

#[test]
fn editor_and_forecast_read_anchors_differently() {
    // the forecast clamps an out-of-range day to the month's last; the editor
    // counts it on from the month's start (February 30 falls on March 2)
    let bill = schedule(1, Frequency::Biweekly, 6, Some("2026-02-30"));
    assert!(bill_occurs(&bill, day(2026, 2, 28)));
    assert!(!bill_occurs_for_ui(&bill, day(2026, 2, 28)));
    assert!(bill_occurs_for_ui(&bill, day(2026, 3, 16)));
    assert!(!bill_occurs(&bill, day(2026, 3, 16)));
}

#[test]
fn monthly_bill_due_day_clamps_to_short_months() {
    let bill = schedule(31, Frequency::Monthly, 1, None);
    assert!(bill_occurs(&bill, day(2026, 2, 28)));
    assert!(bill_occurs(&bill, day(2026, 4, 30)));
    assert!(!bill_occurs(&bill, day(2026, 4, 29)));
    assert_eq!(next_bill_date_on_or_after(&bill, day(2026, 4, 1)), day(2026, 4, 30));
    assert_eq!(previous_bill_date_before(&bill, day(2026, 4, 30)), day(2026, 3, 31));
}

#[test]
fn searches_report_whether_they_fit_in_the_year_range() {
    let bill = schedule(12, Frequency::Yearly, 4, None);
    assert!(forward_search_fits(&bill, day(2026, 5, 3), true));
    assert!(!forward_search_fits(&bill, day(i32::MAX, 12, 20), false));
    assert!(backward_search_fits(&bill, day(2026, 5, 3)));
    assert!(!backward_search_fits(&bill, day(i32::MIN, 1, 1)));
    assert!(payday_count_fits(day(2026, 5, 3), day(2026, 11, 14)));
    assert!(thursday_search_fits(day(2026, 5, 10)));
    assert!(!thursday_search_fits(day(i32::MAX, 12, 31)));
    assert!(next_payday_fits(day(2026, 12, 31)));
    assert!(!next_payday_fits(day(i32::MAX, 12, 30)));
    assert!(next_day_fits(day(2026, 12, 31)));
    assert!(!next_day_fits(day(i32::MAX, 12, 31)));
    assert!(increase_years_fit(4, day(2027, 5, 1), day(2026, 5, 2)));
}

#[test]
fn yearly_increases_count_renewals_passed() {
    let start = day(2026, 5, 2);
    assert_eq!(projected_increase_years(10, day(2026, 9, 1), start), 0);
    assert_eq!(projected_increase_years(10, day(2026, 10, 1), start), 1);
    assert_eq!(projected_increase_years(10, day(2027, 10, 1), start), 2);
    assert_eq!(projected_increase_years(3, day(2027, 2, 1), start), 0);
    assert_eq!(projected_increase_years(3, day(2027, 3, 1), start), 1);
}

#[test]
fn switching_to_biweekly_anchors_on_the_next_due_date() {
    let monthly = schedule(12, Frequency::Monthly, 4, None);
    let biweekly = change_frequency(&monthly, Frequency::Biweekly, day(2026, 5, 3));
    assert_eq!(biweekly.frequency, Frequency::Biweekly);
    assert_eq!(biweekly.anchor_date.as_deref(), Some("2026-05-12"));
    assert_eq!((biweekly.due_day, biweekly.renewal_month), (12, 4));

    let anchored = schedule(12, Frequency::Monthly, 4, Some("2026-01-01"));
    let kept = change_frequency(&anchored, Frequency::Biweekly, day(2026, 5, 3));
    assert_eq!(kept.anchor_date.as_deref(), Some("2026-01-01"));

    let yearly = change_frequency(&monthly, Frequency::Yearly, day(2026, 5, 3));
    assert_eq!(yearly.anchor_date, None);
    assert_eq!(yearly.frequency, Frequency::Yearly);
}
