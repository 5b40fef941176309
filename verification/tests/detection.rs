use payflow_forecast::date::Date;
use payflow_forecast::detected::{
    max_bill_id, plan_bill_from_transaction, schedule_fields, sync_detected_bills, SyncAction,
};
use payflow_forecast::ledger::{
    apply_recurring_candidates, AmountSign, BillRecord, CandidateRecord, TransactionRecord,
};
use payflow_forecast::models::{frequency_from_cadence, Frequency, RecurringCadence, TransactionClass, DEFAULT_CATEGORY_NAME};
use payflow_forecast::recurring::{
    gaps_fitting_cadence, infer_calendar_cadence, infer_cadence, is_semimonthly_pattern,
    mostly_within_month_gap, run_gaps_and_dates,
};
use payflow_forecast::runs::{recurring_runs, RecurringRun};

fn sign_of(amount: f64) -> AmountSign {
    if amount > 0.0 {
        AmountSign::Positive
    } else if amount < 0.0 {
        AmountSign::Negative
    } else {
        AmountSign::Zero
    }
}

fn record(payee: &str, date: &str, amount: f64) -> TransactionRecord {
    TransactionRecord {
        id: format!("{payee}-{date}"),
        date: date.to_string(),
        payee_name: payee.to_string(),
        category_name: DEFAULT_CATEGORY_NAME.to_string(),
        sign: sign_of(amount),
        classification: TransactionClass::Misc,
        matched_bill_id: None,
        manual_classification: None,
    }
}

fn record_with_category(payee: &str, category: &str, date: &str, amount: f64) -> TransactionRecord {
    TransactionRecord {
        category_name: category.to_string(),
        ..record(payee, date, amount)
    }
}

fn series(payee: &str, category: &str, dates: &[&str], amount: f64) -> Vec<TransactionRecord> {
    dates
        .iter()
        .map(|date| record_with_category(payee, category, date, amount))
        .collect()
}

fn runs_of(transactions: &Vec<TransactionRecord>) -> Vec<RecurringRun> {
    let nonzero = transactions.iter().map(|t| t.sign != AmountSign::Zero).collect();
    recurring_runs(transactions, &nonzero)
}

fn candidate(payee: &str, category: &str, cadence: RecurringCadence, sign: AmountSign, last: &str) -> CandidateRecord {
    CandidateRecord {
        payee_name: payee.to_string(),
        category_name: category.to_string(),
        cadence,
        sign,
        last_date: last.to_string(),
    }
}

/// The bills and paycheck transfers after applying the detected changes.
fn apply_actions(actions: &[SyncAction], bills: &mut Vec<BillRecord>, paychecks: &mut Vec<BillRecord>) {
    for action in actions {
        match action {
            SyncAction::UpdatePaycheck { index, frequency, .. } => paychecks[*index].frequency = *frequency,
            SyncAction::AddPaycheck { id, name, frequency, .. } => paychecks.push(BillRecord {
                id: *id,
                name: name.clone(),
                frequency: *frequency,
            }),
            SyncAction::AddBill { id, name, frequency, .. } => bills.push(BillRecord {
                id: *id,
                name: name.clone(),
                frequency: *frequency,
            }),
        }
    }
}

#[test]
fn monthly_history_forms_one_monthly_run() {
    let transactions = series("Streaming Service", "Misc", &["2026-01-05", "2026-02-05", "2026-03-06", "2026-04-05"], -19.99);
    let runs = runs_of(&transactions);

    assert_eq!(runs.len(), 1);
    assert_eq!(runs[0].key, "payeestreamingservice");
    assert_eq!(runs[0].members, vec![0, 1, 2, 3]);
    assert_eq!(runs[0].cadence, Some(RecurringCadence::Monthly));
    assert_eq!(runs[0].gap_count, 3);
    assert_eq!(runs[0].fitting_gaps, Some(3));
}

#[test]
fn monthly_run_tolerates_large_day_drift() {
    let transactions = series("Variable Utility", "Utilities", &["2026-01-31", "2026-02-02", "2026-03-28", "2026-04-03"], -110.0);
    let runs = runs_of(&transactions);

    assert_eq!(runs.len(), 1);
    assert_eq!(runs[0].key, "categoryutilities");
    assert_eq!(runs[0].cadence, Some(RecurringCadence::Monthly));
    assert_eq!(runs[0].fitting_gaps, Some(3));
}

#[test]
fn utility_varying_in_amount_is_monthly_by_category() {
    let transactions = vec![
        record_with_category("Hydro-Quebec", "Hydro-Quebec", "2026-01-15", -55.0),
        record_with_category("Hydro-Quebec", "Hydro-Quebec", "2026-02-16", -180.0),
        record_with_category("Hydro-Quebec", "Hydro-Quebec", "2026-03-15", -92.0),
    ];
    let runs = runs_of(&transactions);

    assert_eq!(runs.len(), 1);
    assert_eq!(runs[0].cadence, Some(RecurringCadence::Monthly));
}

#[test]
fn weekly_biweekly_and_semimonthly_runs() {
    let weekly = series("Weekly Cleaner", "Misc", &["2026-01-02", "2026-01-09", "2026-01-16", "2026-01-23"], -85.0);
    assert_eq!(runs_of(&weekly)[0].cadence, Some(RecurringCadence::Weekly));

    let biweekly = series("Royal Bank", "Misc", &["2026-01-03", "2026-01-17", "2026-01-31", "2026-02-14"], -1200.0);
    let runs = runs_of(&biweekly);
    assert_eq!(runs[0].cadence, Some(RecurringCadence::Biweekly));
    assert_eq!(runs[0].fitting_gaps, Some(3));

    let paychecks = series(
        "Employer Payroll",
        "Misc",
        &["2026-01-15", "2026-01-30", "2026-02-15", "2026-02-28", "2026-03-15", "2026-03-30"],
        1620.25,
    );
    let runs = runs_of(&paychecks);
    assert_eq!(runs[0].cadence, Some(RecurringCadence::Semimonthly));
    assert_eq!(runs[0].members.len(), 6);
}

#[test]
fn yearly_runs_allow_month_drift() {
    let yearly = series("Annual Insurance", "Misc", &["2024-04-15", "2025-04-15", "2026-04-14"], -325.0);
    assert_eq!(runs_of(&yearly)[0].cadence, Some(RecurringCadence::Yearly));

    let drifting = series("Home Insurance", "Insurance", &["2024-04-15", "2025-06-10"], -925.0);
    let runs = runs_of(&drifting);
    assert_eq!(runs.len(), 1);
    assert_eq!(runs[0].cadence, Some(RecurringCadence::Yearly));
    assert_eq!(runs[0].gap_count, 1);
}

#[test]
fn one_off_transactions_form_no_cadence() {
    let transactions = vec![
        record("Coffee Shop", "2026-01-10", -6.25),
        record("Hardware Store", "2026-02-18", -48.0),
    ];
    let runs = runs_of(&transactions);

    assert_eq!(runs.len(), 2);
    assert!(runs.iter().all(|run| run.cadence.is_none() && run.members.len() == 1));
}

#[test]
fn category_groups_runs_when_payees_vary() {
    let transactions = vec![
        record_with_category("Hydro Provider A", "Utilities", "2026-01-12", -88.0),
        record_with_category("Hydro Provider B", "Utilities", "2026-02-12", -91.0),
        record_with_category("Hydro Provider C", "Utilities", "2026-03-12", -89.5),
    ];
    let runs = runs_of(&transactions);

    assert_eq!(runs.len(), 1);
    assert_eq!(runs[0].members, vec![0, 1, 2]);
    assert_eq!(runs[0].cadence, Some(RecurringCadence::Monthly));
}

#[test]
fn runs_list_members_in_date_order_and_skip_zero_and_non_recurring() {
    let mut transactions = series("Gym", "Misc", &["2026-03-10", "2026-01-10", "2026-02-10"], -42.0);
    transactions.push(record("Gym", "2026-04-10", 0.0));
    transactions.push(record_with_category("Gym", "Non-Recurring", "2026-05-10", -42.0));
    let runs = runs_of(&transactions);

    assert_eq!(runs.len(), 1);
    assert_eq!(runs[0].members, vec![1, 2, 0]);
    assert_eq!(runs[0].cadence, Some(RecurringCadence::Monthly));
}

#[test]
fn irregular_runs_need_three_gaps() {
    let two_gaps = series("Odd", "Misc", &["2026-01-01", "2026-01-02", "2026-01-03"], -1.0);
    assert_eq!(runs_of(&two_gaps)[0].cadence, None);
    let three_gaps = series("Odd", "Misc", &["2026-01-01", "2026-01-02", "2026-01-03", "2026-01-04"], -1.0);
    let runs = runs_of(&three_gaps);
    assert_eq!(runs[0].cadence, Some(RecurringCadence::Irregular));
    assert_eq!(runs[0].fitting_gaps, None);
}

#[test]
fn cadence_pieces_follow_their_rules() {
    let dates: Vec<String> = ["2026-01-15", "not a date", "2026-01-30", "2026-01-30", "2026-02-14"]
        .iter()
        .map(|d| d.to_string())
        .collect();
    let (gaps, parsed) = run_gaps_and_dates(&dates);
    assert_eq!(gaps, vec![15]);
    assert_eq!(parsed.len(), 4);
    assert_eq!(parsed[0], Date { year: 2026, month: 1, day: 15 });

    assert!(mostly_within_month_gap(&vec![1, 1, 1, 2], 1, 0));
    assert!(!mostly_within_month_gap(&vec![1, 1, 2, 2], 1, 0));
    assert!(!mostly_within_month_gap(&vec![], 1, 0));

    let semimonthly: Vec<Date> = [(1, 15), (1, 30), (2, 14), (2, 27)]
        .iter()
        .map(|(m, d)| Date { year: 2026, month: *m, day: *d })
        .collect();
    assert!(is_semimonthly_pattern(&semimonthly));
    assert!(!is_semimonthly_pattern(&semimonthly[..3].to_vec()));
    assert_eq!(infer_cadence(&vec![15, 15, 13], &semimonthly), Some(RecurringCadence::Semimonthly));
    assert_eq!(infer_cadence(&vec![], &semimonthly), None);

    let quarterly: Vec<Date> = [(1, 10), (4, 10), (7, 10)]
        .iter()
        .map(|(m, d)| Date { year: 2026, month: *m, day: *d })
        .collect();
    assert_eq!(infer_calendar_cadence(&quarterly), Some(RecurringCadence::Quarterly));
    assert_eq!(infer_calendar_cadence(&quarterly[..1].to_vec()), None);

    assert_eq!(gaps_fitting_cadence(RecurringCadence::Weekly, &vec![7, 9, 10, 5]), Some(3));
    assert_eq!(gaps_fitting_cadence(RecurringCadence::Semimonthly, &vec![13, 15, 17, 18]), Some(2));
    assert_eq!(gaps_fitting_cadence(RecurringCadence::Irregular, &vec![7]), None);
}

#[test]
fn cadences_map_to_bill_frequencies() {
    assert_eq!(frequency_from_cadence(RecurringCadence::Biweekly), Some(Frequency::Biweekly));
    assert_eq!(frequency_from_cadence(RecurringCadence::Semimonthly), Some(Frequency::Semimonthly));
    assert_eq!(frequency_from_cadence(RecurringCadence::Monthly), Some(Frequency::Monthly));
    assert_eq!(frequency_from_cadence(RecurringCadence::Quarterly), Some(Frequency::Quarterly));
    assert_eq!(frequency_from_cadence(RecurringCadence::Yearly), Some(Frequency::Yearly));
    assert_eq!(frequency_from_cadence(RecurringCadence::Weekly), None);
    assert_eq!(frequency_from_cadence(RecurringCadence::Irregular), None);
}

#[test]
fn monthly_category_candidate_creates_bill_entry() {
    let transactions = series("Hydro Provider", "Utilities", &["2026-01-12", "2026-02-12", "2026-03-12"], -90.0);
    let candidates = vec![candidate("Hydro Provider", "Utilities", RecurringCadence::Monthly, AmountSign::Negative, "2026-03-12")];
    let mut bills = Vec::new();
    let mut paychecks = Vec::new();

    let actions = sync_detected_bills(&bills, &paychecks, &candidates).expect("ids fit");
    assert_eq!(actions.len(), 1);
    match &actions[0] {
        SyncAction::AddBill { id, name, candidate, frequency, schedule } => {
            assert_eq!(*id, 1);
            assert_eq!(name, "Utilities");
            assert_eq!(*candidate, 0);
            assert_eq!(*frequency, Frequency::Monthly);
            assert_eq!(schedule.due_day, 12);
            assert_eq!(schedule.renewal_month, 3);
            assert_eq!(schedule.anchor_date.as_deref(), Some("2026-03-12"));
        }
        _ => panic!("expected a new bill"),
    }
    apply_actions(&actions, &mut bills, &mut paychecks);
    let classified = apply_recurring_candidates(transactions, &candidates, &bills, &paychecks);

    assert_eq!(bills.len(), 1);
    assert_eq!(bills[0].name, "Utilities");
    assert_eq!(bills[0].frequency, Frequency::Monthly);
    assert!(classified.iter().all(|transaction| transaction.matched_bill_id == Some(bills[0].id)));
    assert!(classified.iter().all(|transaction| transaction.category_name == "Utilities"));
}

#[test]
fn biweekly_payee_candidate_creates_bill_entry() {
    let transactions = series("Royal Bank", "Misc", &["2026-01-03", "2026-01-17", "2026-01-31", "2026-02-14"], -1200.0);
    let candidates = vec![candidate("Royal Bank", "Misc", RecurringCadence::Biweekly, AmountSign::Negative, "2026-02-14")];
    let mut bills = Vec::new();
    let mut paychecks = Vec::new();

    let actions = sync_detected_bills(&bills, &paychecks, &candidates).expect("ids fit");
    match &actions[0] {
        SyncAction::AddBill { schedule, .. } => {
            assert_eq!(schedule.anchor_date.as_deref(), Some("2026-02-14"));
        }
        _ => panic!("expected a new bill"),
    }
    apply_actions(&actions, &mut bills, &mut paychecks);
    let classified = apply_recurring_candidates(transactions, &candidates, &bills, &paychecks);

    assert_eq!(bills.len(), 1);
    assert_eq!(bills[0].name, "Royal Bank");
    assert_eq!(bills[0].frequency, Frequency::Biweekly);
    assert!(classified.iter().all(|transaction| transaction.matched_bill_id == Some(bills[0].id)));
}

#[test]
fn semimonthly_income_candidate_creates_paycheck_entry() {
    let transactions = series(
        "Employer Payroll",
        "Inflow: Ready to Assign",
        &["2026-01-15", "2026-01-30", "2026-02-15", "2026-02-28", "2026-03-15", "2026-03-30"],
        1620.25,
    );
    let candidates = vec![candidate(
        "Employer Payroll",
        "Inflow: Ready to Assign",
        RecurringCadence::Semimonthly,
        AmountSign::Positive,
        "2026-03-30",
    )];
    let mut bills = Vec::new();
    let mut paychecks = Vec::new();

    let actions = sync_detected_bills(&bills, &paychecks, &candidates).expect("ids fit");
    apply_actions(&actions, &mut bills, &mut paychecks);
    let classified = apply_recurring_candidates(transactions, &candidates, &bills, &paychecks);

    assert!(bills.is_empty());
    assert_eq!(paychecks.len(), 1);
    assert_eq!(paychecks[0].name, "Employer Payroll");
    assert_eq!(paychecks[0].frequency, Frequency::Semimonthly);
    assert!(classified.iter().all(|transaction| transaction.classification == TransactionClass::Paycheck));
    assert!(classified.iter().all(|transaction| transaction.matched_bill_id == Some(paychecks[0].id)));

    // a second pass refreshes the paycheck transfer instead of adding one
    let again = sync_detected_bills(&bills, &paychecks, &candidates).expect("ids fit");
    assert_eq!(again.len(), 1);
    assert!(matches!(again[0], SyncAction::UpdatePaycheck { index: 0, candidate: 0, .. }));
}

#[test]
fn detection_skips_named_bills_and_cadences_without_frequency() {
    let bills = vec![BillRecord { id: 4, name: "royal bank".to_string(), frequency: Frequency::Monthly }];
    let candidates = vec![
        candidate("Royal Bank", "Misc", RecurringCadence::Biweekly, AmountSign::Negative, "2026-02-14"),
        candidate("Cleaner", "Misc", RecurringCadence::Weekly, AmountSign::Negative, "2026-02-14"),
        candidate("Gym", "Misc", RecurringCadence::Monthly, AmountSign::Negative, "2026-02-10"),
        candidate("Gym", "Misc", RecurringCadence::Monthly, AmountSign::Negative, "2026-03-10"),
    ];
    let actions = sync_detected_bills(&bills, &Vec::new(), &candidates).expect("ids fit");

    assert_eq!(actions.len(), 1);
    assert!(matches!(&actions[0], SyncAction::AddBill { id: 5, candidate: 2, .. }));
}

#[test]
fn detection_stops_when_ids_run_out() {
    let bills = vec![BillRecord { id: u32::MAX - 1, name: "Old".to_string(), frequency: Frequency::Monthly }];
    assert_eq!(max_bill_id(&bills), u32::MAX - 1);
    let candidates = vec![candidate("Gym", "Misc", RecurringCadence::Monthly, AmountSign::Negative, "2026-02-10")];
    assert!(sync_detected_bills(&bills, &Vec::new(), &candidates).is_none());
}

#[test]
fn bill_from_transaction_takes_its_category_and_date() {
    let transactions = vec![
        record("Coffee", "2026-04-01", -5.0),
        record_with_category("Insurer", " Home Insurance ", "2026-04-15", -925.0),
    ];
    let bills = vec![BillRecord { id: 7, name: "Internet".to_string(), frequency: Frequency::Monthly }];

    let (index, planned) = plan_bill_from_transaction(&transactions, "Insurer-2026-04-15", &bills, &Vec::new())
        .expect("the transaction exists");
    assert_eq!(index, 1);
    assert_eq!(planned.id, 8);
    assert_eq!(planned.name, "Home Insurance");
    assert_eq!(planned.frequency, Frequency::Monthly);
    assert_eq!(planned.schedule.due_day, 15);
    assert_eq!(planned.schedule.renewal_month, 4);
    assert_eq!(planned.schedule.anchor_date.as_deref(), Some("2026-04-15"));

    let yearly = vec![candidate("Insurer", "Home Insurance", RecurringCadence::Yearly, AmountSign::Negative, "2026-04-15")];
    let (_, planned) = plan_bill_from_transaction(&transactions, "Insurer-2026-04-15", &bills, &yearly)
        .expect("the transaction exists");
    assert_eq!(planned.frequency, Frequency::Yearly);

    let (_, payee_named) = plan_bill_from_transaction(&transactions, "Coffee-2026-04-01", &bills, &Vec::new())
        .expect("the transaction exists");
    assert_eq!(payee_named.name, "Coffee");

    assert!(plan_bill_from_transaction(&transactions, "missing", &bills, &Vec::new()).is_none());
}

#[test]
fn schedule_fields_read_a_date() {
    let fields = schedule_fields("2026-02-14");
    assert_eq!((fields.due_day, fields.renewal_month), (14, 2));
    assert_eq!(fields.anchor_date.as_deref(), Some("2026-02-14"));
    let odd = schedule_fields("2026-14-40");
    assert_eq!((odd.due_day, odd.renewal_month), (31, 12));
    assert_eq!(odd.anchor_date.as_deref(), Some("2026-14-40"));
    let unreadable = schedule_fields("soon");
    assert_eq!((unreadable.due_day, unreadable.renewal_month), (1, 1));
    assert_eq!(unreadable.anchor_date, None);
}

#[test]
fn runs_have_distinct_keys_and_hold_every_eligible_transaction_once() {
    let mut transactions = vec![
        record("Gym", "2026-01-10", -40.0),
        record_with_category("Hydro A", "Utilities", "2026-01-12", -88.0),
        record("Gym", "2026-02-10", -40.0),
        record("Gym", "2026-03-10", 0.0),
        record_with_category("Hydro B", "Utilities", "2026-02-12", -91.0),
        record("Coffee", "2026-02-18", -6.0),
    ];
    transactions.push(record_with_category("Gym", "Non-Recurring", "2026-04-10", -40.0));
    let runs = runs_of(&transactions);

    let keys: Vec<&str> = runs.iter().map(|run| run.key.as_str()).collect();
    assert_eq!(keys, vec!["payeegym", "categoryutilities", "payeecoffee"]);
    assert_eq!(runs[0].members, vec![0, 2]);
    assert_eq!(runs[1].members, vec![1, 4]);
    assert_eq!(runs[2].members, vec![5]);
    assert_eq!(runs[2].cadence, None);
    let listed: usize = runs.iter().map(|run| run.members.len()).sum();
    assert_eq!(listed, 5);
}

#[test]
fn detection_adds_fresh_ids_and_distinct_names_only_for_bill_cadences() {
    let bills = vec![
        BillRecord { id: 9, name: "Internet".to_string(), frequency: Frequency::Monthly },
        BillRecord { id: 3, name: "Phone".to_string(), frequency: Frequency::Monthly },
    ];
    let paychecks = vec![BillRecord { id: 2, name: "Employer".to_string(), frequency: Frequency::Semimonthly }];
    let candidates = vec![
        candidate("Gym", "Misc", RecurringCadence::Monthly, AmountSign::Negative, "2026-02-10"),
        candidate("GYM", "Misc", RecurringCadence::Monthly, AmountSign::Negative, "2026-03-10"),
        candidate("Cleaner", "Misc", RecurringCadence::Weekly, AmountSign::Negative, "2026-02-14"),
        candidate("Lottery", "Misc", RecurringCadence::Irregular, AmountSign::Negative, "2026-02-14"),
        candidate("Insurer", "Misc", RecurringCadence::Yearly, AmountSign::Negative, "2026-04-15"),
        candidate("Side Job", "Misc", RecurringCadence::Biweekly, AmountSign::Positive, "2026-04-03"),
    ];
    let actions = sync_detected_bills(&bills, &paychecks, &candidates).expect("ids fit");
    let mut new_bills = bills.clone();
    let mut new_paychecks = paychecks.clone();
    apply_actions(&actions, &mut new_bills, &mut new_paychecks);

    assert_eq!(new_bills[0].id, 9);
    assert_eq!(new_bills[1].name, "Phone");
    let added: Vec<(u32, &str)> = new_bills[2..].iter().map(|b| (b.id, b.name.as_str())).collect();
    assert_eq!(added, vec![(10, "Gym"), (11, "Insurer")]);
    assert_eq!(new_paychecks.len(), 2);
    assert_eq!(new_paychecks[1].id, 3);
    for action in &actions {
        let index = match action {
            SyncAction::UpdatePaycheck { candidate, .. }
            | SyncAction::AddPaycheck { candidate, .. }
            | SyncAction::AddBill { candidate, .. } => *candidate,
        };
        assert!(index != 2 && index != 3);
    }
}
