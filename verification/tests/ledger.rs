use payflow_forecast::classify::classify_transaction;
use payflow_forecast::i18n::Language;
use payflow_forecast::ids::next_manual_transaction_id;
use payflow_forecast::ledger::{
    apply_recurring_candidates, assign_transaction, bill_id_for_category, class_count,
    latest_regular_transaction, merge_transaction_corrections, page_count, page_window, parse_bill_selection,
    transaction_bill_select_value, transaction_bill_sort_label, transaction_group_recurring_label,
    transaction_recurring_label, AmountSign, BillRecord, BillSelection, CandidateRecord,
    TransactionRecord, BILL_SELECT_CREATE, BILL_SELECT_NON_RECURRING, BILL_SELECT_UNASSIGNED,
};
use payflow_forecast::models::{Frequency, RecurringCadence, TransactionClass, DEFAULT_CATEGORY_NAME};
use payflow_forecast::names::normalize_category_name;
use payflow_forecast::sorting::{
    group_transactions_by_category, sort_transactions, sort_transactions_by_date, transaction_sort_order,
    TransactionSortColumn,
};

fn sign_of(amount: f64) -> AmountSign {
    if amount > 0.0 {
        AmountSign::Positive
    } else if amount < 0.0 {
        AmountSign::Negative
    } else {
        AmountSign::Zero
    }
}

fn record(payee: &str, date: &str, amount: f64) -> TransactionRecord {
    TransactionRecord {
        id: format!("{payee}-{date}"),
        date: date.to_string(),
        payee_name: payee.to_string(),
        category_name: DEFAULT_CATEGORY_NAME.to_string(),
        sign: sign_of(amount),
        classification: TransactionClass::Misc,
        matched_bill_id: None,
        manual_classification: None,
    }
}

fn record_with_category(payee: &str, category: &str, date: &str, amount: f64) -> TransactionRecord {
    TransactionRecord {
        category_name: category.to_string(),
        ..record(payee, date, amount)
    }
}

fn record_series(payee: &str, dates: &[&str], amount: f64) -> Vec<TransactionRecord> {
    dates.iter().map(|date| record(payee, date, amount)).collect()
}

fn bill(id: u32, name: &str, frequency: Frequency) -> BillRecord {
    BillRecord {
        id,
        name: name.to_string(),
        frequency,
    }
}

/// The sample bills with their amounts.
fn sample_bills() -> (Vec<BillRecord>, Vec<f64>) {
    (
        vec![
            bill(1, "Internet", Frequency::Monthly),
            bill(2, "Home insurance", Frequency::Monthly),
            bill(3, "Mobile plan", Frequency::Monthly),
            bill(4, "Vehicle registration", Frequency::Yearly),
        ],
        vec![91.0, 178.0, 64.0, 325.0],
    )
}

/// Whether an outflow of `milliunits` is close to each bill amount: within 8%
/// of the bill, and never closer than $5.
fn amounts_close(milliunits: i64, bill_amounts: &[f64]) -> Vec<bool> {
    let amount = milliunits as f64 / 1000.0;
    bill_amounts
        .iter()
        .map(|bill_amount| (amount.abs() - bill_amount).abs() <= (bill_amount * 0.08).max(5.0))
        .collect()
}

fn candidate(payee: &str, category: &str, cadence: RecurringCadence, sign: AmountSign, last: &str) -> CandidateRecord {
    CandidateRecord {
        payee_name: payee.to_string(),
        category_name: category.to_string(),
        cadence,
        sign,
        last_date: last.to_string(),
    }
}

#[test]
fn positive_ynab_transaction_is_a_transfer() {
    let (bills, amounts) = sample_bills();
    let transaction = classify_transaction(
        "transfer".to_string(),
        "2026-05-02".to_string(),
        Some("Transfer from chequing".to_string()),
        Some("Inflow: Ready to Assign".to_string()),
        200_000,
        &bills,
        &amounts_close(200_000, &amounts),
    );

    assert_eq!(transaction.sign, AmountSign::Positive);
    assert_eq!(transaction.classification, TransactionClass::Transfer);
}

#[test]
fn unmatched_outflow_is_misc() {
    let (bills, amounts) = sample_bills();
    let transaction = classify_transaction(
        "misc".to_string(),
        "2026-05-02".to_string(),
        Some("Unexpected fee".to_string()),
        Some("Fees".to_string()),
        -42_520,
        &bills,
        &amounts_close(-42_520, &amounts),
    );

    assert_eq!(transaction.sign, AmountSign::Negative);
    assert_eq!(transaction.classification, TransactionClass::Misc);
}

#[test]
fn missing_or_blank_categories_normalize_to_misc() {
    let missing = classify_transaction(
        "missing-category".to_string(),
        "2026-05-02".to_string(),
        Some("Unknown".to_string()),
        None,
        -10_000,
        &Vec::new(),
        &Vec::new(),
    );

    assert_eq!(missing.category_name, DEFAULT_CATEGORY_NAME);
    assert_eq!(normalize_category_name("   "), DEFAULT_CATEGORY_NAME);
    assert_eq!(normalize_category_name("Uncategorized"), DEFAULT_CATEGORY_NAME);
}

#[test]
fn similar_amount_outflow_matches_recurring_bill() {
    let (bills, amounts) = sample_bills();
    let transaction = classify_transaction(
        "internet".to_string(),
        "2026-05-02".to_string(),
        Some("Telecom provider".to_string()),
        Some("Internet".to_string()),
        -91_000,
        &bills,
        &amounts_close(-91_000, &amounts),
    );

    assert_eq!(transaction.classification, TransactionClass::Recurring);
    assert_eq!(transaction.matched_bill_id, Some(1));
}

#[test]
fn payee_naming_a_bill_matches_it_whatever_the_amount() {
    let (bills, amounts) = sample_bills();
    let transaction = classify_transaction(
        "mobile".to_string(),
        "2026-05-02".to_string(),
        None,
        Some("Phone".to_string()),
        -250_000,
        &bills,
        &amounts_close(-250_000, &amounts),
    );
    assert_eq!(transaction.payee_name, "Unknown payee");
    assert_eq!(transaction.matched_bill_id, None);

    let named = classify_transaction(
        "mobile".to_string(),
        "2026-05-02".to_string(),
        Some("ACME MOBILE PLAN renewal".to_string()),
        Some("Phone".to_string()),
        -250_000,
        &bills,
        &amounts_close(-250_000, &amounts),
    );
    assert_eq!(named.matched_bill_id, Some(3));
    assert_eq!(named.classification, TransactionClass::Recurring);
    assert_eq!(named.category_name, "Phone");
}

#[test]
fn zero_amount_is_not_a_transfer() {
    let transaction = classify_transaction(
        "zero".to_string(),
        "2026-05-02".to_string(),
        Some("Bank".to_string()),
        Some("  Fees  ".to_string()),
        0,
        &Vec::new(),
        &Vec::new(),
    );
    assert_eq!(transaction.sign, AmountSign::Zero);
    assert_eq!(transaction.classification, TransactionClass::Misc);
    assert_eq!(transaction.category_name, "Fees");
}

#[test]
fn recurring_candidates_reclassify_matching_misc_outflows() {
    let transactions = record_series("Gym Membership", &["2026-01-10", "2026-02-10", "2026-03-10"], -42.0);
    // the candidate detection finds for this series
    let candidates = vec![candidate("Gym Membership", "Misc", RecurringCadence::Monthly, AmountSign::Negative, "2026-03-10")];
    let classified = apply_recurring_candidates(transactions, &candidates, &Vec::new(), &Vec::new());

    assert!(classified
        .iter()
        .all(|transaction| transaction.classification == TransactionClass::Recurring));
}

#[test]
fn transaction_recurring_label_shows_detected_cadence() {
    let transactions = record_series(
        "Weekly Cleaner",
        &["2026-01-02", "2026-01-09", "2026-01-16", "2026-01-23"],
        -85.0,
    );
    // the candidate detection finds for this series
    let candidates = vec![candidate("Weekly Cleaner", "Misc", RecurringCadence::Weekly, AmountSign::Negative, "2026-01-23")];

    assert_eq!(
        transaction_recurring_label(&transactions[0], &Vec::new(), &Vec::new(), &candidates, Language::English),
        "Weekly"
    );
}

#[test]
fn transaction_recurring_label_shows_bill_frequency() {
    let mut transaction = record_with_category("Insurer", "Home Insurance", "2026-04-15", -925.0);
    transaction.matched_bill_id = Some(12);
    let bills = vec![bill(12, "Home Insurance", Frequency::Yearly)];

    assert_eq!(
        transaction_recurring_label(&transaction, &bills, &Vec::new(), &Vec::new(), Language::English),
        "Yearly"
    );
}

#[test]
fn recurring_label_follows_the_language() {
    let mut transaction = record_with_category("Insurer", "Home Insurance", "2026-04-15", -925.0);
    transaction.matched_bill_id = Some(12);
    let bills = vec![bill(12, "Home Insurance", Frequency::Yearly)];

    assert_eq!(
        transaction_recurring_label(&transaction, &bills, &Vec::new(), &Vec::new(), Language::French),
        "Annuel"
    );
    let non_recurring = record_with_category("Shop", "Non-Recurring", "2026-04-15", -5.0);
    assert_eq!(
        transaction_recurring_label(&non_recurring, &bills, &Vec::new(), &Vec::new(), Language::English),
        "Non-recurring"
    );
}

#[test]
fn manual_misc_correction_is_not_reclassified_by_candidates() {
    let mut transactions = record_series("Gym Membership", &["2026-01-10", "2026-02-10", "2026-03-10"], -42.0);
    transactions[0].manual_classification = Some(TransactionClass::Misc);
    // the candidate detection finds for this series
    let candidates = vec![candidate("Gym Membership", "Misc", RecurringCadence::Monthly, AmountSign::Negative, "2026-03-10")];
    let classified = apply_recurring_candidates(transactions, &candidates, &Vec::new(), &Vec::new());

    assert_eq!(classified[0].classification, TransactionClass::Misc);
    assert!(classified[0].manual_classification.is_some());
    assert!(classified[1..]
        .iter()
        .all(|transaction| transaction.classification == TransactionClass::Recurring));
}

#[test]
fn import_preserves_manual_transaction_corrections() {
    let mut previous = record("Insurance Provider", "2026-04-15", -925.0);
    previous.category_name = "Home Insurance".to_string();
    previous.classification = TransactionClass::Recurring;
    previous.matched_bill_id = Some(7);
    previous.manual_classification = Some(TransactionClass::Recurring);
    let imported = vec![record("Insurance Provider", "2026-04-15", -925.0)];

    let merged = merge_transaction_corrections(imported, &vec![previous]);

    assert_eq!(merged[0].category_name, "Home Insurance");
    assert_eq!(merged[0].classification, TransactionClass::Recurring);
    assert_eq!(merged[0].matched_bill_id, Some(7));
    assert_eq!(merged[0].manual_classification, Some(TransactionClass::Recurring));
}

#[test]
fn import_without_earlier_transaction_only_normalizes_the_category() {
    let imported = vec![record_with_category("Shop", "  uncategorized ", "2026-04-15", -5.0)];
    let merged = merge_transaction_corrections(imported, &Vec::new());
    assert_eq!(merged[0].category_name, "Misc");
    assert_eq!(merged[0].classification, TransactionClass::Misc);
    assert_eq!(merged[0].id, "Shop-2026-04-15");
}

#[test]
fn existing_bill_match_gets_bill_category_repaired() {
    let mut transaction = record("Videotron", "2026-01-12", -160.0);
    transaction.classification = TransactionClass::Recurring;
    transaction.matched_bill_id = Some(9);
    let bills = vec![bill(9, "Internet", Frequency::Monthly)];

    let classified = apply_recurring_candidates(vec![transaction], &Vec::new(), &bills, &Vec::new());

    assert_eq!(classified[0].category_name, "Internet");
    assert_eq!(classified[0].classification, TransactionClass::Recurring);
}

#[test]
fn paycheck_transaction_select_value_uses_paycheck_transfer_namespace() {
    let paychecks = vec![bill(8, "Employer Payroll", Frequency::Semimonthly)];
    let mut transaction = record("Employer Payroll", "2026-03-30", 1620.25);
    transaction.classification = TransactionClass::Paycheck;
    transaction.matched_bill_id = Some(8);

    assert_eq!(
        transaction_bill_select_value(&transaction, &Vec::new(), &paychecks),
        "paycheck:8"
    );
}

#[test]
fn select_values_read_back_as_selections() {
    assert_eq!(parse_bill_selection("paycheck:8"), BillSelection::Paycheck(8));
    assert_eq!(parse_bill_selection("bill:12"), BillSelection::Bill(12));
    assert_eq!(parse_bill_selection(BILL_SELECT_CREATE), BillSelection::CreateBill);
    assert_eq!(parse_bill_selection(BILL_SELECT_NON_RECURRING), BillSelection::NonRecurring);
    assert_eq!(parse_bill_selection(BILL_SELECT_UNASSIGNED), BillSelection::Unassigned);
    assert_eq!(parse_bill_selection("bill:twelve"), BillSelection::Unassigned);
    assert_eq!(parse_bill_selection("bill:"), BillSelection::Unassigned);

    let bills = vec![bill(12, "Internet", Frequency::Monthly)];
    let mut transaction = record("Cable", "2026-03-02", -91.0);
    transaction.matched_bill_id = Some(12);
    let value = transaction_bill_select_value(&transaction, &bills, &Vec::new());
    assert_eq!(value, "bill:12");
    assert_eq!(parse_bill_selection(&value), BillSelection::Bill(12));
}

#[test]
fn assigning_a_bill_records_a_manual_correction() {
    let bills = vec![bill(12, "Internet", Frequency::Monthly)];
    let paychecks = vec![bill(8, "Employer Payroll", Frequency::Semimonthly)];
    let transaction = record("Cable", "2026-03-02", -91.0);

    let assigned = assign_transaction(&transaction, BillSelection::Bill(12), &bills, &paychecks);
    assert_eq!(assigned.category_name, "Internet");
    assert_eq!(assigned.classification, TransactionClass::Recurring);
    assert_eq!(assigned.matched_bill_id, Some(12));
    assert_eq!(assigned.manual_classification, Some(TransactionClass::Recurring));

    let paycheck = assign_transaction(&transaction, BillSelection::Paycheck(8), &bills, &paychecks);
    assert_eq!(paycheck.category_name, "Employer Payroll");
    assert_eq!(paycheck.classification, TransactionClass::Paycheck);

    let missing = assign_transaction(&transaction, BillSelection::Paycheck(99), &bills, &paychecks);
    assert_eq!(missing.category_name, "Paycheck Transfer");

    let non_recurring = assign_transaction(&assigned, BillSelection::NonRecurring, &bills, &paychecks);
    assert_eq!(non_recurring.category_name, "Non-Recurring");
    assert_eq!(non_recurring.classification, TransactionClass::Misc);
    assert_eq!(non_recurring.matched_bill_id, None);
    assert_eq!(non_recurring.manual_classification, Some(TransactionClass::Misc));

    let unassigned = assign_transaction(&assigned, BillSelection::Unassigned, &bills, &paychecks);
    assert_eq!(unassigned.category_name, "Misc");
    assert_eq!(unassigned.classification, TransactionClass::Misc);
    assert_eq!(unassigned.manual_classification, None);

    let inflow = record("Employer", "2026-03-02", 91.0);
    let unassigned_inflow = assign_transaction(&inflow, BillSelection::Unassigned, &bills, &paychecks);
    assert_eq!(unassigned_inflow.classification, TransactionClass::Transfer);

    let unchanged = assign_transaction(&assigned, BillSelection::CreateBill, &bills, &paychecks);
    assert_eq!(unchanged.category_name, assigned.category_name);
    assert_eq!(unchanged.matched_bill_id, assigned.matched_bill_id);
}

#[test]
fn category_names_find_their_bill() {
    let bills = vec![
        bill(2, "Uncategorized", Frequency::Monthly),
        bill(5, "Hydro-Québec", Frequency::Monthly),
    ];
    assert_eq!(bill_id_for_category(&bills, "hydro québec"), Some(5));
    assert_eq!(bill_id_for_category(&bills, "uncategorized"), None);
    assert_eq!(bill_id_for_category(&bills, "Internet"), None);
}

#[test]
fn transactions_sort_newest_first_by_default() {
    let mut transactions = vec![
        record("Old", "2024-01-01", -10.0),
        record("New", "2024-03-01", -10.0),
        record("Middle", "2024-02-01", -10.0),
    ];

    sort_transactions_by_date(&mut transactions, true);

    assert_eq!(transactions[0].date, "2024-03-01");
    assert_eq!(transactions[2].date, "2024-01-01");
}

#[test]
fn transactions_sort_oldest_first_when_requested() {
    let mut transactions = vec![
        record("Old", "2024-01-01", -10.0),
        record("New", "2024-03-01", -10.0),
        record("Middle", "2024-02-01", -10.0),
    ];

    sort_transactions_by_date(&mut transactions, false);

    assert_eq!(transactions[0].date, "2024-01-01");
    assert_eq!(transactions[2].date, "2024-03-01");
}

#[test]
fn same_day_transactions_sort_by_payee_then_id() {
    let mut transactions = vec![
        record("Zeta", "2024-01-01", -10.0),
        record("Alpha", "2024-01-01", -10.0),
        record("Mid", "2024-02-01", -10.0),
    ];
    sort_transactions_by_date(&mut transactions, true);
    let payees: Vec<&str> = transactions.iter().map(|t| t.payee_name.as_str()).collect();
    assert_eq!(payees, vec!["Mid", "Alpha", "Zeta"]);
}

#[test]
fn column_sort_orders_by_label_then_date() {
    let bills = vec![bill(1, "Internet", Frequency::Monthly), bill(2, "Hydro", Frequency::Yearly)];
    let mut a = record("Cable", "2024-02-01", -10.0);
    a.matched_bill_id = Some(1);
    let mut b = record("Power", "2024-01-01", -10.0);
    b.matched_bill_id = Some(2);
    let mut c = record("Cable", "2024-01-01", -10.0);
    c.matched_bill_id = Some(1);
    let mut transactions = vec![a, b, c];

    sort_transactions(&mut transactions, TransactionSortColumn::Bills, true, &bills, &Vec::new(), &Vec::new(), Language::English);
    let order: Vec<(&str, &str)> = transactions.iter().map(|t| (t.payee_name.as_str(), t.date.as_str())).collect();
    assert_eq!(order, vec![("Power", "2024-01-01"), ("Cable", "2024-01-01"), ("Cable", "2024-02-01")]);

    sort_transactions(&mut transactions, TransactionSortColumn::Recurring, false, &bills, &Vec::new(), &Vec::new(), Language::English);
    let order: Vec<(&str, &str)> = transactions.iter().map(|t| (t.payee_name.as_str(), t.date.as_str())).collect();
    assert_eq!(order, vec![("Power", "2024-01-01"), ("Cable", "2024-02-01"), ("Cable", "2024-01-01")]);
}

#[test]
fn grouping_places_detected_paychecks_in_paycheck_transfer_group() {
    let paychecks = vec![bill(8, "Employer Payroll", Frequency::Semimonthly)];
    let mut transaction = record("Employer Payroll", "2026-03-30", 1620.25);
    transaction.classification = TransactionClass::Paycheck;
    transaction.matched_bill_id = Some(8);

    let transactions = vec![transaction];
    let groups = group_transactions_by_category(
        &transactions,
        Some(TransactionSortColumn::Date),
        false,
        &Vec::new(),
        &paychecks,
        &Vec::new(),
        Language::English,
    );

    assert_eq!(groups.len(), 1);
    assert_eq!(groups[0].0, "Paycheck Transfers");
    let members: Vec<TransactionRecord> = groups[0].1.iter().map(|&i| transactions[i].clone()).collect();
    assert_eq!(
        transaction_group_recurring_label(&members, &Vec::new(), &paychecks, &Vec::new(), Language::English),
        "Twice monthly"
    );
}

#[test]
fn bill_grouping_uses_bill_assignment_not_raw_transaction_category() {
    let transactions = vec![
        record_with_category("Gaspesie Trip", "Gaspesie", "2026-04-01", -120.0),
        record_with_category("Cable Provider", "Internet", "2026-04-02", -91.0),
        record_with_category("Unknown Import", "Uncategorized", "2026-04-03", -42.0),
    ];
    let bills = vec![
        bill(1, "Internet", Frequency::Monthly),
        bill(2, "Uncategorized", Frequency::Monthly),
    ];

    let groups: Vec<(String, Vec<TransactionRecord>)> = group_transactions_by_category(
        &transactions,
        Some(TransactionSortColumn::Date),
        false,
        &bills,
        &Vec::new(),
        &Vec::new(),
        Language::English,
    )
    .into_iter()
    .map(|(name, positions)| (name, positions.iter().map(|&i| transactions[i].clone()).collect()))
    .collect();
    let unassigned = groups
        .iter()
        .find(|(name, _)| name == "Unassigned")
        .expect("unassigned bill group should exist");
    let internet = groups
        .iter()
        .find(|(name, _)| name == "Internet")
        .expect("internet bill group should exist");

    assert_eq!(unassigned.1.len(), 2);
    assert!(unassigned.1.iter().any(|transaction| transaction.category_name == "Gaspesie"));
    assert!(unassigned
        .1
        .iter()
        .any(|transaction| normalize_category_name(&transaction.category_name) == DEFAULT_CATEGORY_NAME));
    assert_eq!(internet.1[0].category_name, "Internet");
    assert!(groups.iter().all(|(name, _)| name != "Gaspesie"));
    assert!(groups.iter().all(|(name, _)| name != "Uncategorized"));
    assert_eq!(groups.last().map(|(name, _)| name.as_str()), Some("Unassigned"));
}

#[test]
fn groups_list_by_lowercased_name_with_unassigned_last() {
    let bills = vec![
        bill(1, "internet", Frequency::Monthly),
        bill(2, "Hydro", Frequency::Monthly),
        bill(3, "Assurance", Frequency::Yearly),
    ];
    let mut transactions = Vec::new();
    for (payee, id) in [("Cable", 1), ("Power", 2), ("Insurer", 3)] {
        let mut t = record(payee, "2026-04-01", -10.0);
        t.matched_bill_id = Some(id);
        transactions.push(t);
    }
    transactions.insert(0, record("Stray", "2026-04-01", -3.0));
    let groups = group_transactions_by_category(
        &transactions,
        None,
        true,
        &bills,
        &Vec::new(),
        &Vec::new(),
        Language::French,
    );
    let names: Vec<&str> = groups.iter().map(|(name, _)| name.as_str()).collect();
    assert_eq!(names, vec!["Assurance", "Hydro", "internet", "Non assigné"]);
}

#[test]
fn group_summary_uses_latest_regular_amount() {
    let transactions = vec![
        record_with_category("Hydro-Quebec", "Electricite", "2026-01-15", -88.0),
        record_with_category("Hydro-Quebec", "Electricite", "2026-02-15", -88.0),
        record_with_category("Hydro-Quebec", "Electricite", "2026-03-15", -94.0),
    ];
    let bills = vec![bill(3, "Electricite", Frequency::Monthly)];

    assert_eq!(
        transaction_group_recurring_label(&transactions, &bills, &Vec::new(), &Vec::new(), Language::English),
        "Monthly"
    );
    // the amount label shows the latest regular transaction's amount
    assert_eq!(
        latest_regular_transaction(&transactions, &bills, &Vec::new(), &Vec::new(), Language::English),
        Some(2)
    );
}

#[test]
fn sort_labels_name_the_bill_group() {
    let bills = vec![bill(1, "Internet", Frequency::Monthly)];
    let paychecks = vec![bill(8, "Employer Payroll", Frequency::Semimonthly)];
    let mut paycheck = record("Employer", "2026-03-30", 1620.25);
    paycheck.classification = TransactionClass::Paycheck;
    assert_eq!(transaction_bill_sort_label(&paycheck, &bills, &paychecks, Language::French), "Virements de paie");
    let by_category = record_with_category("Cable", "internet", "2026-03-30", -91.0);
    assert_eq!(transaction_bill_sort_label(&by_category, &bills, &paychecks, Language::English), "internet");
    let stray = record("Cable", "2026-03-30", -91.0);
    assert_eq!(transaction_bill_sort_label(&stray, &bills, &paychecks, Language::English), "Unassigned");
}

#[test]
fn counts_and_pages() {
    let mut transactions = record_series("Gym", &["2026-01-10", "2026-02-10", "2026-03-10"], -42.0);
    transactions[1].classification = TransactionClass::Recurring;
    assert_eq!(class_count(&transactions, TransactionClass::Misc), 2);
    assert_eq!(class_count(&transactions, TransactionClass::Recurring), 1);
    assert_eq!(class_count(&transactions, TransactionClass::Paycheck), 0);
    assert_eq!(page_count(0, 25), 1);
    assert_eq!(page_count(25, 25), 1);
    assert_eq!(page_count(26, 25), 2);
}

#[test]
fn manual_ids_skip_those_taken() {
    let mut transactions = record_series("Gym", &["2026-01-10", "2026-02-10"], -42.0);
    assert_eq!(next_manual_transaction_id(&transactions), "manual-3");
    transactions[0].id = "manual-3".to_string();
    transactions[1].id = "manual-4".to_string();
    assert_eq!(next_manual_transaction_id(&transactions), "manual-5");
    assert_eq!(next_manual_transaction_id(&Vec::new()), "manual-1");
}

#[test]
fn grouped_positions_follow_the_column_order() {
    let bills = vec![bill(1, "Internet", Frequency::Monthly)];
    let mut a = record("Cable", "2024-01-01", -10.0);
    a.matched_bill_id = Some(1);
    let mut b = record("Cable", "2024-03-01", -10.0);
    b.matched_bill_id = Some(1);
    let stray = record("Shop", "2024-02-01", -3.0);
    let transactions = vec![a, stray, b];
    let groups = group_transactions_by_category(
        &transactions,
        Some(TransactionSortColumn::Date),
        false,
        &bills,
        &Vec::new(),
        &Vec::new(),
        Language::English,
    );
    assert_eq!(groups, vec![("Internet".to_string(), vec![2, 0]), ("Unassigned".to_string(), vec![1])]);
    let order = transaction_sort_order(&transactions, TransactionSortColumn::Date, true, &bills, &Vec::new(), &Vec::new(), Language::English);
    assert_eq!(order, vec![0, 1, 2]);
}

#[test]
fn unassigning_an_amount_that_is_not_a_number_leaves_it_misc() {
    let mut transaction = record("Odd", "2026-03-02", 0.0);
    transaction.sign = AmountSign::Unordered;
    let unassigned = assign_transaction(&transaction, BillSelection::Unassigned, &Vec::new(), &Vec::new());
    assert_eq!(unassigned.classification, TransactionClass::Misc);
    let zero = record("Zero", "2026-03-02", 0.0);
    let unassigned_zero = assign_transaction(&zero, BillSelection::Unassigned, &Vec::new(), &Vec::new());
    assert_eq!(unassigned_zero.classification, TransactionClass::Transfer);
}

#[test]
fn a_chosen_bill_is_what_the_selector_shows() {
    let bills = vec![bill(12, "Internet", Frequency::Monthly)];
    let paychecks = vec![bill(8, "Employer Payroll", Frequency::Semimonthly)];
    let transaction = record("Cable", "2026-03-02", -91.0);
    for selection in [BillSelection::Bill(12), BillSelection::Paycheck(8)] {
        let assigned = assign_transaction(&transaction, selection, &bills, &paychecks);
        let value = transaction_bill_select_value(&assigned, &bills, &paychecks);
        assert_eq!(parse_bill_selection(&value), selection);
    }
}

#[test]
fn every_transaction_lands_in_exactly_one_group() {
    let bills = vec![bill(1, "Internet", Frequency::Monthly), bill(2, "Hydro", Frequency::Monthly)];
    let mut transactions = Vec::new();
    for (k, id) in [Some(1), None, Some(2), Some(1), None].into_iter().enumerate() {
        let mut t = record(&format!("Payee {k}"), "2026-04-01", -10.0);
        t.matched_bill_id = id;
        transactions.push(t);
    }
    let groups = group_transactions_by_category(
        &transactions,
        Some(TransactionSortColumn::Bills),
        true,
        &bills,
        &Vec::new(),
        &Vec::new(),
        Language::English,
    );
    let mut seen = vec![0; transactions.len()];
    for (_, positions) in &groups {
        for &i in positions {
            seen[i] += 1;
        }
    }
    assert!(seen.iter().all(|&count| count == 1));
    assert_eq!(groups.len(), 3);
}

#[test]
fn page_windows_clamp_to_the_last_page() {
    assert_eq!(page_window(120, 0, 50), (0, 0, 50));
    assert_eq!(page_window(120, 2, 50), (2, 100, 120));
    assert_eq!(page_window(120, 9, 50), (2, 100, 120));
    assert_eq!(page_window(0, 3, 50), (0, 0, 0));
    assert_eq!(page_window(100, 1, 50), (1, 50, 100));
}
