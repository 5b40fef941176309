//! Classifying imported transactions against bills, paycheck transfers and
//! detected recurring candidates.
//!
//! A transaction is seen here through what the classification reads of it:
//! its identity, date, names, assignment, and the sign of its amount.
use vstd::prelude::*;
use crate::text::{owned, str_eq, string_of, extend_chars, push_decimal, decimal, chars_of, parse_u32_range, parse_u32_spec};
use crate::date::{Date, parse_iso_date, date_input_value, spec_parse_iso_date, spec_iso_date, clamp_u32};
use crate::names::{
    normalize_category_name, normalize_name_for_ui, is_assignable_bill_name, recurring_key, trim,
    spec_normalize_category_name, spec_normalize_name, spec_is_unassigned_category_name,
    spec_recurring_key, spec_trim,
};
use crate::models::{
    Frequency, RecurringCadence, TransactionClass, DEFAULT_CATEGORY_NAME, spec_frequency_label,
    frequency_from_cadence, spec_frequency_from_cadence,
};
use crate::i18n::{Language, tr, spec_tr, frequency_label, cadence_label, spec_cadence_key};
use crate::collections::{bytes_lt, bytes_less, lemma_bytes_lt_total, lemma_bytes_lt_transitive, lemma_bytes_lt_irreflexive};

verus! {

broadcast use vstd::string::group_string_axioms;

/// The category that marks a transaction as deliberately non-recurring.
pub const NON_RECURRING_CATEGORY: &'static str = "Non-Recurring";

/// Select value: no bill.
pub const BILL_SELECT_UNASSIGNED: &'static str = "__unassigned__";

/// Select value: not a recurring payment.
pub const BILL_SELECT_NON_RECURRING: &'static str = "__non_recurring__";

/// Select value: create a bill from this transaction.
pub const BILL_SELECT_CREATE: &'static str = "__create_bill__";

/// Prefix of select values that name a paycheck transfer.
pub const PAYCHECK_SELECT_PREFIX: &'static str = "paycheck:";

/// Prefix of select values that name a bill.
pub const BILL_SELECT_PREFIX: &'static str = "bill:";

/// Whether an amount is below, at or above zero; `Unordered` for an amount
/// that compares with zero in none of these ways (not a number).
#[derive(Clone, Copy, Debug, PartialEq, Eq, Structural)]
pub enum AmountSign {
    Negative,
    Zero,
    Positive,
    Unordered,
}

/// What the classification reads of a tracked transaction.
#[derive(Clone, Debug)]
pub struct TransactionRecord {
    pub id: String,
    pub date: String,
    pub payee_name: String,
    pub category_name: String,
    pub sign: AmountSign,
    pub classification: TransactionClass,
    pub matched_bill_id: Option<u32>,
    pub manual_classification: Option<TransactionClass>,
}

/// What the classification reads of a bill or paycheck transfer.
#[derive(Clone, Debug)]
pub struct BillRecord {
    pub id: u32,
    pub name: String,
    pub frequency: Frequency,
}

/// What the classification reads of a detected recurring candidate; `sign` is
/// the sign of its average amount.
#[derive(Clone, Debug)]
pub struct CandidateRecord {
    pub payee_name: String,
    pub category_name: String,
    pub cadence: RecurringCadence,
    pub sign: AmountSign,
    pub last_date: String,
}

// ----- lookups -----
pub open spec fn assignable(b: BillRecord) -> bool {
    !spec_is_unassigned_category_name(b.name@)
}

/// Position of the first bill with id `id` (and, when `need_assignable`, a real
/// category name) at or after `i`.
pub open spec fn first_with_id(bills: Seq<BillRecord>, id: u32, need_assignable: bool, i: int) -> Option<
    int,
>
    decreases bills.len() - i,
{
    if i < 0 || i >= bills.len() {
        None
    } else if bills[i].id == id && (!need_assignable || assignable(bills[i])) {
        Some(i)
    } else {
        first_with_id(bills, id, need_assignable, i + 1)
    }
}

/// Position of the first assignable bill whose name compares equal to `name`.
pub open spec fn first_named(bills: Seq<BillRecord>, name: Seq<char>, i: int) -> Option<int>
    decreases bills.len() - i,
{
    if i < 0 || i >= bills.len() {
        None
    } else if assignable(bills[i]) && spec_normalize_name(bills[i].name@) == spec_normalize_name(
        name,
    ) {
        Some(i)
    } else {
        first_named(bills, name, i + 1)
    }
}

proof fn lemma_first_with_id_bounds(bills: Seq<BillRecord>, id: u32, need: bool, i: int)
    ensures
        first_with_id(bills, id, need, i) matches Some(k) ==> 0 <= i <= k < bills.len() && bills[k].id
            == id && (need ==> assignable(bills[k])),
    decreases bills.len() - i,
{
    if 0 <= i < bills.len() && !(bills[i].id == id && (!need || assignable(bills[i]))) {
        lemma_first_with_id_bounds(bills, id, need, i + 1);
    }
}

proof fn lemma_first_named_bounds(bills: Seq<BillRecord>, name: Seq<char>, i: int)
    ensures
        first_named(bills, name, i) matches Some(k) ==> 0 <= i <= k < bills.len() && assignable(
            bills[k],
        ),
    decreases bills.len() - i,
{
    if 0 <= i < bills.len() && !(assignable(bills[i]) && spec_normalize_name(bills[i].name@)
        == spec_normalize_name(name)) {
        lemma_first_named_bounds(bills, name, i + 1);
    }
}

fn find_with_id(bills: &Vec<BillRecord>, id: u32, need_assignable: bool) -> (r: Option<usize>)
    ensures
        r == (match first_with_id(bills@, id, need_assignable, 0) {
            Some(k) => Some(k as usize),
            None => None,
        }),
        r matches Some(k) ==> k < bills.len(),
        first_with_id(bills@, id, need_assignable, 0) matches Some(k) ==> 0 <= k < bills.len(),
{
    proof {
        lemma_first_with_id_bounds(bills@, id, need_assignable, 0);
    }
    let mut i: usize = 0;
    while i < bills.len()
        invariant
            i <= bills.len(),
            first_with_id(bills@, id, need_assignable, 0) == first_with_id(
                bills@,
                id,
                need_assignable,
                i as int,
            ),
        decreases bills.len() - i,
    {
        if bills[i].id == id && (!need_assignable || is_assignable_bill_name(
            bills[i].name.as_str(),
        )) {
            return Some(i);
        }
        i += 1;
    }
    None
}

fn find_named(bills: &Vec<BillRecord>, name: &str) -> (r: Option<usize>)
    ensures
        r == (match first_named(bills@, name@, 0) {
            Some(k) => Some(k as usize),
            None => None,
        }),
        r matches Some(k) ==> k < bills.len(),
        first_named(bills@, name@, 0) matches Some(k) ==> 0 <= k < bills.len(),
{
    proof {
        lemma_first_named_bounds(bills@, name@, 0);
    }
    let key = normalize_name_for_ui(name);
    let mut i: usize = 0;
    while i < bills.len()
        invariant
            i <= bills.len(),
            key@ == spec_normalize_name(name@),
            first_named(bills@, name@, 0) == first_named(bills@, name@, i as int),
        decreases bills.len() - i,
    {
        if is_assignable_bill_name(bills[i].name.as_str()) && normalize_name_for_ui(
            bills[i].name.as_str(),
        ) == key {
            return Some(i);
        }
        i += 1;
    }
    None
}

/// The id of the first assignable bill named like `category_name`.
pub open spec fn spec_bill_id_for_category(bills: Seq<BillRecord>, category_name: Seq<char>) -> Option<
    u32,
> {
    match first_named(bills, category_name, 0) {
        Some(k) => Some(bills[k].id),
        None => None,
    }
}

/// The bill a category name refers to: the first assignable bill with the same
/// normalized name.
pub fn bill_id_for_category(bills: &Vec<BillRecord>, category_name: &str) -> (r: Option<u32>)
    ensures
        r == spec_bill_id_for_category(bills@, category_name@),
{
    match find_named(bills, category_name) {
        Some(k) => Some(bills[k].id),
        None => None,
    }
}

// ----- candidate names -----
/// A detected paycheck is named after its payee, else its real category, else
/// "Paycheck Transfer".
pub open spec fn spec_paycheck_name_from_candidate(c: CandidateRecord) -> Seq<char> {
    let payee = spec_trim(c.payee_name@);
    if payee.len() != 0 {
        payee
    } else if spec_normalize_category_name(c.category_name@) != DEFAULT_CATEGORY_NAME@ {
        spec_normalize_category_name(c.category_name@)
    } else {
        "Paycheck Transfer"@
    }
}

/// A detected bill is named after its real category, else its payee, trimmed.
pub open spec fn spec_bill_name_from_candidate(c: CandidateRecord) -> Seq<char> {
    if spec_normalize_category_name(c.category_name@) != DEFAULT_CATEGORY_NAME@ {
        spec_normalize_category_name(c.category_name@)
    } else {
        spec_trim(c.payee_name@)
    }
}

pub fn paycheck_name_from_candidate(candidate: &CandidateRecord) -> (r: String)
    ensures
        r@ == spec_paycheck_name_from_candidate(*candidate),
{
    let payee = trim(candidate.payee_name.as_str());
    if !payee.as_str().is_empty() {
        return payee;
    }
    let category = normalize_category_name(candidate.category_name.as_str());
    if !str_eq(category.as_str(), DEFAULT_CATEGORY_NAME) {
        category
    } else {
        owned("Paycheck Transfer")
    }
}

pub fn bill_name_from_candidate(candidate: &CandidateRecord) -> (r: String)
    ensures
        r@ == spec_bill_name_from_candidate(*candidate),
{
    let category = normalize_category_name(candidate.category_name.as_str());
    if !str_eq(category.as_str(), DEFAULT_CATEGORY_NAME) {
        category
    } else {
        trim(candidate.payee_name.as_str())
    }
}

pub open spec fn spec_candidate_key(c: CandidateRecord) -> Seq<char> {
    spec_recurring_key(c.category_name@, c.payee_name@)
}

pub open spec fn spec_transaction_key(t: TransactionRecord) -> Seq<char> {
    spec_recurring_key(t.category_name@, t.payee_name@)
}

/// The grouping key of a candidate.
pub fn candidate_key(candidate: &CandidateRecord) -> (r: String)
    ensures
        r@ == spec_candidate_key(*candidate),
{
    recurring_key(candidate.category_name.as_str(), candidate.payee_name.as_str())
}

/// The grouping key of a transaction.
pub fn transaction_key(transaction: &TransactionRecord) -> (r: String)
    ensures
        r@ == spec_transaction_key(*transaction),
{
    recurring_key(transaction.category_name.as_str(), transaction.payee_name.as_str())
}

/// The id of the assignable paycheck transfer named as the candidate's paycheck would be.
pub open spec fn spec_paycheck_id_for_candidate(c: CandidateRecord, paychecks: Seq<BillRecord>) -> Option<
    u32,
> {
    spec_bill_id_for_category(paychecks, spec_paycheck_name_from_candidate(c))
}

/// The id of the assignable bill named as the candidate's bill would be.
pub open spec fn spec_bill_id_for_candidate(c: CandidateRecord, bills: Seq<BillRecord>) -> Option<u32> {
    spec_bill_id_for_category(bills, spec_bill_name_from_candidate(c))
}

pub fn paycheck_id_for_candidate(candidate: &CandidateRecord, paychecks: &Vec<BillRecord>) -> (r:
    Option<u32>)
    ensures
        r == spec_paycheck_id_for_candidate(*candidate, paychecks@),
{
    let name = paycheck_name_from_candidate(candidate);
    bill_id_for_category(paychecks, name.as_str())
}

pub fn bill_id_for_candidate(candidate: &CandidateRecord, bills: &Vec<BillRecord>) -> (r: Option<
    u32,
>)
    ensures
        r == spec_bill_id_for_candidate(*candidate, bills@),
{
    let name = bill_name_from_candidate(candidate);
    bill_id_for_category(bills, name.as_str())
}

/// Position of the first candidate whose key is `key`.
pub open spec fn first_candidate(candidates: Seq<CandidateRecord>, key: Seq<char>, i: int) -> Option<
    int,
>
    decreases candidates.len() - i,
{
    if i < 0 || i >= candidates.len() {
        None
    } else if spec_candidate_key(candidates[i]) == key {
        Some(i)
    } else {
        first_candidate(candidates, key, i + 1)
    }
}

proof fn lemma_first_candidate_bounds(candidates: Seq<CandidateRecord>, key: Seq<char>, i: int)
    ensures
        first_candidate(candidates, key, i) matches Some(k) ==> 0 <= i <= k < candidates.len(),
    decreases candidates.len() - i,
{
    if 0 <= i < candidates.len() && spec_candidate_key(candidates[i]) != key {
        lemma_first_candidate_bounds(candidates, key, i + 1);
    }
}

/// The first candidate whose key is `key`.
pub fn find_candidate(candidates: &Vec<CandidateRecord>, key: &str) -> (r: Option<usize>)
    ensures
        r == (match first_candidate(candidates@, key@, 0) {
            Some(k) => Some(k as usize),
            None => None,
        }),
        r matches Some(k) ==> k < candidates.len(),
        first_candidate(candidates@, key@, 0) matches Some(k) ==> 0 <= k < candidates.len(),
{
    proof {
        lemma_first_candidate_bounds(candidates@, key@, 0);
    }
    let mut i: usize = 0;
    while i < candidates.len()
        invariant
            i <= candidates.len(),
            first_candidate(candidates@, key@, 0) == first_candidate(candidates@, key@, i as int),
        decreases candidates.len() - i,
    {
        let k = candidate_key(&candidates[i]);
        if str_eq(k.as_str(), key) {
            return Some(i);
        }
        i += 1;
    }
    None
}

// ----- select values and labels -----
pub open spec fn prefixed_id(prefix: Seq<char>, id: u32) -> Seq<char> {
    prefix + decimal(id as nat)
}

fn prefixed(prefix: &str, id: u32) -> (r: String)
    ensures
        r@ == prefixed_id(prefix@, id),
{
    let mut v: Vec<char> = Vec::new();
    extend_chars(&mut v, prefix);
    push_decimal(&mut v, id as u64);
    string_of(&v)
}

/// The value the bill selector shows for a transaction: its assigned paycheck
/// transfer or bill, else non-recurring, else the bill its category names, else
/// unassigned.
pub open spec fn spec_transaction_bill_select_value(
    t: TransactionRecord,
    bills: Seq<BillRecord>,
    paychecks: Seq<BillRecord>,
) -> Seq<char> {
    let category = spec_normalize_category_name(t.category_name@);
    if t.classification == TransactionClass::Paycheck && t.matched_bill_id is Some
        && first_with_id(paychecks, t.matched_bill_id->0, true, 0) is Some {
        prefixed_id(PAYCHECK_SELECT_PREFIX@, t.matched_bill_id->0)
    } else if t.matched_bill_id is Some && first_with_id(bills, t.matched_bill_id->0, true, 0) is Some {
        prefixed_id(BILL_SELECT_PREFIX@, t.matched_bill_id->0)
    } else if category == NON_RECURRING_CATEGORY@ {
        BILL_SELECT_NON_RECURRING@
    } else if spec_bill_id_for_category(bills, category) is Some {
        prefixed_id(BILL_SELECT_PREFIX@, spec_bill_id_for_category(bills, category)->0)
    } else {
        BILL_SELECT_UNASSIGNED@
    }
}

pub fn transaction_bill_select_value(
    transaction: &TransactionRecord,
    bills: &Vec<BillRecord>,
    paychecks: &Vec<BillRecord>,
) -> (r: String)
    ensures
        r@ == spec_transaction_bill_select_value(*transaction, bills@, paychecks@),
{
    if transaction.classification == TransactionClass::Paycheck {
        if let Some(paycheck_id) = transaction.matched_bill_id {
            if find_with_id(paychecks, paycheck_id, true).is_some() {
                return prefixed(PAYCHECK_SELECT_PREFIX, paycheck_id);
            }
        }
    }
    if let Some(bill_id) = transaction.matched_bill_id {
        if find_with_id(bills, bill_id, true).is_some() {
            return prefixed(BILL_SELECT_PREFIX, bill_id);
        }
    }
    let category = normalize_category_name(transaction.category_name.as_str());
    if str_eq(category.as_str(), NON_RECURRING_CATEGORY) {
        return owned(BILL_SELECT_NON_RECURRING);
    }
    if let Some(bill_id) = bill_id_for_category(bills, category.as_str()) {
        return prefixed(BILL_SELECT_PREFIX, bill_id);
    }
    owned(BILL_SELECT_UNASSIGNED)
}

/// The bill group a transaction is listed under: paycheck transfers together,
/// else its assigned bill, else non-recurring, else the bill its category
/// names, else unassigned.
pub open spec fn spec_transaction_bill_sort_label(
    t: TransactionRecord,
    bills: Seq<BillRecord>,
    paychecks: Seq<BillRecord>,
    language: Language,
) -> Seq<char> {
    let category = spec_normalize_category_name(t.category_name@);
    if t.classification == TransactionClass::Paycheck {
        spec_tr(language, "Paycheck Transfers"@)
    } else if t.matched_bill_id is Some && first_with_id(bills, t.matched_bill_id->0, true, 0) is Some {
        bills[first_with_id(bills, t.matched_bill_id->0, true, 0)->0].name@
    } else if category == NON_RECURRING_CATEGORY@ {
        NON_RECURRING_CATEGORY@
    } else if spec_bill_id_for_category(bills, category) is Some {
        category
    } else {
        spec_tr(language, "Unassigned"@)
    }
}

pub fn transaction_bill_sort_label(
    transaction: &TransactionRecord,
    bills: &Vec<BillRecord>,
    paychecks: &Vec<BillRecord>,
    language: Language,
) -> (r: String)
    ensures
        r@ == spec_transaction_bill_sort_label(*transaction, bills@, paychecks@, language),
{
    if transaction.classification == TransactionClass::Paycheck {
        return owned(tr(language, "Paycheck Transfers"));
    }
    if let Some(bill_id) = transaction.matched_bill_id {
        if let Some(k) = find_with_id(bills, bill_id, true) {
            return bills[k].name.clone();
        }
    }
    let category = normalize_category_name(transaction.category_name.as_str());
    if str_eq(category.as_str(), NON_RECURRING_CATEGORY) {
        owned(NON_RECURRING_CATEGORY)
    } else if bill_id_for_category(bills, category.as_str()).is_some() {
        category
    } else {
        owned(tr(language, "Unassigned"))
    }
}

/// How often a transaction recurs, as the transaction list shows it.
pub open spec fn spec_transaction_recurring_label(
    t: TransactionRecord,
    bills: Seq<BillRecord>,
    paychecks: Seq<BillRecord>,
    candidates: Seq<CandidateRecord>,
    language: Language,
) -> Seq<char> {
    let category = spec_normalize_category_name(t.category_name@);
    let id = t.matched_bill_id->0;
    if category == NON_RECURRING_CATEGORY@ {
        spec_tr(language, "Non-recurring"@)
    } else if t.matched_bill_id is Some && t.classification == TransactionClass::Paycheck
        && first_with_id(paychecks, id, true, 0) is Some {
        spec_tr(language, spec_frequency_label(paychecks[first_with_id(paychecks, id, true, 0)->0].frequency))
    } else if t.matched_bill_id is Some && first_with_id(bills, id, true, 0) is Some {
        spec_tr(language, spec_frequency_label(bills[first_with_id(bills, id, true, 0)->0].frequency))
    } else if first_named(bills, category, 0) is Some {
        spec_tr(language, spec_frequency_label(bills[first_named(bills, category, 0)->0].frequency))
    } else if t.manual_classification == Some(TransactionClass::Misc) {
        spec_tr(language, "Unassigned"@)
    } else if first_candidate(candidates, spec_transaction_key(t), 0) is Some {
        spec_tr(
            language,
            spec_cadence_key(candidates[first_candidate(candidates, spec_transaction_key(t), 0)->0].cadence),
        )
    } else if t.classification == TransactionClass::Recurring {
        spec_tr(language, "Recurring"@)
    } else if t.classification == TransactionClass::Paycheck {
        spec_tr(language, "Paycheck Transfer"@)
    } else {
        spec_tr(language, "Unassigned"@)
    }
}

pub fn transaction_recurring_label(
    transaction: &TransactionRecord,
    bills: &Vec<BillRecord>,
    paychecks: &Vec<BillRecord>,
    recurring_candidates: &Vec<CandidateRecord>,
    language: Language,
) -> (r: String)
    ensures
        r@ == spec_transaction_recurring_label(
            *transaction,
            bills@,
            paychecks@,
            recurring_candidates@,
            language,
        ),
{
    let category = normalize_category_name(transaction.category_name.as_str());
    if str_eq(category.as_str(), NON_RECURRING_CATEGORY) {
        return owned(tr(language, "Non-recurring"));
    }
    if let Some(bill_id) = transaction.matched_bill_id {
        if transaction.classification == TransactionClass::Paycheck {
            if let Some(k) = find_with_id(paychecks, bill_id, true) {
                return owned(frequency_label(paychecks[k].frequency, language));
            }
        }
        if let Some(k) = find_with_id(bills, bill_id, true) {
            return owned(frequency_label(bills[k].frequency, language));
        }
    }
    if let Some(k) = find_named(bills, category.as_str()) {
        return owned(frequency_label(bills[k].frequency, language));
    }
    if transaction.manual_classification == Some(TransactionClass::Misc) {
        return owned(tr(language, "Unassigned"));
    }
    let key = transaction_key(transaction);
    if let Some(k) = find_candidate(recurring_candidates, key.as_str()) {
        return owned(cadence_label(recurring_candidates[k].cadence, language));
    }
    if transaction.classification == TransactionClass::Recurring {
        return owned(tr(language, "Recurring"));
    }
    if transaction.classification == TransactionClass::Paycheck {
        return owned(tr(language, "Paycheck Transfer"));
    }
    owned(tr(language, "Unassigned"))
}


// ----- record views -----
/// A transaction record as values.
pub ghost struct TransactionView {
    pub id: Seq<char>,
    pub date: Seq<char>,
    pub payee_name: Seq<char>,
    pub category_name: Seq<char>,
    pub sign: AmountSign,
    pub classification: TransactionClass,
    pub matched_bill_id: Option<u32>,
    pub manual_classification: Option<TransactionClass>,
}

impl View for TransactionRecord {
    type V = TransactionView;

    open spec fn view(&self) -> TransactionView {
        TransactionView {
            id: self.id@,
            date: self.date@,
            payee_name: self.payee_name@,
            category_name: self.category_name@,
            sign: self.sign,
            classification: self.classification,
            matched_bill_id: self.matched_bill_id,
            manual_classification: self.manual_classification,
        }
    }
}

impl TransactionRecord {
    /// A field-by-field copy.
    pub fn copy(&self) -> (r: TransactionRecord)
        ensures
            r@ == self@,
    {
        TransactionRecord {
            id: self.id.clone(),
            date: self.date.clone(),
            payee_name: self.payee_name.clone(),
            category_name: self.category_name.clone(),
            sign: self.sign,
            classification: self.classification,
            matched_bill_id: self.matched_bill_id,
            manual_classification: self.manual_classification,
        }
    }
}

/// Position of the first transaction with id `id`.
pub open spec fn first_with_transaction_id(ts: Seq<TransactionRecord>, id: Seq<char>, i: int) -> Option<
    int,
>
    decreases ts.len() - i,
{
    if i < 0 || i >= ts.len() {
        None
    } else if ts[i].id@ == id {
        Some(i)
    } else {
        first_with_transaction_id(ts, id, i + 1)
    }
}

proof fn lemma_first_with_transaction_id_bounds(ts: Seq<TransactionRecord>, id: Seq<char>, i: int)
    ensures
        first_with_transaction_id(ts, id, i) matches Some(k) ==> 0 <= i <= k < ts.len(),
    decreases ts.len() - i,
{
    if 0 <= i < ts.len() && ts[i].id@ != id {
        lemma_first_with_transaction_id_bounds(ts, id, i + 1);
    }
}

/// The first transaction with id `transaction_id`.
pub fn find_transaction(transactions: &Vec<TransactionRecord>, transaction_id: &str) -> (r: Option<
    usize,
>)
    ensures
        r == (match first_with_transaction_id(transactions@, transaction_id@, 0) {
            Some(k) => Some(k as usize),
            None => None,
        }),
        r matches Some(k) ==> k < transactions.len(),
        first_with_transaction_id(transactions@, transaction_id@, 0) matches Some(k) ==> 0 <= k
            < transactions.len(),
{
    proof {
        lemma_first_with_transaction_id_bounds(transactions@, transaction_id@, 0);
    }
    let mut i: usize = 0;
    while i < transactions.len()
        invariant
            i <= transactions.len(),
            first_with_transaction_id(transactions@, transaction_id@, 0)
                == first_with_transaction_id(transactions@, transaction_id@, i as int),
        decreases transactions.len() - i,
    {
        if str_eq(transactions[i].id.as_str(), transaction_id) {
            return Some(i);
        }
        i += 1;
    }
    None
}

// ----- keeping corrections across imports -----
/// An imported transaction keeps the category, classification, assignment and
/// manual correction of the earlier transaction with its id, and its category
/// is normalized.
pub open spec fn spec_merged(t: TransactionView, existing: Seq<TransactionRecord>) -> TransactionView {
    let base = match first_with_transaction_id(existing, t.id, 0) {
        Some(k) => TransactionView {
            category_name: existing[k].category_name@,
            classification: existing[k].classification,
            matched_bill_id: existing[k].matched_bill_id,
            manual_classification: existing[k].manual_classification,
            ..t
        },
        None => t,
    };
    TransactionView { category_name: spec_normalize_category_name(base.category_name), ..base }
}

pub fn merge_transaction_corrections(
    imported: Vec<TransactionRecord>,
    existing: &Vec<TransactionRecord>,
) -> (r: Vec<TransactionRecord>)
    ensures
        r.len() == imported.len(),
        forall|i: int| 0 <= i < r.len() ==> #[trigger] r[i]@ == spec_merged(imported[i]@, existing@),
{
    let mut out: Vec<TransactionRecord> = Vec::new();
    let mut i: usize = 0;
    while i < imported.len()
        invariant
            i <= imported.len(),
            out.len() == i,
            forall|k: int| 0 <= k < i ==> #[trigger] out[k]@ == spec_merged(imported[k]@, existing@),
        decreases imported.len() - i,
    {
        let t = &imported[i];
        let mut category = t.category_name.clone();
        let mut classification = t.classification;
        let mut matched = t.matched_bill_id;
        let mut manual = t.manual_classification;
        if let Some(k) = find_transaction(existing, t.id.as_str()) {
            category = existing[k].category_name.clone();
            classification = existing[k].classification;
            matched = existing[k].matched_bill_id;
            manual = existing[k].manual_classification;
        }
        let record = TransactionRecord {
            id: t.id.clone(),
            date: t.date.clone(),
            payee_name: t.payee_name.clone(),
            category_name: normalize_category_name(category.as_str()),
            sign: t.sign,
            classification,
            matched_bill_id: matched,
            manual_classification: manual,
        };
        out.push(record);
        i += 1;
    }
    out
}

// ----- applying detected candidates -----
/// One transaction after recurring detection: a manual correction is kept; an
/// assignment to a bill or paycheck transfer that lost its real name is
/// dropped, else the transaction takes that name; then a matching candidate
/// makes an inflow a paycheck transfer and an outflow a recurring payment,
/// assigned to the paycheck transfer or bill the candidate names.
pub open spec fn spec_apply_candidates(
    t: TransactionView,
    candidates: Seq<CandidateRecord>,
    bills: Seq<BillRecord>,
    paychecks: Seq<BillRecord>,
) -> TransactionView {
    let t1 = TransactionView { category_name: spec_normalize_category_name(t.category_name), ..t };
    if t1.manual_classification is Some {
        t1
    } else {
        let t2 = match t1.matched_bill_id {
            Some(id) => if t1.classification == TransactionClass::Paycheck {
                match first_with_id(paychecks, id, false, 0) {
                    Some(k) => if assignable(paychecks[k]) {
                        TransactionView { category_name: paychecks[k].name@, ..t1 }
                    } else {
                        TransactionView { matched_bill_id: None, ..t1 }
                    },
                    None => t1,
                }
            } else {
                match first_with_id(bills, id, false, 0) {
                    Some(k) => if assignable(bills[k]) {
                        TransactionView {
                            classification: TransactionClass::Recurring,
                            category_name: bills[k].name@,
                            ..t1
                        }
                    } else {
                        TransactionView { matched_bill_id: None, ..t1 }
                    },
                    None => t1,
                }
            },
            None => t1,
        };
        match first_candidate(candidates, spec_recurring_key(t2.category_name, t2.payee_name), 0) {
            Some(c) => if t2.sign == AmountSign::Positive {
                let id = spec_paycheck_id_for_candidate(candidates[c], paychecks);
                let t3 = TransactionView {
                    classification: TransactionClass::Paycheck,
                    matched_bill_id: id,
                    ..t2
                };
                match id {
                    Some(pid) => match first_with_id(paychecks, pid, false, 0) {
                        Some(k) => if assignable(paychecks[k]) {
                            TransactionView { category_name: paychecks[k].name@, ..t3 }
                        } else {
                            TransactionView { matched_bill_id: None, ..t3 }
                        },
                        None => t3,
                    },
                    None => t3,
                }
            } else if t2.sign == AmountSign::Negative {
                let id = spec_bill_id_for_candidate(candidates[c], bills);
                let t3 = TransactionView {
                    classification: TransactionClass::Recurring,
                    matched_bill_id: id,
                    ..t2
                };
                match id {
                    Some(bid) => match first_with_id(bills, bid, false, 0) {
                        Some(k) => if assignable(bills[k]) {
                            TransactionView { category_name: bills[k].name@, ..t3 }
                        } else {
                            TransactionView { matched_bill_id: None, ..t3 }
                        },
                        None => TransactionView { matched_bill_id: None, ..t3 },
                    },
                    None => t3,
                }
            } else {
                t2
            },
            None => t2,
        }
    }
}

fn apply_candidates_one(
    t: &TransactionRecord,
    candidates: &Vec<CandidateRecord>,
    bills: &Vec<BillRecord>,
    paychecks: &Vec<BillRecord>,
) -> (r: TransactionRecord)
    ensures
        r@ == spec_apply_candidates(t@, candidates@, bills@, paychecks@),
{
    let mut category = normalize_category_name(t.category_name.as_str());
    let mut classification = t.classification;
    let mut matched = t.matched_bill_id;
    if t.manual_classification.is_none() {
        if let Some(bill_id) = matched {
            if classification == TransactionClass::Paycheck {
                if let Some(k) = find_with_id(paychecks, bill_id, false) {
                    if is_assignable_bill_name(paychecks[k].name.as_str()) {
                        category = paychecks[k].name.clone();
                    } else {
                        matched = None;
                    }
                }
            } else if let Some(k) = find_with_id(bills, bill_id, false) {
                if is_assignable_bill_name(bills[k].name.as_str()) {
                    classification = TransactionClass::Recurring;
                    category = bills[k].name.clone();
                } else {
                    matched = None;
                }
            }
        }
        let key = recurring_key(category.as_str(), t.payee_name.as_str());
        if let Some(c) = find_candidate(candidates, key.as_str()) {
            if t.sign == AmountSign::Positive {
                classification = TransactionClass::Paycheck;
                matched = paycheck_id_for_candidate(&candidates[c], paychecks);
                if let Some(pid) = matched {
                    if let Some(k) = find_with_id(paychecks, pid, false) {
                        if is_assignable_bill_name(paychecks[k].name.as_str()) {
                            category = paychecks[k].name.clone();
                        } else {
                            matched = None;
                        }
                    }
                }
            } else if t.sign == AmountSign::Negative {
                classification = TransactionClass::Recurring;
                matched = bill_id_for_candidate(&candidates[c], bills);
                if let Some(bid) = matched {
                    match find_with_id(bills, bid, false) {
                        Some(k) => {
                            if is_assignable_bill_name(bills[k].name.as_str()) {
                                category = bills[k].name.clone();
                            } else {
                                matched = None;
                            }
                        },
                        None => {
                            matched = None;
                        },
                    }
                }
            }
        }
    }
    TransactionRecord {
        id: t.id.clone(),
        date: t.date.clone(),
        payee_name: t.payee_name.clone(),
        category_name: category,
        sign: t.sign,
        classification,
        matched_bill_id: matched,
        manual_classification: t.manual_classification,
    }
}

/// Applies the detected candidates, bills and paycheck transfers to every transaction.
pub fn apply_recurring_candidates(
    transactions: Vec<TransactionRecord>,
    candidates: &Vec<CandidateRecord>,
    bills: &Vec<BillRecord>,
    paychecks: &Vec<BillRecord>,
) -> (r: Vec<TransactionRecord>)
    ensures
        r.len() == transactions.len(),
        forall|i: int|
            0 <= i < r.len() ==> #[trigger] r[i]@ == spec_apply_candidates(
                transactions[i]@,
                candidates@,
                bills@,
                paychecks@,
            ),
{
    let mut out: Vec<TransactionRecord> = Vec::new();
    let mut i: usize = 0;
    while i < transactions.len()
        invariant
            i <= transactions.len(),
            out.len() == i,
            forall|k: int|
                0 <= k < i ==> #[trigger] out[k]@ == spec_apply_candidates(
                    transactions[k]@,
                    candidates@,
                    bills@,
                    paychecks@,
                ),
        decreases transactions.len() - i,
    {
        out.push(apply_candidates_one(&transactions[i], candidates, bills, paychecks));
        i += 1;
    }
    out
}


// ----- manual assignment from the bill selector -----
/// What a bill selector value asks for.
#[derive(Clone, Copy, Debug, PartialEq, Eq, Structural)]
pub enum BillSelection {
    CreateBill,
    Bill(u32),
    Paycheck(u32),
    NonRecurring,
    Unassigned,
}

pub open spec fn has_prefix(s: Seq<char>, p: Seq<char>) -> bool {
    p.len() <= s.len() && s.subrange(0, p.len() as int) == p
}

/// Reads a selector value: create, "bill:<id>", "paycheck:<id>", non-recurring,
/// and anything else means unassigned.
pub open spec fn spec_bill_selection(value: Seq<char>) -> BillSelection {
    let bill = BILL_SELECT_PREFIX@;
    let paycheck = PAYCHECK_SELECT_PREFIX@;
    if value == BILL_SELECT_CREATE@ {
        BillSelection::CreateBill
    } else if has_prefix(value, bill) && parse_u32_spec(value.subrange(bill.len() as int, value.len() as int)) is Some {
        BillSelection::Bill(parse_u32_spec(value.subrange(bill.len() as int, value.len() as int))->0)
    } else if has_prefix(value, paycheck) && parse_u32_spec(value.subrange(paycheck.len() as int, value.len() as int)) is Some {
        BillSelection::Paycheck(parse_u32_spec(value.subrange(paycheck.len() as int, value.len() as int))->0)
    } else if value == BILL_SELECT_NON_RECURRING@ {
        BillSelection::NonRecurring
    } else {
        BillSelection::Unassigned
    }
}

fn starts_with(v: &Vec<char>, prefix: &str) -> (r: bool)
    ensures
        r == has_prefix(v@, prefix@),
{
    let p = chars_of(prefix);
    if p.len() > v.len() {
        return false;
    }
    let mut i: usize = 0;
    while i < p.len()
        invariant
            i <= p.len() <= v.len(),
            p@ == prefix@,
            forall|k: int| 0 <= k < i ==> v@[k] == p@[k],
        decreases p.len() - i,
    {
        if v[i] != p[i] {
            assert(v@.subrange(0, p.len() as int)[i as int] != p@[i as int]);
            return false;
        }
        i += 1;
    }
    assert(v@.subrange(0, p.len() as int) == p@);
    true
}

/// Reads a bill selector value.
pub fn parse_bill_selection(value: &str) -> (r: BillSelection)
    ensures
        r == spec_bill_selection(value@),
{
    if str_eq(value, BILL_SELECT_CREATE) {
        return BillSelection::CreateBill;
    }
    let v = chars_of(value);
    let bill_len = chars_of(BILL_SELECT_PREFIX).len();
    if starts_with(&v, BILL_SELECT_PREFIX) {
        if let Some(id) = parse_u32_range(&v, bill_len, v.len()) {
            return BillSelection::Bill(id);
        }
    }
    let paycheck_len = chars_of(PAYCHECK_SELECT_PREFIX).len();
    if starts_with(&v, PAYCHECK_SELECT_PREFIX) {
        if let Some(id) = parse_u32_range(&v, paycheck_len, v.len()) {
            return BillSelection::Paycheck(id);
        }
    }
    if str_eq(value, BILL_SELECT_NON_RECURRING) {
        return BillSelection::NonRecurring;
    }
    BillSelection::Unassigned
}

/// Law: the selector reads back the value it shows for a bill or paycheck transfer.
pub proof fn law_selection_reads_select_value(id: u32)
    ensures
        spec_bill_selection(prefixed_id(BILL_SELECT_PREFIX@, id)) == BillSelection::Bill(id),
        spec_bill_selection(prefixed_id(PAYCHECK_SELECT_PREFIX@, id)) == BillSelection::Paycheck(id),
{
    reveal_strlit("bill:");
    reveal_strlit("paycheck:");
    reveal_strlit("__create_bill__");
    crate::text::law_parse_u32_reads_padded_decimal(id, 0);
    assert(crate::text::decimal_padded(id as nat, 0) == decimal(id as nat));
    let b = prefixed_id(BILL_SELECT_PREFIX@, id);
    let p = prefixed_id(PAYCHECK_SELECT_PREFIX@, id);
    assert(b.subrange(0, 5) == BILL_SELECT_PREFIX@);
    assert(b.subrange(5, b.len() as int) == decimal(id as nat));
    assert(p.subrange(0, 9) == PAYCHECK_SELECT_PREFIX@);
    assert(p.subrange(9, p.len() as int) == decimal(id as nat));
    assert(b != BILL_SELECT_CREATE@) by {
        assert(b[0] != BILL_SELECT_CREATE@[0]);
    }
    assert(p != BILL_SELECT_CREATE@) by {
        assert(p[0] != BILL_SELECT_CREATE@[0]);
    }
    assert(!has_prefix(p, BILL_SELECT_PREFIX@)) by {
        assert(p[0] != BILL_SELECT_PREFIX@[0]);
    }
}

/// A transaction after the user picks `selection` (other than creating a bill):
/// a bill or paycheck transfer assigns it and records the correction;
/// non-recurring marks it so; unassigned clears the assignment and makes it a
/// transfer, or misc when the amount is negative.
pub open spec fn spec_assign(
    t: TransactionView,
    selection: BillSelection,
    bills: Seq<BillRecord>,
    paychecks: Seq<BillRecord>,
) -> TransactionView {
    match selection {
        BillSelection::Bill(id) => TransactionView {
            category_name: match first_with_id(bills, id, false, 0) {
                Some(k) => bills[k].name@,
                None => DEFAULT_CATEGORY_NAME@,
            },
            classification: TransactionClass::Recurring,
            matched_bill_id: Some(id),
            manual_classification: Some(TransactionClass::Recurring),
            ..t
        },
        BillSelection::Paycheck(id) => TransactionView {
            category_name: match first_with_id(paychecks, id, false, 0) {
                Some(k) => paychecks[k].name@,
                None => "Paycheck Transfer"@,
            },
            classification: TransactionClass::Paycheck,
            matched_bill_id: Some(id),
            manual_classification: Some(TransactionClass::Paycheck),
            ..t
        },
        BillSelection::NonRecurring => TransactionView {
            category_name: NON_RECURRING_CATEGORY@,
            classification: TransactionClass::Misc,
            matched_bill_id: None,
            manual_classification: Some(TransactionClass::Misc),
            ..t
        },
        BillSelection::Unassigned => TransactionView {
            category_name: DEFAULT_CATEGORY_NAME@,
            classification: if t.sign == AmountSign::Negative || t.sign == AmountSign::Unordered {
                TransactionClass::Misc
            } else {
                TransactionClass::Transfer
            },
            matched_bill_id: None,
            manual_classification: None,
            ..t
        },
        BillSelection::CreateBill => t,
    }
}

/// The transaction as it stands after the user picks `selection` in its bill selector.
pub fn assign_transaction(
    transaction: &TransactionRecord,
    selection: BillSelection,
    bills: &Vec<BillRecord>,
    paychecks: &Vec<BillRecord>,
) -> (r: TransactionRecord)
    ensures
        r@ == spec_assign(transaction@, selection, bills@, paychecks@),
{
    let mut t = transaction.copy();
    match selection {
        BillSelection::Bill(id) => {
            t.category_name = match find_with_id(bills, id, false) {
                Some(k) => bills[k].name.clone(),
                None => owned(DEFAULT_CATEGORY_NAME),
            };
            t.classification = TransactionClass::Recurring;
            t.matched_bill_id = Some(id);
            t.manual_classification = Some(TransactionClass::Recurring);
        },
        BillSelection::Paycheck(id) => {
            t.category_name = match find_with_id(paychecks, id, false) {
                Some(k) => paychecks[k].name.clone(),
                None => owned("Paycheck Transfer"),
            };
            t.classification = TransactionClass::Paycheck;
            t.matched_bill_id = Some(id);
            t.manual_classification = Some(TransactionClass::Paycheck);
        },
        BillSelection::NonRecurring => {
            t.category_name = owned(NON_RECURRING_CATEGORY);
            t.classification = TransactionClass::Misc;
            t.matched_bill_id = None;
            t.manual_classification = Some(TransactionClass::Misc);
        },
        BillSelection::Unassigned => {
            t.category_name = owned(DEFAULT_CATEGORY_NAME);
            t.classification = if t.sign == AmountSign::Negative || t.sign == AmountSign::Unordered {
                TransactionClass::Misc
            } else {
                TransactionClass::Transfer
            };
            t.matched_bill_id = None;
            t.manual_classification = None;
        },
        BillSelection::CreateBill => {},
    }
    t
}

// ----- counts and pages -----
pub open spec fn count_class(ts: Seq<TransactionRecord>, class: TransactionClass) -> nat
    decreases ts.len(),
{
    if ts.len() == 0 {
        0
    } else {
        count_class(ts.drop_last(), class) + (if ts.last().classification == class {
            1nat
        } else {
            0nat
        })
    }
}

/// How many transactions carry `class`.
pub fn class_count(transactions: &Vec<TransactionRecord>, class: TransactionClass) -> (r: usize)
    ensures
        r == count_class(transactions@, class),
{
    let mut count: usize = 0;
    let mut i: usize = 0;
    while i < transactions.len()
        invariant
            i <= transactions.len(),
            count == count_class(transactions@.take(i as int), class),
            count <= i,
        decreases transactions.len() - i,
    {
        assert(transactions@.take(i + 1).drop_last() == transactions@.take(i as int));
        if transactions[i].classification == class {
            count += 1;
        }
        i += 1;
    }
    assert(transactions@.take(transactions.len() as int) == transactions@);
    count
}

/// Pages needed for `total_items` at `page_size` per page, and at least one.
pub fn page_count(total_items: usize, page_size: usize) -> (r: usize)
    requires
        page_size > 0,
    ensures
        r == (if total_items == 0 {
            1
        } else {
            (total_items - 1) / (page_size as int) + 1
        }),
        r >= 1,
        (r - 1) * page_size < total_items || total_items == 0,
        total_items <= r * page_size,
{
    if total_items == 0 {
        return 1;
    }
    let pages = (total_items - 1) / page_size + 1;
    proof {
        let q = (total_items - 1) / (page_size as int);
        vstd::arithmetic::div_mod::lemma_fundamental_div_mod(total_items - 1, page_size as int);
        assert((pages - 1) * page_size <= total_items - 1) by (nonlinear_arith)
            requires
                pages - 1 == q,
                total_items - 1 == page_size * q + (total_items - 1) % (page_size as int),
                (total_items - 1) % (page_size as int) >= 0,
        ;
        assert(total_items <= pages * page_size) by (nonlinear_arith)
            requires
                pages == q + 1,
                total_items - 1 == page_size * q + (total_items - 1) % (page_size as int),
                (total_items - 1) % (page_size as int) < page_size,
        ;
    }
    pages
}


/// The page shown when page `page` is asked for: the last page when `page`
/// is past it; and the positions of its first item and one past its last.
pub fn page_window(total_items: usize, page: usize, page_size: usize) -> (r: (usize, usize, usize))
    requires
        page_size > 0,
        total_items + page_size <= usize::MAX,
    ensures
        ({
            let pages = if total_items == 0 {
                1
            } else {
                (total_items - 1) / (page_size as int) + 1
            };
            let current = if page < pages - 1 {
                page as int
            } else {
                pages - 1
            };
            &&& r.0 == current
            &&& r.1 == current * page_size
            &&& r.2 == if (current + 1) * page_size < total_items {
                (current + 1) * page_size
            } else {
                total_items as int
            }
        }),
{
    let pages = page_count(total_items, page_size);
    let current = if page < pages - 1 {
        page
    } else {
        pages - 1
    };
    proof {
        if total_items > 0 {
            assert(current * page_size <= total_items - 1) by (nonlinear_arith)
                requires
                    current <= (total_items - 1) / (page_size as int),
                    page_size > 0,
                    total_items > 0,
            {
                vstd::arithmetic::div_mod::lemma_fundamental_div_mod(total_items - 1, page_size as int);
            }
        } else {
            assert(current == 0);
        }
        assert((current + 1) * page_size == current * page_size + page_size) by (nonlinear_arith);
    }
    let start = current * page_size;
    let next = start + page_size;
    let end = if next < total_items {
        next
    } else {
        total_items
    };
    (current, start, end)
}

// ----- the latest transaction of a group -----
/// `a` sorts after `b` by date, then by id, comparing bytes.
pub open spec fn later_than(a: TransactionRecord, b: TransactionRecord) -> bool {
    let (ad, bd) = (vstd::utf8::encode_utf8(a.date@), vstd::utf8::encode_utf8(b.date@));
    let (ai, bi) = (vstd::utf8::encode_utf8(a.id@), vstd::utf8::encode_utf8(b.id@));
    bytes_lt(bd, ad) || (bd == ad && bytes_lt(bi, ai))
}

/// Among the selected transactions, position `k` holds the latest by date and
/// id, and the last such one when several tie.
pub open spec fn is_latest(ts: Seq<TransactionRecord>, selected: Seq<bool>, k: int) -> bool {
    &&& 0 <= k < ts.len()
    &&& selected[k]
    &&& forall|j: int| 0 <= j < ts.len() && selected[j] ==> !later_than(#[trigger] ts[j], ts[k])
    &&& forall|j: int| k < j < ts.len() && selected[j] ==> later_than(ts[k], #[trigger] ts[j])
}

fn is_later(a: &TransactionRecord, b: &TransactionRecord) -> (r: bool)
    ensures
        r == later_than(*a, *b),
{
    let ad = a.date.as_str().as_bytes();
    let bd = b.date.as_str().as_bytes();
    let ai = a.id.as_str().as_bytes();
    let bi = b.id.as_str().as_bytes();
    if bytes_less(bd, ad) {
        return true;
    }
    if bytes_less(ad, bd) {
        proof {
            lemma_bytes_lt_total(ad@, bd@);
            if ad@ == bd@ {
                lemma_bytes_lt_irreflexive(ad@);
            }
        }
        return false;
    }
    proof {
        lemma_bytes_lt_total(ad@, bd@);
    }
    bytes_less(bi, ai)
}

proof fn lemma_later_than_order(a: TransactionRecord, b: TransactionRecord, c: TransactionRecord)
    ensures
        !later_than(a, a),
        !(later_than(a, b) && later_than(b, a)),
        later_than(a, b) && later_than(b, c) ==> later_than(a, c),
        !later_than(a, b) && !later_than(b, a) ==> (vstd::utf8::encode_utf8(a.date@)
            == vstd::utf8::encode_utf8(b.date@) && vstd::utf8::encode_utf8(a.id@)
            == vstd::utf8::encode_utf8(b.id@)),
        !later_than(a, b) && !later_than(b, c) ==> !later_than(a, c),
{
    let (ad, bd, cd) = (
        vstd::utf8::encode_utf8(a.date@),
        vstd::utf8::encode_utf8(b.date@),
        vstd::utf8::encode_utf8(c.date@),
    );
    let (ai, bi, ci) = (
        vstd::utf8::encode_utf8(a.id@),
        vstd::utf8::encode_utf8(b.id@),
        vstd::utf8::encode_utf8(c.id@),
    );
    lemma_bytes_lt_irreflexive(ad);
    lemma_bytes_lt_irreflexive(ai);
    lemma_bytes_lt_total(ad, bd);
    lemma_bytes_lt_total(bd, cd);
    lemma_bytes_lt_total(ad, cd);
    lemma_bytes_lt_total(ai, bi);
    lemma_bytes_lt_total(bi, ci);
    lemma_bytes_lt_total(ai, ci);
    if bytes_lt(bd, ad) && bytes_lt(cd, bd) {
        lemma_bytes_lt_transitive(cd, bd, ad);
    }
    if bytes_lt(bi, ai) && bytes_lt(ci, bi) {
        lemma_bytes_lt_transitive(ci, bi, ai);
    }
    if bytes_lt(ad, bd) && bytes_lt(bd, cd) {
        lemma_bytes_lt_transitive(ad, bd, cd);
    }
    if bytes_lt(ai, bi) && bytes_lt(bi, ci) {
        lemma_bytes_lt_transitive(ai, bi, ci);
    }
}

/// The latest of the selected transactions by date then id, the last of any tie,
/// as `Iterator::max_by` picks it.
pub fn latest_transaction(transactions: &Vec<TransactionRecord>, selected: &Vec<bool>) -> (r: Option<
    usize,
>)
    requires
        transactions.len() == selected.len(),
    ensures
        r matches Some(k) ==> is_latest(transactions@, selected@, k as int),
        r is None ==> forall|j: int| 0 <= j < selected.len() ==> !selected[j],
{
    let mut best: Option<usize> = None;
    let mut i: usize = 0;
    while i < transactions.len()
        invariant
            i <= transactions.len() == selected.len(),
            best matches Some(k) ==> is_latest(transactions@.take(i as int), selected@.take(i as int), k as int),
            best is None ==> forall|j: int| 0 <= j < i ==> !selected[j],
        decreases transactions.len() - i,
    {
        if selected[i] {
            match best {
                None => {
                    best = Some(i);
                    proof {
                        lemma_later_than_order(transactions@[i as int], transactions@[i as int], transactions@[i as int]);
                    }
                },
                Some(k) => {
                    if !is_later(&transactions[k], &transactions[i]) {
                        best = Some(i);
                        proof {
                            assert forall|j: int| 0 <= j < i + 1 && selected@[j] implies !later_than(
                                #[trigger] transactions@[j],
                                transactions@[i as int],
                            ) by {
                                lemma_later_than_order(transactions@[j], transactions@[k as int], transactions@[i as int]);
                                assert(transactions@.take(i as int)[j] == transactions@[j] || j == i);
                            }
                        }
                    } else {
                        proof {
                            assert forall|j: int| k < j < i + 1 && selected@[j] implies later_than(
                                transactions@[k as int],
                                #[trigger] transactions@[j],
                            ) by {
                                if j < i {
                                    assert(transactions@.take(i as int)[j] == transactions@[j]);
                                }
                            }
                            assert forall|j: int| 0 <= j < i + 1 && selected@[j] implies !later_than(
                                #[trigger] transactions@[j],
                                transactions@[k as int],
                            ) by {
                                if j < i {
                                    assert(transactions@.take(i as int)[j] == transactions@[j]);
                                } else {
                                    lemma_later_than_order(transactions@[j], transactions@[k as int], transactions@[j]);
                                }
                            }
                        }
                    }
                },
            }
        }
        i += 1;
        proof {
            if best is Some {
                let k = best->0;
                assert forall|j: int| 0 <= j < i && selected@.take(i as int)[j] implies !later_than(
                    #[trigger] transactions@.take(i as int)[j],
                    transactions@.take(i as int)[k as int],
                ) by {}
            }
        }
    }
    assert(transactions@.take(transactions.len() as int) == transactions@);
    assert(selected@.take(selected.len() as int) == selected@);
    best
}


pub open spec fn all_selected(n: int) -> Seq<bool> {
    Seq::new(n as nat, |i: int| true)
}

/// The recurring label of a group: that of its latest transaction, or
/// "Unassigned" for an empty group.
pub fn transaction_group_recurring_label(
    transactions: &Vec<TransactionRecord>,
    bills: &Vec<BillRecord>,
    paychecks: &Vec<BillRecord>,
    recurring_candidates: &Vec<CandidateRecord>,
    language: Language,
) -> (r: String)
    ensures
        transactions.len() == 0 ==> r@ == spec_tr(language, "Unassigned"@),
        transactions.len() > 0 ==> exists|k: int|
            is_latest(transactions@, all_selected(transactions.len() as int), k) && r@
                == spec_transaction_recurring_label(
                #[trigger] transactions@[k],
                bills@,
                paychecks@,
                recurring_candidates@,
                language,
            ),
{
    let mut selected: Vec<bool> = Vec::new();
    let mut i: usize = 0;
    while i < transactions.len()
        invariant
            i <= transactions.len(),
            selected@ == all_selected(i as int),
        decreases transactions.len() - i,
    {
        selected.push(true);
        i += 1;
        assert(selected@ =~= all_selected(i as int));
    }
    match latest_transaction(transactions, &selected) {
        Some(k) => transaction_recurring_label(
            &transactions[k],
            bills,
            paychecks,
            recurring_candidates,
            language,
        ),
        None => {
            assert(transactions.len() > 0 ==> selected@[0]);
            owned(tr(language, "Unassigned"))
        },
    }
}

/// Law: a group has one latest transaction.
pub proof fn law_latest_is_unique(ts: Seq<TransactionRecord>, selected: Seq<bool>, a: int, b: int)
    requires
        is_latest(ts, selected, a),
        is_latest(ts, selected, b),
    ensures
        a == b,
{
    if a < b {
        assert(later_than(ts[a], ts[b]));
    } else if b < a {
        assert(later_than(ts[b], ts[a]));
    }
}

/// A transaction whose recurring label is neither "Unassigned" nor "Non-recurring".
pub open spec fn has_regular_label(
    t: TransactionRecord,
    bills: Seq<BillRecord>,
    paychecks: Seq<BillRecord>,
    candidates: Seq<CandidateRecord>,
    language: Language,
) -> bool {
    let label = spec_transaction_recurring_label(t, bills, paychecks, candidates, language);
    label != spec_tr(language, "Unassigned"@) && label != spec_tr(language, "Non-recurring"@)
}

pub open spec fn regular_flags(
    ts: Seq<TransactionRecord>,
    bills: Seq<BillRecord>,
    paychecks: Seq<BillRecord>,
    candidates: Seq<CandidateRecord>,
    language: Language,
) -> Seq<bool> {
    Seq::new(ts.len(), |i: int| has_regular_label(ts[i], bills, paychecks, candidates, language))
}

/// The latest transaction of a group that has a regular recurring label: the
/// one whose amount the group shows.
pub fn latest_regular_transaction(
    transactions: &Vec<TransactionRecord>,
    bills: &Vec<BillRecord>,
    paychecks: &Vec<BillRecord>,
    recurring_candidates: &Vec<CandidateRecord>,
    language: Language,
) -> (r: Option<usize>)
    ensures
        r matches Some(k) ==> is_latest(
            transactions@,
            regular_flags(transactions@, bills@, paychecks@, recurring_candidates@, language),
            k as int,
        ),
        r is None ==> forall|j: int|
            0 <= j < transactions.len() ==> !has_regular_label(
                #[trigger] transactions@[j],
                bills@,
                paychecks@,
                recurring_candidates@,
                language,
            ),
{
    let ghost flags = regular_flags(transactions@, bills@, paychecks@, recurring_candidates@, language);
    let unassigned = tr(language, "Unassigned");
    let non_recurring = tr(language, "Non-recurring");
    let mut selected: Vec<bool> = Vec::new();
    let mut i: usize = 0;
    while i < transactions.len()
        invariant
            i <= transactions.len(),
            unassigned@ == spec_tr(language, "Unassigned"@),
            non_recurring@ == spec_tr(language, "Non-recurring"@),
            flags == regular_flags(transactions@, bills@, paychecks@, recurring_candidates@, language),
            selected@ == flags.take(i as int),
        decreases transactions.len() - i,
    {
        let label = transaction_recurring_label(
            &transactions[i],
            bills,
            paychecks,
            recurring_candidates,
            language,
        );
        let regular = !str_eq(label.as_str(), unassigned) && !str_eq(label.as_str(), non_recurring);
        selected.push(regular);
        i += 1;
        assert(selected@ =~= flags.take(i as int));
    }
    assert(flags.take(transactions.len() as int) == flags);
    let r = latest_transaction(transactions, &selected);
    proof {
        if r is None {
            assert forall|j: int| 0 <= j < transactions.len() implies !has_regular_label(
                #[trigger] transactions@[j],
                bills@,
                paychecks@,
                recurring_candidates@,
                language,
            ) by {
                assert(!selected@[j]);
            }
        }
    }
    r
}

// ----- laws across imports, detection and the bill selector -----
/// Law: an import keeps the category, classification, assignment and manual
/// correction of the earlier transaction with the same id (its category
/// normalized), and takes everything else from the import.
pub proof fn law_import_keeps_corrections(t: TransactionView, existing: Seq<TransactionRecord>, k: int)
    requires
        first_with_transaction_id(existing, t.id, 0) == Some(k),
    ensures
        spec_merged(t, existing) == (TransactionView {
            category_name: spec_normalize_category_name(existing[k].category_name@),
            classification: existing[k].classification,
            matched_bill_id: existing[k].matched_bill_id,
            manual_classification: existing[k].manual_classification,
            ..t
        }),
{
}

/// Law: detection leaves a transaction the user corrected by hand as it was,
/// but for its category name being normalized.
pub proof fn law_manual_correction_survives_detection(
    t: TransactionView,
    candidates: Seq<CandidateRecord>,
    bills: Seq<BillRecord>,
    paychecks: Seq<BillRecord>,
)
    requires
        t.manual_classification is Some,
    ensures
        spec_apply_candidates(t, candidates, bills, paychecks) == (TransactionView {
            category_name: spec_normalize_category_name(t.category_name),
            ..t
        }),
{
}

/// Law: the bill or paycheck transfer chosen in a transaction's selector is
/// the one the selector then shows, when it can take transactions.
pub proof fn law_assignment_reads_back(
    t: TransactionRecord,
    selection: BillSelection,
    bills: Seq<BillRecord>,
    paychecks: Seq<BillRecord>,
    assigned: TransactionRecord,
)
    requires
        assigned@ == spec_assign(t@, selection, bills, paychecks),
        match selection {
            BillSelection::Bill(id) => first_with_id(bills, id, true, 0) is Some,
            BillSelection::Paycheck(id) => first_with_id(paychecks, id, true, 0) is Some,
            _ => false,
        },
    ensures
        spec_bill_selection(spec_transaction_bill_select_value(assigned, bills, paychecks)) == selection,
{
    match selection {
        BillSelection::Bill(id) => {
            law_selection_reads_select_value(id);
        },
        BillSelection::Paycheck(id) => {
            law_selection_reads_select_value(id);
        },
        _ => {},
    }
}

proof fn lemma_first_with_transaction_id_at(ts: Seq<TransactionRecord>, id: Seq<char>, i: int)
    requires
        0 <= i <= ts.len(),
    ensures
        (forall|j: int| i <= j < ts.len() ==> #[trigger] ts[j].id@ != id) ==> first_with_transaction_id(
            ts,
            id,
            i,
        ) is None,
        forall|k: int|
            i <= k < ts.len() && #[trigger] ts[k].id@ == id && (forall|j: int| i <= j < k ==> #[trigger] ts[j].id@ != id)
                ==> first_with_transaction_id(ts, id, i) == Some(k),
    decreases ts.len() - i,
{
    if i < ts.len() {
        lemma_first_with_transaction_id_at(ts, id, i + 1);
    }
}

/// Law: an imported transaction whose id no earlier transaction carries comes
/// out as it was imported, its category name only normalized: its
/// classification, bill assignment and manual correction are kept.
pub proof fn law_import_of_new_transaction_keeps_it(t: TransactionView, existing: Seq<TransactionRecord>)
    requires
        forall|j: int| 0 <= j < existing.len() ==> #[trigger] existing[j].id@ != t.id,
    ensures
        spec_merged(t, existing) == (TransactionView {
            category_name: spec_normalize_category_name(t.category_name),
            ..t
        }),
{
    lemma_first_with_transaction_id_at(existing, t.id, 0);
}

/// Law: an imported transaction takes the category (normalized),
/// classification, bill assignment and manual correction of the earliest
/// earlier transaction with its id, and everything else from the import.
pub proof fn law_import_takes_earliest_correction(t: TransactionView, existing: Seq<TransactionRecord>, k: int)
    requires
        0 <= k < existing.len(),
        existing[k].id@ == t.id,
        forall|j: int| 0 <= j < k ==> #[trigger] existing[j].id@ != t.id,
    ensures
        spec_merged(t, existing) == (TransactionView {
            category_name: spec_normalize_category_name(existing[k].category_name@),
            classification: existing[k].classification,
            matched_bill_id: existing[k].matched_bill_id,
            manual_classification: existing[k].manual_classification,
            ..t
        }),
{
    lemma_first_with_transaction_id_at(existing, t.id, 0);
}

proof fn lemma_first_with_id_at(bills: Seq<BillRecord>, id: u32, i: int)
    requires
        0 <= i <= bills.len(),
    ensures
        forall|k: int|
            i <= k < bills.len() && #[trigger] bills[k].id == id && (forall|j: int| i <= j < k ==> #[trigger] bills[j].id != id)
                ==> first_with_id(bills, id, false, i) == Some(k),
        first_with_id(bills, id, false, i) matches Some(k) ==> i <= k < bills.len() && bills[k].id == id
            && forall|j: int| i <= j < k ==> #[trigger] bills[j].id != id,
    decreases bills.len() - i,
{
    if i < bills.len() {
        lemma_first_with_id_at(bills, id, i + 1);
    }
}

/// Law: after detection, a transaction the user did not correct by hand that
/// is assigned to a bill, or to a paycheck transfer, with a real name carries
/// that name as its category; the bill or paycheck transfer an id names is
/// the first with that id.
pub proof fn law_detection_names_category_after_assignment(
    t: TransactionView,
    candidates: Seq<CandidateRecord>,
    bills: Seq<BillRecord>,
    paychecks: Seq<BillRecord>,
    k: int,
)
    requires
        t.manual_classification is None,
    ensures
        ({
            let r = spec_apply_candidates(t, candidates, bills, paychecks);
            &&& (r.classification != TransactionClass::Paycheck && 0 <= k < bills.len()
                && r.matched_bill_id == Some(bills[k].id) && (forall|j: int|
                0 <= j < k ==> #[trigger] bills[j].id != bills[k].id)
                && !spec_is_unassigned_category_name(bills[k].name@)) ==> r.category_name
                == bills[k].name@
            &&& (r.classification == TransactionClass::Paycheck && 0 <= k < paychecks.len()
                && r.matched_bill_id == Some(paychecks[k].id) && (forall|j: int|
                0 <= j < k ==> #[trigger] paychecks[j].id != paychecks[k].id)
                && !spec_is_unassigned_category_name(paychecks[k].name@)) ==> r.category_name
                == paychecks[k].name@
        }),
{
    if 0 <= k < bills.len() {
        lemma_first_with_id_at(bills, bills[k].id, 0);
    }
    if 0 <= k < paychecks.len() {
        lemma_first_with_id_at(paychecks, paychecks[k].id, 0);
    }
}

proof fn lemma_first_candidate_found(candidates: Seq<CandidateRecord>, key: Seq<char>, i: int)
    requires
        0 <= i <= candidates.len(),
    ensures
        first_candidate(candidates, key, i) is Some <==> exists|c: int|
            i <= c < candidates.len() && #[trigger] spec_candidate_key(candidates[c]) == key,
    decreases candidates.len() - i,
{
    if i < candidates.len() {
        lemma_first_candidate_found(candidates, key, i + 1);
    }
}

/// Law: detection turns a transaction that is not corrected by hand and not
/// yet assigned, and whose recurring key some detected candidate shares, into
/// a paycheck transfer when it is an inflow and a recurring payment when it
/// is an outflow; one whose key no candidate shares only has its category
/// normalized.
pub proof fn law_detection_classifies_matching_transactions(
    t: TransactionView,
    candidates: Seq<CandidateRecord>,
    bills: Seq<BillRecord>,
    paychecks: Seq<BillRecord>,
)
    requires
        t.manual_classification is None,
        t.matched_bill_id is None,
    ensures
        ({
            let r = spec_apply_candidates(t, candidates, bills, paychecks);
            let key = spec_recurring_key(spec_normalize_category_name(t.category_name), t.payee_name);
            let shared = exists|c: int|
                0 <= c < candidates.len() && #[trigger] spec_candidate_key(candidates[c]) == key;
            &&& shared && t.sign == AmountSign::Positive ==> r.classification == TransactionClass::Paycheck
            &&& shared && t.sign == AmountSign::Negative ==> r.classification == TransactionClass::Recurring
            &&& !shared ==> r == (TransactionView {
                category_name: spec_normalize_category_name(t.category_name),
                ..t
            })
        }),
{
    lemma_first_candidate_found(
        candidates,
        spec_recurring_key(spec_normalize_category_name(t.category_name), t.payee_name),
        0,
    );
}

} // verus!
