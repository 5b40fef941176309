//! Classifying a transaction as it comes in from YNAB.
//!
//! An inflow is a transfer into the account. An outflow is matched against the
//! bills: the first bill with a real name that the payee names, or whose
//! amount is close to the outflow's, takes it. Whether an amount is close is
//! decided by the caller from the bill amounts, one flag per bill.
use vstd::prelude::*;
use crate::text::owned;
use crate::ledger::{AmountSign, BillRecord, TransactionRecord, assignable};
use crate::models::TransactionClass;
use crate::names::{
    contains_seq, contains_text, is_assignable_bill_name, normalize_category_name, to_lowercase,
    spec_normalize_category_name, unicode_lowercase_str, spec_is_unassigned_category_name,
};

verus! {

broadcast use vstd::string::group_string_axioms;

/// The sign of an amount in milliunits.
pub open spec fn sign_of(amount: i64) -> AmountSign {
    if amount > 0 {
        AmountSign::Positive
    } else if amount == 0 {
        AmountSign::Zero
    } else {
        AmountSign::Negative
    }
}

/// Bill `b` takes an outflow by this (lowercased) payee: it has a real name,
/// and the payee contains its lowercased name or the amounts are close.
pub open spec fn bill_takes(payee_lower: Seq<char>, b: BillRecord, amount_close: bool) -> bool {
    assignable(b) && (contains_seq(payee_lower, unicode_lowercase_str(b.name@)) || amount_close)
}

/// Position of the first bill at or after `i` that takes the outflow.
pub open spec fn first_taking_bill(
    payee_lower: Seq<char>,
    bills: Seq<BillRecord>,
    amount_close: Seq<bool>,
    i: int,
) -> Option<int>
    decreases bills.len() - i,
{
    if i < 0 || i >= bills.len() {
        None
    } else if bill_takes(payee_lower, bills[i], amount_close[i]) {
        Some(i)
    } else {
        first_taking_bill(payee_lower, bills, amount_close, i + 1)
    }
}

proof fn lemma_first_taking_bill_bounds(
    payee_lower: Seq<char>,
    bills: Seq<BillRecord>,
    amount_close: Seq<bool>,
    i: int,
)
    ensures
        first_taking_bill(payee_lower, bills, amount_close, i) matches Some(k) ==> 0 <= i <= k
            < bills.len(),
    decreases bills.len() - i,
{
    if 0 <= i < bills.len() && !bill_takes(payee_lower, bills[i], amount_close[i]) {
        lemma_first_taking_bill_bounds(payee_lower, bills, amount_close, i + 1);
    }
}

/// The payee of an imported transaction, "Unknown payee" when it has none.
pub open spec fn payee_or_unknown(payee_name: Option<String>) -> Seq<char> {
    match payee_name {
        Some(p) => p@,
        None => "Unknown payee"@,
    }
}

/// The id of the bill that takes an outflow, if any.
pub open spec fn spec_matched_bill(
    payee: Seq<char>,
    bills: Seq<BillRecord>,
    amount_close: Seq<bool>,
) -> Option<u32> {
    match first_taking_bill(unicode_lowercase_str(payee), bills, amount_close, 0) {
        Some(k) => Some(bills[k].id),
        None => None,
    }
}

fn find_taking_bill(payee_lower: &str, bills: &Vec<BillRecord>, amount_close: &Vec<bool>) -> (r:
    Option<usize>)
    requires
        amount_close.len() == bills.len(),
    ensures
        r == (match first_taking_bill(payee_lower@, bills@, amount_close@, 0) {
            Some(k) => Some(k as usize),
            None => None,
        }),
        r matches Some(k) ==> k < bills.len(),
        first_taking_bill(payee_lower@, bills@, amount_close@, 0) matches Some(k) ==> 0 <= k
            < bills.len(),
{
    proof {
        lemma_first_taking_bill_bounds(payee_lower@, bills@, amount_close@, 0);
    }
    let mut i: usize = 0;
    while i < bills.len()
        invariant
            i <= bills.len(),
            amount_close.len() == bills.len(),
            first_taking_bill(payee_lower@, bills@, amount_close@, 0) == first_taking_bill(
                payee_lower@,
                bills@,
                amount_close@,
                i as int,
            ),
        decreases bills.len() - i,
    {
        if is_assignable_bill_name(bills[i].name.as_str()) {
            let name = to_lowercase(bills[i].name.as_str());
            if contains_text(payee_lower, name.as_str()) || amount_close[i] {
                return Some(i);
            }
        }
        i += 1;
    }
    None
}

/// Classifies a transaction imported from YNAB. `amount` is in milliunits;
/// `amount_close[i]` says whether the outflow's amount is close to that of
/// `bills[i]`.
pub fn classify_transaction(
    id: String,
    date: String,
    payee_name: Option<String>,
    category_name: Option<String>,
    amount: i64,
    bills: &Vec<BillRecord>,
    amount_close: &Vec<bool>,
) -> (r: TransactionRecord)
    requires
        amount_close.len() == bills.len(),
    ensures
        r.id@ == id@,
        r.date@ == date@,
        r.payee_name@ == payee_or_unknown(payee_name),
        r.category_name@ == spec_normalize_category_name(
            match category_name {
                Some(c) => c@,
                None => Seq::empty(),
            },
        ),
        r.sign == sign_of(amount),
        r.manual_classification is None,
        amount > 0 ==> r.classification == TransactionClass::Transfer && r.matched_bill_id is None,
        amount <= 0 ==> r.matched_bill_id == spec_matched_bill(r.payee_name@, bills@, amount_close@),
        amount <= 0 ==> r.classification == (if r.matched_bill_id is Some {
            TransactionClass::Recurring
        } else {
            TransactionClass::Misc
        }),
{
    let payee = match payee_name {
        Some(p) => p,
        None => owned("Unknown payee"),
    };
    let category = match category_name {
        Some(c) => normalize_category_name(c.as_str()),
        None => normalize_category_name(""),
    };
    proof {
        assert(Seq::<char>::empty() == ""@) by {
            reveal_strlit("");
        }
    }
    let sign = if amount > 0 {
        AmountSign::Positive
    } else if amount == 0 {
        AmountSign::Zero
    } else {
        AmountSign::Negative
    };
    if amount > 0 {
        return TransactionRecord {
            id,
            date,
            payee_name: payee,
            category_name: category,
            sign,
            classification: TransactionClass::Transfer,
            matched_bill_id: None,
            manual_classification: None,
        };
    }
    let payee_lower = to_lowercase(payee.as_str());
    let matched = match find_taking_bill(payee_lower.as_str(), bills, amount_close) {
        Some(k) => Some(bills[k].id),
        None => None,
    };
    let classification = if matched.is_some() {
        TransactionClass::Recurring
    } else {
        TransactionClass::Misc
    };
    TransactionRecord {
        id,
        date,
        payee_name: payee,
        category_name: category,
        sign,
        classification,
        matched_bill_id: matched,
        manual_classification: None,
    }
}

/// Bill `bills[j]` takes an outflow by `payee`: it has a real name, and the
/// lowercased payee contains its lowercased name or the amounts are close.
spec fn takes_outflow(payee: Seq<char>, bills: Seq<BillRecord>, amount_close: Seq<bool>, j: int) -> bool {
    &&& !spec_is_unassigned_category_name(bills[j].name@)
    &&& (contains_seq(unicode_lowercase_str(payee), unicode_lowercase_str(bills[j].name@))
        || amount_close[j])
}

proof fn lemma_first_taking_bill_from(
    payee: Seq<char>,
    bills: Seq<BillRecord>,
    amount_close: Seq<bool>,
    i: int,
)
    requires
        0 <= i <= bills.len(),
    ensures
        first_taking_bill(unicode_lowercase_str(payee), bills, amount_close, i) is None <==> forall|j: int|
            i <= j < bills.len() ==> !#[trigger] takes_outflow(payee, bills, amount_close, j),
        forall|k: int|
            i <= k < bills.len() && #[trigger] takes_outflow(payee, bills, amount_close, k) && (forall|j: int|
                i <= j < k ==> !#[trigger] takes_outflow(payee, bills, amount_close, j)) ==> first_taking_bill(
                unicode_lowercase_str(payee),
                bills,
                amount_close,
                i,
            ) == Some(k),
    decreases bills.len() - i,
{
    if i < bills.len() {
        lemma_first_taking_bill_from(payee, bills, amount_close, i + 1);
        assert(takes_outflow(payee, bills, amount_close, i) == bill_takes(
            unicode_lowercase_str(payee),
            bills[i],
            amount_close[i],
        ));
    }
}

/// Law: an outflow goes to the first bill that takes it (one with a real name
/// that the payee names, ignoring case, or whose amount is close), and to no
/// bill when none takes it. So when `bills[k]` takes it and no earlier bill
/// does, `bills[k]` is matched; in particular `bills[0]` is whenever it takes it.
pub proof fn law_outflow_goes_to_first_taking_bill(
    payee: Seq<char>,
    bills: Seq<BillRecord>,
    amount_close: Seq<bool>,
)
    requires
        amount_close.len() == bills.len(),
    ensures
        spec_matched_bill(payee, bills, amount_close) is None <==> forall|j: int|
            #![trigger bills[j]]
            0 <= j < bills.len() ==> !(!spec_is_unassigned_category_name(bills[j].name@) && (contains_seq(
                unicode_lowercase_str(payee),
                unicode_lowercase_str(bills[j].name@),
            ) || amount_close[j])),
        forall|k: int|
            #![trigger bills[k]]
            0 <= k < bills.len() && !spec_is_unassigned_category_name(bills[k].name@) && (contains_seq(
                unicode_lowercase_str(payee),
                unicode_lowercase_str(bills[k].name@),
            ) || amount_close[k]) && (forall|j: int|
                #![trigger bills[j]]
                0 <= j < k ==> !(!spec_is_unassigned_category_name(bills[j].name@) && (contains_seq(
                    unicode_lowercase_str(payee),
                    unicode_lowercase_str(bills[j].name@),
                ) || amount_close[j]))) ==> spec_matched_bill(payee, bills, amount_close) == Some(
                bills[k].id,
            ),
{
    lemma_first_taking_bill_from(payee, bills, amount_close, 0);
    assert forall|j: int| 0 <= j < bills.len() implies #[trigger] takes_outflow(payee, bills, amount_close, j)
        == (!spec_is_unassigned_category_name(bills[j].name@) && (contains_seq(
        unicode_lowercase_str(payee),
        unicode_lowercase_str(bills[j].name@),
    ) || amount_close[j])) by {}
    assert forall|k: int|
        #![trigger bills[k]]
        0 <= k < bills.len() && !spec_is_unassigned_category_name(bills[k].name@) && (contains_seq(
            unicode_lowercase_str(payee),
            unicode_lowercase_str(bills[k].name@),
        ) || amount_close[k]) && (forall|j: int|
            #![trigger bills[j]]
            0 <= j < k ==> !(!spec_is_unassigned_category_name(bills[j].name@) && (contains_seq(
                unicode_lowercase_str(payee),
                unicode_lowercase_str(bills[j].name@),
            ) || amount_close[j]))) implies spec_matched_bill(payee, bills, amount_close) == Some(
        bills[k].id,
    ) by {
        assert(takes_outflow(payee, bills, amount_close, k));
        assert forall|j: int| 0 <= j < k implies !#[trigger] takes_outflow(payee, bills, amount_close, j) by {
            assert(bills[j] == bills[j]);
        }
    }
    if forall|j: int| 0 <= j < bills.len() ==> !#[trigger] takes_outflow(payee, bills, amount_close, j) {
        assert forall|j: int|
            #![trigger bills[j]]
            0 <= j < bills.len() implies !(!spec_is_unassigned_category_name(bills[j].name@) && (contains_seq(
            unicode_lowercase_str(payee),
            unicode_lowercase_str(bills[j].name@),
        ) || amount_close[j])) by {
            assert(!takes_outflow(payee, bills, amount_close, j));
        }
    } else {
        let j = choose|j: int| 0 <= j < bills.len() && #[trigger] takes_outflow(payee, bills, amount_close, j);
        assert(bills[j] == bills[j]);
    }
}

} // verus!
