//! Choosing the YNAB budget and account to import from.
use vstd::prelude::*;
use crate::text::str_eq;
use crate::models::YnabChoice;
use crate::names::{account_matches, spec_account_matches};

verus! {

broadcast use vstd::string::group_string_axioms;

pub open spec fn has_id(choice: YnabChoice, id: Option<&str>) -> bool {
    match id {
        Some(i) => choice.id@ == i@,
        None => false,
    }
}

/// Position of the first choice at or after `i` whose id is `id`.
pub open spec fn first_with_choice_id(choices: Seq<YnabChoice>, id: Option<&str>, i: int) -> Option<int>
    decreases choices.len() - i,
{
    if i < 0 || i >= choices.len() {
        None
    } else if has_id(choices[i], id) {
        Some(i)
    } else {
        first_with_choice_id(choices, id, i + 1)
    }
}

/// Position of the first choice at or after `i` whose name matches `name`.
pub open spec fn first_matching_name(choices: Seq<YnabChoice>, name: Seq<char>, i: int) -> Option<int>
    decreases choices.len() - i,
{
    if i < 0 || i >= choices.len() {
        None
    } else if spec_account_matches(choices[i].name@, name) {
        Some(i)
    } else {
        first_matching_name(choices, name, i + 1)
    }
}

/// Position of the first choice at or after `i` with id `id` or a name that
/// matches `name`.
pub open spec fn first_id_or_name(choices: Seq<YnabChoice>, id: Option<&str>, name: Seq<char>, i: int) -> Option<int>
    decreases choices.len() - i,
{
    if i < 0 || i >= choices.len() {
        None
    } else if has_id(choices[i], id) || spec_account_matches(choices[i].name@, name) {
        Some(i)
    } else {
        first_id_or_name(choices, id, name, i + 1)
    }
}

proof fn lemma_first_bounds(choices: Seq<YnabChoice>, id: Option<&str>, name: Seq<char>, i: int)
    ensures
        first_with_choice_id(choices, id, i) matches Some(k) ==> 0 <= k < choices.len(),
        first_matching_name(choices, name, i) matches Some(k) ==> 0 <= k < choices.len(),
        first_id_or_name(choices, id, name, i) matches Some(k) ==> 0 <= k < choices.len(),
    decreases choices.len() - i,
{
    if 0 <= i < choices.len() {
        lemma_first_bounds(choices, id, name, i + 1);
    }
}

fn is_choice(choice: &YnabChoice, id: Option<&str>) -> (r: bool)
    ensures
        r == has_id(*choice, id),
{
    match id {
        Some(i) => str_eq(choice.id.as_str(), i),
        None => false,
    }
}

fn find_with_id(choices: &Vec<YnabChoice>, id: Option<&str>) -> (r: Option<usize>)
    ensures
        match first_with_choice_id(choices@, id, 0) {
            Some(k) => r == Some(k as usize),
            None => r is None,
        },
{
    proof {
        lemma_first_bounds(choices@, id, Seq::empty(), 0);
    }
    let mut i: usize = 0;
    while i < choices.len()
        invariant
            i <= choices.len(),
            first_with_choice_id(choices@, id, 0) == first_with_choice_id(choices@, id, i as int),
        decreases choices.len() - i,
    {
        if is_choice(&choices[i], id) {
            return Some(i);
        }
        i += 1;
    }
    None
}

fn find_matching_name(choices: &Vec<YnabChoice>, name: &str) -> (r: Option<usize>)
    ensures
        match first_matching_name(choices@, name@, 0) {
            Some(k) => r == Some(k as usize),
            None => r is None,
        },
{
    proof {
        lemma_first_bounds(choices@, None, name@, 0);
    }
    let mut i: usize = 0;
    while i < choices.len()
        invariant
            i <= choices.len(),
            first_matching_name(choices@, name@, 0) == first_matching_name(choices@, name@, i as int),
        decreases choices.len() - i,
    {
        if account_matches(choices[i].name.as_str(), name) {
            return Some(i);
        }
        i += 1;
    }
    None
}

/// The account to use: the one with the configured id, else the first whose
/// name matches the configured name.
pub fn select_account(accounts: &Vec<YnabChoice>, account_id: Option<&str>, account_name: &str) -> (r:
    Option<usize>)
    ensures
        r == match first_with_choice_id(accounts@, account_id, 0) {
            Some(k) => Some(k as usize),
            None => match first_matching_name(accounts@, account_name@, 0) {
                Some(k) => Some(k as usize),
                None => None,
            },
        },
{
    match find_with_id(accounts, account_id) {
        Some(k) => Some(k),
        None => find_matching_name(accounts, account_name),
    }
}

/// The account of a budget to import from: the first with the configured id
/// or a name that matches the configured name.
pub fn import_account(accounts: &Vec<YnabChoice>, account_id: Option<&str>, account_name: &str) -> (r:
    Option<usize>)
    ensures
        r == match first_id_or_name(accounts@, account_id, account_name@, 0) {
            Some(k) => Some(k as usize),
            None => None,
        },
{
    proof {
        lemma_first_bounds(accounts@, account_id, account_name@, 0);
    }
    let mut i: usize = 0;
    while i < accounts.len()
        invariant
            i <= accounts.len(),
            first_id_or_name(accounts@, account_id, account_name@, 0) == first_id_or_name(
                accounts@,
                account_id,
                account_name@,
                i as int,
            ),
        decreases accounts.len() - i,
    {
        if is_choice(&accounts[i], account_id) || account_matches(accounts[i].name.as_str(), account_name) {
            return Some(i);
        }
        i += 1;
    }
    None
}

/// The budget to use: the one with the configured id, else the first.
pub fn select_plan(plans: &Vec<YnabChoice>, plan_id: Option<&str>) -> (r: Option<usize>)
    ensures
        r == match first_with_choice_id(plans@, plan_id, 0) {
            Some(k) => Some(k as usize),
            None => if plans.len() > 0 {
                Some(0usize)
            } else {
                None
            },
        },
{
    match find_with_id(plans, plan_id) {
        Some(k) => Some(k),
        None => if plans.len() > 0 {
            Some(0)
        } else {
            None
        },
    }
}

/// The positions below `n` of the budgets whose id is (`want`) or is not
/// (`!want`) the preferred one, in order.
pub open spec fn positions_where(plans: Seq<YnabChoice>, preferred: Option<&str>, want: bool, n: int) -> Seq<usize>
    decreases n,
{
    if n <= 0 {
        Seq::empty()
    } else {
        let rest = positions_where(plans, preferred, want, n - 1);
        if has_id(plans[n - 1], preferred) == want {
            rest.push((n - 1) as usize)
        } else {
            rest
        }
    }
}

/// The positions of the budgets in the order they are searched: those with
/// the preferred id first, then the others, each in their order.
pub open spec fn search_order(plans: Seq<YnabChoice>, preferred: Option<&str>) -> Seq<usize> {
    positions_where(plans, preferred, true, plans.len() as int) + positions_where(
        plans,
        preferred,
        false,
        plans.len() as int,
    )
}

/// The order in which the budgets are searched for the account.
pub fn plan_search_order(plans: &Vec<YnabChoice>, preferred: Option<&str>) -> (r: Vec<usize>)
    ensures
        r@ == search_order(plans@, preferred),
{
    let mut first: Vec<usize> = Vec::new();
    let mut rest: Vec<usize> = Vec::new();
    let mut i: usize = 0;
    while i < plans.len()
        invariant
            i <= plans.len(),
            first@ == positions_where(plans@, preferred, true, i as int),
            rest@ == positions_where(plans@, preferred, false, i as int),
        decreases plans.len() - i,
    {
        if is_choice(&plans[i], preferred) {
            first.push(i);
        } else {
            rest.push(i);
        }
        i += 1;
    }
    let mut k: usize = 0;
    let ghost head = first@;
    while k < rest.len()
        invariant
            k <= rest.len(),
            first@ == head + rest@.take(k as int),
        decreases rest.len() - k,
    {
        first.push(rest[k]);
        k += 1;
        assert(rest@.take(k as int) == rest@.take(k - 1).push(rest@[k - 1]));
    }
    assert(rest@.take(rest.len() as int) == rest@);
    first
}

} // verus!
