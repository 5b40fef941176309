//! Turning detected recurring candidates and single transactions into bills
//! and paycheck transfers.
use vstd::prelude::*;
use crate::text::owned;
use crate::date::{Date, parse_iso_date, date_input_value, spec_parse_iso_date, spec_iso_date, clamp_u32};
use crate::names::{normalize_category_name, normalize_name_for_ui, trim, spec_normalize_category_name,
    spec_normalize_name, spec_trim};
use crate::models::{Frequency, RecurringCadence, DEFAULT_CATEGORY_NAME, frequency_from_cadence,
    spec_frequency_from_cadence};
use crate::ledger::{
    BillRecord, CandidateRecord, TransactionRecord, AmountSign, find_transaction, find_candidate,
    transaction_key, first_with_transaction_id, first_candidate, spec_transaction_key,
    paycheck_name_from_candidate, bill_name_from_candidate, spec_paycheck_name_from_candidate,
    spec_bill_name_from_candidate,
};

verus! {

broadcast use vstd::string::group_string_axioms;

/// The schedule fields a bill takes from one of its dates: the day (1..=31) and
/// month (1..=12) of the date, and the date itself as its anchor; the first of
/// January and no anchor when the date does not read.
pub struct ScheduleFields {
    pub due_day: u32,
    pub renewal_month: u32,
    pub anchor_date: Option<String>,
}

pub open spec fn fields_due_day(date: Seq<char>) -> u32 {
    match spec_parse_iso_date(date) {
        Some(d) => clamp_u32(d.day, 1, 31),
        None => 1,
    }
}

pub open spec fn fields_renewal_month(date: Seq<char>) -> u32 {
    match spec_parse_iso_date(date) {
        Some(d) => clamp_u32(d.month, 1, 12),
        None => 1,
    }
}

pub open spec fn fields_anchor(date: Seq<char>) -> Option<Seq<char>> {
    match spec_parse_iso_date(date) {
        Some(d) => Some(spec_iso_date(d)),
        None => None,
    }
}

pub open spec fn opt_view(s: Option<String>) -> Option<Seq<char>> {
    match s {
        Some(x) => Some(x@),
        None => None,
    }
}

pub open spec fn fields_match(f: ScheduleFields, date: Seq<char>) -> bool {
    &&& f.due_day == fields_due_day(date)
    &&& f.renewal_month == fields_renewal_month(date)
    &&& opt_view(f.anchor_date) == fields_anchor(date)
}

fn clamp(v: u32, lo: u32, hi: u32) -> (r: u32)
    requires
        lo <= hi,
    ensures
        r == clamp_u32(v, lo, hi),
{
    if v < lo {
        lo
    } else if v > hi {
        hi
    } else {
        v
    }
}

/// The schedule fields taken from a date string.
pub fn schedule_fields(date: &str) -> (r: ScheduleFields)
    ensures
        fields_match(r, date@),
{
    match parse_iso_date(date) {
        Some(d) => ScheduleFields {
            due_day: clamp(d.day, 1, 31),
            renewal_month: clamp(d.month, 1, 12),
            anchor_date: Some(date_input_value(d)),
        },
        None => ScheduleFields { due_day: 1, renewal_month: 1, anchor_date: None },
    }
}

/// The largest id, or 0 for none.
pub open spec fn max_id(bills: Seq<BillRecord>) -> u32
    decreases bills.len(),
{
    if bills.len() == 0 {
        0
    } else if bills.last().id > max_id(bills.drop_last()) {
        bills.last().id
    } else {
        max_id(bills.drop_last())
    }
}

/// The largest id among the bills, 0 when there are none.
pub fn max_bill_id(bills: &Vec<BillRecord>) -> (r: u32)
    ensures
        r == max_id(bills@),
{
    let mut m: u32 = 0;
    let mut i: usize = 0;
    while i < bills.len()
        invariant
            i <= bills.len(),
            m == max_id(bills@.take(i as int)),
        decreases bills.len() - i,
    {
        assert(bills@.take(i + 1).drop_last() == bills@.take(i as int));
        if bills[i].id > m {
            m = bills[i].id;
        }
        i += 1;
    }
    assert(bills@.take(bills.len() as int) == bills@);
    m
}

// ----- a bill from one transaction -----
/// A bill to be created from a transaction; its amount is the transaction's.
pub struct NewBill {
    pub id: u32,
    pub name: String,
    pub frequency: Frequency,
    pub schedule: ScheduleFields,
}

/// The name a bill created from a transaction takes: its real category, else
/// its payee, trimmed, and "New bill" when that is empty.
pub open spec fn spec_new_bill_name(t: TransactionRecord) -> Seq<char> {
    let category = spec_normalize_category_name(t.category_name@);
    let name = if category == DEFAULT_CATEGORY_NAME@ {
        spec_trim(t.payee_name@)
    } else {
        spec_trim(category)
    };
    if name.len() == 0 {
        "New bill"@
    } else {
        name
    }
}

/// The frequency a bill created from a transaction takes: that of the first
/// candidate with its key, when the cadence has one, else monthly.
pub open spec fn spec_new_bill_frequency(t: TransactionRecord, candidates: Seq<CandidateRecord>) -> Frequency {
    match first_candidate(candidates, spec_transaction_key(t), 0) {
        Some(c) => match spec_frequency_from_cadence(candidates[c].cadence) {
            Some(f) => f,
            None => Frequency::Monthly,
        },
        None => Frequency::Monthly,
    }
}

/// Plans the bill created from the transaction with id `transaction_id`, with
/// the next free bill id; `None` when no transaction has that id.
pub fn plan_bill_from_transaction(
    transactions: &Vec<TransactionRecord>,
    transaction_id: &str,
    bills: &Vec<BillRecord>,
    candidates: &Vec<CandidateRecord>,
) -> (r: Option<(usize, NewBill)>)
    requires
        max_id(bills@) < u32::MAX,
    ensures
        match first_with_transaction_id(transactions@, transaction_id@, 0) {
            None => r is None,
            Some(k) => r matches Some((i, b)) && i == k && b.id == max_id(bills@) + 1 && b.name@
                == spec_new_bill_name(transactions@[k]) && b.frequency == spec_new_bill_frequency(
                transactions@[k],
                candidates@,
            ) && fields_match(b.schedule, transactions@[k].date@),
        },
{
    let k = match find_transaction(transactions, transaction_id) {
        Some(k) => k,
        None => {
            return None;
        },
    };
    let t = &transactions[k];
    let category = normalize_category_name(t.category_name.as_str());
    let name = if crate::text::str_eq(category.as_str(), DEFAULT_CATEGORY_NAME) {
        trim(t.payee_name.as_str())
    } else {
        trim(category.as_str())
    };
    let name = if name.as_str().is_empty() {
        owned("New bill")
    } else {
        name
    };
    let id = max_bill_id(bills) + 1;
    let key = transaction_key(t);
    let frequency = match find_candidate(candidates, key.as_str()) {
        Some(c) => match frequency_from_cadence(candidates[c].cadence) {
            Some(f) => f,
            None => Frequency::Monthly,
        },
        None => Frequency::Monthly,
    };
    let schedule = schedule_fields(t.date.as_str());
    Some((k, NewBill { id, name, frequency, schedule }))
}

// ----- bills and paycheck transfers from candidates -----
/// One change that detection makes to the bills and paycheck transfers. The
/// amount of a paycheck transfer is the candidate's last amount; that of a new
/// bill is the candidate's average amount.
pub enum SyncAction {
    /// Refresh the paycheck transfer at `index` from candidate `candidate`.
    UpdatePaycheck { index: usize, candidate: usize, frequency: Frequency, schedule: ScheduleFields },
    /// Add a paycheck transfer for candidate `candidate`.
    AddPaycheck {
        id: u32,
        name: String,
        candidate: usize,
        frequency: Frequency,
        schedule: ScheduleFields,
    },
    /// Add a bill for candidate `candidate`.
    AddBill {
        id: u32,
        name: String,
        candidate: usize,
        frequency: Frequency,
        schedule: ScheduleFields,
    },
}

/// A sync action as values; `kind` 0 updates, 1 adds a paycheck transfer, 2 adds a bill.
pub ghost struct ActionView {
    pub kind: int,
    pub index: int,
    pub id: int,
    pub name: Seq<char>,
    pub candidate: int,
    pub frequency: Frequency,
    pub due_day: u32,
    pub renewal_month: u32,
    pub anchor: Option<Seq<char>>,
}

pub open spec fn action_view(a: SyncAction) -> ActionView {
    match a {
        SyncAction::UpdatePaycheck { index, candidate, frequency, schedule } => ActionView {
            kind: 0,
            index: index as int,
            id: 0,
            name: Seq::empty(),
            candidate: candidate as int,
            frequency,
            due_day: schedule.due_day,
            renewal_month: schedule.renewal_month,
            anchor: opt_view(schedule.anchor_date),
        },
        SyncAction::AddPaycheck { id, name, candidate, frequency, schedule } => ActionView {
            kind: 1,
            index: 0,
            id: id as int,
            name: name@,
            candidate: candidate as int,
            frequency,
            due_day: schedule.due_day,
            renewal_month: schedule.renewal_month,
            anchor: opt_view(schedule.anchor_date),
        },
        SyncAction::AddBill { id, name, candidate, frequency, schedule } => ActionView {
            kind: 2,
            index: 0,
            id: id as int,
            name: name@,
            candidate: candidate as int,
            frequency,
            due_day: schedule.due_day,
            renewal_month: schedule.renewal_month,
            anchor: opt_view(schedule.anchor_date),
        },
    }
}

/// Position of the first name that compares equal to `name`.
pub open spec fn first_same_name(names: Seq<Seq<char>>, name: Seq<char>, i: int) -> Option<int>
    decreases names.len() - i,
{
    if i < 0 || i >= names.len() {
        None
    } else if spec_normalize_name(names[i]) == spec_normalize_name(name) {
        Some(i)
    } else {
        first_same_name(names, name, i + 1)
    }
}

proof fn lemma_first_same_name_bounds(names: Seq<Seq<char>>, name: Seq<char>, i: int)
    ensures
        first_same_name(names, name, i) matches Some(k) ==> 0 <= i <= k < names.len(),
    decreases names.len() - i,
{
    if 0 <= i < names.len() && spec_normalize_name(names[i]) != spec_normalize_name(name) {
        lemma_first_same_name_bounds(names, name, i + 1);
    }
}

pub open spec fn sync_action_for(
    kind: int,
    index: int,
    id: int,
    name: Seq<char>,
    candidate: int,
    frequency: Frequency,
    date: Seq<char>,
) -> ActionView {
    ActionView {
        kind,
        index,
        id,
        name,
        candidate,
        frequency,
        due_day: fields_due_day(date),
        renewal_month: fields_renewal_month(date),
        anchor: fields_anchor(date),
    }
}

/// The actions detection takes for candidates `i..`, given the current names of
/// the paycheck transfers and bills and the next free ids; `None` when the id
/// that follows one it adds would pass `u32::MAX`. Each candidate with a bill frequency either refreshes
/// the paycheck transfer of the same name or adds one (positive average), or
/// adds a bill unless one of the same name exists (otherwise).
pub open spec fn sync_plan(
    candidates: Seq<CandidateRecord>,
    i: int,
    paychecks: Seq<Seq<char>>,
    bills: Seq<Seq<char>>,
    next_paycheck_id: int,
    next_bill_id: int,
) -> Option<Seq<ActionView>>
    decreases candidates.len() - i,
{
    if i < 0 || i >= candidates.len() {
        Some(Seq::empty())
    } else {
        let c = candidates[i];
        match spec_frequency_from_cadence(c.cadence) {
            None => sync_plan(candidates, i + 1, paychecks, bills, next_paycheck_id, next_bill_id),
            Some(f) => if c.sign == AmountSign::Positive {
                let name = spec_paycheck_name_from_candidate(c);
                match first_same_name(paychecks, name, 0) {
                    Some(k) => match sync_plan(
                        candidates,
                        i + 1,
                        paychecks,
                        bills,
                        next_paycheck_id,
                        next_bill_id,
                    ) {
                        Some(rest) => Some(
                            seq![sync_action_for(0, k, 0, Seq::empty(), i, f, c.last_date@)] + rest,
                        ),
                        None => None,
                    },
                    None => if next_paycheck_id >= u32::MAX {
                        None
                    } else {
                        match sync_plan(
                            candidates,
                            i + 1,
                            paychecks.push(name),
                            bills,
                            next_paycheck_id + 1,
                            next_bill_id,
                        ) {
                            Some(rest) => Some(
                                seq![sync_action_for(1, 0, next_paycheck_id, name, i, f, c.last_date@)]
                                    + rest,
                            ),
                            None => None,
                        }
                    },
                }
            } else {
                let name = spec_bill_name_from_candidate(c);
                if first_same_name(bills, name, 0) is Some {
                    sync_plan(candidates, i + 1, paychecks, bills, next_paycheck_id, next_bill_id)
                } else if next_bill_id >= u32::MAX {
                    None
                } else {
                    match sync_plan(
                        candidates,
                        i + 1,
                        paychecks,
                        bills.push(name),
                        next_paycheck_id,
                        next_bill_id + 1,
                    ) {
                        Some(rest) => Some(
                            seq![sync_action_for(2, 0, next_bill_id, name, i, f, c.last_date@)] + rest,
                        ),
                        None => None,
                    }
                }
            },
        }
    }
}

pub open spec fn record_names(bills: Seq<BillRecord>) -> Seq<Seq<char>> {
    Seq::new(bills.len(), |i: int| bills[i].name@)
}

fn find_same_name(names: &Vec<String>, name: &str) -> (r: Option<usize>)
    ensures
        r == (match first_same_name(name_views(names@), name@, 0) {
            Some(k) => Some(k as usize),
            None => None,
        }),
        r matches Some(k) ==> first_same_name(name_views(names@), name@, 0) == Some(k as int),
        r is None ==> first_same_name(name_views(names@), name@, 0) is None,
{
    proof {
        lemma_first_same_name_bounds(name_views(names@), name@, 0);
    }
    let key = normalize_name_for_ui(name);
    let mut i: usize = 0;
    while i < names.len()
        invariant
            i <= names.len(),
            key@ == spec_normalize_name(name@),
            first_same_name(name_views(names@), name@, 0) == first_same_name(
                name_views(names@),
                name@,
                i as int,
            ),
        decreases names.len() - i,
    {
        if normalize_name_for_ui(names[i].as_str()) == key {
            return Some(i);
        }
        i += 1;
    }
    None
}

pub open spec fn name_views(names: Seq<String>) -> Seq<Seq<char>> {
    Seq::new(names.len(), |i: int| names[i]@)
}

fn names_of(bills: &Vec<BillRecord>) -> (r: Vec<String>)
    ensures
        name_views(r@) == record_names(bills@),
{
    let mut out: Vec<String> = Vec::new();
    let mut i: usize = 0;
    while i < bills.len()
        invariant
            i <= bills.len(),
            out.len() == i,
            name_views(out@) == record_names(bills@).take(i as int),
        decreases bills.len() - i,
    {
        let n = bills[i].name.clone();
        assert(n@ == bills@[i as int].name@);
        out.push(n);
        assert(out@[i as int]@ == bills@[i as int].name@);
        i += 1;
        assert(name_views(out@) =~= record_names(bills@).take(i as int));
    }
    assert(record_names(bills@).take(bills.len() as int) =~= record_names(bills@));
    out
}

/// The changes detection makes to the bills and paycheck transfers, in order;
/// `None` when the next id after one it adds would pass `u32::MAX`.
pub fn sync_detected_bills(
    bills: &Vec<BillRecord>,
    paychecks: &Vec<BillRecord>,
    candidates: &Vec<CandidateRecord>,
) -> (r: Option<Vec<SyncAction>>)
    requires
        max_id(bills@) < u32::MAX,
        max_id(paychecks@) < u32::MAX,
    ensures
        match r {
            Some(actions) => sync_plan(
                candidates@,
                0,
                record_names(paychecks@),
                record_names(bills@),
                max_id(paychecks@) + 1,
                max_id(bills@) + 1,
            ) == Some(actions@.map_values(|a: SyncAction| action_view(a))),
            None => sync_plan(
                candidates@,
                0,
                record_names(paychecks@),
                record_names(bills@),
                max_id(paychecks@) + 1,
                max_id(bills@) + 1,
            ) is None,
        },
{
    let mut next_id: u64 = max_bill_id(bills) as u64 + 1;
    let mut next_paycheck_id: u64 = max_bill_id(paychecks) as u64 + 1;
    let mut paycheck_names = names_of(paychecks);
    let mut bill_names = names_of(bills);
    let ghost whole = sync_plan(
        candidates@,
        0,
        record_names(paychecks@),
        record_names(bills@),
        max_id(paychecks@) + 1,
        max_id(bills@) + 1,
    );
    let mut actions: Vec<SyncAction> = Vec::new();
    let mut i: usize = 0;
    assert(whole is Some ==> actions@.map_values(|a: SyncAction| action_view(a)) + whole->0 =~= whole->0);
    while i < candidates.len()
        invariant
            i <= candidates.len(),
            next_paycheck_id <= u32::MAX as u64 + 1,
            next_id <= u32::MAX as u64 + 1,
            whole == sync_plan(
                candidates@,
                0,
                record_names(paychecks@),
                record_names(bills@),
                max_id(paychecks@) + 1,
                max_id(bills@) + 1,
            ),
            sync_plan(
                candidates@,
                i as int,
                name_views(paycheck_names@),
                name_views(bill_names@),
                next_paycheck_id as int,
                next_id as int,
            ) is None ==> whole is None,
            sync_plan(
                candidates@,
                i as int,
                name_views(paycheck_names@),
                name_views(bill_names@),
                next_paycheck_id as int,
                next_id as int,
            ) is Some ==> whole == Some(actions@.map_values(|a: SyncAction| action_view(a)) + sync_plan(
                candidates@,
                i as int,
                name_views(paycheck_names@),
                name_views(bill_names@),
                next_paycheck_id as int,
                next_id as int,
            )->0),
        decreases candidates.len() - i,
    {
        let c = &candidates[i];
        let ghost before = actions@.map_values(|a: SyncAction| action_view(a));
        let ghost p0 = name_views(paycheck_names@);
        let ghost b0 = name_views(bill_names@);
        let ghost np0 = next_paycheck_id as int;
        let ghost nb0 = next_id as int;
        let ghost here = sync_plan(candidates@, i as int, p0, b0, np0, nb0);
        match frequency_from_cadence(c.cadence) {
            None => {
                assert(here == sync_plan(candidates@, i + 1, p0, b0, np0, nb0));
            },
            Some(frequency) => {
                if c.sign == AmountSign::Positive {
                    let name = paycheck_name_from_candidate(c);
                    let schedule = schedule_fields(c.last_date.as_str());
                    match find_same_name(&paycheck_names, name.as_str()) {
                        Some(k) => {
                            proof {
                                lemma_first_same_name_bounds(p0, name@, 0);
                            }
                            assert(first_same_name(p0, name@, 0) == Some(k as int));
                            assert(candidates@[i as int] == *c);
                            assert(spec_paycheck_name_from_candidate(candidates@[i as int]) == name@);
                            assert(spec_frequency_from_cadence(candidates@[i as int].cadence) == Some(
                                frequency,
                            ));
                            let ghost act = sync_action_for(
                                0,
                                k as int,
                                0,
                                Seq::empty(),
                                i as int,
                                frequency,
                                c.last_date@,
                            );
                            let ghost next = sync_plan(candidates@, i + 1, p0, b0, np0, nb0);
                            assert(here == (match next {
                                Some(rest) => Some(seq![act] + rest),
                                None => None,
                            }));
                            actions.push(
                                SyncAction::UpdatePaycheck { index: k, candidate: i, frequency, schedule },
                            );
                            assert(actions@.map_values(|a: SyncAction| action_view(a)) =~= before.push(
                                act,
                            ));
                            assert(next is Some ==> before + here->0 =~= before.push(act) + next->0);
                        },
                        None => {
                            let ghost act = sync_action_for(
                                1,
                                0,
                                np0,
                                name@,
                                i as int,
                                frequency,
                                c.last_date@,
                            );
                            let ghost next = sync_plan(
                                candidates@,
                                i + 1,
                                p0.push(name@),
                                b0,
                                np0 + 1,
                                nb0,
                            );
                            assert(here == (if np0 >= u32::MAX {
                                None
                            } else {
                                match next {
                                    Some(rest) => Some(seq![act] + rest),
                                    None => None,
                                }
                            }));
                            if next_paycheck_id >= u32::MAX as u64 {
                                return None;
                            }
                            actions.push(
                                SyncAction::AddPaycheck {
                                    id: next_paycheck_id as u32,
                                    name: name.clone(),
                                    candidate: i,
                                    frequency,
                                    schedule,
                                },
                            );
                            paycheck_names.push(name);
                            next_paycheck_id = next_paycheck_id + 1;
                            assert(name_views(paycheck_names@) =~= p0.push(name@));
                            assert(actions@.map_values(|a: SyncAction| action_view(a)) =~= before.push(
                                act,
                            ));
                            assert(next is Some ==> before + here->0 =~= before.push(act) + next->0);
                        },
                    }
                } else {
                    let name = bill_name_from_candidate(c);
                    if find_same_name(&bill_names, name.as_str()).is_none() {
                        let schedule = schedule_fields(c.last_date.as_str());
                        let ghost act = sync_action_for(
                            2,
                            0,
                            nb0,
                            name@,
                            i as int,
                            frequency,
                            c.last_date@,
                        );
                        let ghost next = sync_plan(
                            candidates@,
                            i + 1,
                            p0,
                            b0.push(name@),
                            np0,
                            nb0 + 1,
                        );
                        assert(here == (if nb0 >= u32::MAX {
                            None
                        } else {
                            match next {
                                Some(rest) => Some(seq![act] + rest),
                                None => None,
                            }
                        }));
                        if next_id >= u32::MAX as u64 {
                            return None;
                        }
                        actions.push(
                            SyncAction::AddBill {
                                id: next_id as u32,
                                name: name.clone(),
                                candidate: i,
                                frequency,
                                schedule,
                            },
                        );
                        bill_names.push(name);
                        next_id = next_id + 1;
                        assert(name_views(bill_names@) =~= b0.push(name@));
                        assert(actions@.map_values(|a: SyncAction| action_view(a)) =~= before.push(
                            act,
                        ));
                        assert(next is Some ==> before + here->0 =~= before.push(act) + next->0);
                    } else {
                        assert(here == sync_plan(candidates@, i + 1, p0, b0, np0, nb0));
                    }
                }
            },
        }
        i += 1;
    }
    assert(actions@.map_values(|a: SyncAction| action_view(a)) + Seq::<ActionView>::empty()
        == actions@.map_values(|a: SyncAction| action_view(a)));
    Some(actions)
}

// ----- a second detection pass -----
/// Some name in `names` compares equal to `name`.
pub open spec fn has_same_name(names: Seq<Seq<char>>, name: Seq<char>) -> bool {
    exists|k: int| 0 <= k < names.len() && spec_normalize_name(#[trigger] names[k]) == spec_normalize_name(name)
}

/// The names the actions of kind `kind` add, in order.
pub open spec fn added_names(actions: Seq<ActionView>, kind: int) -> Seq<Seq<char>>
    decreases actions.len(),
{
    if actions.len() == 0 {
        Seq::empty()
    } else if actions.last().kind == kind {
        added_names(actions.drop_last(), kind).push(actions.last().name)
    } else {
        added_names(actions.drop_last(), kind)
    }
}

proof fn lemma_first_same_name_found(names: Seq<Seq<char>>, name: Seq<char>, i: int)
    requires
        0 <= i,
    ensures
        first_same_name(names, name, i) is Some <==> exists|k: int|
            i <= k < names.len() && spec_normalize_name(#[trigger] names[k]) == spec_normalize_name(name),
    decreases names.len() - i,
{
    if i < names.len() {
        lemma_first_same_name_found(names, name, i + 1);
    }
}

proof fn lemma_added_names_listed(actions: Seq<ActionView>, kind: int, k: int)
    requires
        0 <= k < actions.len(),
        actions[k].kind == kind,
    ensures
        added_names(actions, kind).contains(actions[k].name),
    decreases actions.len(),
{
    let rest = added_names(actions.drop_last(), kind);
    if k < actions.len() - 1 {
        lemma_added_names_listed(actions.drop_last(), kind, k);
        if actions.last().kind == kind {
            let j = choose|j: int| 0 <= j < rest.len() && rest[j] == actions[k].name;
            assert(rest.push(actions.last().name)[j] == actions[k].name);
        }
    } else {
        assert(added_names(actions, kind)[rest.len() as int] == actions[k].name);
    }
}

proof fn lemma_second_pass_updates_only(
    candidates: Seq<CandidateRecord>,
    i: int,
    paychecks: Seq<Seq<char>>,
    bills: Seq<Seq<char>>,
    next_paycheck_id: int,
    next_bill_id: int,
    paychecks2: Seq<Seq<char>>,
    bills2: Seq<Seq<char>>,
    next_paycheck_id2: int,
    next_bill_id2: int,
)
    requires
        0 <= i,
        sync_plan(candidates, i, paychecks, bills, next_paycheck_id, next_bill_id) is Some,
        forall|n: Seq<char>| has_same_name(paychecks, n) ==> has_same_name(paychecks2, n),
        forall|n: Seq<char>| has_same_name(bills, n) ==> has_same_name(bills2, n),
        forall|k: int|
            0 <= k < sync_plan(candidates, i, paychecks, bills, next_paycheck_id, next_bill_id)->0.len()
                && (#[trigger] sync_plan(candidates, i, paychecks, bills, next_paycheck_id, next_bill_id)->0[k]).kind
                == 1 ==> has_same_name(
                paychecks2,
                sync_plan(candidates, i, paychecks, bills, next_paycheck_id, next_bill_id)->0[k].name,
            ),
        forall|k: int|
            0 <= k < sync_plan(candidates, i, paychecks, bills, next_paycheck_id, next_bill_id)->0.len()
                && (#[trigger] sync_plan(candidates, i, paychecks, bills, next_paycheck_id, next_bill_id)->0[k]).kind
                == 2 ==> has_same_name(
                bills2,
                sync_plan(candidates, i, paychecks, bills, next_paycheck_id, next_bill_id)->0[k].name,
            ),
    ensures
        sync_plan(candidates, i, paychecks2, bills2, next_paycheck_id2, next_bill_id2) is Some,
        forall|k: int|
            0 <= k < sync_plan(candidates, i, paychecks2, bills2, next_paycheck_id2, next_bill_id2)->0.len()
                ==> (#[trigger] sync_plan(candidates, i, paychecks2, bills2, next_paycheck_id2, next_bill_id2)->0[k]).kind
                == 0,
    decreases candidates.len() - i,
{
    if i >= candidates.len() {
        return;
    }
    let c = candidates[i];
    let first = sync_plan(candidates, i, paychecks, bills, next_paycheck_id, next_bill_id)->0;
    match spec_frequency_from_cadence(c.cadence) {
        None => {
            lemma_second_pass_updates_only(
                candidates,
                i + 1,
                paychecks,
                bills,
                next_paycheck_id,
                next_bill_id,
                paychecks2,
                bills2,
                next_paycheck_id2,
                next_bill_id2,
            );
        },
        Some(f) => {
            if c.sign == AmountSign::Positive {
                let name = spec_paycheck_name_from_candidate(c);
                lemma_first_same_name_found(paychecks, name, 0);
                lemma_first_same_name_found(paychecks2, name, 0);
                if first_same_name(paychecks, name, 0) is Some {
                    let rest = sync_plan(candidates, i + 1, paychecks, bills, next_paycheck_id, next_bill_id)->0;
                    assert(has_same_name(paychecks, name));
                    assert forall|k: int| 0 <= k < rest.len() && (#[trigger] rest[k]).kind == 1 implies has_same_name(
                        paychecks2,
                        rest[k].name,
                    ) by {
                        assert(first[k + 1] == rest[k]);
                    }
                    assert forall|k: int| 0 <= k < rest.len() && (#[trigger] rest[k]).kind == 2 implies has_same_name(
                        bills2,
                        rest[k].name,
                    ) by {
                        assert(first[k + 1] == rest[k]);
                    }
                    lemma_second_pass_updates_only(
                        candidates,
                        i + 1,
                        paychecks,
                        bills,
                        next_paycheck_id,
                        next_bill_id,
                        paychecks2,
                        bills2,
                        next_paycheck_id2,
                        next_bill_id2,
                    );
                } else {
                    let grown = paychecks.push(name);
                    let rest = sync_plan(candidates, i + 1, grown, bills, next_paycheck_id + 1, next_bill_id)->0;
                    assert(first[0].kind == 1 && first[0].name == name);
                    assert(has_same_name(paychecks2, name));
                    assert forall|n: Seq<char>| has_same_name(grown, n) implies has_same_name(paychecks2, n) by {
                        let k = choose|k: int| 0 <= k < grown.len() && spec_normalize_name(#[trigger] grown[k]) == spec_normalize_name(n);
                        if k < paychecks.len() {
                            assert(grown[k] == paychecks[k]);
                            assert(has_same_name(paychecks, n));
                        } else {
                            assert(grown[k] == name);
                            let j = choose|j: int| 0 <= j < paychecks2.len() && spec_normalize_name(#[trigger] paychecks2[j]) == spec_normalize_name(name);
                            assert(spec_normalize_name(paychecks2[j]) == spec_normalize_name(n));
                        }
                    }
                    assert forall|k: int| 0 <= k < rest.len() && (#[trigger] rest[k]).kind == 1 implies has_same_name(
                        paychecks2,
                        rest[k].name,
                    ) by {
                        assert(first[k + 1] == rest[k]);
                    }
                    assert forall|k: int| 0 <= k < rest.len() && (#[trigger] rest[k]).kind == 2 implies has_same_name(
                        bills2,
                        rest[k].name,
                    ) by {
                        assert(first[k + 1] == rest[k]);
                    }
                    lemma_second_pass_updates_only(
                        candidates,
                        i + 1,
                        grown,
                        bills,
                        next_paycheck_id + 1,
                        next_bill_id,
                        paychecks2,
                        bills2,
                        next_paycheck_id2,
                        next_bill_id2,
                    );
                }
            } else {
                let name = spec_bill_name_from_candidate(c);
                lemma_first_same_name_found(bills, name, 0);
                lemma_first_same_name_found(bills2, name, 0);
                if first_same_name(bills, name, 0) is Some {
                    assert(has_same_name(bills, name));
                    lemma_second_pass_updates_only(
                        candidates,
                        i + 1,
                        paychecks,
                        bills,
                        next_paycheck_id,
                        next_bill_id,
                        paychecks2,
                        bills2,
                        next_paycheck_id2,
                        next_bill_id2,
                    );
                } else {
                    let grown = bills.push(name);
                    let rest = sync_plan(candidates, i + 1, paychecks, grown, next_paycheck_id, next_bill_id + 1)->0;
                    assert(first[0].kind == 2 && first[0].name == name);
                    assert(has_same_name(bills2, name));
                    assert forall|n: Seq<char>| has_same_name(grown, n) implies has_same_name(bills2, n) by {
                        let k = choose|k: int| 0 <= k < grown.len() && spec_normalize_name(#[trigger] grown[k]) == spec_normalize_name(n);
                        if k < bills.len() {
                            assert(grown[k] == bills[k]);
                            assert(has_same_name(bills, n));
                        } else {
                            assert(grown[k] == name);
                            let j = choose|j: int| 0 <= j < bills2.len() && spec_normalize_name(#[trigger] bills2[j]) == spec_normalize_name(name);
                            assert(spec_normalize_name(bills2[j]) == spec_normalize_name(n));
                        }
                    }
                    assert forall|k: int| 0 <= k < rest.len() && (#[trigger] rest[k]).kind == 1 implies has_same_name(
                        paychecks2,
                        rest[k].name,
                    ) by {
                        assert(first[k + 1] == rest[k]);
                    }
                    assert forall|k: int| 0 <= k < rest.len() && (#[trigger] rest[k]).kind == 2 implies has_same_name(
                        bills2,
                        rest[k].name,
                    ) by {
                        assert(first[k + 1] == rest[k]);
                    }
                    lemma_second_pass_updates_only(
                        candidates,
                        i + 1,
                        paychecks,
                        grown,
                        next_paycheck_id,
                        next_bill_id + 1,
                        paychecks2,
                        bills2,
                        next_paycheck_id2,
                        next_bill_id2,
                    );
                }
            }
        },
    }
}

/// Law: once the paycheck transfers and bills a detection pass adds are in
/// place, a second pass over the same candidates adds none: it only
/// refreshes paycheck transfers.
pub proof fn law_second_detection_adds_nothing(
    candidates: Seq<CandidateRecord>,
    paychecks: Seq<Seq<char>>,
    bills: Seq<Seq<char>>,
    next_paycheck_id: int,
    next_bill_id: int,
    next_paycheck_id2: int,
    next_bill_id2: int,
)
    requires
        sync_plan(candidates, 0, paychecks, bills, next_paycheck_id, next_bill_id) is Some,
    ensures
        ({
            let first = sync_plan(candidates, 0, paychecks, bills, next_paycheck_id, next_bill_id)->0;
            let again = sync_plan(
                candidates,
                0,
                paychecks + added_names(first, 1),
                bills + added_names(first, 2),
                next_paycheck_id2,
                next_bill_id2,
            );
            &&& again is Some
            &&& forall|k: int| 0 <= k < again->0.len() ==> (#[trigger] again->0[k]).kind == 0
        }),
{
    let first = sync_plan(candidates, 0, paychecks, bills, next_paycheck_id, next_bill_id)->0;
    let p2 = paychecks + added_names(first, 1);
    let b2 = bills + added_names(first, 2);
    assert forall|n: Seq<char>| has_same_name(paychecks, n) implies has_same_name(p2, n) by {
        let k = choose|k: int| 0 <= k < paychecks.len() && spec_normalize_name(#[trigger] paychecks[k]) == spec_normalize_name(n);
        assert(p2[k] == paychecks[k]);
    }
    assert forall|n: Seq<char>| has_same_name(bills, n) implies has_same_name(b2, n) by {
        let k = choose|k: int| 0 <= k < bills.len() && spec_normalize_name(#[trigger] bills[k]) == spec_normalize_name(n);
        assert(b2[k] == bills[k]);
    }
    assert forall|k: int| 0 <= k < first.len() && (#[trigger] first[k]).kind == 1 implies has_same_name(p2, first[k].name) by {
        lemma_added_names_listed(first, 1, k);
        let added = added_names(first, 1);
        let j = choose|j: int| 0 <= j < added.len() && added[j] == first[k].name;
        assert(p2[paychecks.len() + j] == first[k].name);
    }
    assert forall|k: int| 0 <= k < first.len() && (#[trigger] first[k]).kind == 2 implies has_same_name(b2, first[k].name) by {
        lemma_added_names_listed(first, 2, k);
        let added = added_names(first, 2);
        let j = choose|j: int| 0 <= j < added.len() && added[j] == first[k].name;
        assert(b2[bills.len() + j] == first[k].name);
    }
    lemma_second_pass_updates_only(
        candidates,
        0,
        paychecks,
        bills,
        next_paycheck_id,
        next_bill_id,
        p2,
        b2,
        next_paycheck_id2,
        next_bill_id2,
    );
}

/// What every action of a detection plan for candidates `i..` satisfies, given
/// the names of the paycheck transfers and bills and the next free ids: it
/// refreshes a paycheck transfer (kind 0), adds one (kind 1) or adds a bill
/// (kind 2), for a candidate from `i` on whose cadence has a bill frequency;
/// an added item takes an id from the next free one on and a name that,
/// normalized, matches none already there; and added items of one kind take
/// rising ids and names that differ once normalized.
pub open spec fn plan_facts(
    candidates: Seq<CandidateRecord>,
    i: int,
    paychecks: Seq<Seq<char>>,
    bills: Seq<Seq<char>>,
    next_paycheck_id: int,
    next_bill_id: int,
    acts: Seq<ActionView>,
) -> bool {
    &&& forall|k: int|
        0 <= k < acts.len() ==> {
            let a = #[trigger] acts[k];
            &&& 0 <= a.kind <= 2
            &&& i <= a.candidate < candidates.len()
            &&& spec_frequency_from_cadence(candidates[a.candidate].cadence) == Some(a.frequency)
            &&& (a.kind == 2 <==> candidates[a.candidate].sign != AmountSign::Positive)
            &&& (a.kind == 1 ==> next_paycheck_id <= a.id < u32::MAX && !has_same_name(paychecks, a.name))
            &&& (a.kind == 2 ==> next_bill_id <= a.id < u32::MAX && !has_same_name(bills, a.name))
        }
    &&& forall|k1: int, k2: int|
        #![trigger acts[k1], acts[k2]]
        0 <= k1 < k2 < acts.len() && acts[k1].kind == acts[k2].kind && acts[k1].kind != 0 ==> acts[k1].id
            < acts[k2].id && spec_normalize_name(acts[k1].name) != spec_normalize_name(acts[k2].name)
}

proof fn lemma_not_same_name_push(names: Seq<Seq<char>>, name: Seq<char>, n: Seq<char>)
    requires
        !has_same_name(names.push(name), n),
    ensures
        !has_same_name(names, n),
        spec_normalize_name(name) != spec_normalize_name(n),
{
    let grown = names.push(name);
    if has_same_name(names, n) {
        let k = choose|k: int| 0 <= k < names.len() && spec_normalize_name(#[trigger] names[k]) == spec_normalize_name(n);
        assert(grown[k] == names[k]);
    }
    assert(grown[names.len() as int] == name);
}

/// Extends the facts of the rest of a plan to the plan that starts with `a`.
proof fn lemma_plan_facts_cons(
    candidates: Seq<CandidateRecord>,
    i: int,
    paychecks: Seq<Seq<char>>,
    bills: Seq<Seq<char>>,
    next_paycheck_id: int,
    next_bill_id: int,
    a: ActionView,
    rest: Seq<ActionView>,
)
    requires
        0 <= i < candidates.len(),
        a.candidate == i,
        0 <= a.kind <= 2,
        spec_frequency_from_cadence(candidates[i].cadence) == Some(a.frequency),
        (a.kind == 2 <==> candidates[i].sign != AmountSign::Positive),
        a.kind == 1 ==> next_paycheck_id <= a.id < u32::MAX && !has_same_name(paychecks, a.name),
        a.kind == 2 ==> next_bill_id <= a.id < u32::MAX && !has_same_name(bills, a.name),
        a.kind == 0 ==> plan_facts(candidates, i + 1, paychecks, bills, next_paycheck_id, next_bill_id, rest),
        a.kind == 1 ==> plan_facts(
            candidates,
            i + 1,
            paychecks.push(a.name),
            bills,
            a.id + 1,
            next_bill_id,
            rest,
        ),
        a.kind == 2 ==> plan_facts(
            candidates,
            i + 1,
            paychecks,
            bills.push(a.name),
            next_paycheck_id,
            a.id + 1,
            rest,
        ),
    ensures
        plan_facts(candidates, i, paychecks, bills, next_paycheck_id, next_bill_id, seq![a] + rest),
{
    let acts = seq![a] + rest;
    assert forall|k: int| 0 <= k < rest.len() implies #[trigger] acts[k + 1] == rest[k] by {}
    assert forall|k: int| 0 <= k < acts.len() implies {
        let b = #[trigger] acts[k];
        &&& 0 <= b.kind <= 2
        &&& i <= b.candidate < candidates.len()
        &&& spec_frequency_from_cadence(candidates[b.candidate].cadence) == Some(b.frequency)
        &&& (b.kind == 2 <==> candidates[b.candidate].sign != AmountSign::Positive)
        &&& (b.kind == 1 ==> next_paycheck_id <= b.id < u32::MAX && !has_same_name(paychecks, b.name))
        &&& (b.kind == 2 ==> next_bill_id <= b.id < u32::MAX && !has_same_name(bills, b.name))
    } by {
        if k > 0 {
            let b = rest[k - 1];
            assert(acts[k] == b);
            if a.kind == 1 && b.kind == 1 {
                lemma_not_same_name_push(paychecks, a.name, b.name);
            }
            if a.kind == 2 && b.kind == 2 {
                lemma_not_same_name_push(bills, a.name, b.name);
            }
        }
    }
    assert forall|k1: int, k2: int|
        #![trigger acts[k1], acts[k2]]
        0 <= k1 < k2 < acts.len() && acts[k1].kind == acts[k2].kind && acts[k1].kind != 0 implies acts[k1].id
            < acts[k2].id && spec_normalize_name(acts[k1].name) != spec_normalize_name(acts[k2].name) by {
        let b = rest[k2 - 1];
        assert(acts[k2] == b);
        if k1 == 0 {
            if a.kind == 1 {
                lemma_not_same_name_push(paychecks, a.name, b.name);
            } else {
                lemma_not_same_name_push(bills, a.name, b.name);
            }
        } else {
            assert(acts[k1] == rest[k1 - 1]);
        }
    }
}

/// Every detection plan satisfies `plan_facts`.
proof fn lemma_plan_facts(
    candidates: Seq<CandidateRecord>,
    i: int,
    paychecks: Seq<Seq<char>>,
    bills: Seq<Seq<char>>,
    next_paycheck_id: int,
    next_bill_id: int,
)
    requires
        0 <= i,
        sync_plan(candidates, i, paychecks, bills, next_paycheck_id, next_bill_id) is Some,
    ensures
        plan_facts(
            candidates,
            i,
            paychecks,
            bills,
            next_paycheck_id,
            next_bill_id,
            sync_plan(candidates, i, paychecks, bills, next_paycheck_id, next_bill_id)->0,
        ),
    decreases candidates.len() - i,
{
    if i >= candidates.len() {
        return;
    }
    let c = candidates[i];
    let acts = sync_plan(candidates, i, paychecks, bills, next_paycheck_id, next_bill_id)->0;
    match spec_frequency_from_cadence(c.cadence) {
        None => {
            lemma_plan_facts(candidates, i + 1, paychecks, bills, next_paycheck_id, next_bill_id);
            let rest = sync_plan(candidates, i + 1, paychecks, bills, next_paycheck_id, next_bill_id)->0;
            assert forall|k: int| 0 <= k < rest.len() implies (#[trigger] rest[k]).candidate >= i by {}
        },
        Some(f) => {
            if c.sign == AmountSign::Positive {
                let name = spec_paycheck_name_from_candidate(c);
                lemma_first_same_name_found(paychecks, name, 0);
                match first_same_name(paychecks, name, 0) {
                    Some(k) => {
                        lemma_plan_facts(candidates, i + 1, paychecks, bills, next_paycheck_id, next_bill_id);
                        let rest = sync_plan(candidates, i + 1, paychecks, bills, next_paycheck_id, next_bill_id)->0;
                        lemma_plan_facts_cons(
                            candidates,
                            i,
                            paychecks,
                            bills,
                            next_paycheck_id,
                            next_bill_id,
                            sync_action_for(0, k, 0, Seq::empty(), i, f, c.last_date@),
                            rest,
                        );
                    },
                    None => {
                        let grown = paychecks.push(name);
                        lemma_plan_facts(candidates, i + 1, grown, bills, next_paycheck_id + 1, next_bill_id);
                        let rest = sync_plan(candidates, i + 1, grown, bills, next_paycheck_id + 1, next_bill_id)->0;
                        lemma_plan_facts_cons(
                            candidates,
                            i,
                            paychecks,
                            bills,
                            next_paycheck_id,
                            next_bill_id,
                            sync_action_for(1, 0, next_paycheck_id, name, i, f, c.last_date@),
                            rest,
                        );
                    },
                }
            } else {
                let name = spec_bill_name_from_candidate(c);
                lemma_first_same_name_found(bills, name, 0);
                if first_same_name(bills, name, 0) is Some {
                    lemma_plan_facts(candidates, i + 1, paychecks, bills, next_paycheck_id, next_bill_id);
                    let rest = sync_plan(candidates, i + 1, paychecks, bills, next_paycheck_id, next_bill_id)->0;
                    assert forall|k: int| 0 <= k < rest.len() implies (#[trigger] rest[k]).candidate >= i by {}
                } else {
                    let grown = bills.push(name);
                    lemma_plan_facts(candidates, i + 1, paychecks, grown, next_paycheck_id, next_bill_id + 1);
                    let rest = sync_plan(candidates, i + 1, paychecks, grown, next_paycheck_id, next_bill_id + 1)->0;
                    lemma_plan_facts_cons(
                        candidates,
                        i,
                        paychecks,
                        bills,
                        next_paycheck_id,
                        next_bill_id,
                        sync_action_for(2, 0, next_bill_id, name, i, f, c.last_date@),
                        rest,
                    );
                }
            }
        },
    }
}

proof fn lemma_max_id_bounds(bills: Seq<BillRecord>, j: int)
    requires
        0 <= j < bills.len(),
    ensures
        bills[j].id <= max_id(bills),
    decreases bills.len(),
{
    if j < bills.len() - 1 {
        lemma_max_id_bounds(bills.drop_last(), j);
    }
}

/// Law: detection never changes or removes a bill: it only adds bills, and
/// adds or refreshes paycheck transfers, so the bills there were stay in
/// front. Each bill it adds takes an id above that of every existing bill, the
/// added ids rising in order, and a name that, normalized, matches no existing
/// bill and no other added bill; added paycheck transfers likewise. Every
/// action comes from a candidate whose cadence has a bill frequency, so weekly
/// and irregular candidates change nothing.
pub proof fn law_detection_adds_fresh_bills(
    bills: Seq<BillRecord>,
    paychecks: Seq<BillRecord>,
    candidates: Seq<CandidateRecord>,
)
    requires
        max_id(bills) < u32::MAX,
        max_id(paychecks) < u32::MAX,
    ensures
        ({
            let plan = sync_plan(
                candidates,
                0,
                record_names(paychecks),
                record_names(bills),
                max_id(paychecks) + 1,
                max_id(bills) + 1,
            );
            plan matches Some(acts) ==> {
                &&& plan_facts(
                    candidates,
                    0,
                    record_names(paychecks),
                    record_names(bills),
                    max_id(paychecks) + 1,
                    max_id(bills) + 1,
                    acts,
                )
                &&& forall|k: int, j: int|
                    0 <= k < acts.len() && (#[trigger] acts[k]).kind == 2 && 0 <= j < bills.len() ==> (
                    #[trigger] bills[j]).id < acts[k].id
                &&& forall|k: int, j: int|
                    0 <= k < acts.len() && (#[trigger] acts[k]).kind == 1 && 0 <= j < paychecks.len() ==> (
                    #[trigger] paychecks[j]).id < acts[k].id
                &&& forall|k: int|
                    0 <= k < acts.len() ==> candidates[(#[trigger] acts[k]).candidate].cadence
                        != RecurringCadence::Weekly && candidates[acts[k].candidate].cadence
                        != RecurringCadence::Irregular
            }
        }),
{
    let plan = sync_plan(
        candidates,
        0,
        record_names(paychecks),
        record_names(bills),
        max_id(paychecks) + 1,
        max_id(bills) + 1,
    );
    if plan is Some {
        lemma_plan_facts(
            candidates,
            0,
            record_names(paychecks),
            record_names(bills),
            max_id(paychecks) + 1,
            max_id(bills) + 1,
        );
        let acts = plan->0;
        assert forall|k: int, j: int|
            0 <= k < acts.len() && (#[trigger] acts[k]).kind == 2 && 0 <= j < bills.len() implies (
            #[trigger] bills[j]).id < acts[k].id by {
            lemma_max_id_bounds(bills, j);
        }
        assert forall|k: int, j: int|
            0 <= k < acts.len() && (#[trigger] acts[k]).kind == 1 && 0 <= j < paychecks.len() implies (
            #[trigger] paychecks[j]).id < acts[k].id by {
            lemma_max_id_bounds(paychecks, j);
        }
    }
}

} // verus!
