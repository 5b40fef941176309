//! Sorting the transaction list by date, by bill group or by recurrence.
use vstd::prelude::*;
use crate::collections::{
    is_permutation_of_range, bytes_lt, group_by_key, stable_order, group_keys_upto, members_upto,
    key_views, entry_before, lemma_group_keys_distinct, lemma_key_is_grouped, lemma_members_exact,
};
use crate::i18n::{Language, group_sort_key, spec_group_sort_key};
use crate::ledger::{
    BillRecord, CandidateRecord, TransactionRecord, spec_transaction_bill_sort_label,
    spec_transaction_recurring_label, transaction_bill_sort_label, transaction_recurring_label,
};
use crate::ordering::{SortKey, keys_of, order_by_fields, ordered_by_keys, sort_key_of};

verus! {

broadcast use vstd::string::group_string_axioms;

/// The columns of the transaction list that sort by text.
#[derive(Clone, Copy, Debug, PartialEq, Eq, Structural)]
pub enum TransactionSortColumn {
    Date,
    Bills,
    Recurring,
}

pub open spec fn utf8(s: Seq<char>) -> Seq<u8> {
    vstd::utf8::encode_utf8(s)
}

/// Ties are broken by payee, then by id, in ascending order.
pub open spec fn tie_break(t: TransactionRecord) -> Seq<Seq<u8>> {
    seq![utf8(t.payee_name@), utf8(t.id@)]
}

/// Sorting by date: the date, then payee and id.
pub open spec fn date_sort_key(t: TransactionRecord) -> SortKey {
    (seq![utf8(t.date@)], tie_break(t))
}

/// Sorting by a column: the column's text and then the date, then payee and id.
pub open spec fn transaction_sort_key(
    t: TransactionRecord,
    column: TransactionSortColumn,
    bills: Seq<BillRecord>,
    paychecks: Seq<BillRecord>,
    candidates: Seq<CandidateRecord>,
    language: Language,
) -> SortKey {
    match column {
        TransactionSortColumn::Date => date_sort_key(t),
        TransactionSortColumn::Bills => (
            seq![
                utf8(spec_transaction_bill_sort_label(t, bills, paychecks, language)),
                utf8(t.date@),
            ],
            tie_break(t),
        ),
        TransactionSortColumn::Recurring => (
            seq![
                utf8(spec_transaction_recurring_label(t, bills, paychecks, candidates, language)),
                utf8(t.date@),
            ],
            tie_break(t),
        ),
    }
}

/// `after` lists the records of `before` in the order of a stable sort by
/// `keys` (the keys of `before`, position by position).
pub open spec fn sorted_as(
    before: Seq<TransactionRecord>,
    after: Seq<TransactionRecord>,
    keys: Seq<SortKey>,
    descending: bool,
) -> bool {
    exists|p: Seq<usize>|
        {
            &&& is_permutation_of_range(p, before.len() as int)
            &&& ordered_by_keys(keys, descending, p)
            &&& after.len() == before.len()
            &&& forall|k: int| 0 <= k < after.len() ==> #[trigger] after[k]@ == before[p[k] as int]@
        }
}

fn rearranged(transactions: &Vec<TransactionRecord>, order: &Vec<usize>) -> (r: Vec<
    TransactionRecord,
>)
    requires
        is_permutation_of_range(order@, transactions.len() as int),
    ensures
        r.len() == order.len(),
        forall|k: int| 0 <= k < r.len() ==> #[trigger] r[k]@ == transactions[order[k] as int]@,
{
    let mut r: Vec<TransactionRecord> = Vec::new();
    let mut k: usize = 0;
    while k < order.len()
        invariant
            is_permutation_of_range(order@, transactions.len() as int),
            k <= order.len(),
            r.len() == k,
            forall|m: int| 0 <= m < k ==> #[trigger] r[m]@ == transactions[order[m] as int]@,
        decreases order.len() - k,
    {
        r.push(transactions[order[k]].copy());
        k += 1;
    }
    r
}

fn date_entry(t: &TransactionRecord) -> (r: (Vec<String>, Vec<String>))
    ensures
        sort_key_of(r) == date_sort_key(*t),
{
    let r = (vec![t.date.clone()], vec![t.payee_name.clone(), t.id.clone()]);
    assert(sort_key_of(r).0 =~= date_sort_key(*t).0);
    assert(sort_key_of(r).1 =~= date_sort_key(*t).1);
    r
}

/// Sorts the transactions by date (newest first when `newest_first`), then
/// by payee, then by id; equal entries keep their order.
pub fn sort_transactions_by_date(transactions: &mut Vec<TransactionRecord>, newest_first: bool)
    ensures
        sorted_as(
            old(transactions)@,
            final(transactions)@,
            old(transactions)@.map_values(|t: TransactionRecord| date_sort_key(t)),
            newest_first,
        ),
{
    let ghost keys = transactions@.map_values(|t: TransactionRecord| date_sort_key(t));
    let mut entries: Vec<(Vec<String>, Vec<String>)> = Vec::new();
    let mut i: usize = 0;
    while i < transactions.len()
        invariant
            i <= transactions.len(),
            entries.len() == i,
            keys == transactions@.map_values(|t: TransactionRecord| date_sort_key(t)),
            forall|m: int| 0 <= m < i ==> sort_key_of(#[trigger] entries@[m]) == keys[m],
        decreases transactions.len() - i,
    {
        entries.push(date_entry(&transactions[i]));
        i += 1;
    }
    assert(keys_of(entries@) =~= keys) by {
        assert forall|m: int| 0 <= m < entries.len() implies #[trigger] keys_of(entries@)[m] == keys[m] by {
            assert(sort_key_of(entries@[m]) == keys[m]);
        }
    }
    let order = order_by_fields(&entries, newest_first);
    let sorted = rearranged(transactions, &order);
    let ghost before = transactions@;
    *transactions = sorted;
    assert(sorted_as(before, transactions@, keys, newest_first)) by {
        assert(forall|k: int|
            0 <= k < transactions@.len() ==> #[trigger] transactions@[k]@ == before[order@[k] as int]@);
    }
}

fn column_entry(
    t: &TransactionRecord,
    column: TransactionSortColumn,
    bills: &Vec<BillRecord>,
    paychecks: &Vec<BillRecord>,
    candidates: &Vec<CandidateRecord>,
    language: Language,
) -> (r: (Vec<String>, Vec<String>))
    ensures
        sort_key_of(r) == transaction_sort_key(*t, column, bills@, paychecks@, candidates@, language),
{
    let lead = match column {
        TransactionSortColumn::Date => vec![t.date.clone()],
        TransactionSortColumn::Bills => vec![
            transaction_bill_sort_label(t, bills, paychecks, language),
            t.date.clone(),
        ],
        TransactionSortColumn::Recurring => vec![
            transaction_recurring_label(t, bills, paychecks, candidates, language),
            t.date.clone(),
        ],
    };
    let r = (lead, vec![t.payee_name.clone(), t.id.clone()]);
    let ghost key = transaction_sort_key(*t, column, bills@, paychecks@, candidates@, language);
    assert(sort_key_of(r).0 =~= key.0);
    assert(sort_key_of(r).1 =~= key.1);
    r
}

/// `positions` lists the transactions at `members` as a stable sort by
/// `column` orders them (descending unless `ascending`).
pub open spec fn in_column_order(
    ts: Seq<TransactionRecord>,
    members: Seq<usize>,
    positions: Seq<usize>,
    column: TransactionSortColumn,
    ascending: bool,
    bills: Seq<BillRecord>,
    paychecks: Seq<BillRecord>,
    candidates: Seq<CandidateRecord>,
    language: Language,
) -> bool {
    exists|p: Seq<usize>|
        {
            &&& is_permutation_of_range(p, members.len() as int)
            &&& ordered_by_keys(
                members.map_values(
                    |m: usize|
                        transaction_sort_key(ts[m as int], column, bills, paychecks, candidates, language),
                ),
                !ascending,
                p,
            )
            &&& positions.len() == members.len()
            &&& forall|k: int| 0 <= k < positions.len() ==> #[trigger] positions[k] == members[p[k] as int]
        }
}

fn column_order_of(
    transactions: &Vec<TransactionRecord>,
    members: &Vec<usize>,
    column: TransactionSortColumn,
    ascending: bool,
    bills: &Vec<BillRecord>,
    paychecks: &Vec<BillRecord>,
    recurring_candidates: &Vec<CandidateRecord>,
    language: Language,
) -> (r: Vec<usize>)
    requires
        forall|k: int| 0 <= k < members.len() ==> members@[k] < transactions.len(),
    ensures
        in_column_order(
            transactions@,
            members@,
            r@,
            column,
            ascending,
            bills@,
            paychecks@,
            recurring_candidates@,
            language,
        ),
        forall|k: int| 0 <= k < r.len() ==> r@[k] < transactions.len(),
{
    let ghost ts = transactions@;
    let ghost keys = members@.map_values(
        |m: usize|
            transaction_sort_key(ts[m as int], column, bills@, paychecks@, recurring_candidates@, language),
    );
    let mut entries: Vec<(Vec<String>, Vec<String>)> = Vec::new();
    let mut i: usize = 0;
    while i < members.len()
        invariant
            ts == transactions@,
            i <= members.len(),
            entries.len() == i,
            forall|k: int| 0 <= k < members.len() ==> members@[k] < transactions.len(),
            keys == members@.map_values(
                |m: usize|
                    transaction_sort_key(
                        ts[m as int],
                        column,
                        bills@,
                        paychecks@,
                        recurring_candidates@,
                        language,
                    ),
            ),
            forall|m: int| 0 <= m < i ==> sort_key_of(#[trigger] entries@[m]) == keys[m],
        decreases members.len() - i,
    {
        entries.push(
            column_entry(&transactions[members[i]], column, bills, paychecks, recurring_candidates, language),
        );
        i += 1;
    }
    assert(keys_of(entries@) =~= keys) by {
        assert forall|m: int| 0 <= m < entries.len() implies #[trigger] keys_of(entries@)[m] == keys[m] by {
            assert(sort_key_of(entries@[m]) == keys[m]);
        }
    }
    let order = order_by_fields(&entries, !ascending);
    let mut positions: Vec<usize> = Vec::new();
    let mut k: usize = 0;
    while k < order.len()
        invariant
            is_permutation_of_range(order@, members.len() as int),
            k <= order.len(),
            positions.len() == k,
            forall|j: int| 0 <= j < members.len() ==> members@[j] < transactions.len(),
            forall|j: int| 0 <= j < k ==> #[trigger] positions@[j] == members@[order@[j] as int],
        decreases order.len() - k,
    {
        positions.push(members[order[k]]);
        k += 1;
    }
    assert(in_column_order(
        ts,
        members@,
        positions@,
        column,
        ascending,
        bills@,
        paychecks@,
        recurring_candidates@,
        language,
    ));
    positions
}

/// The positions of the transactions in the order a stable sort by a column
/// gives: its text (descending unless `ascending`), then the date in the same
/// direction, then payee and id in ascending order.
pub fn transaction_sort_order(
    transactions: &Vec<TransactionRecord>,
    column: TransactionSortColumn,
    ascending: bool,
    bills: &Vec<BillRecord>,
    paychecks: &Vec<BillRecord>,
    recurring_candidates: &Vec<CandidateRecord>,
    language: Language,
) -> (r: Vec<usize>)
    ensures
        is_permutation_of_range(r@, transactions.len() as int),
        ordered_by_keys(
            transactions@.map_values(
                |t: TransactionRecord|
                    transaction_sort_key(t, column, bills@, paychecks@, recurring_candidates@, language),
            ),
            !ascending,
            r@,
        ),
{
    let ghost ts = transactions@;
    let all = identity(transactions.len());
    let r = column_order_of(
        transactions,
        &all,
        column,
        ascending,
        bills,
        paychecks,
        recurring_candidates,
        language,
    );
    proof {
        let keys = ts.map_values(
            |t: TransactionRecord|
                transaction_sort_key(t, column, bills@, paychecks@, recurring_candidates@, language),
        );
        let member_keys = all@.map_values(
            |m: usize|
                transaction_sort_key(ts[m as int], column, bills@, paychecks@, recurring_candidates@, language),
        );
        assert(member_keys =~= keys);
        let p = choose|p: Seq<usize>|
            {
                &&& is_permutation_of_range(p, all@.len() as int)
                &&& ordered_by_keys(member_keys, !ascending, p)
                &&& r@.len() == all@.len()
                &&& forall|k: int| 0 <= k < r@.len() ==> #[trigger] r@[k] == all@[p[k] as int]
            };
        assert(r@ =~= p);
    }
    r
}

/// Sorts the transactions by a column: its text (descending unless
/// `ascending`), then the date in the same direction, then payee and id in
/// ascending order; equal entries keep their order.
pub fn sort_transactions(
    transactions: &mut Vec<TransactionRecord>,
    column: TransactionSortColumn,
    ascending: bool,
    bills: &Vec<BillRecord>,
    paychecks: &Vec<BillRecord>,
    recurring_candidates: &Vec<CandidateRecord>,
    language: Language,
)
    ensures
        sorted_as(
            old(transactions)@,
            final(transactions)@,
            old(transactions)@.map_values(
                |t: TransactionRecord|
                    transaction_sort_key(
                        t,
                        column,
                        bills@,
                        paychecks@,
                        recurring_candidates@,
                        language,
                    ),
            ),
            !ascending,
        ),
{
    let ghost keys = transactions@.map_values(
        |t: TransactionRecord|
            transaction_sort_key(t, column, bills@, paychecks@, recurring_candidates@, language),
    );
    let order = transaction_sort_order(
        transactions,
        column,
        ascending,
        bills,
        paychecks,
        recurring_candidates,
        language,
    );
    let sorted = rearranged(transactions, &order);
    let ghost before = transactions@;
    *transactions = sorted;
    assert(sorted_as(before, transactions@, keys, !ascending)) by {
        assert(forall|k: int|
            0 <= k < transactions@.len() ==> #[trigger] transactions@[k]@ == before[order@[k] as int]@);
    }
}

// ----- grouping by bill -----
/// The bill group of each transaction.
pub open spec fn group_labels(
    ts: Seq<TransactionRecord>,
    bills: Seq<BillRecord>,
    paychecks: Seq<BillRecord>,
    language: Language,
) -> Seq<Seq<char>> {
    ts.map_values(|t: TransactionRecord| spec_transaction_bill_sort_label(t, bills, paychecks, language))
}

pub open spec fn all_selected(n: int) -> Seq<bool> {
    Seq::new(n as nat, |i: int| true)
}

/// The bill groups, in order of first appearance.
pub open spec fn group_names(
    ts: Seq<TransactionRecord>,
    bills: Seq<BillRecord>,
    paychecks: Seq<BillRecord>,
    language: Language,
) -> Seq<Seq<char>> {
    group_keys_upto(group_labels(ts, bills, paychecks, language), all_selected(ts.len() as int), ts.len() as int)
}

/// The positions of the transactions in group `name`, in order.
pub open spec fn group_members(
    ts: Seq<TransactionRecord>,
    bills: Seq<BillRecord>,
    paychecks: Seq<BillRecord>,
    language: Language,
    name: Seq<char>,
) -> Seq<usize> {
    members_upto(
        group_labels(ts, bills, paychecks, language),
        all_selected(ts.len() as int),
        name,
        ts.len() as int,
    )
}

/// Group `i` is listed before group `j`: a smaller group sort key, or keys
/// that do not differ and `i < j`.
pub open spec fn group_listed_before(names: Seq<Seq<char>>, language: Language, i: int, j: int) -> bool {
    let a = spec_group_sort_key(names[i], language);
    let b = spec_group_sort_key(names[j], language);
    let a_lt_b = a.0 < b.0 || (a.0 == b.0 && bytes_lt(utf8(a.1), utf8(b.1)));
    let b_lt_a = b.0 < a.0 || (a.0 == b.0 && bytes_lt(utf8(b.1), utf8(a.1)));
    a_lt_b || (!b_lt_a && i < j)
}

/// `positions` lists the transactions at `members`: in that order, or, with a
/// column, sorted by it.
pub open spec fn group_arranged(
    ts: Seq<TransactionRecord>,
    members: Seq<usize>,
    positions: Seq<usize>,
    column: Option<TransactionSortColumn>,
    ascending: bool,
    bills: Seq<BillRecord>,
    paychecks: Seq<BillRecord>,
    candidates: Seq<CandidateRecord>,
    language: Language,
) -> bool {
    match column {
        None => positions == members,
        Some(c) => in_column_order(ts, members, positions, c, ascending, bills, paychecks, candidates, language),
    }
}

proof fn lemma_members_in_range(keys: Seq<Seq<char>>, selected: Seq<bool>, key: Seq<char>, m: int)
    requires
        0 <= m <= keys.len(),
        m <= usize::MAX,
    ensures
        forall|k: int|
            0 <= k < members_upto(keys, selected, key, m).len() ==> #[trigger] members_upto(
                keys,
                selected,
                key,
                m,
            )[k] < m,
    decreases m,
{
    if m > 0 {
        lemma_members_in_range(keys, selected, key, m - 1);
        let prev = members_upto(keys, selected, key, m - 1);
        let cur = members_upto(keys, selected, key, m);
        assert(((m - 1) as usize) as int == m - 1);
        assert forall|k: int| 0 <= k < cur.len() implies #[trigger] cur[k] < m by {
            if k < prev.len() {
                assert(cur[k] == prev[k]);
            }
        }
    }
}

/// Groups the transactions by bill group: one group per group label, the
/// groups ordered by their sort key ("Unassigned" last, the others by
/// lowercased name, equal keys in order of first appearance), each listing
/// the positions of its transactions in order of appearance or, with a
/// column, sorted by it.
pub fn group_transactions_by_category(
    transactions: &Vec<TransactionRecord>,
    sort_column: Option<TransactionSortColumn>,
    sort_ascending: bool,
    bills: &Vec<BillRecord>,
    paychecks: &Vec<BillRecord>,
    recurring_candidates: &Vec<CandidateRecord>,
    language: Language,
) -> (r: Vec<(String, Vec<usize>)>)
    ensures
        ({
            let names = group_names(transactions@, bills@, paychecks@, language);
            exists|p: Seq<usize>|
                {
                    &&& is_permutation_of_range(p, names.len() as int)
                    &&& forall|a: int, b: int|
                        0 <= a < b < p.len() ==> group_listed_before(
                            names,
                            language,
                            p[a] as int,
                            p[b] as int,
                        )
                    &&& r.len() == p.len()
                    &&& forall|k: int|
                        0 <= k < r.len() ==> (#[trigger] r[k]).0@ == names[p[k] as int]
                            && group_arranged(
                            transactions@,
                            group_members(transactions@, bills@, paychecks@, language, names[p[k] as int]),
                            r[k].1@,
                            sort_column,
                            sort_ascending,
                            bills@,
                            paychecks@,
                            recurring_candidates@,
                            language,
                        )
                }
        }),
{
    let ghost ts = transactions@;
    let ghost labels = group_labels(ts, bills@, paychecks@, language);
    let n = transactions.len();
    let mut label_list: Vec<String> = Vec::new();
    let mut selected: Vec<bool> = Vec::new();
    let mut i: usize = 0;
    while i < n
        invariant
            n == transactions.len(),
            ts == transactions@,
            labels == group_labels(ts, bills@, paychecks@, language),
            i <= n,
            label_list.len() == i,
            selected.len() == i,
            forall|j: int| 0 <= j < i ==> #[trigger] label_list@[j]@ == labels[j],
            forall|j: int| 0 <= j < i ==> #[trigger] selected@[j],
        decreases n - i,
    {
        label_list.push(transaction_bill_sort_label(&transactions[i], bills, paychecks, language));
        selected.push(true);
        i += 1;
    }
    assert(key_views(label_list@) =~= labels);
    assert(selected@ =~= all_selected(n as int));
    let groups = group_by_key(&label_list, &selected);
    let ghost names = group_names(ts, bills@, paychecks@, language);
    let mut arranged: Vec<Vec<usize>> = Vec::new();
    let mut keys: Vec<(u8, String)> = Vec::new();
    let mut g: usize = 0;
    while g < groups.len()
        invariant
            n == transactions.len(),
            ts == transactions@,
            labels == group_labels(ts, bills@, paychecks@, language),
            names == group_names(ts, bills@, paychecks@, language),
            key_views(label_list@) == labels,
            selected@ == all_selected(n as int),
            groups.len() == names.len(),
            forall|h: int|
                0 <= h < groups.len() ==> (#[trigger] groups[h]).0@ == names[h] && groups[h].1@
                    == members_upto(labels, selected@, groups[h].0@, n as int),
            g <= groups.len(),
            arranged.len() == g,
            keys.len() == g,
            forall|h: int|
                0 <= h < g ==> (keys@[h].0, (#[trigger] keys@[h]).1@) == spec_group_sort_key(
                    names[h],
                    language,
                ),
            forall|h: int|
                0 <= h < g ==> group_arranged(
                    ts,
                    group_members(ts, bills@, paychecks@, language, names[h]),
                    (#[trigger] arranged@[h])@,
                    sort_column,
                    sort_ascending,
                    bills@,
                    paychecks@,
                    recurring_candidates@,
                    language,
                ),
        decreases groups.len() - g,
    {
        proof {
            lemma_members_in_range(labels, selected@, groups[g as int].0@, n as int);
        }
        let positions = match sort_column {
            None => groups[g].1.clone(),
            Some(c) => column_order_of(
                transactions,
                &groups[g].1,
                c,
                sort_ascending,
                bills,
                paychecks,
                recurring_candidates,
                language,
            ),
        };
        let key = group_sort_key(groups[g].0.as_str(), language);
        arranged.push(positions);
        keys.push(key);
        g += 1;
    }
    let order = stable_order(&keys);
    let mut out: Vec<(String, Vec<usize>)> = Vec::new();
    let mut k: usize = 0;
    while k < order.len()
        invariant
            ts == transactions@,
            names == group_names(ts, bills@, paychecks@, language),
            groups.len() == names.len(),
            arranged.len() == names.len(),
            keys.len() == names.len(),
            forall|h: int| 0 <= h < groups.len() ==> (#[trigger] groups[h]).0@ == names[h],
            is_permutation_of_range(order@, keys.len() as int),
            k <= order.len(),
            out.len() == k,
            forall|j: int|
                0 <= j < k ==> (#[trigger] out[j]).0@ == names[order@[j] as int] && out[j].1@
                    == arranged@[order@[j] as int]@,
        decreases order.len() - k,
    {
        let h = order[k];
        out.push((groups[h].0.clone(), arranged[h].clone()));
        k += 1;
    }
    proof {
        assert forall|a: int, b: int| 0 <= a < b < order@.len() implies group_listed_before(
            names,
            language,
            order@[a] as int,
            order@[b] as int,
        ) by {
            assert(entry_before(keys@, order@[a] as int, order@[b] as int));
        }
    }
    out
}

/// Law: grouping by bill lists every transaction in exactly one group, the
/// one named by its bill-group label, and only once there.
pub proof fn law_each_transaction_in_one_group(
    ts: Seq<TransactionRecord>,
    bills: Seq<BillRecord>,
    paychecks: Seq<BillRecord>,
    language: Language,
    i: int,
)
    requires
        0 <= i < ts.len(),
        ts.len() <= usize::MAX,
    ensures
        group_names(ts, bills, paychecks, language).no_duplicates(),
        group_names(ts, bills, paychecks, language).contains(
            spec_transaction_bill_sort_label(ts[i], bills, paychecks, language),
        ),
        forall|g: int|
            0 <= g < group_names(ts, bills, paychecks, language).len() ==> (#[trigger] group_members(
                ts,
                bills,
                paychecks,
                language,
                group_names(ts, bills, paychecks, language)[g],
            ).contains(i as usize) <==> group_names(ts, bills, paychecks, language)[g]
                == spec_transaction_bill_sort_label(ts[i], bills, paychecks, language)),
        forall|g: int|
            0 <= g < group_names(ts, bills, paychecks, language).len() ==> (#[trigger] group_members(
                ts,
                bills,
                paychecks,
                language,
                group_names(ts, bills, paychecks, language)[g],
            )).no_duplicates(),
{
    let labels = group_labels(ts, bills, paychecks, language);
    let selected = all_selected(ts.len() as int);
    let n = ts.len() as int;
    lemma_group_keys_distinct(labels, selected, n);
    lemma_key_is_grouped(labels, selected, n, i);
    let names = group_names(ts, bills, paychecks, language);
    assert forall|g: int| 0 <= g < names.len() implies (#[trigger] group_members(
        ts,
        bills,
        paychecks,
        language,
        names[g],
    ).contains(i as usize) <==> names[g] == spec_transaction_bill_sort_label(ts[i], bills, paychecks, language)) by {
        lemma_members_exact(labels, selected, names[g], n);
    }
    assert forall|g: int| 0 <= g < names.len() implies (#[trigger] group_members(
        ts,
        bills,
        paychecks,
        language,
        names[g],
    )).no_duplicates() by {
        lemma_members_exact(labels, selected, names[g], n);
        let members = group_members(ts, bills, paychecks, language, names[g]);
        assert forall|a: int, b: int| 0 <= a < members.len() && 0 <= b < members.len() && a != b implies members[a]
            != members[b] by {
            if a < b {
                assert(members[a] < members[b]);
            } else {
                assert(members[b] < members[a]);
            }
        }
    }
}

fn identity(n: usize) -> (r: Vec<usize>)
    ensures
        r.len() == n,
        forall|k: int| 0 <= k < n ==> #[trigger] r@[k] == k,
{
    let mut r: Vec<usize> = Vec::new();
    let mut k: usize = 0;
    while k < n
        invariant
            k <= n,
            r.len() == k,
            forall|j: int| 0 <= j < k ==> #[trigger] r@[j] == j,
        decreases n - k,
    {
        r.push(k);
        k += 1;
    }
    r
}

} // verus!
