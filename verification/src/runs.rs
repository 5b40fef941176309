//! Grouping transactions into runs that may recur: by recurring key, each run
//! in date order, with the cadence its dates show.
//!
//! The amounts of a run, and the confidence they give, are weighed by the
//! caller; a run says which transactions it holds, its cadence, and how many
//! of its day gaps fit that cadence.
use vstd::prelude::*;
use vstd::set_lib::{set_int_range, lemma_int_range, lemma_subset_equality};
use crate::text::str_eq;
use crate::collections::{
    group_by_key, group_keys_upto, members_upto, is_permutation_of_range, key_views,
    lemma_group_keys_distinct, lemma_key_is_grouped, lemma_members_exact,
};
use crate::ordering::{SortKey, order_by_fields, ordered_by_keys, keys_of, sort_key_of};
use crate::ledger::{TransactionRecord, NON_RECURRING_CATEGORY, spec_transaction_key, transaction_key};
use crate::models::RecurringCadence;
use crate::names::{normalize_category_name, spec_normalize_category_name};
use crate::recurring::{
    count_fitting, gaps_fitting_cadence, infer_cadence, run_dates, run_gaps, run_gaps_and_dates,
    spec_infer_cadence, string_views,
};
use crate::sorting::utf8;

verus! {

broadcast use vstd::string::group_string_axioms;

/// A run of transactions with the same recurring key.
pub struct RecurringRun {
    /// The recurring key the run shares.
    pub key: String,
    /// Positions of the run's transactions, in date order.
    pub members: Vec<usize>,
    /// The cadence of the run; `None` for fewer than two transactions or
    /// dates that show none.
    pub cadence: Option<RecurringCadence>,
    /// The number of positive day gaps between consecutive dates.
    pub gap_count: usize,
    /// How many of those gaps fit the cadence; `None` without a cadence or
    /// for an irregular one.
    pub fitting_gaps: Option<usize>,
}

/// A transaction joins a run when its amount is not zero and it is not marked
/// non-recurring.
pub open spec fn run_selected(ts: Seq<TransactionRecord>, nonzero: Seq<bool>) -> Seq<bool> {
    Seq::new(
        ts.len(),
        |i: int| nonzero[i] && spec_normalize_category_name(ts[i].category_name@) != NON_RECURRING_CATEGORY@,
    )
}

pub open spec fn run_keys(ts: Seq<TransactionRecord>) -> Seq<Seq<char>> {
    ts.map_values(|t: TransactionRecord| spec_transaction_key(t))
}

/// The keys of the runs, in order of first appearance.
pub open spec fn run_names(ts: Seq<TransactionRecord>, nonzero: Seq<bool>) -> Seq<Seq<char>> {
    group_keys_upto(run_keys(ts), run_selected(ts, nonzero), ts.len() as int)
}

/// The positions of the transactions of run `key`, in list order.
pub open spec fn run_members(ts: Seq<TransactionRecord>, nonzero: Seq<bool>, key: Seq<char>) -> Seq<usize> {
    members_upto(run_keys(ts), run_selected(ts, nonzero), key, ts.len() as int)
}

pub open spec fn date_only_key(t: TransactionRecord) -> SortKey {
    (seq![utf8(t.date@)], Seq::empty())
}

/// `sorted` lists `members` as a stable sort by date orders them.
pub open spec fn in_date_order(ts: Seq<TransactionRecord>, members: Seq<usize>, sorted: Seq<usize>) -> bool {
    exists|p: Seq<usize>|
        {
            &&& is_permutation_of_range(p, members.len() as int)
            &&& ordered_by_keys(members.map_values(|m: usize| date_only_key(ts[m as int])), false, p)
            &&& sorted.len() == members.len()
            &&& forall|k: int| 0 <= k < sorted.len() ==> #[trigger] sorted[k] == members[p[k] as int]
        }
}

pub open spec fn member_dates(ts: Seq<TransactionRecord>, sorted: Seq<usize>) -> Seq<Seq<char>> {
    sorted.map_values(|m: usize| ts[m as int].date@)
}

/// The cadence of a run whose transactions, in date order, are at `sorted`.
pub open spec fn run_cadence(ts: Seq<TransactionRecord>, sorted: Seq<usize>) -> Option<RecurringCadence> {
    let dates = member_dates(ts, sorted);
    if sorted.len() < 2 {
        None
    } else {
        spec_infer_cadence(run_gaps(dates, dates.len() as int), run_dates(dates, dates.len() as int))
    }
}

fn dates_at(transactions: &Vec<TransactionRecord>, sorted: &Vec<usize>) -> (r: Vec<String>)
    requires
        forall|k: int| 0 <= k < sorted.len() ==> sorted@[k] < transactions.len(),
    ensures
        string_views(r@) == member_dates(transactions@, sorted@),
{
    let mut r: Vec<String> = Vec::new();
    let mut k: usize = 0;
    while k < sorted.len()
        invariant
            k <= sorted.len(),
            r.len() == k,
            forall|j: int| 0 <= j < sorted.len() ==> sorted@[j] < transactions.len(),
            forall|j: int| 0 <= j < k ==> #[trigger] r@[j]@ == transactions@[sorted@[j] as int].date@,
        decreases sorted.len() - k,
    {
        r.push(transactions[sorted[k]].date.clone());
        k += 1;
    }
    assert(string_views(r@) =~= member_dates(transactions@, sorted@));
    r
}

proof fn lemma_members_below(keys: Seq<Seq<char>>, selected: Seq<bool>, key: Seq<char>, m: int)
    requires
        0 <= m <= keys.len(),
        m <= usize::MAX,
    ensures
        forall|k: int|
            0 <= k < members_upto(keys, selected, key, m).len() ==> #[trigger] members_upto(
                keys,
                selected,
                key,
                m,
            )[k] < m,
    decreases m,
{
    if m > 0 {
        lemma_members_below(keys, selected, key, m - 1);
        let prev = members_upto(keys, selected, key, m - 1);
        let cur = members_upto(keys, selected, key, m);
        assert(((m - 1) as usize) as int == m - 1);
        assert forall|k: int| 0 <= k < cur.len() implies #[trigger] cur[k] < m by {
            if k < prev.len() {
                assert(cur[k] == prev[k]);
            }
        }
    }
}

fn by_date_positions(transactions: &Vec<TransactionRecord>, members: &Vec<usize>) -> (r: Vec<usize>)
    requires
        forall|k: int| 0 <= k < members.len() ==> members@[k] < transactions.len(),
    ensures
        in_date_order(transactions@, members@, r@),
        forall|k: int| 0 <= k < r.len() ==> r@[k] < transactions.len(),
{
    let ghost ts = transactions@;
    let ghost keys = members@.map_values(|m: usize| date_only_key(ts[m as int]));
    let mut entries: Vec<(Vec<String>, Vec<String>)> = Vec::new();
    let mut k: usize = 0;
    while k < members.len()
        invariant
            ts == transactions@,
            keys == members@.map_values(|m: usize| date_only_key(ts[m as int])),
            k <= members.len(),
            entries.len() == k,
            forall|j: int| 0 <= j < members.len() ==> members@[j] < transactions.len(),
            forall|j: int| 0 <= j < k ==> sort_key_of(#[trigger] entries@[j]) == keys[j],
        decreases members.len() - k,
    {
        let e = (vec![transactions[members[k]].date.clone()], Vec::new());
        assert(sort_key_of(e).0 =~= keys[k as int].0);
        assert(sort_key_of(e).1 =~= keys[k as int].1);
        entries.push(e);
        k += 1;
    }
    assert(keys_of(entries@) =~= keys) by {
        assert forall|j: int| 0 <= j < entries.len() implies #[trigger] keys_of(entries@)[j] == keys[j] by {
            assert(sort_key_of(entries@[j]) == keys[j]);
        }
    }
    let order = order_by_fields(&entries, false);
    let mut sorted: Vec<usize> = Vec::new();
    let mut k: usize = 0;
    while k < order.len()
        invariant
            is_permutation_of_range(order@, members.len() as int),
            k <= order.len(),
            sorted.len() == k,
            forall|j: int| 0 <= j < members.len() ==> members@[j] < transactions.len(),
            forall|j: int| 0 <= j < k ==> #[trigger] sorted@[j] == members@[order@[j] as int],
        decreases order.len() - k,
    {
        sorted.push(members[order[k]]);
        k += 1;
    }
    assert(in_date_order(ts, members@, sorted@));
    sorted
}

/// The runs of recurring transactions: one per recurring key among the
/// transactions with a nonzero amount (`nonzero[i]` for `transactions[i]`) that
/// are not marked non-recurring, in order of first appearance; each lists its
/// transactions in date order, with its cadence and how many gaps fit it.
pub fn recurring_runs(transactions: &Vec<TransactionRecord>, nonzero: &Vec<bool>) -> (r: Vec<RecurringRun>)
    requires
        nonzero.len() == transactions.len(),
    ensures
        r.len() == run_names(transactions@, nonzero@).len(),
        forall|g: int|
            0 <= g < r.len() ==> {
                let run = #[trigger] r[g];
                let sorted = run.members@;
                let dates = member_dates(transactions@, sorted);
                let gaps = run_gaps(dates, dates.len() as int);
                &&& run.key@ == run_names(transactions@, nonzero@)[g]
                &&& in_date_order(transactions@, run_members(transactions@, nonzero@, run.key@), sorted)
                &&& run.cadence == run_cadence(transactions@, sorted)
                &&& run.gap_count == gaps.len()
                &&& run.fitting_gaps == (match run.cadence {
                    Some(c) => if c == RecurringCadence::Irregular {
                        None
                    } else {
                        Some(count_fitting(c, gaps) as usize)
                    },
                    None => None,
                })
            },
{
    let ghost ts = transactions@;
    let n = transactions.len();
    let mut keys: Vec<String> = Vec::new();
    let mut selected: Vec<bool> = Vec::new();
    let mut i: usize = 0;
    while i < n
        invariant
            n == transactions.len() == nonzero.len(),
            ts == transactions@,
            i <= n,
            keys.len() == i,
            selected.len() == i,
            forall|j: int| 0 <= j < i ==> #[trigger] keys@[j]@ == run_keys(ts)[j],
            forall|j: int| 0 <= j < i ==> #[trigger] selected@[j] == run_selected(ts, nonzero@)[j],
        decreases n - i,
    {
        keys.push(transaction_key(&transactions[i]));
        let category = normalize_category_name(transactions[i].category_name.as_str());
        selected.push(nonzero[i] && !str_eq(category.as_str(), NON_RECURRING_CATEGORY));
        i += 1;
    }
    assert(key_views(keys@) =~= run_keys(ts));
    assert(selected@ =~= run_selected(ts, nonzero@));
    let groups = group_by_key(&keys, &selected);
    let mut out: Vec<RecurringRun> = Vec::new();
    let mut g: usize = 0;
    while g < groups.len()
        invariant
            ts == transactions@,
            n == transactions.len(),
            key_views(keys@) == run_keys(ts),
            selected@ == run_selected(ts, nonzero@),
            groups.len() == run_names(ts, nonzero@).len(),
            forall|h: int|
                0 <= h < groups.len() ==> (#[trigger] groups[h]).0@ == run_names(ts, nonzero@)[h]
                    && groups[h].1@ == members_upto(key_views(keys@), selected@, groups[h].0@, n as int),
            g <= groups.len(),
            out.len() == g,
            forall|h: int|
                0 <= h < g ==> {
                    let run = #[trigger] out[h];
                    let sorted = run.members@;
                    let dates = member_dates(ts, sorted);
                    let gaps = run_gaps(dates, dates.len() as int);
                    &&& run.key@ == run_names(ts, nonzero@)[h]
                    &&& in_date_order(ts, run_members(ts, nonzero@, run.key@), sorted)
                    &&& run.cadence == run_cadence(ts, sorted)
                    &&& run.gap_count == gaps.len()
                    &&& run.fitting_gaps == (match run.cadence {
                        Some(c) => if c == RecurringCadence::Irregular {
                            None
                        } else {
                            Some(count_fitting(c, gaps) as usize)
                        },
                        None => None,
                    })
                },
        decreases groups.len() - g,
    {
        proof {
            lemma_members_below(key_views(keys@), selected@, groups[g as int].0@, n as int);
        }
        let sorted = by_date_positions(transactions, &groups[g].1);
        let dates = dates_at(transactions, &sorted);
        let (gaps, parsed) = run_gaps_and_dates(&dates);
        let cadence = if sorted.len() < 2 {
            None
        } else {
            infer_cadence(&gaps, &parsed)
        };
        let fitting = match cadence {
            Some(c) => gaps_fitting_cadence(c, &gaps),
            None => None,
        };
        let run = RecurringRun {
            key: groups[g].0.clone(),
            members: sorted,
            cadence,
            gap_count: gaps.len(),
            fitting_gaps: fitting,
        };
        out.push(run);
        g += 1;
    }
    out
}

/// How many of the first `m` transactions join a run and carry `key`.
pub open spec fn eligible_count_upto(ts: Seq<TransactionRecord>, nonzero: Seq<bool>, key: Seq<char>, m: int) -> nat
    decreases m,
{
    if m <= 0 {
        0
    } else {
        eligible_count_upto(ts, nonzero, key, m - 1) + if run_selected(ts, nonzero)[m - 1]
            && run_keys(ts)[m - 1] == key {
            1nat
        } else {
            0nat
        }
    }
}

/// How many transactions join a run and carry `key`.
pub open spec fn eligible_count(ts: Seq<TransactionRecord>, nonzero: Seq<bool>, key: Seq<char>) -> nat {
    eligible_count_upto(ts, nonzero, key, ts.len() as int)
}

proof fn lemma_members_count(ts: Seq<TransactionRecord>, nonzero: Seq<bool>, key: Seq<char>, m: int)
    requires
        0 <= m <= ts.len(),
    ensures
        members_upto(run_keys(ts), run_selected(ts, nonzero), key, m).len() == eligible_count_upto(
            ts,
            nonzero,
            key,
            m,
        ),
    decreases m,
{
    if m > 0 {
        lemma_members_count(ts, nonzero, key, m - 1);
    }
}

proof fn lemma_grouped_key_counted(ts: Seq<TransactionRecord>, nonzero: Seq<bool>, key: Seq<char>, m: int)
    requires
        0 <= m <= ts.len(),
        group_keys_upto(run_keys(ts), run_selected(ts, nonzero), m).contains(key),
    ensures
        eligible_count_upto(ts, nonzero, key, m) >= 1,
    decreases m,
{
    let prev = group_keys_upto(run_keys(ts), run_selected(ts, nonzero), m - 1);
    if prev.contains(key) {
        lemma_grouped_key_counted(ts, nonzero, key, m - 1);
    } else {
        let cur = group_keys_upto(run_keys(ts), run_selected(ts, nonzero), m);
        let k = choose|k: int| 0 <= k < cur.len() && cur[k] == key;
        if !(run_selected(ts, nonzero)[m - 1] && run_keys(ts)[m - 1] == key) {
            if run_selected(ts, nonzero)[m - 1] && !prev.contains(run_keys(ts)[m - 1]) {
                assert(k < prev.len());
                assert(prev[k] == key);
            } else {
                assert(prev[k] == key);
            }
        }
    }
}

/// A permutation of `0..n` takes every value below `n`.
proof fn lemma_permutation_onto(p: Seq<usize>, n: int, j: int)
    requires
        is_permutation_of_range(p, n),
        0 <= j < n,
    ensures
        exists|k: int| 0 <= k < p.len() && p[k] as int == j,
{
    broadcast use vstd::seq_lib::seq_to_set_is_finite;
    let q = p.map_values(|x: usize| x as int);
    assert(q.no_duplicates()) by {
        assert forall|a: int, b: int| 0 <= a < q.len() && 0 <= b < q.len() && a != b implies q[a] != q[b] by {
            assert(p[a] != p[b]);
        }
    }
    q.unique_seq_to_set();
    lemma_int_range(0, n);
    assert(q.to_set().subset_of(set_int_range(0, n))) by {
        assert forall|x: int| q.to_set().contains(x) implies set_int_range(0, n).contains(x) by {
            assert(q.contains(x));
            let k = choose|k: int| 0 <= k < q.len() && q[k] == x;
            assert(p[k] < n);
        }
    }
    lemma_subset_equality(q.to_set(), set_int_range(0, n));
    assert(set_int_range(0, n).contains(j));
    assert(q.to_set().contains(j));
    assert(q.contains(j));
    let k = choose|k: int| 0 <= k < q.len() && q[k] == j;
    assert(p[k] as int == j);
}

/// The members `sorted` of the run of `key` are exactly the transactions that
/// join a run and carry `key`, once each, and a cadence needs two of them.
pub open spec fn run_of_key_exact(ts: Seq<TransactionRecord>, nonzero: Seq<bool>, key: Seq<char>, sorted: Seq<usize>) -> bool {
    &&& sorted.len() == eligible_count(ts, nonzero, key)
    &&& sorted.no_duplicates()
    &&& forall|i: int|
        #![trigger sorted.contains(i as usize)]
        0 <= i < ts.len() ==> (sorted.contains(i as usize) <==> (run_selected(ts, nonzero)[i]
            && run_keys(ts)[i] == key))
    &&& (run_cadence(ts, sorted) is Some ==> sorted.len() >= 2)
}

proof fn lemma_run_of_key(ts: Seq<TransactionRecord>, nonzero: Seq<bool>, key: Seq<char>, sorted: Seq<usize>)
    requires
        nonzero.len() == ts.len(),
        ts.len() <= usize::MAX,
        in_date_order(ts, run_members(ts, nonzero, key), sorted),
    ensures
        run_of_key_exact(ts, nonzero, key, sorted),
{
    let keys = run_keys(ts);
    let selected = run_selected(ts, nonzero);
    let n = ts.len() as int;
    let members = run_members(ts, nonzero, key);
    lemma_members_count(ts, nonzero, key, n);
    lemma_members_exact(keys, selected, key, n);
    let p = choose|p: Seq<usize>|
        {
            &&& is_permutation_of_range(p, members.len() as int)
            &&& ordered_by_keys(members.map_values(|m: usize| date_only_key(ts[m as int])), false, p)
            &&& sorted.len() == members.len()
            &&& forall|k: int| 0 <= k < sorted.len() ==> #[trigger] sorted[k] == members[p[k] as int]
        };
    assert forall|a: int, b: int| 0 <= a < sorted.len() && 0 <= b < sorted.len() && a != b implies sorted[a]
        != sorted[b] by {
        assert(p[a] != p[b]);
        if p[a] < p[b] {
            assert(members[p[a] as int] < members[p[b] as int]);
        } else {
            assert(members[p[b] as int] < members[p[a] as int]);
        }
    }
    assert forall|i: int| 0 <= i < ts.len() implies (sorted.contains(i as usize) <==> (run_selected(
        ts,
        nonzero,
    )[i] && run_keys(ts)[i] == key)) by {
        if sorted.contains(i as usize) {
            let k = choose|k: int| 0 <= k < sorted.len() && sorted[k] == i as usize;
            assert(members[p[k] as int] == i as usize);
            assert(members.contains(i as usize));
        }
        if run_selected(ts, nonzero)[i] && run_keys(ts)[i] == key {
            assert(members.contains(i as usize));
            let j = choose|j: int| 0 <= j < members.len() && members[j] == i as usize;
            lemma_permutation_onto(p, members.len() as int, j);
            let k = choose|k: int| 0 <= k < p.len() && p[k] as int == j;
            assert(sorted[k] == i as usize);
        }
    }
}

/// Law: the runs have distinct keys, and every transaction that joins a run
/// (nonzero amount, not marked non-recurring) is in the run of its key. The run
/// of a key lists, once each, exactly the transactions that join a run and
/// carry that key, so it has as many members as there are of them, and at
/// least one; a run has a cadence only with two members or more.
pub proof fn law_runs_partition_eligible(ts: Seq<TransactionRecord>, nonzero: Seq<bool>)
    requires
        nonzero.len() == ts.len(),
        ts.len() <= usize::MAX,
    ensures
        run_names(ts, nonzero).no_duplicates(),
        forall|i: int|
            0 <= i < ts.len() && #[trigger] run_selected(ts, nonzero)[i] ==> run_names(ts, nonzero).contains(
                run_keys(ts)[i],
            ),
        forall|g: int|
            0 <= g < run_names(ts, nonzero).len() ==> eligible_count(
                ts,
                nonzero,
                #[trigger] run_names(ts, nonzero)[g],
            ) >= 1,
        forall|key: Seq<char>, sorted: Seq<usize>|
            #[trigger] in_date_order(ts, run_members(ts, nonzero, key), sorted) ==> run_of_key_exact(
                ts,
                nonzero,
                key,
                sorted,
            ),
{
    let keys = run_keys(ts);
    let selected = run_selected(ts, nonzero);
    let n = ts.len() as int;
    lemma_group_keys_distinct(keys, selected, n);
    assert forall|i: int| 0 <= i < ts.len() && #[trigger] run_selected(ts, nonzero)[i] implies run_names(
        ts,
        nonzero,
    ).contains(run_keys(ts)[i]) by {
        lemma_key_is_grouped(keys, selected, n, i);
    }
    assert forall|g: int| 0 <= g < run_names(ts, nonzero).len() implies eligible_count(
        ts,
        nonzero,
        #[trigger] run_names(ts, nonzero)[g],
    ) >= 1 by {
        lemma_grouped_key_counted(ts, nonzero, run_names(ts, nonzero)[g], n);
    }
    assert forall|key: Seq<char>, sorted: Seq<usize>|
        #[trigger] in_date_order(ts, run_members(ts, nonzero, key), sorted) implies run_of_key_exact(
            ts,
            nonzero,
            key,
            sorted,
        ) by {
        lemma_run_of_key(ts, nonzero, key, sorted);
    }
}

} // verus!
