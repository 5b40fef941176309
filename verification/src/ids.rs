//! Identifiers for transactions entered by hand.
use vstd::prelude::*;
use crate::text::{decimal, push_decimal, string_of, str_eq, lemma_decimal_digits};
use crate::ledger::TransactionRecord;

verus! {

broadcast use vstd::string::group_string_axioms;

/// The id `manual-{k}`.
pub open spec fn manual_id(k: nat) -> Seq<char> {
    seq!['m', 'a', 'n', 'u', 'a', 'l', '-'] + decimal(k)
}

/// Some transaction carries the id `id`.
pub open spec fn id_taken(ts: Seq<TransactionRecord>, id: Seq<char>) -> bool {
    exists|i: int| 0 <= i < ts.len() && #[trigger] ts[i].id@ == id
}

/// The id given to a new hand-entered transaction: `manual-{k}` for the
/// first `k` from one past the number of transactions that no transaction
/// carries yet.
pub open spec fn is_next_manual_id(ts: Seq<TransactionRecord>, id: Seq<char>) -> bool {
    exists|k: nat|
        #![trigger manual_id(k)]
        {
            &&& k >= ts.len() + 1
            &&& id == manual_id(k)
            &&& !id_taken(ts, manual_id(k))
            &&& forall|j: nat| ts.len() + 1 <= j < k ==> id_taken(ts, #[trigger] manual_id(j))
        }
}

/// `ts[i]` carries some `manual-{j}` with `j >= k`.
spec fn carries_manual_at_least(ts: Seq<TransactionRecord>, i: int, k: nat) -> bool {
    exists|j: nat| j >= k && ts[i].id@ == #[trigger] manual_id(j)
}

/// How many of the first `n` transactions carry some `manual-{j}` with `j >= k`.
spec fn count_manual_at_least(ts: Seq<TransactionRecord>, n: int, k: nat) -> nat
    decreases n,
{
    if n <= 0 {
        0
    } else {
        count_manual_at_least(ts, n - 1, k) + if carries_manual_at_least(ts, n - 1, k) {
            1nat
        } else {
            0nat
        }
    }
}

proof fn lemma_manual_id_injective(a: nat, b: nat)
    requires
        manual_id(a) == manual_id(b),
    ensures
        a == b,
{
    assert(decimal(a) == manual_id(a).subrange(7, manual_id(a).len() as int));
    assert(decimal(b) == manual_id(b).subrange(7, manual_id(b).len() as int));
    lemma_decimal_digits(a);
    lemma_decimal_digits(b);
}

proof fn lemma_count_bounded(ts: Seq<TransactionRecord>, n: int, k: nat)
    requires
        0 <= n <= ts.len(),
    ensures
        count_manual_at_least(ts, n, k) <= n,
    decreases n,
{
    if n > 0 {
        lemma_count_bounded(ts, n - 1, k);
    }
}

/// Moving the threshold from `k` to `k + 1` drops every transaction that
/// carries exactly `manual-{k}`, and no other.
proof fn lemma_count_step(ts: Seq<TransactionRecord>, n: int, k: nat)
    requires
        0 <= n <= ts.len(),
    ensures
        count_manual_at_least(ts, n, k + 1) <= count_manual_at_least(ts, n, k),
        (exists|i: int| 0 <= i < n && #[trigger] ts[i].id@ == manual_id(k)) ==> count_manual_at_least(
            ts,
            n,
            k + 1,
        ) < count_manual_at_least(ts, n, k),
    decreases n,
{
    if n > 0 {
        lemma_count_step(ts, n - 1, k);
        let i = n - 1;
        if carries_manual_at_least(ts, i, (k + 1) as nat) {
            let j = choose|j: nat| j >= k + 1 && ts[i].id@ == #[trigger] manual_id(j);
            assert(carries_manual_at_least(ts, i, k));
            if ts[i].id@ == manual_id(k) {
                lemma_manual_id_injective(j, k);
            }
        }
        if ts[i].id@ == manual_id(k) {
            assert(carries_manual_at_least(ts, i, k));
        }
    }
}

/// A fresh id for a transaction entered by hand: `manual-{k}` for the first
/// `k` from one past the number of transactions that is not taken yet.
pub fn next_manual_transaction_id(transactions: &Vec<TransactionRecord>) -> (r: String)
    requires
        transactions.len() < 0x4000_0000_0000_0000,
    ensures
        is_next_manual_id(transactions@, r@),
{
    let ghost ts = transactions@;
    let len = transactions.len() as u64;
    let mut index: u64 = len + 1;
    proof {
        lemma_count_bounded(ts, ts.len() as int, index as nat);
    }
    loop
        invariant
            ts == transactions@,
            len == ts.len(),
            len + 1 <= index,
            index - (len + 1) + count_manual_at_least(ts, ts.len() as int, index as nat) <= len,
            len < 0x4000_0000_0000_0000,
            forall|j: nat| len + 1 <= j < index ==> id_taken(ts, #[trigger] manual_id(j)),
        decreases count_manual_at_least(ts, ts.len() as int, index as nat),
    {
        let mut chars: Vec<char> = vec!['m', 'a', 'n', 'u', 'a', 'l', '-'];
        push_decimal(&mut chars, index);
        let id = string_of(&chars);
        assert(id@ == manual_id(index as nat));
        let mut taken = false;
        let mut i: usize = 0;
        while i < transactions.len()
            invariant
                ts == transactions@,
                i <= ts.len(),
                taken == (exists|m: int| 0 <= m < i && #[trigger] ts[m].id@ == id@),
            decreases ts.len() - i,
        {
            if str_eq(transactions[i].id.as_str(), id.as_str()) {
                taken = true;
            }
            i += 1;
        }
        if !taken {
            proof {
                assert forall|m: int| 0 <= m < ts.len() implies #[trigger] ts[m].id@ != manual_id(
                    index as nat,
                ) by {}
                assert(is_next_manual_id(ts, id@)) by {
                    assert(id@ == manual_id(index as nat));
                }
            }
            return id;
        }
        proof {
            assert(id_taken(ts, manual_id(index as nat)));
            lemma_count_step(ts, ts.len() as int, index as nat);
            lemma_count_bounded(ts, ts.len() as int, (index + 1) as nat);
        }
        index = index + 1;
    }
}

} // verus!
