//! Grouping by key in order of first appearance, and stable ordering by key.
use vstd::prelude::*;
use crate::text::str_eq;

verus! {

broadcast use vstd::string::group_string_axioms;

pub open spec fn key_views(keys: Seq<String>) -> Seq<Seq<char>> {
    Seq::new(keys.len(), |i: int| keys[i]@)
}

/// The distinct keys of the included entries among the first `m`, in order of
/// first appearance.
pub open spec fn group_keys_upto(keys: Seq<Seq<char>>, selected: Seq<bool>, m: int) -> Seq<Seq<char>>
    decreases m,
{
    if m <= 0 {
        Seq::empty()
    } else {
        let prev = group_keys_upto(keys, selected, m - 1);
        if selected[m - 1] && !prev.contains(keys[m - 1]) {
            prev.push(keys[m - 1])
        } else {
            prev
        }
    }
}

/// The included entries among the first `m` whose key is `key`, in order.
pub open spec fn members_upto(keys: Seq<Seq<char>>, selected: Seq<bool>, key: Seq<char>, m: int) -> Seq<
    usize,
>
    decreases m,
{
    if m <= 0 {
        Seq::empty()
    } else {
        let prev = members_upto(keys, selected, key, m - 1);
        if selected[m - 1] && keys[m - 1] == key {
            prev.push((m - 1) as usize)
        } else {
            prev
        }
    }
}

fn contains_key(group_keys: &Vec<String>, key: &String) -> (r: bool)
    ensures
        r == key_views(group_keys@).contains(key@),
{
    let mut i: usize = 0;
    while i < group_keys.len()
        invariant
            i <= group_keys.len(),
            forall|k: int| 0 <= k < i ==> group_keys@[k]@ != key@,
        decreases group_keys.len() - i,
    {
        if str_eq(group_keys[i].as_str(), key.as_str()) {
            assert(key_views(group_keys@)[i as int] == key@);
            return true;
        }
        i += 1;
    }
    false
}

fn members_of(keys: &Vec<String>, selected: &Vec<bool>, key: &String) -> (r: Vec<usize>)
    requires
        keys.len() == selected.len(),
    ensures
        r@ == members_upto(key_views(keys@), selected@, key@, keys.len() as int),
{
    let mut out: Vec<usize> = Vec::new();
    let mut i: usize = 0;
    while i < keys.len()
        invariant
            i <= keys.len() == selected.len(),
            out@ == members_upto(key_views(keys@), selected@, key@, i as int),
        decreases keys.len() - i,
    {
        if selected[i] && str_eq(keys[i].as_str(), key.as_str()) {
            out.push(i);
        }
        i += 1;
    }
    out
}

/// Groups the included entries by key: one group per distinct key, in order of
/// first appearance, each listing the positions of its entries in order.
pub fn group_by_key(keys: &Vec<String>, selected: &Vec<bool>) -> (r: Vec<(String, Vec<usize>)>)
    requires
        keys.len() == selected.len(),
    ensures
        r.len() == group_keys_upto(key_views(keys@), selected@, keys.len() as int).len(),
        forall|g: int|
            0 <= g < r.len() ==> (#[trigger] r[g]).0@ == group_keys_upto(
                key_views(keys@),
                selected@,
                keys.len() as int,
            )[g] && r[g].1@ == members_upto(key_views(keys@), selected@, r[g].0@, keys.len() as int),
{
    let ghost kv = key_views(keys@);
    let mut group_keys: Vec<String> = Vec::new();
    let mut i: usize = 0;
    while i < keys.len()
        invariant
            i <= keys.len() == selected.len(),
            kv == key_views(keys@),
            key_views(group_keys@) == group_keys_upto(kv, selected@, i as int),
        decreases keys.len() - i,
    {
        if selected[i] && !contains_key(&group_keys, &keys[i]) {
            let k = keys[i].clone();
            group_keys.push(k);
            assert(key_views(group_keys@) =~= group_keys_upto(kv, selected@, i + 1));
        }
        i += 1;
    }
    let ghost gk = group_keys_upto(kv, selected@, keys.len() as int);
    let mut out: Vec<(String, Vec<usize>)> = Vec::new();
    let mut g: usize = 0;
    while g < group_keys.len()
        invariant
            g <= group_keys.len(),
            keys.len() == selected.len(),
            kv == key_views(keys@),
            key_views(group_keys@) == gk,
            gk == group_keys_upto(kv, selected@, keys.len() as int),
            out.len() == g,
            forall|h: int|
                0 <= h < g ==> (#[trigger] out[h]).0@ == gk[h] && out[h].1@ == members_upto(
                    kv,
                    selected@,
                    out[h].0@,
                    keys.len() as int,
                ),
        decreases group_keys.len() - g,
    {
        let members = members_of(keys, selected, &group_keys[g]);
        let k = group_keys[g].clone();
        assert(k@ == gk[g as int]);
        out.push((k, members));
        g += 1;
    }
    out
}

/// The group keys are distinct.
pub proof fn lemma_group_keys_distinct(keys: Seq<Seq<char>>, selected: Seq<bool>, m: int)
    ensures
        group_keys_upto(keys, selected, m).no_duplicates(),
    decreases m,
{
    if m > 0 {
        lemma_group_keys_distinct(keys, selected, m - 1);
    }
}

/// Every included key among the first `m` is a group key.
pub proof fn lemma_key_is_grouped(keys: Seq<Seq<char>>, selected: Seq<bool>, m: int, i: int)
    requires
        0 <= i < m,
        selected[i],
    ensures
        group_keys_upto(keys, selected, m).contains(keys[i]),
    decreases m,
{
    let prev = group_keys_upto(keys, selected, m - 1);
    if i < m - 1 {
        lemma_key_is_grouped(keys, selected, m - 1, i);
        let k = choose|k: int| 0 <= k < prev.len() && prev[k] == keys[i];
        if selected[m - 1] && !prev.contains(keys[m - 1]) {
            assert(prev.push(keys[m - 1])[k] == keys[i]);
        }
    } else if prev.contains(keys[i]) {
    } else {
        assert(group_keys_upto(keys, selected, m)[prev.len() as int] == keys[i]);
    }
}

/// An entry is a member of group `key` exactly when it is included and has
/// that key; members are listed once each, in increasing order.
pub proof fn lemma_members_exact(keys: Seq<Seq<char>>, selected: Seq<bool>, key: Seq<char>, m: int)
    requires
        0 <= m <= usize::MAX,
    ensures
        forall|i: int|
            0 <= i < m ==> (members_upto(keys, selected, key, m).contains(i as usize) <==> (selected[i]
                && keys[i] == key)),
        forall|a: int, b: int|
            0 <= a < b < members_upto(keys, selected, key, m).len() ==> members_upto(
                keys,
                selected,
                key,
                m,
            )[a] < members_upto(keys, selected, key, m)[b],
        forall|a: int|
            0 <= a < members_upto(keys, selected, key, m).len() ==> members_upto(
                keys,
                selected,
                key,
                m,
            )[a] < m,
    decreases m,
{
    if m > 0 {
        lemma_members_exact(keys, selected, key, m - 1);
        let prev = members_upto(keys, selected, key, m - 1);
        let cur = members_upto(keys, selected, key, m);
        assert(((m - 1) as usize) as int == m - 1);
        assert forall|i: int| 0 <= i < m implies (cur.contains(i as usize) <==> (selected[i] && keys[i] == key)) by {
            if selected[m - 1] && keys[m - 1] == key {
                assert(cur == prev.push((m - 1) as usize));
                if i < m - 1 {
                    if cur.contains(i as usize) {
                        let k = choose|k: int| 0 <= k < cur.len() && cur[k] == i as usize;
                        if k < prev.len() {
                            assert(prev[k] == i as usize);
                        }
                    }
                    if prev.contains(i as usize) {
                        let k = choose|k: int| 0 <= k < prev.len() && prev[k] == i as usize;
                        assert(cur[k] == i as usize);
                    }
                } else {
                    assert(cur[prev.len() as int] == (m - 1) as usize);
                }
            } else {
                if i == m - 1 && cur.contains(i as usize) {
                    let k = choose|k: int| 0 <= k < cur.len() && cur[k] == i as usize;
                    assert(prev[k] < m - 1);
                }
            }
        }
        assert forall|a: int, b: int| 0 <= a < b < cur.len() implies cur[a] < cur[b] by {
            if selected[m - 1] && keys[m - 1] == key && b == prev.len() {
                assert(prev[a] < m - 1);
            }
        }
    }
}

// ----- stable ordering -----
/// Lexicographic order on byte strings, as `str` and `String` compare.
pub open spec fn bytes_lt(a: Seq<u8>, b: Seq<u8>) -> bool
    decreases a.len(),
{
    if a.len() == 0 {
        b.len() > 0
    } else if b.len() == 0 {
        false
    } else if a[0] != b[0] {
        a[0] < b[0]
    } else {
        bytes_lt(a.drop_first(), b.drop_first())
    }
}

pub proof fn lemma_bytes_lt_irreflexive(a: Seq<u8>)
    ensures
        !bytes_lt(a, a),
    decreases a.len(),
{
    if a.len() > 0 {
        lemma_bytes_lt_irreflexive(a.drop_first());
    }
}

pub proof fn lemma_bytes_lt_total(a: Seq<u8>, b: Seq<u8>)
    ensures
        a != b ==> bytes_lt(a, b) || bytes_lt(b, a),
        !(bytes_lt(a, b) && bytes_lt(b, a)),
    decreases a.len(),
{
    if a.len() > 0 && b.len() > 0 {
        lemma_bytes_lt_total(a.drop_first(), b.drop_first());
        if a[0] == b[0] && a.drop_first() == b.drop_first() {
            assert(a == seq![a[0]] + a.drop_first());
            assert(b == seq![b[0]] + b.drop_first());
        }
    } else if a.len() == 0 && b.len() == 0 {
        assert(a == b);
    }
}

pub proof fn lemma_bytes_lt_transitive(a: Seq<u8>, b: Seq<u8>, c: Seq<u8>)
    requires
        bytes_lt(a, b),
        bytes_lt(b, c),
    ensures
        bytes_lt(a, c),
    decreases a.len(),
{
    if a.len() > 0 && b.len() > 0 && c.len() > 0 && a[0] == b[0] && b[0] == c[0] {
        lemma_bytes_lt_transitive(a.drop_first(), b.drop_first(), c.drop_first());
    }
}

pub open spec fn text_bytes(s: String) -> Seq<u8> {
    vstd::utf8::encode_utf8(s@)
}

/// The order of `(u8, String)` keys: by the number, then by the text's bytes.
pub open spec fn key_lt(a: (u8, String), b: (u8, String)) -> bool {
    a.0 < b.0 || (a.0 == b.0 && bytes_lt(text_bytes(a.1), text_bytes(b.1)))
}

/// Entry `i` goes before entry `j`: smaller key, or equal keys and `i < j`.
pub open spec fn entry_before(keys: Seq<(u8, String)>, i: int, j: int) -> bool {
    key_lt(keys[i], keys[j]) || (!key_lt(keys[j], keys[i]) && i < j)
}

proof fn lemma_entry_order(keys: Seq<(u8, String)>, i: int, j: int, k: int)
    ensures
        !entry_before(keys, i, i),
        i != j ==> entry_before(keys, i, j) || entry_before(keys, j, i),
        !(entry_before(keys, i, j) && entry_before(keys, j, i)),
        entry_before(keys, i, j) && entry_before(keys, j, k) ==> entry_before(keys, i, k),
{
    let (ai, bi, ci) = (text_bytes(keys[i].1), text_bytes(keys[j].1), text_bytes(keys[k].1));
    lemma_bytes_lt_irreflexive(ai);
    lemma_bytes_lt_total(ai, bi);
    lemma_bytes_lt_total(bi, ci);
    lemma_bytes_lt_total(ai, ci);
    if bytes_lt(ai, bi) && bytes_lt(bi, ci) {
        lemma_bytes_lt_transitive(ai, bi, ci);
    }
    if bytes_lt(ci, bi) && bytes_lt(bi, ai) {
        lemma_bytes_lt_transitive(ci, bi, ai);
    }
}

pub fn bytes_less(a: &[u8], b: &[u8]) -> (r: bool)
    ensures
        r == bytes_lt(a@, b@),
{
    let mut i: usize = 0;
    assert(a@.skip(0) == a@);
    assert(b@.skip(0) == b@);
    while i < a.len() && i < b.len() && a[i] == b[i]
        invariant
            i <= a.len(),
            i <= b.len(),
            bytes_lt(a@, b@) == bytes_lt(a@.skip(i as int), b@.skip(i as int)),
        decreases a.len() - i,
    {
        assert(a@.skip(i as int).drop_first() == a@.skip(i + 1));
        assert(b@.skip(i as int).drop_first() == b@.skip(i + 1));
        i += 1;
    }
    if i < a.len() && i < b.len() {
        a[i] < b[i]
    } else {
        i >= a.len() && i < b.len()
    }
}

fn entry_less(keys: &Vec<(u8, String)>, i: usize, j: usize) -> (r: bool)
    requires
        i < keys.len(),
        j < keys.len(),
    ensures
        r == entry_before(keys@, i as int, j as int),
{
    let a = &keys[i];
    let b = &keys[j];
    let ab = a.1.as_str().as_bytes();
    let bb = b.1.as_str().as_bytes();
    let a_lt_b = a.0 < b.0 || (a.0 == b.0 && bytes_less(ab, bb));
    let b_lt_a = b.0 < a.0 || (a.0 == b.0 && bytes_less(bb, ab));
    a_lt_b || (!b_lt_a && i < j)
}

pub open spec fn ordered_by_entries(keys: Seq<(u8, String)>, p: Seq<usize>) -> bool {
    forall|a: int, b: int| 0 <= a < b < p.len() ==> entry_before(keys, p[a] as int, p[b] as int)
}

pub open spec fn is_permutation_of_range(p: Seq<usize>, n: int) -> bool {
    &&& p.len() == n
    &&& p.no_duplicates()
    &&& forall|k: int| 0 <= k < p.len() ==> p[k] < n
}

/// The positions of the entries ordered by key, entries with equal keys keeping
/// their order: the order a stable sort by key gives.
pub fn stable_order(keys: &Vec<(u8, String)>) -> (r: Vec<usize>)
    ensures
        is_permutation_of_range(r@, keys.len() as int),
        ordered_by_entries(keys@, r@),
{
    let mut order: Vec<usize> = Vec::new();
    let mut i: usize = 0;
    while i < keys.len()
        invariant
            i <= keys.len(),
            order.len() == i,
            order@.no_duplicates(),
            forall|k: int| 0 <= k < order.len() ==> order@[k] < i,
            ordered_by_entries(keys@, order@),
        decreases keys.len() - i,
    {
        let mut pos: usize = 0;
        while pos < order.len() && !entry_less(keys, i, order[pos])
            invariant
                pos <= order.len(),
                i < keys.len(),
                forall|k: int| 0 <= k < order.len() ==> order@[k] < i,
                forall|k: int| 0 <= k < pos ==> !entry_before(keys@, i as int, order@[k] as int),
            decreases order.len() - pos,
        {
            pos += 1;
        }
        let ghost before = order@;
        order.insert(pos, i);
        proof {
            assert(order@ == before.take(pos as int).push(i) + before.skip(pos as int));
            assert forall|k: int| 0 <= k < pos implies entry_before(keys@, before[k] as int, i as int) by {
                lemma_entry_order(keys@, i as int, before[k] as int, i as int);
            }
            assert forall|k: int| pos <= k < before.len() implies entry_before(keys@, i as int, before[k] as int) by {
                lemma_entry_order(keys@, i as int, before[pos as int] as int, before[k] as int);
                if k > pos {
                    assert(entry_before(keys@, before[pos as int] as int, before[k] as int));
                }
            }
            assert forall|a: int, b: int| 0 <= a < b < order@.len() implies entry_before(
                keys@,
                order@[a] as int,
                order@[b] as int,
            ) by {
                if b < pos {
                    assert(order@[a] == before[a] && order@[b] == before[b]);
                } else if b == pos {
                    assert(order@[a] == before[a]);
                } else if a < pos {
                    assert(order@[a] == before[a] && order@[b] == before[b - 1]);
                    lemma_entry_order(keys@, before[a] as int, i as int, before[b - 1] as int);
                } else if a == pos {
                    assert(order@[b] == before[b - 1]);
                } else {
                    assert(order@[a] == before[a - 1] && order@[b] == before[b - 1]);
                }
            }
            assert forall|a: int, b: int| 0 <= a < b < order@.len() implies order@[a] != order@[b] by {
                lemma_entry_order(keys@, order@[a] as int, order@[b] as int, order@[b] as int);
            }
        }
        i += 1;
    }
    order
}

} // verus!
