//! Stable orderings by lists of text fields, compared as `str` compares them.
//!
//! A sort key has a leading part, which may be compared in reverse, and a
//! trailing part that breaks ties in ascending order. Entries with equal keys
//! keep their relative order, as with a stable sort.
use vstd::prelude::*;
use crate::collections::{
    bytes_lt, bytes_less, lemma_bytes_lt_irreflexive, lemma_bytes_lt_total,
    lemma_bytes_lt_transitive, is_permutation_of_range, text_bytes,
};

verus! {

broadcast use vstd::string::group_string_axioms;

/// Lexicographic order on lists of byte strings.
pub open spec fn fields_lt(a: Seq<Seq<u8>>, b: Seq<Seq<u8>>) -> bool
    decreases a.len(),
{
    if a.len() == 0 {
        b.len() > 0
    } else if b.len() == 0 {
        false
    } else if a[0] != b[0] {
        bytes_lt(a[0], b[0])
    } else {
        fields_lt(a.drop_first(), b.drop_first())
    }
}

/// The bytes of each text field.
pub open spec fn field_bytes(fields: Seq<String>) -> Seq<Seq<u8>> {
    fields.map_values(|s: String| text_bytes(s))
}

/// A sort key: the leading fields, then the tie-breaking fields.
pub type SortKey = (Seq<Seq<u8>>, Seq<Seq<u8>>);

/// The key of an entry of leading and trailing text fields.
pub open spec fn sort_key_of(entry: (Vec<String>, Vec<String>)) -> SortKey {
    (field_bytes(entry.0@), field_bytes(entry.1@))
}

/// `a` orders before `b`: by the leading fields (reversed when `descending`),
/// then by the trailing fields.
pub open spec fn key_before(a: SortKey, b: SortKey, descending: bool) -> bool {
    if a.0 != b.0 {
        if descending {
            fields_lt(b.0, a.0)
        } else {
            fields_lt(a.0, b.0)
        }
    } else {
        fields_lt(a.1, b.1)
    }
}

/// Entry `i` goes before entry `j`: a smaller key, or an equal key and `i < j`.
pub open spec fn entry_precedes(keys: Seq<SortKey>, descending: bool, i: int, j: int) -> bool {
    key_before(keys[i], keys[j], descending) || (keys[i] == keys[j] && i < j)
}

/// The positions in `p` list the entries in the order `entry_precedes` gives.
pub open spec fn ordered_by_keys(keys: Seq<SortKey>, descending: bool, p: Seq<usize>) -> bool {
    forall|a: int, b: int|
        0 <= a < b < p.len() ==> entry_precedes(keys, descending, p[a] as int, p[b] as int)
}

pub proof fn lemma_fields_lt_irreflexive(a: Seq<Seq<u8>>)
    ensures
        !fields_lt(a, a),
    decreases a.len(),
{
    if a.len() > 0 {
        lemma_fields_lt_irreflexive(a.drop_first());
    }
}

pub proof fn lemma_fields_lt_total(a: Seq<Seq<u8>>, b: Seq<Seq<u8>>)
    ensures
        a != b ==> fields_lt(a, b) || fields_lt(b, a),
        !(fields_lt(a, b) && fields_lt(b, a)),
    decreases a.len(),
{
    if a.len() > 0 && b.len() > 0 {
        lemma_bytes_lt_total(a[0], b[0]);
        lemma_fields_lt_total(a.drop_first(), b.drop_first());
        if a[0] == b[0] && a.drop_first() == b.drop_first() {
            assert(a == seq![a[0]] + a.drop_first());
            assert(b == seq![b[0]] + b.drop_first());
        }
    } else if a.len() == 0 && b.len() == 0 {
        assert(a == b);
    }
}

pub proof fn lemma_fields_lt_transitive(a: Seq<Seq<u8>>, b: Seq<Seq<u8>>, c: Seq<Seq<u8>>)
    requires
        fields_lt(a, b),
        fields_lt(b, c),
    ensures
        fields_lt(a, c),
    decreases a.len(),
{
    if a.len() > 0 && b.len() > 0 && c.len() > 0 {
        if a[0] == b[0] && b[0] == c[0] {
            lemma_fields_lt_transitive(a.drop_first(), b.drop_first(), c.drop_first());
        } else if a[0] != b[0] && b[0] != c[0] {
            lemma_bytes_lt_transitive(a[0], b[0], c[0]);
            lemma_bytes_lt_irreflexive(a[0]);
        }
    }
}

proof fn lemma_key_order(a: SortKey, b: SortKey, c: SortKey, descending: bool)
    ensures
        !key_before(a, a, descending),
        a != b ==> key_before(a, b, descending) || key_before(b, a, descending),
        !(key_before(a, b, descending) && key_before(b, a, descending)),
        key_before(a, b, descending) && key_before(b, c, descending) ==> key_before(
            a,
            c,
            descending,
        ),
{
    lemma_fields_lt_irreflexive(a.1);
    lemma_fields_lt_total(a.0, b.0);
    lemma_fields_lt_total(a.1, b.1);
    lemma_fields_lt_total(b.0, c.0);
    lemma_fields_lt_total(a.0, c.0);
    if a.0 == b.0 && a.1 == b.1 {
        assert(a == b);
    }
    if key_before(a, b, descending) && key_before(b, c, descending) {
        if a.0 == b.0 && b.0 == c.0 {
            lemma_fields_lt_transitive(a.1, b.1, c.1);
        } else if descending {
            if a.0 != b.0 && b.0 != c.0 {
                lemma_fields_lt_transitive(c.0, b.0, a.0);
                lemma_fields_lt_irreflexive(a.0);
            }
        } else {
            if a.0 != b.0 && b.0 != c.0 {
                lemma_fields_lt_transitive(a.0, b.0, c.0);
                lemma_fields_lt_irreflexive(a.0);
            }
        }
    }
}

proof fn lemma_entry_order(keys: Seq<SortKey>, descending: bool, i: int, j: int, k: int)
    ensures
        !entry_precedes(keys, descending, i, i),
        i != j ==> entry_precedes(keys, descending, i, j) || entry_precedes(keys, descending, j, i),
        !(entry_precedes(keys, descending, i, j) && entry_precedes(keys, descending, j, i)),
        entry_precedes(keys, descending, i, j) && entry_precedes(keys, descending, j, k)
            ==> entry_precedes(keys, descending, i, k),
{
    lemma_key_order(keys[i], keys[j], keys[k], descending);
    lemma_key_order(keys[j], keys[i], keys[k], descending);
    lemma_key_order(keys[i], keys[k], keys[j], descending);
    lemma_key_order(keys[k], keys[j], keys[i], descending);
    lemma_key_order(keys[j], keys[k], keys[i], descending);
}

fn same_bytes(a: &[u8], b: &[u8]) -> (r: bool)
    ensures
        r == (a@ == b@),
{
    proof {
        lemma_bytes_lt_total(a@, b@);
        lemma_bytes_lt_irreflexive(a@);
    }
    !bytes_less(a, b) && !bytes_less(b, a)
}

/// `a` orders before `b` field by field.
pub fn fields_less(a: &Vec<String>, b: &Vec<String>) -> (r: bool)
    ensures
        r == fields_lt(field_bytes(a@), field_bytes(b@)),
{
    let ghost fa = field_bytes(a@);
    let ghost fb = field_bytes(b@);
    let mut i: usize = 0;
    assert(fa.skip(0) == fa);
    assert(fb.skip(0) == fb);
    while i < a.len() && i < b.len() && same_bytes(a[i].as_str().as_bytes(), b[i].as_str().as_bytes())
        invariant
            i <= a.len(),
            i <= b.len(),
            fa == field_bytes(a@),
            fb == field_bytes(b@),
            fields_lt(fa, fb) == fields_lt(fa.skip(i as int), fb.skip(i as int)),
        decreases a.len() - i,
    {
        assert(fa.skip(i as int).drop_first() == fa.skip(i + 1));
        assert(fb.skip(i as int).drop_first() == fb.skip(i + 1));
        i += 1;
    }
    if i < a.len() && i < b.len() {
        assert(fa.skip(i as int)[0] == fa[i as int]);
        assert(fb.skip(i as int)[0] == fb[i as int]);
        bytes_less(a[i].as_str().as_bytes(), b[i].as_str().as_bytes())
    } else {
        i >= a.len() && i < b.len()
    }
}

fn same_fields(a: &Vec<String>, b: &Vec<String>) -> (r: bool)
    ensures
        r == (field_bytes(a@) == field_bytes(b@)),
{
    proof {
        lemma_fields_lt_total(field_bytes(a@), field_bytes(b@));
        lemma_fields_lt_irreflexive(field_bytes(a@));
    }
    !fields_less(a, b) && !fields_less(b, a)
}

fn key_less(a: &(Vec<String>, Vec<String>), b: &(Vec<String>, Vec<String>), descending: bool) -> (r:
    bool)
    ensures
        r == key_before(sort_key_of(*a), sort_key_of(*b), descending),
{
    if !same_fields(&a.0, &b.0) {
        if descending {
            fields_less(&b.0, &a.0)
        } else {
            fields_less(&a.0, &b.0)
        }
    } else {
        fields_less(&a.1, &b.1)
    }
}

/// The keys of a list of entries.
pub open spec fn keys_of(entries: Seq<(Vec<String>, Vec<String>)>) -> Seq<SortKey> {
    entries.map_values(|e: (Vec<String>, Vec<String>)| sort_key_of(e))
}

fn precedes(entries: &Vec<(Vec<String>, Vec<String>)>, descending: bool, i: usize, j: usize) -> (r:
    bool)
    requires
        i < entries.len(),
        j < entries.len(),
    ensures
        r == entry_precedes(keys_of(entries@), descending, i as int, j as int),
{
    let before = key_less(&entries[i], &entries[j], descending);
    if before {
        return true;
    }
    let equal = same_fields(&entries[i].0, &entries[j].0) && same_fields(&entries[i].1, &entries[j].1);
    equal && i < j
}

/// The positions of the entries in the order a stable sort by key gives: by
/// the leading fields (largest first when `descending`), then by the trailing
/// fields; entries with equal keys keep their order.
pub fn order_by_fields(entries: &Vec<(Vec<String>, Vec<String>)>, descending: bool) -> (r: Vec<usize>)
    ensures
        is_permutation_of_range(r@, entries.len() as int),
        ordered_by_keys(keys_of(entries@), descending, r@),
{
    let ghost keys = keys_of(entries@);
    let mut order: Vec<usize> = Vec::new();
    let mut i: usize = 0;
    while i < entries.len()
        invariant
            keys == keys_of(entries@),
            i <= entries.len(),
            order.len() == i,
            order@.no_duplicates(),
            forall|k: int| 0 <= k < order.len() ==> order@[k] < i,
            ordered_by_keys(keys, descending, order@),
        decreases entries.len() - i,
    {
        let mut pos: usize = 0;
        while pos < order.len() && !precedes(entries, descending, i, order[pos])
            invariant
                keys == keys_of(entries@),
                pos <= order.len(),
                i < entries.len(),
                forall|k: int| 0 <= k < order.len() ==> order@[k] < i,
                forall|k: int|
                    0 <= k < pos ==> !entry_precedes(keys, descending, i as int, order@[k] as int),
            decreases order.len() - pos,
        {
            pos += 1;
        }
        let ghost before = order@;
        order.insert(pos, i);
        proof {
            assert(order@ == before.take(pos as int).push(i) + before.skip(pos as int));
            assert forall|k: int| 0 <= k < pos implies entry_precedes(
                keys,
                descending,
                before[k] as int,
                i as int,
            ) by {
                lemma_entry_order(keys, descending, i as int, before[k] as int, i as int);
            }
            assert forall|k: int| pos <= k < before.len() implies entry_precedes(
                keys,
                descending,
                i as int,
                before[k] as int,
            ) by {
                lemma_entry_order(
                    keys,
                    descending,
                    i as int,
                    before[pos as int] as int,
                    before[k] as int,
                );
                if k > pos {
                    assert(entry_precedes(keys, descending, before[pos as int] as int, before[k] as int));
                }
            }
            assert forall|a: int, b: int| 0 <= a < b < order@.len() implies entry_precedes(
                keys,
                descending,
                order@[a] as int,
                order@[b] as int,
            ) by {
                if b < pos {
                    assert(order@[a] == before[a] && order@[b] == before[b]);
                } else if b == pos {
                    assert(order@[a] == before[a]);
                } else if a < pos {
                    assert(order@[a] == before[a] && order@[b] == before[b - 1]);
                    lemma_entry_order(
                        keys,
                        descending,
                        before[a] as int,
                        i as int,
                        before[b - 1] as int,
                    );
                } else if a == pos {
                    assert(order@[b] == before[b - 1]);
                } else {
                    assert(order@[a] == before[a - 1] && order@[b] == before[b - 1]);
                }
            }
            assert forall|a: int, b: int| 0 <= a < b < order@.len() implies order@[a] != order@[b] by {
                lemma_entry_order(
                    keys,
                    descending,
                    order@[a] as int,
                    order@[b] as int,
                    order@[b] as int,
                );
            }
        }
        i += 1;
    }
    order
}

} // verus!
