//! Reading a money amount as people type it: currency signs, spaces and
//! grouping marks dropped, and the last of `,` and `.` taken as the decimal
//! separator.
use vstd::prelude::*;
use crate::text::{chars_of, string_of};
use crate::names::{trim, spec_trim};

verus! {

broadcast use vstd::string::group_string_axioms;

/// Characters that carry no value in a typed amount.
pub open spec fn is_filler(c: char) -> bool {
    c == '$' || c == ' ' || c == '\u{a0}' || c == '_'
}

/// `s` without its filler characters.
pub open spec fn without_fillers(s: Seq<char>) -> Seq<char>
    decreases s.len(),
{
    if s.len() == 0 {
        Seq::empty()
    } else {
        without_fillers(s.drop_last()) + if is_filler(s.last()) {
            Seq::empty()
        } else {
            seq![s.last()]
        }
    }
}

/// `s` without any `d`.
pub open spec fn without_char(s: Seq<char>, d: char) -> Seq<char>
    decreases s.len(),
{
    if s.len() == 0 {
        Seq::empty()
    } else {
        without_char(s.drop_last(), d) + if s.last() == d {
            Seq::empty()
        } else {
            seq![s.last()]
        }
    }
}

/// `s` with every `from` replaced by `to`.
pub open spec fn replaced(s: Seq<char>, from: char, to: char) -> Seq<char> {
    s.map_values(|c: char| if c == from {
        to
    } else {
        c
    })
}

/// Position of the last `c` in `s`.
pub open spec fn last_index(s: Seq<char>, c: char) -> Option<int>
    decreases s.len(),
{
    if s.len() == 0 {
        None
    } else if s.last() == c {
        Some(s.len() - 1)
    } else {
        last_index(s.drop_last(), c)
    }
}

/// The number text of a typed amount, ready to be read as a decimal number:
/// `None` when nothing but white space was typed.
pub open spec fn spec_money_text(value: Seq<char>) -> Option<Seq<char>> {
    let trimmed = spec_trim(value);
    if trimmed.len() == 0 {
        None
    } else {
        let compact = without_fillers(trimmed);
        Some(
            match (last_index(compact, ','), last_index(compact, '.')) {
                (Some(comma), Some(dot)) => if comma > dot {
                    replaced(without_char(compact, '.'), ',', '.')
                } else {
                    without_char(compact, ',')
                },
                (Some(_), None) => replaced(compact, ',', '.'),
                _ => compact,
            },
        )
    }
}

fn drop_fillers(s: &Vec<char>) -> (r: Vec<char>)
    ensures
        r@ == without_fillers(s@),
{
    let mut out: Vec<char> = Vec::new();
    let mut i: usize = 0;
    while i < s.len()
        invariant
            i <= s.len(),
            out@ == without_fillers(s@.take(i as int)),
        decreases s.len() - i,
    {
        assert(s@.take(i + 1).drop_last() == s@.take(i as int));
        let c = s[i];
        if !(c == '$' || c == ' ' || c == '\u{a0}' || c == '_') {
            out.push(c);
        }
        i += 1;
        assert(out@ =~= without_fillers(s@.take(i as int)));
    }
    assert(s@.take(s.len() as int) == s@);
    out
}

fn drop_char(s: &Vec<char>, d: char) -> (r: Vec<char>)
    ensures
        r@ == without_char(s@, d),
{
    let mut out: Vec<char> = Vec::new();
    let mut i: usize = 0;
    while i < s.len()
        invariant
            i <= s.len(),
            out@ == without_char(s@.take(i as int), d),
        decreases s.len() - i,
    {
        assert(s@.take(i + 1).drop_last() == s@.take(i as int));
        if s[i] != d {
            out.push(s[i]);
        }
        i += 1;
        assert(out@ =~= without_char(s@.take(i as int), d));
    }
    assert(s@.take(s.len() as int) == s@);
    out
}

fn replace_char(s: &Vec<char>, from: char, to: char) -> (r: Vec<char>)
    ensures
        r@ == replaced(s@, from, to),
{
    let mut out: Vec<char> = Vec::new();
    let mut i: usize = 0;
    while i < s.len()
        invariant
            i <= s.len(),
            out@ == replaced(s@.take(i as int), from, to),
        decreases s.len() - i,
    {
        out.push(if s[i] == from {
            to
        } else {
            s[i]
        });
        i += 1;
        assert(out@ =~= replaced(s@.take(i as int), from, to));
    }
    assert(s@.take(s.len() as int) == s@);
    out
}

proof fn lemma_last_index_bounds(s: Seq<char>, c: char)
    ensures
        last_index(s, c) matches Some(k) ==> 0 <= k < s.len(),
    decreases s.len(),
{
    if s.len() > 0 && s.last() != c {
        lemma_last_index_bounds(s.drop_last(), c);
    }
}

fn find_last(s: &Vec<char>, c: char) -> (r: Option<usize>)
    ensures
        match last_index(s@, c) {
            Some(k) => r == Some(k as usize) && 0 <= k < s.len(),
            None => r is None,
        },
{
    proof {
        lemma_last_index_bounds(s@, c);
    }
    let mut i: usize = s.len();
    assert(s@.take(i as int) == s@);
    while i > 0
        invariant
            i <= s.len(),
            last_index(s@, c) == last_index(s@.take(i as int), c),
        decreases i,
    {
        assert(s@.take(i as int).drop_last() == s@.take(i - 1));
        if s[i - 1] == c {
            return Some(i - 1);
        }
        i -= 1;
    }
    None
}

/// The number text of a typed amount: trimmed; `$`, spaces, no-break spaces
/// and `_` dropped; then, when both `,` and `.` occur, the later one is the
/// decimal separator and the other is dropped, and a lone `,` is read as `.`.
/// `None` when nothing but white space was typed.
pub fn money_text(value: &str) -> (r: Option<String>)
    ensures
        match spec_money_text(value@) {
            Some(t) => r matches Some(s) && s@ == t,
            None => r is None,
        },
{
    let trimmed = trim(value);
    let chars = chars_of(trimmed.as_str());
    if chars.len() == 0 {
        return None;
    }
    let compact = drop_fillers(&chars);
    let comma = find_last(&compact, ',');
    let dot = find_last(&compact, '.');
    let normalized = match (comma, dot) {
        (Some(c), Some(d)) => if c > d {
            let no_dots = drop_char(&compact, '.');
            replace_char(&no_dots, ',', '.')
        } else {
            drop_char(&compact, ',')
        },
        (Some(_), None) => replace_char(&compact, ',', '.'),
        _ => compact,
    };
    Some(string_of(&normalized))
}

} // verus!
