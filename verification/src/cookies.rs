//! Reading one cookie out of a browser's `document.cookie` text.
use vstd::prelude::*;
use crate::text::{chars_of, string_of, str_eq};
use crate::names::{spec_trim, trim, to_lowercase, unicode_lowercase_str};

verus! {

broadcast use vstd::string::group_string_axioms;

/// `s` cut at every `sep`, as `str::split` cuts it.
pub open spec fn split_on(s: Seq<char>, sep: char) -> Seq<Seq<char>>
    decreases s.len(),
{
    if s.len() == 0 {
        seq![Seq::empty()]
    } else {
        let rest = split_on(s.drop_last(), sep);
        if s.last() == sep {
            rest.push(Seq::empty())
        } else {
            rest.update(rest.len() - 1, rest.last().push(s.last()))
        }
    }
}

proof fn lemma_split_on_nonempty(s: Seq<char>, sep: char)
    ensures
        split_on(s, sep).len() >= 1,
    decreases s.len(),
{
    if s.len() > 0 {
        lemma_split_on_nonempty(s.drop_last(), sep);
    }
}

/// Position of the first `c` in `s`.
pub open spec fn first_index(s: Seq<char>, c: char, i: int) -> Option<int>
    decreases s.len() - i,
{
    if i < 0 || i >= s.len() {
        None
    } else if s[i] == c {
        Some(i)
    } else {
        first_index(s, c, i + 1)
    }
}

proof fn lemma_first_index_bounds(s: Seq<char>, c: char, i: int)
    ensures
        first_index(s, c, i) matches Some(k) ==> 0 <= i <= k < s.len(),
    decreases s.len() - i,
{
    if 0 <= i < s.len() && s[i] != c {
        lemma_first_index_bounds(s, c, i + 1);
    }
}

/// A cookie's name and value: the trimmed text around its first `=`.
pub open spec fn cookie_pair(segment: Seq<char>) -> Option<(Seq<char>, Seq<char>)> {
    let t = spec_trim(segment);
    match first_index(t, '=', 0) {
        Some(k) => Some((t.subrange(0, k), t.subrange(k + 1, t.len() as int))),
        None => None,
    }
}

/// The value of the first cookie named `name` among `segments[i..]`, trimmed
/// and lowercased.
pub open spec fn first_cookie(segments: Seq<Seq<char>>, name: Seq<char>, i: int) -> Option<Seq<char>>
    decreases segments.len() - i,
{
    if i < 0 || i >= segments.len() {
        None
    } else {
        match cookie_pair(segments[i]) {
            Some(pair) => if pair.0 == name {
                Some(unicode_lowercase_str(spec_trim(pair.1)))
            } else {
                first_cookie(segments, name, i + 1)
            },
            None => first_cookie(segments, name, i + 1),
        }
    }
}

pub open spec fn spec_cookie_value(cookies: Seq<char>, name: Seq<char>) -> Option<Seq<char>> {
    first_cookie(split_on(cookies, ';'), name, 0)
}

fn split_segments(s: &str) -> (r: Vec<String>)
    ensures
        r@.map_values(|x: String| x@) == split_on(s@, ';'),
{
    let chars = chars_of(s);
    let mut done: Vec<String> = Vec::new();
    let mut current: Vec<char> = Vec::new();
    let mut i: usize = 0;
    while i < chars.len()
        invariant
            i <= chars.len(),
            chars@ == s@,
            done@.map_values(|x: String| x@).push(current@) == split_on(chars@.take(i as int), ';'),
        decreases chars.len() - i,
    {
        let ghost before = chars@.take(i as int);
        assert(chars@.take(i + 1).drop_last() == before);
        assert(chars@.take(i + 1).last() == chars@[i as int]);
        proof {
            lemma_split_on_nonempty(before, ';');
        }
        if chars[i] == ';' {
            let segment = string_of(&current);
            done.push(segment);
            current = Vec::new();
            assert(done@.map_values(|x: String| x@).push(current@) =~= split_on(before, ';').push(
                Seq::empty(),
            ));
        } else {
            let ghost old_current = current@;
            current.push(chars[i]);
            assert(done@.map_values(|x: String| x@).push(current@) =~= split_on(before, ';').update(
                split_on(before, ';').len() - 1,
                old_current.push(chars@[i as int]),
            ));
        }
        i += 1;
    }
    assert(chars@.take(chars.len() as int) == chars@);
    let last = string_of(&current);
    done.push(last);
    assert(done@.map_values(|x: String| x@) =~= split_on(s@, ';'));
    done
}

fn find_equals(t: &Vec<char>) -> (r: Option<usize>)
    ensures
        match first_index(t@, '=', 0) {
            Some(k) => r == Some(k as usize) && 0 <= k < t.len(),
            None => r is None,
        },
{
    proof {
        lemma_first_index_bounds(t@, '=', 0);
    }
    let mut i: usize = 0;
    while i < t.len()
        invariant
            i <= t.len(),
            first_index(t@, '=', 0) == first_index(t@, '=', i as int),
        decreases t.len() - i,
    {
        if t[i] == '=' {
            return Some(i);
        }
        i += 1;
    }
    None
}

fn slice_chars(t: &Vec<char>, start: usize, end: usize) -> (r: String)
    requires
        start <= end <= t.len(),
    ensures
        r@ == t@.subrange(start as int, end as int),
{
    let mut v: Vec<char> = Vec::new();
    let mut i: usize = start;
    while i < end
        invariant
            start <= i <= end <= t.len(),
            v@ == t@.subrange(start as int, i as int),
        decreases end - i,
    {
        v.push(t[i]);
        i += 1;
        assert(v@ =~= t@.subrange(start as int, i as int));
    }
    string_of(&v)
}

/// The value of the first cookie named `name` in a `document.cookie` text
/// (`name=value` pairs separated by `;`), trimmed and lowercased.
pub fn cookie_value(cookies: &str, name: &str) -> (r: Option<String>)
    ensures
        match spec_cookie_value(cookies@, name@) {
            Some(v) => r matches Some(s) && s@ == v,
            None => r is None,
        },
{
    let segments = split_segments(cookies);
    let ghost views = segments@.map_values(|x: String| x@);
    let mut i: usize = 0;
    while i < segments.len()
        invariant
            i <= segments.len(),
            views == segments@.map_values(|x: String| x@),
            views == split_on(cookies@, ';'),
            first_cookie(views, name@, 0) == first_cookie(views, name@, i as int),
        decreases segments.len() - i,
    {
        let t = chars_of(trim(segments[i].as_str()).as_str());
        assert(views[i as int] == segments@[i as int]@);
        match find_equals(&t) {
            Some(k) => {
                let key = slice_chars(&t, 0, k);
                if str_eq(key.as_str(), name) {
                    let value = slice_chars(&t, k + 1, t.len());
                    let trimmed = trim(value.as_str());
                    return Some(to_lowercase(trimmed.as_str()));
                }
            },
            None => {},
        }
        i += 1;
    }
    None
}

} // verus!
