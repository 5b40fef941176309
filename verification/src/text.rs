//! Character-level string helpers: conversion between `str` and character
//! vectors, equality, decimal formatting and parsing.
use vstd::prelude::*;

verus! {

broadcast use vstd::string::group_string_axioms;

/// `String::push` from std: appends one character.
#[verifier::external_body]
pub(crate) fn push_char(s: &mut String, c: char)
    ensures
        final(s)@ == old(s)@.push(c),
{
    s.push(c);
}

/// The characters of a string slice, in order.
pub fn chars_of(s: &str) -> (v: Vec<char>)
    ensures
        v@ == s@,
{
    let mut v: Vec<char> = Vec::new();
    for c in it: s.chars()
        invariant
            v@ == it.seq().take(it.index() as int),
            it.seq() == s@,
    {
        v.push(c);
    }
    v
}

/// A string holding the characters of `v`.
pub fn string_of(v: &Vec<char>) -> (s: String)
    ensures
        s@ == v@,
{
    let mut s = String::new();
    let mut i: usize = 0;
    while i < v.len()
        invariant
            i <= v.len(),
            s@ == v@.take(i as int),
        decreases v.len() - i,
    {
        push_char(&mut s, v[i]);
        i += 1;
        assert(v@.take(i as int) == v@.take(i - 1).push(v@[i - 1]));
    }
    assert(v@.take(v.len() as int) == v@);
    s
}

/// An owned copy of a string slice.
pub fn owned(s: &str) -> (r: String)
    ensures
        r@ == s@,
{
    s.to_string()
}

/// Appends every character of `t` to `v`.
pub fn extend_chars(v: &mut Vec<char>, t: &str)
    ensures
        final(v)@ == old(v)@ + t@,
{
    let cs = chars_of(t);
    let mut i: usize = 0;
    while i < cs.len()
        invariant
            i <= cs.len(),
            cs@ == t@,
            v@ == old(v)@ + cs@.take(i as int),
        decreases cs.len() - i,
    {
        v.push(cs[i]);
        i += 1;
        assert(cs@.take(i as int) == cs@.take(i - 1).push(cs@[i - 1]));
    }
    assert(cs@.take(cs.len() as int) == cs@);
}

/// Two string slices hold the same characters.
pub fn str_eq(a: &str, b: &str) -> (r: bool)
    ensures
        r == (a@ == b@),
{
    let x = a.as_bytes();
    let y = b.as_bytes();
    proof {
        vstd::utf8::encode_utf8_decode_utf8(a@);
        vstd::utf8::encode_utf8_decode_utf8(b@);
    }
    if x.len() != y.len() {
        assert(x@ != y@);
        return false;
    }
    let mut i: usize = 0;
    while i < x.len()
        invariant
            i <= x.len(),
            x.len() == y.len(),
            x@ == vstd::utf8::encode_utf8(a@),
            y@ == vstd::utf8::encode_utf8(b@),
            forall|k: int| 0 <= k < i ==> x@[k] == y@[k],
        decreases x.len() - i,
    {
        if x[i] != y[i] {
            assert(x@[i as int] != y@[i as int]);
            assert(x@ != y@);
            return false;
        }
        i += 1;
    }
    assert(x@ == y@);
    true
}

// ----- decimal digits -----
/// The character of a decimal digit.
pub open spec fn digit_char(d: int) -> char {
    if d == 0 {
        '0'
    } else if d == 1 {
        '1'
    } else if d == 2 {
        '2'
    } else if d == 3 {
        '3'
    } else if d == 4 {
        '4'
    } else if d == 5 {
        '5'
    } else if d == 6 {
        '6'
    } else if d == 7 {
        '7'
    } else if d == 8 {
        '8'
    } else {
        '9'
    }
}

pub open spec fn is_digit_char(c: char) -> bool {
    '0' <= c <= '9'
}

/// The value of a decimal digit character.
pub open spec fn char_digit(c: char) -> int {
    c as int - '0' as int
}

/// Shortest decimal representation of a natural number.
pub open spec fn decimal(n: nat) -> Seq<char>
    decreases n,
{
    if n < 10 {
        seq![digit_char(n as int)]
    } else {
        decimal(n / 10).push(digit_char((n % 10) as int))
    }
}

/// `count` zero characters.
pub open spec fn zeros(count: int) -> Seq<char> {
    Seq::new(if count > 0 {
        count as nat
    } else {
        0nat
    }, |i: int| '0')
}

/// A natural number padded on the left with zeros to at least `width` characters.
pub open spec fn decimal_padded(n: nat, width: int) -> Seq<char> {
    zeros(width - decimal(n).len()) + decimal(n)
}

/// An integer as Rust's `{:0width}` writes it: the sign first, then zeros up to
/// the width, then the digits of the magnitude.
pub open spec fn signed_padded(v: int, width: int) -> Seq<char> {
    if v < 0 {
        seq!['-'] + decimal_padded((-v) as nat, width - 1)
    } else {
        decimal_padded(v as nat, width)
    }
}

/// An integer as Rust's `{}` writes it.
pub open spec fn signed_decimal(v: int) -> Seq<char> {
    signed_padded(v, 0)
}

proof fn lemma_decimal_len(n: nat)
    ensures
        decimal(n).len() >= 1,
        forall|i: int| 0 <= i < decimal(n).len() ==> is_digit_char(#[trigger] decimal(n)[i]),
    decreases n,
{
    if n >= 10 {
        lemma_decimal_len(n / 10);
    }
}

/// Appends the decimal digits of `n` to `v`.
pub fn push_decimal(v: &mut Vec<char>, n: u64)
    ensures
        final(v)@ == old(v)@ + decimal(n as nat),
{
    let mut digits: Vec<char> = Vec::new();
    let mut m: u64 = n;
    let ghost mut rest: Seq<char> = Seq::empty();
    // digits holds the low digits in reverse order
    loop
        invariant_except_break
            m <= n,
            decimal(n as nat) == decimal(m as nat) + digits@.reverse(),
        ensures
            decimal(n as nat) == digits@.reverse(),
        decreases m,
    {
        let d = m % 10;
        let c = if d == 0 {
            '0'
        } else if d == 1 {
            '1'
        } else if d == 2 {
            '2'
        } else if d == 3 {
            '3'
        } else if d == 4 {
            '4'
        } else if d == 5 {
            '5'
        } else if d == 6 {
            '6'
        } else if d == 7 {
            '7'
        } else if d == 8 {
            '8'
        } else {
            '9'
        };
        if m < 10 {
            assert(decimal(m as nat) == seq![c]);
            digits.push(c);
            assert(digits@.reverse() == seq![c] + digits@.drop_last().reverse());
            break ;
        }
        assert(decimal(m as nat) == decimal((m / 10) as nat).push(c));
        digits.push(c);
        assert(digits@.reverse() == seq![c] + digits@.drop_last().reverse());
        m = m / 10;
    }
    let mut i: usize = digits.len();
    let ghost base = v@;
    while i > 0
        invariant
            i <= digits.len(),
            v@ == base + digits@.reverse().take(digits.len() - i),
            decimal(n as nat) == digits@.reverse(),
        decreases i,
    {
        i -= 1;
        v.push(digits[i]);
        assert(digits@.reverse().take(digits.len() - i) == digits@.reverse().take(
            digits.len() - i - 1,
        ).push(digits@[i as int]));
    }
    assert(digits@.reverse().take(digits.len() as int) == digits@.reverse());
}

/// Appends `count` zero characters to `v`.
pub fn push_zeros(v: &mut Vec<char>, count: usize)
    ensures
        final(v)@ == old(v)@ + zeros(count as int),
{
    let ghost base = v@;
    let mut i: usize = 0;
    while i < count
        invariant
            i <= count,
            v@ == base + zeros(i as int),
        decreases count - i,
    {
        v.push('0');
        i += 1;
        assert(zeros(i as int) == zeros(i - 1).push('0'));
    }
}

/// Appends `n` padded with zeros to at least `width` characters.
pub fn push_decimal_padded(v: &mut Vec<char>, n: u64, width: usize)
    ensures
        final(v)@ == old(v)@ + decimal_padded(n as nat, width as int),
{
    let ghost base = v@;
    let mut digits: Vec<char> = Vec::new();
    push_decimal(&mut digits, n);
    assert(digits@ == decimal(n as nat));
    let count: usize = if digits.len() < width {
        width - digits.len()
    } else {
        0
    };
    assert(zeros(count as int) == zeros(width - digits.len()));
    push_zeros(v, count);
    let ghost mid = v@;
    let mut i: usize = 0;
    while i < digits.len()
        invariant
            i <= digits.len(),
            v@ == mid + digits@.take(i as int),
        decreases digits.len() - i,
    {
        v.push(digits[i]);
        i += 1;
        assert(digits@.take(i as int) == digits@.take(i - 1).push(digits@[i - 1]));
    }
    assert(digits@.take(digits.len() as int) == digits@);
}

/// Appends `value` as Rust's `{:0width}` formats it.
pub fn push_signed_padded(v: &mut Vec<char>, value: i64, width: usize)
    ensures
        final(v)@ == old(v)@ + signed_padded(value as int, width as int),
{
    let ghost base = v@;
    if value < 0 {
        let magnitude: u64 = (-(value as i128)) as u64;
        v.push('-');
        let w: usize = if width > 0 {
            width - 1
        } else {
            0
        };
        proof {
            lemma_decimal_len(magnitude as nat);
        }
        assert(zeros(w - decimal(magnitude as nat).len()) == zeros(width - 1 - decimal(
            magnitude as nat,
        ).len()));
        push_decimal_padded(v, magnitude, w);
        assert(v@ == base + signed_padded(value as int, width as int));
    } else {
        push_decimal_padded(v, value as u64, width);
    }
}

// ----- parsing -----
/// The value of a run of decimal digits.
pub open spec fn digits_value(s: Seq<char>) -> nat
    decreases s.len(),
{
    if s.len() == 0 {
        0
    } else {
        (digits_value(s.drop_last()) * 10 + char_digit(s.last())) as nat
    }
}

pub open spec fn all_digits(s: Seq<char>) -> bool {
    forall|i: int| 0 <= i < s.len() ==> is_digit_char(#[trigger] s[i])
}

/// What `str::parse::<u32>` gives: an optional `+`, then one or more decimal
/// digits whose value fits in `u32`.
pub open spec fn parse_u32_spec(s: Seq<char>) -> Option<u32> {
    let body = if s.len() > 0 && s[0] == '+' {
        s.drop_first()
    } else {
        s
    };
    if body.len() > 0 && all_digits(body) && digits_value(body) <= u32::MAX {
        Some(digits_value(body) as u32)
    } else {
        None
    }
}

/// What `str::parse::<i32>` gives: an optional `+` or `-`, then one or more
/// decimal digits whose signed value fits in `i32`.
pub open spec fn parse_i32_spec(s: Seq<char>) -> Option<i32> {
    let negative = s.len() > 0 && s[0] == '-';
    let body = if s.len() > 0 && (s[0] == '+' || s[0] == '-') {
        s.drop_first()
    } else {
        s
    };
    let value: int = if negative {
        -(digits_value(body) as int)
    } else {
        digits_value(body) as int
    };
    if body.len() > 0 && all_digits(body) && i32::MIN <= value <= i32::MAX {
        Some(value as i32)
    } else {
        None
    }
}

proof fn lemma_digits_value_prefix(s: Seq<char>, j: int, k: int)
    requires
        0 <= j <= k <= s.len(),
        all_digits(s),
    ensures
        digits_value(s.take(j)) <= digits_value(s.take(k)),
    decreases k - j,
{
    if j < k {
        lemma_digits_value_prefix(s, j, k - 1);
        assert(s.take(k).drop_last() == s.take(k - 1));
        assert(is_digit_char(s[k - 1]));
    }
}

/// Parses the digits `s[start..end]` (no sign); `None` when empty, when a
/// character is not a digit, or when the value passes `limit`.
fn parse_digits(s: &Vec<char>, start: usize, end: usize, limit: u64) -> (r: Option<u64>)
    requires
        start <= end <= s.len(),
        limit <= u32::MAX + 1,
    ensures
        ({
            let body = s@.subrange(start as int, end as int);
            match r {
                Some(v) => body.len() > 0 && all_digits(body) && v == digits_value(body) && v
                    <= limit,
                None => !(body.len() > 0 && all_digits(body) && digits_value(body) <= limit),
            }
        }),
{
    let ghost body = s@.subrange(start as int, end as int);
    if start == end {
        return None;
    }
    let mut acc: u64 = 0;
    let mut i: usize = start;
    while i < end
        invariant
            start <= i <= end <= s.len(),
            body == s@.subrange(start as int, end as int),
            all_digits(body.take(i - start)),
            acc == digits_value(body.take(i - start)),
            acc <= limit,
            limit <= u32::MAX + 1,
        decreases end - i,
    {
        let c = s[i];
        if !('0' <= c && c <= '9') {
            assert(body[i - start] == c);
            return None;
        }
        let d: u64 = (c as u32 - '0' as u32) as u64;
        assert(body.take(i + 1 - start).drop_last() == body.take(i - start));
        assert(body.take(i + 1 - start).last() == c);
        let next = acc * 10 + d;
        if next > limit {
            proof {
                assert(all_digits(body.take(i + 1 - start)));
                if all_digits(body) {
                    lemma_digits_value_prefix(body, i + 1 - start, body.len() as int);
                    assert(body.take(body.len() as int) == body);
                }
            }
            return None;
        }
        acc = next;
        i += 1;
    }
    assert(body.take(end - start) == body);
    Some(acc)
}

/// Parses `s[start..end]` as `str::parse::<u32>` does.
pub fn parse_u32_range(s: &Vec<char>, start: usize, end: usize) -> (r: Option<u32>)
    requires
        start <= end <= s.len(),
    ensures
        r == parse_u32_spec(s@.subrange(start as int, end as int)),
{
    let ghost t = s@.subrange(start as int, end as int);
    let from = if start < end && s[start] == '+' {
        start + 1
    } else {
        start
    };
    assert(s@.subrange(from as int, end as int) == (if t.len() > 0 && t[0] == '+' {
        t.drop_first()
    } else {
        t
    }));
    match parse_digits(s, from, end, 0xffff_ffff) {
        Some(v) => Some(v as u32),
        None => None,
    }
}

/// Parses `s[start..end]` as `str::parse::<i32>` does.
pub fn parse_i32_range(s: &Vec<char>, start: usize, end: usize) -> (r: Option<i32>)
    requires
        start <= end <= s.len(),
    ensures
        r == parse_i32_spec(s@.subrange(start as int, end as int)),
{
    let ghost t = s@.subrange(start as int, end as int);
    let negative = start < end && s[start] == '-';
    let from = if start < end && (s[start] == '+' || s[start] == '-') {
        start + 1
    } else {
        start
    };
    assert(s@.subrange(from as int, end as int) == (if t.len() > 0 && (t[0] == '+' || t[0]
        == '-') {
        t.drop_first()
    } else {
        t
    }));
    let limit: u64 = if negative {
        0x8000_0000
    } else {
        0x7fff_ffff
    };
    match parse_digits(s, from, end, limit) {
        Some(v) => {
            if negative {
                Some((-(v as i64)) as i32)
            } else {
                Some(v as i32)
            }
        },
        None => None,
    }
}


// ----- formatting and parsing agree -----
pub proof fn lemma_decimal_digits(n: nat)
    ensures
        all_digits(decimal(n)),
        digits_value(decimal(n)) == n,
        decimal(n).len() >= 1,
    decreases n,
{
    lemma_decimal_len(n);
    let k = (n % 10) as int;
    assert(char_digit(digit_char(k)) == k) by {
        assert(k == 0 || k == 1 || k == 2 || k == 3 || k == 4 || k == 5 || k == 6 || k == 7 || k
            == 8 || k == 9);
    }
    if n >= 10 {
        lemma_decimal_digits(n / 10);
        let d = decimal(n);
        assert(d.drop_last() == decimal(n / 10));
        assert(d.last() == digit_char(k));
        assert(n == (n / 10) * 10 + n % 10);
        assert(digits_value(d) == digits_value(d.drop_last()) * 10 + char_digit(d.last()));
    } else {
        let d = decimal(n);
        assert(d.drop_last() == Seq::<char>::empty());
        assert(d.last() == digit_char(k));
        assert(digits_value(d) == digits_value(d.drop_last()) * 10 + char_digit(d.last()));
    }
}

pub proof fn lemma_zeros_prefix_value(k: int, t: Seq<char>)
    requires
        all_digits(t),
    ensures
        all_digits(zeros(k) + t),
        digits_value(zeros(k) + t) == digits_value(t),
    decreases t.len(), if k > 0 { k } else { 0 },
{
    let z = zeros(k);
    if t.len() > 0 {
        assert((z + t).drop_last() == z + t.drop_last());
        lemma_zeros_prefix_value(k, t.drop_last());
    } else if k > 0 {
        assert(z + t == z);
        assert(z.drop_last() == zeros(k - 1) + t);
        lemma_zeros_prefix_value(k - 1, t);
    } else {
        assert(z + t == Seq::<char>::empty());
    }
}

/// Law: `str::parse::<u32>` reads back a zero-padded decimal.
pub proof fn law_parse_u32_reads_padded_decimal(n: u32, width: int)
    ensures
        parse_u32_spec(decimal_padded(n as nat, width)) == Some(n),
        all_digits(decimal_padded(n as nat, width)),
        decimal_padded(n as nat, width).len() >= 1,
{
    lemma_decimal_digits(n as nat);
    lemma_zeros_prefix_value(width - decimal(n as nat).len(), decimal(n as nat));
    let s = decimal_padded(n as nat, width);
    assert(is_digit_char(s[0]));
}

/// Law: `str::parse::<i32>` reads back what `{:0width}` writes.
pub proof fn law_parse_i32_reads_signed_padded(v: i32, width: int)
    ensures
        parse_i32_spec(signed_padded(v as int, width)) == Some(v),
{
    if v < 0 {
        let m = (-(v as int)) as nat;
        lemma_decimal_digits(m);
        lemma_zeros_prefix_value(width - 1 - decimal(m).len(), decimal(m));
        let s = signed_padded(v as int, width);
        assert(s.drop_first() == decimal_padded(m, width - 1));
    } else {
        lemma_decimal_digits(v as nat);
        lemma_zeros_prefix_value(width - decimal(v as nat).len(), decimal(v as nat));
        let s = signed_padded(v as int, width);
        assert(is_digit_char(s[0]));
    }
}

} // verus!
