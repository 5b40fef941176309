//! Names of bills, categories and accounts: trimming, case folding and the
//! keys by which transactions are grouped.
use vstd::prelude::*;
use crate::text::{chars_of, string_of, owned, extend_chars, str_eq};
use crate::models::DEFAULT_CATEGORY_NAME;

verus! {

broadcast use vstd::string::group_string_axioms;

// ----- character classes from std -----
/// The Unicode White_Space property, which std's `char::is_whitespace`
/// tests: tab to carriage return, space, next line, no-break space, ogham
/// space mark, en quad to hair space, line and paragraph separators, narrow
/// no-break space, medium mathematical space and ideographic space.
pub open spec fn unicode_white_space(c: char) -> bool {
    let n = c as u32;
    ||| 0x09 <= n <= 0x0D
    ||| n == 0x20
    ||| n == 0x85
    ||| n == 0xA0
    ||| n == 0x1680
    ||| 0x2000 <= n <= 0x200A
    ||| n == 0x2028
    ||| n == 0x2029
    ||| n == 0x202F
    ||| n == 0x205F
    ||| n == 0x3000
}

/// Whether std's `char::is_alphanumeric` holds (Unicode Alphabetic or Numeric).
pub uninterp spec fn unicode_alphanumeric(c: char) -> bool;

/// The characters std's `char::to_lowercase` yields for `c`.
pub uninterp spec fn unicode_lowercase(c: char) -> Seq<char>;

/// What std's `str::to_lowercase` returns for a string.
pub uninterp spec fn unicode_lowercase_str(s: Seq<char>) -> Seq<char>;

/// std's `char::is_whitespace`: whether `c` has the Unicode White_Space
/// property: the code points listed in `unicode_white_space`.
#[verifier::external_body]
fn is_whitespace(c: char) -> (r: bool)
    ensures
        r == unicode_white_space(c),
{
    c.is_whitespace()
}

/// std's `char::is_alphanumeric`: whether `c` is Unicode Alphabetic or Numeric.
#[verifier::external_body]
fn is_alphanumeric(c: char) -> (r: bool)
    ensures
        r == unicode_alphanumeric(c),
{
    c.is_alphanumeric()
}

/// std's `char::to_lowercase`, collected: the lowercase mapping of `c`, one or
/// more characters.
#[verifier::external_body]
fn to_lowercase_chars(c: char) -> (r: Vec<char>)
    ensures
        r@ == unicode_lowercase(c),
{
    c.to_lowercase().collect()
}

/// std's `str::to_lowercase`: the lowercase equivalent of the whole string.
#[verifier::external_body]
fn str_to_lowercase(s: &str) -> (r: String)
    ensures
        r@ == unicode_lowercase_str(s@),
{
    s.to_lowercase()
}

// ----- trimming -----
/// Index of the first character at or after `i` that is not white space.
pub open spec fn skip_white(s: Seq<char>, i: int) -> int
    decreases s.len() - i,
{
    if 0 <= i < s.len() && unicode_white_space(s[i]) {
        skip_white(s, i + 1)
    } else {
        i
    }
}

/// End of `s[lo..j]` once its trailing white space is dropped.
pub open spec fn drop_white_end(s: Seq<char>, lo: int, j: int) -> int
    decreases j - lo,
{
    if lo < j && j <= s.len() && unicode_white_space(s[j - 1]) {
        drop_white_end(s, lo, j - 1)
    } else {
        j
    }
}

/// `s` without leading and trailing white space, as `str::trim` returns it.
pub open spec fn spec_trim(s: Seq<char>) -> Seq<char> {
    let a = skip_white(s, 0);
    s.subrange(a, drop_white_end(s, a, s.len() as int))
}

proof fn lemma_skip_white_bounds(s: Seq<char>, i: int)
    requires
        0 <= i <= s.len(),
    ensures
        i <= skip_white(s, i) <= s.len(),
    decreases s.len() - i,
{
    if i < s.len() && unicode_white_space(s[i]) {
        lemma_skip_white_bounds(s, i + 1);
    }
}

proof fn lemma_drop_white_end_bounds(s: Seq<char>, lo: int, j: int)
    requires
        0 <= lo <= j <= s.len(),
    ensures
        lo <= drop_white_end(s, lo, j) <= j,
    decreases j - lo,
{
    if lo < j && unicode_white_space(s[j - 1]) {
        lemma_drop_white_end_bounds(s, lo, j - 1);
    }
}

/// The characters of `s` without leading and trailing white space.
pub fn trim_chars(s: &str) -> (r: Vec<char>)
    ensures
        r@ == spec_trim(s@),
{
    let v = chars_of(s);
    let mut a: usize = 0;
    while a < v.len() && is_whitespace(v[a])
        invariant
            a <= v.len(),
            v@ == s@,
            skip_white(s@, 0) == skip_white(s@, a as int),
        decreases v.len() - a,
    {
        a += 1;
    }
    let mut b: usize = v.len();
    while b > a && is_whitespace(v[b - 1])
        invariant
            a <= b <= v.len(),
            v@ == s@,
            drop_white_end(s@, a as int, v.len() as int) == drop_white_end(s@, a as int, b as int),
        decreases b,
    {
        b -= 1;
    }
    let mut out: Vec<char> = Vec::new();
    let mut i = a;
    while i < b
        invariant
            a <= i <= b <= v.len(),
            out@ == v@.subrange(a as int, i as int),
        decreases b - i,
    {
        out.push(v[i]);
        i += 1;
    }
    out
}

/// `value` without leading and trailing white space.
pub fn trim(value: &str) -> (r: String)
    ensures
        r@ == spec_trim(value@),
{
    let v = trim_chars(value);
    string_of(&v)
}

// ----- ASCII case -----
pub open spec fn ascii_lower(c: char) -> char {
    if 'A' <= c <= 'Z' {
        ((c as u32) + 32) as char
    } else {
        c
    }
}

/// Equal up to ASCII case, as `str::eq_ignore_ascii_case` compares.
pub open spec fn eq_ascii_case_insensitive(a: Seq<char>, b: Seq<char>) -> bool {
    a.len() == b.len() && forall|i: int| 0 <= i < a.len() ==> ascii_lower(a[i]) == ascii_lower(b[i])
}

fn lower_ascii(c: char) -> (r: char)
    ensures
        r == ascii_lower(c),
{
    if 'A' <= c && c <= 'Z' {
        ((c as u8) + 32) as char
    } else {
        c
    }
}

fn chars_eq_ignore_ascii_case(a: &Vec<char>, b: &str) -> (r: bool)
    ensures
        r == eq_ascii_case_insensitive(a@, b@),
{
    let w = chars_of(b);
    if a.len() != w.len() {
        return false;
    }
    let mut i: usize = 0;
    while i < a.len()
        invariant
            i <= a.len(),
            a.len() == w.len(),
            w@ == b@,
            forall|k: int| 0 <= k < i ==> ascii_lower(a@[k]) == ascii_lower(w@[k]),
        decreases a.len() - i,
    {
        if lower_ascii(a[i]) != lower_ascii(w[i]) {
            return false;
        }
        i += 1;
    }
    true
}

// ----- category names -----
/// A category that means "no category": empty after trimming, or "Misc" or
/// "Uncategorized" in any ASCII case.
pub open spec fn spec_is_unassigned_category_name(name: Seq<char>) -> bool {
    let t = spec_trim(name);
    t.len() == 0 || eq_ascii_case_insensitive(t, DEFAULT_CATEGORY_NAME@)
        || eq_ascii_case_insensitive(t, "Uncategorized"@)
}

/// The category name as the planner keeps it: trimmed, and "Misc" for any
/// name that means no category.
pub open spec fn spec_normalize_category_name(name: Seq<char>) -> Seq<char> {
    if spec_is_unassigned_category_name(spec_trim(name)) {
        DEFAULT_CATEGORY_NAME@
    } else {
        spec_trim(name)
    }
}

/// Whether a category name means "no category".
pub fn is_unassigned_category_name(category_name: &str) -> (r: bool)
    ensures
        r == spec_is_unassigned_category_name(category_name@),
{
    let t = trim_chars(category_name);
    t.len() == 0 || chars_eq_ignore_ascii_case(&t, DEFAULT_CATEGORY_NAME)
        || chars_eq_ignore_ascii_case(&t, "Uncategorized")
}

/// Trims a category name and maps every "no category" spelling to "Misc".
pub fn normalize_category_name(category_name: &str) -> (r: String)
    ensures
        r@ == spec_normalize_category_name(category_name@),
{
    let trimmed = trim(category_name);
    if is_unassigned_category_name(trimmed.as_str()) {
        owned(DEFAULT_CATEGORY_NAME)
    } else {
        trimmed
    }
}

/// A bill whose name is a real category can take transactions.
pub fn is_assignable_bill_name(name: &str) -> (r: bool)
    ensures
        r == !spec_is_unassigned_category_name(name@),
{
    !is_unassigned_category_name(name)
}

// ----- comparison keys -----
/// The alphanumeric characters of `s`, lowercased.
pub open spec fn spec_normalize_name(s: Seq<char>) -> Seq<char>
    decreases s.len(),
{
    if s.len() == 0 {
        Seq::empty()
    } else {
        spec_normalize_name(s.drop_last()) + (if unicode_alphanumeric(s.last()) {
            unicode_lowercase(s.last())
        } else {
            Seq::empty()
        })
    }
}

fn normalize_chars(v: &Vec<char>) -> (r: String)
    ensures
        r@ == spec_normalize_name(v@),
{
    let mut out: Vec<char> = Vec::new();
    let mut i: usize = 0;
    while i < v.len()
        invariant
            i <= v.len(),
            out@ == spec_normalize_name(v@.take(i as int)),
        decreases v.len() - i,
    {
        let c = v[i];
        assert(v@.take(i + 1).drop_last() == v@.take(i as int));
        if is_alphanumeric(c) {
            let lower = to_lowercase_chars(c);
            let mut k: usize = 0;
            let ghost before = out@;
            while k < lower.len()
                invariant
                    k <= lower.len(),
                    out@ == before + lower@.take(k as int),
                decreases lower.len() - k,
            {
                out.push(lower[k]);
                k += 1;
                assert(lower@.take(k as int) == lower@.take(k - 1).push(lower@[k - 1]));
            }
            assert(lower@.take(lower.len() as int) == lower@);
        }
        i += 1;
    }
    assert(v@.take(v.len() as int) == v@);
    string_of(&out)
}

/// The alphanumeric characters of a name, lowercased: how bill, paycheck and
/// account names are compared.
pub fn normalize_name_for_ui(value: &str) -> (r: String)
    ensures
        r@ == spec_normalize_name(value@),
{
    let v = chars_of(value);
    normalize_chars(&v)
}

/// The key by which recurring transactions are grouped: the alphanumeric
/// characters, lowercased.
pub fn normalize_recurring_key(value: &str) -> (r: String)
    ensures
        r@ == spec_normalize_name(value@),
{
    normalize_name_for_ui(value)
}

/// Whether `t` occurs in `s` as a contiguous run.
pub open spec fn contains_seq(s: Seq<char>, t: Seq<char>) -> bool {
    exists|i: int| 0 <= i && i + t.len() <= s.len() && #[trigger] s.subrange(i, i + t.len()) == t
}

fn contains_chars(s: &Vec<char>, t: &Vec<char>) -> (r: bool)
    ensures
        r == contains_seq(s@, t@),
{
    if t.len() > s.len() {
        return false;
    }
    let mut i: usize = 0;
    while i <= s.len() - t.len()
        invariant
            t.len() <= s.len(),
            i <= s.len() - t.len() + 1,
            forall|j: int| 0 <= j < i ==> #[trigger] s@.subrange(j, j + t.len()) != t@,
        decreases s.len() - i,
    {
        let mut k: usize = 0;
        let mut same = true;
        while k < t.len()
            invariant
                k <= t.len(),
                i + t.len() <= s.len(),
                same == (forall|m: int| 0 <= m < k ==> s@[i + m] == t@[m]),
            decreases t.len() - k,
        {
            if s[i + k] != t[k] {
                same = false;
            }
            k += 1;
        }
        if same {
            assert(s@.subrange(i as int, i + t.len()) == t@);
            return true;
        }
        proof {
            let w = choose|m: int| 0 <= m < t.len() && s@[i + m] != t@[m];
            assert(s@.subrange(i as int, i + t.len())[w] != t@[w]);
        }
        i += 1;
    }
    proof {
        assert forall|j: int| 0 <= j && j + t.len() <= s.len() implies #[trigger] s@.subrange(
            j,
            j + t.len(),
        ) != t@ by {
            assert(j < i);
        }
    }
    false
}

/// Whether `needle` occurs in `haystack`, as `str::contains` finds it.
pub fn contains_text(haystack: &str, needle: &str) -> (r: bool)
    ensures
        r == contains_seq(haystack@, needle@),
{
    let hv = chars_of(haystack);
    let nv = chars_of(needle);
    contains_chars(&hv, &nv)
}

/// Whether an account name found in YNAB is the configured one: equal after
/// normalizing, or either contains the other.
pub open spec fn spec_account_matches(found: Seq<char>, target: Seq<char>) -> bool {
    let f = spec_normalize_name(found);
    let t = spec_normalize_name(target);
    f == t || contains_seq(f, t) || contains_seq(t, f)
}

pub fn account_matches_for_ui(found: &str, target: &str) -> (r: bool)
    ensures
        r == spec_account_matches(found@, target@),
{
    let f = normalize_name_for_ui(found);
    let t = normalize_name_for_ui(target);
    let fv = chars_of(f.as_str());
    let tv = chars_of(t.as_str());
    f == t || contains_chars(&fv, &tv) || contains_chars(&tv, &fv)
}

/// Same comparison, under the name the importer uses.
pub fn account_matches(found: &str, target: &str) -> (r: bool)
    ensures
        r == spec_account_matches(found@, target@),
{
    account_matches_for_ui(found, target)
}

/// The grouping key of a transaction or candidate: its category when it has a
/// real one, else its payee, normalized.
pub open spec fn spec_recurring_key(category_name: Seq<char>, payee_name: Seq<char>) -> Seq<char> {
    let category = spec_normalize_category_name(category_name);
    if category != DEFAULT_CATEGORY_NAME@ {
        spec_normalize_name("category:"@ + category)
    } else {
        spec_normalize_name("payee:"@ + payee_name)
    }
}

/// The key under which a transaction with this category and payee is grouped.
pub fn recurring_key(category_name: &str, payee_name: &str) -> (r: String)
    ensures
        r@ == spec_recurring_key(category_name@, payee_name@),
{
    let category = normalize_category_name(category_name);
    let mut v: Vec<char> = Vec::new();
    if !str_eq(category.as_str(), DEFAULT_CATEGORY_NAME) {
        extend_chars(&mut v, "category:");
        extend_chars(&mut v, category.as_str());
    } else {
        extend_chars(&mut v, "payee:");
        extend_chars(&mut v, payee_name);
    }
    normalize_chars(&v)
}

/// Lowercased with std's `str::to_lowercase`.
pub fn to_lowercase(value: &str) -> (r: String)
    ensures
        r@ == unicode_lowercase_str(value@),
{
    str_to_lowercase(value)
}

} // verus!
