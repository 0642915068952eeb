//! Character-level views of strings, and the few `char` and `str` operations
//! of the standard library that the rest of the crate reasons about.

use vstd::prelude::*;

verus! {

/// Whether `char::is_alphanumeric` holds of the non-ASCII character `c`
/// (Unicode Alphabetic or Numeric).
pub uninterp spec fn non_ascii_alphanumeric(c: char) -> bool;

/// The characters that `char::to_uppercase` yields for the non-ASCII
/// character `c`.
pub uninterp spec fn non_ascii_uppercase(c: char) -> Seq<char>;

/// ASCII letters and digits.
pub open spec fn ascii_alphanumeric(c: char) -> bool {
    ('a' <= c && c <= 'z') || ('A' <= c && c <= 'Z') || ('0' <= c && c <= '9')
}

/// Whether `char::is_alphanumeric` holds of `c`: for ASCII, the letters and
/// digits.
pub open spec fn unicode_alphanumeric(c: char) -> bool {
    if (c as u32) < 128 {
        ascii_alphanumeric(c)
    } else {
        non_ascii_alphanumeric(c)
    }
}

/// Whether `c` has the Unicode White_Space property (`char::is_whitespace`).
pub open spec fn unicode_whitespace(c: char) -> bool {
    let n = c as u32;
    ||| 0x9 <= n <= 0xd
    ||| n == 0x20
    ||| n == 0x85
    ||| n == 0xa0
    ||| n == 0x1680
    ||| 0x2000 <= n <= 0x200a
    ||| n == 0x2028
    ||| n == 0x2029
    ||| n == 0x202f
    ||| n == 0x205f
    ||| n == 0x3000
}

/// `c` with an ASCII lowercase letter made uppercase.
pub open spec fn ascii_upper(c: char) -> char {
    if 'a' <= c && c <= 'z' {
        ((c as u32) - 32) as char
    } else {
        c
    }
}

/// The characters that `char::to_uppercase` yields for `c`: for ASCII, the
/// character itself, with a lowercase letter made uppercase.
pub open spec fn unicode_uppercase(c: char) -> Seq<char> {
    if (c as u32) < 128 {
        seq![ascii_upper(c)]
    } else {
        non_ascii_uppercase(c)
    }
}

/// The characters of `s`, in order.
pub fn chars_of(s: &str) -> (r: Vec<char>)
    ensures
        r@ == s@,
{
    let mut r: Vec<char> = Vec::new();
    for c in it: s.chars()
        invariant
            it.seq() == s@,
            r@ == s@.take(it.index() as int),
    {
        r.push(c);
        assert(r@ =~= s@.take(it.index() + 1));
    }
    assert(s@.take(s@.len() as int) =~= s@);
    r
}

/// The string made of the characters `v`.
///
/// Calls `String::from_iter` over the characters; the contract claims that
/// the string's character sequence is exactly `v`.
#[verifier::external_body]
pub fn string_of(v: &Vec<char>) -> (r: String)
    ensures
        r@ == v@,
{
    v.iter().collect()
}

/// `char::is_alphanumeric`.
///
/// The contract claims what the documentation gives for ASCII (exactly the
/// letters and digits are alphanumeric) and names the result for any other
/// character.
#[verifier::external_body]
pub fn is_alphanumeric(c: char) -> (b: bool)
    ensures
        b == unicode_alphanumeric(c),
        (c as u32) >= 128 ==> b == non_ascii_alphanumeric(c),
{
    c.is_alphanumeric()
}

/// Whether `c` is whitespace (`char::is_whitespace`: the Unicode
/// White_Space property).
pub fn is_whitespace(c: char) -> (b: bool)
    ensures
        b == unicode_whitespace(c),
{
    let n = c as u32;
    (0x9 <= n && n <= 0xd) || n == 0x20 || n == 0x85 || n == 0xa0 || n == 0x1680 || (0x2000 <= n
        && n <= 0x200a) || n == 0x2028 || n == 0x2029 || n == 0x202f || n == 0x205f || n == 0x3000
}

/// `char::to_uppercase`, collected.
///
/// The contract claims what the documentation gives: one or more
/// characters; for ASCII the character itself with a lowercase letter made
/// uppercase; for any other character the result is named.
#[verifier::external_body]
pub fn to_uppercase(c: char) -> (r: Vec<char>)
    ensures
        r@ == unicode_uppercase(c),
        (c as u32) >= 128 ==> r@ == non_ascii_uppercase(c),
        r@.len() >= 1,
{
    c.to_uppercase().collect()
}

} // verus!

verus! {

/// What `format!("{:?}", s)` writes for the string `s`: it between double
/// quotes, with special characters escaped.
pub uninterp spec fn debug_quoted(s: Seq<char>) -> Seq<char>;

/// `format!("{:?}", s)`.
///
/// The contract names the result; it is a function of the characters of
/// `s` alone.
#[verifier::external_body]
pub fn debug_str(s: &str) -> (r: String)
    ensures
        r@ == debug_quoted(s@),
{
    format!("{:?}", s)
}

/// Whether two strings hold the same characters.
pub fn str_eq(a: &str, b: &str) -> (r: bool)
    ensures
        r == (a@ == b@),
{
    let x = chars_of(a);
    let y = chars_of(b);
    if x.len() != y.len() {
        return false;
    }
    let mut i: usize = 0;
    while i < x.len()
        invariant
            x@ == a@,
            y@ == b@,
            x.len() == y.len(),
            i <= x.len(),
            forall|k: int| 0 <= k < i ==> x@[k] == y@[k],
        decreases x.len() - i,
    {
        if x[i] != y[i] {
            return false;
        }
        i = i + 1;
    }
    assert(x@ =~= y@);
    true
}

/// Index of the first non-whitespace character of `t` at or after `i`, or `t.len()`.
pub open spec fn first_non_ws_from(t: Seq<char>, i: int) -> int
    decreases t.len() - i,
{
    if i >= t.len() {
        t.len() as int
    } else if !unicode_whitespace(t[i]) {
        i
    } else {
        first_non_ws_from(t, i + 1)
    }
}

/// Length of the first `n` characters of `t` without their trailing whitespace.
pub open spec fn non_ws_end_at(t: Seq<char>, n: int) -> int
    decreases n,
{
    if n <= 0 {
        0
    } else if !unicode_whitespace(t[n - 1]) {
        n
    } else {
        non_ws_end_at(t, n - 1)
    }
}

/// `t` without whitespace at either end (`str::trim`).
pub open spec fn trim_ws(t: Seq<char>) -> Seq<char> {
    let end = non_ws_end_at(t, t.len() as int);
    if end == 0 {
        Seq::empty()
    } else {
        t.subrange(first_non_ws_from(t, 0), end)
    }
}

/// `t` without whitespace at either end.
pub fn trim_chars(t: &Vec<char>) -> (r: Vec<char>)
    ensures
        r@ == trim_ws(t@),
{
    let mut end = t.len();
    while end > 0 && is_whitespace(t[end - 1])
        invariant
            end <= t.len(),
            non_ws_end_at(t@, end as int) == non_ws_end_at(t@, t.len() as int),
        decreases end,
    {
        end = end - 1;
    }
    if end == 0 {
        return Vec::new();
    }
    let mut start: usize = 0;
    while is_whitespace(t[start])
        invariant
            start < end,
            end <= t.len(),
            !unicode_whitespace(t@[end - 1]),
            first_non_ws_from(t@, start as int) == first_non_ws_from(t@, 0),
        decreases end - start,
    {
        start = start + 1;
    }
    let mut r: Vec<char> = Vec::new();
    let mut i = start;
    while i < end
        invariant
            start <= i <= end,
            end <= t.len(),
            r@ == t@.subrange(start as int, i as int),
        decreases end - i,
    {
        r.push(t[i]);
        i = i + 1;
        assert(r@ =~= t@.subrange(start as int, i as int));
    }
    r
}

/// `s` without whitespace at either end (`str::trim`).
pub fn trim(s: &str) -> (r: String)
    ensures
        r@ == trim_ws(s@),
{
    let chars = chars_of(s);
    let t = trim_chars(&chars);
    string_of(&t)
}

} // verus!
