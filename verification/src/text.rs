use vstd::prelude::*;
use vstd::utf8::encode_utf8;

verus! {

/// The length in bytes of the UTF-8 encoding of `s`, as `str::len` reports it.
pub open spec fn byte_len(s: Seq<char>) -> usize {
    encode_utf8(s).len() as usize
}

/// The character at position `i` of `s`, as `Chars::nth` gives it.
pub open spec fn nth(s: Seq<char>, i: int) -> Option<char> {
    if 0 <= i < s.len() {
        Some(s[i])
    } else {
        None
    }
}

/// The first `k` characters of `s`, or all of them when `s` is shorter, as
/// `Chars::take` gives them.
pub open spec fn take_chars(s: Seq<char>, k: int) -> Seq<char> {
    if k < s.len() {
        s.take(k)
    } else {
        s
    }
}

/// Compares two string slices character by character.
pub fn str_eq(a: &str, b: &str) -> (r: bool)
    ensures
        r == (a@ == b@),
{
    let n = a.unicode_len();
    let m = b.unicode_len();
    if n != m {
        return false;
    }
    let mut i: usize = 0;
    while i < n
        invariant
            n == a@.len(),
            m == b@.len(),
            n == m,
            i <= n,
            forall|j: int| 0 <= j < i ==> a@[j] == b@[j],
        decreases n - i,
    {
        if a.get_char(i) != b.get_char(i) {
            return false;
        }
        i = i + 1;
    }
    assert(a@ =~= b@);
    true
}

/// The number of characters in `s`.
pub fn char_count(s: &String) -> (r: usize)
    ensures
        r == s@.len(),
{
    s.as_str().unicode_len()
}

/// The length of `s` in bytes.
pub fn string_byte_len(s: &String) -> (r: usize)
    ensures
        r == byte_len(s@),
{
    s.as_str().len()
}

/// The character at position `i` of `s`, if there is one.
pub fn nth_char(s: &String, i: usize) -> (r: Option<char>)
    ensures
        r == nth(s@, i as int),
{
    let n = s.as_str().unicode_len();
    if i < n {
        Some(s.as_str().get_char(i))
    } else {
        None
    }
}

/// The first `k` characters of `s` (all of `s` when it is shorter).
pub fn take_prefix(s: &String, k: usize) -> (r: String)
    ensures
        r@ == take_chars(s@, k as int),
{
    let n = s.as_str().unicode_len();
    let m = if k < n {
        k
    } else {
        n
    };
    let sub = s.as_str().substring_char(0, m);
    let r = sub.to_owned();
    assert(s@.subrange(0, n as int) =~= s@);
    r
}

/// `String::push`: appends one character to the string.
#[verifier::external_body]
pub(crate) fn push_char(s: &mut String, c: char)
    ensures
        final(s)@ == old(s)@.push(c),
{
    s.push(c)
}

/// A string holding exactly the given characters of a string slice.
pub fn to_string(s: &str) -> (r: String)
    ensures
        r@ == s@,
{
    s.to_owned()
}

} // verus!
