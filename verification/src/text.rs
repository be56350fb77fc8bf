//! Character-level helpers shared by rendering and the JSON codec: decimal
//! digits, zero-padded numbers, and conversions between strings and
//! character vectors.

use vstd::prelude::*;
use vstd::string::StrSliceExecFns;

verus! {

/// The decimal digit character for `d` (`0 <= d <= 9`).
pub open spec fn digit_char(d: int) -> char {
    ((48 + d) as u8) as char
}

/// The lower-case hexadecimal digit character for `d` (`0 <= d <= 15`).
pub open spec fn hex_char(d: int) -> char {
    if d < 10 {
        digit_char(d)
    } else {
        ((87 + d) as u8) as char
    }
}

/// `n` written as exactly two decimal digits (`0 <= n <= 99`).
pub open spec fn pad2(n: int) -> Seq<char> {
    seq![digit_char(n / 10), digit_char(n % 10)]
}

/// `n` written as exactly four decimal digits (`0 <= n <= 9999`): the
/// two-digit forms of its upper and lower halves.
pub open spec fn pad4(n: int) -> Seq<char> {
    pad2(n / 100) + pad2(n % 100)
}

/// Appends the two-digit form of `n` to `out`.
pub fn push_pad2(out: &mut Vec<char>, n: u32)
    requires
        n <= 99,
    ensures
        final(out)@ == old(out)@ + pad2(n as int),
{
    out.push(((48 + n / 10) as u8) as char);
    out.push(((48 + n % 10) as u8) as char);
    assert(final(out)@ =~= old(out)@ + pad2(n as int));
}

/// Appends the four-digit form of `n` to `out`.
pub fn push_pad4(out: &mut Vec<char>, n: u32)
    requires
        n <= 9999,
    ensures
        final(out)@ == old(out)@ + pad4(n as int),
{
    push_pad2(out, n / 100);
    push_pad2(out, n % 100);
    assert(final(out)@ =~= old(out)@ + pad4(n as int));
}

/// The characters of `s`, as a vector.
pub fn chars_vec(s: &str) -> (v: Vec<char>)
    ensures
        v@ == s@,
{
    let n = s.unicode_len();
    let mut v: Vec<char> = Vec::new();
    let mut i: usize = 0;
    while i < n
        invariant
            i <= n,
            n == s@.len(),
            v@ == s@.take(i as int),
        decreases n - i,
    {
        v.push(s.get_char(i));
        assert(s@.take(i + 1) =~= s@.take(i as int).push(s@[i as int]));
        i += 1;
    }
    assert(s@.take(n as int) =~= s@);
    v
}

/// Relies on `String`'s `FromIterator<char>`: collecting characters yields
/// the string of exactly those characters, in order.
#[verifier::external_body]
pub fn string_from_chars(v: &Vec<char>) -> (s: String)
    ensures
        s@ == v@,
{
    v.iter().collect()
}

/// Whether two string slices hold the same characters.
pub fn str_eq(a: &str, b: &str) -> (r: bool)
    ensures
        r == (a@ == b@),
{
    let n = a.unicode_len();
    if n != b.unicode_len() {
        return false;
    }
    let mut i: usize = 0;
    while i < n
        invariant
            i <= n,
            n == a@.len() == b@.len(),
            forall|j: int| 0 <= j < i ==> a@[j] == b@[j],
        decreases n - i,
    {
        if a.get_char(i) != b.get_char(i) {
            return false;
        }
        i += 1;
    }
    proof {
        assert(a@ =~= b@);
    }
    true
}

} // verus!
