//! Small bridges between `String`/`&str`/`&[u8]` and the character sequences
//! that the specifications speak about, plus verified character helpers.
use vstd::prelude::*;

verus! {

/// Builds the `String` whose characters are exactly the given vector.
///
/// Relies on `String::from_iter` (via `Iterator::collect`): collecting
/// characters yields the string of those characters, in order.
#[verifier::external_body]
pub fn chars_to_string(v: &Vec<char>) -> (r: String)
    ensures
        r@ == v@,
{
    v.iter().collect()
}

/// Relies on `str::from_utf8`: `Ok` exactly when the bytes are valid UTF-8,
/// and the returned string is the character sequence they encode. A string
/// never holds more characters than bytes, since every character takes at
/// least one byte.
#[verifier::external_body]
pub fn bytes_to_str(b: &[u8]) -> (r: Option<&str>)
    ensures
        r is Some <==> vstd::utf8::valid_utf8(b@),
        r is Some ==> r.unwrap()@ == vstd::utf8::decode_utf8(b@),
        r is Some ==> r.unwrap()@.len() <= b@.len(),
{
    core::str::from_utf8(b).ok()
}

/// Relies on `char::from_u32`: `Some` exactly on Unicode scalar values
/// (below the surrogate range, or between it and the last code point),
/// returning the character with that code.
#[verifier::external_body]
pub fn char_from_code(n: u32) -> (r: Option<char>)
    ensures
        r is Some <==> (n < 0xD800 || (0xE000 <= n && n <= 0x10FFFF)),
        r is Some ==> r.unwrap() as u32 == n,
{
    char::from_u32(n)
}

/// Character-wise string equality, proved against the string views.
pub fn str_eq(a: &str, b: &str) -> (r: bool)
    ensures
        r == (a@ == b@),
{
    let na = a.unicode_len();
    let nb = b.unicode_len();
    if na != nb {
        assert(a@ != b@) by {
            assert(a@.len() != b@.len());
        }
        return false;
    }
    let mut i: usize = 0;
    while i < na
        invariant
            na == a@.len(),
            nb == b@.len(),
            na == nb,
            i <= na,
            forall|k: int| 0 <= k < i ==> a@[k] == b@[k],
        decreases na - i,
    {
        if a.get_char(i) != b.get_char(i) {
            return false;
        }
        i += 1;
    }
    proof {
        assert(a@ =~= b@);
    }
    true
}

} // verus!
