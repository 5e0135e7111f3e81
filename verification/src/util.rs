//! Shared helpers: a verified string-to-characters conversion, and the
//! crate's two trusted bridges — single-character string building and
//! entropy.

use vstd::prelude::*;
use vstd::string::StrSliceExecFns;

verus! {

/// Relies on `String::push`: appends the given `char` to the end of the
/// string, leaving everything before it unchanged.
#[verifier::external_body]
pub(crate) fn push_char(s: &mut String, c: char)
    ensures
        final(s)@ == old(s)@.push(c),
{
    s.push(c);
}

/// The characters of a string slice, in order.
pub fn str_chars(s: &str) -> (r: Vec<char>)
    ensures
        r@ == s@,
{
    let n = s.unicode_len();
    let mut r: Vec<char> = Vec::new();
    for i in 0..n
        invariant
            n == s@.len(),
            r@ =~= s@.take(i as int),
    {
        r.push(s.get_char(i));
        proof {
            assert(r@ =~= s@.take(i + 1));
        }
    }
    proof {
        assert(r@ =~= s@);
    }
    r
}

/// Relies on `rand::random`: one draw from the thread-local generator.
/// Nothing is promised of the value; every caller must cope with all of
/// them.
#[verifier::external_body]
pub(crate) fn draw_entropy() -> u64 {
    rand::random()
}

} // verus!
