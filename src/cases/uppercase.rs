use vstd::prelude::*;

use crate::text::push_char;

verus! {

/// True of the ASCII lowercase letters `a` to `z`.
pub open spec fn is_ascii_lower(c: char) -> bool {
    'a' <= c && c <= 'z'
}

/// The ASCII uppercase form of a character: `a` to `z` become `A` to `Z`,
/// every other character stays as it is.
pub open spec fn upper_char(c: char) -> char {
    if is_ascii_lower(c) {
        ((c as u32) - 32) as char
    } else {
        c
    }
}

/// Every character of `s` in its ASCII uppercase form.
pub open spec fn upper_seq(s: Seq<char>) -> Seq<char> {
    s.map_values(|c: char| upper_char(c))
}

/// Maps an ASCII lowercase letter to its uppercase form and leaves every
/// other character unchanged.
pub fn to_ascii_upper(c: char) -> (r: char)
    ensures
        r == upper_char(c),
{
    if 'a' <= c && c <= 'z' {
        ((c as u8) - 32) as char
    } else {
        c
    }
}

/// The string with every ASCII letter in uppercase; all other characters
/// pass through unchanged.
pub fn to_upper_case(s: &str) -> (r: String)
    ensures
        r@ == upper_seq(s@),
{
    let mut r = String::new();
    for c in it: s.chars()
        invariant
            it.seq() == s@,
            r@ == upper_seq(s@.take(it.index() as int)),
    {
        proof {
            assert(s@.take(it.index() + 1) == s@.take(it.index() as int).push(c));
        }
        push_char(&mut r, to_ascii_upper(c));
        proof {
            assert(r@ =~= upper_seq(s@.take(it.index() + 1)));
        }
    }
    proof {
        assert(s@.take(s@.len() as int) == s@);
    }
    r
}

} // verus!
