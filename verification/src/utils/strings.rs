//! Character-level string building.
use vstd::prelude::*;
use vstd::string::*;

verus! {

/// Calls `String::push` of the standard library, which appends one character. The
/// contract claims that afterwards the string holds its earlier characters followed by `c`.
#[verifier::external_body]
pub(crate) fn push_char(s: &mut String, c: char)
    ensures
        final(s)@ == old(s)@.push(c),
{
    s.push(c)
}

/// Whether `s` is exactly `c`.
pub(crate) fn is_single(s: &String, c: char) -> (b: bool)
    ensures
        b == (s@ == seq![c]),
{
    let r = s.as_str().unicode_len() == 1 && s.as_str().get_char(0) == c;
    proof {
        if r {
            assert(s@ =~= seq![c]);
        }
    }
    r
}

/// Whether `s` is exactly `..`.
pub(crate) fn is_dot_dot(s: &String) -> (b: bool)
    ensures
        b == (s@ == seq!['.', '.']),
{
    let r = s.as_str().unicode_len() == 2 && s.as_str().get_char(0) == '.' && s.as_str().get_char(1)
        == '.';
    proof {
        if r {
            assert(s@ =~= seq!['.', '.']);
        }
    }
    r
}

} // verus!
