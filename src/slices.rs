//! Slices of strings.

use vstd::prelude::*;
use vstd::string::StrSliceExecFns;

verus! {

/// The first word of `s`: the longest prefix without a space, which ends
/// at the first space or at the end of `s`.
pub fn first_word(s: &str) -> (r: &str)
    ensures
        r@.len() <= s@.len(),
        r@ == s@.subrange(0, r@.len() as int),
        forall|k: int| 0 <= k < r@.len() ==> r@[k] != ' ',
        r@.len() == s@.len() || s@[r@.len() as int] == ' ',
{
    let n = s.unicode_len();
    let mut i: usize = 0;
    while i < n
        invariant
            i <= n,
            n == s@.len(),
            forall|k: int| 0 <= k < i ==> s@[k] != ' ',
        decreases n - i,
    {
        if s.get_char(i) == ' ' {
            return s.substring_char(0, i);
        }
        i = i + 1;
    }
    s.substring_char(0, n)
}

} // verus!
