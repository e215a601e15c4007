//! Reading and changing strings through references.

use vstd::prelude::*;
use vstd::string::StringExecFns;
use crate::text::byte_len;

verus! {

/// The length of `s` in bytes.
pub fn calculate_length(s: &String) -> (r: usize)
    ensures
        r == byte_len(s@),
{
    s.as_str().len()
}

/// Appends `, world` to `some_string`.
pub fn change(some_string: &mut String)
    ensures
        final(some_string)@ == old(some_string)@ + ", world"@,
{
    some_string.append(", world");
}

/// A new string `hello`, returned by value rather than by reference.
pub fn dangle() -> (r: String)
    ensures
        r@ == "hello"@,
{
    String::from_str("hello")
}

} // verus!
