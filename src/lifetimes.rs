//! Choosing between borrowed strings.

use vstd::prelude::*;
use crate::text::byte_len;

verus! {

/// Whichever of `x` and `y` is longer in bytes; `y` where they are equally
/// long.
pub fn longest<'a>(x: &'a str, y: &'a str) -> (r: &'a str)
    ensures
        r@ == (if byte_len(x@) > byte_len(y@) {
            x@
        } else {
            y@
        }),
{
    if x.len() > y.len() {
        x
    } else {
        y
    }
}

/// A part borrowed from some longer text.
pub struct ImportantExcerpt<'a> {
    pub part: &'a str,
}

impl<'a> ImportantExcerpt<'a> {
    /// The level of every excerpt: 3.
    pub fn level(&self) -> (r: i32)
        ensures
            r == 3,
    {
        3
    }
}

} // verus!
