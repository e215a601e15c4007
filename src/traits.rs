//! Summaries of books, and of numbers that stand for a book.

use vstd::prelude::*;
use vstd::string::StringExecFns;
use crate::text::{push_signed_decimal, signed_decimal};

verus! {

/// Something that can be summarised by its author.
pub trait BookSummary {
    /// The text that `author_summarize` gives.
    spec fn author_text(&self) -> Seq<char>;

    /// A summary of the author.
    fn author_summarize(&self) -> (r: String)
        ensures
            r@ == self.author_text();

    /// The publisher's line, the same for every item.
    fn publisher_summary(&self) -> (r: String)
        ensures
            r@ == "Our Small Company Inc."@,
    {
        String::from_str("Our Small Company Inc.")
    }

    /// `(Read more from A)`, where `A` is the author summary.
    fn summarize(&self) -> (r: String)
        ensures
            r@ == "(Read more from "@ + self.author_text() + ")"@,
    {
        let mut s = String::from_str("(Read more from ");
        let author = self.author_summarize();
        s.append(author.as_str());
        s.append(")");
        s
    }
}

/// A book: its author and a line about it.
#[derive(Debug)]
pub struct Book {
    pub author: String,
    pub info: String,
}

impl BookSummary for Book {
    open spec fn author_text(&self) -> Seq<char> {
        "author : "@ + self.author@
    }

    fn author_summarize(&self) -> (r: String) {
        let mut s = String::from_str("author : ");
        s.append(self.author.as_str());
        s
    }
}

impl BookSummary for i32 {
    open spec fn author_text(&self) -> Seq<char> {
        "i32 : "@ + signed_decimal(*self as int)
    }

    fn author_summarize(&self) -> (r: String) {
        let mut s = String::from_str("i32 : ");
        push_signed_decimal(&mut s, *self);
        s
    }
}

} // verus!
