//! The greeting demo that ships beside the token: a two-word greeting.

use vstd::prelude::*;

verus! {

/// A trivial demo contract with a single greeting operation.
pub struct HelloContract;

impl HelloContract {
    /// Greets `to`: the word "Hello" followed by the given name.
    pub fn hello<'a>(to: &'a str) -> (r: Vec<&'a str>)
        ensures
            r@.len() == 2,
            r@[0]@ == "Hello"@,
            r@[1]@ == to@,
    {
        let mut words: Vec<&'a str> = Vec::new();
        words.push("Hello");
        words.push(to);
        words
    }
}

} // verus!
