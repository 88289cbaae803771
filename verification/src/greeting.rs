//! A greeting by name.

use vstd::prelude::*;
use vstd::string::*;

verus! {

/// What `greet_user` says to `name`.
pub open spec fn greeting(name: Seq<char>) -> Seq<char> {
    "Hello, "@ + name + "!"@
}

/// Greets `name`: `Hello, `, the name as given, and an exclamation mark.
pub fn greet_user(name: &str) -> (text: String)
    ensures
        text@ == greeting(name@),
{
    let mut text = String::from_str("Hello, ");
    text.append(name);
    text.append("!");
    text
}

} // verus!
