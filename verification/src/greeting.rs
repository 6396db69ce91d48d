//! The greeting that the host shows.

use vstd::prelude::*;
use vstd::string::StringExecFns;

verus! {

/// The greeting for `name`: a fixed salutation and then the name as given.
pub open spec fn greeting(name: Seq<char>) -> Seq<char> {
    "Hello, wasm-game-of-life, "@ + name
}

/// Composes the greeting for `name`. Showing it is left to the caller.
pub fn greet(name: &str) -> (message: String)
    ensures
        message@ == greeting(name@),
{
    let mut message = String::from_str("Hello, wasm-game-of-life, ");
    message.append(name);
    message
}

} // verus!
