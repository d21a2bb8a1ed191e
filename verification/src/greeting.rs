//! The greeting endpoint: a stateless text for a name.

use vstd::prelude::*;
use vstd::string::StringExecFns;

verus! {

/// The greeting for `name`, as a sequence of characters.
pub open spec fn greeting_text(name: Seq<char>) -> Seq<char> {
    "Hello "@ + name + "!"@
}

/// Builds the greeting for `name`.
pub fn greet(name: &str) -> (text: String)
    ensures
        text@ == greeting_text(name@),
{
    let text = String::from_str("Hello ");
    let text = text.concat(name);
    text.concat("!")
}

} // verus!
