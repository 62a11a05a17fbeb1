//! The greeting that the extension module hands to Ren'Py scripts.

use vstd::prelude::*;

verus! {

/// The text of a greeting to `name`.
pub open spec fn greeting_text(name: Seq<char>) -> Seq<char> {
    "Hello from Rust to "@ + name + "!"@
}

/// Greets `name`: `"Hello from Rust to {name}!"`.
pub fn greet(name: &str) -> (r: String)
    ensures
        r@ == greeting_text(name@),
{
    let mut r = String::from_str("Hello from Rust to ");
    r.append(name);
    r.append("!");
    r
}

} // verus!
