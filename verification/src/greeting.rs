//! The greeting command handler: a fixed-template sentence around a
//! caller-supplied name.

use vstd::prelude::*;
use vstd::string::*;

verus! {

/// The sentence the greeting handler returns for `name`.
pub open spec fn greet_spec(name: Seq<char>) -> Seq<char> {
    "Hello, "@ + name + "! Welcome to AI Video Processing Assistant."@
}

/// Formats the greeting shown to the front end for `name`.
pub fn greet(name: &str) -> (r: String)
    ensures
        r@ == greet_spec(name@),
{
    let mut r = String::from_str("Hello, ");
    r.append(name);
    r.append("! Welcome to AI Video Processing Assistant.");
    r
}

/// The greeting embeds the caller's name verbatim: the characters right
/// after the salutation are exactly `name`, and everything around them is
/// the fixed template.
pub proof fn lemma_greet_contains_name(name: Seq<char>)
    ensures
        greet_spec(name).subrange(7, 7 + name.len() as int) == name,
        greet_spec(name).len() == name.len() + 50,
{
    reveal_strlit("Hello, ");
    reveal_strlit("! Welcome to AI Video Processing Assistant.");
    assert(greet_spec(name).subrange(7, 7 + name.len() as int) =~= name);
}

} // verus!
