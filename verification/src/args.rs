//! Choosing where the final path is written.
//!
//! The command line offers the target three ways; parsing the raw
//! arguments happens outside, and the precedence among what was found is
//! decided here.

use vstd::prelude::*;

verus! {

/// The output target: the long flag wins, then the short one, then the
/// first positional argument; with none of them the path goes to
/// standard output, written `-`.
pub fn choose_output_file(
    long: Option<String>,
    short: Option<String>,
    positional: Option<String>,
) -> (r: String)
    ensures
        long matches Some(v) ==> r@ == v@,
        long is None ==> (short matches Some(v) ==> r@ == v@),
        (long is None && short is None) ==> (positional matches Some(v) ==> r@ == v@),
        (long is None && short is None && positional is None) ==> r@ == "-"@,
{
    match long {
        Some(v) => v,
        None => match short {
            Some(v) => v,
            None => match positional {
                Some(v) => v,
                None => String::from_str("-"),
            },
        },
    }
}

} // verus!
