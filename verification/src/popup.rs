//! The decisions inside the blocking popups.
//!
//! The popups themselves — drawing a frame, polling for a key — are
//! terminal work and stay outside; what they decide on each keypress is
//! here.

use vstd::prelude::*;

verus! {

/// What one keypress does to the confirmation popup: `y` accepts, `n`
/// declines, anything else keeps it waiting.
pub fn confirm_key_decision(key: char) -> (r: Option<bool>)
    ensures
        key == 'y' ==> r == Some(true),
        key == 'n' ==> r == Some(false),
        (key != 'y' && key != 'n') ==> r is None,
{
    if key == 'y' {
        Some(true)
    } else if key == 'n' {
        Some(false)
    } else {
        None
    }
}

} // verus!
