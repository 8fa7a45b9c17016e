//! The console's switchable modes.

use vstd::prelude::*;
use vstd::string::StringExecFns;

verus! {

/// Whether `mode` names a mode the console can switch to.
pub fn is_valid_mode(mode: &str) -> (r: bool)
    ensures
        r == (mode@ == "memo"@ || mode@ == "review"@),
{
    crate::render::str_eq(mode, "memo") || crate::render::str_eq(mode, "review")
}

/// The modes the console can switch to, in menu order.
pub fn get_available_modes() -> (r: Vec<String>)
    ensures
        r@.len() == 2,
        r@[0]@ == "memo"@,
        r@[1]@ == "review"@,
{
    let mut v: Vec<String> = Vec::new();
    v.push(String::from_str("memo"));
    v.push(String::from_str("review"));
    v
}

} // verus!
