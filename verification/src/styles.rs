//! Utility-class strings for the front end, composed verifiably:
//! combining two class lists always yields exactly the two lists with
//! one space between them.

use vstd::prelude::*;
use vstd::string::{StrSliceExecFns, StringExecFns};

verus! {

/// Base classes every button carries.
pub const BUTTON_BASE: &'static str =
    "px-5 py-2 rounded-lg font-medium text-white transition-all duration-150 disabled:opacity-50 disabled:cursor-not-allowed";

/// The primary button's colour classes.
pub const BUTTON_PRIMARY: &'static str =
    "bg-blue-600 hover:bg-blue-700 focus:ring-2 focus:ring-blue-400 focus:outline-none";

/// Classes that stretch a button to the full width.
pub const BUTTON_FULL: &'static str =
    "w-full py-3 px-5 font-semibold rounded-lg transition-all duration-150 disabled:opacity-50 disabled:cursor-not-allowed mt-8";

/// The shell of every alert card.
pub const ALERT_CARD: &'static str = "p-4 rounded-lg shadow-md mb-6";

/// Two class lists, separated by one space.
pub fn combine_classes(base: &str, additional: &str) -> (r: String)
    ensures
        r@ == base@ + " "@ + additional@,
{
    let mut s = base.to_owned();
    s.append(" ");
    s.append(additional);
    s
}

/// The primary button's classes, stretched to full width on demand.
pub fn button_primary(full_width: bool) -> (r: String)
    ensures
        full_width ==> r@ == BUTTON_BASE@ + " "@ + (BUTTON_PRIMARY@ + " "@ + BUTTON_FULL@),
        !full_width ==> r@ == BUTTON_BASE@ + " "@ + BUTTON_PRIMARY@,
{
    if full_width {
        let tail = combine_classes(BUTTON_PRIMARY, BUTTON_FULL);
        combine_classes(BUTTON_BASE, tail.as_str())
    } else {
        combine_classes(BUTTON_BASE, BUTTON_PRIMARY)
    }
}

/// The alert card's classes for a named style; anything unrecognized
/// gets the informational blue.
pub fn alert_style(style: &str) -> (r: String)
    ensures
        style@ == "error"@ ==> r@ == ALERT_CARD@ + " "@ + "bg-red-500 text-white shadow-lg"@,
        style@ == "success"@ ==> r@ == ALERT_CARD@ + " "@ + "bg-green-500 text-white shadow-lg"@,
        style@ == "warning"@ ==> r@ == ALERT_CARD@ + " "@ + "bg-yellow-500 text-white shadow-lg"@,
        style@ != "error"@ && style@ != "success"@ && style@ != "warning"@ ==> r@ == ALERT_CARD@
            + " "@ + "bg-blue-500 text-white shadow-lg"@,
{
    proof {
        reveal_strlit("error");
        reveal_strlit("success");
        reveal_strlit("warning");
        assert("error"@.len() == 5);
        assert("success"@.len() == 7);
        assert("warning"@.len() == 7);
        assert("success"@[0] == 's');
        assert("warning"@[0] == 'w');
        assert("error"@ != "success"@ && "error"@ != "warning"@);
        assert("success"@ != "warning"@);
    }
    if str_eq(style, "error") {
        combine_classes(ALERT_CARD, "bg-red-500 text-white shadow-lg")
    } else if str_eq(style, "success") {
        combine_classes(ALERT_CARD, "bg-green-500 text-white shadow-lg")
    } else if str_eq(style, "warning") {
        combine_classes(ALERT_CARD, "bg-yellow-500 text-white shadow-lg")
    } else {
        combine_classes(ALERT_CARD, "bg-blue-500 text-white shadow-lg")
    }
}

/// Whether two string slices hold the same characters.
fn str_eq(a: &str, b: &str) -> (r: bool)
    ensures
        r == (a@ == b@),
{
    let sa = a.to_owned();
    let sb = b.to_owned();
    sa == sb
}

} // verus!
