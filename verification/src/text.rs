//! Names of settings as they are typed: upper and lower case count as the
//! same.

use vstd::prelude::*;
use vstd::string::*;

verus! {

/// What `str::to_uppercase` makes of a text.
pub uninterp spec fn uppercase(s: Seq<char>) -> Seq<char>;

/// The upper case form of `s`, as `str::to_uppercase` of the standard
/// library gives it. The rules of Unicode that it follows are not restated
/// here: the result is a function of the text, and that is all that is
/// claimed.
#[verifier::external_body]
pub(crate) fn to_uppercase(s: &str) -> (upper: String)
    ensures
        upper@ == uppercase(s@),
{
    s.to_uppercase()
}

/// The complaint about a text that names no value of the kind `kind`.
pub open spec fn not_valid(given: Seq<char>, kind: Seq<char>) -> Seq<char> {
    "'"@ + given + "' is not a valid value for "@ + kind
}

/// Writes the complaint about a text that names no value of the kind `kind`.
pub fn complain(given: &str, kind: &str) -> (message: String)
    ensures
        message@ == not_valid(given@, kind@),
{
    let message = String::from_str("'").concat(given).concat("' is not a valid value for ").concat(
        kind,
    );
    message
}

/// Whether `text` reads exactly `name`.
pub fn reads(text: &String, name: &str) -> (same: bool)
    ensures
        same == (text@ == name@),
{
    let name = String::from_str(name);
    *text == name
}

} // verus!
