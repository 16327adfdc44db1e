//! The HTTP verb of a request, read from a test case's free-form text.

use crate::text::same_text;
use vstd::prelude::*;

verus! {

/// The verbs that a test case can ask for.
#[derive(Clone, Copy, Debug, PartialEq, Eq, Structural)]
pub enum Method {
    Get,
    Post,
    Put,
    Delete,
}

/// The upper-case form that `str::to_uppercase` gives a text. Rust defines it
/// by the Unicode character database alone, without regard to a locale, so the
/// same text always has the same upper-case form.
pub uninterp spec fn uppercased(text: Seq<char>) -> Seq<char>;

/// Calls `str::to_uppercase`. The contract claims only that the result is
/// [`uppercased`] of the text.
#[verifier::external_body]
fn to_uppercase(text: &str) -> (upper: String)
    ensures
        upper@ == uppercased(text@),
{
    text.to_uppercase()
}

/// The verb that an upper-case name stands for. A name that is none of `GET`,
/// `POST`, `PUT` and `DELETE` stands for `Get`.
pub open spec fn method_named(upper: Seq<char>) -> Method {
    if upper == "POST"@ {
        Method::Post
    } else if upper == "PUT"@ {
        Method::Put
    } else if upper == "DELETE"@ {
        Method::Delete
    } else {
        Method::Get
    }
}

/// Picks the verb for a name that is already in upper case.
pub fn method_from_upper(upper: &str) -> (method: Method)
    ensures
        method == method_named(upper@),
{
    if same_text(upper, "POST") {
        Method::Post
    } else if same_text(upper, "PUT") {
        Method::Put
    } else if same_text(upper, "DELETE") {
        Method::Delete
    } else {
        Method::Get
    }
}

/// Reads a verb without regard to case. Text that names none of the four
/// verbs is read as `Get`; it is never refused.
pub fn parse_method(method_str: &str) -> (method: Method)
    ensures
        method == method_named(uppercased(method_str@)),
{
    let upper = to_uppercase(method_str);
    method_from_upper(upper.as_str())
}

} // verus!
