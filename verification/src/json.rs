//! Lists of strings as JSON text.
use vstd::prelude::*;

verus! {

/// What `serde_json::from_str::<Vec<String>>` reads from a text, if it reads it.
pub uninterp spec fn parsed_strings(text: Seq<char>) -> Option<Seq<Seq<char>>>;

/// The text that `serde_json::to_string` writes for a list of strings.
pub uninterp spec fn printed_strings(list: Seq<Seq<char>>) -> Seq<char>;

/// `serde_json::from_str::<Vec<String>>`: the list that the JSON text holds, or
/// nothing where the text is no JSON array of strings.
#[verifier::external_body]
pub(crate) fn parse_strings(text: &str) -> (list: Option<Vec<String>>)
    ensures
        list.deep_view() == parsed_strings(text@),
{
    serde_json::from_str::<Vec<String>>(text).ok()
}

/// `serde_json::to_string` on a list of strings, which it always can write. What
/// it writes reads back as the same list.
#[verifier::external_body]
pub(crate) fn print_strings(list: &Vec<String>) -> (text: String)
    ensures
        text@ == printed_strings(list.deep_view()),
        parsed_strings(text@) == Some(list.deep_view()),
{
    serde_json::to_string(list).unwrap()
}

} // verus!
