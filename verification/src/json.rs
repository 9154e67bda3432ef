//! The list of role ids that the panel stores as a JSON array of strings.

use vstd::prelude::*;

verus! {

/// What `serde_json::from_str::<Vec<String>>` gives for a text: the list of
/// strings, or `None` when the text is not a JSON array of strings.
pub uninterp spec fn json_string_list(text: Seq<char>) -> Option<Seq<Seq<char>>>;

/// What `serde_json::to_string` gives for a list of strings, or `None` when
/// serialization fails.
pub uninterp spec fn json_of_strings(list: Seq<Seq<char>>) -> Option<Seq<char>>;

/// Wraps `serde_json::from_str::<Vec<String>>`. Claims that the result is the
/// named parse of `text`, and that the empty array `[]` parses to the empty
/// list.
#[verifier::external_body]
pub(crate) fn parse_string_list(text: &str) -> (r: Option<Vec<String>>)
    ensures
        r is Some <==> json_string_list(text@) is Some,
        r is Some ==> r.unwrap().deep_view() == json_string_list(text@).unwrap(),
        text@ == "[]"@ ==> (r is Some && r.unwrap()@.len() == 0),
{
    serde_json::from_str::<Vec<String>>(text).ok()
}

/// Wraps `serde_json::to_string` on a list of strings. Claims that the result
/// is the named JSON text of the list; that serialization succeeds, as
/// serde_json fails only for a failing `Serialize` impl or a map with
/// non-string keys, neither of which a list of strings has; and that the
/// text parses back to the same list: serde_json writes each string as a
/// JSON string literal with every character that needs it escaped, and
/// `from_str` reads the escapes back.
#[verifier::external_body]
pub(crate) fn string_list_to_json(list: &Vec<String>) -> (r: Option<String>)
    ensures
        r is Some,
        r is Some <==> json_of_strings(list.deep_view()) is Some,
        r is Some ==> r.unwrap()@ == json_of_strings(list.deep_view()).unwrap(),
        r is Some ==> json_string_list(r.unwrap()@) == Some(list.deep_view()),
{
    serde_json::to_string(list).ok()
}

/// The role ids stored as JSON, or none when the stored text is not a list
/// of strings.
pub open spec fn stored_roles(text: Seq<char>) -> Seq<Seq<char>> {
    match json_string_list(text) {
        Some(l) => l,
        None => Seq::empty(),
    }
}

/// Reads the stored role ids; unreadable JSON counts as no roles at all.
pub fn roles_from_json(text: &str) -> (r: Vec<String>)
    ensures
        r.deep_view() == stored_roles(text@),
        text@ == "[]"@ ==> r@.len() == 0,
{
    match parse_string_list(text) {
        Some(v) => v,
        None => {
            let v: Vec<String> = Vec::new();
            proof {
                assert(v.deep_view() =~= Seq::<Seq<char>>::empty());
            }
            v
        },
    }
}

/// The JSON text that stores role ids; `[]` if serialization fails.
pub open spec fn roles_json(list: Seq<Seq<char>>) -> Seq<char> {
    match json_of_strings(list) {
        Some(t) => t,
        None => "[]"@,
    }
}

/// Writes role ids as JSON for storage; the stored text reads back as the
/// same roles.
pub fn roles_to_json(list: &Vec<String>) -> (r: String)
    ensures
        r@ == roles_json(list.deep_view()),
        stored_roles(r@) == list.deep_view(),
{
    match string_list_to_json(list) {
        Some(t) => t,
        None => String::from_str("[]"),
    }
}

} // verus!
