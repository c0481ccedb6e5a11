//! The JSON documents of the engine, as far as the engine reads them.
//!
//! Parsing and rendering are the work of `serde_json`. Nothing in this file
//! is proved: each function states what the `serde_json` function that it
//! calls does, in terms of a few uninterpreted observations of a document
//! node. The rest of the library is verified against these statements.

use vstd::prelude::*;

verus! {

/// Declares `serde_json::Value`, a node of a JSON document. Nothing of what
/// is inside a node is known but through the observations below.
#[verifier::external_type_specification]
#[verifier::external_body]
pub struct ExValue(serde_json::Value);

/// What `serde_json::from_str` makes of a text: the root node of the
/// document, or the message of the fault that it found.
pub uninterp spec fn json_document(text: Seq<char>) -> Result<serde_json::Value, Seq<char>>;

/// The text of a node that is a JSON string; `None` for any other node.
pub uninterp spec fn json_text(node: serde_json::Value) -> Option<Seq<char>>;

/// The elements of a node that is a JSON array; `None` for any other node.
pub uninterp spec fn json_items(node: serde_json::Value) -> Option<Seq<serde_json::Value>>;

/// The member that a JSON object holds under a key; `None` where the node is
/// no object or holds no such member.
pub uninterp spec fn json_member(node: serde_json::Value, key: Seq<char>) -> Option<
    serde_json::Value,
>;

/// What `serde_json::to_string` renders a node as, where it renders it.
pub uninterp spec fn json_rendering(node: serde_json::Value) -> Option<Seq<char>>;

/// Whether the keys of a list of members differ from each other.
pub open spec fn distinct_keys(members: Seq<(String, serde_json::Value)>) -> bool {
    forall|i: int, j: int| 0 <= i < j < members.len() ==> members[i].0@ != members[j].0@
}

/// Calls `serde_json::from_str` for a `serde_json::Value`. The result is a
/// function of the text alone: the root node, or the fault's message as
/// `serde_json` words it.
#[verifier::external_body]
pub(crate) fn parse(text: &str) -> (r: Result<serde_json::Value, String>)
    ensures
        match r {
            Ok(node) => json_document(text@) == Ok::<serde_json::Value, Seq<char>>(node),
            Err(detail) => json_document(text@) == Err::<serde_json::Value, Seq<char>>(detail@),
        },
{
    serde_json::from_str::<serde_json::Value>(text).map_err(|fault| fault.to_string())
}

/// Calls `serde_json::to_string` on a node. The rendering, where there is
/// one, is a function of the node alone.
#[verifier::external_body]
pub(crate) fn render(node: &serde_json::Value) -> (r: Option<String>)
    ensures
        match r {
            Some(text) => json_rendering(*node) == Some(text@),
            None => json_rendering(*node) is None,
        },
{
    serde_json::to_string(node).ok()
}

/// Calls `Value::as_str`: the text of a JSON string, `None` for any other
/// node.
#[verifier::external_body]
pub(crate) fn node_text(node: &serde_json::Value) -> (r: Option<&str>)
    ensures
        match r {
            Some(text) => json_text(*node) == Some(text@),
            None => json_text(*node) is None,
        },
{
    node.as_str()
}

/// Calls `Value::as_array`: the elements of a JSON array, `None` for any
/// other node.
#[verifier::external_body]
pub(crate) fn node_items(node: &serde_json::Value) -> (r: Option<&Vec<serde_json::Value>>)
    ensures
        match r {
            Some(items) => json_items(*node) == Some(items@),
            None => json_items(*node) is None,
        },
{
    node.as_array()
}

/// Calls `Value::get` with a text: the member of a JSON object under that
/// key, `None` where the node is no object or has no such member.
#[verifier::external_body]
pub(crate) fn node_member<'a>(node: &'a serde_json::Value, key: &str) -> (r: Option<
    &'a serde_json::Value,
>)
    ensures
        match r {
            Some(member) => json_member(*node, key@) == Some(*member),
            None => json_member(*node, key@) is None,
        },
{
    node.get(key)
}

/// Makes a `Value::String`: a node that is a JSON string of the given text,
/// and so neither an array nor an object.
#[verifier::external_body]
pub(crate) fn text_node(text: String) -> (node: serde_json::Value)
    ensures
        json_text(node) == Some(text@),
        json_items(node) is None,
        forall|key: Seq<char>| (#[trigger] json_member(node, key)) is None,
{
    serde_json::Value::String(text)
}

/// Makes a `Value::Array`: a node that is a JSON array of the given
/// elements, and so neither a string nor an object.
#[verifier::external_body]
pub(crate) fn list_node(items: Vec<serde_json::Value>) -> (node: serde_json::Value)
    ensures
        json_items(node) == Some(items@),
        json_text(node) is None,
        forall|key: Seq<char>| (#[trigger] json_member(node, key)) is None,
{
    serde_json::Value::Array(items)
}

/// Makes a `Value::Object` by collecting members whose keys differ into a
/// `serde_json::Map`: a node that is a JSON object with exactly these
/// members, and so neither a string nor an array.
#[verifier::external_body]
pub(crate) fn object_node(members: Vec<(String, serde_json::Value)>) -> (node: serde_json::Value)
    requires
        distinct_keys(members@),
    ensures
        forall|i: int|
            0 <= i < members.len() ==> json_member(node, (#[trigger] members[i]).0@) == Some(
                members[i].1,
            ),
        forall|key: Seq<char>|
            (forall|i: int| 0 <= i < members.len() ==> members[i].0@ != key) ==> (
            #[trigger] json_member(node, key)) is None,
        json_text(node) is None,
        json_items(node) is None,
{
    serde_json::Value::Object(members.into_iter().collect())
}

} // verus!
