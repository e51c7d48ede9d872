//! The JSON reader of the `serde_json` crate, behind the document tree.
//!
//! Nothing here is proved: each item states what the crate's function is
//! taken to do, and the rest of the library is verified against that.

use crate::document::{Entry, Node, NodeView};
use vstd::prelude::*;

verus! {

/// A JSON value of the `serde_json` crate; the library only passes it on.
#[verifier::external_type_specification]
#[verifier::external_body]
pub struct ExJsonValue(serde_json::Value);

/// The error of `serde_json::from_str`.
#[verifier::external_type_specification]
#[verifier::external_body]
pub struct ExJsonError(serde_json::Error);

/// What a JSON value holds: strings, booleans, arrays and objects as they
/// are, a number as an integer where `Number::as_i128` gives one, and `Other`
/// for `null` and for any other number.
pub uninterp spec fn json_content(value: serde_json::Value) -> NodeView;

/// The content of the value that `serde_json::from_str` reads from `text`;
/// `None` where it rejects the text.
pub uninterp spec fn json_document(text: Seq<char>) -> Option<NodeView>;

/// Calls `serde_json::from_str` for a `serde_json::Value`. The contract only
/// names the outcome: the same text always reads as the same content, or is
/// always rejected.
#[verifier::external_body]
pub(crate) fn read_json(text: &str) -> (r: Result<serde_json::Value, serde_json::Error>)
    ensures
        match r {
            Ok(value) => json_document(text@) == Some(json_content(value)),
            Err(_) => json_document(text@) is None,
        },
{
    serde_json::from_str::<serde_json::Value>(text)
}

/// Copies a `serde_json::Value` into a document tree, variant by variant. An
/// object's entries come in the order in which the crate's map walks them.
#[verifier::external_body]
pub(crate) fn node_of_json(value: &serde_json::Value) -> (r: Node)
    ensures
        r@ == json_content(*value),
{
    match value {
        serde_json::Value::String(s) => Node::Text(s.clone()),
        serde_json::Value::Number(n) => n.as_i128().map_or(Node::Other, Node::Integer),
        serde_json::Value::Bool(b) => Node::Flag(*b),
        serde_json::Value::Array(a) => Node::List(a.iter().map(node_of_json).collect()),
        serde_json::Value::Object(o) => Node::Table(
            o.iter().map(|(k, v)| Entry { key: k.clone(), value: node_of_json(v) }).collect(),
        ),
        serde_json::Value::Null => Node::Other,
    }
}

} // verus!
