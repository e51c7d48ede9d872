//! The TOML reader and writer of the `toml` crate, behind the document tree.
//!
//! Nothing here is proved: each item states what the crate's function is
//! taken to do, and the rest of the library is verified against that.

use crate::document::{node_writable, Entry, Node, NodeView};
use vstd::prelude::*;

verus! {

/// A TOML value of the `toml` crate; the library only passes it on.
#[verifier::external_type_specification]
#[verifier::external_body]
pub struct ExTomlValue(toml::Value);

/// The error of `toml::from_str`.
#[verifier::external_type_specification]
#[verifier::external_body]
pub struct ExTomlReadError(toml::de::Error);

/// The error of `toml::to_string` and `toml::to_string_pretty`.
#[verifier::external_type_specification]
#[verifier::external_body]
pub struct ExTomlWriteError(toml::ser::Error);

/// What a TOML value holds: strings, integers, booleans, arrays and tables
/// as they are, and `Other` for a float or a date-time.
pub uninterp spec fn toml_content(value: toml::Value) -> NodeView;

/// The content of the document that `toml::from_str` reads from `text`;
/// `None` where it rejects the text.
pub uninterp spec fn toml_document(text: Seq<char>) -> Option<NodeView>;

/// The text that `toml::to_string` writes for the value with this content;
/// `None` where it refuses the value.
pub uninterp spec fn toml_text(content: NodeView) -> Option<Seq<char>>;

/// The text that `toml::to_string_pretty` writes for the value with this
/// content; `None` where it refuses the value.
pub uninterp spec fn toml_pretty_text(content: NodeView) -> Option<Seq<char>>;

/// Calls `toml::from_str` for a `toml::Value`. The contract only names the
/// outcome: the same text always reads as the same content, or is always
/// rejected.
#[verifier::external_body]
pub(crate) fn read_toml(text: &str) -> (r: Result<toml::Value, toml::de::Error>)
    ensures
        match r {
            Ok(value) => toml_document(text@) == Some(toml_content(value)),
            Err(_) => toml_document(text@) is None,
        },
{
    toml::from_str::<toml::Value>(text)
}

/// Copies a `toml::Value` into a document tree, variant by variant. A table's
/// entries come in the order in which the crate's map walks them.
#[verifier::external_body]
pub(crate) fn node_of_toml(value: &toml::Value) -> (r: Node)
    ensures
        r@ == toml_content(*value),
{
    match value {
        toml::Value::String(s) => Node::Text(s.clone()),
        toml::Value::Integer(i) => Node::Integer(*i as i128),
        toml::Value::Boolean(b) => Node::Flag(*b),
        toml::Value::Array(a) => Node::List(a.iter().map(node_of_toml).collect()),
        toml::Value::Table(t) => Node::Table(
            t.iter().map(|(k, v)| Entry { key: k.clone(), value: node_of_toml(v) }).collect(),
        ),
        toml::Value::Float(_) | toml::Value::Datetime(_) => Node::Other,
    }
}

/// Builds the `toml::Value` that holds what a document tree holds: strings,
/// integers, booleans and lists as they are, and a table by `Map::insert`,
/// entry by entry in order, which replaces the value of a name that is
/// there already, as the tree's content lets the later entry stand. There
/// is no value for a node of an unused kind nor for an integer that
/// `i64::try_from` refuses; a tree without either always has one.
#[verifier::external_body]
pub(crate) fn toml_of_node(node: &Node) -> (r: Option<toml::Value>)
    ensures
        r matches Some(value) ==> toml_content(value) == node@,
        node_writable(*node) ==> r is Some,
{
    Some(match node {
        Node::Text(s) => toml::Value::String(s.clone()),
        Node::Integer(i) => toml::Value::Integer(i64::try_from(*i).ok()?),
        Node::Flag(b) => toml::Value::Boolean(*b),
        Node::List(items) => toml::Value::Array(items.iter().map(toml_of_node).collect::<Option<_>>()?),
        Node::Table(entries) => {
            let mut table = toml::map::Map::new();
            for entry in entries {
                table.insert(entry.key.clone(), toml_of_node(&entry.value)?);
            }
            toml::Value::Table(table)
        },
        Node::Other => return None,
    })
}

/// Calls `toml::to_string`. For a value without floats and date-times the
/// content determines the value, so the outcome is named by the content.
#[verifier::external_body]
pub(crate) fn write_toml(value: &toml::Value) -> (r: Result<String, toml::ser::Error>)
    ensures
        toml_content(*value).plain() ==> match r {
            Ok(text) => toml_text(toml_content(*value)) == Some(text@),
            Err(_) => toml_text(toml_content(*value)) is None,
        },
{
    toml::to_string(value)
}

/// Calls `toml::to_string_pretty`, which differs from `toml::to_string` in
/// layout only. The outcome is named as for [`write_toml`].
#[verifier::external_body]
pub(crate) fn write_toml_pretty(value: &toml::Value) -> (r: Result<String, toml::ser::Error>)
    ensures
        toml_content(*value).plain() ==> match r {
            Ok(text) => toml_pretty_text(toml_content(*value)) == Some(text@),
            Err(_) => toml_pretty_text(toml_content(*value)) is None,
        },
{
    toml::to_string_pretty(value)
}

} // verus!
