//! The tree of a YAML document as plain values, and the call into
//! `serde_yaml` that produces it.

use vstd::prelude::*;
use crate::components::Scalar;

verus! {

/// One node of a YAML document.
#[derive(Debug)]
pub enum Node {
    Null,
    Bool(bool),
    Number(Scalar),
    Text(String),
    Sequence(Vec<Node>),
    /// The entries in document order. `serde_yaml` rejects a mapping with a
    /// repeated key, so the keys of a parsed mapping are distinct.
    Mapping(Vec<(Node, Node)>),
    /// A value under a `!tag`. No part of the entity schema uses one.
    Tagged,
}

/// `serde_yaml::Value`, carried from the parser to `node_of` and not looked
/// into.
#[verifier::external_type_specification]
#[verifier::external_body]
pub struct ExYamlValue(serde_yaml::Value);

/// `serde_yaml::Error`, of which only the text is read.
#[verifier::external_type_specification]
#[verifier::external_body]
pub struct ExYamlError(serde_yaml::Error);

/// The tree that `serde_yaml` reads from a text, or `None` where the text is
/// not one well-formed YAML document.
pub uninterp spec fn yaml_tree(text: Seq<char>) -> Option<Node>;

/// What a `serde_yaml::Value` holds, as a tree of plain values.
pub uninterp spec fn tree_of(value: serde_yaml::Value) -> Node;

/// `serde_yaml::from_str` at `serde_yaml::Value`. Parsing is a function of
/// the text alone: it fails exactly where `yaml_tree` of the text is `None`,
/// and the value it yields holds `yaml_tree` of the text.
#[verifier::external_body]
pub(crate) fn read_value(text: &str) -> (r: Result<serde_yaml::Value, serde_yaml::Error>)
    ensures
        r is Ok <==> yaml_tree(text@) is Some,
        r matches Ok(value) ==> yaml_tree(text@) == Some(tree_of(value)),
{
    serde_yaml::from_str::<serde_yaml::Value>(text)
}

/// Takes a `serde_yaml::Value` apart, variant by variant, into the `Node`
/// with the same contents. A number becomes the bits of what
/// `Number::as_f64` gives for it; of a tagged value only the fact is kept.
#[verifier::external_body]
pub(crate) fn node_of(value: serde_yaml::Value) -> (node: Node)
    ensures
        node == tree_of(value),
{
    match value {
        serde_yaml::Value::Null => Node::Null,
        serde_yaml::Value::Bool(b) => Node::Bool(b),
        serde_yaml::Value::Number(n) => Node::Number(Scalar { bits: n.as_f64().unwrap_or_default().to_bits() }),
        serde_yaml::Value::String(s) => Node::Text(s),
        serde_yaml::Value::Sequence(items) => Node::Sequence(items.into_iter().map(node_of).collect()),
        serde_yaml::Value::Mapping(m) => Node::Mapping(m.into_iter().map(|(k, v)| (node_of(k), node_of(v))).collect()),
        serde_yaml::Value::Tagged(_) => Node::Tagged,
    }
}

/// `serde_yaml::Error`'s `Display` text: the message with its location.
/// Nothing is claimed of the text.
#[verifier::external_body]
pub(crate) fn error_text(error: &serde_yaml::Error) -> (text: String)
{
    error.to_string()
}

} // verus!
