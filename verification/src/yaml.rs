//! YAML documents, parsed by the `saphyr` crate into a tree of plain values.
use vstd::prelude::*;

use saphyr::LoadableYamlNode;

verus! {

#[verifier::external_type_specification]
#[verifier::external_body]
pub struct ExYaml<'input>(saphyr::Yaml<'input>);

/// A YAML node as far as the scanner reads it: strings, mappings in document
/// order, sequences, and everything else.
#[derive(Debug)]
pub enum YamlNode {
    Str(String),
    Mapping(Vec<(YamlNode, YamlNode)>),
    Sequence(Vec<YamlNode>),
    Other,
}

/// What parsing `content` gives: the first document, none for an empty
/// stream, or the parser's error message.
pub uninterp spec fn yaml_first_document(content: Seq<char>) -> Result<Option<YamlNode>, Seq<char>>;

pub open spec fn parse_view(r: Result<Option<YamlNode>, String>) -> Result<Option<YamlNode>, Seq<char>> {
    match r {
        Ok(d) => Ok(d),
        Err(e) => Err(e@),
    }
}

/// Parses `content` with `saphyr::Yaml::load_from_str` (which refuses
/// duplicate mapping keys) and gives its first document as a tree.
#[verifier::external_body]
pub(crate) fn parse_first_document(content: &str) -> (r: Result<Option<YamlNode>, String>)
    ensures
        parse_view(r) == yaml_first_document(content@),
{
    match saphyr::Yaml::load_from_str(content) {
        Ok(documents) => Ok(documents.first().map(node_of)),
        Err(error) => Err(error.to_string()),
    }
}

/// The tree of a `saphyr::Yaml` node: string scalars (`Yaml::as_str`),
/// mappings and sequences one for one, and everything else as `Other`.
#[verifier::external_body]
fn node_of(node: &saphyr::Yaml<'_>) -> YamlNode {
    match node {
        saphyr::Yaml::Mapping(m) => YamlNode::Mapping(m.iter().map(|(k, v)| (node_of(k), node_of(v))).collect()),
        saphyr::Yaml::Sequence(s) => YamlNode::Sequence(s.iter().map(node_of).collect()),
        other => match other.as_str() {
            Some(text) => YamlNode::Str(text.to_string()),
            None => YamlNode::Other,
        },
    }
}

} // verus!
