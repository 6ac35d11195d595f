use vstd::prelude::*;
use crate::config::{parse_config, parse_spec, Config, ConfigError};
use crate::node::Node;

verus! {

#[verifier::external_type_specification]
#[verifier::external_body]
pub struct ExTomlError(toml::de::Error);

#[verifier::external_type_specification]
#[verifier::external_body]
pub struct ExTomlValue(toml::Value);

/// The tree that the TOML document `text` holds, or `None` when the text is
/// not a well-formed document.
pub uninterp spec fn toml_document(text: Seq<char>) -> Option<Node>;

/// Relies on toml's `FromStr` for `toml::Value` (`toml::from_str`): parses
/// `text` as a document; the tree depends on the text alone.
#[verifier::external_body]
fn parse_document(text: &str) -> (r: Result<Node, toml::de::Error>)
    ensures
        match r {
            Ok(n) => toml_document(text@) == Some(n),
            Err(_) => toml_document(text@) is None,
        },
{
    text.parse::<toml::Value>().map(|v| node_of(&v))
}

/// Relies on the variants of `toml::Value`: strings and tables are carried
/// over entry by entry, in the table's own order; any other value becomes
/// `Node::Other`.
#[verifier::external_body]
fn node_of(v: &toml::Value) -> Node {
    match v {
        toml::Value::String(s) => Node::Str(s.clone()),
        toml::Value::Table(t) => Node::Table(t.iter().map(|(k, x)| (k.clone(), node_of(x))).collect()),
        _ => Node::Other,
    }
}

/// Parses the text of a configuration file into its links: a syntax error
/// when the text is not a well-formed document, otherwise what
/// `parse_config` gives on the document's root.
pub fn load_config(text: &str) -> (r: Result<Vec<Config>, ConfigError>)
    ensures
        match toml_document(text@) {
            None => r matches Err(ConfigError::Syntax(_)),
            Some(root) => match parse_spec(root) {
                Ok(cs) => r is Ok && r->Ok_0@ == cs,
                Err(e) => r matches Err(x) && x == e,
            },
        },
{
    match parse_document(text) {
        Ok(root) => parse_config(&root),
        Err(e) => Err(ConfigError::Syntax(e)),
    }
}

} // verus!
