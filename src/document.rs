//! TOML text as a tree of plain values.
use vstd::prelude::*;

verus! {

/// A TOML value. Floats are held as the bit pattern of their IEEE-754
/// double; a table keeps its keys, each once.
#[derive(Debug)]
pub enum Node {
    Text(String),
    Integer(i64),
    Float(u64),
    Boolean(bool),
    Datetime,
    List(Vec<Node>),
    Table(Vec<(String, Node)>),
}

/// A parsed TOML value, carried from the parser into [`node_of`].
#[verifier::external_type_specification]
#[verifier::external_body]
pub struct ExTomlValue(toml::Value);

/// What the TOML parser makes of `text`: the tree of the document, or the
/// parser's diagnostic (which gives the line and column) where it refuses
/// the text.
pub uninterp spec fn toml_parse(text: Seq<char>) -> Result<Node, Seq<char>>;

/// Relies on `toml::from_str` (into `toml::Table`) to parse the document.
/// Its outcome depends on the text alone: the document's tree, or an error
/// where the text is not TOML or nests deeper than the parser allows.
#[verifier::external_body]
pub(crate) fn parse_toml(text: &str) -> (r: Result<Node, String>)
    ensures
        match r {
            Ok(tree) => toml_parse(text@) == Ok::<Node, Seq<char>>(tree),
            Err(e) => toml_parse(text@) == Err::<Node, Seq<char>>(e@),
        },
{
    match toml::from_str::<toml::Table>(text) {
        Ok(table) => Ok(node_of(toml::Value::Table(table))),
        Err(e) => Err(e.to_string()),
    }
}

/// The conversion half of [`parse_toml`]: moves a `toml::Value` into a
/// [`Node`], variant for variant. It recurses, so it stands apart; it
/// promises nothing, and what is known of its result comes from
/// [`parse_toml`].
#[verifier::external_body]
fn node_of(v: toml::Value) -> Node {
    match v {
        toml::Value::String(s) => Node::Text(s),
        toml::Value::Integer(i) => Node::Integer(i),
        toml::Value::Float(x) => Node::Float(x.to_bits()),
        toml::Value::Boolean(b) => Node::Boolean(b),
        toml::Value::Datetime(_) => Node::Datetime,
        toml::Value::Array(a) => Node::List(a.into_iter().map(node_of).collect()),
        toml::Value::Table(t) => Node::Table(t.into_iter().map(|(k, x)| (k, node_of(x))).collect()),
    }
}

} // verus!
