//! A parsed HTML document as a table of nodes in document order.

use vstd::prelude::*;

verus! {

/// One node of a parsed document.
#[derive(Clone, Debug)]
pub struct DomNode {
    /// Index of the enclosing node, if there is one.
    pub parent: Option<usize>,
    /// The tag name where the node is an element.
    pub tag: Option<String>,
    /// The attributes of an element, in source order.
    pub attrs: Vec<(String, String)>,
    /// The text of the node and of everything below it.
    pub text: String,
}

/// What a node holds, as mathematical values.
pub struct NodeView {
    pub parent: Option<int>,
    pub tag: Option<Seq<char>>,
    pub attrs: Seq<(Seq<char>, Seq<char>)>,
    pub text: Seq<char>,
}

impl View for DomNode {
    type V = NodeView;

    open spec fn view(&self) -> NodeView {
        NodeView {
            parent: match self.parent {
                Some(p) => Some(p as int),
                None => None,
            },
            tag: match self.tag {
                Some(t) => Some(t@),
                None => None,
            },
            attrs: self.attrs@.map_values(|a: (String, String)| (a.0@, a.1@)),
            text: self.text@,
        }
    }
}

/// The views of a table of nodes.
pub open spec fn node_views(nodes: Seq<DomNode>) -> Seq<NodeView> {
    nodes.map_values(|n: DomNode| n@)
}

/// The node table that the HTML parser produces for a text.
pub uninterp spec fn html_nodes(html: Seq<char>) -> Seq<NodeView>;

/// Parses `html` with `select::document::Document::from` and copies each node
/// out of the parser's table: its parent (`Node::parent`), its tag
/// (`Node::name`), its attributes (`Node::attrs`) and its text
/// (`Node::text`). The contract claims only that the table is a function of
/// the text alone.
#[verifier::external_body]
fn parse_nodes(html: &str) -> (r: Vec<DomNode>)
    ensures
        node_views(r@) == html_nodes(html@),
{
    let doc = select::document::Document::from(html);
    let node = |i: usize| doc.nth(i).unwrap();
    (0..doc.nodes.len()).map(|i| DomNode {
        parent: node(i).parent().map(|p| p.index()),
        tag: node(i).name().map(|t| t.to_string()),
        attrs: node(i).attrs().map(|(k, v)| (k.to_string(), v.to_string())).collect(),
        text: node(i).text(),
    }).collect()
}

/// A parsed document: its nodes in document order.
#[derive(Clone, Debug)]
pub struct Dom {
    pub nodes: Vec<DomNode>,
}

impl View for Dom {
    type V = Seq<NodeView>;

    open spec fn view(&self) -> Seq<NodeView> {
        node_views(self.nodes@)
    }
}

impl Dom {
    /// Parses an HTML text.
    pub fn parse(html: &str) -> (r: Dom)
        ensures
            r@ == html_nodes(html@),
    {
        Dom { nodes: parse_nodes(html) }
    }

    /// The number of nodes.
    pub fn len(&self) -> (r: usize)
        ensures
            r == self@.len(),
    {
        self.nodes.len()
    }
}

} // verus!
