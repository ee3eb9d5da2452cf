//! A flat, plain-value outline of an XML document, read with `roxmltree`.
//!
//! The outline lists the document's nodes in document order, starting with
//! the root; each node names its parent by position in the list.

use vstd::prelude::*;

verus! {

#[derive(Debug, Clone)]
pub struct XmlNode {
    /// Position of the parent node in the outline; `None` for the root.
    pub parent: Option<usize>,
    /// Whether the node is an element.
    pub element: bool,
    /// The element's local name (without namespace); empty for other nodes.
    pub name: String,
    /// The node's text: for an element, that of its first child when it is a
    /// text node; for a text or comment node, its own.
    pub text: Option<String>,
}

/// One node as plain values: parent position, element flag, local name, text.
pub type XmlNodeView = (Option<usize>, bool, Seq<char>, Option<Seq<char>>);

pub open spec fn node_view(n: XmlNode) -> XmlNodeView {
    (
        n.parent,
        n.element,
        n.name@,
        match n.text {
            Some(t) => Some(t@),
            None => None,
        },
    )
}

pub open spec fn node_views(v: Seq<XmlNode>) -> Seq<XmlNodeView> {
    v.map_values(|n: XmlNode| node_view(n))
}

/// The outline of `text` as `roxmltree::Document::parse` reads it, or `None`
/// when it is not well-formed XML.
pub uninterp spec fn xml_outline(text: Seq<char>) -> Option<Seq<XmlNodeView>>;

/// `roxmltree::Document::parse`, with the parsed document's nodes
/// (`Document::descendants`) converted to plain values. Parsing is a function
/// of the text alone; the error is roxmltree's message.
#[verifier::external_body]
pub(crate) fn parse_xml(text: &str) -> (res: Result<Vec<XmlNode>, String>)
    ensures
        res is Ok <==> xml_outline(text@) is Some,
        res matches Ok(v) ==> xml_outline(text@) == Some(node_views(v@)),
{
    match roxmltree::Document::parse(text) {
        Ok(doc) => Ok(doc.descendants().map(|n| XmlNode {
            parent: n.parent().map(|p| p.id().get_usize()),
            element: n.is_element(),
            name: n.tag_name().name().to_string(),
            text: n.text().map(|t| t.to_string()),
        }).collect()),
        Err(e) => Err(e.to_string()),
    }
}

} // verus!
