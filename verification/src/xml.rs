//! XML documents as the flat list of their nodes in document order, each
//! with its parent, and navigation among them.
use vstd::prelude::*;

use crate::package::opt_view;

verus! {

/// One node of a parsed XML document.
#[derive(Clone, Debug)]
pub struct XmlNode {
    /// The node's identity within its document.
    pub id: usize,
    /// The identity of the node's parent; `None` for the document root.
    pub parent: Option<usize>,
    /// Whether the node is an element.
    pub element: bool,
    /// The local tag name of an element; empty for other nodes.
    pub tag: String,
    /// The text of the node: an element's leading text child, or the text of
    /// a text or comment node.
    pub text: Option<String>,
}

/// The mathematical value of an XML node.
pub struct XmlNodeView {
    pub id: usize,
    pub parent: Option<usize>,
    pub element: bool,
    pub tag: Seq<char>,
    pub text: Option<Seq<char>>,
}

impl View for XmlNode {
    type V = XmlNodeView;

    open spec fn view(&self) -> XmlNodeView {
        XmlNodeView {
            id: self.id,
            parent: self.parent,
            element: self.element,
            tag: self.tag@,
            text: opt_view(self.text),
        }
    }
}

/// The views of a list of nodes.
pub open spec fn node_views(v: Seq<XmlNode>) -> Seq<XmlNodeView> {
    v.map_values(|n: XmlNode| n@)
}

/// The nodes of the document that `text` holds, root first, in document
/// order, as `roxmltree` parses it; `None` when `text` is not well-formed XML.
pub uninterp spec fn xml_document(text: Seq<char>) -> Option<Seq<XmlNodeView>>;

/// Parses XML text with `roxmltree::Document::parse` and lists its nodes in
/// the order `Document::descendants` visits them (document order, the root
/// first), each with its id, its parent's id, whether it is an element, its
/// local tag name and its text. The contract claims that the result is
/// `xml_document` of the text, so equal texts give equal lists; what the
/// list holds is not stated beyond that.
#[verifier::external_body]
pub fn parse_xml(text: &str) -> (res: Option<Vec<XmlNode>>)
    ensures
        match res {
            Some(v) => xml_document(text@) == Some(node_views(v@)),
            None => xml_document(text@) is None,
        },
{
    match roxmltree::Document::parse(text) {
        Ok(doc) => Some(
            doc.descendants().map(
                |n| XmlNode {
                    id: n.id().get_usize(),
                    parent: n.parent().map(|p| p.id().get_usize()),
                    element: n.is_element(),
                    tag: n.tag_name().name().to_string(),
                    text: n.text().map(|t| t.to_string()),
                },
            ).collect(),
        ),
        Err(_) => None,
    }
}

/// The index of the first node at or after `from` that is a child of the
/// node `parent` with the tag `tag` (and an element, where `elements_only`).
pub open spec fn find_child_from(
    doc: Seq<XmlNodeView>,
    parent: usize,
    tag: Seq<char>,
    elements_only: bool,
    from: int,
) -> Option<int>
    decreases doc.len() - from,
{
    if from < 0 || from >= doc.len() {
        None
    } else if doc[from].parent == Some(parent) && (doc[from].element || !elements_only)
        && doc[from].tag == tag {
        Some(from)
    } else {
        find_child_from(doc, parent, tag, elements_only, from + 1)
    }
}

/// The index of the first child element of `parent` with the tag `tag`.
pub open spec fn child_element(doc: Seq<XmlNodeView>, parent: usize, tag: Seq<char>) -> Option<
    int,
> {
    find_child_from(doc, parent, tag, true, 0)
}

/// The text of the first child element of `parent` with the tag `tag`.
pub open spec fn child_text(doc: Seq<XmlNodeView>, parent: usize, tag: Seq<char>) -> Option<
    Seq<char>,
> {
    match child_element(doc, parent, tag) {
        Some(j) => doc[j].text,
        None => None,
    }
}

/// Characterisation of `find_child_from`.
pub proof fn lemma_find_child_from(
    doc: Seq<XmlNodeView>,
    parent: usize,
    tag: Seq<char>,
    elements_only: bool,
    from: int,
)
    requires
        0 <= from,
    ensures
        match find_child_from(doc, parent, tag, elements_only, from) {
            Some(j) => from <= j < doc.len(),
            None => true,
        },
    decreases doc.len() - from,
{
    if from < doc.len() {
        lemma_find_child_from(doc, parent, tag, elements_only, from + 1);
    }
}

/// The index of the first child of the node `parent` with the tag `tag`
/// (any child when `elements_only` is false, only elements otherwise).
pub fn find_child(doc: &Vec<XmlNode>, parent: usize, tag: &str, elements_only: bool) -> (res:
    Option<usize>)
    ensures
        match res {
            Some(j) => find_child_from(node_views(doc@), parent, tag@, elements_only, 0) == Some(
                j as int,
            ) && j < doc@.len(),
            None => find_child_from(node_views(doc@), parent, tag@, elements_only, 0) is None,
        },
{
    let ghost d = node_views(doc@);
    let mut i: usize = 0;
    while i < doc.len()
        invariant
            d == node_views(doc@),
            i <= doc@.len(),
            find_child_from(d, parent, tag@, elements_only, 0) == find_child_from(
                d,
                parent,
                tag@,
                elements_only,
                i as int,
            ),
        decreases doc@.len() - i,
    {
        let n = &doc[i];
        let matching = n.parent == Some(parent) && (n.element || !elements_only)
            && crate::text::str_eq(n.tag.as_str(), tag);
        proof {
            assert(d[i as int] == doc@[i as int]@);
        }
        if matching {
            return Some(i);
        }
        i = i + 1;
    }
    None
}

/// The text of the first child element of `parent` with the tag `tag`.
pub fn find_child_text(doc: &Vec<XmlNode>, parent: usize, tag: &str) -> (res: Option<String>)
    ensures
        opt_view(res) == child_text(node_views(doc@), parent, tag@),
{
    match find_child(doc, parent, tag, true) {
        Some(j) => {
            proof {
                assert(node_views(doc@)[j as int] == doc@[j as int]@);
            }
            match &doc[j].text {
                Some(t) => Some(t.clone()),
                None => None,
            }
        },
        None => None,
    }
}

} // verus!
