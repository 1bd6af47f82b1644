//! Parsed source documents.

use vstd::prelude::*;
use crate::xml::{
    build_forest, document_root, entries, forest_listing, lemma_forest_lists_every_node,
    lemma_height_bound, raw_view, NodeModel, RawNode, RawNodeModel, XmlAttribute, XmlNode,
};

verus! {

/// The error type of `roxmltree`, carried through as it is: nothing is
/// stated of what an error holds.
#[verifier::external_type_specification]
#[verifier::external_body]
pub struct ExParseError(roxmltree::Error);

/// The node list that `roxmltree` finds in `text`: every node of the
/// document in document order, the root node first, each with its kind,
/// its depth, its local tag name and its attributes. `None` where
/// `roxmltree` rejects the text.
pub uninterp spec fn parsed_nodes(text: Seq<char>) -> Option<Seq<RawNodeModel>>;

/// Parses `text` and lists the nodes of the document.
///
/// Trusted: `roxmltree::Document::parse` reads nothing but `text` and
/// either rejects it or returns a document, without panicking. The list
/// holds one entry for each node that `descendants` yields, which is every
/// node in document order: whether `is_element` holds of it, how many nodes
/// `ancestors` yields for it (the node itself counted), the local name of
/// `tag_name` (empty unless the node is an element) and, for each entry of
/// `attributes`, its local name and its value. That list is a function of
/// `text`, called [`parsed_nodes`] here.
#[verifier::external_body]
fn parse_nodes(text: &str) -> (parsed: Result<Vec<RawNode>, roxmltree::Error>)
    ensures
        match parsed {
            Ok(flat) => parsed_nodes(text@) == Some(raw_view(flat)),
            Err(_) => parsed_nodes(text@).is_none(),
        },
{
    let doc = roxmltree::Document::parse(text)?;
    Ok(doc.descendants().map(|n| RawNode {
        element: n.is_element(),
        depth: n.ancestors().count(),
        name: n.tag_name().name().to_string(),
        attributes: n.attributes().iter().map(|a| XmlAttribute {
            name: a.name().to_string(),
            value: a.value().to_string(),
        }).collect(),
    }).collect())
}

/// Why a text could not be taken as a document.
#[derive(Debug)]
pub struct XmlError {
    /// The path under which the text was to be known.
    pub path: String,
    /// What the parser found wrong with it.
    pub cause: roxmltree::Error,
}

/// Mathematical model of a [`Document`].
pub ghost struct DocumentModel {
    /// The path under which the document is known.
    pub path: Seq<char>,
    /// The node that stands for the whole document.
    pub root: NodeModel,
}

/// A parsed document and the path under which it is known.
#[derive(Debug)]
pub struct Document {
    path: String,
    root: XmlNode,
}

impl View for Document {
    type V = DocumentModel;

    closed spec fn view(&self) -> DocumentModel {
        DocumentModel { path: self.path@, root: self.root@ }
    }
}

impl Document {
    /// A document is no deeper than a machine word can count.
    #[verifier::type_invariant]
    spec fn shallow_enough(self) -> bool {
        self.root@.height() <= usize::MAX
    }

    /// Parses `text` as the document known under `path`.
    ///
    /// Succeeds exactly where the parser accepts the text; the document is
    /// then the tree of the nodes that the parser found, and holds each of
    /// them once, in document order.
    pub fn parse(path: String, text: &str) -> (parsed: Result<Document, XmlError>)
        ensures
            match parsed {
                Ok(doc) => parsed_nodes(text@) matches Some(flat) && doc@ == (DocumentModel {
                    path: path@,
                    root: document_root(flat),
                }) && forest_listing(doc@.root.children, 0) == entries(flat, 0, flat.len() as int),
                Err(e) => parsed_nodes(text@).is_none() && e.path@ == path@,
            },
    {
        match parse_nodes(text) {
            Err(cause) => Err(XmlError { path, cause }),
            Ok(flat) => {
                let children = build_forest(&flat, 0, flat.len());
                let root = XmlNode {
                    element: false,
                    name: String::new(),
                    attributes: Vec::new(),
                    children,
                };
                proof {
                    root.lemma_view_children();
                    lemma_height_bound(root@, flat.len() as nat);
                    lemma_forest_lists_every_node(raw_view(flat), 0, flat.len() as int);
                    assert(root@.attributes =~= Seq::empty());
                    assert(root@ == document_root(raw_view(flat)));
                }
                Ok(Document { path, root })
            },
        }
    }

    /// The path under which the document is known.
    pub fn path(&self) -> (path: &str)
        ensures
            path@ == self@.path,
    {
        self.path.as_str()
    }

    /// The node that stands for the whole document.
    pub fn root(&self) -> (root: &XmlNode)
        ensures
            root@ == self@.root,
            root@.height() <= usize::MAX,
    {
        proof {
            use_type_invariant(self);
        }
        &self.root
    }
}

} // verus!
