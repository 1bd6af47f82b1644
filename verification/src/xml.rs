//! XML documents as trees of plain values.
//!
//! `roxmltree` parses the text. What it found is copied, node by node in
//! document order, into a list of [`RawNode`]s; [`build_forest`] then
//! rebuilds the tree from the depths in that list.

use vstd::prelude::*;
use crate::text::str_eq;

verus! {

/// Mathematical model of an attribute: its local name and its value.
pub ghost struct AttributeModel {
    pub name: Seq<char>,
    pub value: Seq<char>,
}

/// Mathematical model of one entry of a document's node list.
pub ghost struct RawNodeModel {
    pub element: bool,
    pub depth: nat,
    pub name: Seq<char>,
    pub attributes: Seq<AttributeModel>,
}

/// Mathematical model of a node with everything below it.
pub ghost struct NodeModel {
    /// Whether the node is an element (and not text, a comment, ...).
    pub element: bool,
    /// The local tag name of an element.
    pub name: Seq<char>,
    /// The attributes in document order.
    pub attributes: Seq<AttributeModel>,
    /// The child nodes in document order.
    pub children: Seq<NodeModel>,
}

/// The value of the first attribute called `name` among `attributes[from..]`.
pub open spec fn first_attribute(
    attributes: Seq<AttributeModel>,
    name: Seq<char>,
    from: int,
) -> Option<Seq<char>>
    decreases attributes.len() - from,
{
    if 0 <= from < attributes.len() {
        if attributes[from].name == name {
            Some(attributes[from].value)
        } else {
            first_attribute(attributes, name, from + 1)
        }
    } else {
        None
    }
}

impl NodeModel {
    /// Whether the node is an element called `tag`.
    pub open spec fn has_tag_name(self, tag: Seq<char>) -> bool {
        self.element && self.name == tag
    }

    /// The value of the first attribute called `name`.
    pub open spec fn attribute(self, name: Seq<char>) -> Option<Seq<char>> {
        first_attribute(self.attributes, name, 0)
    }

    /// The position of the first child at or behind `from` that is an
    /// element called `tag`.
    pub open spec fn child_from(self, tag: Seq<char>, from: int) -> Option<int>
        decreases self.children.len() - from,
    {
        if 0 <= from < self.children.len() {
            if self.children[from].has_tag_name(tag) {
                Some(from)
            } else {
                self.child_from(tag, from + 1)
            }
        } else {
            None
        }
    }

    /// The position of the first child that is an element called `tag`.
    pub open spec fn child(self, tag: Seq<char>) -> Option<int> {
        self.child_from(tag, 0)
    }

    /// The first child that is an element called `tag`.
    pub open spec fn find(self, tag: Seq<char>) -> Option<NodeModel> {
        match self.child(tag) {
            Some(at) => Some(self.children[at]),
            None => None,
        }
    }

    /// The number of steps from the node down to its deepest descendant.
    pub open spec fn height(self) -> nat
        decreases self, self.children.len() + 1,
    {
        self.height_from(0)
    }

    /// The height that the children at or behind `from` give to the node.
    pub open spec fn height_from(self, from: int) -> nat
        decreases self, self.children.len() - from,
    {
        if 0 <= from < self.children.len() {
            let first = self.children[from].height() + 1;
            let rest = self.height_from(from + 1);
            if first >= rest {
                first
            } else {
                rest
            }
        } else {
            0
        }
    }

    /// A child lies strictly lower than its parent.
    pub proof fn lemma_child_height(self, i: int)
        requires
            0 <= i < self.children.len(),
        ensures
            self.children[i].height() < self.height(),
    {
        self.lemma_height_from(0, i);
    }

    proof fn lemma_height_from(self, from: int, i: int)
        requires
            0 <= from <= i < self.children.len(),
        ensures
            self.children[i].height() < self.height_from(from),
        decreases i - from,
    {
        if from < i {
            self.lemma_height_from(from + 1, i);
        }
    }

    /// A child found by tag lies strictly lower than its parent.
    pub proof fn lemma_find_height(self, tag: Seq<char>)
        ensures
            match self.find(tag) {
                Some(found) => found.height() < self.height() && found.has_tag_name(tag),
                None => true,
            },
    {
        self.lemma_child_from(tag, 0);
        if let Some(at) = self.child(tag) {
            self.lemma_child_height(at);
        }
    }

    /// A child found by tag is a child.
    pub proof fn lemma_child_from(self, tag: Seq<char>, from: int)
        requires
            0 <= from,
        ensures
            match self.child_from(tag, from) {
                Some(at) => from <= at < self.children.len() && self.children[at].has_tag_name(tag),
                None => true,
            },
        decreases self.children.len() - from,
    {
        if from < self.children.len() && !self.children[from].has_tag_name(tag) {
            self.lemma_child_from(tag, from + 1);
        }
    }
}

/// The first position in `from..limit` whose node lies at `depth` or above
/// it; `limit` where there is none.
pub open spec fn scan_end(flat: Seq<RawNodeModel>, depth: nat, from: int, limit: int) -> int
    decreases limit - from,
{
    if 0 <= from < limit <= flat.len() {
        if flat[from].depth <= depth {
            from
        } else {
            scan_end(flat, depth, from + 1, limit)
        }
    } else {
        limit
    }
}

/// The position behind the last descendant of the node at `at`, looking no
/// further than `limit`.
pub open spec fn subtree_end(flat: Seq<RawNodeModel>, at: int, limit: int) -> int {
    scan_end(flat, flat[at].depth, at + 1, limit)
}

/// The trees that the entries `lo..hi` of a node list stand for.
///
/// The list is in document order, so a node is followed by its descendants,
/// which are the entries behind it that lie deeper than it does.
pub open spec fn forest(flat: Seq<RawNodeModel>, lo: int, hi: int) -> Seq<NodeModel>
    decreases hi - lo,
{
    if 0 <= lo < hi <= flat.len() {
        let end = subtree_end(flat, lo, hi);
        if lo < end <= hi {
            seq![
                NodeModel {
                    element: flat[lo].element,
                    name: flat[lo].name,
                    attributes: flat[lo].attributes,
                    children: forest(flat, lo + 1, end),
                },
            ] + forest(flat, end, hi)
        } else {
            Seq::empty()
        }
    } else {
        Seq::empty()
    }
}

/// The node that stands for a whole document: not an element itself, with
/// the trees of the node list as its children.
pub open spec fn document_root(flat: Seq<RawNodeModel>) -> NodeModel {
    NodeModel {
        element: false,
        name: Seq::empty(),
        attributes: Seq::empty(),
        children: forest(flat, 0, flat.len() as int),
    }
}

/// What a node is by itself: whether it is an element, its name and its
/// attributes.
pub ghost struct NodeEntry {
    pub element: bool,
    pub name: Seq<char>,
    pub attributes: Seq<AttributeModel>,
}

/// A node and everything below it, in document order.
pub open spec fn listing(node: NodeModel) -> Seq<NodeEntry>
    decreases node, 0nat,
{
    seq![NodeEntry { element: node.element, name: node.name, attributes: node.attributes }]
        + forest_listing(node.children, 0)
}

/// The trees at or behind `from` with everything below them, in document
/// order.
pub open spec fn forest_listing(trees: Seq<NodeModel>, from: int) -> Seq<NodeEntry>
    decreases trees, trees.len() - from,
{
    if 0 <= from < trees.len() {
        listing(trees[from]) + forest_listing(trees, from + 1)
    } else {
        Seq::empty()
    }
}

/// The entries `lo..hi` of a node list, without their depths.
pub open spec fn entries(flat: Seq<RawNodeModel>, lo: int, hi: int) -> Seq<NodeEntry> {
    Seq::new(
        (hi - lo) as nat,
        |i: int|
            NodeEntry {
                element: flat[lo + i].element,
                name: flat[lo + i].name,
                attributes: flat[lo + i].attributes,
            },
    )
}

/// `scan_end` stays within the range that it scans.
pub proof fn lemma_scan_end_bounds(flat: Seq<RawNodeModel>, depth: nat, from: int, limit: int)
    requires
        0 <= from <= limit <= flat.len(),
    ensures
        from <= scan_end(flat, depth, from, limit) <= limit,
    decreases limit - from,
{
    if from < limit && flat[from].depth > depth {
        lemma_scan_end_bounds(flat, depth, from + 1, limit);
    }
}

proof fn lemma_listing_shift(before: Seq<NodeModel>, trees: Seq<NodeModel>, from: int)
    requires
        0 <= from,
    ensures
        forest_listing(before + trees, before.len() + from) == forest_listing(trees, from),
    decreases trees.len() - from,
{
    let all = before + trees;
    if from < trees.len() {
        assert(all[before.len() + from] == trees[from]);
        lemma_listing_shift(before, trees, from + 1);
    }
}

proof fn lemma_listing_concat(first: Seq<NodeModel>, second: Seq<NodeModel>, from: int)
    requires
        0 <= from <= first.len(),
    ensures
        forest_listing(first + second, from) == forest_listing(first, from) + forest_listing(
            second,
            0,
        ),
    decreases first.len() - from,
{
    let all = first + second;
    if from < first.len() {
        assert(all[from] == first[from]);
        lemma_listing_concat(first, second, from + 1);
        assert(forest_listing(all, from) =~= forest_listing(first, from) + forest_listing(
            second,
            0,
        ));
    } else {
        lemma_listing_shift(first, second, 0);
        assert(forest_listing(first, from) =~= Seq::<NodeEntry>::empty());
        assert(forest_listing(all, from) =~= forest_listing(first, from) + forest_listing(
            second,
            0,
        ));
    }
}

/// The trees of a node list hold every node of the list once, in the order
/// of the list: listed in document order they give the list back.
pub proof fn lemma_forest_lists_every_node(flat: Seq<RawNodeModel>, lo: int, hi: int)
    requires
        0 <= lo <= hi <= flat.len(),
    ensures
        forest_listing(forest(flat, lo, hi), 0) == entries(flat, lo, hi),
    decreases hi - lo,
{
    if lo < hi {
        let end = subtree_end(flat, lo, hi);
        lemma_scan_end_bounds(flat, flat[lo].depth, lo + 1, hi);
        let node = NodeModel {
            element: flat[lo].element,
            name: flat[lo].name,
            attributes: flat[lo].attributes,
            children: forest(flat, lo + 1, end),
        };
        let rest = forest(flat, end, hi);
        lemma_forest_lists_every_node(flat, lo + 1, end);
        lemma_forest_lists_every_node(flat, end, hi);
        lemma_listing_concat(seq![node], rest, 0);
        assert(forest_listing(seq![node], 1) =~= Seq::<NodeEntry>::empty());
        assert(forest_listing(seq![node], 0) =~= listing(node));
        assert(forest_listing(forest(flat, lo, hi), 0) =~= entries(flat, lo, hi));
    } else {
        assert(forest_listing(forest(flat, lo, hi), 0) =~= entries(flat, lo, hi));
    }
}

/// An attribute of an element: its local name and its value.
#[derive(Debug)]
pub struct XmlAttribute {
    pub name: String,
    pub value: String,
}

impl View for XmlAttribute {
    type V = AttributeModel;

    open spec fn view(&self) -> AttributeModel {
        AttributeModel { name: self.name@, value: self.value@ }
    }
}

/// The models of a list of attributes.
pub open spec fn attributes_view(attributes: Vec<XmlAttribute>) -> Seq<AttributeModel> {
    Seq::new(attributes.len() as nat, |i: int| attributes[i]@)
}

/// One node of a parsed document, as listed in document order.
#[derive(Debug)]
pub struct RawNode {
    /// Whether the node is an element.
    pub element: bool,
    /// How many nodes lie on the way from the document's root to the node,
    /// both ends counted.
    pub depth: usize,
    /// The local tag name of an element; empty for any other node.
    pub name: String,
    /// The attributes of an element, without namespace declarations.
    pub attributes: Vec<XmlAttribute>,
}

impl View for RawNode {
    type V = RawNodeModel;

    open spec fn view(&self) -> RawNodeModel {
        RawNodeModel {
            element: self.element,
            depth: self.depth as nat,
            name: self.name@,
            attributes: attributes_view(self.attributes),
        }
    }
}

/// The models of a node list.
pub open spec fn raw_view(flat: Vec<RawNode>) -> Seq<RawNodeModel> {
    Seq::new(flat.len() as nat, |i: int| flat[i]@)
}

/// A node of a document with everything below it.
#[derive(Debug)]
pub struct XmlNode {
    /// Whether the node is an element (and not text, a comment, ...).
    pub element: bool,
    /// The local tag name of an element.
    pub name: String,
    /// The attributes in document order.
    pub attributes: Vec<XmlAttribute>,
    /// The child nodes in document order.
    pub children: Vec<XmlNode>,
}

/// The model of a node: its own values and the models of its children.
pub open spec fn node_model(node: XmlNode) -> NodeModel
    decreases node,
{
    NodeModel {
        element: node.element,
        name: node.name@,
        attributes: attributes_view(node.attributes),
        children: Seq::new(
            node.children.len() as nat,
            |i: int|
                if 0 <= i < node.children.len() {
                    node_model(node.children[i])
                } else {
                    arbitrary()
                },
        ),
    }
}

impl View for XmlNode {
    type V = NodeModel;

    open spec fn view(&self) -> NodeModel {
        node_model(*self)
    }
}

/// The models of a list of nodes.
pub open spec fn nodes_view(nodes: Vec<XmlNode>) -> Seq<NodeModel> {
    Seq::new(nodes.len() as nat, |i: int| nodes[i]@)
}

impl XmlAttribute {
    /// A copy of the attribute.
    pub fn duplicate(&self) -> (copy: XmlAttribute)
        ensures
            copy@ == self@,
    {
        XmlAttribute { name: self.name.clone(), value: self.value.clone() }
    }
}

/// A copy of a list of attributes.
pub fn duplicate_attributes(attributes: &Vec<XmlAttribute>) -> (copy: Vec<XmlAttribute>)
    ensures
        attributes_view(copy) == attributes_view(*attributes),
{
    let mut copy: Vec<XmlAttribute> = Vec::new();
    let mut i: usize = 0;
    while i < attributes.len()
        invariant
            i <= attributes.len(),
            copy.len() == i,
            forall|j: int| 0 <= j < i ==> copy[j]@ == attributes[j]@,
        decreases attributes.len() - i,
    {
        copy.push(attributes[i].duplicate());
        i = i + 1;
    }
    assert(attributes_view(copy) =~= attributes_view(*attributes));
    copy
}

impl XmlNode {
    /// The children of the node's model are the models of its children.
    pub proof fn lemma_view_children(&self)
        ensures
            self@.children == nodes_view(self.children),
            self@.children.len() == self.children.len(),
            forall|i: int| 0 <= i < self.children.len() ==> self@.children[i] == self.children[i]@,
    {
        assert(self@.children =~= nodes_view(self.children));
    }

    /// Whether the node is an element.
    pub fn is_element(&self) -> (element: bool)
        ensures
            element == self@.element,
    {
        self.element
    }

    /// Whether the node is an element called `tag`.
    pub fn has_tag_name(&self, tag: &str) -> (has: bool)
        ensures
            has == self@.has_tag_name(tag@),
    {
        self.element && str_eq(self.name.as_str(), tag)
    }

    /// The value of the first attribute called `attr_name`.
    pub fn get_some_attribute<'a>(&'a self, attr_name: &str) -> (value: Option<&'a str>)
        ensures
            match value {
                Some(v) => self@.attribute(attr_name@) == Some(v@),
                None => self@.attribute(attr_name@).is_none(),
            },
    {
        let mut i: usize = 0;
        while i < self.attributes.len()
            invariant
                i <= self.attributes.len(),
                self@.attribute(attr_name@) == first_attribute(
                    self@.attributes,
                    attr_name@,
                    i as int,
                ),
            decreases self.attributes.len() - i,
        {
            if str_eq(self.attributes[i].name.as_str(), attr_name) {
                return Some(self.attributes[i].value.as_str());
            }
            i = i + 1;
        }
        None
    }

    /// The value of the first attribute called `attr_name`, as a string of
    /// its own.
    pub fn get_some_attribute_as_string(&self, attr_name: &str) -> (value: Option<String>)
        ensures
            match value {
                Some(v) => self@.attribute(attr_name@) == Some(v@),
                None => self@.attribute(attr_name@).is_none(),
            },
    {
        match self.get_some_attribute(attr_name) {
            None => None,
            Some(v) => Some(v.to_string()),
        }
    }

    /// The first child that is an element called `tag`.
    pub fn find_child<'a>(&'a self, tag: &str) -> (found: Option<&'a XmlNode>)
        ensures
            match found {
                Some(c) => self@.find(tag@) == Some(c@) && c@.height() < self@.height(),
                None => self@.find(tag@).is_none(),
            },
    {
        proof {
            self.lemma_view_children();
        }
        let mut i: usize = 0;
        while i < self.children.len()
            invariant
                i <= self.children.len(),
                self@.children.len() == self.children.len(),
                forall|j: int| 0 <= j < self.children.len() ==> self@.children[j] == self.children[j]@,
                self@.child(tag@) == self@.child_from(tag@, i as int),
            decreases self.children.len() - i,
        {
            if self.children[i].has_tag_name(tag) {
                proof {
                    self@.lemma_child_height(i as int);
                }
                return Some(&self.children[i]);
            }
            i = i + 1;
        }
        None
    }
}

/// Where the descendants of the node at `at` end in the node list, looking
/// no further than `limit`.
pub fn subtree_end_of(flat: &Vec<RawNode>, at: usize, limit: usize) -> (end: usize)
    requires
        at < limit <= flat.len(),
    ensures
        end == subtree_end(raw_view(*flat), at as int, limit as int),
        at < end <= limit,
{
    let depth = flat[at].depth;
    let mut i: usize = at + 1;
    while i < limit && flat[i].depth > depth
        invariant
            at < i <= limit <= flat.len(),
            depth == flat[at as int].depth,
            subtree_end(raw_view(*flat), at as int, limit as int) == scan_end(
                raw_view(*flat),
                depth as nat,
                i as int,
                limit as int,
            ),
        decreases limit - i,
    {
        i = i + 1;
    }
    i
}

/// Rebuilds the trees that the entries `lo..hi` of a node list stand for.
pub fn build_forest(flat: &Vec<RawNode>, lo: usize, hi: usize) -> (trees: Vec<XmlNode>)
    requires
        lo <= hi <= flat.len(),
    ensures
        nodes_view(trees) == forest(raw_view(*flat), lo as int, hi as int),
        forall|i: int| 0 <= i < trees.len() ==> (#[trigger] trees[i]@).height() < hi - lo,
    decreases hi - lo,
{
    let ghost raw = raw_view(*flat);
    let mut trees: Vec<XmlNode> = Vec::new();
    let mut i: usize = lo;
    while i < hi
        invariant
            lo <= i <= hi <= flat.len(),
            raw == raw_view(*flat),
            nodes_view(trees) + forest(raw, i as int, hi as int) =~= forest(
                raw,
                lo as int,
                hi as int,
            ),
            forall|j: int| 0 <= j < trees.len() ==> (#[trigger] trees[j]@).height() < hi - lo,
        decreases hi - i,
    {
        let end = subtree_end_of(flat, i, hi);
        let children = build_forest(flat, i + 1, end);
        let node = XmlNode {
            element: flat[i].element,
            name: flat[i].name.clone(),
            attributes: duplicate_attributes(&flat[i].attributes),
            children,
        };
        proof {
            node.lemma_view_children();
            lemma_height_bound(node@, (end - i - 1) as nat);
            assert(node@ == NodeModel {
                element: raw[i as int].element,
                name: raw[i as int].name,
                attributes: raw[i as int].attributes,
                children: forest(raw, i + 1, end as int),
            });
        }
        let ghost before = nodes_view(trees);
        trees.push(node);
        proof {
            assert(nodes_view(trees) =~= before + seq![node@]);
        }
        i = end;
    }
    trees
}

/// A node whose children all lie lower than `bound` lies no higher than
/// `bound` itself.
pub proof fn lemma_height_bound(node: NodeModel, bound: nat)
    requires
        forall|i: int| 0 <= i < node.children.len() ==> (#[trigger] node.children[i]).height() < bound,
    ensures
        node.height() <= bound,
{
    lemma_height_from_bound(node, bound, 0);
}

proof fn lemma_height_from_bound(node: NodeModel, bound: nat, from: int)
    requires
        0 <= from,
        forall|i: int| 0 <= i < node.children.len() ==> (#[trigger] node.children[i]).height() < bound,
    ensures
        node.height_from(from) <= bound,
    decreases node.children.len() - from,
{
    if from < node.children.len() {
        lemma_height_from_bound(node, bound, from + 1);
    }
}

} // verus!
