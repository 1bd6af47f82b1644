//! Messages: one wrapper record per message, with a single field for the
//! element that the first part of the message refers to.

use vstd::prelude::*;
use vstd::string::*;
use inflector::cases::pascalcase::to_pascal_case;
use inflector::cases::snakecase::to_snake_case;
use crate::casing::{pascal_case, snake_case};
use crate::generator::{
    lemma_moves_keep_staged, lemma_routing_keeps_queues, lemma_routing_keeps_staged,
    lemma_same_queues_twice, FileWriter, FileWriterView,
};
use crate::resolve::{resolve_type, shielded};
use crate::section::{types_mod, Section};
use crate::staging::closing_text;
use crate::text::{concat5, concat7};
use crate::xml::{NodeModel, XmlNode};

verus! {

/// The line that gives a generated record its derived traits.
pub open spec fn derive_line() -> Seq<char> {
    "#[derive(Debug, Default, YaSerialize, YaDeserialize)]\n"@
}

/// The lines that open the record generated for `name`.
pub open spec fn record_header(name: Seq<char>) -> Seq<char> {
    "#[yaserde(rename = \""@ + name + "\", default)]\npub struct "@ + pascal_case(name)
        + " {\n"@
}

/// The line that has the serializer merge the next field into its record.
pub open spec fn flatten_line() -> Seq<char> {
    "\t#[yaserde(flatten)]\n"@
}

/// The field of a message wrapper: named after the part, typed as the
/// generated type of the element that the part refers to.
pub open spec fn part_field_text(element_name: Seq<char>, element: Seq<char>) -> Seq<char> {
    "\tpub "@ + shielded(snake_case(element_name)) + ": "@ + types_mod() + "::"@ + resolve_type(
        element,
    ) + ",\n"@
}

impl FileWriterView {
    /// Writes the field for a part. A part without a name or without an
    /// element is passed over.
    pub open spec fn print_part(self, node: NodeModel) -> Self {
        match (node.attribute("name"@), node.attribute("element"@)) {
            (Some(element_name), Some(element)) => self.write(flatten_line()).write(
                part_field_text(element_name, element),
            ),
            _ => self,
        }
    }

    /// Writes the wrapper record of a message to the messages section: its
    /// header, the field of its first part if it has a part, and its
    /// closing brace. A message without a name only makes the messages
    /// section current.
    #[verifier::opaque]
    pub open spec fn print_message(self, node: NodeModel) -> Self {
        let routed = self.check_section(Section::Messages);
        match node.attribute("name"@) {
            None => routed,
            Some(name) => {
                let opened = routed.write(derive_line()).write(record_header(name));
                let filled = match node.find("part"@) {
                    Some(part) => opened.print_part(part),
                    None => opened,
                };
                filled.write(closing_text())
            },
        }
    }
}

/// Children behind the first child called `tag` do not change which child
/// is found.
pub proof fn lemma_find_ignores_later_children(
    node: NodeModel,
    more: Seq<NodeModel>,
    tag: Seq<char>,
)
    requires
        node.find(tag).is_some(),
    ensures
        (NodeModel { children: node.children + more, ..node }).find(tag) == node.find(tag),
{
    lemma_child_from_ignores_later_children(node, more, tag, 0);
    node.lemma_child_from(tag, 0);
}

proof fn lemma_child_from_ignores_later_children(
    node: NodeModel,
    more: Seq<NodeModel>,
    tag: Seq<char>,
    from: int,
)
    requires
        0 <= from,
        node.child_from(tag, from).is_some(),
    ensures
        (NodeModel { children: node.children + more, ..node }).child_from(tag, from)
            == node.child_from(tag, from),
    decreases node.children.len() - from,
{
    let longer = NodeModel { children: node.children + more, ..node };
    assert(from < node.children.len());
    assert(longer.children[from] == node.children[from]);
    if !node.children[from].has_tag_name(tag) {
        lemma_child_from_ignores_later_children(node, more, tag, from + 1);
    }
}

/// The wrapper of a message is made from its first part alone: whatever
/// children follow that part, more parts among them, the same text is
/// written.
pub proof fn lemma_message_uses_first_part(
    state: FileWriterView,
    node: NodeModel,
    more: Seq<NodeModel>,
)
    requires
        node.find("part"@).is_some(),
    ensures
        state.print_message(NodeModel { children: node.children + more, ..node })
            == state.print_message(node),
{
    reveal(FileWriterView::print_message);
    lemma_find_ignores_later_children(node, more, "part"@);
}

/// Writing a message keeps a settled state settled: staged at level 0,
/// with nothing waiting in any queue.
pub proof fn lemma_print_message_stays_settled(state: FileWriterView, node: NodeModel)
    requires
        state.settled(),
    ensures
        state.print_message(node).settled(),
{
    reveal(FileWriterView::print_message);
    let section = Section::Messages;
    lemma_moves_keep_staged(state, section);
    lemma_routing_keeps_queues(state, Seq::empty(), 0, section);
    let routed = state.check_section(section);
    if let Some(name) = node.attribute("name"@) {
        lemma_routing_keeps_staged(routed, derive_line());
        lemma_routing_keeps_queues(routed, derive_line(), 0, section);
        let derived = routed.write(derive_line());
        lemma_same_queues_twice(state, routed, derived);
        lemma_routing_keeps_staged(derived, record_header(name));
        lemma_routing_keeps_queues(derived, record_header(name), 0, section);
        let opened = derived.write(record_header(name));
        lemma_same_queues_twice(state, derived, opened);
        let filled = match node.find("part"@) {
            Some(part) => {
                if let (Some(element_name), Some(element)) = (
                    part.attribute("name"@),
                    part.attribute("element"@),
                ) {
                    let field = part_field_text(element_name, element);
                    let flattened = opened.write(flatten_line());
                    lemma_routing_keeps_staged(opened, flatten_line());
                    lemma_routing_keeps_staged(flattened, field);
                    lemma_routing_keeps_queues(opened, flatten_line(), 0, section);
                    lemma_routing_keeps_queues(flattened, field, 0, section);
                    lemma_same_queues_twice(state, opened, flattened);
                    lemma_same_queues_twice(state, flattened, flattened.write(field));
                }
                opened.print_part(part)
            },
            None => opened,
        };
        lemma_routing_keeps_staged(filled, closing_text());
        lemma_routing_keeps_queues(filled, closing_text(), 0, section);
        lemma_same_queues_twice(state, filled, filled.write(closing_text()));
    }
    let after = state.print_message(node);
    assert forall|other: Section| (#[trigger] after.mod_writers.get(other)).delayed.len()
        == 0 by {
        assert(state.mod_writers.get(other).delayed.len() == 0);
    }
}

impl FileWriter {
    /// Writes the field for a part. A part without a name or without an
    /// element is passed over.
    pub fn print_part(&mut self, node: &XmlNode)
        ensures
            final(self)@ == old(self)@.print_part(node@),
    {
        let element_name = match node.get_some_attribute("name") {
            None => {
                return ;
            },
            Some(n) => n,
        };
        if let Some(element) = node.get_some_attribute("element") {
            self.write("\t#[yaserde(flatten)]\n".to_string());
            let snake = to_snake_case(element_name);
            let target = self.fetch_type(element);
            let field = concat7(
                "\tpub ",
                self.shield_reserved_names(snake.as_str()),
                ": ",
                "types",
                "::",
                target.as_str(),
                ",\n",
            );
            self.write(field);
        }
    }

    /// Writes the wrapper record of a message to the messages section: its
    /// header, the field of its first part if it has a part, and its
    /// closing brace. A message without a name only makes the messages
    /// section current.
    pub fn print_message(&mut self, node: &XmlNode)
        ensures
            final(self)@ == old(self)@.print_message(node@),
            final(self)@.level == old(self)@.level,
    {
        proof {
            reveal(FileWriterView::print_message);
        }
        self.check_section(Section::Messages);
        if let Some(name) = node.get_some_attribute("name") {
            self.write("#[derive(Debug, Default, YaSerialize, YaDeserialize)]\n".to_string());
            let pascal = to_pascal_case(name);
            self.write(
                concat5(
                    "#[yaserde(rename = \"",
                    name,
                    "\", default)]\npub struct ",
                    pascal.as_str(),
                    " {\n",
                ),
            );
            let maybe_part = node.find_child("part");
            if let Some(part) = maybe_part {
                self.print_part(part);
            }
            self.write("}\n\n".to_string());
        }
    }
}

} // verus!
