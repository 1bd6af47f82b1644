//! Schema types: one record per complex type, one alias per top-level
//! element of a simple type, one field per element within a record.
//!
//! A record one level down is written to the buffer of its nesting level,
//! so that in the finished text it stands before the record that holds it.

use vstd::prelude::*;
use vstd::string::*;
use inflector::cases::pascalcase::to_pascal_case;
use inflector::cases::snakecase::to_snake_case;
use crate::casing::{pascal_case, snake_case};
use crate::generator::{
    lemma_moves_keep_staged, lemma_routing_keeps_queues, lemma_routing_keeps_staged,
    lemma_same_queues_twice, same_queues, FileWriter, FileWriterView,
};
use crate::messages::{derive_line, flatten_line, record_header};
use crate::resolve::{resolve_type, shielded};
use crate::staging::closing_text;
use crate::text::{concat3, concat5, concat7};
use crate::xml::{NodeModel, XmlNode};

verus! {

/// The alias generated for a top-level element of the type `element_type`.
pub open spec fn alias_text(name: Seq<char>, element_type: Seq<char>) -> Seq<char> {
    "pub type "@ + pascal_case(name) + " = "@ + resolve_type(element_type) + ";\n\n"@
}

/// The line that renames the next field to the element `name`; with a
/// target namespace at hand it also gives the field the prefix `ns`.
pub open spec fn rename_text(name: Seq<char>, prefixed: bool) -> Seq<char> {
    if prefixed {
        "\t#[yaserde(prefix = \"ns\", rename = \""@ + name + "\", default)]\n"@
    } else {
        "\t#[yaserde(rename = \""@ + name + "\", default)]\n"@
    }
}

/// The type of a field: `Vec` of the resolved type for a repeated field,
/// else `Option` of it for an optional field, else the resolved type.
pub open spec fn field_type(element_type: Seq<char>, repeated: bool, optional: bool) -> Seq<char> {
    if repeated {
        "Vec<"@ + resolve_type(element_type) + ">"@
    } else if optional {
        "Option<"@ + resolve_type(element_type) + ">"@
    } else {
        resolve_type(element_type)
    }
}

/// The field generated for the element `name`.
pub open spec fn field_text(
    name: Seq<char>,
    element_type: Seq<char>,
    repeated: bool,
    optional: bool,
) -> Seq<char> {
    "\tpub "@ + shielded(snake_case(name)) + ": "@ + field_type(element_type, repeated, optional)
        + ",\n"@
}

/// The field that holds the base of an extension.
pub open spec fn base_field_text(base: Seq<char>) -> Seq<char> {
    "\tpub "@ + snake_case(resolve_type(base)) + ": "@ + resolve_type(base) + ",\n"@
}

/// The lines that open the record generated for `name` in a schema with
/// the target namespace `name_space`.
pub open spec fn prefixed_record_header(name_space: Seq<char>, name: Seq<char>) -> Seq<char> {
    "#[yaserde(prefix = \"ns\", namespace = \"ns: "@ + name_space + "\", rename = \""@ + name
        + "\", default)]\npub struct "@ + pascal_case(name) + " {\n"@
}

/// The lines that open the record generated for `name`.
pub open spec fn complex_header(name_space: Option<Seq<char>>, name: Seq<char>) -> Seq<char> {
    match name_space {
        Some(name_space) => prefixed_record_header(name_space, name),
        None => record_header(name),
    }
}

impl FileWriterView {
    /// Writes what an element stands for. An element with a complex type
    /// of its own becomes a record. Any other element with a type becomes
    /// an alias at level 0 and a field at a deeper level; the field is
    /// repeated where the element carries `maxOccurs`, optional where it
    /// carries `nillable`, whatever the values of the two. A node without a
    /// name is passed over.
    pub open spec fn print_element(self, node: NodeModel) -> Self
        decreases node.height(), 0nat,
    {
        match node.attribute("name"@) {
            None => self,
            Some(name) => match node.find("complexType"@) {
                Some(complex) => {
                    proof {
                        node.lemma_find_height("complexType"@);
                    }
                    self.print_complex_element(complex, name)
                },
                None => match node.attribute("type"@) {
                    None => self,
                    Some(element_type) => if self.level == 0 {
                        self.write(alias_text(name, element_type))
                    } else {
                        self.write(rename_text(name, self.target_name_space.is_some())).write(
                            field_text(
                                name,
                                element_type,
                                node.attribute("maxOccurs"@).is_some(),
                                node.attribute("nillable"@).is_some(),
                            ),
                        )
                    },
                },
            },
        }
    }

    /// Writes the record `name` for a complex type, one nesting level down:
    /// its header, the fields of its sequence, what its complex content
    /// adds, and its closing brace.
    pub open spec fn print_complex_element(self, node: NodeModel, name: Seq<char>) -> Self
        decreases node.height(), 0nat,
    {
        let opened = self.inc_level().write(derive_line()).write(
            complex_header(self.target_name_space, name),
        );
        let listed = match node.find("sequence"@) {
            Some(sequence) => {
                proof {
                    node.lemma_find_height("sequence"@);
                }
                opened.print_sequence(sequence)
            },
            None => opened,
        };
        let extended = match node.find("complexContent"@) {
            Some(complex) => {
                proof {
                    node.lemma_find_height("complexContent"@);
                }
                listed.print_complex_content(complex)
            },
            None => listed,
        };
        extended.write(closing_text()).dec_level()
    }

    /// Writes every child of `node` as an element.
    pub open spec fn print_sequence(self, node: NodeModel) -> Self
        decreases node.height(), node.children.len() + 1,
    {
        self.print_sequence_from(node, 0)
    }

    /// Writes the children at or behind `from` as elements, one by one.
    pub open spec fn print_sequence_from(self, node: NodeModel, from: int) -> Self
        decreases node.height(), node.children.len() - from,
    {
        if 0 <= from < node.children.len() {
            proof {
                node.lemma_child_height(from);
            }
            self.print_element(node.children[from]).print_sequence_from(node, from + 1)
        } else {
            self
        }
    }

    /// Writes the field that holds the base of an extension. An extension
    /// without a base is passed over.
    pub open spec fn print_extension(self, node: NodeModel) -> Self {
        match node.attribute("base"@) {
            None => self,
            Some(base) => self.write(base_field_text(base)),
        }
    }

    /// Writes what a complex content adds to its record: for an extension
    /// the base as one flattened field and then the fields of the
    /// extension's sequence; then every child of the content as an element.
    pub open spec fn print_complex_content(self, node: NodeModel) -> Self
        decreases node.height(), node.children.len() + 2,
    {
        let extended = match node.find("extension"@) {
            Some(extension) => {
                let based = self.write(flatten_line()).print_extension(extension);
                match extension.find("sequence"@) {
                    Some(sequence) => {
                        proof {
                            node.lemma_find_height("extension"@);
                            extension.lemma_find_height("sequence"@);
                        }
                        based.print_sequence(sequence)
                    },
                    None => based,
                }
            },
            None => self,
        };
        extended.print_sequence(node)
    }
}

/// The repeated form of the type `element_type`.
pub open spec fn repeated_type(element_type: Seq<char>) -> Seq<char> {
    "Vec<"@ + resolve_type(element_type) + ">"@
}

/// A field has the repeated form of its type exactly where it is repeated.
pub proof fn lemma_field_type_is_repeated(element_type: Seq<char>, repeated: bool, optional: bool)
    ensures
        field_type(element_type, repeated, optional) == repeated_type(element_type) <==> repeated,
{
    reveal_strlit("Vec<");
    reveal_strlit("Option<");
    reveal_strlit(">");
    let resolved = resolve_type(element_type);
    let vec = "Vec<"@ + resolved + ">"@;
    let option = "Option<"@ + resolved + ">"@;
    assert(vec.len() == resolved.len() + 5);
    assert(vec[0] == 'V');
    assert(option[0] == 'O');
}

/// An element within a record becomes a field that is repeated exactly
/// where the element carries `maxOccurs`: only the presence of the
/// attribute counts, so the value `1` repeats the field as any other value
/// does, and `nillable` beside it changes nothing.
pub proof fn lemma_max_occurs_repeats(state: FileWriterView, node: NodeModel)
    requires
        state.level > 0,
        node.attribute("name"@).is_some(),
        node.attribute("type"@).is_some(),
        node.find("complexType"@).is_none(),
    ensures
        ({
            let name = node.attribute("name"@).unwrap();
            let element_type = node.attribute("type"@).unwrap();
            let written = field_type(
                element_type,
                node.attribute("maxOccurs"@).is_some(),
                node.attribute("nillable"@).is_some(),
            );
            &&& state.print_element(node) == state.write(
                rename_text(name, state.target_name_space.is_some()),
            ).write("\tpub "@ + shielded(snake_case(name)) + ": "@ + written + ",\n"@)
            &&& written == repeated_type(element_type) <==> node.attribute("maxOccurs"@).is_some()
        }),
{
    lemma_field_type_is_repeated(
        node.attribute("type"@).unwrap(),
        node.attribute("maxOccurs"@).is_some(),
        node.attribute("nillable"@).is_some(),
    );
}

/// What an element contributes does not depend on the value of its
/// `maxOccurs`, nor on that of its `nillable`: two elements that agree in
/// name, type and complex type, and in which of the two attributes they
/// carry, are written alike.
pub proof fn lemma_max_occurs_value_is_ignored(
    state: FileWriterView,
    node: NodeModel,
    other: NodeModel,
)
    requires
        node.attribute("name"@) == other.attribute("name"@),
        node.attribute("type"@) == other.attribute("type"@),
        node.find("complexType"@) == other.find("complexType"@),
        node.attribute("maxOccurs"@).is_some() == other.attribute("maxOccurs"@).is_some(),
        node.attribute("nillable"@).is_some() == other.attribute("nillable"@).is_some(),
    ensures
        state.print_element(node) == state.print_element(other),
{
}

/// Writing an element keeps a staged state staged, at its level and in its
/// section: none of its text is dropped, however deep its records nest. It
/// leaves every queue as it is.
pub proof fn lemma_print_element_stays_staged(state: FileWriterView, node: NodeModel)
    requires
        state.staged(),
    ensures
        state.stays_staged(state.print_element(node)),
        same_queues(state, state.print_element(node)),
    decreases node.height(), 0nat,
{
    lemma_routing_keeps_queues(state, Seq::empty(), 0, state.current_section);
    if let Some(name) = node.attribute("name"@) {
        if let Some(complex) = node.find("complexType"@) {
            node.lemma_find_height("complexType"@);
            lemma_print_complex_element_stays_staged(state, complex, name);
        } else if let Some(element_type) = node.attribute("type"@) {
            if state.level == 0 {
                lemma_routing_keeps_staged(state, alias_text(name, element_type));
                lemma_routing_keeps_queues(
                    state,
                    alias_text(name, element_type),
                    0,
                    state.current_section,
                );
            } else {
                let renamed = rename_text(name, state.target_name_space.is_some());
                let field = field_text(
                    name,
                    element_type,
                    node.attribute("maxOccurs"@).is_some(),
                    node.attribute("nillable"@).is_some(),
                );
                lemma_routing_keeps_staged(state, renamed);
                lemma_routing_keeps_staged(state.write(renamed), field);
                lemma_routing_keeps_queues(state, renamed, 0, state.current_section);
                lemma_routing_keeps_queues(state.write(renamed), field, 0, state.current_section);
                lemma_same_queues_twice(state, state.write(renamed), state.write(renamed).write(field));
            }
        }
    }
}

/// Writing a record keeps a staged state staged, at its level and in its
/// section, and leaves every queue as it is.
pub proof fn lemma_print_complex_element_stays_staged(
    state: FileWriterView,
    node: NodeModel,
    name: Seq<char>,
)
    requires
        state.staged(),
    ensures
        state.stays_staged(state.print_complex_element(node, name)),
        same_queues(state, state.print_complex_element(node, name)),
    decreases node.height(), 0nat,
{
    let section = state.current_section;
    lemma_moves_keep_staged(state, section);
    lemma_routing_keeps_queues(state, Seq::empty(), 0, section);
    let deeper = state.inc_level();
    lemma_routing_keeps_staged(deeper, derive_line());
    lemma_routing_keeps_queues(deeper, derive_line(), 0, section);
    let derived = deeper.write(derive_line());
    lemma_same_queues_twice(state, deeper, derived);
    let header = complex_header(state.target_name_space, name);
    lemma_routing_keeps_staged(derived, header);
    lemma_routing_keeps_queues(derived, header, 0, section);
    let opened = derived.write(header);
    lemma_same_queues_twice(state, derived, opened);
    let listed = match node.find("sequence"@) {
        Some(sequence) => {
            node.lemma_find_height("sequence"@);
            lemma_print_sequence_stays_staged(opened, sequence);
            lemma_same_queues_twice(state, opened, opened.print_sequence(sequence));
            opened.print_sequence(sequence)
        },
        None => opened,
    };
    let extended = match node.find("complexContent"@) {
        Some(complex) => {
            node.lemma_find_height("complexContent"@);
            lemma_print_complex_content_stays_staged(listed, complex);
            lemma_same_queues_twice(state, listed, listed.print_complex_content(complex));
            listed.print_complex_content(complex)
        },
        None => listed,
    };
    lemma_routing_keeps_staged(extended, closing_text());
    lemma_routing_keeps_queues(extended, closing_text(), 0, section);
    let closed = extended.write(closing_text());
    lemma_same_queues_twice(state, extended, closed);
    lemma_moves_keep_staged(closed, section);
    lemma_routing_keeps_queues(closed, Seq::empty(), 0, section);
    lemma_same_queues_twice(state, closed, closed.dec_level());
}

/// Writing a sequence keeps a staged state staged, at its level and in its
/// section, and leaves every queue as it is.
pub proof fn lemma_print_sequence_stays_staged(state: FileWriterView, node: NodeModel)
    requires
        state.staged(),
    ensures
        state.stays_staged(state.print_sequence(node)),
        same_queues(state, state.print_sequence(node)),
    decreases node.height(), node.children.len() + 1,
{
    lemma_print_sequence_from_stays_staged(state, node, 0);
}

proof fn lemma_print_sequence_from_stays_staged(state: FileWriterView, node: NodeModel, from: int)
    requires
        state.staged(),
    ensures
        state.stays_staged(state.print_sequence_from(node, from)),
        same_queues(state, state.print_sequence_from(node, from)),
    decreases node.height(), node.children.len() - from,
{
    lemma_routing_keeps_queues(state, Seq::empty(), 0, state.current_section);
    if 0 <= from < node.children.len() {
        node.lemma_child_height(from);
        lemma_print_element_stays_staged(state, node.children[from]);
        let next = state.print_element(node.children[from]);
        lemma_print_sequence_from_stays_staged(next, node, from + 1);
        lemma_same_queues_twice(state, next, next.print_sequence_from(node, from + 1));
    }
}

/// Writing a complex content keeps a staged state staged, at its level and
/// in its section, and leaves every queue as it is.
pub proof fn lemma_print_complex_content_stays_staged(state: FileWriterView, node: NodeModel)
    requires
        state.staged(),
    ensures
        state.stays_staged(state.print_complex_content(node)),
        same_queues(state, state.print_complex_content(node)),
    decreases node.height(), node.children.len() + 2,
{
    let section = state.current_section;
    lemma_routing_keeps_queues(state, Seq::empty(), 0, section);
    let extended = match node.find("extension"@) {
        Some(extension) => {
            lemma_routing_keeps_staged(state, flatten_line());
            lemma_routing_keeps_queues(state, flatten_line(), 0, section);
            let flattened = state.write(flatten_line());
            if let Some(base) = extension.attribute("base"@) {
                lemma_routing_keeps_staged(flattened, base_field_text(base));
                lemma_routing_keeps_queues(flattened, base_field_text(base), 0, section);
            }
            let based = flattened.print_extension(extension);
            lemma_same_queues_twice(state, flattened, based);
            match extension.find("sequence"@) {
                Some(sequence) => {
                    node.lemma_find_height("extension"@);
                    extension.lemma_find_height("sequence"@);
                    lemma_print_sequence_stays_staged(based, sequence);
                    lemma_same_queues_twice(state, based, based.print_sequence(sequence));
                    based.print_sequence(sequence)
                },
                None => based,
            }
        },
        None => state,
    };
    lemma_print_sequence_stays_staged(extended, node);
    lemma_same_queues_twice(state, extended, extended.print_sequence(node));
}

impl FileWriter {
    /// Writes what an element stands for. An element with a complex type
    /// of its own becomes a record. Any other element with a type becomes
    /// an alias at level 0 and a field at a deeper level; the field is
    /// repeated where the element carries `maxOccurs`, optional where it
    /// carries `nillable`, whatever the values of the two. A node without a
    /// name is passed over.
    pub fn print_element(&mut self, node: &XmlNode)
        requires
            old(self)@.level + node@.height() < usize::MAX,
        ensures
            final(self)@ == old(self)@.print_element(node@),
            final(self)@.level == old(self)@.level,
        decreases node@.height(), 0nat,
    {
        let name = match node.get_some_attribute("name") {
            None => {
                return ;
            },
            Some(n) => n,
        };
        let as_vec = node.get_some_attribute("maxOccurs").is_some();
        let as_option = node.get_some_attribute("nillable").is_some();
        let maybe_complex = node.find_child("complexType");
        if let Some(complex) = maybe_complex {
            self.print_complex_element(complex, name)
        } else if let Some(element_type) = node.get_some_attribute("type") {
            if self.level() == 0 {
                let pascal = to_pascal_case(name);
                let target = self.fetch_type(element_type);
                self.write(concat5("pub type ", pascal.as_str(), " = ", target.as_str(), ";\n\n"));
                return ;
            }
            if self.has_target_name_space() {
                self.write(
                    concat3("\t#[yaserde(prefix = \"ns\", rename = \"", name, "\", default)]\n"),
                );
            } else {
                self.write(concat3("\t#[yaserde(rename = \"", name, "\", default)]\n"));
            }
            let snake = to_snake_case(name);
            let target = self.fetch_type(element_type);
            if as_vec || as_option {
                let wrapped = concat3(
                    if as_vec {
                        "Vec<"
                    } else {
                        "Option<"
                    },
                    target.as_str(),
                    ">",
                );
                let field = concat5(
                    "\tpub ",
                    self.shield_reserved_names(snake.as_str()),
                    ": ",
                    wrapped.as_str(),
                    ",\n",
                );
                self.write(field);
            } else {
                let field = concat5(
                    "\tpub ",
                    self.shield_reserved_names(snake.as_str()),
                    ": ",
                    target.as_str(),
                    ",\n",
                );
                self.write(field);
            }
        }
    }

    /// Writes the record `name` for a complex type, one nesting level down:
    /// its header, the fields of its sequence, what its complex content
    /// adds, and its closing brace.
    pub fn print_complex_element(&mut self, node: &XmlNode, name: &str)
        requires
            old(self)@.level + node@.height() < usize::MAX,
        ensures
            final(self)@ == old(self)@.print_complex_element(node@, name@),
            final(self)@.level == old(self)@.level,
        decreases node@.height(), 0nat,
    {
        self.inc_level();
        self.write("#[derive(Debug, Default, YaSerialize, YaDeserialize)]\n".to_string());
        let pascal = to_pascal_case(name);
        let header = match self.target_name_space() {
            Some(name_space) => concat7(
                "#[yaserde(prefix = \"ns\", namespace = \"ns: ",
                name_space,
                "\", rename = \"",
                name,
                "\", default)]\npub struct ",
                pascal.as_str(),
                " {\n",
            ),
            None => concat5(
                "#[yaserde(rename = \"",
                name,
                "\", default)]\npub struct ",
                pascal.as_str(),
                " {\n",
            ),
        };
        self.write(header);
        let maybe_sequence = node.find_child("sequence");
        let maybe_complex = node.find_child("complexContent");
        if let Some(sequence) = maybe_sequence {
            self.print_sequence(sequence);
        }
        if let Some(complex) = maybe_complex {
            self.print_complex_content(complex);
        }
        self.write("}\n\n".to_string());
        self.dec_level();
    }

    /// Writes every child of `node` as an element.
    pub fn print_sequence(&mut self, node: &XmlNode)
        requires
            old(self)@.level + node@.height() < usize::MAX,
        ensures
            final(self)@ == old(self)@.print_sequence(node@),
            final(self)@.level == old(self)@.level,
        decreases node@.height(), node@.children.len() + 1,
    {
        proof {
            node.lemma_view_children();
        }
        let mut i: usize = 0;
        while i < node.children.len()
            invariant
                i <= node.children.len(),
                node@.children.len() == node.children.len(),
                forall|j: int| 0 <= j < node.children.len() ==> node@.children[j] == node.children[j]@,
                self@.print_sequence_from(node@, i as int) == old(self)@.print_sequence_from(
                    node@,
                    0,
                ),
                self@.level == old(self)@.level,
                old(self)@.level + node@.height() < usize::MAX,
            decreases node.children.len() - i,
        {
            proof {
                node@.lemma_child_height(i as int);
            }
            self.print_element(&node.children[i]);
            i = i + 1;
        }
    }

    /// Writes the field that holds the base of an extension. An extension
    /// without a base is passed over.
    pub fn print_extension(&mut self, node: &XmlNode)
        ensures
            final(self)@ == old(self)@.print_extension(node@),
    {
        let base = match node.get_some_attribute("base") {
            None => {
                return ;
            },
            Some(n) => n,
        };
        let target = self.fetch_type(base);
        let snake = to_snake_case(target.as_str());
        self.write(concat5("\tpub ", snake.as_str(), ": ", target.as_str(), ",\n"));
    }

    /// Writes what a complex content adds to its record: for an extension
    /// the base as one flattened field and then the fields of the
    /// extension's sequence; then every child of the content as an element.
    pub fn print_complex_content(&mut self, node: &XmlNode)
        requires
            old(self)@.level + node@.height() < usize::MAX,
        ensures
            final(self)@ == old(self)@.print_complex_content(node@),
            final(self)@.level == old(self)@.level,
        decreases node@.height(), node@.children.len() + 2,
    {
        if let Some(extension) = node.find_child("extension") {
            self.write("\t#[yaserde(flatten)]\n".to_string());
            self.print_extension(extension);
            let maybe_sequence = extension.find_child("sequence");
            if let Some(sequence) = maybe_sequence {
                self.print_sequence(sequence);
            }
        }
        self.print_sequence(node);
    }
}

} // verus!
