//! Bindings: one record per binding that implements the trait of its port
//! type with a stub per operation, and the envelope records that wrap the
//! input and the output of each operation.
//!
//! The envelope records of a binding are queued while its stubs are written
//! and flushed behind its implementation block.

use vstd::prelude::*;
use vstd::string::*;
use inflector::cases::pascalcase::to_pascal_case;
use inflector::cases::snakecase::to_snake_case;
use crate::casing::{pascal_case, snake_case};
use crate::generator::{
    lemma_moves_keep_staged, lemma_routing_keeps_queues, lemma_routing_keeps_queues_elsewhere,
    lemma_routing_keeps_staged, lemma_same_queues_elsewhere_twice, same_queues_elsewhere,
    FileWriter, FileWriterView,
};
use crate::resolve::resolve_type;
use crate::section::{ports_mod, Section};
use crate::staging::closing_text;
use crate::text::{concat3, concat5, concat7};
use crate::xml::{NodeModel, XmlNode};

verus! {

/// The name of the first `tag` child of a binding operation; `None` unless
/// there is such a child and it carries a name.
pub open spec fn name_of(node: NodeModel, tag: Seq<char>) -> Option<Seq<char>> {
    match node.find(tag) {
        Some(found) => found.attribute("name"@),
        None => None,
    }
}

/// What stands before the name of an envelope record.
pub open spec fn envelope_head() -> Seq<char> {
    "#[derive(Debug, Default, YaSerialize, YaDeserialize)]\n        #[yaserde(\n            root = \"Envelope\",\n            namespace = \"soapenv: http://schemas.xmlsoap.org/soap/envelope/\",\n            prefix = \"soapenv\"\n        )]\n        pub struct "@
}

/// The fields of an envelope record up to the type of its body.
pub open spec fn envelope_fields() -> Seq<char> {
    "SoapEnvelope {\n            #[yaserde(rename = \"encodingStyle\", prefix = \"soapenv\", attribute)]\n            pub encoding_style: String,\n            #[yaserde(rename = \"tns\", prefix = \"xmlns\", attribute)]\n            pub tnsattr: String,\n            #[yaserde(rename = \"urn\", prefix = \"xmlns\", attribute)]\n            pub urnattr: Option<String>,\n            #[yaserde(rename = \"xsi\", prefix = \"xmlns\", attribute)]\n            pub xsiattr: String,\n            #[yaserde(rename = \"Header\", prefix = \"soapenv\")]\n            pub header: Option<Header>,\n            #[yaserde(rename = \"Body\", prefix = \"soapenv\")]\n            pub body: "@
}

/// What closes an envelope record.
pub open spec fn envelope_tail() -> Seq<char> {
    ",\n        }\n        "@
}

/// The envelope record `<soap_name>SoapEnvelope`: the encoding style, the
/// namespace declarations, an optional header and a body of `body_type`.
pub open spec fn soap_wrapper(soap_name: Seq<char>, body_type: Seq<char>) -> Seq<char> {
    envelope_head() + soap_name + envelope_fields() + body_type + envelope_tail()
}

/// The name of the body record for the message `pascal_name`.
pub open spec fn soap_name(pascal_name: Seq<char>) -> Seq<char> {
    "Soap"@ + pascal_name
}

/// The body record of the message `name` of the operation `element_name`,
/// and the envelope record around it. The body has one field, renamed to
/// the operation and typed as the alias of the message.
pub open spec fn soap_records(name: Seq<char>, element_name: Seq<char>) -> Seq<char> {
    "#[derive(Debug, Default, YaSerialize, YaDeserialize)]\npub struct "@ + soap_name(
        pascal_case(name),
    ) + " {\n\t#[yaserde(rename = \""@ + element_name + "\", default)]\n\tpub body: "@
        + ports_mod() + "::"@ + pascal_case(name) + ",\n}\n"@ + soap_wrapper(
        pascal_case(name),
        soap_name(pascal_case(name)),
    ) + "\n"@
}

/// The records queued for an input or output, if the operation has one.
pub open spec fn soap_records_of(name: Option<Seq<char>>, element_name: Seq<char>) -> Seq<char> {
    match name {
        Some(name) => soap_records(name, element_name),
        None => Seq::empty(),
    }
}

/// The parameter that a stub takes for its input.
pub open spec fn stub_parameter_text(input: Option<Seq<char>>) -> Seq<char> {
    match input {
        Some(name) => snake_case(name) + ": "@ + ports_mod() + "::"@ + pascal_case(name),
        None => Seq::empty(),
    }
}

/// What a stub returns: nothing without an output, the output's alias
/// alone, or a `Result` of the output and the fault.
pub open spec fn stub_return_text(output: Option<Seq<char>>, fault: Option<Seq<char>>) -> Seq<
    char,
> {
    match output {
        Some(name) => match fault {
            Some(fault_name) => "-> Result<"@ + ports_mod() + "::"@ + pascal_case(name) + ", "@
                + ports_mod() + "::"@ + pascal_case(fault_name) + ">"@,
            None => "-> "@ + ports_mod() + "::"@ + pascal_case(name),
        },
        None => Seq::empty(),
    }
}

/// The first line of the stub for the operation `element_name`.
pub open spec fn stub_header(
    element_name: Seq<char>,
    input: Option<Seq<char>>,
    output: Option<Seq<char>>,
    fault: Option<Seq<char>>,
) -> Seq<char> {
    "\tfn "@ + snake_case(element_name) + " (&self, "@ + stub_parameter_text(input) + ") "@
        + stub_return_text(output, fault) + " {\n"@
}

/// The body of every stub.
pub open spec fn stub_body() -> Seq<char> {
    "\tunimplemented!();\n"@
}

/// The line that closes a stub.
pub open spec fn stub_end() -> Seq<char> {
    "}\n"@
}

/// The record of the binding `struct_name` and the opening of its
/// implementation of `trait_name`.
pub open spec fn binding_header(struct_name: Seq<char>, trait_name: Seq<char>) -> Seq<char> {
    "pub struct "@ + struct_name + " {}\n\nimpl "@ + ports_mod() + "::"@ + trait_name + " for "@
        + struct_name + " {\n"@
}

/// The `Default` implementation of the record `struct_name`.
pub open spec fn default_constructor(struct_name: Seq<char>) -> Seq<char> {
    "impl Default for "@ + struct_name + " {\n\tfn default() -> Self {\n\t\t"@ + struct_name
        + "{}\n\t}\n\t}\n"@
}

impl FileWriterView {
    /// Writes the `Default` implementation of the record `struct_name`.
    pub open spec fn print_default_constructor(self, struct_name: Seq<char>) -> Self {
        self.write(default_constructor(struct_name))
    }

    /// Writes the stub of a binding operation and queues the records of its
    /// input and of its output. A node without a name is passed over.
    pub open spec fn print_binding_operation(self, node: NodeModel) -> Self {
        match node.attribute("name"@) {
            None => self,
            Some(element_name) => {
                let input = name_of(node, "input"@);
                let output = name_of(node, "output"@);
                let fault = name_of(node, "fault"@);
                self.write(stub_header(element_name, input, output, fault)).write(
                    stub_body(),
                ).write(stub_end()).delayed_write(
                    soap_records_of(input, element_name),
                ).delayed_write(soap_records_of(output, element_name))
            },
        }
    }

    /// The binding operations among the children at or behind `from`, one
    /// by one.
    pub open spec fn print_binding_operations_from(self, node: NodeModel, from: int) -> Self
        decreases node.children.len() - from,
    {
        if 0 <= from < node.children.len() {
            self.print_binding_operation(node.children[from]).print_binding_operations_from(
                node,
                from + 1,
            )
        } else {
            self
        }
    }

    /// Writes the record of a binding, its implementation block with one
    /// stub per operation and its `Default` implementation to the bindings
    /// section, followed by the records that the stubs queued. A binding
    /// without a name or without a type only makes the bindings section
    /// current.
    #[verifier::opaque]
    pub open spec fn print_binding(self, node: NodeModel) -> Self {
        let routed = self.check_section(Section::Bindings);
        match (node.attribute("name"@), node.attribute("type"@)) {
            (Some(element_name), Some(port_type)) => routed.write(
                binding_header(pascal_case(element_name), resolve_type(port_type)),
            ).print_binding_operations_from(node, 0).write(
                closing_text(),
            ).print_default_constructor(pascal_case(element_name)).flush_delayed_buffer(),
            _ => routed,
        }
    }
}

/// Writing a binding operation keeps a staged state staged, at its level
/// and in its section, and leaves the queues of the other sections as they
/// are.
pub proof fn lemma_print_binding_operation_stays_staged(state: FileWriterView, node: NodeModel)
    requires
        state.staged(),
    ensures
        state.stays_staged(state.print_binding_operation(node)),
        same_queues_elsewhere(state, state.print_binding_operation(node)),
{
    lemma_routing_keeps_queues_elsewhere(state, Seq::empty());
    if let Some(element_name) = node.attribute("name"@) {
        let input = name_of(node, "input"@);
        let output = name_of(node, "output"@);
        let fault = name_of(node, "fault"@);
        let header = stub_header(element_name, input, output, fault);
        let records_in = soap_records_of(input, element_name);
        let records_out = soap_records_of(output, element_name);
        lemma_routing_keeps_staged(state, header);
        lemma_routing_keeps_queues_elsewhere(state, header);
        let headed = state.write(header);
        lemma_routing_keeps_staged(headed, stub_body());
        lemma_routing_keeps_queues_elsewhere(headed, stub_body());
        let filled = headed.write(stub_body());
        lemma_same_queues_elsewhere_twice(state, headed, filled);
        lemma_routing_keeps_staged(filled, stub_end());
        lemma_routing_keeps_queues_elsewhere(filled, stub_end());
        let ended = filled.write(stub_end());
        lemma_same_queues_elsewhere_twice(state, filled, ended);
        lemma_routing_keeps_staged(ended, records_in);
        lemma_routing_keeps_queues_elsewhere(ended, records_in);
        let queued = ended.delayed_write(records_in);
        lemma_same_queues_elsewhere_twice(state, ended, queued);
        lemma_routing_keeps_staged(queued, records_out);
        lemma_routing_keeps_queues_elsewhere(queued, records_out);
        lemma_same_queues_elsewhere_twice(state, queued, queued.delayed_write(records_out));
    }
}

proof fn lemma_print_binding_operations_from_stays_staged(
    state: FileWriterView,
    node: NodeModel,
    from: int,
)
    requires
        state.staged(),
    ensures
        state.stays_staged(state.print_binding_operations_from(node, from)),
        same_queues_elsewhere(state, state.print_binding_operations_from(node, from)),
    decreases node.children.len() - from,
{
    lemma_routing_keeps_queues_elsewhere(state, Seq::empty());
    if 0 <= from < node.children.len() {
        lemma_print_binding_operation_stays_staged(state, node.children[from]);
        let next = state.print_binding_operation(node.children[from]);
        lemma_print_binding_operations_from_stays_staged(next, node, from + 1);
        lemma_same_queues_elsewhere_twice(
            state,
            next,
            next.print_binding_operations_from(node, from + 1),
        );
    }
}

/// Writing a binding keeps a settled state settled: staged at level 0, with
/// nothing waiting in any queue. What the stubs of the binding queue is
/// flushed behind the binding.
pub proof fn lemma_print_binding_stays_settled(state: FileWriterView, node: NodeModel)
    requires
        state.settled(),
    ensures
        state.print_binding(node).settled(),
{
    reveal(FileWriterView::print_binding);
    lemma_moves_keep_staged(state, Section::Bindings);
    lemma_routing_keeps_queues(state, Seq::empty(), 0, Section::Bindings);
    let routed = state.check_section(Section::Bindings);
    let after = state.print_binding(node);
    if let (Some(element_name), Some(port_type)) = (
        node.attribute("name"@),
        node.attribute("type"@),
    ) {
        let header = binding_header(pascal_case(element_name), resolve_type(port_type));
        let constructor = default_constructor(pascal_case(element_name));
        lemma_routing_keeps_staged(routed, header);
        lemma_routing_keeps_queues_elsewhere(routed, header);
        let opened = routed.write(header);
        lemma_print_binding_operations_from_stays_staged(opened, node, 0);
        let listed = opened.print_binding_operations_from(node, 0);
        lemma_same_queues_elsewhere_twice(routed, opened, listed);
        lemma_routing_keeps_staged(listed, closing_text());
        lemma_routing_keeps_queues_elsewhere(listed, closing_text());
        let closed = listed.write(closing_text());
        lemma_same_queues_elsewhere_twice(routed, listed, closed);
        lemma_routing_keeps_staged(closed, constructor);
        lemma_routing_keeps_queues_elsewhere(closed, constructor);
        let built = closed.print_default_constructor(pascal_case(element_name));
        lemma_same_queues_elsewhere_twice(routed, closed, built);
        lemma_routing_keeps_staged(built, closing_text());
        lemma_routing_keeps_queues_elsewhere(built, closing_text());
        lemma_same_queues_elsewhere_twice(routed, built, built.flush_delayed_buffer());
        assert(after == built.flush_delayed_buffer());
        assert(after.current().delayed.len() == 0);
    }
    assert forall|other: Section| (#[trigger] after.mod_writers.get(other)).delayed.len()
        == 0 by {
        assert(state.mod_writers.get(other).delayed.len() == 0);
        assert(routed.mod_writers.get(other).delayed.len() == 0);
    }
}

impl FileWriter {
    /// Writes the `Default` implementation of the record `struct_name`.
    pub fn print_default_constructor(&mut self, struct_name: String)
        ensures
            final(self)@ == old(self)@.print_default_constructor(struct_name@),
    {
        self.write(
            concat5(
                "impl Default for ",
                struct_name.as_str(),
                " {\n\tfn default() -> Self {\n\t\t",
                struct_name.as_str(),
                "{}\n\t}\n\t}\n",
            ),
        );
    }

    /// The envelope record `<soap_name>SoapEnvelope` with a body of
    /// `body_type`.
    pub fn construct_soap_wrapper(&self, soap_name: &str, body_type: &str) -> (wrapper: String)
        ensures
            wrapper@ == soap_wrapper(soap_name@, body_type@),
    {
        concat5(
            "#[derive(Debug, Default, YaSerialize, YaDeserialize)]\n        #[yaserde(\n            root = \"Envelope\",\n            namespace = \"soapenv: http://schemas.xmlsoap.org/soap/envelope/\",\n            prefix = \"soapenv\"\n        )]\n        pub struct ",
            soap_name,
            "SoapEnvelope {\n            #[yaserde(rename = \"encodingStyle\", prefix = \"soapenv\", attribute)]\n            pub encoding_style: String,\n            #[yaserde(rename = \"tns\", prefix = \"xmlns\", attribute)]\n            pub tnsattr: String,\n            #[yaserde(rename = \"urn\", prefix = \"xmlns\", attribute)]\n            pub urnattr: Option<String>,\n            #[yaserde(rename = \"xsi\", prefix = \"xmlns\", attribute)]\n            pub xsiattr: String,\n            #[yaserde(rename = \"Header\", prefix = \"soapenv\")]\n            pub header: Option<Header>,\n            #[yaserde(rename = \"Body\", prefix = \"soapenv\")]\n            pub body: ",
            body_type,
            ",\n        }\n        ",
        )
    }

    /// The body record of the message `name` of the operation
    /// `element_name`, and the envelope record around it.
    pub fn soap_records(&self, name: &str, element_name: &str) -> (records: String)
        ensures
            records@ == soap_records(name@, element_name@),
    {
        let pascal_name = to_pascal_case(name);
        let mut soap_name = "Soap".to_string();
        soap_name.append(pascal_name.as_str());
        let wrapper = self.construct_soap_wrapper(pascal_name.as_str(), soap_name.as_str());
        let mut records = concat7(
            "#[derive(Debug, Default, YaSerialize, YaDeserialize)]\npub struct ",
            soap_name.as_str(),
            " {\n\t#[yaserde(rename = \"",
            element_name,
            "\", default)]\n\tpub body: ",
            "ports",
            "::",
        );
        records.append(pascal_name.as_str());
        records.append(",\n}\n");
        records.append(wrapper.as_str());
        records.append("\n");
        records
    }

    /// Writes the stub of a binding operation and queues the records of its
    /// input and of its output. A node without a name is passed over.
    pub fn print_binding_operation(&mut self, node: &XmlNode)
        ensures
            final(self)@ == old(self)@.print_binding_operation(node@),
    {
        let element_name = match node.get_some_attribute("name") {
            None => {
                return ;
            },
            Some(n) => n,
        };
        let func_name = to_snake_case(element_name);
        let some_input = match node.find_child("input") {
            Some(c) => Some(c.get_some_attribute_as_string("name")),
            None => None,
        };
        let some_output = match node.find_child("output") {
            Some(c) => Some(c.get_some_attribute_as_string("name")),
            None => None,
        };
        let some_fault = match node.find_child("fault") {
            Some(c) => Some(c.get_some_attribute_as_string("name")),
            None => None,
        };
        let ghost input = name_of(node@, "input"@);
        let ghost output = name_of(node@, "output"@);
        let ghost fault = name_of(node@, "fault"@);

        let (input_template, soap_wrapper_in) = match some_input {
            Some(Some(name)) => {
                let snake = to_snake_case(name.as_str());
                let pascal_name = to_pascal_case(name.as_str());
                (
                    concat5(snake.as_str(), ": ", "ports", "::", pascal_name.as_str()),
                    self.soap_records(name.as_str(), element_name),
                )
            },
            _ => (String::new(), String::new()),
        };
        assert(input_template@ == stub_parameter_text(input));
        assert(soap_wrapper_in@ == soap_records_of(input, element_name@));

        let (output_template, soap_wrapper_out) = match some_output {
            Some(Some(name)) => {
                let pascal_name = to_pascal_case(name.as_str());
                match some_fault {
                    Some(Some(fault_name)) => {
                        let pascal_fault_name = to_pascal_case(fault_name.as_str());
                        let mut result = concat7(
                            "-> Result<",
                            "ports",
                            "::",
                            pascal_name.as_str(),
                            ", ",
                            "ports",
                            "::",
                        );
                        result.append(pascal_fault_name.as_str());
                        result.append(">");
                        (result, self.soap_records(name.as_str(), element_name))
                    },
                    _ => {
                        let mut plain = concat3("-> ", "ports", "::");
                        plain.append(pascal_name.as_str());
                        (plain, self.soap_records(name.as_str(), element_name))
                    },
                }
            },
            _ => (String::new(), String::new()),
        };
        assert(output_template@ == stub_return_text(output, fault));
        assert(soap_wrapper_out@ == soap_records_of(output, element_name@));

        self.write(
            concat7(
                "\tfn ",
                func_name.as_str(),
                " (&self, ",
                input_template.as_str(),
                ") ",
                output_template.as_str(),
                " {\n",
            ),
        );
        self.write("\tunimplemented!();\n".to_string());
        self.write("}\n".to_string());
        self.delayed_write(soap_wrapper_in);
        self.delayed_write(soap_wrapper_out);
    }

    /// Writes the record of a binding, its implementation block with one
    /// stub per operation and its `Default` implementation to the bindings
    /// section, followed by the records that the stubs queued. A binding
    /// without a name or without a type only makes the bindings section
    /// current.
    pub fn print_binding(&mut self, node: &XmlNode)
        ensures
            final(self)@ == old(self)@.print_binding(node@),
            final(self)@.level == old(self)@.level,
    {
        proof {
            reveal(FileWriterView::print_binding);
        }
        self.check_section(Section::Bindings);
        let element_name = match node.get_some_attribute("name") {
            None => {
                return ;
            },
            Some(n) => n,
        };
        let port_type = match node.get_some_attribute("type") {
            None => {
                return ;
            },
            Some(n) => n,
        };
        let struct_name = to_pascal_case(element_name);
        let trait_name = self.fetch_type(port_type);
        let mut header = concat7(
            "pub struct ",
            struct_name.as_str(),
            " {}\n\nimpl ",
            "ports",
            "::",
            trait_name.as_str(),
            " for ",
        );
        header.append(struct_name.as_str());
        header.append(" {\n");
        self.write(header);
        let ghost start = self@;
        proof {
            node.lemma_view_children();
        }
        let mut i: usize = 0;
        while i < node.children.len()
            invariant
                i <= node.children.len(),
                node@.children.len() == node.children.len(),
                forall|j: int| 0 <= j < node.children.len() ==> node@.children[j] == node.children[j]@,
                self@.print_binding_operations_from(node@, i as int)
                    == start.print_binding_operations_from(node@, 0),
                self@.level == start.level,
            decreases node.children.len() - i,
        {
            self.print_binding_operation(&node.children[i]);
            i = i + 1;
        }
        self.write("}\n\n".to_string());
        self.print_default_constructor(struct_name);
        self.flush_delayed_buffer();
    }
}

} // verus!
