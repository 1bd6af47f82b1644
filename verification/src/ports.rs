//! Interfaces: one trait per port type, one method per operation, and the
//! type aliases that the method signatures use.
//!
//! The aliases of an interface are queued while its methods are written and
//! flushed behind its closing brace, each alias once per interface.

use vstd::prelude::*;
use vstd::string::*;
use inflector::cases::pascalcase::to_pascal_case;
use inflector::cases::snakecase::to_snake_case;
use crate::casing::{pascal_case, snake_case};
use crate::generator::{
    lemma_moves_keep_staged, lemma_routing_keeps_staged, FileWriter, FileWriterView,
};
use crate::resolve::resolve_type;
use crate::section::{messages_mod, Section};
use crate::staging::closing_text;
use crate::text::{concat3, concat5, concat7};
use crate::xml::{NodeModel, XmlNode};

verus! {

/// The name and the message of the first `tag` child of an operation;
/// `None` unless there is such a child and it carries both.
pub open spec fn message_of(node: NodeModel, tag: Seq<char>) -> Option<(Seq<char>, Seq<char>)> {
    match node.find(tag) {
        Some(found) => match (found.attribute("name"@), found.attribute("message"@)) {
            (Some(name), Some(message)) => Some((name, message)),
            _ => None,
        },
        None => None,
    }
}

/// The alias that exposes the message `message` under the name `name`.
pub open spec fn port_alias(name: Seq<char>, message: Seq<char>) -> Seq<char> {
    "pub type "@ + pascal_case(name) + " = "@ + messages_mod() + "::"@ + resolve_type(message)
        + ";\n"@
}

/// The alias of an input or output, if the operation has one.
pub open spec fn alias_of(bound: Option<(Seq<char>, Seq<char>)>) -> Seq<char> {
    match bound {
        Some((name, message)) => port_alias(name, message),
        None => Seq::empty(),
    }
}

/// The alias of the fault; an operation without an output has none.
pub open spec fn fault_alias_of(
    output: Option<(Seq<char>, Seq<char>)>,
    fault: Option<(Seq<char>, Seq<char>)>,
) -> Option<Seq<char>> {
    match (output, fault) {
        (Some(_), Some((name, message))) => Some(port_alias(name, message)),
        _ => None,
    }
}

/// The parameter that a method takes for its input.
pub open spec fn parameter_text(input: Option<(Seq<char>, Seq<char>)>) -> Seq<char> {
    match input {
        Some((name, _)) => snake_case(name) + ": "@ + pascal_case(name),
        None => Seq::empty(),
    }
}

/// What a method returns: nothing without an output, the output's alias
/// alone, or a `Result` of the output and the fault.
pub open spec fn return_text(
    output: Option<(Seq<char>, Seq<char>)>,
    fault: Option<(Seq<char>, Seq<char>)>,
) -> Seq<char> {
    match output {
        Some((name, _)) => match fault {
            Some((fault_name, _)) => "-> Result<"@ + pascal_case(name) + ", "@ + pascal_case(
                fault_name,
            ) + ">"@,
            None => "-> "@ + pascal_case(name),
        },
        None => Seq::empty(),
    }
}

/// The signature of the method for the operation `element_name`.
pub open spec fn method_text(
    element_name: Seq<char>,
    input: Option<(Seq<char>, Seq<char>)>,
    output: Option<(Seq<char>, Seq<char>)>,
    fault: Option<(Seq<char>, Seq<char>)>,
) -> Seq<char> {
    "\tfn "@ + snake_case(element_name) + " (&self, "@ + parameter_text(input) + ") "@
        + return_text(output, fault) + ";\n"@
}

/// The line that opens the trait of the port type `element_name`.
pub open spec fn trait_header(element_name: Seq<char>) -> Seq<char> {
    "pub trait "@ + pascal_case(element_name) + " {\n"@
}

impl FileWriterView {
    /// Queues `alias` unless it was seen since the last reset, and marks it
    /// as seen.
    pub open spec fn queue_alias(self, alias: Seq<char>) -> Self {
        if self.have_seen_type(alias) {
            self
        } else {
            self.delayed_write(alias).seen_type(alias)
        }
    }

    /// Queues the aliases of one operation, each unless it was seen.
    pub open spec fn queue_port_types(
        self,
        input: Seq<char>,
        output: Seq<char>,
        fault: Option<Seq<char>>,
    ) -> Self {
        let queued = self.queue_alias(input).queue_alias(output);
        match fault {
            Some(alias) => queued.queue_alias(alias),
            None => queued,
        }
    }

    /// Queues the aliases of an operation and writes its method signature.
    /// A node without a name is passed over.
    pub open spec fn print_operation(self, node: NodeModel) -> Self {
        match node.attribute("name"@) {
            None => self,
            Some(element_name) => {
                let input = message_of(node, "input"@);
                let output = message_of(node, "output"@);
                let fault = message_of(node, "fault"@);
                self.queue_port_types(
                    alias_of(input),
                    alias_of(output),
                    fault_alias_of(output, fault),
                ).write(method_text(element_name, input, output, fault))
            },
        }
    }

    /// The operations among the children at or behind `from`, one by one.
    pub open spec fn print_operations_from(self, node: NodeModel, from: int) -> Self
        decreases node.children.len() - from,
    {
        if 0 <= from < node.children.len() {
            self.print_operation(node.children[from]).print_operations_from(node, from + 1)
        } else {
            self
        }
    }

    /// Writes the trait of a port type to the interfaces section, followed
    /// by the aliases that its methods queued. The seen signatures are
    /// forgotten on the way in and on the way out. A port type without a
    /// name only makes the interfaces section current.
    #[verifier::opaque]
    pub open spec fn print_port_type(self, node: NodeModel) -> Self {
        let routed = self.check_section(Section::PortTypes);
        match node.attribute("name"@) {
            None => routed,
            Some(element_name) => routed.reset_defined_types().write(
                trait_header(element_name),
            ).print_operations_from(node, 0).write(
                closing_text(),
            ).flush_delayed_buffer().reset_defined_types(),
        }
    }
}

/// An alias that was seen is not queued again.
pub proof fn lemma_seen_alias_is_not_queued(state: FileWriterView, alias: Seq<char>)
    requires
        state.have_seen_type(alias),
    ensures
        state.queue_alias(alias) == state,
{
}

/// Queueing marks the alias as seen, so that queueing it twice in a row is
/// queueing it once.
pub proof fn lemma_alias_is_queued_once(state: FileWriterView, alias: Seq<char>)
    ensures
        state.queue_alias(alias).have_seen_type(alias),
        state.queue_alias(alias).queue_alias(alias) == state.queue_alias(alias),
{
    let writer = state.current();
    if !state.have_seen_type(alias) {
        let marked = writer.delayed_write(alias).seen_type(alias);
        assert(marked.defined_types.last() == alias);
        assert(state.queue_alias(alias).current() == marked);
    }
}

/// After a reset every alias is queued again, behind what the queue holds.
pub proof fn lemma_alias_is_queued_after_reset(state: FileWriterView, alias: Seq<char>)
    ensures
        !state.reset_defined_types().have_seen_type(alias),
        state.reset_defined_types().queue_alias(alias).current().delayed
            == state.current().delayed + alias,
{
}

/// Once an operation with an input is written, the alias of that input is
/// seen: a later operation of the same interface with the same input queues
/// no second alias for it.
pub proof fn lemma_operation_marks_input(state: FileWriterView, node: NodeModel)
    requires
        node.attribute("name"@).is_some(),
        message_of(node, "input"@).is_some(),
    ensures
        state.print_operation(node).have_seen_type(alias_of(message_of(node, "input"@))),
{
    let input = alias_of(message_of(node, "input"@));
    let output = alias_of(message_of(node, "output"@));
    let fault = fault_alias_of(message_of(node, "output"@), message_of(node, "fault"@));
    lemma_alias_is_queued_once(state, input);
    let first = state.queue_alias(input);
    lemma_queue_keeps_seen(first, output, input);
    let second = first.queue_alias(output);
    if let Some(alias) = fault {
        lemma_queue_keeps_seen(second, alias, input);
    }
}

/// Two operations of one interface that share their input share its alias:
/// once the first is written, the alias of the second's input is seen and
/// queueing it changes nothing.
pub proof fn lemma_shared_input_is_queued_once(
    state: FileWriterView,
    first: NodeModel,
    second: NodeModel,
)
    requires
        first.attribute("name"@).is_some(),
        message_of(first, "input"@).is_some(),
        message_of(second, "input"@) == message_of(first, "input"@),
    ensures
        state.print_operation(first).queue_alias(alias_of(message_of(second, "input"@)))
            == state.print_operation(first),
{
    lemma_operation_marks_input(state, first);
}

/// Queueing an alias leaves every seen alias seen.
pub proof fn lemma_queue_keeps_seen(state: FileWriterView, alias: Seq<char>, seen: Seq<char>)
    requires
        state.have_seen_type(seen),
    ensures
        state.queue_alias(alias).have_seen_type(seen),
{
    let writer = state.current();
    if !state.have_seen_type(alias) {
        let at = choose|i: int| 0 <= i < writer.defined_types.len() && writer.defined_types[i] == seen;
        let marked = writer.delayed_write(alias).seen_type(alias);
        assert(marked.defined_types[at] == seen);
        assert(state.queue_alias(alias).current() == marked);
    }
}

/// Queueing an alias keeps a staged state staged, at its level and in its
/// section.
pub proof fn lemma_queue_alias_stays_staged(state: FileWriterView, alias: Seq<char>)
    requires
        state.staged(),
    ensures
        state.stays_staged(state.queue_alias(alias)),
{
    lemma_routing_keeps_staged(state, alias);
    lemma_routing_keeps_staged(state.delayed_write(alias), alias);
}

/// Writing an operation keeps a staged state staged, at its level and in
/// its section.
pub proof fn lemma_print_operation_stays_staged(state: FileWriterView, node: NodeModel)
    requires
        state.staged(),
    ensures
        state.stays_staged(state.print_operation(node)),
{
    if let Some(element_name) = node.attribute("name"@) {
        let input = message_of(node, "input"@);
        let output = message_of(node, "output"@);
        let fault = message_of(node, "fault"@);
        lemma_queue_alias_stays_staged(state, alias_of(input));
        let first = state.queue_alias(alias_of(input));
        lemma_queue_alias_stays_staged(first, alias_of(output));
        let second = first.queue_alias(alias_of(output));
        let queued = match fault_alias_of(output, fault) {
            Some(alias) => {
                lemma_queue_alias_stays_staged(second, alias);
                second.queue_alias(alias)
            },
            None => second,
        };
        lemma_routing_keeps_staged(queued, method_text(element_name, input, output, fault));
    }
}

proof fn lemma_print_operations_from_stays_staged(state: FileWriterView, node: NodeModel, from: int)
    requires
        state.staged(),
    ensures
        state.stays_staged(state.print_operations_from(node, from)),
    decreases node.children.len() - from,
{
    if 0 <= from < node.children.len() {
        lemma_print_operation_stays_staged(state, node.children[from]);
        lemma_print_operations_from_stays_staged(
            state.print_operation(node.children[from]),
            node,
            from + 1,
        );
    }
}

/// Writing a port type at level 0 keeps a staged state staged, at level 0.
pub proof fn lemma_print_port_type_stays_staged(state: FileWriterView, node: NodeModel)
    requires
        state.staged(),
        state.level == 0,
    ensures
        state.print_port_type(node).staged(),
        state.print_port_type(node).level == 0,
{
    reveal(FileWriterView::print_port_type);
    lemma_moves_keep_staged(state, Section::PortTypes);
    let routed = state.check_section(Section::PortTypes);
    if let Some(element_name) = node.attribute("name"@) {
        lemma_routing_keeps_staged(routed, trait_header(element_name));
        let fresh = routed.reset_defined_types();
        lemma_routing_keeps_staged(fresh, trait_header(element_name));
        let opened = fresh.write(trait_header(element_name));
        lemma_print_operations_from_stays_staged(opened, node, 0);
        let listed = opened.print_operations_from(node, 0);
        lemma_routing_keeps_staged(listed, closing_text());
        let closed = listed.write(closing_text());
        lemma_routing_keeps_staged(closed, closing_text());
        lemma_routing_keeps_staged(closed.flush_delayed_buffer(), closing_text());
    }
}

/// What queueing `alias` adds to the queue where `seen` holds the aliases
/// seen so far: the alias, unless it is among them.
pub open spec fn first_use(seen: Seq<Seq<char>>, alias: Seq<char>) -> Seq<char> {
    if seen.contains(alias) {
        Seq::empty()
    } else {
        alias
    }
}

/// The aliases seen once `alias` was queued.
pub open spec fn seen_with(seen: Seq<Seq<char>>, alias: Seq<char>) -> Seq<Seq<char>> {
    if seen.contains(alias) {
        seen
    } else {
        seen.push(alias)
    }
}

/// The aliases that an operation asks for, in the order in which it asks:
/// that of its input, that of its output, that of its fault if it has one.
/// A node without a name asks for none.
pub open spec fn asked_aliases(node: NodeModel) -> Seq<Seq<char>> {
    match node.attribute("name"@) {
        None => Seq::empty(),
        Some(_) => {
            let input = message_of(node, "input"@);
            let output = message_of(node, "output"@);
            let fault = message_of(node, "fault"@);
            match fault_alias_of(output, fault) {
                Some(alias) => seq![alias_of(input), alias_of(output), alias],
                None => seq![alias_of(input), alias_of(output)],
            }
        },
    }
}

/// The first uses among `aliases[from..]`: each alias that is neither in
/// `seen` nor asked for before, once, in the order of first use.
pub open spec fn first_uses(seen: Seq<Seq<char>>, aliases: Seq<Seq<char>>, from: int) -> Seq<char>
    decreases aliases.len() - from,
{
    if 0 <= from < aliases.len() {
        first_use(seen, aliases[from]) + first_uses(
            seen_with(seen, aliases[from]),
            aliases,
            from + 1,
        )
    } else {
        Seq::empty()
    }
}

/// The aliases seen once `aliases[from..]` were queued.
pub open spec fn seen_after(seen: Seq<Seq<char>>, aliases: Seq<Seq<char>>, from: int) -> Seq<
    Seq<char>,
>
    decreases aliases.len() - from,
{
    if 0 <= from < aliases.len() {
        seen_after(seen_with(seen, aliases[from]), aliases, from + 1)
    } else {
        seen
    }
}

/// The method signature that a child of a port type contributes.
pub open spec fn operation_method(node: NodeModel) -> Seq<char> {
    match node.attribute("name"@) {
        None => Seq::empty(),
        Some(element_name) => method_text(
            element_name,
            message_of(node, "input"@),
            message_of(node, "output"@),
            message_of(node, "fault"@),
        ),
    }
}

/// The method signatures of the children at or behind `from`, in document
/// order.
pub open spec fn methods_text(node: NodeModel, from: int) -> Seq<char>
    decreases node.children.len() - from,
{
    if 0 <= from < node.children.len() {
        operation_method(node.children[from]) + methods_text(node, from + 1)
    } else {
        Seq::empty()
    }
}

/// The aliases that the children at or behind `from` queue where `seen`
/// holds the aliases seen so far: each distinct alias once, in the order of
/// first use.
pub open spec fn queued_aliases(seen: Seq<Seq<char>>, node: NodeModel, from: int) -> Seq<char>
    decreases node.children.len() - from,
{
    if 0 <= from < node.children.len() {
        let asked = asked_aliases(node.children[from]);
        first_uses(seen, asked, 0) + queued_aliases(seen_after(seen, asked, 0), node, from + 1)
    } else {
        Seq::empty()
    }
}

/// The aliases seen once the children at or behind `from` were written.
pub open spec fn seen_behind(seen: Seq<Seq<char>>, node: NodeModel, from: int) -> Seq<Seq<char>>
    decreases node.children.len() - from,
{
    if 0 <= from < node.children.len() {
        seen_behind(seen_after(seen, asked_aliases(node.children[from]), 0), node, from + 1)
    } else {
        seen
    }
}

/// Whether `after` differs from `before` in the current section alone,
/// which has `text` more in its final text and `queued` more in its queue,
/// and has seen `seen`.
pub open spec fn extends(
    before: FileWriterView,
    after: FileWriterView,
    text: Seq<char>,
    queued: Seq<char>,
    seen: Seq<Seq<char>>,
) -> bool {
    &&& after.level == before.level
    &&& after.current_section == before.current_section
    &&& after.current().level == before.current().level
    &&& after.current().buffers == before.current().buffers
    &&& after.current().final_stage == before.current().final_stage + text
    &&& after.current().delayed == before.current().delayed + queued
    &&& after.current().defined_types == seen
    &&& forall|section: Section|
        section != before.current_section ==> #[trigger] after.mod_writers.get(section)
            == before.mod_writers.get(section)
}

/// Two extensions in a row are one extension by both texts and both
/// queues.
pub proof fn lemma_extends_twice(
    before: FileWriterView,
    between: FileWriterView,
    after: FileWriterView,
    text: Seq<char>,
    queued: Seq<char>,
    seen: Seq<Seq<char>>,
    more_text: Seq<char>,
    more_queued: Seq<char>,
    more_seen: Seq<Seq<char>>,
)
    requires
        extends(before, between, text, queued, seen),
        extends(between, after, more_text, more_queued, more_seen),
    ensures
        extends(before, after, text + more_text, queued + more_queued, more_seen),
{
    assert(after.current().final_stage =~= before.current().final_stage + (text + more_text));
    assert(after.current().delayed =~= before.current().delayed + (queued + more_queued));
}

/// Queueing an alias adds its first use to the queue and nothing to the
/// final text.
pub proof fn lemma_queue_alias_extends(state: FileWriterView, alias: Seq<char>)
    ensures
        extends(
            state,
            state.queue_alias(alias),
            Seq::empty(),
            first_use(state.current().defined_types, alias),
            seen_with(state.current().defined_types, alias),
        ),
{
    let writer = state.current();
    let after = state.queue_alias(alias);
    if state.have_seen_type(alias) {
        assert(writer.final_stage + Seq::<char>::empty() =~= writer.final_stage);
        assert(writer.delayed + Seq::<char>::empty() =~= writer.delayed);
    } else {
        assert(after.current() == writer.delayed_write(alias).seen_type(alias));
        assert(writer.final_stage + Seq::<char>::empty() =~= writer.final_stage);
    }
}

/// Queueing a list of aliases one by one.
pub open spec fn queue_aliases(state: FileWriterView, aliases: Seq<Seq<char>>, from: int) -> FileWriterView
    decreases aliases.len() - from,
{
    if 0 <= from < aliases.len() {
        queue_aliases(state.queue_alias(aliases[from]), aliases, from + 1)
    } else {
        state
    }
}

/// Queueing a list of aliases adds their first uses to the queue and
/// nothing to the final text.
pub proof fn lemma_queue_aliases_extends(state: FileWriterView, aliases: Seq<Seq<char>>, from: int)
    requires
        0 <= from,
    ensures
        extends(
            state,
            queue_aliases(state, aliases, from),
            Seq::empty(),
            first_uses(state.current().defined_types, aliases, from),
            seen_after(state.current().defined_types, aliases, from),
        ),
    decreases aliases.len() - from,
{
    let writer = state.current();
    let seen = writer.defined_types;
    if from < aliases.len() {
        let alias = aliases[from];
        lemma_queue_alias_extends(state, alias);
        let next = state.queue_alias(alias);
        lemma_queue_aliases_extends(next, aliases, from + 1);
        lemma_extends_twice(
            state,
            next,
            queue_aliases(next, aliases, from + 1),
            Seq::empty(),
            first_use(seen, alias),
            seen_with(seen, alias),
            Seq::empty(),
            first_uses(seen_with(seen, alias), aliases, from + 1),
            seen_after(seen_with(seen, alias), aliases, from + 1),
        );
        assert(Seq::<char>::empty() + Seq::<char>::empty() =~= Seq::<char>::empty());
    } else {
        assert(writer.final_stage + Seq::<char>::empty() =~= writer.final_stage);
        assert(writer.delayed + Seq::<char>::empty() =~= writer.delayed);
    }
}

/// The aliases of an operation are queued in the order in which the
/// operation asks for them.
pub proof fn lemma_operation_queues_what_it_asks(state: FileWriterView, node: NodeModel)
    requires
        node.attribute("name"@).is_some(),
    ensures
        state.queue_port_types(
            alias_of(message_of(node, "input"@)),
            alias_of(message_of(node, "output"@)),
            fault_alias_of(message_of(node, "output"@), message_of(node, "fault"@)),
        ) == queue_aliases(state, asked_aliases(node), 0),
{
    reveal_with_fuel(queue_aliases, 4);
}

/// A write at level 0 adds what is written to the final text of the
/// current section, and nothing to its queue.
pub proof fn lemma_write_extends(state: FileWriterView, buf: Seq<char>)
    requires
        state.level == 0,
    ensures
        extends(state, state.write(buf), buf, Seq::empty(), state.current().defined_types),
{
    assert(state.current().delayed + Seq::<char>::empty() =~= state.current().delayed);
}

/// At level 0 an operation adds its method signature to the final text of
/// the current section and the first uses among its aliases to the queue.
pub proof fn lemma_print_operation_extends(state: FileWriterView, node: NodeModel)
    requires
        state.level == 0,
    ensures
        extends(
            state,
            state.print_operation(node),
            operation_method(node),
            first_uses(state.current().defined_types, asked_aliases(node), 0),
            seen_after(state.current().defined_types, asked_aliases(node), 0),
        ),
{
    let seen = state.current().defined_types;
    let asked = asked_aliases(node);
    lemma_queue_aliases_extends(state, asked, 0);
    let queued = queue_aliases(state, asked, 0);
    if node.attribute("name"@).is_some() {
        lemma_operation_queues_what_it_asks(state, node);
        lemma_write_extends(queued, operation_method(node));
        lemma_extends_twice(
            state,
            queued,
            queued.write(operation_method(node)),
            Seq::empty(),
            first_uses(seen, asked, 0),
            seen_after(seen, asked, 0),
            operation_method(node),
            Seq::empty(),
            seen_after(seen, asked, 0),
        );
        assert(Seq::<char>::empty() + operation_method(node) =~= operation_method(node));
        assert(first_uses(seen, asked, 0) + Seq::<char>::empty() =~= first_uses(seen, asked, 0));
    }
}

proof fn lemma_print_operations_from_extends(state: FileWriterView, node: NodeModel, from: int)
    requires
        state.level == 0,
        0 <= from,
    ensures
        extends(
            state,
            state.print_operations_from(node, from),
            methods_text(node, from),
            queued_aliases(state.current().defined_types, node, from),
            seen_behind(state.current().defined_types, node, from),
        ),
    decreases node.children.len() - from,
{
    let writer = state.current();
    let seen = writer.defined_types;
    if from < node.children.len() {
        let child = node.children[from];
        let asked = asked_aliases(child);
        lemma_print_operation_extends(state, child);
        let next = state.print_operation(child);
        lemma_print_operations_from_extends(next, node, from + 1);
        lemma_extends_twice(
            state,
            next,
            next.print_operations_from(node, from + 1),
            operation_method(child),
            first_uses(seen, asked, 0),
            seen_after(seen, asked, 0),
            methods_text(node, from + 1),
            queued_aliases(seen_after(seen, asked, 0), node, from + 1),
            seen_behind(seen_after(seen, asked, 0), node, from + 1),
        );
    } else {
        assert(writer.final_stage + Seq::<char>::empty() =~= writer.final_stage);
        assert(writer.delayed + Seq::<char>::empty() =~= writer.delayed);
    }
}

/// The layout of an interface. A port type with a name, written at level 0
/// while the interfaces section stands at level 0, appends to the final
/// text of that section, in this order: the opening of the trait, one
/// method per operation in document order, the closing brace, what the
/// queue held before, and then each distinct alias of the operations once,
/// in the order of first use. No alias stands before the closing brace, and
/// the queue and the seen aliases are empty behind the port type.
pub proof fn lemma_port_type_layout(state: FileWriterView, node: NodeModel)
    requires
        state.level == 0,
        state.mod_writers.get(Section::PortTypes).level == 0,
        node.attribute("name"@).is_some(),
    ensures
        ({
            let before = state.mod_writers.get(Section::PortTypes);
            let after = state.print_port_type(node);
            &&& after.current_section == Section::PortTypes
            &&& after.level == 0
            &&& after.current().final_stage == before.final_stage + trait_header(
                node.attribute("name"@).unwrap(),
            ) + methods_text(node, 0) + closing_text() + before.delayed + queued_aliases(
                Seq::empty(),
                node,
                0,
            )
            &&& after.current().delayed == Seq::<char>::empty()
            &&& after.current().defined_types == Seq::<Seq<char>>::empty()
            &&& after.current().buffers == before.buffers
            &&& forall|section: Section|
                section != Section::PortTypes ==> #[trigger] after.mod_writers.get(section)
                    == state.mod_writers.get(section)
        }),
{
    reveal(FileWriterView::print_port_type);
    let element_name = node.attribute("name"@).unwrap();
    let before = state.mod_writers.get(Section::PortTypes);
    let routed = state.check_section(Section::PortTypes);
    let opened = routed.reset_defined_types().write(trait_header(element_name));
    assert(opened.current().defined_types =~= Seq::<Seq<char>>::empty());
    lemma_print_operations_from_extends(opened, node, 0);
    let listed = opened.print_operations_from(node, 0);
    let closed = listed.write(closing_text());
    let flushed = closed.flush_delayed_buffer();
    let after = flushed.reset_defined_types();
    assert(after == state.print_port_type(node));
    assert(closed.current().delayed == before.delayed + queued_aliases(
        Seq::empty(),
        node,
        0,
    ));
    assert(after.current().final_stage =~= before.final_stage + trait_header(element_name)
        + methods_text(node, 0) + closing_text() + before.delayed + queued_aliases(
        Seq::empty(),
        node,
        0,
    ));
    assert(after.current().delayed =~= Seq::<char>::empty());
    assert(after.current().defined_types =~= Seq::<Seq<char>>::empty());
    assert(after.current_section == Section::PortTypes);
    assert(after.level == 0);
    assert(after.current().buffers == before.buffers);
    assert forall|section: Section| section != Section::PortTypes implies #[trigger]
        after.mod_writers.get(section) == state.mod_writers.get(section) by {
        assert(listed.mod_writers.get(section) == opened.mod_writers.get(section));
    }
}

/// Writing a port type keeps a settled state settled: staged at level 0,
/// with nothing waiting in any queue. What the methods of the port type
/// queue is flushed behind the port type.
pub proof fn lemma_print_port_type_stays_settled(state: FileWriterView, node: NodeModel)
    requires
        state.settled(),
    ensures
        state.print_port_type(node).settled(),
{
    lemma_print_port_type_stays_staged(state, node);
    let after = state.print_port_type(node);
    if node.attribute("name"@).is_some() {
        assert(state.mod_writers.get(Section::PortTypes).level == 0);
        lemma_port_type_layout(state, node);
        assert forall|other: Section| (#[trigger] after.mod_writers.get(other)).delayed.len()
            == 0 by {
            assert(state.mod_writers.get(other).delayed.len() == 0);
        }
    } else {
        reveal(FileWriterView::print_port_type);
        assert forall|other: Section| (#[trigger] after.mod_writers.get(other)).delayed.len()
            == 0 by {
            assert(state.mod_writers.get(other).delayed.len() == 0);
        }
    }
}

/// The layout of an interface with one operation that has an input and an
/// output, no fault, and two aliases that differ: written with an empty
/// queue, it appends the opening of the trait, the one method, the closing
/// brace and then the two aliases, that of the input first, each once.
pub proof fn lemma_single_operation_layout(
    state: FileWriterView,
    node: NodeModel,
    operation: NodeModel,
)
    requires
        state.level == 0,
        state.mod_writers.get(Section::PortTypes).level == 0,
        state.mod_writers.get(Section::PortTypes).delayed == Seq::<char>::empty(),
        node.attribute("name"@).is_some(),
        node.children == seq![operation],
        operation.attribute("name"@).is_some(),
        message_of(operation, "input"@).is_some(),
        message_of(operation, "output"@).is_some(),
        message_of(operation, "fault"@).is_none(),
        alias_of(message_of(operation, "input"@)) != alias_of(message_of(operation, "output"@)),
    ensures
        state.print_port_type(node).current().final_stage == state.mod_writers.get(
            Section::PortTypes,
        ).final_stage + trait_header(node.attribute("name"@).unwrap()) + operation_method(
            operation,
        ) + closing_text() + alias_of(message_of(operation, "input"@)) + alias_of(
            message_of(operation, "output"@),
        ),
{
    lemma_port_type_layout(state, node);
    reveal_with_fuel(first_uses, 3);
    reveal_with_fuel(seen_after, 3);
    reveal_with_fuel(queued_aliases, 2);
    reveal_with_fuel(methods_text, 2);
    let before = state.mod_writers.get(Section::PortTypes);
    let input = alias_of(message_of(operation, "input"@));
    let output = alias_of(message_of(operation, "output"@));
    let none = Seq::<Seq<char>>::empty();
    assert(node.children[0] == operation);
    assert(asked_aliases(operation) == seq![input, output]);
    assert(!none.contains(input));
    assert(seen_with(none, input) == none.push(input));
    assert(!none.push(input).contains(output)) by {
        if none.push(input).contains(output) {
            let at = choose|i: int| 0 <= i < none.push(input).len() && none.push(input)[i] == output;
            assert(none.push(input)[at] == input);
        }
    }
    assert(queued_aliases(none, node, 0) =~= input + output);
    assert(methods_text(node, 0) =~= operation_method(operation));
    assert(before.final_stage + trait_header(node.attribute("name"@).unwrap()) + methods_text(
        node,
        0,
    ) + closing_text() + before.delayed + queued_aliases(none, node, 0) =~= before.final_stage
        + trait_header(node.attribute("name"@).unwrap()) + operation_method(operation)
        + closing_text() + input + output);
}

impl FileWriter {
    /// The `name` and the `message` attribute of `node`.
    pub fn map_name_message(&self, node: &XmlNode) -> (bound: (Option<String>, Option<String>))
        ensures
            match bound.0 {
                Some(name) => node@.attribute("name"@) == Some(name@),
                None => node@.attribute("name"@).is_none(),
            },
            match bound.1 {
                Some(message) => node@.attribute("message"@) == Some(message@),
                None => node@.attribute("message"@).is_none(),
            },
    {
        (node.get_some_attribute_as_string("name"), node.get_some_attribute_as_string("message"))
    }

    /// The alias that exposes the message `message` under the name `name`.
    pub fn port_alias(&self, name: &str, message: &str) -> (alias: String)
        ensures
            alias@ == port_alias(name@, message@),
    {
        let pascal = to_pascal_case(name);
        let target = self.fetch_type(message);
        concat7("pub type ", pascal.as_str(), " = ", "messages", "::", target.as_str(), ";\n")
    }

    /// Queues the aliases of one operation, each unless it was seen since
    /// the last reset, and marks them as seen.
    pub fn queue_port_types(&mut self, input: &str, output: &str, fault: Option<String>)
        ensures
            final(self)@ == old(self)@.queue_port_types(
                input@,
                output@,
                match fault {
                    Some(alias) => Some(alias@),
                    None => None,
                },
            ),
    {
        if !self.have_seen_type(input.to_string()) {
            self.delayed_write(input.to_string());
            self.seen_type(input.to_string());
        }
        if !self.have_seen_type(output.to_string()) {
            self.delayed_write(output.to_string());
            self.seen_type(output.to_string());
        }
        if let Some(f) = fault {
            if !self.have_seen_type(f.clone()) {
                let ghost before = self@;
                self.seen_type(f.clone());
                self.delayed_write(f);
                assert(self@ == before.delayed_write(f@).seen_type(f@));
            }
        }
    }

    /// Queues the aliases of an operation and writes its method signature.
    /// A node without a name is passed over.
    pub fn print_operation(&mut self, node: &XmlNode)
        ensures
            final(self)@ == old(self)@.print_operation(node@),
    {
        let element_name = match node.get_some_attribute("name") {
            None => {
                return ;
            },
            Some(n) => n,
        };
        let func_name = to_snake_case(element_name);
        let some_input = match node.find_child("input") {
            Some(c) => Some(self.map_name_message(c)),
            None => None,
        };
        let some_output = match node.find_child("output") {
            Some(c) => Some(self.map_name_message(c)),
            None => None,
        };
        let some_fault = match node.find_child("fault") {
            Some(c) => Some(self.map_name_message(c)),
            None => None,
        };
        let ghost input = message_of(node@, "input"@);
        let ghost output = message_of(node@, "output"@);
        let ghost fault = message_of(node@, "fault"@);

        let (input_type_template, input_template) = match some_input {
            Some((Some(name), Some(msg))) => {
                let snake = to_snake_case(name.as_str());
                let pascal = to_pascal_case(name.as_str());
                (
                    self.port_alias(name.as_str(), msg.as_str()),
                    concat3(snake.as_str(), ": ", pascal.as_str()),
                )
            },
            _ => (String::new(), String::new()),
        };
        assert(input_type_template@ == alias_of(input));
        assert(input_template@ == parameter_text(input));

        let (output_type_template, fault_type_template, output_template) = match some_output {
            Some((Some(name), Some(msg))) => {
                let pascal = to_pascal_case(name.as_str());
                match some_fault {
                    Some((Some(fault_name), Some(fault_type))) => {
                        let pascal_fault = to_pascal_case(fault_name.as_str());
                        (
                            self.port_alias(name.as_str(), msg.as_str()),
                            Some(self.port_alias(fault_name.as_str(), fault_type.as_str())),
                            concat5("-> Result<", pascal.as_str(), ", ", pascal_fault.as_str(), ">"),
                        )
                    },
                    _ => {
                        let mut plain = "-> ".to_string();
                        plain.append(pascal.as_str());
                        (self.port_alias(name.as_str(), msg.as_str()), None, plain)
                    },
                }
            },
            _ => (String::new(), None, String::new()),
        };
        assert(output_type_template@ == alias_of(output));
        assert(output_template@ == return_text(output, fault));
        assert(match fault_type_template {
            Some(alias) => fault_alias_of(output, fault) == Some(alias@),
            None => fault_alias_of(output, fault).is_none(),
        });

        self.queue_port_types(
            input_type_template.as_str(),
            output_type_template.as_str(),
            fault_type_template,
        );
        self.write(
            concat7(
                "\tfn ",
                func_name.as_str(),
                " (&self, ",
                input_template.as_str(),
                ") ",
                output_template.as_str(),
                ";\n",
            ),
        );
    }

    /// Writes the trait of a port type to the interfaces section, followed
    /// by the aliases that its methods queued. The seen signatures are
    /// forgotten on the way in and on the way out. A port type without a
    /// name only makes the interfaces section current.
    pub fn print_port_type(&mut self, node: &XmlNode)
        ensures
            final(self)@ == old(self)@.print_port_type(node@),
            final(self)@.level == old(self)@.level,
    {
        proof {
            reveal(FileWriterView::print_port_type);
        }
        self.check_section(Section::PortTypes);
        let element_name = match node.get_some_attribute("name") {
            None => {
                return ;
            },
            Some(n) => n,
        };
        let struct_name = to_pascal_case(element_name);
        self.reset_defined_types();
        self.write(concat3("pub trait ", struct_name.as_str(), " {\n"));
        let ghost start = self@;
        proof {
            node.lemma_view_children();
        }
        let mut i: usize = 0;
        while i < node.children.len()
            invariant
                i <= node.children.len(),
                node@.children.len() == node.children.len(),
                forall|j: int| 0 <= j < node.children.len() ==> node@.children[j] == node.children[j]@,
                self@.print_operations_from(node@, i as int) == start.print_operations_from(
                    node@,
                    0,
                ),
                self@.level == start.level,
            decreases node.children.len() - i,
        {
            self.print_operation(&node.children[i]);
            i = i + 1;
        }
        self.write("}\n\n".to_string());
        self.flush_delayed_buffer();
        self.reset_defined_types();
    }
}

} // verus!
