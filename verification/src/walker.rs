//! The walk over a service description and the schema files that it
//! imports.
//!
//! Every node of a document is visited in document order. A `definitions`
//! element hands its children to the message, interface and binding rules;
//! a `schema` element and the `types` child of `definitions` hand theirs to
//! the schema rules. An `import` is followed at once: the imported document
//! is walked in place, into the same sections.
//!
//! The documents are handed in already parsed. The walk fails where it
//! needs one that is not among them, and where a document imports itself,
//! directly or through others.

use vstd::prelude::*;
use vstd::string::*;
use crate::document::{Document, DocumentModel};
use crate::bindings::lemma_print_binding_stays_settled;
use crate::generator::{
    lemma_read_for_output_of_settled, lemma_routing_keeps_settled, lemma_settled_is_kept, preamble,
    FileWriter, FileWriterView,
};
use crate::messages::lemma_print_message_stays_settled;
use crate::ports::lemma_print_port_type_stays_settled;
use crate::casing::pascal_case;
use crate::resolve::{lemma_primitive_resolution, mapping_table};
use crate::schema::{
    alias_text, lemma_print_complex_element_stays_staged, lemma_print_element_stays_staged,
};
use crate::section::Section;
use crate::text::{concat3, str_eq};
use crate::xml::{NodeModel, XmlNode};

verus! {

/// Mathematical model of a [`GenError`].
pub ghost enum Failure {
    MissingFile(Seq<char>),
    ImportCycle(Seq<char>),
}

/// Why a walk stopped early.
#[derive(Debug)]
pub enum GenError {
    /// The document at this path is needed and was not handed in.
    MissingFile(String),
    /// The document at this path imports itself, directly or through the
    /// documents that it imports.
    ImportCycle(String),
}

impl View for GenError {
    type V = Failure;

    open spec fn view(&self) -> Failure {
        match self {
            GenError::MissingFile(path) => Failure::MissingFile(path@),
            GenError::ImportCycle(path) => Failure::ImportCycle(path@),
        }
    }
}

/// Where a walk stands: the state that it reached, and why it stopped if it
/// stopped early.
pub ghost struct Walk {
    pub state: FileWriterView,
    pub failure: Option<Failure>,
}

impl Walk {
    /// A walk that goes on from `state`.
    pub open spec fn ok(state: FileWriterView) -> Walk {
        Walk { state, failure: None }
    }

    /// A walk that stopped at `state`.
    pub open spec fn failed(state: FileWriterView, failure: Failure) -> Walk {
        Walk { state, failure: Some(failure) }
    }
}

/// Whether `result` reports what `failure` says.
pub open spec fn agrees<T>(result: Result<T, GenError>, failure: Option<Failure>) -> bool {
    match result {
        Ok(_) => failure.is_none(),
        Err(e) => failure == Some(e@),
    }
}

/// The models of a list of documents.
pub open spec fn docs_view(files: Vec<Document>) -> Seq<DocumentModel> {
    Seq::new(files.len() as nat, |i: int| files[i]@)
}

/// The path of the file `file_name` under `base_path`.
pub open spec fn file_path(base_path: Seq<char>, file_name: Seq<char>) -> Seq<char> {
    base_path + "/"@ + file_name
}

/// The position of the first document at or behind `from` that is known
/// under `path`.
pub open spec fn find_file(files: Seq<DocumentModel>, path: Seq<char>, from: int) -> Option<int>
    decreases files.len() - from,
{
    if 0 <= from < files.len() {
        if files[from].path == path {
            Some(from)
        } else {
            find_file(files, path, from + 1)
        }
    } else {
        None
    }
}

/// How many documents are not being walked.
pub open spec fn free_count(active: Seq<bool>) -> nat
    decreases active.len(),
{
    if active.len() == 0 {
        0
    } else {
        free_count(active.drop_last()) + if active.last() {
            0nat
        } else {
            1nat
        }
    }
}

/// No document is being walked.
pub open spec fn none_active(count: nat) -> Seq<bool> {
    Seq::new(count, |i: int| false)
}

/// Entering a document leaves one document less to enter.
pub proof fn lemma_activate(active: Seq<bool>, at: int)
    requires
        0 <= at < active.len(),
        !active[at],
    ensures
        free_count(active.update(at, true)) + 1 == free_count(active),
    decreases active.len(),
{
    let entered = active.update(at, true);
    if at == active.len() - 1 {
        assert(entered.drop_last() =~= active.drop_last());
    } else {
        assert(entered.drop_last() =~= active.drop_last().update(at, true));
        lemma_activate(active.drop_last(), at);
    }
}

impl FileWriterView {
    /// Walks the document that an `import` names. An import without a
    /// `schemaLocation` is passed over.
    #[verifier::opaque]
    pub open spec fn import_file(
        self,
        files: Seq<DocumentModel>,
        active: Seq<bool>,
        node: NodeModel,
    ) -> Walk
        decreases free_count(active), 1nat, node.height(), 0nat,
    {
        match node.attribute("schemaLocation"@) {
            None => Walk::ok(self),
            Some(file_name) => self.process_file_in_path(files, active, file_name, false),
        }
    }

    /// Walks the document `file_name` of the base directory and, if asked
    /// to, finishes every section behind it. The walk fails at once where the
    /// document is not among `files`, and where it is being walked already.
    #[verifier::opaque]
    pub open spec fn process_file_in_path(
        self,
        files: Seq<DocumentModel>,
        active: Seq<bool>,
        file_name: Seq<char>,
        print_when_done: bool,
    ) -> Walk
        decreases free_count(active), 0nat, 0nat, 0nat,
    {
        let path = file_path(self.base_path, file_name);
        match find_file(files, path, 0) {
            None => Walk::failed(self, Failure::MissingFile(path)),
            Some(at) => if 0 <= at < active.len() && !active[at] {
                proof {
                    lemma_activate(active, at);
                }
                let walked = self.print_descendants(files, active.update(at, true), files[at].root);
                if walked.failure.is_none() && print_when_done {
                    Walk::ok(walked.state.read_for_output())
                } else {
                    walked
                }
            } else {
                Walk::failed(self, Failure::ImportCycle(path))
            },
        }
    }

    /// Visits `node` and then everything below it, in document order.
    #[verifier::opaque]
    pub open spec fn print_descendants(
        self,
        files: Seq<DocumentModel>,
        active: Seq<bool>,
        node: NodeModel,
    ) -> Walk
        decreases free_count(active), 1nat, node.height(), node.children.len() + 3,
    {
        let visited = self.print(files, active, node);
        if visited.failure.is_some() {
            visited
        } else {
            visited.state.print_descendants_from(files, active, node, 0)
        }
    }

    /// Visits what lies below the children of `node` at or behind `from`.
    #[verifier::opaque]
    pub open spec fn print_descendants_from(
        self,
        files: Seq<DocumentModel>,
        active: Seq<bool>,
        node: NodeModel,
        from: int,
    ) -> Walk
        decreases free_count(active), 1nat, node.height(), node.children.len() - from,
    {
        if 0 <= from < node.children.len() {
            proof {
                node.lemma_child_height(from);
            }
            let walked = self.print_descendants(files, active, node.children[from]);
            if walked.failure.is_some() {
                walked
            } else {
                walked.state.print_descendants_from(files, active, node, from + 1)
            }
        } else {
            Walk::ok(self)
        }
    }

    /// Visits one node: a `definitions` element and a `schema` element are
    /// generated from, every other node is passed over.
    #[verifier::opaque]
    pub open spec fn print(self, files: Seq<DocumentModel>, active: Seq<bool>, node: NodeModel) -> Walk
        decreases free_count(active), 1nat, node.height(), node.children.len() + 2,
    {
        if node.has_tag_name("definitions"@) {
            self.print_definitions(files, active, node)
        } else if node.has_tag_name("schema"@) {
            self.print_xsd(files, active, node)
        } else {
            Walk::ok(self)
        }
    }

    /// Generates from the children of a `definitions` element.
    #[verifier::opaque]
    pub open spec fn print_definitions(
        self,
        files: Seq<DocumentModel>,
        active: Seq<bool>,
        node: NodeModel,
    ) -> Walk
        decreases free_count(active), 1nat, node.height(), node.children.len() + 1,
    {
        self.print_definitions_from(files, active, node, 0)
    }

    /// Generates from the children at or behind `from` of a `definitions`
    /// element: schema types from `types`, a wrapper from `message`, an
    /// interface from `portType`, an implementation from `binding`.
    #[verifier::opaque]
    pub open spec fn print_definitions_from(
        self,
        files: Seq<DocumentModel>,
        active: Seq<bool>,
        node: NodeModel,
        from: int,
    ) -> Walk
        decreases free_count(active), 1nat, node.height(), node.children.len() - from,
    {
        if 0 <= from < node.children.len() {
            proof {
                node.lemma_child_height(from);
            }
            let child = node.children[from];
            let visited = if child.has_tag_name("types"@) {
                self.print_xsd(files, active, child)
            } else if child.has_tag_name("message"@) {
                Walk::ok(self.print_message(child))
            } else if child.has_tag_name("portType"@) {
                Walk::ok(self.print_port_type(child))
            } else if child.has_tag_name("binding"@) {
                Walk::ok(self.print_binding(child))
            } else {
                Walk::ok(self)
            };
            if visited.failure.is_some() {
                visited
            } else {
                visited.state.print_definitions_from(files, active, node, from + 1)
            }
        } else {
            Walk::ok(self)
        }
    }

    /// Generates the schema types from the children of a schema node. The
    /// types section becomes current, and the node's `targetNamespace`, or
    /// its absence, replaces the target namespace known so far.
    #[verifier::opaque]
    pub open spec fn print_xsd(
        self,
        files: Seq<DocumentModel>,
        active: Seq<bool>,
        node: NodeModel,
    ) -> Walk
        decreases free_count(active), 1nat, node.height(), node.children.len() + 1,
    {
        self.check_section(Section::Types).with_target_name_space(
            node.attribute("targetNamespace"@),
        ).print_xsd_from(files, active, node, 0)
    }

    /// Generates from the children at or behind `from` of a schema node:
    /// an `import` is followed, an `element` is written as an element, a
    /// `complexType` with a name becomes the record of that name.
    #[verifier::opaque]
    pub open spec fn print_xsd_from(
        self,
        files: Seq<DocumentModel>,
        active: Seq<bool>,
        node: NodeModel,
        from: int,
    ) -> Walk
        decreases free_count(active), 1nat, node.height(), node.children.len() - from,
    {
        if 0 <= from < node.children.len() {
            proof {
                node.lemma_child_height(from);
            }
            let child = node.children[from];
            let visited = if child.has_tag_name("import"@) {
                self.import_file(files, active, child)
            } else if child.has_tag_name("element"@) {
                Walk::ok(self.print_element(child))
            } else if child.has_tag_name("complexType"@) {
                match child.attribute("name"@) {
                    Some(name) => Walk::ok(self.print_complex_element(child, name)),
                    None => Walk::ok(self),
                }
            } else {
                Walk::ok(self)
            };
            if visited.failure.is_some() {
                visited
            } else {
                visited.state.print_xsd_from(files, active, node, from + 1)
            }
        } else {
            Walk::ok(self)
        }
    }

    /// A whole run: the base directory is taken, the preamble is written,
    /// the entry document is walked with everything that it imports, and
    /// every section is closed.
    pub open spec fn process_file(
        self,
        files: Seq<DocumentModel>,
        base_path: Seq<char>,
        file_name: Seq<char>,
    ) -> Walk {
        self.with_base_path(base_path).print_header().process_file_in_path(
            files,
            none_active(files.len()),
            file_name,
            true,
        )
    }
}

/// The position of the first document that is known under `path`.
pub fn find_document(files: &Vec<Document>, path: &str) -> (found: Option<usize>)
    ensures
        match found {
            Some(at) => at < files.len() && find_file(docs_view(*files), path@, 0) == Some(
                at as int,
            ),
            None => find_file(docs_view(*files), path@, 0).is_none(),
        },
{
    let mut i: usize = 0;
    while i < files.len()
        invariant
            i <= files.len(),
            find_file(docs_view(*files), path@, 0) == find_file(docs_view(*files), path@, i as int),
        decreases files.len() - i,
    {
        if str_eq(files[i].path(), path) {
            return Some(i);
        }
        i = i + 1;
    }
    None
}

/// The same marks, with the document at `at` marked as being walked.
pub fn activated(active: &Vec<bool>, at: usize) -> (entered: Vec<bool>)
    requires
        at < active.len(),
    ensures
        entered@ == active@.update(at as int, true),
{
    let mut entered: Vec<bool> = Vec::new();
    let mut i: usize = 0;
    while i < active.len()
        invariant
            i <= active.len(),
            at < active.len(),
            entered.len() == i,
            forall|j: int| 0 <= j < i ==> entered[j] == (j == at || active[j]),
        decreases active.len() - i,
    {
        entered.push(i == at || active[i]);
        i = i + 1;
    }
    assert(entered@ =~= active@.update(at as int, true));
    entered
}

/// Marks for `count` documents of which none is being walked.
pub fn no_marks(count: usize) -> (active: Vec<bool>)
    ensures
        active@ == none_active(count as nat),
{
    let mut active: Vec<bool> = Vec::new();
    let mut i: usize = 0;
    while i < count
        invariant
            i <= count,
            active.len() == i,
            forall|j: int| 0 <= j < i ==> !active[j],
        decreases count - i,
    {
        active.push(false);
        i = i + 1;
    }
    assert(active@ =~= none_active(count as nat));
    active
}

/// What following an import comes to.
pub proof fn lemma_import_file(
    state: FileWriterView,
    files: Seq<DocumentModel>,
    active: Seq<bool>,
    node: NodeModel,
)
    ensures
        state.import_file(files, active, node) == match node.attribute("schemaLocation"@) {
            None => Walk::ok(state),
            Some(file_name) => state.process_file_in_path(files, active, file_name, false),
        },
{
    reveal(FileWriterView::import_file);
    reveal(FileWriterView::process_file_in_path);
}

/// What walking a document of the base directory comes to.
pub proof fn lemma_process_file_in_path(
    state: FileWriterView,
    files: Seq<DocumentModel>,
    active: Seq<bool>,
    file_name: Seq<char>,
    print_when_done: bool,
)
    ensures
        state.process_file_in_path(files, active, file_name, print_when_done) == ({
            let path = file_path(state.base_path, file_name);
            match find_file(files, path, 0) {
                None => Walk::failed(state, Failure::MissingFile(path)),
                Some(at) => if 0 <= at < active.len() && !active[at] {
                    let walked = state.print_descendants(
                        files,
                        active.update(at, true),
                        files[at].root,
                    );
                    if walked.failure.is_none() && print_when_done {
                        Walk::ok(walked.state.read_for_output())
                    } else {
                        walked
                    }
                } else {
                    Walk::failed(state, Failure::ImportCycle(path))
                },
            }
        }),
{
    reveal(FileWriterView::process_file_in_path);
    reveal(FileWriterView::print_descendants);
}

/// What visiting a node and everything below it comes to.
pub proof fn lemma_print_descendants(
    state: FileWriterView,
    files: Seq<DocumentModel>,
    active: Seq<bool>,
    node: NodeModel,
)
    ensures
        state.print_descendants(files, active, node) == ({
            let visited = state.print(files, active, node);
            if visited.failure.is_some() {
                visited
            } else {
                visited.state.print_descendants_from(files, active, node, 0)
            }
        }),
{
    reveal(FileWriterView::print_descendants);
    reveal(FileWriterView::print);
    reveal(FileWriterView::print_descendants_from);
}

/// What visiting the children from `from` on, with everything below them,
/// comes to.
pub proof fn lemma_print_descendants_from(
    state: FileWriterView,
    files: Seq<DocumentModel>,
    active: Seq<bool>,
    node: NodeModel,
    from: int,
)
    ensures
        state.print_descendants_from(files, active, node, from) == (if 0 <= from
            < node.children.len() {
            let walked = state.print_descendants(files, active, node.children[from]);
            if walked.failure.is_some() {
                walked
            } else {
                walked.state.print_descendants_from(files, active, node, from + 1)
            }
        } else {
            Walk::ok(state)
        }),
{
    reveal(FileWriterView::print_descendants_from);
    reveal(FileWriterView::print_descendants);
}

/// What visiting one node comes to.
pub proof fn lemma_print(
    state: FileWriterView,
    files: Seq<DocumentModel>,
    active: Seq<bool>,
    node: NodeModel,
)
    ensures
        state.print(files, active, node) == (if node.has_tag_name("definitions"@) {
            state.print_definitions(files, active, node)
        } else if node.has_tag_name("schema"@) {
            state.print_xsd(files, active, node)
        } else {
            Walk::ok(state)
        }),
{
    reveal(FileWriterView::print);
    reveal(FileWriterView::print_definitions);
    reveal(FileWriterView::print_xsd);
}

/// What generating from a `definitions` element comes to.
pub proof fn lemma_print_definitions(
    state: FileWriterView,
    files: Seq<DocumentModel>,
    active: Seq<bool>,
    node: NodeModel,
)
    ensures
        state.print_definitions(files, active, node) == state.print_definitions_from(
            files,
            active,
            node,
            0,
        ),
{
    reveal(FileWriterView::print_definitions);
    reveal(FileWriterView::print_definitions_from);
}

/// What generating from the children from `from` on of a `definitions`
/// element comes to.
pub proof fn lemma_print_definitions_from(
    state: FileWriterView,
    files: Seq<DocumentModel>,
    active: Seq<bool>,
    node: NodeModel,
    from: int,
)
    ensures
        state.print_definitions_from(files, active, node, from) == (if 0 <= from
            < node.children.len() {
            let child = node.children[from];
            let visited = if child.has_tag_name("types"@) {
                state.print_xsd(files, active, child)
            } else if child.has_tag_name("message"@) {
                Walk::ok(state.print_message(child))
            } else if child.has_tag_name("portType"@) {
                Walk::ok(state.print_port_type(child))
            } else if child.has_tag_name("binding"@) {
                Walk::ok(state.print_binding(child))
            } else {
                Walk::ok(state)
            };
            if visited.failure.is_some() {
                visited
            } else {
                visited.state.print_definitions_from(files, active, node, from + 1)
            }
        } else {
            Walk::ok(state)
        }),
{
    reveal(FileWriterView::print_definitions_from);
    reveal(FileWriterView::print_xsd);
}

/// What generating from a schema node comes to.
pub proof fn lemma_print_xsd(
    state: FileWriterView,
    files: Seq<DocumentModel>,
    active: Seq<bool>,
    node: NodeModel,
)
    ensures
        state.print_xsd(files, active, node) == state.check_section(
            Section::Types,
        ).with_target_name_space(node.attribute("targetNamespace"@)).print_xsd_from(
            files,
            active,
            node,
            0,
        ),
{
    reveal(FileWriterView::print_xsd);
    reveal(FileWriterView::print_xsd_from);
}

/// What generating from the children from `from` on of a schema node comes
/// to.
pub proof fn lemma_print_xsd_from(
    state: FileWriterView,
    files: Seq<DocumentModel>,
    active: Seq<bool>,
    node: NodeModel,
    from: int,
)
    ensures
        state.print_xsd_from(files, active, node, from) == (if 0 <= from < node.children.len() {
            let child = node.children[from];
            let visited = if child.has_tag_name("import"@) {
                state.import_file(files, active, child)
            } else if child.has_tag_name("element"@) {
                Walk::ok(state.print_element(child))
            } else if child.has_tag_name("complexType"@) {
                match child.attribute("name"@) {
                    Some(name) => Walk::ok(state.print_complex_element(child, name)),
                    None => Walk::ok(state),
                }
            } else {
                Walk::ok(state)
            };
            if visited.failure.is_some() {
                visited
            } else {
                visited.state.print_xsd_from(files, active, node, from + 1)
            }
        } else {
            Walk::ok(state)
        }),
{
    reveal(FileWriterView::print_xsd_from);
    reveal(FileWriterView::import_file);
}

/// Following an import keeps a settled state settled,
/// also where the walk stops early.
pub proof fn lemma_import_file_stays_settled(
    state: FileWriterView,
    files: Seq<DocumentModel>,
    active: Seq<bool>,
    node: NodeModel,
)
    requires
        state.settled(),
    ensures
        state.import_file(files, active, node).state.settled(),
    decreases free_count(active), 1nat, node.height(), 0nat,
{
    lemma_import_file(state, files, active, node);
    if let Some(file_name) = node.attribute("schemaLocation"@) {
        lemma_process_file_in_path_stays_settled(state, files, active, file_name, false);
    }
}

/// Walking a document keeps a settled state settled, also where the walk
/// stops early.
pub proof fn lemma_process_file_in_path_stays_settled(
    state: FileWriterView,
    files: Seq<DocumentModel>,
    active: Seq<bool>,
    file_name: Seq<char>,
    print_when_done: bool,
)
    requires
        state.settled(),
    ensures
        state.process_file_in_path(files, active, file_name, print_when_done).state.settled(),
    decreases free_count(active), 0nat, 0nat, 0nat,
{
    lemma_process_file_in_path(state, files, active, file_name, print_when_done);
    let path = file_path(state.base_path, file_name);
    if let Some(at) = find_file(files, path, 0) {
        if 0 <= at < active.len() && !active[at] {
            lemma_activate(active, at);
            let entered = active.update(at, true);
            lemma_print_descendants_stays_settled(state, files, entered, files[at].root);
            lemma_routing_keeps_settled(
                state.print_descendants(files, entered, files[at].root).state,
                Seq::empty(),
                Section::Root,
            );
        }
    }
}

/// Visiting a node and everything below it keeps a settled
/// state settled, also where the walk stops early.
pub proof fn lemma_print_descendants_stays_settled(
    state: FileWriterView,
    files: Seq<DocumentModel>,
    active: Seq<bool>,
    node: NodeModel,
)
    requires
        state.settled(),
    ensures
        state.print_descendants(files, active, node).state.settled(),
    decreases free_count(active), 1nat, node.height(), node.children.len() + 3,
{
    lemma_print_descendants(state, files, active, node);
    lemma_print_stays_settled(state, files, active, node);
    let visited = state.print(files, active, node);
    if visited.failure.is_none() {
        lemma_print_descendants_from_stays_settled(visited.state, files, active, node, 0);
    }
}

proof fn lemma_print_descendants_from_stays_settled(
    state: FileWriterView,
    files: Seq<DocumentModel>,
    active: Seq<bool>,
    node: NodeModel,
    from: int,
)
    requires
        state.settled(),
    ensures
        state.print_descendants_from(files, active, node, from).state.settled(),
    decreases free_count(active), 1nat, node.height(), node.children.len() - from,
{
    lemma_print_descendants_from(state, files, active, node, from);
    if 0 <= from < node.children.len() {
        node.lemma_child_height(from);
        lemma_print_descendants_stays_settled(state, files, active, node.children[from]);
        let walked = state.print_descendants(files, active, node.children[from]);
        if walked.failure.is_none() {
            lemma_print_descendants_from_stays_settled(walked.state, files, active, node, from + 1);
        }
    }
}

/// Visiting one node keeps a settled state settled,
/// also where the walk stops early.
pub proof fn lemma_print_stays_settled(
    state: FileWriterView,
    files: Seq<DocumentModel>,
    active: Seq<bool>,
    node: NodeModel,
)
    requires
        state.settled(),
    ensures
        state.print(files, active, node).state.settled(),
    decreases free_count(active), 1nat, node.height(), node.children.len() + 2,
{
    lemma_print(state, files, active, node);
    if node.has_tag_name("definitions"@) {
        lemma_print_definitions_stays_settled(state, files, active, node);
    } else if node.has_tag_name("schema"@) {
        lemma_print_xsd_stays_settled(state, files, active, node);
    }
}

/// Generating from a `definitions` element keeps a settled
/// state settled, also where the walk stops early.
pub proof fn lemma_print_definitions_stays_settled(
    state: FileWriterView,
    files: Seq<DocumentModel>,
    active: Seq<bool>,
    node: NodeModel,
)
    requires
        state.settled(),
    ensures
        state.print_definitions(files, active, node).state.settled(),
    decreases free_count(active), 1nat, node.height(), node.children.len() + 1,
{
    lemma_print_definitions(state, files, active, node);
    lemma_print_definitions_from_stays_settled(state, files, active, node, 0);
}

proof fn lemma_print_definitions_from_stays_settled(
    state: FileWriterView,
    files: Seq<DocumentModel>,
    active: Seq<bool>,
    node: NodeModel,
    from: int,
)
    requires
        state.settled(),
    ensures
        state.print_definitions_from(files, active, node, from).state.settled(),
    decreases free_count(active), 1nat, node.height(), node.children.len() - from,
{
    lemma_print_definitions_from(state, files, active, node, from);
    if 0 <= from < node.children.len() {
        node.lemma_child_height(from);
        let child = node.children[from];
        let visited = if child.has_tag_name("types"@) {
            lemma_print_xsd_stays_settled(state, files, active, child);
            state.print_xsd(files, active, child)
        } else if child.has_tag_name("message"@) {
            lemma_print_message_stays_settled(state, child);
            Walk::ok(state.print_message(child))
        } else if child.has_tag_name("portType"@) {
            lemma_print_port_type_stays_settled(state, child);
            Walk::ok(state.print_port_type(child))
        } else if child.has_tag_name("binding"@) {
            lemma_print_binding_stays_settled(state, child);
            Walk::ok(state.print_binding(child))
        } else {
            Walk::ok(state)
        };
        if visited.failure.is_none() {
            lemma_print_definitions_from_stays_settled(visited.state, files, active, node, from + 1);
        }
    }
}

/// Generating from a schema node keeps a settled state settled, also where
/// the walk stops early.
pub proof fn lemma_print_xsd_stays_settled(
    state: FileWriterView,
    files: Seq<DocumentModel>,
    active: Seq<bool>,
    node: NodeModel,
)
    requires
        state.settled(),
    ensures
        state.print_xsd(files, active, node).state.settled(),
    decreases free_count(active), 1nat, node.height(), node.children.len() + 1,
{
    lemma_print_xsd(state, files, active, node);
    lemma_routing_keeps_settled(state, Seq::empty(), Section::Types);
    let routed = state.check_section(Section::Types);
    lemma_routing_keeps_settled(routed, Seq::empty(), Section::Types);
    if let Some(name_space) = node.attribute("targetNamespace"@) {
        lemma_routing_keeps_settled(routed, name_space, Section::Types);
    }
    lemma_print_xsd_from_stays_settled(
        routed.with_target_name_space(node.attribute("targetNamespace"@)),
        files,
        active,
        node,
        0,
    );
}

proof fn lemma_print_xsd_from_stays_settled(
    state: FileWriterView,
    files: Seq<DocumentModel>,
    active: Seq<bool>,
    node: NodeModel,
    from: int,
)
    requires
        state.settled(),
    ensures
        state.print_xsd_from(files, active, node, from).state.settled(),
    decreases free_count(active), 1nat, node.height(), node.children.len() - from,
{
    lemma_print_xsd_from(state, files, active, node, from);
    if 0 <= from < node.children.len() {
        node.lemma_child_height(from);
        let child = node.children[from];
        let visited = if child.has_tag_name("import"@) {
            lemma_import_file_stays_settled(state, files, active, child);
            state.import_file(files, active, child)
        } else if child.has_tag_name("element"@) {
            lemma_print_element_stays_staged(state, child);
            lemma_settled_is_kept(state, state.print_element(child));
            Walk::ok(state.print_element(child))
        } else if child.has_tag_name("complexType"@) {
            match child.attribute("name"@) {
                Some(name) => {
                    lemma_print_complex_element_stays_staged(state, child, name);
                    lemma_settled_is_kept(state, state.print_complex_element(child, name));
                    Walk::ok(state.print_complex_element(child, name))
                },
                None => Walk::ok(state),
            }
        } else {
            Walk::ok(state)
        };
        if visited.failure.is_none() {
            lemma_print_xsd_from_stays_settled(visited.state, files, active, node, from + 1);
        }
    }
}

/// A run keeps every section fit for writing: started from a settled
/// state, as the initial state is, it ends in one, also where it stops
/// early, and so nothing that it writes on the way is dropped.
pub proof fn lemma_run_stays_settled(
    state: FileWriterView,
    files: Seq<DocumentModel>,
    base_path: Seq<char>,
    file_name: Seq<char>,
)
    requires
        state.settled(),
    ensures
        state.process_file(files, base_path, file_name).state.settled(),
{
    lemma_routing_keeps_settled(state, base_path, Section::Root);
    lemma_routing_keeps_settled(state.with_base_path(base_path), preamble(), Section::Root);
    lemma_process_file_in_path_stays_settled(
        state.with_base_path(base_path).print_header(),
        files,
        none_active(files.len()),
        file_name,
        true,
    );
}

/// At the end of a run that started settled nothing is left waiting: the
/// text of each section is what the walk made final, followed by the
/// closing of the module. The walk is the same whether the sections are
/// finished behind it or not.
pub proof fn lemma_run_ends_with_the_footers(
    state: FileWriterView,
    files: Seq<DocumentModel>,
    base_path: Seq<char>,
    file_name: Seq<char>,
    section: Section,
)
    requires
        state.settled(),
        state.process_file(files, base_path, file_name).failure.is_none(),
    ensures
        ({
            let start = state.with_base_path(base_path).print_header();
            let walked = start.process_file_in_path(
                files,
                none_active(files.len()),
                file_name,
                false,
            );
            let writer = walked.state.mod_writers.get(section);
            &&& walked.failure.is_none()
            &&& state.process_file(files, base_path, file_name).state.mod_writers.get(
                section,
            ).final_stage == writer.final_stage + writer.footer()
        }),
{
    let start = state.with_base_path(base_path).print_header();
    let none = none_active(files.len());
    lemma_routing_keeps_settled(state, base_path, Section::Root);
    lemma_routing_keeps_settled(state.with_base_path(base_path), preamble(), Section::Root);
    lemma_process_file_in_path(start, files, none, file_name, true);
    lemma_process_file_in_path(start, files, none, file_name, false);
    lemma_process_file_in_path_stays_settled(start, files, none, file_name, false);
    let walked = start.process_file_in_path(files, none, file_name, false);
    lemma_read_for_output_of_settled(walked.state, section);
}

/// A schema that holds one element of a simple type, and nothing else,
/// yields the alias of that element and nothing else: walked at level 0, it
/// makes the types section current, takes the target namespace of the
/// schema and appends the one alias to the final text of the types section;
/// every other section stays as it is. For an element of the type
/// `xs:string` the alias names the string type.
pub proof fn lemma_single_element_yields_one_alias(
    state: FileWriterView,
    files: Seq<DocumentModel>,
    active: Seq<bool>,
    schema: NodeModel,
    element: NodeModel,
)
    requires
        state.level == 0,
        schema.has_tag_name("schema"@),
        schema.children == seq![element],
        element.has_tag_name("element"@),
        element.children.len() == 0,
        element.attribute("name"@).is_some(),
        element.attribute("type"@).is_some(),
    ensures
        ({
            let name = element.attribute("name"@).unwrap();
            let element_type = element.attribute("type"@).unwrap();
            let walked = state.print_descendants(files, active, schema);
            &&& walked == Walk::ok(
                state.check_section(Section::Types).with_target_name_space(
                    schema.attribute("targetNamespace"@),
                ).write(alias_text(name, element_type)),
            )
            &&& walked.state.mod_writers.get(Section::Types).final_stage
                == state.mod_writers.get(Section::Types).final_stage + alias_text(
                name,
                element_type,
            )
            &&& forall|section: Section|
                section != Section::Types ==> #[trigger] walked.state.mod_writers.get(section)
                    == state.mod_writers.get(section)
            &&& element_type == "xs:string"@ ==> alias_text(name, element_type) == "pub type "@
                + pascal_case(name) + " = "@ + "String"@ + ";\n\n"@
        }),
{
    reveal_strlit("schema");
    reveal_strlit("definitions");
    reveal_strlit("element");
    reveal_strlit("import");
    let name = element.attribute("name"@).unwrap();
    let element_type = element.attribute("type"@).unwrap();
    assert("schema"@[0] != "definitions"@[0]);
    assert("element"@[0] != "definitions"@[0]);
    assert("element"@[0] != "schema"@[0]);
    assert("element"@[0] != "import"@[0]);
    assert(schema.children[0] == element);
    let entered = state.check_section(Section::Types).with_target_name_space(
        schema.attribute("targetNamespace"@),
    );
    let written = entered.write(alias_text(name, element_type));
    // The schema itself.
    lemma_print_descendants(state, files, active, schema);
    lemma_print(state, files, active, schema);
    lemma_print_xsd(state, files, active, schema);
    lemma_print_xsd_from(entered, files, active, schema, 0);
    assert(element.find("complexType"@).is_none());
    assert(entered.print_element(element) == written);
    lemma_print_xsd_from(written, files, active, schema, 1);
    assert(state.print(files, active, schema) == Walk::ok(written));
    // What lies below it.
    lemma_print_descendants_from(written, files, active, schema, 0);
    lemma_print_descendants(written, files, active, element);
    lemma_print(written, files, active, element);
    lemma_print_descendants_from(written, files, active, element, 0);
    lemma_print_descendants_from(written, files, active, schema, 1);
    if element_type == "xs:string"@ {
        reveal_strlit("xs:string");
        reveal_strlit("string");
        reveal_strlit("xs");
        assert("xs:string"@ =~= "xs"@ + seq![':'] + "string"@);
        lemma_primitive_resolution("xs"@, 0);
        assert(mapping_table()[0].0 == "string"@);
        assert(mapping_table()[0].1 == "String"@);
    }
}

/// The same for a service description whose `types` hold such a schema and
/// nothing else: the walk appends the one alias to the final text of the
/// types section and leaves every other section as it is.
pub proof fn lemma_single_element_in_definitions(
    state: FileWriterView,
    files: Seq<DocumentModel>,
    active: Seq<bool>,
    definitions: NodeModel,
    types: NodeModel,
    schema: NodeModel,
    element: NodeModel,
)
    requires
        state.level == 0,
        definitions.has_tag_name("definitions"@),
        definitions.children == seq![types],
        types.has_tag_name("types"@),
        types.children == seq![schema],
        schema.has_tag_name("schema"@),
        schema.children == seq![element],
        element.has_tag_name("element"@),
        element.children.len() == 0,
        element.attribute("name"@).is_some(),
        element.attribute("type"@).is_some(),
    ensures
        ({
            let alias = alias_text(
                element.attribute("name"@).unwrap(),
                element.attribute("type"@).unwrap(),
            );
            let walked = state.print_descendants(files, active, definitions);
            &&& walked.failure.is_none()
            &&& walked.state.mod_writers.get(Section::Types).final_stage
                == state.mod_writers.get(Section::Types).final_stage + alias
            &&& forall|section: Section|
                section != Section::Types ==> #[trigger] walked.state.mod_writers.get(section)
                    == state.mod_writers.get(section)
        }),
{
    reveal_strlit("schema");
    reveal_strlit("definitions");
    reveal_strlit("element");
    reveal_strlit("import");
    reveal_strlit("types");
    reveal_strlit("complexType");
    assert("types"@[0] != "definitions"@[0]);
    assert("types"@[0] != "schema"@[0]);
    assert("schema"@[0] != "import"@[0]);
    assert("schema"@[0] != "element"@[0]);
    assert("schema"@[0] != "complexType"@[0]);
    assert(definitions.children[0] == types);
    assert(types.children[0] == schema);
    let entered = state.check_section(Section::Types).with_target_name_space(
        types.attribute("targetNamespace"@),
    );
    // The definitions themselves: their types hold no element of their own.
    lemma_print_descendants(state, files, active, definitions);
    lemma_print(state, files, active, definitions);
    lemma_print_definitions(state, files, active, definitions);
    lemma_print_definitions_from(state, files, active, definitions, 0);
    lemma_print_xsd(state, files, active, types);
    lemma_print_xsd_from(entered, files, active, types, 0);
    lemma_print_xsd_from(entered, files, active, types, 1);
    lemma_print_definitions_from(entered, files, active, definitions, 1);
    assert(state.print(files, active, definitions) == Walk::ok(entered));
    // What lies below them.
    lemma_print_descendants_from(entered, files, active, definitions, 0);
    lemma_print_descendants(entered, files, active, types);
    lemma_print(entered, files, active, types);
    lemma_print_descendants_from(entered, files, active, types, 0);
    lemma_single_element_yields_one_alias(entered, files, active, schema, element);
    let written = entered.print_descendants(files, active, schema).state;
    lemma_print_descendants_from(written, files, active, types, 1);
    lemma_print_descendants_from(written, files, active, definitions, 1);
    assert(state.print_descendants(files, active, definitions) == Walk::ok(written));
    assert forall|section: Section| section != Section::Types implies #[trigger]
        written.mod_writers.get(section) == state.mod_writers.get(section) by {
        assert(entered.mod_writers.get(section) == state.mod_writers.get(section));
    }
}

/// What a run from `state` hands back where it succeeds: the final text of
/// each section, in output order.
pub open spec fn run_text(
    state: FileWriterView,
    files: Seq<DocumentModel>,
    base_path: Seq<char>,
    file_name: Seq<char>,
) -> Seq<Seq<char>> {
    state.process_file(files, base_path, file_name).state.mod_writers.final_stages()
}

/// The texts of a list of strings.
pub open spec fn texts(sections: Vec<String>) -> Seq<Seq<char>> {
    Seq::new(sections.len() as nat, |i: int| sections[i]@)
}

/// Two runs on the same input hand back the same text. The text is fixed by
/// what a run is given: the state that it starts from, the documents at
/// hand and the names of the directory and of the entry document. It has
/// five parts in a fixed order: the preamble and the modules of the types,
/// the messages, the interfaces and the bindings.
pub proof fn lemma_same_input_same_text(
    state: FileWriterView,
    files: Seq<DocumentModel>,
    base_path: Seq<char>,
    file_name: Seq<char>,
    first: Seq<Seq<char>>,
    second: Seq<Seq<char>>,
)
    requires
        first == run_text(state, files, base_path, file_name),
        second == run_text(state, files, base_path, file_name),
    ensures
        first == second,
        first.len() == 5,
        ({
            let writers = state.process_file(files, base_path, file_name).state.mod_writers;
            &&& first[0] == writers.get(Section::Root).final_stage
            &&& first[1] == writers.get(Section::Types).final_stage
            &&& first[2] == writers.get(Section::Messages).final_stage
            &&& first[3] == writers.get(Section::PortTypes).final_stage
            &&& first[4] == writers.get(Section::Bindings).final_stage
        }),
{
}

impl FileWriter {
    /// Walks the document that an `import` names. An import without a
    /// `schemaLocation` is passed over.
    pub fn import_file(&mut self, node: &XmlNode, files: &Vec<Document>, active: &Vec<bool>) -> (done:
        Result<(), GenError>)
        requires
            old(self)@.level == 0,
            active.len() == files.len(),
        ensures
            final(self)@ == old(self)@.import_file(docs_view(*files), active@, node@).state,
            agrees(done, old(self)@.import_file(docs_view(*files), active@, node@).failure),
            final(self)@.level == 0,
        decreases free_count(active@), 1nat, node@.height(), 0nat,
    {
        proof {
            lemma_import_file(old(self)@, docs_view(*files), active@, node@);
        }
        let name = match node.get_some_attribute("schemaLocation") {
            None => {
                return Ok(());
            },
            Some(n) => n,
        };
        match self.process_file_in_path(name, false, files, active) {
            Ok(_) => Ok(()),
            Err(e) => Err(e),
        }
    }

    /// Walks the document `file_name` of the base directory and, if asked
    /// to, finishes every section behind it and returns the text of each, in
    /// output order. Fails at once where the document is not among `files`,
    /// and where it is being walked already.
    pub fn process_file_in_path(
        &mut self,
        file_name: &str,
        print_when_done: bool,
        files: &Vec<Document>,
        active: &Vec<bool>,
    ) -> (done: Result<Option<Vec<String>>, GenError>)
        requires
            old(self)@.level == 0,
            active.len() == files.len(),
        ensures
            final(self)@ == old(self)@.process_file_in_path(
                docs_view(*files),
                active@,
                file_name@,
                print_when_done,
            ).state,
            agrees(
                done,
                old(self)@.process_file_in_path(
                    docs_view(*files),
                    active@,
                    file_name@,
                    print_when_done,
                ).failure,
            ),
            final(self)@.level == 0,
            match done {
                Ok(Some(sections)) => print_when_done && texts(sections)
                    == final(self)@.mod_writers.final_stages(),
                Ok(None) => !print_when_done,
                Err(_) => true,
            },
        decreases free_count(active@), 0nat, 0nat, 0nat,
    {
        proof {
            lemma_process_file_in_path(
                old(self)@,
                docs_view(*files),
                active@,
                file_name@,
                print_when_done,
            );
        }
        let path = concat3(self.base_path(), "/", file_name);
        let at = match find_document(files, path.as_str()) {
            None => {
                return Err(GenError::MissingFile(path));
            },
            Some(at) => at,
        };
        if active[at] {
            return Err(GenError::ImportCycle(path));
        }
        let entered = activated(active, at);
        proof {
            lemma_activate(active@, at as int);
        }
        let root = files[at].root();
        match self.print_descendants(root, files, &entered) {
            Err(e) => Err(e),
            Ok(()) => {
                if print_when_done {
                    let sections = self.read_for_output();
                    assert(texts(sections) =~= self@.mod_writers.final_stages());
                    Ok(Some(sections))
                } else {
                    Ok(None)
                }
            },
        }
    }

    /// Visits `node` and then everything below it, in document order.
    pub fn print_descendants(
        &mut self,
        node: &XmlNode,
        files: &Vec<Document>,
        active: &Vec<bool>,
    ) -> (done: Result<(), GenError>)
        requires
            old(self)@.level == 0,
            node@.height() <= usize::MAX,
            active.len() == files.len(),
        ensures
            final(self)@ == old(self)@.print_descendants(docs_view(*files), active@, node@).state,
            agrees(done, old(self)@.print_descendants(docs_view(*files), active@, node@).failure),
            final(self)@.level == 0,
        decreases free_count(active@), 1nat, node@.height(), node@.children.len() + 3,
    {
        proof {
            lemma_print_descendants(old(self)@, docs_view(*files), active@, node@);
        }
        let ghost docs = docs_view(*files);
        match self.print(node, files, active) {
            Err(e) => {
                return Err(e);
            },
            Ok(()) => {},
        }
        let ghost total = old(self)@.print_descendants(docs, active@, node@);
        proof {
            node.lemma_view_children();
        }
        let mut i: usize = 0;
        while i < node.children.len()
            invariant
                i <= node.children.len(),
                node@.children.len() == node.children.len(),
                forall|j: int| 0 <= j < node.children.len() ==> node@.children[j] == node.children[j]@,
                docs == docs_view(*files),
                active.len() == files.len(),
                node@.height() <= usize::MAX,
                self@.level == 0,
                total == old(self)@.print_descendants(docs, active@, node@),
                self@.print_descendants_from(docs, active@, node@, i as int) == total,
            decreases node.children.len() - i,
        {
            proof {
                node@.lemma_child_height(i as int);
                lemma_print_descendants_from(self@, docs, active@, node@, i as int);
            }
            match self.print_descendants(&node.children[i], files, active) {
                Err(e) => {
                    return Err(e);
                },
                Ok(()) => {},
            }
            i = i + 1;
        }
        proof {
            lemma_print_descendants_from(self@, docs, active@, node@, i as int);
        }
        Ok(())
    }

    /// Visits one node: a `definitions` element and a `schema` element are
    /// generated from, every other node is passed over.
    pub fn print(&mut self, node: &XmlNode, files: &Vec<Document>, active: &Vec<bool>) -> (done:
        Result<(), GenError>)
        requires
            old(self)@.level == 0,
            node@.height() <= usize::MAX,
            active.len() == files.len(),
        ensures
            final(self)@ == old(self)@.print(docs_view(*files), active@, node@).state,
            agrees(done, old(self)@.print(docs_view(*files), active@, node@).failure),
            final(self)@.level == 0,
        decreases free_count(active@), 1nat, node@.height(), node@.children.len() + 2,
    {
        proof {
            lemma_print(old(self)@, docs_view(*files), active@, node@);
        }
        if !node.is_element() {
            return Ok(());
        }
        if node.has_tag_name("definitions") {
            self.print_definitions(node, files, active)
        } else if node.has_tag_name("schema") {
            self.print_xsd(node, files, active)
        } else {
            Ok(())
        }
    }

    /// Generates from the children of a `definitions` element: schema
    /// types from `types`, a wrapper from `message`, an interface from
    /// `portType`, an implementation from `binding`.
    pub fn print_definitions(
        &mut self,
        node: &XmlNode,
        files: &Vec<Document>,
        active: &Vec<bool>,
    ) -> (done: Result<(), GenError>)
        requires
            old(self)@.level == 0,
            node@.height() <= usize::MAX,
            active.len() == files.len(),
        ensures
            final(self)@ == old(self)@.print_definitions(docs_view(*files), active@, node@).state,
            agrees(done, old(self)@.print_definitions(docs_view(*files), active@, node@).failure),
            final(self)@.level == 0,
        decreases free_count(active@), 1nat, node@.height(), node@.children.len() + 1,
    {
        proof {
            lemma_print_definitions(old(self)@, docs_view(*files), active@, node@);
        }
        let ghost docs = docs_view(*files);
        let ghost total = old(self)@.print_definitions(docs, active@, node@);
        proof {
            node.lemma_view_children();
        }
        let mut i: usize = 0;
        while i < node.children.len()
            invariant
                i <= node.children.len(),
                node@.children.len() == node.children.len(),
                forall|j: int| 0 <= j < node.children.len() ==> node@.children[j] == node.children[j]@,
                docs == docs_view(*files),
                active.len() == files.len(),
                node@.height() <= usize::MAX,
                self@.level == 0,
                total == old(self)@.print_definitions(docs, active@, node@),
                self@.print_definitions_from(docs, active@, node@, i as int) == total,
            decreases node.children.len() - i,
        {
            proof {
                node@.lemma_child_height(i as int);
                lemma_print_definitions_from(self@, docs, active@, node@, i as int);
            }
            let child = &node.children[i];
            if child.has_tag_name("types") {
                match self.print_xsd(child, files, active) {
                    Err(e) => {
                        return Err(e);
                    },
                    Ok(()) => {},
                }
            } else if child.has_tag_name("message") {
                self.print_message(child);
            } else if child.has_tag_name("portType") {
                self.print_port_type(child);
            } else if child.has_tag_name("binding") {
                self.print_binding(child);
            }
            i = i + 1;
        }
        proof {
            lemma_print_definitions_from(self@, docs, active@, node@, i as int);
        }
        Ok(())
    }

    /// Generates the schema types from the children of a schema node: an
    /// `import` is followed, an `element` is written as an element, a
    /// `complexType` with a name becomes the record of that name. The types
    /// section becomes current, and the node's `targetNamespace`, or its
    /// absence, replaces the target namespace known so far.
    pub fn print_xsd(&mut self, node: &XmlNode, files: &Vec<Document>, active: &Vec<bool>) -> (done:
        Result<(), GenError>)
        requires
            old(self)@.level == 0,
            node@.height() <= usize::MAX,
            active.len() == files.len(),
        ensures
            final(self)@ == old(self)@.print_xsd(docs_view(*files), active@, node@).state,
            agrees(done, old(self)@.print_xsd(docs_view(*files), active@, node@).failure),
            final(self)@.level == 0,
        decreases free_count(active@), 1nat, node@.height(), node@.children.len() + 1,
    {
        proof {
            lemma_print_xsd(old(self)@, docs_view(*files), active@, node@);
        }
        let ghost docs = docs_view(*files);
        let ghost total = old(self)@.print_xsd(docs, active@, node@);
        self.check_section(Section::Types);
        self.set_target_name_space(node.get_some_attribute_as_string("targetNamespace"));
        proof {
            node.lemma_view_children();
        }
        let mut i: usize = 0;
        while i < node.children.len()
            invariant
                i <= node.children.len(),
                node@.children.len() == node.children.len(),
                forall|j: int| 0 <= j < node.children.len() ==> node@.children[j] == node.children[j]@,
                docs == docs_view(*files),
                active.len() == files.len(),
                node@.height() <= usize::MAX,
                self@.level == 0,
                total == old(self)@.print_xsd(docs, active@, node@),
                self@.print_xsd_from(docs, active@, node@, i as int) == total,
            decreases node.children.len() - i,
        {
            proof {
                node@.lemma_child_height(i as int);
                lemma_print_xsd_from(self@, docs, active@, node@, i as int);
            }
            let child = &node.children[i];
            if child.has_tag_name("import") {
                match self.import_file(child, files, active) {
                    Err(e) => {
                        return Err(e);
                    },
                    Ok(()) => {},
                }
            } else if child.has_tag_name("element") {
                self.print_element(child);
            } else if child.has_tag_name("complexType") {
                if let Some(name) = child.get_some_attribute("name") {
                    self.print_complex_element(child, name);
                }
            }
            i = i + 1;
        }
        proof {
            lemma_print_xsd_from(self@, docs, active@, node@, i as int);
        }
        Ok(())
    }

    /// Runs the generator on the document `file_name` of the directory
    /// `base_path` and returns the text of the five sections, in output
    /// order: the preamble, then the modules of the types, the messages,
    /// the interfaces and the bindings.
    ///
    /// `files` holds the documents that are at hand. The run fails with
    /// [`GenError::MissingFile`] at the first document that it needs and
    /// that is not among them, and with [`GenError::ImportCycle`] where a
    /// document imports itself.
    pub fn process_file(&mut self, base_path: &str, file_name: &str, files: &Vec<Document>) -> (done:
        Result<Vec<String>, GenError>)
        requires
            old(self)@.level == 0,
        ensures
            final(self)@ == old(self)@.process_file(docs_view(*files), base_path@, file_name@).state,
            match done {
                Ok(sections) => old(self)@.process_file(
                    docs_view(*files),
                    base_path@,
                    file_name@,
                ).failure.is_none() && texts(sections) == run_text(
                    old(self)@,
                    docs_view(*files),
                    base_path@,
                    file_name@,
                ),
                Err(e) => old(self)@.process_file(
                    docs_view(*files),
                    base_path@,
                    file_name@,
                ).failure == Some(e@),
            },
    {
        self.set_base_path(base_path.to_string());
        self.print_header();
        let active = no_marks(files.len());
        match self.process_file_in_path(file_name, true, files, &active) {
            Err(e) => Err(e),
            Ok(Some(sections)) => Ok(sections),
            Ok(None) => Ok(Vec::new()),
        }
    }
}

} // verus!
