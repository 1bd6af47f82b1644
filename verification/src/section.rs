//! The output sections of a generation run.

use vstd::prelude::*;

verus! {

/// One of the independent groups that generated text is collected into.
///
/// `Root` holds the preamble of the generated file; each of the other four
/// becomes one module of it.
#[derive(Debug, Clone, Copy, PartialEq, Eq, Hash, Structural)]
pub enum Section {
    Root,
    Types,
    Messages,
    PortTypes,
    Bindings,
}

/// Name of the generated module that holds the schema types.
pub open spec fn types_mod() -> Seq<char> {
    "types"@
}

/// Name of the generated module that holds the message wrappers.
pub open spec fn messages_mod() -> Seq<char> {
    "messages"@
}

/// Name of the generated module that holds the interfaces.
pub open spec fn ports_mod() -> Seq<char> {
    "ports"@
}

/// Name of the generated module that holds the binding implementations.
pub open spec fn bindings_mod() -> Seq<char> {
    "bindings"@
}

impl Section {
    /// The name of the module generated for this section; `Root` has none.
    pub open spec fn mod_name(self) -> Option<Seq<char>> {
        match self {
            Section::Root => None,
            Section::Types => Some(types_mod()),
            Section::Messages => Some(messages_mod()),
            Section::PortTypes => Some(ports_mod()),
            Section::Bindings => Some(bindings_mod()),
        }
    }
}

} // verus!
