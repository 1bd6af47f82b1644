//! Generation of Rust source text from WSDL service descriptions and the
//! XML schema fragments that they embed or import.
//!
//! A run walks the entry document once and collects text in five sections:
//! a preamble and one module each for the schema types, the messages, the
//! interfaces and the bindings. [`FileWriter`] holds the state of a run,
//! [`ModWriter`] the staged text of one section; the documents are handed
//! to a run as [`Document`]s, parsed beforehand.

pub mod bindings;
pub mod casing;
pub mod document;
pub mod generator;
pub mod messages;
pub mod ports;
pub mod resolve;
pub mod schema;
pub mod section;
pub mod staging;
pub mod text;
pub mod walker;
pub mod xml;

pub use crate::document::{Document, XmlError};
pub use crate::generator::FileWriter;
pub use crate::section::Section;
pub use crate::staging::ModWriter;
pub use crate::walker::GenError;
pub use crate::xml::{XmlAttribute, XmlNode};
