//! Decoder for the header of compiled class files: the format version, the
//! constant pool, the access flags, and the class, superclass and interface
//! references.
//!
//! Every decoding function is specified against a mathematical model of the
//! byte cursor (`utilities::Cursor`), so that a contract states, for every
//! buffer, which value is produced or which error is raised, and where the
//! cursor stands afterwards.

pub mod access_flags;
pub mod class_loader;
pub mod constants;
pub mod error;
pub mod utilities;

