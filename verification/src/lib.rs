//! In-memory model of ISO-10303-21 exchange files (the physical-file
//! encoding used by STEP/IFC data), together with a conversion framework
//! that turns the dynamically shaped parameter tree into native values,
//! a header model, and the whole-file read/dispatch protocol.
//!
//! The lexical grammar parser that turns raw bytes into an [`structure::ExchangeFile`]
//! is an external collaborator: this crate consumes its output, it does not
//! contain it.

pub mod convert;
pub mod reader;
pub mod structure;
