//! The front end of a language with units of measurement: a table that
//! tells unit names, with their prefixes, from plain identifiers; a
//! transformer that resolves the names of parsed statements; and a session
//! that runs each piece of code through its stages and forgets whatever a
//! failed piece declared.

pub mod ast;
pub mod completion;
pub mod currency;
pub mod decorator;
pub mod formatter;
pub mod keywords;
pub mod markup;
pub mod name_resolution;
pub mod prefix;
pub mod prefix_parser;
pub mod prefix_transformer;
pub mod session;
pub mod span;
pub mod text;

pub use name_resolution::NameResolutionError;
pub use session::{Context, InterpreterSettings, NumbatError, RuntimeError};
