//! A recursive-descent parser for a small subset of the XML Schema
//! Definition language.
//!
//! The parser reads a schema document from a single in-memory text buffer
//! and produces an object graph of the declared elements, attributes,
//! simple (scalar) types and complex (structured) types.  Loading the text
//! and reporting failures to a user are left to the caller; the library
//! itself performs no I/O.
//!
//! Every executable function is specified against a mathematical model of
//! the grammar: the module [`grammar`] defines, over `Seq<char>`, exactly
//! what each parsing step consumes and returns, and the contracts of the
//! methods of [`parser::XmlSchemaParser`] tie the executable code to that
//! model.

mod scan;

pub mod grammar;
pub mod laws;
pub mod model;
pub mod parser;
