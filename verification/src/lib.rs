//! A source-to-source compiler core that lowers a terse authoring language
//! into LaTeX text: a token stream is parsed into an ordered statement tree,
//! and the tree is replayed into LaTeX source with exact whitespace and
//! bracket fidelity.
#![verifier::loop_isolation(false)]

pub mod location;
pub mod token;
pub mod error;
pub mod ast;
pub mod numlit;
pub mod trim;
pub mod codegen;
pub mod parser;
pub mod laws;
pub mod initialization;
