//! Lexicon schema documents and the declarations generated from them.

pub mod codegen;
pub mod decode;
pub mod diagnostics;
pub mod document;
pub mod firehose;
pub mod json;
pub mod naming;
pub mod node_map;
pub mod schema;
pub mod text;
