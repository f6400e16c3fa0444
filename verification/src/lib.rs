//! A safe core for exposing a tokenization engine to callers in another
//! language runtime: generation-checked handles for loaded tokenizer
//! instances, strict decoding of caller text, and the textual encoding of
//! token identifiers that is handed back across the boundary.

pub mod bridge;
pub mod handle_table;
pub mod serialize;
pub mod text;
