//! Chunk bookkeeping for a bump-allocating arena, and the decisions of a
//! language-server workspace worker.

pub mod arena;
pub mod constants;
pub mod footer;
pub mod from_raw_parts;
pub mod growth;
pub mod layout;
pub mod lsp;
pub mod uri;
pub mod worker;
