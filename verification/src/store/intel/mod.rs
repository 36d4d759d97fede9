//! Language intelligence: completion filtering and ranking, completion
//! strategies, LSP position conversions and semantic highlighting.

pub mod completion;
pub mod completion_rank;
pub mod completion_strategy;
pub mod lsp;
pub mod semantic;
