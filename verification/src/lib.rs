//! Completion, LSP-position and semantic-highlight logic of the editor
//! kernel store, with its contracts proved by Verus.

pub mod editor;
pub mod flat_store;
pub mod kernel;
pub mod ports;
pub mod rope;
pub mod sorted;
pub mod store;
pub mod text;
