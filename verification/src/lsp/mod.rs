//! The logic of the language server: its configuration, the completions it
//! offers for filters and tests, and the answers it computes from the
//! definitions it keeps for each file.
pub mod completion;
pub mod completion_item;
pub mod config;
pub mod diagnostics;
pub mod files;
pub mod filter;
pub mod task;
pub mod template_items;
pub mod template_tests;
pub mod variables;
