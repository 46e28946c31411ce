//! Language-server logic for Jinja templates: scope tracking, object and
//! import analysis over tree-sitter captures, completion decisions and the
//! bookkeeping of open documents.
pub mod point;


pub mod syntax;
pub mod text;
pub mod search;
pub mod assoc;
pub mod tree_builder;
pub mod parsers;
pub mod lsp_helper;
pub mod capturer;
pub mod js_files;
pub mod nodejs;
pub mod lsp;
pub mod to_input_edit;
pub mod classic;
