use vstd::prelude::*;

use crate::point::Range;
use crate::syntax::{language, new_parser, parse_text, tree_edit, Grammar};
use crate::to_input_edit::{change_fits, changed, line_char, rope_text, try_apply_change, InputEdit};
use crate::text::str_eq;
use crate::tree_builder::LangType;

verus! {

/// One parser for templates and one for the backend's language.
pub struct Parsers {
    pub jinja: tree_sitter::Parser,
    pub backend: tree_sitter::Parser,
    /// The grammar the backend parser reads.
    pub backend_grammar: Grammar,
}

impl Parsers {
    /// A Jinja parser and a Rust parser.
    pub fn new() -> (p: Parsers)
        ensures
            p.backend_grammar == Grammar::Rust,
    {
        Parsers {
            jinja: new_parser(&language(Grammar::Jinja)),
            backend: new_parser(&language(Grammar::Rust)),
            backend_grammar: Grammar::Rust,
        }
    }

    /// Parses `text` with the parser for its kind of document.
    pub fn parse(&mut self, lang_type: LangType, text: &str, old_tree: Option<&tree_sitter::Tree>) -> (r: Option<tree_sitter::Tree>)
        ensures
            final(self).backend_grammar == old(self).backend_grammar,
    {
        match lang_type {
            LangType::Template => parse_text(&mut self.jinja, text, old_tree),
            LangType::Backend => parse_text(&mut self.backend, text, old_tree),
        }
    }

    /// For `"python"`, the backend parser reads Python from now on.
    pub fn update_backend(&mut self, lang: &str)
        ensures
            final(self).backend_grammar == (if lang@ == "python"@ { Grammar::Python } else { old(self).backend_grammar }),
    {
        proof {
            reveal_strlit("python");
        }
        if str_eq(lang, "python") {
            self.backend = new_parser(&language(Grammar::Python));
            self.backend_grammar = Grammar::Python;
        }
    }
}

/// Brings a document's tree up to date after an edit: the tree is edited
/// with `edit` and `text`, the document's text after the edit, is parsed
/// again with the edited tree as the old tree.  The new tree is `None`
/// where tree-sitter cannot parse, as with `Parsers::parse`.
pub fn input_edit(parsers: &mut Parsers, lang_type: LangType, tree: &mut tree_sitter::Tree, edit: &InputEdit, text: &str) -> (r: Option<tree_sitter::Tree>)
    ensures
        final(parsers).backend_grammar == old(parsers).backend_grammar,
{
    tree_edit(tree, edit);
    parsers.parse(lang_type, text, Some(&*tree))
}

/// Applies a change of `range` to `text` to a document: its rope gets the
/// change where it fits (as `try_apply_change` says), its tree the edit of
/// that change, and the changed text is parsed again with the edited tree.
/// `None`, with the rope and the tree left as they were, where the change
/// does not fit; the new tree is then `None` too where tree-sitter cannot
/// parse.
pub fn change_document(
    parsers: &mut Parsers,
    lang_type: LangType,
    rope: &mut ropey::Rope,
    tree: &mut tree_sitter::Tree,
    range: Range,
    text: &str,
) -> (r: Option<Option<tree_sitter::Tree>>)
    ensures
        final(parsers).backend_grammar == old(parsers).backend_grammar,
        r is Some == change_fits(rope_text(*old(rope)), range, text),
        r is Some ==> rope_text(*final(rope)) == changed(
            rope_text(*old(rope)),
            line_char(rope_text(*old(rope)), range.start.line as int) + range.start.character,
            line_char(rope_text(*old(rope)), range.end.line as int) + range.end.character,
            text@,
        ),
        r is None ==> rope_text(*final(rope)) == rope_text(*old(rope)),
{
    match try_apply_change(rope, range, text) {
        Some((edit, content)) => Some(input_edit(parsers, lang_type, tree, &edit, content.as_str())),
        None => None,
    }
}

} // verus!
