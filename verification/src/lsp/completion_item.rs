use vstd::prelude::*;

use crate::point::Range;
use crate::search::CompletionItemKind;

verus! {

/// A replacement of the text in a range.
#[derive(Debug)]
pub struct TextEdit {
    pub range: Range,
    pub new_text: String,
}

pub struct TextEditV {
    pub range: Range,
    pub new_text: Seq<char>,
}

impl View for TextEdit {
    type V = TextEditV;

    open spec fn view(&self) -> TextEditV {
        TextEditV { range: self.range, new_text: self.new_text@ }
    }
}

/// How a completion changes the text.
#[derive(Debug)]
pub enum CompletionTextEdit {
    Edit(TextEdit),
    InsertAndReplace { new_text: String, insert: Range, replace: Range },
}

pub enum CompletionTextEditV {
    Edit(TextEditV),
    InsertAndReplace { new_text: Seq<char>, insert: Range, replace: Range },
}

impl View for CompletionTextEdit {
    type V = CompletionTextEditV;

    open spec fn view(&self) -> CompletionTextEditV {
        match self {
            CompletionTextEdit::Edit(e) => CompletionTextEditV::Edit(e@),
            CompletionTextEdit::InsertAndReplace { new_text, insert, replace } => CompletionTextEditV::InsertAndReplace {
                new_text: new_text@,
                insert: *insert,
                replace: *replace,
            },
        }
    }
}

/// A completion offered to the editor.
#[derive(Debug)]
pub struct CompletionItem {
    pub label: String,
    pub detail: Option<String>,
    pub kind: Option<CompletionItemKind>,
    pub text_edit: Option<CompletionTextEdit>,
    pub additional_text_edits: Option<Vec<TextEdit>>,
}

pub struct ItemV {
    pub label: Seq<char>,
    pub detail: Option<Seq<char>>,
    pub kind: Option<CompletionItemKind>,
    pub text_edit: Option<CompletionTextEditV>,
    pub additional_text_edits: Option<Seq<TextEditV>>,
}

impl View for CompletionItem {
    type V = ItemV;

    open spec fn view(&self) -> ItemV {
        ItemV {
            label: self.label@,
            detail: match self.detail { Some(d) => Some(d@), None => None },
            kind: self.kind,
            text_edit: match self.text_edit { Some(e) => Some(e@), None => None },
            additional_text_edits: match self.additional_text_edits {
                Some(v) => Some(v@.map_values(|e: TextEdit| e@)),
                None => None,
            },
        }
    }
}

/// The plain values of a list of completions.
pub open spec fn items_view(s: Seq<CompletionItem>) -> Seq<ItemV> {
    s.map_values(|i: CompletionItem| i@)
}

/// A completion with a label, a description and a kind, and nothing else.
pub open spec fn plain_item(label: Seq<char>, detail: Seq<char>, kind: CompletionItemKind) -> ItemV {
    ItemV { label, detail: Some(detail), kind: Some(kind), text_edit: None, additional_text_edits: None }
}

impl CompletionItem {
    /// A completion with a label, a description and a kind.
    pub fn plain(label: String, detail: String, kind: CompletionItemKind) -> (r: CompletionItem)
        ensures
            r@ == plain_item(label@, detail@, kind),
    {
        CompletionItem { label, detail: Some(detail), kind: Some(kind), text_edit: None, additional_text_edits: None }
    }
}

} // verus!
