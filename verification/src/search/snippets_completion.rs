use vstd::prelude::*;

use crate::point::{p_le, spec_to_position, to_position2, Point, Position, Range};
use crate::syntax::{capture_names, caps_view, flat_captures, matches_view, names_within, query_matches, taken_captures, Capture, CaptureV};
use crate::lsp::completion_item::{items_view, CompletionItem, CompletionTextEdit, CompletionTextEditV, ItemV, TextEdit, TextEditV};
use crate::search::CompletionItemKind;
use crate::text::{copy_str, str_eq};

verus! {

/// Where an unfinished block stands, as the snippets query finds it.
#[derive(Debug)]
pub struct Snippets {
    pub start: Point,
    pub end: Point,
    pub keyword: Point,
    pub is_error: bool,
}

/// The kinds of captures that the snippets query yields.
#[derive(Clone, Copy, PartialEq, Eq, Structural, Debug)]
pub enum SnippetCapture {
    Start,
    End,
    ErrorBlock,
    Keyword,
    Other,
}

/// The kind of a capture, by its name.
pub open spec fn snippet_kind(name: Seq<char>) -> SnippetCapture {
    if name == "start"@ {
        SnippetCapture::Start
    } else if name == "end"@ {
        SnippetCapture::End
    } else if name == "error_block"@ {
        SnippetCapture::ErrorBlock
    } else if name == "keyword"@ {
        SnippetCapture::Keyword
    } else {
        SnippetCapture::Other
    }
}

/// How a capture changes the snippet state; `None` stops the walk.
pub open spec fn snippet_step(s: Snippets, c: CaptureV) -> (Snippets, Option<()>) {
    match snippet_kind(c.name) {
        SnippetCapture::Start => (Snippets { start: c.start, ..s }, Some(())),
        SnippetCapture::End => (Snippets { end: c.end, ..s }, Some(())),
        SnippetCapture::ErrorBlock => (Snippets { is_error: true, end: c.end, ..s }, None),
        SnippetCapture::Keyword => (Snippets { keyword: c.start, ..s }, Some(())),
        SnippetCapture::Other => (s, Some(())),
    }
}

/// The walk over the captures, up to the first step that stops it.
pub open spec fn snippets_walk(s: Snippets, caps: Seq<CaptureV>) -> Snippets
    decreases caps.len(),
{
    if caps.len() == 0 {
        s
    } else {
        let (s1, r) = snippet_step(s, caps[0]);
        if r is None {
            s1
        } else {
            snippets_walk(s1, caps.drop_first())
        }
    }
}

/// Nothing found: every point at the start of the document.
pub open spec fn no_snippets() -> Snippets {
    Snippets {
        start: Point { row: 0, column: 0 },
        end: Point { row: 0, column: 0 },
        keyword: Point { row: 0, column: 0 },
        is_error: false,
    }
}

/// The range a snippet replaces at `tp`: an empty range for an unfinished
/// block that ends at or after the cursor, none otherwise.
pub open spec fn spec_to_complete(s: Snippets, tp: Point) -> Option<Range> {
    if s.is_error && p_le(tp, s.end) {
        Some(Range { start: Position { line: 0, character: 0 }, end: Position { line: 0, character: 0 } })
    } else {
        None
    }
}

impl Snippets {
    pub fn new() -> (s: Snippets)
        ensures
            s == no_snippets(),
    {
        Snippets { start: Point::zero(), end: Point::zero(), keyword: Point::zero(), is_error: false }
    }

    /// Takes one capture of the snippets query.
    pub fn check(&mut self, capture: &Capture) -> (r: Option<()>)
        ensures
            (*final(self), r) == snippet_step(*old(self), capture@),
    {
        proof {
            reveal_strlit("start");
            reveal_strlit("end");
            reveal_strlit("error_block");
            reveal_strlit("keyword");
        }
        let name = capture.name.as_str();
        if str_eq(name, "start") {
            self.start = capture.start;
        } else if str_eq(name, "end") {
            self.end = capture.end;
        } else if str_eq(name, "error_block") {
            self.is_error = true;
            self.end = capture.end;
            return None;
        } else if str_eq(name, "keyword") {
            self.keyword = capture.start;
        }
        Some(())
    }

    /// The range a snippet replaces when the cursor is at `trigger_point`.
    pub fn to_complete(&self, trigger_point: Point) -> (r: Option<Range>)
        ensures
            r == spec_to_complete(*self, trigger_point),
    {
        if self.is_error && trigger_point.le(&self.end) {
            return Some(Range::new(Position::new(0, 0), Position::new(0, 0)));
        }
        if self.is_error && self.start.le(&trigger_point) && trigger_point.le(&self.end) {
            if self.start.le(&self.keyword) && self.keyword.le(&self.end) {
                return None;
            }
            let start_position = to_position2(trigger_point);
            let mut end_position = to_position2(trigger_point);
            end_position.character = end_position.character + 1;
            return Some(Range::new(start_position, end_position));
        }
        None
    }
}

/// The point two columns after `p`, or `p` itself where that does not fit.
pub open spec fn two_after(p: Point) -> Point {
    if p.column <= usize::MAX - 2 {
        Point { column: (p.column + 2) as usize, ..p }
    } else {
        p
    }
}

/// Walks the captures of the snippets query that start no later than two
/// columns after the trigger point (or every capture, with `all`), as
/// `snippets_query` does with what tree-sitter returns.
pub fn snippets_from_matches(matches: &Vec<Vec<Capture>>, trigger_point: Point, all: bool) -> (s: Snippets)
    requires
        trigger_point.column <= usize::MAX - 2,
    ensures
        s == snippets_walk(no_snippets(), flat_captures(matches_view(matches@), two_after(trigger_point), all)),
{
    let tp = Point { row: trigger_point.row, column: trigger_point.column + 2 };
    let caps = taken_captures(matches, tp, all);
    let ghost cv = caps_view(caps@);
    let mut s = Snippets::new();
    let mut i: usize = 0;
    let mut stopped = false;
    proof {
        assert(cv.skip(0) =~= cv);
    }
    while i < caps.len() && !stopped
        invariant
            cv == caps_view(caps@),
            i <= cv.len(),
            stopped ==> s == snippets_walk(no_snippets(), cv),
            !stopped ==> snippets_walk(s, cv.skip(i as int)) == snippets_walk(no_snippets(), cv),
        decreases caps.len() - i,
    {
        proof {
            assert(cv.skip(i as int)[0] == caps@[i as int]@);
            assert(cv.skip(i as int).drop_first() =~= cv.skip(i + 1));
        }
        if s.check(&caps[i]).is_none() {
            stopped = true;
        }
        i = i + 1;
    }
    proof {
        if !stopped {
            assert(cv.skip(i as int).len() == 0);
        }
    }
    s
}

/// Walks the snippets query over `tree`.  What the walk sees comes from the
/// parse tree: the result is the walk over some list of the query's matches.
pub fn snippets_query(query: &crate::syntax::SourcedQuery, tree: &tree_sitter::Tree, trigger_point: Point, text: &str, all: bool) -> (r: Snippets)
    requires
        trigger_point.column <= usize::MAX - 2,
    ensures
        exists|ms: Seq<Seq<CaptureV>>|
            names_within(ms, capture_names(query@.0, query@.1))
            && r == #[trigger] snippets_walk(no_snippets(), flat_captures(ms, two_after(trigger_point), all)),
{
    let matches = query_matches(query, tree, text);
    snippets_from_matches(&matches, trigger_point, all)
}

/// The snippets, as label, description and text.
pub open spec fn snippet_table() -> Seq<(Seq<char>, Seq<char>, Seq<char>)> {
    seq![
        ("for1"@, "Basic for loop"@, " for ${1:i} in ${2:items} %}\n{% endfor %}\n"@),
        ("for2"@, "For loop with key and value"@, " for (${1:key}, ${2:value}) in ${3:items} %}\n{% endfor %}\n"@),
        ("with"@, "With block"@, " with $1 %}\n{% endwith %}\n"@),
        ("set1"@, "Set variable that is current scope"@, " set ${1:key} = ${2:value} %}\n            "@),
        ("set2"@, "Set with scope"@, " set ${1:data} %}\n{% endset %}\n\n"@),
        ("include"@, "Include template"@, " include \"$1\" %}\n            "@),
        ("from"@, "Import from other template"@, " from \"$1\" import ${2:module} %}\n            "@),
        ("import"@, "Import entire template as module"@, " import \"$1\" as ${2:module} %}\n            "@),
        ("extends"@, "Extend parent template"@, " extends \"$1\" %}\n            "@),
        ("if1"@, "If statement"@, " if $1 %}\n{% endif %}\n"@),
        ("if2"@, "If statement"@, " if $1 %}\n{% elif $2 %}\n{% endif %}\n"@),
    ]
}

/// The completion a snippet of the table gives: its label, its
/// description, the snippet kind, and an edit that puts its text over
/// `range`.
pub open spec fn snippet_item(s: (Seq<char>, Seq<char>, Seq<char>), range: Range) -> ItemV {
    ItemV {
        label: s.0,
        detail: Some(s.1),
        kind: Some(CompletionItemKind::Snippet),
        text_edit: Some(CompletionTextEditV::Edit(TextEditV { range, new_text: s.2 })),
        additional_text_edits: None,
    }
}

/// The completions of the snippet table, each with an edit over `range`.
pub open spec fn snippet_items(range: Range) -> Seq<ItemV> {
    snippet_table().map_values(|s: (Seq<char>, Seq<char>, Seq<char>)| snippet_item(s, range))
}

fn push_snippet(v: &mut Vec<CompletionItem>, label: &str, detail: &str, text: &str, range: Range)
    ensures
        items_view(final(v)@) == items_view(old(v)@).push(snippet_item((label@, detail@, text@), range)),
{
    let ghost before = v@;
    let edit = TextEdit { range, new_text: copy_str(text) };
    v.push(CompletionItem {
        label: copy_str(label),
        detail: Some(copy_str(detail)),
        kind: Some(CompletionItemKind::Snippet),
        text_edit: Some(CompletionTextEdit::Edit(edit)),
        additional_text_edits: None,
    });
    assert(items_view(v@) =~= items_view(before).push(snippet_item((label@, detail@, text@), range)));
}

/// The snippets offered at the start of a block, as completions whose
/// edits cover `range`.
pub fn snippets_at(range: Range) -> (r: Vec<CompletionItem>)
    ensures
        items_view(r@) == snippet_items(range),
{
    let mut v: Vec<CompletionItem> = Vec::new();
    push_snippet(&mut v, "for1", "Basic for loop", " for ${1:i} in ${2:items} %}\n{% endfor %}\n", range);
    push_snippet(&mut v, "for2", "For loop with key and value", " for (${1:key}, ${2:value}) in ${3:items} %}\n{% endfor %}\n", range);
    push_snippet(&mut v, "with", "With block", " with $1 %}\n{% endwith %}\n", range);
    push_snippet(&mut v, "set1", "Set variable that is current scope", " set ${1:key} = ${2:value} %}\n            ", range);
    push_snippet(&mut v, "set2", "Set with scope", " set ${1:data} %}\n{% endset %}\n\n", range);
    push_snippet(&mut v, "include", "Include template", " include \"$1\" %}\n            ", range);
    push_snippet(&mut v, "from", "Import from other template", " from \"$1\" import ${2:module} %}\n            ", range);
    push_snippet(&mut v, "import", "Import entire template as module", " import \"$1\" as ${2:module} %}\n            ", range);
    push_snippet(&mut v, "extends", "Extend parent template", " extends \"$1\" %}\n            ", range);
    push_snippet(&mut v, "if1", "If statement", " if $1 %}\n{% endif %}\n", range);
    push_snippet(&mut v, "if2", "If statement", " if $1 %}\n{% elif $2 %}\n{% endif %}\n", range);
    proof {
        assert(items_view(v@) =~= snippet_items(range));
    }
    v
}

/// The snippets offered at the start of a block, with edits over the empty
/// range at the start of the document: the caller moves them where the
/// block is.
pub fn snippets() -> (r: Vec<CompletionItem>)
    ensures
        items_view(r@) == snippet_items(Range { start: Position { line: 0, character: 0 }, end: Position { line: 0, character: 0 } }),
{
    snippets_at(Range::new(Position::new(0, 0), Position::new(0, 0)))
}

} // verus!
