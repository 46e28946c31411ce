//! Completion of template names: each template the server knows, named by
//! its path under the template directory.
use vstd::prelude::*;

use crate::lsp::completion_item::{CompletionItem, CompletionTextEdit, CompletionTextEditV, ItemV, TextEdit, TextEditV, items_view};
use crate::point::{Position, Range};
use crate::search::CompletionItemKind;
use crate::text::{
    chars_of, contains_str, copy_str, drop_first, find_from, first_from, occurs_at, joined, lemma_first_from_unique, remove_first,
    seq_contains, str_eq, string_from_chars,
};

verus! {

/// The piece of `s` between the first and the second place where `p`
/// occurs, or after the first if there is no second; none if `p` does not
/// occur.  An empty `p` occurs before each character, so its second piece
/// is the first character.
pub open spec fn second_piece(s: Seq<char>, p: Seq<char>) -> Option<Seq<char>> {
    if p.len() == 0 {
        Some(s.take(if s.len() == 0 { 0int } else { 1int }))
    } else if exists|i: int| first_from(s, p, 0, i) {
        let i = choose|i: int| first_from(s, p, 0, i);
        let st = i + p.len();
        if exists|j: int| first_from(s, p, st, j) {
            let j = choose|j: int| first_from(s, p, st, j);
            Some(s.subrange(st, j))
        } else {
            Some(s.subrange(st, s.len() as int))
        }
    } else {
        None
    }
}

/// The second piece of `s` when split at each `p`.
pub fn split_second(s: &str, p: &str) -> (r: Option<String>)
    ensures
        match r {
            Some(t) => second_piece(s@, p@) == Some(t@),
            None => second_piece(s@, p@) is None,
        },
{
    let x = chars_of(s);
    let y = chars_of(p);
    if y.len() == 0 {
        let mut out: Vec<char> = Vec::new();
        if x.len() > 0 {
            out.push(x[0]);
        }
        assert(out@ =~= x@.take(if x@.len() == 0 { 0int } else { 1int }));
        return Some(string_from_chars(&out));
    }
    match find_from(&x, &y, 0) {
        None => {
            assert(!exists|i: int| first_from(s@, p@, 0, i));
            None
        },
        Some(i) => {
            proof {
                let w = choose|w: int| first_from(s@, p@, 0, w);
                lemma_first_from_unique(s@, p@, 0, i as int, w);
            }
            assert(occurs_at(x@, y@, i as int));
            assert(i + y@.len() <= x@.len());
            assert(i + y.len() <= x.len());
            let st = i + y.len();
            let end = match find_from(&x, &y, st) {
                Some(j) => {
                    proof {
                        let w = choose|w: int| first_from(s@, p@, st as int, w);
                        lemma_first_from_unique(s@, p@, st as int, j as int, w);
                    }
                    j
                },
                None => {
                    assert(!exists|j: int| first_from(s@, p@, st as int, j));
                    x.len()
                },
            };
            let mut out: Vec<char> = Vec::new();
            let mut k: usize = st;
            while k < end
                invariant
                    x@ == s@,
                    st <= k <= end <= x@.len(),
                    out@ == x@.subrange(st as int, k as int),
                decreases end - k,
            {
                out.push(x[k]);
                assert(x@.subrange(st as int, k + 1) =~= x@.subrange(st as int, k as int).push(x@[k as int]));
                k = k + 1;
            }
            Some(string_from_chars(&out))
        },
    }
}

/// The directory the template paths are split at: the configured one
/// without its first dot, or the working directory where that leaves `/`.
pub open spec fn templates_root(templates: Seq<char>, current_dir: Seq<char>) -> Seq<char> {
    if drop_first(templates, '.') == "/"@ {
        current_dir
    } else {
        drop_first(templates, '.')
    }
}

/// The directory the template paths are split at.
pub fn template_root(templates: &str, current_dir: &str) -> (r: String)
    ensures
        r@ == templates_root(templates@, current_dir@),
{
    proof {
        reveal_strlit("/");
    }
    let t = remove_first(templates, '.');
    if str_eq(t.as_str(), "/") {
        copy_str(current_dir)
    } else {
        t
    }
}

/// The completion of one template, named `label`, replacing `range`.  An
/// editor that is VS Code gets an empty edit at the cursor and the name as
/// an additional edit; others get the quoted name to insert or replace.
pub open spec fn template_item(label: Seq<char>, range: Range, start_point: Position, is_vscode: bool) -> ItemV {
    let new_text = "\""@ + label + "\""@;
    ItemV {
        label,
        detail: Some("Jinja template"@),
        kind: Some(CompletionItemKind::File),
        text_edit: Some(
            if is_vscode {
                CompletionTextEditV::Edit(TextEditV { range: Range { start: start_point, end: start_point }, new_text: Seq::empty() })
            } else {
                CompletionTextEditV::InsertAndReplace { new_text, insert: range, replace: range }
            },
        ),
        additional_text_edits: if is_vscode { Some(seq![TextEditV { range, new_text }]) } else { None },
    }
}

/// The label of a template at `uri`: the piece after the root, without its
/// first slash.
pub open spec fn template_label(uri: Seq<char>, root: Seq<char>) -> Option<Seq<char>> {
    match second_piece(uri, root) {
        Some(piece) => Some(drop_first(piece, '/')),
        None => None,
    }
}

/// The completions of the templates among `uris` whose address contains
/// the prefix, in order; none as soon as one of them has no label.
pub open spec fn template_items_spec(
    uris: Seq<Seq<char>>,
    prefix: Seq<char>,
    root: Seq<char>,
    range: Range,
    start_point: Position,
    is_vscode: bool,
) -> Option<Seq<ItemV>>
    decreases uris.len(),
{
    if uris.len() == 0 {
        Some(Seq::empty())
    } else {
        match template_items_spec(uris.drop_last(), prefix, root, range, start_point, is_vscode) {
            None => None,
            Some(rest) => if !seq_contains(uris.last(), prefix) {
                Some(rest)
            } else {
                match template_label(uris.last(), root) {
                    Some(label) => Some(rest.push(template_item(label, range, start_point, is_vscode))),
                    None => None,
                }
            },
        }
    }
}

/// The prefix a template address must contain: the one typed, or
/// `file:///` when nothing was typed.
pub open spec fn effective_prefix(prefix: Seq<char>) -> Seq<char> {
    if prefix.len() == 0 {
        "file:///"@
    } else {
        prefix
    }
}

fn template_completion_item(label: String, range: Range, start_point: Position, is_vscode: bool) -> (r: CompletionItem)
    ensures
        r@ == template_item(label@, range, start_point, is_vscode),
{
    proof {
        reveal_strlit("\"");
        reveal_strlit("Jinja template");
    }
    let quoted = joined("\"", label.as_str());
    let new_text = joined(quoted.as_str(), "\"");
    let (text_edit, additional_text_edits) = if is_vscode {
        let mut edits: Vec<TextEdit> = Vec::new();
        edits.push(TextEdit { range, new_text });
        let ghost e = edits@;
        assert(e.map_values(|t: TextEdit| t@) =~= seq![e[0]@]);
        (
            CompletionTextEdit::Edit(TextEdit { range: Range { start: start_point, end: start_point }, new_text: String::new() }),
            Some(edits),
        )
    } else {
        (CompletionTextEdit::InsertAndReplace { new_text, insert: range, replace: range }, None)
    };
    CompletionItem {
        label,
        detail: Some(copy_str("Jinja template")),
        kind: Some(CompletionItemKind::File),
        text_edit: Some(text_edit),
        additional_text_edits,
    }
}

/// The completions of the templates the server knows, at addresses `uris`
/// in the order given: those whose address contains the prefix typed (or
/// `file:///`), each labelled by its path under `root`.  None when one of
/// them does not lie under `root`.
pub fn template_items(
    uris: &Vec<String>,
    prefix: &str,
    root: &str,
    range: Range,
    start_point: Position,
    is_vscode: bool,
) -> (r: Option<Vec<CompletionItem>>)
    ensures
        match r {
            Some(items) => template_items_spec(
                uris@.map_values(|u: String| u@),
                effective_prefix(prefix@),
                root@,
                range,
                start_point,
                is_vscode,
            ) == Some(items_view(items@)),
            None => template_items_spec(
                uris@.map_values(|u: String| u@),
                effective_prefix(prefix@),
                root@,
                range,
                start_point,
                is_vscode,
            ) is None,
        },
{
    proof {
        reveal_strlit("file:///");
        reveal_strlit("");
    }
    let pfx = if str_eq(prefix, "") { copy_str("file:///") } else { copy_str(prefix) };
    assert(pfx@ == effective_prefix(prefix@)) by {
        if prefix@.len() == 0 {
            assert(prefix@ =~= ""@);
        }
    }
    let ghost us = uris@.map_values(|u: String| u@);
    let ghost pre = pfx@;
    let mut items: Vec<CompletionItem> = Vec::new();
    let mut i: usize = 0;
    proof {
        assert(us.take(0) =~= Seq::<Seq<char>>::empty());
        assert(items_view(items@) =~= Seq::<ItemV>::empty());
    }
    while i < uris.len()
        invariant
            us == uris@.map_values(|u: String| u@),
            pre == pfx@,
            pre == effective_prefix(prefix@),
            i <= uris@.len(),
            template_items_spec(us.take(i as int), pre, root@, range, start_point, is_vscode) == Some(items_view(items@)),
        decreases uris.len() - i,
    {
        proof {
            assert(us.take(i + 1).drop_last() =~= us.take(i as int));
            assert(us.take(i + 1).last() == uris@[i as int]@);
        }
        let uri = uris[i].as_str();
        if contains_str(uri, pfx.as_str()) {
            match split_second(uri, root) {
                Some(piece) => {
                    let label = remove_first(piece.as_str(), '/');
                    let item = template_completion_item(label, range, start_point, is_vscode);
                    let ghost prev = items@;
                    items.push(item);
                    proof {
                        assert(items_view(items@) =~= items_view(prev).push(item@));
                    }
                },
                None => {
                    proof {
                        let t = us.take(i + 1);
                        assert(t.last() == uri@);
                        assert(seq_contains(t.last(), pre));
                        assert(template_label(t.last(), root@) is None);
                        assert(template_items_spec(t, pre, root@, range, start_point, is_vscode) is None);
                        lemma_items_none_stays(us, pre, root@, range, start_point, is_vscode, i as int + 1);

                    }
                    return None;
                },
            }
        }
        i = i + 1;
    }
    proof {
        assert(us.take(i as int) =~= us);
    }
    Some(items)
}

/// Once the completions fail for a prefix of the addresses, they fail for
/// all of them.
proof fn lemma_items_none_stays(
    us: Seq<Seq<char>>,
    prefix: Seq<char>,
    root: Seq<char>,
    range: Range,
    start_point: Position,
    is_vscode: bool,
    k: int,
)
    requires
        0 <= k <= us.len(),
        template_items_spec(us.take(k), prefix, root, range, start_point, is_vscode) is None,
    ensures
        template_items_spec(us, prefix, root, range, start_point, is_vscode) is None,
    decreases us.len() - k,
{
    if k < us.len() {
        assert(us.take(k + 1).drop_last() =~= us.take(k));
        lemma_items_none_stays(us, prefix, root, range, start_point, is_vscode, k + 1);
    } else {
        assert(us.take(k) =~= us);
    }
}

} // verus!
