use vstd::prelude::*;

use crate::lsp::completion_item::{plain_item, CompletionItem, CompletionTextEdit, CompletionTextEditV, ItemV, TextEdit, TextEditV, items_view};
use crate::lsp_helper::{lookup, lookup_file, vars_view};
use crate::point::{p_le, p_lt, Point, Position, Range};
use crate::search::order::idents_view;
use crate::search::order::{ident_order, lemma_ord_ident, ord_ident};
use crate::search::{detail_text, spec_completion_kind, spec_symbol_kind, IdentV, Identifier, IdentifierType, SymbolKind};
use crate::point::{spec_to_range, to_range, to_position2, spec_to_position};
use crate::text::{joined, contains_str, seq_contains, split_by, split_on};
use crate::text::{copy_str, seq_starts_with, starts_with, str_eq};
use vstd::string::StringSliceAdditionalSpecFns;

verus! {

/// A definition of this file that can be completed at `pos`: neither a
/// block nor a template, ending before the cursor, with its scope reaching
/// the cursor.
pub open spec fn eligible(v: IdentV, pos: Point) -> bool {
    &&& v.identifier_type != IdentifierType::TemplateBlock
    &&& v.identifier_type != IdentifierType::JinjaTemplate
    &&& p_le(v.end, pos)
    &&& p_le(pos, v.scope_ends.1)
}

/// The completion of a definition, when what has been typed (`start_item`,
/// over `range`) allows it: every definition when nothing is typed, else
/// those whose name starts with what is typed, with the edit the editor
/// needs.
pub open spec fn typed_item(v: IdentV, start_item: Seq<char>, range: Range, is_vscode: bool) -> Seq<ItemV> {
    let base = plain_item(v.name, detail_text(v.identifier_type), spec_completion_kind(v.identifier_type));
    if start_item.len() == 0 {
        seq![base]
    } else if seq_starts_with(v.name, start_item) {
        if is_vscode {
            seq![ItemV {
                text_edit: Some(CompletionTextEditV::Edit(TextEditV {
                    range: Range { start: range.start, end: range.start },
                    new_text: Seq::empty(),
                })),
                additional_text_edits: Some(seq![TextEditV { range, new_text: start_item }]),
                ..base
            }]
        } else {
            seq![ItemV {
                text_edit: Some(CompletionTextEditV::InsertAndReplace { new_text: v.name, insert: range, replace: range }),
                ..base
            }]
        }
    } else {
        Seq::empty()
    }
}

/// The completions of the file's own definitions, each name once (its first
/// eligible definition decides), skipping the names in `seen`.
pub open spec fn local_items(
    vs: Seq<IdentV>,
    seen: Set<Seq<char>>,
    pos: Point,
    start_item: Seq<char>,
    range: Range,
    is_vscode: bool,
) -> Seq<ItemV>
    decreases vs.len(),
{
    if vs.len() == 0 {
        Seq::empty()
    } else {
        let v = vs[0];
        if !eligible(v, pos) || seen.contains(v.name) {
            local_items(vs.drop_first(), seen, pos, start_item, range, is_vscode)
        } else {
            typed_item(v, start_item, range, is_vscode) + local_items(vs.drop_first(), seen.insert(v.name), pos, start_item, range, is_vscode)
        }
    }
}

/// Every completion of the file's own definitions comes from a definition
/// that can be completed at the cursor: one named by the item's label,
/// neither a block nor a template, not among the names already `seen`,
/// that ends before the cursor and whose scope reaches it.
pub proof fn lemma_local_items_in_scope(
    vs: Seq<IdentV>,
    seen: Set<Seq<char>>,
    pos: Point,
    start_item: Seq<char>,
    range: Range,
    is_vscode: bool,
)
    ensures
        forall|k: int| 0 <= k < local_items(vs, seen, pos, start_item, range, is_vscode).len() ==> exists|i: int|
            0 <= i < vs.len() && (#[trigger] local_items(vs, seen, pos, start_item, range, is_vscode)[k]).label == vs[i].name
                && !seen.contains(vs[i].name)
                && vs[i].identifier_type != IdentifierType::TemplateBlock
                && vs[i].identifier_type != IdentifierType::JinjaTemplate
                && p_le(vs[i].end, pos)
                && p_le(pos, vs[i].scope_ends.1),
    decreases vs.len(),
{
    if vs.len() > 0 {
        let v = vs[0];
        let rest = vs.drop_first();
        let items = local_items(vs, seen, pos, start_item, range, is_vscode);
        if !eligible(v, pos) || seen.contains(v.name) {
            lemma_local_items_in_scope(rest, seen, pos, start_item, range, is_vscode);
            assert(items == local_items(rest, seen, pos, start_item, range, is_vscode));
            assert forall|k: int| 0 <= k < items.len() implies exists|i: int|
                0 <= i < vs.len() && (#[trigger] items[k]).label == vs[i].name && !seen.contains(vs[i].name)
                    && vs[i].identifier_type != IdentifierType::TemplateBlock
                    && vs[i].identifier_type != IdentifierType::JinjaTemplate
                    && p_le(vs[i].end, pos) && p_le(pos, vs[i].scope_ends.1) by {
                let i = choose|i: int|
                    0 <= i < rest.len() && (#[trigger] items[k]).label == rest[i].name && !seen.contains(rest[i].name)
                        && rest[i].identifier_type != IdentifierType::TemplateBlock
                        && rest[i].identifier_type != IdentifierType::JinjaTemplate
                        && p_le(rest[i].end, pos) && p_le(pos, rest[i].scope_ends.1);
                assert(rest[i] == vs[i + 1]);
            }
        } else {
            let seen2 = seen.insert(v.name);
            lemma_local_items_in_scope(rest, seen2, pos, start_item, range, is_vscode);
            let head = typed_item(v, start_item, range, is_vscode);
            let tail = local_items(rest, seen2, pos, start_item, range, is_vscode);
            assert(items == head + tail);
            assert forall|k: int| 0 <= k < items.len() implies exists|i: int|
                0 <= i < vs.len() && (#[trigger] items[k]).label == vs[i].name && !seen.contains(vs[i].name)
                    && vs[i].identifier_type != IdentifierType::TemplateBlock
                    && vs[i].identifier_type != IdentifierType::JinjaTemplate
                    && p_le(vs[i].end, pos) && p_le(pos, vs[i].scope_ends.1) by {
                if k < head.len() {
                    assert(items[k] == head[k]);
                    assert(head[k].label == v.name);
                    assert(vs[0] == v);
                } else {
                    assert(items[k] == tail[k - head.len()]);
                    let i = choose|i: int|
                        0 <= i < rest.len() && (#[trigger] tail[k - head.len()]).label == rest[i].name
                            && !seen2.contains(rest[i].name)
                            && rest[i].identifier_type != IdentifierType::TemplateBlock
                            && rest[i].identifier_type != IdentifierType::JinjaTemplate
                            && p_le(rest[i].end, pos) && p_le(pos, rest[i].scope_ends.1);
                    assert(rest[i] == vs[i + 1]);
                }
            }
        }
    }
}

/// The completions of the backend's variables of one file.
pub open spec fn backend_vars(vs: Seq<IdentV>) -> Seq<ItemV>
    decreases vs.len(),
{
    if vs.len() == 0 {
        Seq::empty()
    } else {
        let rest = backend_vars(vs.drop_last());
        let v = vs.last();
        if v.identifier_type == IdentifierType::BackendVariable {
            rest.push(plain_item(v.name, detail_text(v.identifier_type), spec_completion_kind(v.identifier_type)))
        } else {
            rest
        }
    }
}

/// The completions of the backend's variables of every file, or of the
/// file `only` alone.
pub open spec fn backend_items(files: Seq<(Seq<char>, Seq<IdentV>)>, only: Option<Seq<char>>) -> Seq<ItemV>
    decreases files.len(),
{
    if files.len() == 0 {
        Seq::empty()
    } else {
        let rest = backend_items(files.drop_last(), only);
        if only matches Some(u) && files.last().0 != u {
            rest
        } else {
            rest + backend_vars(files.last().1)
        }
    }
}

/// The plain value of what has been typed and where.
pub open spec fn starting_view(s: Option<(String, Range)>) -> (Seq<char>, Range) {
    match s {
        Some((t, r)) => (t@, r),
        None => (Seq::empty(), Range { start: Position { line: 0, character: 0 }, end: Position { line: 0, character: 0 } }),
    }
}

/// The point of a protocol position.
pub open spec fn point_of(p: Position) -> Point {
    Point { row: p.line as usize, column: p.character as usize }
}

fn typed_item_exec(v: &Identifier, start_item: &str, range: Range, is_vscode: bool, items: &mut Vec<CompletionItem>)
    ensures
        items_view(final(items)@) == items_view(old(items)@) + typed_item(v@, start_item@, range, is_vscode),
{
    let ghost before = items@;
    let mut item = CompletionItem::plain(
        copy_str(v.name.as_str()),
        copy_str(v.identifier_type.completion_detail()),
        v.identifier_type.completion_kind(),
    );
    if start_item.is_empty() {
        items.push(item);
        assert(items_view(items@) =~= items_view(before) + typed_item(v@, start_item@, range, is_vscode));
    } else if starts_with(v.name.as_str(), start_item) {
        if is_vscode {
            let mut edits: Vec<TextEdit> = Vec::new();
            edits.push(TextEdit { range, new_text: copy_str(start_item) });
            item.text_edit = Some(CompletionTextEdit::Edit(TextEdit {
                range: Range { start: range.start, end: range.start },
                new_text: String::new(),
            }));
            assert(edits@.map_values(|e: TextEdit| e@) =~= seq![TextEditV { range, new_text: start_item@ }]);
            item.additional_text_edits = Some(edits);
        } else {
            item.text_edit = Some(CompletionTextEdit::InsertAndReplace {
                new_text: copy_str(v.name.as_str()),
                insert: range,
                replace: range,
            });
        }
        items.push(item);
        assert(items_view(items@) =~= items_view(before) + typed_item(v@, start_item@, range, is_vscode));
    } else {
        assert(items_view(items@) =~= items_view(before) + typed_item(v@, start_item@, range, is_vscode));
    }
}

fn names_contain(names: &Vec<String>, name: &str) -> (b: bool)
    ensures
        b == names@.map_values(|s: String| s@).to_set().contains(name@),
{
    let mut i: usize = 0;
    while i < names.len()
        invariant
            i <= names@.len(),
            forall|j: int| 0 <= j < i ==> names@[j]@ != name@,
        decreases names.len() - i,
    {
        if str_eq(names[i].as_str(), name) {
            assert(names@.map_values(|s: String| s@)[i as int] == name@);
            return true;
        }
        i = i + 1;
    }
    proof {
        let ns = names@.map_values(|s: String| s@);
        if ns.contains(name@) {
            let j = choose|j: int| 0 <= j < ns.len() && ns[j] == name@;
            assert(names@[j]@ == name@);
        }
    }
    false
}

fn backend_vars_exec(vs: &Vec<Identifier>, items: &mut Vec<CompletionItem>)
    ensures
        items_view(final(items)@) == items_view(old(items)@) + backend_vars(idents_view(vs@)),
{
    let ghost start = items_view(items@);
    let ghost v = idents_view(vs@);
    let mut i: usize = 0;
    proof {
        assert(v.take(0) =~= Seq::<IdentV>::empty());
        assert(start + Seq::<ItemV>::empty() =~= start);
    }
    while i < vs.len()
        invariant
            v == idents_view(vs@),
            i <= v.len(),
            items_view(items@) == start + backend_vars(v.take(i as int)),
        decreases vs.len() - i,
    {
        let x = &vs[i];
        proof {
            let t = v.take(i + 1);
            assert(t.drop_last() =~= v.take(i as int));
            assert(t.last() == x@);
        }
        if x.identifier_type == IdentifierType::BackendVariable {
            let ghost prev = items@;
            items.push(CompletionItem::plain(
                copy_str(x.name.as_str()),
                copy_str(x.identifier_type.completion_detail()),
                x.identifier_type.completion_kind(),
            ));
            proof {
                assert(items_view(items@) =~= items_view(prev).push(
                    plain_item(x@.name, detail_text(x@.identifier_type), spec_completion_kind(x@.identifier_type))));
            }
        }
        i = i + 1;
    }
    proof {
        assert(v.take(i as int) =~= v);
    }
}

/// The completions of names at `position` in the file `uri`: the file's own
/// definitions in scope, each name once and filtered by what has been typed,
/// then the variables every backend file hands over (only those of
/// `nodejs_uri`, when it is given).  `None` where the file has no entry.
pub fn read_variables(
    variables: &Vec<(String, Vec<Identifier>)>,
    uri: &str,
    position: Position,
    starting: Option<(String, Range)>,
    nodejs_uri: Option<String>,
    is_vscode: bool,
) -> (r: Option<Vec<CompletionItem>>)
    ensures
        match r {
            Some(items) => lookup(vars_view(variables@), uri@) matches Some(this_file) && items_view(items@) == local_items(
                this_file,
                Set::empty(),
                point_of(position),
                starting_view(starting).0,
                starting_view(starting).1,
                is_vscode,
            ) + backend_items(vars_view(variables@), match nodejs_uri { Some(u) => Some(u@), None => None }),
            None => lookup(vars_view(variables@), uri@) is None,
        },
{
    let pos = Point { row: position.line as usize, column: position.character as usize };
    let this_file = lookup_file(variables, uri)?;
    let ghost tf = idents_view(this_file@);
    let (start_item, incomplete_range) = match starting {
        Some((s, r)) => (s, r),
        None => (String::new(), Range::new(Position::new(0, 0), Position::new(0, 0))),
    };
    let mut items: Vec<CompletionItem> = Vec::new();
    let mut names: Vec<String> = Vec::new();
    let mut i: usize = 0;
    proof {
        assert(tf.skip(0) =~= tf);
        assert(names@.map_values(|s: String| s@).to_set() =~= Set::<Seq<char>>::empty());
        assert(items_view(items@) =~= Seq::<ItemV>::empty());
    }
    while i < this_file.len()
        invariant
            tf == idents_view(this_file@),
            i <= tf.len(),
            items_view(items@) + local_items(tf.skip(i as int), names@.map_values(|s: String| s@).to_set(), pos,
                start_item@, incomplete_range, is_vscode)
                == local_items(tf, Set::empty(), pos, start_item@, incomplete_range, is_vscode),
        decreases this_file.len() - i,
    {
        let v = &this_file[i];
        let ghost seen = names@.map_values(|s: String| s@).to_set();
        proof {
            assert(tf.skip(i as int)[0] == v@);
            assert(tf.skip(i as int).drop_first() =~= tf.skip(i + 1));
        }
        let eligible_now = v.identifier_type != IdentifierType::TemplateBlock
            && v.identifier_type != IdentifierType::JinjaTemplate && v.end.le(&pos) && pos.le(&v.scope_ends.1);
        if eligible_now && !names_contain(&names, v.name.as_str()) {
            let ghost before = items_view(items@);
            let ghost nb = names@;
            names.push(copy_str(v.name.as_str()));
            proof {
                assert(names@.map_values(|s: String| s@) =~= nb.map_values(|s: String| s@).push(v@.name));
                broadcast use vstd::seq_lib::group_seq_properties;
                assert(names@.map_values(|s: String| s@).to_set() =~= seen.insert(v@.name));
            }
            typed_item_exec(v, start_item.as_str(), incomplete_range, is_vscode, &mut items);
            proof {
                assert(items_view(items@) + local_items(tf.skip(i + 1), seen.insert(v@.name), pos, start_item@, incomplete_range, is_vscode)
                    =~= before + (typed_item(v@, start_item@, incomplete_range, is_vscode)
                        + local_items(tf.skip(i + 1), seen.insert(v@.name), pos, start_item@, incomplete_range, is_vscode)));
            }
        }
        i = i + 1;
    }
    proof {
        assert(tf.skip(i as int).len() == 0);
        assert(items_view(items@) + Seq::<ItemV>::empty() =~= items_view(items@));
    }
    let ghost local = items_view(items@);
    let is_nodejs = nodejs_uri.is_some();
    let only = match nodejs_uri {
        Some(u) => u,
        None => String::new(),
    };
    let ghost vv = vars_view(variables@);
    let ghost only_v: Option<Seq<char>> = if is_nodejs { Some(only@) } else { None };
    let mut f: usize = 0;
    proof {
        assert(vv.take(0) =~= Seq::<(Seq<char>, Seq<IdentV>)>::empty());
        assert(local + Seq::<ItemV>::empty() =~= local);
    }
    while f < variables.len()
        invariant
            vv == vars_view(variables@),
            f <= vv.len(),
            only_v == (if is_nodejs { Some(only@) } else { None::<Seq<char>> }),
            items_view(items@) == local + backend_items(vv.take(f as int), only_v),
        decreases variables.len() - f,
    {
        proof {
            let t = vv.take(f + 1);
            assert(t.drop_last() =~= vv.take(f as int));
            assert(t.last() == vv[f as int]);
            assert(vv[f as int] == (variables@[f as int].0@, idents_view(variables@[f as int].1@)));
        }
        if !(is_nodejs && !str_eq(variables[f].0.as_str(), only.as_str())) {
            let ghost before = items_view(items@);
            backend_vars_exec(&variables[f].1, &mut items);
            proof {
                assert(items_view(items@) =~= local + (backend_items(vv.take(f as int), only_v)
                    + backend_vars(idents_view(variables@[f as int].1@))));
            }
        }
        f = f + 1;
    }
    proof {
        assert(vv.take(f as int) =~= vv);
    }
    Some(items)
}

/// A definition of `name` whose span starts no later than `point` and whose
/// scope reaches it.
pub open spec fn reaches(v: IdentV, name: Seq<char>, point: Point) -> bool {
    v.name == name && p_le(v.start, point) && p_le(point, v.scope_ends.1)
}

/// The greatest definition of `name` that reaches `point`, in the order of
/// identifiers: the one a name at `point` refers to.
pub fn local_definition<'a>(this_file: &'a Vec<Identifier>, name: &str, point: Point) -> (r: Option<&'a Identifier>)
    ensures
        match r {
            Some(d) => (exists|i: int| 0 <= i < this_file@.len() && this_file@[i]@ == d@) && reaches(d@, name@, point)
                && forall|i: int| 0 <= i < this_file@.len() && reaches(#[trigger] this_file@[i]@, name@, point)
                    ==> ord_ident(this_file@[i]@, d@) <= 0,
            None => forall|i: int| 0 <= i < this_file@.len() ==> !reaches(#[trigger] this_file@[i]@, name@, point),
        },
{
    let mut best: Option<usize> = None;
    let mut i: usize = 0;
    while i < this_file.len()
        invariant
            i <= this_file@.len(),
            match best {
                Some(b) => b < i && reaches(this_file@[b as int]@, name@, point)
                    && forall|j: int| 0 <= j < i && reaches(#[trigger] this_file@[j]@, name@, point)
                        ==> ord_ident(this_file@[j]@, this_file@[b as int]@) <= 0,
                None => forall|j: int| 0 <= j < i ==> !reaches(#[trigger] this_file@[j]@, name@, point),
            },
        decreases this_file.len() - i,
    {
        let v = &this_file[i];
        if str_eq(v.name.as_str(), name) && v.start.le(&point) && point.le(&v.scope_ends.1) {
            match best {
                Some(b) => {
                    if ident_order(v, &this_file[b]) >= 0 {
                        proof {
                            assert forall|j: int| 0 <= j < i + 1 && reaches(#[trigger] this_file@[j]@, name@, point)
                                implies ord_ident(this_file@[j]@, this_file@[i as int]@) <= 0 by {
                                lemma_ord_ident(this_file@[i as int]@, this_file@[b as int]@);
                                lemma_ord_ident(this_file@[j]@, this_file@[i as int]@);
                                if j < i {
                                    crate::search::order::lemma_ord_ident_trans(this_file@[j]@, this_file@[b as int]@, this_file@[i as int]@);
                                }
                            }
                        }
                        best = Some(i);
                    }
                },
                None => {
                    proof {
                        lemma_ord_ident(this_file@[i as int]@, this_file@[i as int]@);
                    }
                    best = Some(i);
                },
            }
        }
        i = i + 1;
    }
    match best {
        Some(b) => Some(&this_file[b]),
        None => None,
    }
}

/// A definition of `name` whose span starts no later than `point`, wherever
/// its scope ends.
pub open spec fn starts_before(v: IdentV, name: Seq<char>, point: Point) -> bool {
    v.name == name && p_le(v.start, point)
}

/// The greatest definition of `name` that starts no later than `point`, in
/// the order of identifiers: the one the older server takes a name at
/// `point` to refer to.
pub fn latest_definition<'a>(this_file: &'a Vec<Identifier>, name: &str, point: Point) -> (r: Option<&'a Identifier>)
    ensures
        match r {
            Some(d) => (exists|i: int| 0 <= i < this_file@.len() && this_file@[i]@ == d@) && starts_before(d@, name@, point)
                && forall|i: int| 0 <= i < this_file@.len() && starts_before(#[trigger] this_file@[i]@, name@, point)
                    ==> ord_ident(this_file@[i]@, d@) <= 0,
            None => forall|i: int| 0 <= i < this_file@.len() ==> !starts_before(#[trigger] this_file@[i]@, name@, point),
        },
{
    let mut best: Option<usize> = None;
    let mut i: usize = 0;
    while i < this_file.len()
        invariant
            i <= this_file@.len(),
            match best {
                Some(b) => b < i && starts_before(this_file@[b as int]@, name@, point)
                    && forall|j: int| 0 <= j < i && starts_before(#[trigger] this_file@[j]@, name@, point)
                        ==> ord_ident(this_file@[j]@, this_file@[b as int]@) <= 0,
                None => forall|j: int| 0 <= j < i ==> !starts_before(#[trigger] this_file@[j]@, name@, point),
            },
        decreases this_file.len() - i,
    {
        let v = &this_file[i];
        if str_eq(v.name.as_str(), name) && v.start.le(&point) {
            match best {
                Some(b) => {
                    if ident_order(v, &this_file[b]) >= 0 {
                        proof {
                            assert forall|j: int| 0 <= j < i + 1 && starts_before(#[trigger] this_file@[j]@, name@, point)
                                implies ord_ident(this_file@[j]@, this_file@[i as int]@) <= 0 by {
                                lemma_ord_ident(this_file@[i as int]@, this_file@[b as int]@);
                                lemma_ord_ident(this_file@[j]@, this_file@[i as int]@);
                                if j < i {
                                    crate::search::order::lemma_ord_ident_trans(this_file@[j]@, this_file@[b as int]@, this_file@[i as int]@);
                                }
                            }
                        }
                        best = Some(i);
                    }
                },
                None => {
                    proof {
                        lemma_ord_ident(this_file@[i as int]@, this_file@[i as int]@);
                    }
                    best = Some(i);
                },
            }
        }
        i = i + 1;
    }
    match best {
        Some(b) => Some(&this_file[b]),
        None => None,
    }
}

/// The definitions named exactly `name` in every file, file after file,
/// each as the file's address and its span.
pub open spec fn named_places(files: Seq<(Seq<char>, Seq<IdentV>)>, name: Seq<char>) -> Seq<(Seq<char>, Range)>
    decreases files.len(),
{
    if files.len() == 0 {
        Seq::empty()
    } else {
        named_places(files.drop_last(), name) + file_named(files.last().0, files.last().1, name)
    }
}

/// The definitions of one file named exactly `name`.
pub open spec fn file_named(file: Seq<char>, vs: Seq<IdentV>, name: Seq<char>) -> Seq<(Seq<char>, Range)>
    decreases vs.len(),
{
    if vs.len() == 0 {
        Seq::empty()
    } else if vs.last().name == name {
        file_named(file, vs.drop_last(), name).push((file, spec_to_range((vs.last().start, vs.last().end))))
    } else {
        file_named(file, vs.drop_last(), name)
    }
}

/// The places in every file that define `name` exactly.
pub fn named_definitions(variables: &Vec<(String, Vec<Identifier>)>, name: &str) -> (r: Vec<(String, Range)>)
    ensures
        places_view(r@) == named_places(vars_view(variables@), name@),
{
    let ghost vv = vars_view(variables@);
    let mut out: Vec<(String, Range)> = Vec::new();
    let mut f: usize = 0;
    proof {
        assert(vv.take(0) =~= Seq::<(Seq<char>, Seq<IdentV>)>::empty());
        assert(places_view(out@) =~= Seq::<(Seq<char>, Range)>::empty());
    }
    while f < variables.len()
        invariant
            vv == vars_view(variables@),
            f <= vv.len(),
            places_view(out@) == named_places(vv.take(f as int), name@),
        decreases variables.len() - f,
    {
        let file = variables[f].0.as_str();
        let vs = &variables[f].1;
        let ghost v = idents_view(vs@);
        let ghost start = places_view(out@);
        proof {
            let t = vv.take(f + 1);
            assert(t.drop_last() =~= vv.take(f as int));
            assert(t.last() == vv[f as int]);
            assert(v.take(0) =~= Seq::<IdentV>::empty());
            assert(start + Seq::<(Seq<char>, Range)>::empty() =~= start);
        }
        let mut i: usize = 0;
        while i < vs.len()
            invariant
                vv == vars_view(variables@),
                f < vv.len(),
                file@ == vv[f as int].0,
                v == vv[f as int].1,
                v == idents_view(vs@),
                i <= v.len(),
                places_view(out@) == start + file_named(file@, v.take(i as int), name@),
            decreases vs.len() - i,
        {
            let x = &vs[i];
            proof {
                let t = v.take(i + 1);
                assert(t.drop_last() =~= v.take(i as int));
                assert(t.last() == x@);
            }
            if str_eq(x.name.as_str(), name) {
                let ghost prev = out@;
                out.push((copy_str(file), to_range((x.start, x.end))));
                proof {
                    assert(places_view(out@) =~= places_view(prev).push((file@, spec_to_range((x@.start, x@.end)))));
                }
            }
            i = i + 1;
        }
        proof {
            assert(v.take(i as int) =~= v);
        }
        f = f + 1;
    }
    proof {
        assert(vv.take(f as int) =~= vv);
    }
    out
}

/// The first piece of a dotted name.
pub open spec fn head_name(name: Seq<char>) -> Seq<char> {
    split_on(name, '.')[0]
}

/// The first piece of a dotted name.
pub fn head_of(name: &str) -> (r: String)
    ensures
        r@ == head_name(name@),
{
    let mut parts = split_by(name, '.');
    proof {
        crate::text::lemma_split_nonempty(name@, '.');
    }
    parts.swap_remove(0)
}

/// A place in a file: the file's address and a range in it.
pub open spec fn place(uri: Seq<char>, v: IdentV) -> (Seq<char>, Range) {
    (uri, spec_to_range((v.start, v.end)))
}

/// The address of a definition in `file`: definitions with no span (at the
/// start of the document) are told apart by their name.
pub open spec fn definition_uri(file: Seq<char>, v: IdentV) -> Seq<char> {
    if v.start == (Point { row: 0, column: 0 }) && v.end == (Point { row: 0, column: 0 }) {
        file + "-"@ + v.name
    } else {
        file
    }
}

/// The definitions in the other files whose dotted name begins with `name`,
/// file after file.
pub open spec fn global_places(files: Seq<(Seq<char>, Seq<IdentV>)>, uri: Seq<char>, name: Seq<char>) -> Seq<(Seq<char>, Range)>
    decreases files.len(),
{
    if files.len() == 0 {
        Seq::empty()
    } else {
        let rest = global_places(files.drop_last(), uri, name);
        let f = files.last();
        if f.0 == uri {
            rest
        } else {
            rest + file_places(f.0, f.1, name)
        }
    }
}

/// The definitions of one file whose dotted name begins with `name`.
pub open spec fn file_places(file: Seq<char>, vs: Seq<IdentV>, name: Seq<char>) -> Seq<(Seq<char>, Range)>
    decreases vs.len(),
{
    if vs.len() == 0 {
        Seq::empty()
    } else {
        let rest = file_places(file, vs.drop_last(), name);
        let v = vs.last();
        if head_name(v.name) == name {
            rest.push((definition_uri(file, v), spec_to_range((v.start, v.end))))
        } else {
            rest
        }
    }
}

/// The plain values of a list of places.
pub open spec fn places_view(s: Seq<(String, Range)>) -> Seq<(Seq<char>, Range)> {
    s.map_values(|p: (String, Range)| (p.0@, p.1))
}

fn file_places_exec(file: &str, vs: &Vec<Identifier>, name: &str, out: &mut Vec<(String, Range)>)
    ensures
        places_view(final(out)@) == places_view(old(out)@) + file_places(file@, idents_view(vs@), name@),
{
    proof {
        reveal_strlit("-");
    }
    let ghost start = places_view(out@);
    let ghost v = idents_view(vs@);
    let mut i: usize = 0;
    proof {
        assert(v.take(0) =~= Seq::<IdentV>::empty());
        assert(start + Seq::<(Seq<char>, Range)>::empty() =~= start);
    }
    while i < vs.len()
        invariant
            v == idents_view(vs@),
            i <= v.len(),
            places_view(out@) == start + file_places(file@, v.take(i as int), name@),
        decreases vs.len() - i,
    {
        let x = &vs[i];
        proof {
            let t = v.take(i + 1);
            assert(t.drop_last() =~= v.take(i as int));
            assert(t.last() == x@);
        }
        let head = head_of(x.name.as_str());
        if str_eq(head.as_str(), name) {
            let uri = if x.start.same(&Point::zero()) && x.end.same(&Point::zero()) {
                let a = joined(file, "-");
                joined(a.as_str(), x.name.as_str())
            } else {
                copy_str(file)
            };
            let ghost prev = out@;
            out.push((uri, to_range((x.start, x.end))));
            proof {
                assert(places_view(out@) =~= places_view(prev).push((definition_uri(file@, x@), spec_to_range((x@.start, x@.end)))));
            }
        }
        i = i + 1;
    }
    proof {
        assert(v.take(i as int) =~= v);
    }
}

/// The places in the other files that define a name: every definition whose
/// dotted name begins with it.
pub fn global_definitions(variables: &Vec<(String, Vec<Identifier>)>, uri: &str, name: &str) -> (r: Vec<(String, Range)>)
    ensures
        places_view(r@) == global_places(vars_view(variables@), uri@, name@),
{
    let ghost vv = vars_view(variables@);
    let mut out: Vec<(String, Range)> = Vec::new();
    let mut f: usize = 0;
    proof {
        assert(vv.take(0) =~= Seq::<(Seq<char>, Seq<IdentV>)>::empty());
        assert(places_view(out@) =~= Seq::<(Seq<char>, Range)>::empty());
    }
    while f < variables.len()
        invariant
            vv == vars_view(variables@),
            f <= vv.len(),
            places_view(out@) == global_places(vv.take(f as int), uri@, name@),
        decreases variables.len() - f,
    {
        proof {
            let t = vv.take(f + 1);
            assert(t.drop_last() =~= vv.take(f as int));
            assert(t.last() == vv[f as int]);
        }
        if !str_eq(variables[f].0.as_str(), uri) {
            file_places_exec(variables[f].0.as_str(), &variables[f].1, name, &mut out);
        }
        f = f + 1;
    }
    proof {
        assert(vv.take(f as int) =~= vv);
    }
    out
}

/// A definition of the file that a hovered name may refer to: not a block,
/// ending no later than the name starts, with its scope reaching it, and of
/// the same name.
pub open spec fn hovered_by(v: IdentV, hover: IdentV) -> bool {
    v.identifier_type != IdentifierType::TemplateBlock && p_le(v.end, hover.start) && p_le(hover.start, v.scope_ends.1)
        && v.name == hover.name
}

/// Some other file defines a name whose dotted form begins with `name`.
pub open spec fn defined_elsewhere(files: Seq<(Seq<char>, Seq<IdentV>)>, uri: Seq<char>, name: Seq<char>) -> bool {
    exists|f: int, i: int| 0 <= f < files.len() && files[f].0 != uri && 0 <= i < files[f].1.len()
        && head_name(#[trigger] files[f].1[i].name) == name
}

/// What a hovered name stands for: the kind of the greatest definition of
/// the file it may refer to; else a backend variable when another file
/// defines it; else nothing.
pub fn data_type(variables: &Vec<(String, Vec<Identifier>)>, uri: &str, hover: &Identifier) -> (r: Option<IdentifierType>)
    ensures
        lookup(vars_view(variables@), uri@) is None ==> r is None,
        lookup(vars_view(variables@), uri@) matches Some(this_file) ==> {
            if exists|i: int| 0 <= i < this_file.len() && hovered_by(#[trigger] this_file[i], hover@) {
                exists|i: int| 0 <= i < this_file.len() && hovered_by(#[trigger] this_file[i], hover@)
                    && r == Some(this_file[i].identifier_type)
                    && forall|j: int| 0 <= j < this_file.len() && hovered_by(#[trigger] this_file[j], hover@)
                        ==> ord_ident(this_file[j], this_file[i]) <= 0
            } else if defined_elsewhere(vars_view(variables@), uri@, hover@.name) {
                r == Some(IdentifierType::BackendVariable)
            } else {
                r is None
            }
        },
{
    let this_file = lookup_file(variables, uri)?;
    let ghost tf = idents_view(this_file@);
    let mut best: Option<usize> = None;
    let mut i: usize = 0;
    while i < this_file.len()
        invariant
            tf == idents_view(this_file@),
            i <= tf.len(),
            match best {
                Some(b) => b < i && hovered_by(tf[b as int], hover@)
                    && forall|j: int| 0 <= j < i && hovered_by(#[trigger] tf[j], hover@) ==> ord_ident(tf[j], tf[b as int]) <= 0,
                None => forall|j: int| 0 <= j < i ==> !hovered_by(#[trigger] tf[j], hover@),
            },
        decreases this_file.len() - i,
    {
        let v = &this_file[i];
        assert(tf[i as int] == v@);
        if v.identifier_type != IdentifierType::TemplateBlock && v.end.le(&hover.start) && hover.start.le(&v.scope_ends.1)
            && str_eq(hover.name.as_str(), v.name.as_str()) {
            match best {
                Some(b) => {
                    if ident_order(v, &this_file[b]) >= 0 {
                        proof {
                            assert forall|j: int| 0 <= j < i + 1 && hovered_by(#[trigger] tf[j], hover@)
                                implies ord_ident(tf[j], tf[i as int]) <= 0 by {
                                lemma_ord_ident(tf[i as int], tf[b as int]);
                                lemma_ord_ident(tf[j], tf[i as int]);
                                if j < i {
                                    crate::search::order::lemma_ord_ident_trans(tf[j], tf[b as int], tf[i as int]);
                                }
                            }
                        }
                        best = Some(i);
                    }
                },
                None => {
                    proof {
                        lemma_ord_ident(tf[i as int], tf[i as int]);
                    }
                    best = Some(i);
                },
            }
        }
        i = i + 1;
    }
    if let Some(b) = best {
        return Some(this_file[b].identifier_type);
    }
    let ghost vv = vars_view(variables@);
    let mut f: usize = 0;
    while f < variables.len()
        invariant
            vv == vars_view(variables@),
            lookup(vv, uri@) == Some(tf),
            forall|j: int| 0 <= j < tf.len() ==> !hovered_by(#[trigger] tf[j], hover@),
            f <= vv.len(),
            forall|g: int, k: int| 0 <= g < f && vv[g].0 != uri@ && 0 <= k < vv[g].1.len()
                ==> head_name(#[trigger] vv[g].1[k].name) != hover@.name,
        decreases variables.len() - f,
    {
        assert(vv[f as int] == (variables@[f as int].0@, idents_view(variables@[f as int].1@)));
        if !str_eq(variables[f].0.as_str(), uri) {
            let vs = &variables[f].1;
            let mut k: usize = 0;
            while k < vs.len()
                invariant
                    vv == vars_view(variables@),
                    lookup(vv, uri@) == Some(tf),
                    forall|j: int| 0 <= j < tf.len() ==> !hovered_by(#[trigger] tf[j], hover@),
                    f < vv.len(),
                    vv[f as int].0 != uri@,
                    vs == variables@[f as int].1,
                    vv[f as int].1 == idents_view(vs@),
                    k <= vs@.len(),
                    forall|m: int| 0 <= m < k ==> head_name(#[trigger] vv[f as int].1[m].name) != hover@.name,
                decreases vs.len() - k,
            {
                assert(vv[f as int].1[k as int] == vs@[k as int]@);
                let head = head_of(vs[k].name.as_str());
                if str_eq(head.as_str(), hover.name.as_str()) {
                    proof {
                        assert(head_name(vv[f as int].1[k as int].name) == hover@.name);
                        assert(defined_elsewhere(vv, uri@, hover@.name));
                    }
                    return Some(IdentifierType::BackendVariable);
                }
                k = k + 1;
            }
        }
        f = f + 1;
    }
    None
}

/// A named thing of a document, as the editor lists it.
#[derive(Debug)]
pub struct DocumentSymbol {
    pub name: String,
    pub kind: SymbolKind,
    pub range: Range,
    pub selection_range: Range,
}

/// The symbol of a definition.
pub open spec fn symbol_of(v: IdentV) -> (Seq<char>, SymbolKind, Range, Range) {
    (v.name, spec_symbol_kind(v.identifier_type), spec_to_range((v.start, v.end)), spec_to_range((v.start, v.end)))
}

/// The plain values of a symbol.
pub open spec fn symbol_view(s: DocumentSymbol) -> (Seq<char>, SymbolKind, Range, Range) {
    (s.name@, s.kind, s.range, s.selection_range)
}

/// The symbols of the file `uri`: one for each of its definitions, in
/// order.  `None` where the file has no entry.
pub fn document_symbols(variables: &Vec<(String, Vec<Identifier>)>, uri: &str) -> (r: Option<Vec<DocumentSymbol>>)
    ensures
        match r {
            Some(v) => lookup(vars_view(variables@), uri@) matches Some(tf)
                && v@.map_values(|s: DocumentSymbol| symbol_view(s)) == tf.map_values(|x: IdentV| symbol_of(x)),
            None => lookup(vars_view(variables@), uri@) is None,
        },
{
    let vs = lookup_file(variables, uri)?;
    let ghost tf = idents_view(vs@);
    let mut symbols: Vec<DocumentSymbol> = Vec::new();
    let mut i: usize = 0;
    while i < vs.len()
        invariant
            tf == idents_view(vs@),
            i <= tf.len(),
            symbols@.map_values(|s: DocumentSymbol| symbol_view(s)) == tf.take(i as int).map_values(|x: IdentV| symbol_of(x)),
        decreases vs.len() - i,
    {
        let v = &vs[i];
        let ghost prev = symbols@;
        symbols.push(DocumentSymbol {
            name: copy_str(v.name.as_str()),
            kind: v.identifier_type.symbol_kind(),
            range: to_range((v.start, v.end)),
            selection_range: to_range((v.start, v.end)),
        });
        proof {
            assert(tf[i as int] == v@);
            assert(symbols@.map_values(|s: DocumentSymbol| symbol_view(s))
                =~= prev.map_values(|s: DocumentSymbol| symbol_view(s)).push(symbol_of(v@)));
            assert(tf.take(i + 1).map_values(|x: IdentV| symbol_of(x))
                =~= tf.take(i as int).map_values(|x: IdentV| symbol_of(x)).push(symbol_of(tf[i as int])));
        }
        i = i + 1;
    }
    proof {
        assert(tf.take(i as int) =~= tf);
    }
    Some(symbols)
}

/// The names of the identifiers that contain `prefix`, in order.
pub open spec fn names_with(vs: Seq<IdentV>, prefix: Seq<char>) -> Seq<Seq<char>>
    decreases vs.len(),
{
    if vs.len() == 0 {
        Seq::empty()
    } else if seq_contains(vs.last().name, prefix) {
        names_with(vs.drop_last(), prefix).push(vs.last().name)
    } else {
        names_with(vs.drop_last(), prefix)
    }
}

fn names_with_exec(vs: &Vec<Identifier>, prefix: &str, out: &mut Vec<String>)
    ensures
        final(out)@.map_values(|s: String| s@) == old(out)@.map_values(|s: String| s@) + names_with(idents_view(vs@), prefix@),
{
    let ghost start = out@.map_values(|s: String| s@);
    let ghost v = idents_view(vs@);
    let mut i: usize = 0;
    proof {
        assert(v.take(0) =~= Seq::<IdentV>::empty());
        assert(start + Seq::<Seq<char>>::empty() =~= start);
    }
    while i < vs.len()
        invariant
            v == idents_view(vs@),
            i <= v.len(),
            out@.map_values(|s: String| s@) == start + names_with(v.take(i as int), prefix@),
        decreases vs.len() - i,
    {
        proof {
            let t = v.take(i + 1);
            assert(t.drop_last() =~= v.take(i as int));
            assert(t.last() == vs@[i as int]@);
        }
        if contains_str(vs[i].name.as_str(), prefix) {
            let ghost prev = out@;
            out.push(copy_str(vs[i].name.as_str()));
            proof {
                assert(out@.map_values(|s: String| s@) =~= prev.map_values(|s: String| s@).push(vs@[i as int].name@));
            }
        }
        i = i + 1;
    }
    proof {
        assert(v.take(i as int) =~= v);
    }
}

/// The names that contain `prefix`: those of the file `id` first, then
/// those of `file_name`, if it has an entry.  `None` where `id` has none.
pub fn get_variable(variables: &Vec<(String, Vec<Identifier>)>, prefix: &str, id: &str, file_name: &str) -> (r: Option<Vec<String>>)
    ensures
        match r {
            Some(v) => lookup(vars_view(variables@), id@) matches Some(a) && v@.map_values(|s: String| s@)
                == names_with(a, prefix@) + match lookup(vars_view(variables@), file_name@) {
                    Some(b) => names_with(b, prefix@),
                    None => Seq::empty(),
                },
            None => lookup(vars_view(variables@), id@) is None,
        },
{
    let mut v: Vec<String> = Vec::new();
    let first = lookup_file(variables, id)?;
    proof {
        assert(v@.map_values(|s: String| s@) =~= Seq::<Seq<char>>::empty());
    }
    names_with_exec(first, prefix, &mut v);
    proof {
        assert(Seq::<Seq<char>>::empty() + names_with(idents_view(first@), prefix@) =~= names_with(idents_view(first@), prefix@));
    }
    match lookup_file(variables, file_name) {
        Some(second) => names_with_exec(second, prefix, &mut v),
        None => {
            assert(v@.map_values(|s: String| s@) + Seq::<Seq<char>>::empty() =~= v@.map_values(|s: String| s@));
        },
    }
    Some(v)
}

/// What a code action does.
#[derive(Debug)]
pub enum JinjaCodeAction {
    Reset,
    CreateTemplate(String),
}

/// The template to create at `point`: the name of the first missing
/// template whose span holds it.
pub fn create_template_action(code_actions: &Vec<Identifier>, point: Point) -> (r: Option<JinjaCodeAction>)
    ensures
        match r {
            Some(JinjaCodeAction::CreateTemplate(name)) => exists|i: int|
                0 <= i < code_actions@.len() && p_le((#[trigger] code_actions@[i]).start, point)
                    && p_le(point, code_actions@[i].end) && name@ == code_actions@[i].name@
                    && forall|j: int| 0 <= j < i ==> !(p_le((#[trigger] code_actions@[j]).start, point)
                        && p_le(point, code_actions@[j].end)),
            Some(JinjaCodeAction::Reset) => false,
            None => forall|i: int| 0 <= i < code_actions@.len() ==> !(p_le((#[trigger] code_actions@[i]).start, point)
                && p_le(point, code_actions@[i].end)),
        },
{
    let mut i: usize = 0;
    while i < code_actions.len()
        invariant
            i <= code_actions@.len(),
            forall|j: int| 0 <= j < i ==> !(p_le((#[trigger] code_actions@[j]).start, point)
                && p_le(point, code_actions@[j].end)),
        decreases code_actions.len() - i,
    {
        let item = &code_actions[i];
        if item.start.le(&point) && point.le(&item.end) {
            return Some(JinjaCodeAction::CreateTemplate(copy_str(item.name.as_str())));
        }
        i = i + 1;
    }
    None
}

/// The commands offered inside an expression: a title and a command each.
pub open spec fn reset_command_table() -> Seq<(Seq<char>, Seq<char>)> {
    seq![("Reset variables"@, "reset_variables"@), ("Warn about unused"@, "warn"@)]
}

/// The commands offered inside an expression.
pub fn reset_commands() -> (r: Vec<(String, String)>)
    ensures
        r@.map_values(|c: (String, String)| (c.0@, c.1@)) == reset_command_table(),
{
    let mut r: Vec<(String, String)> = Vec::new();
    r.push((copy_str("Reset variables"), copy_str("reset_variables")));
    r.push((copy_str("Warn about unused"), copy_str("warn")));
    assert(r@.map_values(|c: (String, String)| (c.0@, c.1@)) =~= reset_command_table());
    r
}

/// The index of the first entry named `k`, or -1.
pub open spec fn entry_index(m: Seq<(Seq<char>, Seq<IdentV>)>, k: Seq<char>) -> int
    decreases m.len(),
{
    if m.len() == 0 {
        -1
    } else {
        let r = entry_index(m.drop_last(), k);
        if r >= 0 {
            r
        } else if m.last().0 == k {
            m.len() - 1
        } else {
            -1
        }
    }
}

/// The entries after the entry `(k, v)` is set: the first entry named `k`
/// takes `v`, or a new entry is added at the end.
pub open spec fn entry_set(m: Seq<(Seq<char>, Seq<IdentV>)>, k: Seq<char>, v: Seq<IdentV>) -> Seq<(Seq<char>, Seq<IdentV>)> {
    let i = entry_index(m, k);
    if i >= 0 {
        m.update(i, (k, v))
    } else {
        m.push((k, v))
    }
}

/// The entries after each new entry is set in turn.
pub open spec fn entries_set(m: Seq<(Seq<char>, Seq<IdentV>)>, new: Seq<(Seq<char>, Seq<IdentV>)>) -> Seq<(Seq<char>, Seq<IdentV>)>
    decreases new.len(),
{
    if new.len() == 0 {
        m
    } else {
        let e = new.last();
        entry_set(entries_set(m, new.drop_last()), e.0, e.1)
    }
}

proof fn lemma_entry_index(m: Seq<(Seq<char>, Seq<IdentV>)>, k: Seq<char>, i: int)
    requires
        -1 <= i < m.len(),
        forall|j: int| 0 <= j < m.len() && (i < 0 || j < i) ==> (#[trigger] m[j]).0 != k,
        i >= 0 ==> m[i].0 == k,
    ensures
        entry_index(m, k) == i,
    decreases m.len(),
{
    if m.len() > 0 {
        if i == m.len() - 1 {
            lemma_entry_index(m.drop_last(), k, -1);
        } else {
            lemma_entry_index(m.drop_last(), k, i);
        }
    }
}

/// No two entries are of the same file.
pub open spec fn distinct_files(m: Seq<(Seq<char>, Seq<IdentV>)>) -> bool {
    forall|i: int, j: int| 0 <= i < j < m.len() ==> (#[trigger] m[i]).0 != (#[trigger] m[j]).0
}

/// `entry_index` finds the first entry named `k`, or tells that none is.
proof fn lemma_entry_index_first(m: Seq<(Seq<char>, Seq<IdentV>)>, k: Seq<char>)
    ensures
        -1 <= entry_index(m, k) < m.len(),
        entry_index(m, k) >= 0 ==> m[entry_index(m, k)].0 == k,
        forall|j: int| 0 <= j < m.len() && (entry_index(m, k) < 0 || j < entry_index(m, k)) ==> (#[trigger] m[j]).0 != k,
    decreases m.len(),
{
    if m.len() > 0 {
        lemma_entry_index_first(m.drop_last(), k);
        assert forall|j: int| 0 <= j < m.len() - 1 implies #[trigger] m[j] == m.drop_last()[j] by {}
    }
}

/// `lookup` gives the entry at `i` where the first entry named `k` is at
/// `i`, and nothing where no entry is named `k` (`i` is -1).
proof fn lemma_lookup_at(m: Seq<(Seq<char>, Seq<IdentV>)>, k: Seq<char>, i: int)
    requires
        -1 <= i < m.len(),
        i >= 0 ==> m[i].0 == k,
        forall|j: int| 0 <= j < m.len() && (i < 0 || j < i) ==> (#[trigger] m[j]).0 != k,
    ensures
        lookup(m, k) == (if i >= 0 { Some(m[i].1) } else { None::<Seq<IdentV>> }),
    decreases m.len(),
{
    if m.len() > 0 && i != 0 {
        let r = m.drop_first();
        assert forall|j: int| 0 <= j < r.len() implies #[trigger] r[j] == m[j + 1] by {}
        assert(m[0].0 != k);
        if i > 0 {
            assert forall|j: int| 0 <= j < r.len() && j < i - 1 implies (#[trigger] r[j]).0 != k by {
                assert(m[j + 1].0 != k);
            }
            lemma_lookup_at(r, k, i - 1);
        } else {
            assert forall|j: int| 0 <= j < r.len() implies (#[trigger] r[j]).0 != k by {
                assert(m[j + 1].0 != k);
            }
            lemma_lookup_at(r, k, -1);
        }
    }
}

/// Setting the entry of file `k` to `v`: looking `k` up then gives `v`,
/// looking up any other file gives what it gave before, and entries that
/// were each of another file stay so.
pub proof fn lemma_entry_set_found(m: Seq<(Seq<char>, Seq<IdentV>)>, k: Seq<char>, v: Seq<IdentV>)
    ensures
        lookup(entry_set(m, k, v), k) == Some(v),
        forall|k2: Seq<char>| k2 != k ==> #[trigger] lookup(entry_set(m, k, v), k2) == lookup(m, k2),
        distinct_files(m) ==> distinct_files(entry_set(m, k, v)),
{
    let n = entry_set(m, k, v);
    let i = entry_index(m, k);
    lemma_entry_index_first(m, k);
    if i >= 0 {
        lemma_lookup_at(n, k, i);
    } else {
        lemma_lookup_at(n, k, m.len() as int);
    }
    assert forall|k2: Seq<char>| k2 != k implies #[trigger] lookup(entry_set(m, k, v), k2) == lookup(m, k2) by {
        lemma_entry_index_first(m, k2);
        let i2 = entry_index(m, k2);
        lemma_lookup_at(m, k2, i2);
        assert forall|j: int| 0 <= j < n.len() && (i2 < 0 || j < i2) implies (#[trigger] n[j]).0 != k2 by {
            if j < m.len() && j != i {
                assert(n[j] == m[j]);
            }
        }
        if i2 >= 0 {
            assert(n[i2] == m[i2]);
        }
        lemma_lookup_at(n, k2, i2);
    }
    if distinct_files(m) {
        assert forall|a: int, b: int| 0 <= a < b < n.len() implies (#[trigger] n[a]).0 != (#[trigger] n[b]).0 by {
            if a != i && b != i && b < m.len() {
                assert(n[a] == m[a] && n[b] == m[b]);
            } else if b == m.len() {
                assert(n[a] == m[a]);
            } else if a == i {
                assert(n[b] == m[b]);
            } else {
                assert(n[a] == m[a]);
            }
        }
    }
}

/// Setting entries one after another keeps the entries each of another
/// file.
pub proof fn lemma_entries_set_distinct(m: Seq<(Seq<char>, Seq<IdentV>)>, new: Seq<(Seq<char>, Seq<IdentV>)>)
    requires
        distinct_files(m),
    ensures
        distinct_files(entries_set(m, new)),
    decreases new.len(),
{
    if new.len() > 0 {
        lemma_entries_set_distinct(m, new.drop_last());
        lemma_entry_set_found(entries_set(m, new.drop_last()), new.last().0, new.last().1);
    }
}

/// Records the missing templates of each file: each new entry replaces the
/// first entry of its file, or is added at the end.  Entries that were each
/// of another file stay so.
pub fn add_code_actions(code_actions: &mut Vec<(String, Vec<Identifier>)>, new: Vec<(String, Vec<Identifier>)>)
    ensures
        vars_view(final(code_actions)@) == entries_set(vars_view(old(code_actions)@), vars_view(new@)),
        distinct_files(vars_view(old(code_actions)@)) ==> distinct_files(vars_view(final(code_actions)@)),
{
    proof {
        if distinct_files(vars_view(code_actions@)) {
            lemma_entries_set_distinct(vars_view(code_actions@), vars_view(new@));
        }
    }
    let ghost nv = vars_view(new@);
    let ghost start = vars_view(code_actions@);
    let mut new = new;
    let mut taken: Vec<(String, Vec<Identifier>)> = Vec::new();
    proof {
        assert(nv.take(0) =~= Seq::<(Seq<char>, Seq<IdentV>)>::empty());
    }
    let mut i: usize = 0;
    let ghost rest0 = new@;
    let n0 = new.len();
    proof {
        assert(rest0.skip(0) =~= rest0);
        assert(rest0.len() == n0);
    }
    while new.len() > 0
        invariant
            nv == vars_view(rest0),
            new@ == rest0.skip(i as int),
            i <= rest0.len(),
            rest0.len() <= usize::MAX,
            vars_view(code_actions@) == entries_set(start, nv.take(i as int)),
        decreases new.len(),
    {
        assert(i < rest0.len());
        let (key, value) = new.remove(0);
        proof {
            assert((key, value) == rest0[i as int]);
            assert(new@ =~= rest0.skip(i + 1));
            let t = nv.take(i + 1);
            assert(t.drop_last() =~= nv.take(i as int));
            assert(t.last() == nv[i as int]);
            assert(nv[i as int] == (key@, idents_view(value@)));
        }
        let ghost before = vars_view(code_actions@);
        let mut j: usize = 0;
        let mut found = false;
        while j < code_actions.len() && !found
            invariant
                before == vars_view(code_actions@),
                j <= code_actions@.len(),
                found ==> j < code_actions@.len() && before[j as int].0 == key@,
                forall|m: int| 0 <= m < j ==> (#[trigger] before[m]).0 != key@,
            decreases code_actions.len() - j, (if found { 0int } else { 1int }),
        {
            assert(before[j as int].0 == code_actions@[j as int].0@);
            if str_eq(code_actions[j].0.as_str(), key.as_str()) {
                found = true;
            } else {
                j = j + 1;
            }
        }
        if found {
            proof {
                lemma_entry_index(before, key@, j as int);
            }
            let _ = code_actions.remove(j);
            code_actions.insert(j, (key, value));
            proof {
                assert(vars_view(code_actions@) =~= before.update(j as int, (key@, idents_view(value@))));
            }
        } else {
            proof {
                lemma_entry_index(before, key@, -1);
            }
            code_actions.push((key, value));
            proof {
                assert(vars_view(code_actions@) =~= before.push((key@, idents_view(value@))));
            }
        }
        i = i + 1;
    }
    proof {
        assert(nv.take(i as int) =~= nv);
    }
}

/// The names that contain `id`, in order.
pub fn documents_with_id(names: &Vec<String>, id: &str) -> (r: Vec<String>)
    ensures
        r@.map_values(|s: String| s@) == names@.map_values(|s: String| s@).filter(|n: Seq<char>| seq_contains(n, id@)),
{
    let ghost ns = names@.map_values(|s: String| s@);
    let mut r: Vec<String> = Vec::new();
    let mut i: usize = 0;
    proof {
        assert(ns.take(0) =~= Seq::<Seq<char>>::empty());
        assert(ns.take(0).filter(|n: Seq<char>| seq_contains(n, id@)) =~= Seq::<Seq<char>>::empty());
    }
    while i < names.len()
        invariant
            ns == names@.map_values(|s: String| s@),
            i <= ns.len(),
            r@.map_values(|s: String| s@) == ns.take(i as int).filter(|n: Seq<char>| seq_contains(n, id@)),
        decreases names.len() - i,
    {
        proof {
            let t = ns.take(i + 1);
            assert(t.drop_last() =~= ns.take(i as int));
            assert(ns[i as int] == names@[i as int]@);
            reveal(Seq::filter);
        }
        if contains_str(names[i].as_str(), id) {
            let ghost prev = r@;
            r.push(copy_str(names[i].as_str()));
            proof {
                assert(r@.map_values(|s: String| s@) =~= prev.map_values(|s: String| s@).push(names@[i as int]@));
            }
        }
        i = i + 1;
    }
    proof {
        assert(ns.take(i as int) =~= ns);
    }
    r
}

/// Calls `std::str::from_utf8`: the bytes as text, when they are valid
/// UTF-8.  Its documentation says that it fails exactly on bytes that are
/// not UTF-8, and that the text it gives is those bytes.
#[verifier::external_body]
pub(crate) fn text_from_bytes(buf: &[u8]) -> (r: Option<&str>)
    ensures
        r is Some <==> vstd::utf8::valid_utf8(buf@),
        r matches Some(s) ==> s.spec_bytes() == buf@,
{
    std::str::from_utf8(buf).ok()
}

/// What a write of `buf` adds to a buffer of text: the bytes as text when
/// they are valid UTF-8, else nothing.
pub open spec fn written(buf: Seq<u8>) -> Seq<char> {
    if vstd::utf8::valid_utf8(buf) {
        vstd::utf8::decode_utf8(buf)
    } else {
        Seq::empty()
    }
}

/// A buffer that collects the text written to it.
#[derive(Debug)]
pub struct FileContent {
    pub content: String,
}

impl FileContent {
    pub fn new() -> (f: FileContent)
        ensures
            f.content@.len() == 0,
    {
        FileContent { content: String::new() }
    }

    /// Appends the bytes as text when they are valid UTF-8; the whole of
    /// `buf` counts as written either way.
    pub fn write(&mut self, buf: &[u8]) -> (n: usize)
        ensures
            final(self).content@ == old(self).content@ + written(buf@),
            n == buf@.len(),
    {
        if let Some(b) = text_from_bytes(buf) {
            proof {
                vstd::utf8::encode_utf8_decode_utf8(b@);
            }
            self.content = joined(self.content.as_str(), b);
        } else {
            assert(self.content@ + Seq::<char>::empty() =~= self.content@);
        }
        buf.len()
    }

    /// Nothing is held back, so nothing is to be flushed.
    pub fn flush(&mut self)
        ensures
            final(self).content@ == old(self).content@,
    {
    }
}

/// A buffer that collects the text written to it.
#[derive(Debug)]
pub struct FileWriter {
    pub content: String,
}

impl FileWriter {
    pub fn new() -> (f: FileWriter)
        ensures
            f.content@.len() == 0,
    {
        FileWriter { content: String::new() }
    }

    /// Appends the bytes as text when they are valid UTF-8; the whole of
    /// `buf` counts as written either way.
    pub fn write(&mut self, buf: &[u8]) -> (n: usize)
        ensures
            final(self).content@ == old(self).content@ + written(buf@),
            n == buf@.len(),
    {
        if let Some(b) = text_from_bytes(buf) {
            proof {
                vstd::utf8::encode_utf8_decode_utf8(b@);
            }
            self.content = joined(self.content.as_str(), b);
        } else {
            assert(self.content@ + Seq::<char>::empty() =~= self.content@);
        }
        buf.len()
    }

    /// Nothing is held back, so nothing is to be flushed.
    pub fn flush(&mut self)
        ensures
            final(self).content@ == old(self).content@,
    {
    }
}

} // verus!
