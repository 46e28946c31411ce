//! What the JavaScript bindings hand back for a template embedded in a
//! bigger file: positions there count from the template's first line, so
//! each row the server finds is moved down by that line.
use vstd::prelude::*;

use crate::lsp::completion_item::CompletionItem;
use crate::lsp::filter::FilterCompletion;
use crate::lsp_helper::names_view;
use crate::nodejs::{
    Action, ActionObject, JsCompletionItem, JsCompletionType, JsIdentifier, JsIdentifierType, JsLocation,
    JsPosition, JsRange, Kind2,
};
use crate::point::{Point, Range};
use crate::search::objects::{last_field_end, JinjaObject, ObjectV};
use crate::search::python_identifiers::PythonIdentifier;
use crate::search::order::idents_view;
use crate::search::{new_ident, IdentV, Identifier, IdentifierType};
use crate::text::{contains_str, copy_str, seq_contains, split_on};

verus! {

/// A point moved down by `line` lines.
pub open spec fn shifted(p: Point, line: u32) -> JsPosition {
    JsPosition { line: (p.row as u32 + line) as u32, character: p.column as u32 }
}

/// A point moved down by `line` lines fits in the bindings' positions.
pub open spec fn fits(p: Point, line: u32) -> bool {
    p.row as u32 + line <= u32::MAX
}

fn shift(p: Point, line: u32) -> (r: JsPosition)
    requires
        fits(p, line),
    ensures
        r == shifted(p, line),
{
    JsPosition { line: p.row as u32 + line, character: p.column as u32 }
}

/// A link the bindings show: where it starts and ends, and its name.
pub struct LinkV {
    pub start: JsPosition,
    pub end: JsPosition,
    pub name: Seq<char>,
}

/// An identifier the bindings get, seen as a link.
pub open spec fn link_view(j: JsIdentifier) -> LinkV {
    LinkV { start: j.start, end: j.end, name: j.name@ }
}

/// The links of a list of identifiers.
pub open spec fn links_view(s: Seq<JsIdentifier>) -> Seq<LinkV> {
    s.map_values(|j: JsIdentifier| link_view(j))
}

/// Every identifier in the list is a link with no error.
pub open spec fn all_links(s: Seq<JsIdentifier>) -> bool {
    forall|i: int| 0 <= i < s.len() ==> (#[trigger] s[i]).identifier_type == JsIdentifierType::Link && s[i].error is None
}

/// `l` once for each path among `paths` that equals `path`.
pub open spec fn repeat_for(l: LinkV, paths: Seq<Seq<Seq<char>>>, path: Seq<Seq<char>>) -> Seq<LinkV>
    decreases paths.len(),
{
    if paths.len() == 0 {
        Seq::empty()
    } else {
        let rest = repeat_for(l, paths.drop_last(), path);
        if paths.last() == path {
            rest.push(l)
        } else {
            rest
        }
    }
}

/// The paths of a list of action objects.
pub open spec fn paths_view(acts: Seq<ActionObject>) -> Seq<Seq<Seq<char>>> {
    acts.map_values(|a: ActionObject| names_view(a.fields@))
}

/// Some path among `paths` equals `path`.
pub open spec fn has_path(paths: Seq<Seq<Seq<char>>>, path: Seq<Seq<char>>) -> bool {
    exists|j: int| 0 <= j < paths.len() && paths[j] == path
}

/// Adds to `r` one copy of `l` for each action whose path is `path`.
fn push_matches(r: &mut Vec<JsIdentifier>, acts: &Vec<ActionObject>, path: &Vec<String>, l: &JsIdentifier)
    requires
        all_links(old(r)@),
        l.identifier_type == JsIdentifierType::Link,
        l.error is None,
    ensures
        links_view(final(r)@) == links_view(old(r)@) + repeat_for(link_view(*l), paths_view(acts@), names_view(path@)),
        all_links(final(r)@),
{
    let ghost before = links_view(r@);
    let ghost ps = paths_view(acts@);
    let mut j: usize = 0;
    proof {
        assert(ps.take(0) =~= Seq::<Seq<Seq<char>>>::empty());
        assert(before + Seq::<LinkV>::empty() =~= before);
    }
    while j < acts.len()
        invariant
            ps == paths_view(acts@),
            j <= acts@.len(),
            l.identifier_type == JsIdentifierType::Link,
            l.error is None,
            all_links(r@),
            links_view(r@) == before + repeat_for(link_view(*l), ps.take(j as int), names_view(path@)),
        decreases acts.len() - j,
    {
        proof {
            assert(ps.take(j + 1).drop_last() =~= ps.take(j as int));
        }
        if acts[j].compare(path) {
            let ghost prev = r@;
            r.push(JsIdentifier {
                start: l.start,
                end: l.end,
                name: copy_str(l.name.as_str()),
                identifier_type: JsIdentifierType::Link,
                error: None,
            });
            proof {
                assert(links_view(r@) =~= links_view(prev).push(link_view(*l)));
            }
        }
        j = j + 1;
    }
    proof {
        assert(ps.take(j as int) =~= ps);
    }
}

/// The link of a template object: from its start to the end of its last
/// attribute, moved down by `line`.
pub open spec fn object_link(o: ObjectV, line: u32) -> LinkV {
    LinkV { start: shifted(o.location.0, line), end: shifted(last_field_end(o), line), name: o.name }
}

/// The dotted path of a template object: its name, then its attributes.
pub open spec fn object_path(o: ObjectV) -> Seq<Seq<char>> {
    seq![o.name] + o.fields.map_values(|f: (Seq<char>, (Point, Point))| f.0)
}

/// The links of the objects, object after object, one for each action
/// whose path is the object's.
pub open spec fn object_links_spec(objs: Seq<ObjectV>, paths: Seq<Seq<Seq<char>>>, line: u32) -> Seq<LinkV>
    decreases objs.len(),
{
    if objs.len() == 0 {
        Seq::empty()
    } else {
        object_links_spec(objs.drop_last(), paths, line) + repeat_for(
            object_link(objs.last(), line),
            paths,
            object_path(objs.last()),
        )
    }
}

/// The links of the template objects that an action describes: one for
/// each object and each action whose path is the object's, in order.
pub fn object_links(objects: &Vec<JinjaObject>, actions: &Vec<ActionObject>, line: u32) -> (r: Vec<JsIdentifier>)
    requires
        forall|i: int|
            0 <= i < objects@.len() && has_path(paths_view(actions@), #[trigger] object_path(objects@[i]@)) ==> fits(
                objects@[i]@.location.0,
                line,
            ) && fits(last_field_end(objects@[i]@), line),
    ensures
        links_view(r@) == object_links_spec(objects@.map_values(|o: JinjaObject| o@), paths_view(actions@), line),
        all_links(r@),
{
    let ghost objs = objects@.map_values(|o: JinjaObject| o@);
    let ghost ps = paths_view(actions@);
    let mut r: Vec<JsIdentifier> = Vec::new();
    let mut i: usize = 0;
    proof {
        assert(objs.take(0) =~= Seq::<ObjectV>::empty());
        assert(links_view(r@) =~= Seq::<LinkV>::empty());
    }
    while i < objects.len()
        invariant
            objs == objects@.map_values(|o: JinjaObject| o@),
            ps == paths_view(actions@),
            i <= objects@.len(),
            forall|k: int|
                0 <= k < objects@.len() && has_path(ps, #[trigger] object_path(objects@[k]@)) ==> fits(
                    objects@[k]@.location.0,
                    line,
                ) && fits(last_field_end(objects@[k]@), line),
            all_links(r@),
            links_view(r@) == object_links_spec(objs.take(i as int), ps, line),
        decreases objects.len() - i,
    {
        let o = &objects[i];
        proof {
            assert(objs.take(i + 1).drop_last() =~= objs.take(i as int));
            assert(objs[i as int] == o@);
        }
        let path = ActionObject::from_object(o);
        assert(names_view(path.fields@) == object_path(o@));
        let mut matched = false;
        let mut j: usize = 0;
        while j < actions.len()
            invariant
                ps == paths_view(actions@),
                j <= actions@.len(),
                matched == (exists|w: int| 0 <= w < j && #[trigger] ps[w] == names_view(path.fields@)),
            decreases actions.len() - j,
        {
            if actions[j].compare(&path.fields) {
                matched = true;
            }
            assert(ps[j as int] == names_view(actions@[j as int].fields@));
            j = j + 1;
        }
        assert(matched == has_path(ps, names_view(path.fields@)));
        if matched {
            let l = JsIdentifier {
                start: shift(o.location.0, line),
                end: shift(o.last_field_end(), line),
                name: copy_str(o.name.as_str()),
                identifier_type: JsIdentifierType::Link,
                error: None,
            };
            assert(link_view(l) == object_link(o@, line));
            push_matches(&mut r, actions, &path.fields, &l);
        } else {
            proof {
                lemma_no_path_no_links(object_link(o@, line), ps, object_path(o@));
                assert(links_view(r@) + Seq::<LinkV>::empty() =~= links_view(r@));
            }
        }
        i = i + 1;
    }
    proof {
        assert(objs.take(i as int) =~= objs);
    }
    r
}

/// Without a matching path there is nothing to repeat.
proof fn lemma_no_path_no_links(l: LinkV, paths: Seq<Seq<Seq<char>>>, path: Seq<Seq<char>>)
    requires
        !has_path(paths, path),
    ensures
        repeat_for(l, paths, path) == Seq::<LinkV>::empty(),
    decreases paths.len(),
{
    if paths.len() > 0 {
        assert(!has_path(paths.drop_last(), path)) by {
            if has_path(paths.drop_last(), path) {
                let w = choose|w: int| 0 <= w < paths.drop_last().len() && paths.drop_last()[w] == path;
                assert(paths[w] == path);
            }
        }
        assert(paths.last() != path) by {
            if paths.last() == path {
                assert(paths[paths.len() - 1] == path);
            }
        }
        lemma_no_path_no_links(l, paths.drop_last(), path);
    }
}


/// The link of a Python name: its span moved down by `line`.
pub open spec fn python_link(v: PythonIdentifier, line: u32) -> LinkV {
    LinkV { start: shifted(v.start, line), end: shifted(v.end, line), name: v.field@ }
}

/// The links of the Python names, name after name, one for each action
/// whose path is the name's dotted path.
pub open spec fn python_links_spec(ids: Seq<PythonIdentifier>, paths: Seq<Seq<Seq<char>>>, line: u32) -> Seq<LinkV>
    decreases ids.len(),
{
    if ids.len() == 0 {
        Seq::empty()
    } else {
        python_links_spec(ids.drop_last(), paths, line) + repeat_for(
            python_link(ids.last(), line),
            paths,
            split_on(ids.last().field@, '.'),
        )
    }
}

/// The links of the Python names that an action describes: one for each
/// name and each action whose path is the name's dotted path, in order.
pub fn python_links(ids: &Vec<PythonIdentifier>, actions: &Vec<ActionObject>, line: u32) -> (r: Vec<JsIdentifier>)
    requires
        forall|i: int|
            0 <= i < ids@.len() && has_path(paths_view(actions@), #[trigger] split_on(ids@[i].field@, '.')) ==> fits(
                ids@[i].start,
                line,
            ) && fits(ids@[i].end, line),
    ensures
        links_view(r@) == python_links_spec(ids@, paths_view(actions@), line),
        all_links(r@),
{
    let ghost ps = paths_view(actions@);
    let mut r: Vec<JsIdentifier> = Vec::new();
    let mut i: usize = 0;
    proof {
        assert(ids@.take(0) =~= Seq::<PythonIdentifier>::empty());
        assert(links_view(r@) =~= Seq::<LinkV>::empty());
    }
    while i < ids.len()
        invariant
            ps == paths_view(actions@),
            i <= ids@.len(),
            forall|k: int|
                0 <= k < ids@.len() && has_path(ps, #[trigger] split_on(ids@[k].field@, '.')) ==> fits(ids@[k].start, line)
                    && fits(ids@[k].end, line),
            all_links(r@),
            links_view(r@) == python_links_spec(ids@.take(i as int), ps, line),
        decreases ids.len() - i,
    {
        let v = &ids[i];
        proof {
            assert(ids@.take(i + 1).drop_last() =~= ids@.take(i as int));
            assert(ids@.take(i + 1).last() == *v);
        }
        let path = ActionObject::from_python(v);
        let mut matched = false;
        let mut j: usize = 0;
        while j < actions.len()
            invariant
                ps == paths_view(actions@),
                j <= actions@.len(),
                matched == (exists|w: int| 0 <= w < j && #[trigger] ps[w] == names_view(path.fields@)),
            decreases actions.len() - j,
        {
            if actions[j].compare(&path.fields) {
                matched = true;
            }
            assert(ps[j as int] == names_view(actions@[j as int].fields@));
            j = j + 1;
        }
        assert(matched == has_path(ps, names_view(path.fields@)));
        if matched {
            let l = JsIdentifier {
                start: shift(v.start, line),
                end: shift(v.end, line),
                name: copy_str(v.field.as_str()),
                identifier_type: JsIdentifierType::Link,
                error: None,
            };
            push_matches(&mut r, actions, &path.fields, &l);
        } else {
            proof {
                lemma_no_path_no_links(python_link(*v, line), ps, split_on(v.field@, '.'));
                assert(links_view(r@) + Seq::<LinkV>::empty() =~= links_view(r@));
            }
        }
        i = i + 1;
    }
    proof {
        assert(ids@.take(i as int) =~= ids@);
    }
    r
}

/// Every row of the identifiers, moved down by `line`, fits.
pub open spec fn all_fit(vs: Seq<IdentV>, line: u32) -> bool {
    forall|i: int| 0 <= i < vs.len() ==> fits((#[trigger] vs[i]).start, line) && fits(vs[i].end, line)
}

/// The identifiers of a file as the bindings get them, moved down by
/// `line`, in order.
pub fn shifted_identifiers(variables: &Vec<Identifier>, line: u32) -> (r: Vec<JsIdentifier>)
    requires
        all_fit(idents_view(variables@), line),
    ensures
        r@.len() == variables@.len(),
        forall|i: int|
            0 <= i < r@.len() ==> {
                &&& (#[trigger] r@[i]).start == shifted(variables@[i].start, line)
                &&& r@[i].end == shifted(variables@[i].end, line)
                &&& r@[i].name@ == variables@[i].name@
                &&& r@[i].identifier_type == crate::nodejs::js_type(variables@[i].identifier_type)
                &&& r@[i].error is None
            },
{
    let mut r: Vec<JsIdentifier> = Vec::new();
    let mut i: usize = 0;
    while i < variables.len()
        invariant
            i <= variables@.len(),
            r@.len() == i,
            all_fit(idents_view(variables@), line),
            forall|k: int|
                0 <= k < i ==> {
                    &&& (#[trigger] r@[k]).start == shifted(variables@[k].start, line)
                    &&& r@[k].end == shifted(variables@[k].end, line)
                    &&& r@[k].name@ == variables@[k].name@
                    &&& r@[k].identifier_type == crate::nodejs::js_type(variables@[k].identifier_type)
                    &&& r@[k].error is None
                },
        decreases variables.len() - i,
    {
        let v = &variables[i];
        assert(idents_view(variables@)[i as int] == v@);
        let mut j = JsIdentifier::from_identifier(v);
        j.start = shift(v.start, line);
        j.end = shift(v.end, line);
        r.push(j);
        i = i + 1;
    }
    r
}

/// The names the bindings' global context gives for a file: one backend
/// variable for each action, at the start of the file, in order.
pub fn global_identifiers(actions: &Vec<Action>) -> (r: Vec<Identifier>)
    ensures
        idents_view(r@) == actions@.map_values(
            |a: Action| IdentV { identifier_type: IdentifierType::BackendVariable, ..new_ident(a.name@, Point { row: 0, column: 0 }, Point { row: 0, column: 0 }) },
        ),
{
    let ghost want = actions@.map_values(
        |a: Action| IdentV { identifier_type: IdentifierType::BackendVariable, ..new_ident(a.name@, Point { row: 0, column: 0 }, Point { row: 0, column: 0 }) },
    );
    let mut r: Vec<Identifier> = Vec::new();
    let mut i: usize = 0;
    while i < actions.len()
        invariant
            want == actions@.map_values(
                |a: Action| IdentV { identifier_type: IdentifierType::BackendVariable, ..new_ident(a.name@, Point { row: 0, column: 0 }, Point { row: 0, column: 0 }) },
            ),
            i <= actions@.len(),
            idents_view(r@) == want.take(i as int),
        decreases actions.len() - i,
    {
        let mut v = Identifier::new(actions[i].name.as_str(), Point::zero(), Point::zero());
        v.identifier_type = IdentifierType::BackendVariable;
        let ghost prev = r@;
        r.push(v);
        proof {
            assert(idents_view(r@) =~= idents_view(prev).push(v@));
            assert(want.take(i + 1) =~= want.take(i as int).push(want[i as int]));
        }
        i = i + 1;
    }
    proof {
        assert(want.take(i as int) =~= want);
    }
    r
}

/// The paths of the actions, one for each action, in order.
pub fn action_objects(actions: &Vec<Action>) -> (r: Vec<ActionObject>)
    ensures
        paths_view(r@) == actions@.map_values(|a: Action| split_on(a.name@, '.')),
{
    let ghost want = actions@.map_values(|a: Action| split_on(a.name@, '.'));
    let mut r: Vec<ActionObject> = Vec::new();
    let mut i: usize = 0;
    while i < actions.len()
        invariant
            want == actions@.map_values(|a: Action| split_on(a.name@, '.')),
            i <= actions@.len(),
            paths_view(r@) == want.take(i as int),
        decreases actions.len() - i,
    {
        let o = ActionObject::from_action(&actions[i]);
        let ghost prev = r@;
        r.push(o);
        proof {
            assert(paths_view(r@) =~= paths_view(prev).push(names_view(o.fields@)));
            assert(want.take(i + 1) =~= want.take(i as int).push(want[i as int]));
        }
        i = i + 1;
    }
    proof {
        assert(want.take(i as int) =~= want);
    }
    r
}

/// The completions of the filters, as the bindings get them: each filter's
/// name and description, as a field.
pub fn filter_items(filters: &Vec<FilterCompletion>) -> (r: Vec<JsCompletionItem>)
    ensures
        r@.len() == filters@.len(),
        forall|i: int|
            0 <= i < r@.len() ==> {
                &&& (#[trigger] r@[i]).completion_type == JsCompletionType::Filter
                &&& r@[i].label@ == filters@[i].name@
                &&& r@[i].kind == Kind2::FIELD
                &&& r@[i].description@ == filters@[i].desc@
                &&& r@[i].new_text is None && r@[i].insert is None && r@[i].replace is None
            },
{
    let mut r: Vec<JsCompletionItem> = Vec::new();
    let mut i: usize = 0;
    while i < filters.len()
        invariant
            i <= filters@.len(),
            r@.len() == i,
            forall|k: int|
                0 <= k < i ==> {
                    &&& (#[trigger] r@[k]).completion_type == JsCompletionType::Filter
                    &&& r@[k].label@ == filters@[k].name@
                    &&& r@[k].kind == Kind2::FIELD
                    &&& r@[k].description@ == filters@[k].desc@
                    &&& r@[k].new_text is None && r@[k].insert is None && r@[k].replace is None
                },
        decreases filters.len() - i,
    {
        r.push(JsCompletionItem {
            completion_type: JsCompletionType::Filter,
            label: copy_str(filters[i].name.as_str()),
            kind: Kind2::FIELD,
            description: copy_str(filters[i].desc.as_str()),
            new_text: None,
            insert: None,
            replace: None,
        });
        i = i + 1;
    }
    r
}

/// The completions of names, as the bindings get them: each label, as a
/// variable, described by its detail or by nothing.
pub fn variable_items(items: &Vec<CompletionItem>) -> (r: Vec<JsCompletionItem>)
    ensures
        r@.len() == items@.len(),
        forall|i: int|
            0 <= i < r@.len() ==> {
                &&& (#[trigger] r@[i]).completion_type == JsCompletionType::Identifier
                &&& r@[i].label@ == items@[i].label@
                &&& r@[i].kind == Kind2::VARIABLE
                &&& r@[i].description@ == (match items@[i].detail { Some(d) => d@, None => Seq::empty() })
                &&& r@[i].new_text is None && r@[i].insert is None && r@[i].replace is None
            },
{
    let mut r: Vec<JsCompletionItem> = Vec::new();
    let mut i: usize = 0;
    while i < items.len()
        invariant
            i <= items@.len(),
            r@.len() == i,
            forall|k: int|
                0 <= k < i ==> {
                    &&& (#[trigger] r@[k]).completion_type == JsCompletionType::Identifier
                    &&& r@[k].label@ == items@[k].label@
                    &&& r@[k].kind == Kind2::VARIABLE
                    &&& r@[k].description@ == (match items@[k].detail { Some(d) => d@, None => Seq::empty() })
                    &&& r@[k].new_text is None && r@[k].insert is None && r@[k].replace is None
                },
        decreases items.len() - i,
    {
        let description = match &items[i].detail {
            Some(d) => copy_str(d.as_str()),
            None => String::new(),
        };
        r.push(JsCompletionItem {
            completion_type: JsCompletionType::Identifier,
            label: copy_str(items[i].label.as_str()),
            kind: Kind2::VARIABLE,
            description,
            new_text: None,
            insert: None,
            replace: None,
        });
        i = i + 1;
    }
    r
}

/// A protocol range moved down by `line` lines, as the bindings get it.
pub open spec fn shifted_range(r: Range, line: u32) -> JsRange {
    JsRange {
        start: JsPosition { line: (r.start.line + line) as u32, character: r.start.character },
        end: JsPosition { line: (r.end.line + line) as u32, character: r.end.character },
    }
}

/// The completion of a name typed only in part: the full name, which
/// replaces the range, moved down by `line`.
pub fn incomplete_item(variable: &str, range: Range, line: u32) -> (r: JsCompletionItem)
    requires
        range.start.line + line <= u32::MAX,
        range.end.line + line <= u32::MAX,
    ensures
        r.completion_type == JsCompletionType::Identifier,
        r.label@ == variable@,
        r.kind == Kind2::VARIABLE,
        r.description@ == variable@,
        r.new_text matches Some(t) && t@ == variable@,
        r.insert == Some(shifted_range(range, line)),
        r.replace == Some(shifted_range(range, line)),
{
    let moved = JsRange {
        start: JsPosition { line: range.start.line + line, character: range.start.character },
        end: JsPosition { line: range.end.line + line, character: range.end.character },
    };
    JsCompletionItem {
        completion_type: JsCompletionType::Identifier,
        label: copy_str(variable),
        kind: Kind2::VARIABLE,
        description: copy_str(variable),
        new_text: Some(copy_str(variable)),
        insert: Some(moved),
        replace: Some(moved),
    }
}

/// `l` is the location at index `k`, moved down by `line`: with the address
/// `filename` for a single definition, its own address otherwise.
pub open spec fn js_location_of(
    l: JsLocation,
    locations: Seq<(String, Range)>,
    k: int,
    single: bool,
    filename: Seq<char>,
    line: u32,
) -> bool {
    &&& 0 <= k < locations.len()
    &&& seq_contains(locations[k].0@, filename)
    &&& l.range == shifted_range(locations[k].1, line)
    &&& l.uri@ == (if single { filename } else { locations[k].0@ })
    &&& l.name@.len() == 0
    &&& l.is_backend == !single
}

/// `l` is one of the locations, moved down by `line`.
pub open spec fn js_location_in(
    l: JsLocation,
    locations: Seq<(String, Range)>,
    single: bool,
    filename: Seq<char>,
    line: u32,
) -> bool {
    exists|k: int| js_location_of(l, locations, k, single, filename, line)
}

/// The definitions the bindings get: of the locations whose address
/// contains `filename`, each moved down by `line`.  A single definition
/// takes the address `filename` and is not in the backend; one of a list
/// keeps its address and is in the backend.
pub fn js_definitions(locations: &Vec<(String, Range)>, single: bool, filename: &str, line: u32) -> (r: Vec<JsLocation>)
    requires
        forall|i: int|
            0 <= i < locations@.len() && seq_contains(#[trigger] locations@[i].0@, filename@) ==> locations@[i].1.start.line
                + line <= u32::MAX && locations@[i].1.end.line + line <= u32::MAX,
    ensures
        r@.len() <= locations@.len(),
        forall|i: int| 0 <= i < r@.len() ==> js_location_in(#[trigger] r@[i], locations@, single, filename@, line),
        (forall|k: int| 0 <= k < locations@.len() ==> seq_contains(#[trigger] locations@[k].0@, filename@)) ==> r@.len()
            == locations@.len(),
{
    let mut r: Vec<JsLocation> = Vec::new();
    let ghost mut ks: Seq<int> = Seq::empty();
    let mut i: usize = 0;
    while i < locations.len()
        invariant
            i <= locations@.len(),
            r@.len() <= i,
            ks.len() == r@.len(),
            forall|q: int| 0 <= q < r@.len() ==> js_location_of(#[trigger] r@[q], locations@, ks[q], single, filename@, line),
            forall|k: int|
                0 <= k < locations@.len() && seq_contains(#[trigger] locations@[k].0@, filename@) ==> locations@[k].1.start.line
                    + line <= u32::MAX && locations@[k].1.end.line + line <= u32::MAX,
            (forall|k: int| 0 <= k < i ==> seq_contains(#[trigger] locations@[k].0@, filename@)) ==> r@.len() == i,
        decreases locations.len() - i,
    {
        let (uri, range) = (&locations[i].0, locations[i].1);
        if contains_str(uri.as_str(), filename) {
            let moved = Range::new(
                crate::point::Position::new(range.start.line + line, range.start.character),
                crate::point::Position::new(range.end.line + line, range.end.character),
            );
            let mut loc = JsLocation::from_location(if single { filename } else { uri.as_str() }, &moved);
            loc.is_backend = !single;
            assert(js_location_of(loc, locations@, i as int, single, filename@, line));
            r.push(loc);
            proof {
                ks = ks.push(i as int);
            }
        } else {
            assert(!seq_contains(locations@[i as int].0@, filename@));
        }
        i = i + 1;
    }
    assert forall|q: int| 0 <= q < r@.len() implies js_location_in(#[trigger] r@[q], locations@, single, filename@, line) by {
        assert(js_location_of(r@[q], locations@, ks[q], single, filename@, line));
    }
    r
}

} // verus!
