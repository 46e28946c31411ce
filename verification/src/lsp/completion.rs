use vstd::prelude::*;

use crate::capturer::included::{included_view, spec_in_template, IncludeCapturer};
use crate::capturer::object::{walk_has_ident, walk_ident_at, JinjaObjectCapturer};
use crate::point::{p_le, Point};
use crate::search::objects::{opt_completion_view, spec_completion, CompletionType, CompletionTypeV, JinjaObjects, ObjectsV};
use crate::search::rust_template_completion::BackendTemplates;
use crate::search::snippets_completion::{spec_to_complete, Snippets};
use crate::search::templates::{covers, import_template_at, Current, ImportsV, JinjaImports};
use crate::search::{completion_start, spec_completion_start, IdentV};
use crate::search::order::idents_view;
use crate::text::copy_str;

verus! {

/// The completion of a template name under the cursor: what has been typed
/// of it, and its span.
pub open spec fn template_name_completion(t: IdentV, point: Point) -> Option<CompletionTypeV> {
    match spec_completion_start(point, t) {
        Some(b) => Some(CompletionTypeV::IncludedTemplate { name: vstd::utf8::decode_utf8(b), range: (t.start, t.end) }),
        None => None,
    }
}

/// The import statement being filled in, if any.
pub open spec fn current_import(d: ImportsV) -> Option<crate::search::templates::ImportV> {
    match d.current {
        Current::Id(id) => if d.imports.dom().contains(id) { Some(d.imports[id]) } else { None },
        Current::Nothing => None,
    }
}

/// What the cursor in a template completes: a snippet where a block is left
/// unfinished; else what the expression at the cursor calls for; else the
/// name of a template being imported.
pub open spec fn spec_template_completion(s: Snippets, o: ObjectsV, imp: ImportsV, point: Point) -> Option<CompletionTypeV> {
    if spec_to_complete(s, point) is Some {
        Some(CompletionTypeV::Snippets { range: (point, Point { row: point.row, column: (point.column + 1) as usize }) })
    } else if spec_completion(o, point) is Some {
        spec_completion(o, point)
    } else {
        match current_import(imp) {
            Some(i) => match import_template_at(i, point) {
                Some(t) => template_name_completion(t, point),
                None => None,
            },
            None => None,
        }
    }
}

fn template_name_exec(t: &crate::search::Identifier, point: Point) -> (r: Option<CompletionType>)
    ensures
        opt_completion_view(r) == template_name_completion(t@, point),
{
    match completion_start(point, t) {
        Some(start) => {
            proof {
                vstd::utf8::encode_utf8_decode_utf8(start@);
            }
            Some(CompletionType::IncludedTemplate { name: copy_str(start), range: (t.start, t.end) })
        },
        None => None,
    }
}

/// What the cursor in a template completes, given what the snippets,
/// objects and imports queries found.
pub fn template_completion(snippets: &Snippets, objects: &JinjaObjects, imports: &JinjaImports, point: Point) -> (r: Option<CompletionType>)
    requires
        point.column < usize::MAX,
    ensures
        opt_completion_view(r) == spec_template_completion(*snippets, objects@, imports@, point),
{
    if snippets.to_complete(point).is_some() {
        return Some(CompletionType::Snippets { range: (point, Point { row: point.row, column: point.column + 1 }) });
    }
    let c = objects.completion(point);
    if c.is_some() {
        return c;
    }
    let import = match imports.in_template(point) {
        Some(i) => i,
        None => return None,
    };
    let identifier = match import.get_identifier(point) {
        Some(t) => t,
        None => return None,
    };
    template_name_exec(identifier, point)
}

/// What the cursor in a backend file completes: the name of the template
/// it renders, when the cursor is in it.
pub open spec fn spec_backend_completion(ts: Seq<IdentV>, point: Point) -> Option<CompletionTypeV> {
    if ts.len() > 0 && covers(ts.last(), point) {
        template_name_completion(ts.last(), point)
    } else {
        None
    }
}

/// What the cursor in a backend file completes, given the templates the
/// backend renders.
pub fn backend_completion(templates: &BackendTemplates, point: Point) -> (r: Option<CompletionType>)
    ensures
        opt_completion_view(r) == spec_backend_completion(idents_view(templates.templates@), point),
{
    let identifier = match templates.in_template(point) {
        Some(t) => t,
        None => return None,
    };
    template_name_exec(identifier, point)
}

/// Where a name in a template may be defined.
#[derive(Debug)]
pub struct GotoTargets {
    /// The definition of this file the name refers to, as the file and the
    /// span of the definition.
    pub local: Option<(String, crate::point::Range)>,
    /// The template named under the cursor, if any.
    pub template: Option<String>,
    /// The definitions of the other files whose dotted name begins with the
    /// name.
    pub global: Vec<(String, crate::point::Range)>,
}

/// What goto definition answers in a template.
#[derive(Debug)]
pub enum GotoAnswer {
    /// The definition in this file.
    Local(String, crate::point::Range),
    /// The file of the template named under the cursor, where the caller
    /// found it.
    Template(String),
    /// The definitions in the other files, perhaps none.
    Global(Vec<(String, crate::point::Range)>),
}

/// The answer of goto definition in a template: the definition in this file
/// where there is one; else the template named under the cursor, where its
/// file was found (`template_location` is where the caller found the file of
/// `targets.template`); else the definitions in the other files.
pub fn goto_answer(targets: GotoTargets, template_location: Option<String>) -> (r: GotoAnswer)
    ensures
        r == (match targets.local {
            Some((u, range)) => GotoAnswer::Local(u, range),
            None => if targets.template is Some && template_location is Some {
                GotoAnswer::Template(template_location.unwrap())
            } else {
                GotoAnswer::Global(targets.global)
            },
        }),
{
    match targets.local {
        Some((u, range)) => GotoAnswer::Local(u, range),
        None => match (targets.template, template_location) {
            (Some(_), Some(l)) => GotoAnswer::Template(l),
            _ => GotoAnswer::Global(targets.global),
        },
    }
}

/// The greatest definition of the file that starts no later than the
/// cursor, named `name`, gives `range`.
pub open spec fn latest_target(tf: Seq<IdentV>, name: Seq<char>, point: Point, range: crate::point::Range) -> bool {
    exists|i: int|
        0 <= i < tf.len() && crate::lsp::files::starts_before(#[trigger] tf[i], name, point)
            && range == crate::point::spec_to_range((tf[i].start, tf[i].end))
            && forall|j: int| 0 <= j < tf.len() && crate::lsp::files::starts_before(#[trigger] tf[j], name, point)
                ==> crate::search::order::ord_ident(tf[j], tf[i]) <= 0
}

/// Some definition of the file named as the name under the cursor starts
/// no later than the cursor.
pub open spec fn has_latest_target(w: crate::capturer::object::ObjectWalk, vars: Seq<(Seq<char>, Seq<IdentV>)>, uri: Seq<char>, point: Point) -> bool {
    &&& walk_has_ident(w, point)
    &&& crate::lsp_helper::lookup(vars, uri) matches Some(tf)
    &&& exists|i: int| 0 <= i < tf.len() && crate::lsp::files::starts_before(#[trigger] tf[i], walk_ident_at(w, point), point)
}

/// The places a name under the cursor in template `uri` may be defined, as
/// the older server finds them from its capturers: the greatest definition
/// of this file named so that starts no later than the cursor; the template
/// of the `include` under the cursor; and the definitions of every file
/// named exactly so.
pub fn goto_targets_with_capturers(
    objects: &JinjaObjectCapturer,
    includes: &IncludeCapturer,
    variables: &Vec<(String, Vec<crate::search::Identifier>)>,
    uri: &str,
    point: Point,
) -> (r: GotoTargets)
    ensures
        match r.local {
            Some((u, range)) => {
                &&& u@ == uri@
                &&& walk_has_ident(objects@, point)
                &&& crate::lsp_helper::lookup(crate::lsp_helper::vars_view(variables@), uri@) matches Some(tf)
                &&& latest_target(tf, walk_ident_at(objects@, point), point, range)
            },
            None => !has_latest_target(objects@, crate::lsp_helper::vars_view(variables@), uri@, point),
        },
        match r.template {
            Some(n) => spec_in_template(included_view(includes.included@), point) matches Some(t) && n@ == t.name,
            None => spec_in_template(included_view(includes.included@), point) is None,
        },
        crate::lsp::files::places_view(r.global@) == crate::lsp::files::named_places(
            crate::lsp_helper::vars_view(variables@), walk_ident_at(objects@, point)),
{
    let (has_ident, ident) = match objects.is_ident(point) {
        Some(i) => (true, i),
        None => (false, String::new()),
    };
    assert(ident@ == walk_ident_at(objects@, point));
    assert(has_ident == walk_has_ident(objects@, point));
    let mut local = None;
    if has_ident {
        if let Some(this_file) = crate::lsp_helper::lookup_file(variables, uri) {
            if let Some(d) = crate::lsp::files::latest_definition(this_file, ident.as_str(), point) {
                proof {
                    let tf = idents_view(this_file@);
                    let k = choose|k: int| 0 <= k < this_file@.len() && this_file@[k]@ == d@;
                    assert(tf[k] == d@);
                    assert(latest_target(tf, ident@, point, crate::point::spec_to_range((d@.start, d@.end))));
                    assert forall|j: int| 0 <= j < tf.len() && crate::lsp::files::starts_before(#[trigger] tf[j], ident@, point)
                        implies crate::search::order::ord_ident(tf[j], tf[k]) <= 0 by {
                        assert(tf[j] == this_file@[j]@);
                    }
                }
                local = Some((copy_str(uri), crate::point::to_range((d.start, d.end))));
            } else {
                proof {
                    let tf = idents_view(this_file@);
                    assert forall|i: int| 0 <= i < tf.len() implies !crate::lsp::files::starts_before(
                        #[trigger] tf[i],
                        ident@,
                        point,
                    ) by {
                        assert(tf[i] == this_file@[i]@);
                    }
                }
            }
        }
    }
    let template = match includes.in_template(point) {
        Some(t) => Some(copy_str(t.name.as_str())),
        None => None,
    };
    let global = crate::lsp::files::named_definitions(variables, ident.as_str());
    GotoTargets { local, template, global }
}

/// The answer of goto definition in the older server: the definition in
/// this file where there is one; else, where an `include` names a template
/// under the cursor, its file where the caller found it
/// (`template_location`) and no answer where it did not; else the
/// definitions in every file.
pub fn goto_answer_with_capturers(targets: GotoTargets, template_location: Option<String>) -> (r: Option<GotoAnswer>)
    ensures
        r == (match targets.local {
            Some((u, range)) => Some(GotoAnswer::Local(u, range)),
            None => if targets.template is Some {
                match template_location {
                    Some(l) => Some(GotoAnswer::Template(l)),
                    None => None,
                }
            } else {
                Some(GotoAnswer::Global(targets.global))
            },
        }),
{
    match targets.local {
        Some((u, range)) => Some(GotoAnswer::Local(u, range)),
        None => if targets.template.is_some() {
            match template_location {
                Some(l) => Some(GotoAnswer::Template(l)),
                None => None,
            }
        } else {
            Some(GotoAnswer::Global(targets.global))
        },
    }
}

/// The cursor lies within the last object.
pub open spec fn ident_found(o: ObjectsV, point: Point) -> bool {
    o.objects.len() > 0 && p_le(crate::search::objects::object_location(o.objects.last()).0, point)
        && p_le(point, crate::search::objects::object_location(o.objects.last()).1)
}

/// The name under the cursor: that of the last object, when the cursor lies
/// within it; else nothing.
pub open spec fn ident_at(o: ObjectsV, point: Point) -> Seq<char> {
    if ident_found(o, point) {
        o.objects.last().name
    } else {
        Seq::empty()
    }
}

/// `range` spans the greatest definition among `tf` of `name` that
/// reaches `point`.
pub open spec fn local_target(tf: Seq<IdentV>, name: Seq<char>, point: Point, range: crate::point::Range) -> bool {
    exists|i: int|
        0 <= i < tf.len() && crate::lsp::files::reaches(#[trigger] tf[i], name, point)
            && range == crate::point::spec_to_range((tf[i].start, tf[i].end))
            && forall|j: int| 0 <= j < tf.len() && crate::lsp::files::reaches(#[trigger] tf[j], name, point)
                ==> crate::search::order::ord_ident(tf[j], tf[i]) <= 0
}

/// A name lies under the cursor and some definition of the file reaches it.
pub open spec fn has_local_target(o: ObjectsV, vars: Seq<(Seq<char>, Seq<IdentV>)>, uri: Seq<char>, point: Point) -> bool {
    &&& ident_found(o, point)
    &&& crate::lsp_helper::lookup(vars, uri) matches Some(tf)
    &&& exists|i: int| 0 <= i < tf.len() && crate::lsp::files::reaches(#[trigger] tf[i], ident_at(o, point), point)
}

/// The places a name under the cursor in template `uri` may be defined: the
/// greatest definition of this file that reaches the cursor, where a name
/// lies under the cursor; the template named under the cursor; and the
/// definitions of the other files.
pub fn goto_targets(
    objects: &JinjaObjects,
    imports: &JinjaImports,
    variables: &Vec<(String, Vec<crate::search::Identifier>)>,
    uri: &str,
    point: Point,
) -> (r: GotoTargets)
    ensures
        match r.local {
            Some((u, range)) => {
                &&& u@ == uri@
                &&& ident_found(objects@, point)
                &&& crate::lsp_helper::lookup(crate::lsp_helper::vars_view(variables@), uri@) matches Some(tf)
                &&& local_target(tf, ident_at(objects@, point), point, range)
            },
            None => !has_local_target(objects@, crate::lsp_helper::vars_view(variables@), uri@, point),
        },
        match r.template {
            Some(n) => current_import(imports@) matches Some(i) && import_template_at(i, point) matches Some(t) && n@ == t.name,
            None => !(current_import(imports@) matches Some(i) && import_template_at(i, point) is Some),
        },
        crate::lsp::files::places_view(r.global@) == crate::lsp::files::global_places(
            crate::lsp_helper::vars_view(variables@), uri@, ident_at(objects@, point)),
{
    let (found, ident) = match objects.is_ident(point) {
        Some(i) => (true, i),
        None => (false, String::new()),
    };
    assert(ident@ == ident_at(objects@, point));
    assert(found == ident_found(objects@, point));
    let mut local = None;
    if found {
        if let Some(this_file) = crate::lsp_helper::lookup_file(variables, uri) {
            if let Some(d) = crate::lsp::files::local_definition(this_file, ident.as_str(), point) {
                proof {
                    let tf = idents_view(this_file@);
                    let k = choose|k: int| 0 <= k < this_file@.len() && this_file@[k]@ == d@;
                    assert(tf[k] == d@);
                    assert(crate::lsp::files::reaches(tf[k], ident@, point));
                    assert(local_target(tf, ident@, point, crate::point::spec_to_range((d@.start, d@.end))));
                    assert forall|j: int| 0 <= j < tf.len() && crate::lsp::files::reaches(#[trigger] tf[j], ident@, point)
                        implies crate::search::order::ord_ident(tf[j], tf[k]) <= 0 by {
                        assert(tf[j] == this_file@[j]@);
                    }
                }
                local = Some((copy_str(uri), crate::point::to_range((d.start, d.end))));
            } else {
                proof {
                    let tf = idents_view(this_file@);
                    assert forall|i: int| 0 <= i < tf.len() implies !crate::lsp::files::reaches(
                        #[trigger] tf[i],
                        ident@,
                        point,
                    ) by {
                        assert(tf[i] == this_file@[i]@);
                    }
                }
            }
        }
    }
    let template = match imports.in_template(point) {
        Some(import) => match import.get_identifier(point) {
            Some(t) => Some(copy_str(t.name.as_str())),
            None => None,
        },
        None => None,
    };
    let global = crate::lsp::files::global_definitions(variables, uri, ident.as_str());
    GotoTargets { local, template, global }
}

} // verus!
