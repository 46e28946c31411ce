use vstd::prelude::*;

use crate::point::{p_le, p_lt, spec_to_position, to_position2, Point, Range};
use crate::search::objects::{object_location, objects_from_matches, taken_readable, JinjaObject, ObjectV, ObjectsV, objects_view, spec_objects, taken_texts};
use crate::search::order::idents_view;
use crate::search::queries::Queries;
use crate::search::templates::{imports_from_matches, lists_imports, spec_imports};
use crate::search::{new_ident, IdentV, Identifier, IdentifierType};
use crate::syntax::{capture_names, matches_view, names_within, query_matches, Capture, CaptureV};
use crate::text::{copy_str, split_by, split_on, str_eq};
use crate::tree_builder::{DiagnosticSeverity, JinjaDiagnostic, JinjaDiagnosticV, LangType};

verus! {

/// The identifiers of each file, by file name, as plain values.
pub open spec fn vars_view(v: Seq<(String, Vec<Identifier>)>) -> Seq<(Seq<char>, Seq<IdentV>)> {
    v.map_values(|e: (String, Vec<Identifier>)| (e.0@, idents_view(e.1@)))
}

/// The identifiers of the first file named `file`.
pub open spec fn lookup(vars: Seq<(Seq<char>, Seq<IdentV>)>, file: Seq<char>) -> Option<Seq<IdentV>>
    decreases vars.len(),
{
    if vars.len() == 0 {
        None
    } else if vars[0].0 == file {
        Some(vars[0].1)
    } else {
        lookup(vars.drop_first(), file)
    }
}

/// How many of the identifiers have the name `name`.
pub open spec fn count_named(vs: Seq<IdentV>, name: Seq<char>) -> nat
    decreases vs.len(),
{
    if vs.len() == 0 {
        0
    } else {
        count_named(vs.drop_last(), name) + if vs.last().name == name { 1nat } else { 0nat }
    }
}

/// How many identifiers named `name` the files other than `file` have.
pub open spec fn others_count(vars: Seq<(Seq<char>, Seq<IdentV>)>, file: Seq<char>, name: Seq<char>) -> nat
    decreases vars.len(),
{
    if vars.len() == 0 {
        0
    } else {
        others_count(vars.drop_last(), file, name) + if vars.last().0 == file { 0nat } else { count_named(vars.last().1, name) }
    }
}

/// Some definition of the file, other than a block, names the object and is
/// in scope where the object is used.
pub open spec fn located(o: ObjectV, this_file: Seq<IdentV>) -> bool {
    exists|i: int|
        0 <= i < this_file.len() && #[trigger] this_file[i].name == o.name
            && this_file[i].identifier_type != IdentifierType::TemplateBlock
            && p_le(this_file[i].start, object_location(o).1)
            && p_lt(object_location(o).0, this_file[i].scope_ends.1)
}

/// The problem with an object, if any: none for filters, tests and objects
/// defined in scope; with `ignore_globals`, none at all; else none when
/// exactly one other file defines the name, "defined in multiple places"
/// when more do, and "undefined" when none does.
pub open spec fn object_problem(
    o: ObjectV,
    this_file: Seq<IdentV>,
    vars: Seq<(Seq<char>, Seq<IdentV>)>,
    file: Seq<char>,
    ignore_globals: bool,
) -> Option<JinjaDiagnosticV> {
    if o.is_filter || o.is_test || located(o, this_file) || ignore_globals {
        None
    } else {
        let c = others_count(vars, file, o.name);
        if c == 0 {
            Some(JinjaDiagnosticV::Undefined)
        } else if c == 1 {
            None
        } else {
            Some(JinjaDiagnosticV::DefinedInMultiplePlaces)
        }
    }
}

/// The identifier that an object is reported at: its name over its stored
/// span, with its attributes.
pub open spec fn object_ident(o: ObjectV) -> IdentV {
    IdentV { fields: o.fields, ..new_ident(o.name, o.location.0, o.location.1) }
}

/// The problems with the objects, in their order.
pub open spec fn object_diags(
    objs: Seq<ObjectV>,
    this_file: Seq<IdentV>,
    vars: Seq<(Seq<char>, Seq<IdentV>)>,
    file: Seq<char>,
    ignore_globals: bool,
) -> Seq<(JinjaDiagnosticV, IdentV)>
    decreases objs.len(),
{
    if objs.len() == 0 {
        Seq::empty()
    } else {
        let rest = object_diags(objs.drop_last(), this_file, vars, file, ignore_globals);
        match object_problem(objs.last(), this_file, vars, file, ignore_globals) {
            Some(d) => rest.push((d, object_ident(objs.last()))),
            None => rest,
        }
    }
}

/// Linting reports only real problems: every problem found among the
/// objects is at an object that is neither a filter nor a test and that no
/// definition of the file covers where it is used; and when undefined
/// names are to be hidden, nothing is reported.
pub proof fn lemma_object_diags_sound(
    objs: Seq<ObjectV>,
    this_file: Seq<IdentV>,
    vars: Seq<(Seq<char>, Seq<IdentV>)>,
    file: Seq<char>,
    ignore_globals: bool,
)
    ensures
        ignore_globals ==> object_diags(objs, this_file, vars, file, ignore_globals).len() == 0,
        object_diags(objs, this_file, vars, file, ignore_globals).len() <= objs.len(),
        forall|k: int|
            0 <= k < object_diags(objs, this_file, vars, file, ignore_globals).len() ==> exists|i: int|
                0 <= i < objs.len() && (#[trigger] object_diags(objs, this_file, vars, file, ignore_globals)[k]).1
                    == object_ident(objs[i]) && !objs[i].is_filter && !objs[i].is_test && !located(objs[i], this_file),
    decreases objs.len(),
{
    if objs.len() > 0 {
        let rest = objs.drop_last();
        lemma_object_diags_sound(rest, this_file, vars, file, ignore_globals);
        let d = object_diags(objs, this_file, vars, file, ignore_globals);
        let dr = object_diags(rest, this_file, vars, file, ignore_globals);
        assert forall|k: int| 0 <= k < d.len() implies exists|i: int|
            0 <= i < objs.len() && (#[trigger] d[k]).1 == object_ident(objs[i]) && !objs[i].is_filter && !objs[i].is_test
                && !located(objs[i], this_file) by {
            if k < dr.len() {
                assert(d[k] == dr[k]);
                let i = choose|i: int|
                    0 <= i < rest.len() && (#[trigger] dr[k]).1 == object_ident(rest[i]) && !rest[i].is_filter
                        && !rest[i].is_test && !located(rest[i], this_file);
                assert(rest[i] == objs[i]);
            } else {
                assert(objs[objs.len() - 1] == objs.last());
            }
        }
    }
}

/// A problem `p` fits object `o`: the object is neither a filter nor a
/// test, no definition of the file covers it, undefined names are not
/// hidden, and `p` is "undefined" exactly where no other file defines the
/// name and "defined in multiple places" exactly where two or more do.
#[verifier::opaque]
pub open spec fn problem_fits(
    p: JinjaDiagnosticV,
    o: ObjectV,
    this_file: Seq<IdentV>,
    vars: Seq<(Seq<char>, Seq<IdentV>)>,
    file: Seq<char>,
    ignore_globals: bool,
) -> bool {
    &&& !o.is_filter
    &&& !o.is_test
    &&& !located(o, this_file)
    &&& !ignore_globals
    &&& (p == JinjaDiagnosticV::Undefined <==> others_count(vars, file, o.name) == 0)
    &&& (p == JinjaDiagnosticV::DefinedInMultiplePlaces <==> others_count(vars, file, o.name) >= 2)
}

/// How the other files decide an object's problem: each problem reported
/// is at an object it fits (`problem_fits`), so a name that exactly one
/// other file defines is never reported, "undefined" means that no other
/// file defines the name, and "defined in multiple places" that two or more
/// do.
pub proof fn lemma_object_diags_counts(
    objs: Seq<ObjectV>,
    this_file: Seq<IdentV>,
    vars: Seq<(Seq<char>, Seq<IdentV>)>,
    file: Seq<char>,
    ignore_globals: bool,
)
    ensures
        forall|k: int|
            0 <= k < object_diags(objs, this_file, vars, file, ignore_globals).len() ==> exists|i: int|
                0 <= i < objs.len() && (#[trigger] object_diags(objs, this_file, vars, file, ignore_globals)[k]).1
                    == object_ident(objs[i])
                    && problem_fits(object_diags(objs, this_file, vars, file, ignore_globals)[k].0, objs[i], this_file, vars, file, ignore_globals),
    decreases objs.len(),
{
    if objs.len() > 0 {
        let rest = objs.drop_last();
        lemma_object_diags_counts(rest, this_file, vars, file, ignore_globals);
        let d = object_diags(objs, this_file, vars, file, ignore_globals);
        let dr = object_diags(rest, this_file, vars, file, ignore_globals);
        let o = objs.last();
        assert(objs[objs.len() - 1] == o);
        assert forall|k: int| 0 <= k < d.len() implies exists|i: int|
            0 <= i < objs.len() && (#[trigger] d[k]).1 == object_ident(objs[i])
                && problem_fits(d[k].0, objs[i], this_file, vars, file, ignore_globals) by {
            if k < dr.len() {
                assert(d[k] == dr[k]);
                let i = choose|i: int|
                    0 <= i < rest.len() && (#[trigger] dr[k]).1 == object_ident(rest[i])
                        && problem_fits(dr[k].0, rest[i], this_file, vars, file, ignore_globals);
                assert(rest[i] == objs[i]);
            } else {
                let i = objs.len() - 1;
                assert(d[k].1 == object_ident(objs[i]));
                assert(problem_fits(d[k].0, objs[i], this_file, vars, file, ignore_globals)) by {
                    reveal(problem_fits);
                }
            }
        }
    }
}

/// Each object that is neither a filter nor a test, that no definition of
/// the file covers, and whose name is not defined in exactly one other file
/// is reported, unless undefined names are hidden.
pub proof fn lemma_object_diags_complete(
    objs: Seq<ObjectV>,
    this_file: Seq<IdentV>,
    vars: Seq<(Seq<char>, Seq<IdentV>)>,
    file: Seq<char>,
    ignore_globals: bool,
    i: int,
)
    requires
        0 <= i < objs.len(),
        !objs[i].is_filter,
        !objs[i].is_test,
        !located(objs[i], this_file),
        !ignore_globals,
        others_count(vars, file, objs[i].name) != 1,
    ensures
        exists|k: int|
            0 <= k < object_diags(objs, this_file, vars, file, ignore_globals).len()
                && #[trigger] object_diags(objs, this_file, vars, file, ignore_globals)[k].1 == object_ident(objs[i]),
    decreases objs.len(),
{
    let d = object_diags(objs, this_file, vars, file, ignore_globals);
    let rest = objs.drop_last();
    let dr = object_diags(rest, this_file, vars, file, ignore_globals);
    if i < objs.len() - 1 {
        assert(rest[i] == objs[i]);
        lemma_object_diags_complete(rest, this_file, vars, file, ignore_globals, i);
        let k = choose|k: int| 0 <= k < dr.len() && #[trigger] dr[k].1 == object_ident(rest[i]);
        assert(d[k] == dr[k]);
    } else {
        assert(objs.last() == objs[i]);
        assert(d[dr.len() as int].1 == object_ident(objs[i]));
    }
}

/// The problems with the templates a template names: a template with no
/// name is not found; one whose file is missing is not found and may be
/// created.
pub open spec fn template_diags(ts: Seq<IdentV>, missing: Seq<Seq<char>>) -> Seq<(JinjaDiagnosticV, IdentV)>
    decreases ts.len(),
{
    if ts.len() == 0 {
        Seq::empty()
    } else {
        let rest = template_diags(ts.drop_last(), missing);
        let t = ts.last();
        if t.identifier_type != IdentifierType::JinjaTemplate {
            rest
        } else if t.name.len() == 0 {
            rest.push((JinjaDiagnosticV::TemplateNotFound, t))
        } else if missing.contains(t.name) {
            rest.push((JinjaDiagnosticV::TemplateNotFound, t)).push((JinjaDiagnosticV::CreateNewTemplate, t))
        } else {
            rest
        }
    }
}

/// The problems with the templates a backend file names: each whose file is
/// missing is not found.
pub open spec fn backend_diags(ts: Seq<IdentV>, missing: Seq<Seq<char>>) -> Seq<(JinjaDiagnosticV, IdentV)>
    decreases ts.len(),
{
    if ts.len() == 0 {
        Seq::empty()
    } else {
        let rest = backend_diags(ts.drop_last(), missing);
        let t = ts.last();
        if t.identifier_type == IdentifierType::JinjaTemplate && missing.contains(t.name) {
            rest.push((JinjaDiagnosticV::TemplateNotFound, t))
        } else {
            rest
        }
    }
}

/// The plain values of a list of problems.
pub open spec fn diags_view(d: Seq<(JinjaDiagnostic, Identifier)>) -> Seq<(JinjaDiagnosticV, IdentV)> {
    d.map_values(|x: (JinjaDiagnostic, Identifier)| (x.0@, x.1@))
}

/// The plain values of a list of names.
pub open spec fn names_view(v: Seq<String>) -> Seq<Seq<char>> {
    v.map_values(|s: String| s@)
}

/// The identifiers of the first file named `file`.
pub fn lookup_file<'a>(vars: &'a Vec<(String, Vec<Identifier>)>, file: &str) -> (r: Option<&'a Vec<Identifier>>)
    ensures
        match r {
            Some(v) => lookup(vars_view(vars@), file@) == Some(idents_view(v@)),
            None => lookup(vars_view(vars@), file@) is None,
        },
{
    let ghost vv = vars_view(vars@);
    let mut i: usize = 0;
    proof {
        assert(vv.skip(0) =~= vv);
    }
    while i < vars.len()
        invariant
            vv == vars_view(vars@),
            i <= vars@.len(),
            lookup(vv, file@) == lookup(vv.skip(i as int), file@),
        decreases vars.len() - i,
    {
        proof {
            assert(vv.skip(i as int)[0] == (vars@[i as int].0@, idents_view(vars@[i as int].1@)));
            assert(vv.skip(i as int).drop_first() =~= vv.skip(i + 1));
        }
        if str_eq(vars[i].0.as_str(), file) {
            return Some(&vars[i].1);
        }
        i = i + 1;
    }
    None
}

/// Whether `name` is among the names.
pub fn contains_name(names: &Vec<String>, name: &str) -> (b: bool)
    ensures
        b == names_view(names@).contains(name@),
{
    let mut i: usize = 0;
    while i < names.len()
        invariant
            i <= names@.len(),
            forall|j: int| 0 <= j < i ==> names@[j]@ != name@,
        decreases names.len() - i,
    {
        if str_eq(names[i].as_str(), name) {
            assert(names_view(names@)[i as int] == name@);
            return true;
        }
        i = i + 1;
    }
    proof {
        if names_view(names@).contains(name@) {
            let j = choose|j: int| 0 <= j < names_view(names@).len() && names_view(names@)[j] == name@;
            assert(names@[j]@ == name@);
        }
    }
    false
}

/// The lesser of a count and two.
pub open spec fn capped(n: int) -> int {
    if n > 2 { 2 } else { n }
}

fn count_named_capped(vs: &Vec<Identifier>, name: &str, start: u8) -> (r: u8)
    requires
        start <= 2,
    ensures
        r == capped(start + count_named(idents_view(vs@), name@)),
{
    let ghost v = idents_view(vs@);
    let mut c: u8 = start;
    let mut i: usize = 0;
    proof {
        assert(v.take(0) =~= Seq::<IdentV>::empty());
    }
    while i < vs.len()
        invariant
            v == idents_view(vs@),
            i <= vs@.len(),
            c == capped(start + count_named(v.take(i as int), name@)),
        decreases vs.len() - i,
    {
        proof {
            let t = v.take(i + 1);
            assert(t.drop_last() =~= v.take(i as int));
            assert(t.last() == vs@[i as int]@);
        }
        if str_eq(vs[i].name.as_str(), name) && c < 2 {
            c = c + 1;
        }
        i = i + 1;
    }
    proof {
        assert(v.take(i as int) =~= v);
    }
    c
}

/// How many identifiers named `name` the files other than `file` have, up to
/// two.
pub fn others_capped(vars: &Vec<(String, Vec<Identifier>)>, file: &str, name: &str) -> (r: u8)
    ensures
        r == capped(others_count(vars_view(vars@), file@, name@) as int),
{
    let ghost vv = vars_view(vars@);
    let mut c: u8 = 0;
    let mut i: usize = 0;
    proof {
        assert(vv.take(0) =~= Seq::<(Seq<char>, Seq<IdentV>)>::empty());
    }
    while i < vars.len()
        invariant
            vv == vars_view(vars@),
            i <= vars@.len(),
            c == capped(others_count(vv.take(i as int), file@, name@) as int),
        decreases vars.len() - i,
    {
        proof {
            let t = vv.take(i + 1);
            assert(t.drop_last() =~= vv.take(i as int));
            assert(t.last() == vv[i as int]);
        }
        if !str_eq(vars[i].0.as_str(), file) {
            c = count_named_capped(&vars[i].1, name, c);
        }
        i = i + 1;
    }
    proof {
        assert(vv.take(i as int) =~= vv);
    }
    c
}

fn is_located(o: &JinjaObject, this_file: &Vec<Identifier>) -> (b: bool)
    ensures
        b == located(o@, idents_view(this_file@)),
{
    let loc = o.location();
    let ghost tf = idents_view(this_file@);
    let mut i: usize = 0;
    while i < this_file.len()
        invariant
            tf == idents_view(this_file@),
            loc == object_location(o@),
            i <= this_file@.len(),
            forall|j: int| 0 <= j < i ==> !(#[trigger] tf[j].name == o@.name
                && tf[j].identifier_type != IdentifierType::TemplateBlock
                && p_le(tf[j].start, loc.1)
                && p_lt(loc.0, tf[j].scope_ends.1)),
        decreases this_file.len() - i,
    {
        let v = &this_file[i];
        assert(tf[i as int] == v@);
        if str_eq(v.name.as_str(), o.name.as_str()) && v.identifier_type != IdentifierType::TemplateBlock
            && v.start.le(&loc.1) && loc.0.lt(&v.scope_ends.1) {
            assert(tf[i as int].name == o@.name);
            return true;
        }
        i = i + 1;
    }
    false
}

/// The identifier an object is reported at.
pub fn object_identifier(o: &JinjaObject) -> (r: Identifier)
    ensures
        r@ == object_ident(o@),
{
    let mut r = Identifier::new(o.name.as_str(), o.location.0, o.location.1);
    r.fields = crate::search::copy_fields(&o.fields);
    r
}

/// The problems with the objects of a template, given the identifiers of
/// its own file and of every file.
pub fn object_errors(
    objects: &Vec<JinjaObject>,
    this_file: &Vec<Identifier>,
    variables: &Vec<(String, Vec<Identifier>)>,
    file_name: &str,
    ignore_globals: bool,
) -> (r: Vec<(JinjaDiagnostic, Identifier)>)
    ensures
        diags_view(r@) == object_diags(objects_view(objects@), idents_view(this_file@), vars_view(variables@), file_name@, ignore_globals),
{
    let ghost objs = objects_view(objects@);
    let ghost tf = idents_view(this_file@);
    let ghost vv = vars_view(variables@);
    let mut r: Vec<(JinjaDiagnostic, Identifier)> = Vec::new();
    let mut i: usize = 0;
    proof {
        assert(objs.take(0) =~= Seq::<ObjectV>::empty());
        assert(diags_view(r@) =~= Seq::<(JinjaDiagnosticV, IdentV)>::empty());
    }
    while i < objects.len()
        invariant
            objs == objects_view(objects@),
            tf == idents_view(this_file@),
            vv == vars_view(variables@),
            i <= objects@.len(),
            diags_view(r@) == object_diags(objs.take(i as int), tf, vv, file_name@, ignore_globals),
        decreases objects.len() - i,
    {
        let o = &objects[i];
        proof {
            let t = objs.take(i + 1);
            assert(t.drop_last() =~= objs.take(i as int));
            assert(t.last() == o@);
        }
        if !(o.is_filter || o.is_test) && !is_located(o, this_file) && !ignore_globals {
            let c = others_capped(variables, file_name, o.name.as_str());
            let ghost prev = r@;
            if c == 0 {
                r.push((JinjaDiagnostic::Undefined, object_identifier(o)));
                proof {
                    assert(diags_view(r@) =~= diags_view(prev).push((JinjaDiagnosticV::Undefined, object_ident(o@))));
                }
            } else if c == 2 {
                r.push((JinjaDiagnostic::DefinedInMultiplePlaces, object_identifier(o)));
                proof {
                    assert(diags_view(r@) =~= diags_view(prev).push((JinjaDiagnosticV::DefinedInMultiplePlaces, object_ident(o@))));
                }
            }
        }
        i = i + 1;
    }
    proof {
        assert(objs.take(i as int) =~= objs);
    }
    r
}

/// The problems with the templates a template names, given the names whose
/// files are missing.
pub fn template_errors(templates: &Vec<Identifier>, missing: &Vec<String>) -> (r: Vec<(JinjaDiagnostic, Identifier)>)
    ensures
        diags_view(r@) == template_diags(idents_view(templates@), names_view(missing@)),
{
    let ghost ts = idents_view(templates@);
    let mut r: Vec<(JinjaDiagnostic, Identifier)> = Vec::new();
    let mut i: usize = 0;
    proof {
        assert(ts.take(0) =~= Seq::<IdentV>::empty());
        assert(diags_view(r@) =~= Seq::<(JinjaDiagnosticV, IdentV)>::empty());
    }
    while i < templates.len()
        invariant
            ts == idents_view(templates@),
            i <= templates@.len(),
            diags_view(r@) == template_diags(ts.take(i as int), names_view(missing@)),
        decreases templates.len() - i,
    {
        let t = &templates[i];
        proof {
            let s = ts.take(i + 1);
            assert(s.drop_last() =~= ts.take(i as int));
            assert(s.last() == t@);
        }
        let ghost prev = r@;
        if t.identifier_type == IdentifierType::JinjaTemplate {
            if t.name.as_str().is_empty() {
                r.push((JinjaDiagnostic::TemplateNotFound, t.copy()));
                proof {
                    assert(diags_view(r@) =~= diags_view(prev).push((JinjaDiagnosticV::TemplateNotFound, t@)));
                }
            } else if contains_name(missing, t.name.as_str()) {
                r.push((JinjaDiagnostic::TemplateNotFound, t.copy()));
                r.push((JinjaDiagnostic::CreateNewTemplate, t.copy()));
                proof {
                    assert(diags_view(r@) =~= diags_view(prev).push((JinjaDiagnosticV::TemplateNotFound, t@)).push(
                        (JinjaDiagnosticV::CreateNewTemplate, t@)));
                }
            }
        }
        i = i + 1;
    }
    proof {
        assert(ts.take(i as int) =~= ts);
    }
    r
}

/// The problems with the templates a backend file names, given the names
/// whose files are missing.
pub fn backend_errors(templates: &Vec<Identifier>, missing: &Vec<String>) -> (r: Vec<(JinjaDiagnostic, Identifier)>)
    ensures
        diags_view(r@) == backend_diags(idents_view(templates@), names_view(missing@)),
{
    let ghost ts = idents_view(templates@);
    let mut r: Vec<(JinjaDiagnostic, Identifier)> = Vec::new();
    let mut i: usize = 0;
    proof {
        assert(ts.take(0) =~= Seq::<IdentV>::empty());
        assert(diags_view(r@) =~= Seq::<(JinjaDiagnosticV, IdentV)>::empty());
    }
    while i < templates.len()
        invariant
            ts == idents_view(templates@),
            i <= templates@.len(),
            diags_view(r@) == backend_diags(ts.take(i as int), names_view(missing@)),
        decreases templates.len() - i,
    {
        let t = &templates[i];
        proof {
            let s = ts.take(i + 1);
            assert(s.drop_last() =~= ts.take(i as int));
            assert(s.last() == t@);
        }
        let ghost prev = r@;
        if t.identifier_type == IdentifierType::JinjaTemplate && contains_name(missing, t.name.as_str()) {
            r.push((JinjaDiagnostic::TemplateNotFound, t.copy()));
            proof {
                assert(diags_view(r@) =~= diags_view(prev).push((JinjaDiagnosticV::TemplateNotFound, t@)));
            }
        }
        i = i + 1;
    }
    proof {
        assert(ts.take(i as int) =~= ts);
    }
    r
}

/// The problems of a template, given the matches of the objects query and
/// of the imports query over it: objects that are not defined where they are
/// used, then the templates it names that are missing (`missing_templates`
/// holds the names whose files are missing).  `None` exactly where the file
/// has no entry among `variables`, or where the text of a captured object is
/// not readable.  The names of the import statements come each statement
/// once and whole, the statements in an order that is not fixed.
pub fn template_errors_of_matches(
    object_matches: &Vec<Vec<Capture>>,
    import_matches: &Vec<Vec<Capture>>,
    variables: &Vec<(String, Vec<Identifier>)>,
    file_name: &str,
    missing_templates: &Vec<String>,
    ignore_globals: bool,
) -> (r: Option<Vec<(JinjaDiagnostic, Identifier)>>)
    ensures
        r is Some <==> (taken_texts(matches_view(object_matches@), Point { row: 0, column: 0 }, true)
            && lookup(vars_view(variables@), file_name@) is Some),
        r matches Some(d) ==> exists|ts: Seq<IdentV>|
            #![trigger template_diags(ts, names_view(missing_templates@))]
            lists_imports(spec_imports(matches_view(import_matches@), Point { row: 0, column: 0 }, true).imports, ts)
            && diags_view(d@) == object_diags(
                spec_objects(matches_view(object_matches@), Point { row: 0, column: 0 }, true).objects,
                lookup(vars_view(variables@), file_name@).unwrap(),
                vars_view(variables@),
                file_name@,
                ignore_globals,
            ) + template_diags(ts, names_view(missing_templates@)),
{
    let trigger_point = Point::zero();
    if !taken_readable(object_matches, trigger_point, true) {
        return None;
    }
    let objects = objects_from_matches(object_matches, trigger_point, true);
    let objects1 = objects.show();
    let this_file = lookup_file(variables, file_name)?;
    let mut diagnostics = object_errors(&objects1, this_file, variables, file_name, ignore_globals);
    let mut ids: Vec<Identifier> = Vec::new();
    let jinja_imports = imports_from_matches(import_matches, trigger_point, true);
    let ghost imports = jinja_imports@;
    jinja_imports.collect(&mut ids);
    let mut more = template_errors(&ids, missing_templates);
    let ghost d1 = diagnostics@;
    let ghost d2 = more@;
    diagnostics.append(&mut more);
    proof {
        assert(idents_view(ids@) =~= Seq::<IdentV>::empty() + idents_view(ids@));
        assert(lists_imports(imports.imports, idents_view(ids@)));
        assert(diags_view(diagnostics@) =~= diags_view(d1) + diags_view(d2));
    }
    Some(diagnostics)
}

/// The problems of a document.  For a template: objects that are not
/// defined where they are used, and templates it names that are missing;
/// for a backend file: templates it names that are missing.  Whether a
/// template's file exists is for the caller to find out: `missing_templates`
/// holds the names whose files are missing.  `None` where the file has no
/// entry among `variables`.  For a template, the objects query and the
/// imports query of `queries` run over `root` (the captures of each carry
/// that query's names), and `template_errors_of_matches` says what comes of
/// their matches; `None` also comes where a captured object's text is not
/// readable.
pub fn search_errors(
    root: &tree_sitter::Tree,
    source: &str,
    queries: &Queries,
    variables: &Vec<(String, Vec<Identifier>)>,
    file_name: &str,
    missing_templates: &Vec<String>,
    lang_type: LangType,
    ignore_globals: bool,
) -> (r: Option<Vec<(JinjaDiagnostic, Identifier)>>)
    ensures
        lookup(vars_view(variables@), file_name@) is None ==> r is None,
        lang_type == LangType::Backend ==> match r {
            Some(d) => diags_view(d@) == backend_diags(lookup(vars_view(variables@), file_name@).unwrap(), names_view(missing_templates@)),
            None => lookup(vars_view(variables@), file_name@) is None,
        },
        lang_type == LangType::Template ==> exists|ms: Seq<Seq<CaptureV>>, ms2: Seq<Seq<CaptureV>>|
            names_within(ms, capture_names(queries.jinja_objects@.0, queries.jinja_objects@.1))
            && names_within(ms2, capture_names(queries.jinja_imports@.0, queries.jinja_imports@.1))
            && #[trigger] template_outcome(r, ms, ms2, vars_view(variables@), file_name@, names_view(missing_templates@), ignore_globals),
{
    match lang_type {
        LangType::Template => {
            let object_matches = query_matches(&queries.jinja_objects, root, source);
            let import_matches = query_matches(&queries.jinja_imports, root, source);
            let r = template_errors_of_matches(&object_matches, &import_matches, variables, file_name, missing_templates, ignore_globals);
            assert(template_outcome(r, matches_view(object_matches@), matches_view(import_matches@), vars_view(variables@), file_name@, names_view(missing_templates@), ignore_globals));
            r
        },
        LangType::Backend => {
            let all_variables = lookup_file(variables, file_name)?;
            Some(backend_errors(all_variables, missing_templates))
        },
    }
}

/// What the diagnostics of a template are, given the matches `ms` of the
/// objects query and `ms2` of the imports query over it: `None` exactly
/// where a captured object's text is not readable or the file has no entry
/// among `vars`; otherwise the objects that are not defined where they are
/// used, then the missing templates that the import statements name, each
/// statement once and whole, in an order that is not fixed.
pub open spec fn template_outcome(
    r: Option<Vec<(JinjaDiagnostic, Identifier)>>,
    ms: Seq<Seq<CaptureV>>,
    ms2: Seq<Seq<CaptureV>>,
    vars: Seq<(Seq<char>, Seq<IdentV>)>,
    file: Seq<char>,
    missing: Seq<Seq<char>>,
    ignore_globals: bool,
) -> bool {
    &&& (r is Some <==> (taken_texts(ms, Point { row: 0, column: 0 }, true) && lookup(vars, file) is Some))
    &&& (r matches Some(d) ==> exists|ts: Seq<IdentV>|
        #![trigger template_diags(ts, missing)]
        lists_imports(spec_imports(ms2, Point { row: 0, column: 0 }, true).imports, ts)
        && diags_view(d@) == object_diags(
            spec_objects(ms, Point { row: 0, column: 0 }, true).objects,
            lookup(vars, file).unwrap(),
            vars,
            file,
            ignore_globals,
        ) + template_diags(ts, missing))
}

/// A problem as the protocol reports it.
#[derive(Debug)]
pub struct Diagnostic {
    pub range: Range,
    pub severity: Option<DiagnosticSeverity>,
    pub message: String,
    pub source: Option<String>,
}

/// The protocol report of a problem at `template`, from this server.
pub fn create_diagnostic(template: &Identifier, severity: DiagnosticSeverity, message: String) -> (d: Diagnostic)
    ensures
        d.range == (Range { start: spec_to_position(template.start), end: spec_to_position(template.end) }),
        d.severity == Some(severity),
        d.message@ == message@,
        d.source matches Some(s) && s@ == "jinja-lsp"@,
{
    proof {
        reveal_strlit("jinja-lsp");
    }
    Diagnostic {
        range: Range::new(to_position2(template.start), to_position2(template.end)),
        severity: Some(severity),
        message,
        source: Some(copy_str("jinja-lsp")),
    }
}

/// The components of a template's path: the pieces of its name between
/// slashes.
pub fn path_items(template: &str) -> (r: Vec<String>)
    ensures
        names_view(r@) == split_on(template@, '/'),
{
    split_by(template, '/')
}

} // verus!
