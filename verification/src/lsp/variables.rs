//! The names the server keeps for each file it reads.
use vstd::prelude::*;

use crate::point::Point;
use crate::search::definition::{definition_query, definitions_outcome, flat_defs, spec_definitions, JinjaDefinitions};
use crate::search::order::{idents_view, sorted_idents};
use crate::search::queries::Queries;
use crate::search::rust_identifiers::{backend_definition_query, backend_walk, BackendIdentifiers};
use crate::search::rust_template_completion::{backend_templates_query, templates_walk, BackendTemplates};
use crate::search::snippets_completion::{no_snippets, snippets_query, snippets_walk, two_after, Snippets};
use crate::search::{IdentV, Identifier};
use crate::syntax::{all_texts, capture_count, capture_names, flat_captures, names_within, CaptureV};
use crate::tree_builder::LangType;

verus! {

/// The names of backend code: its definitions, then the templates it names.
pub fn backend_variables(ids: BackendIdentifiers, templates: BackendTemplates) -> (r: Vec<Identifier>)
    ensures
        idents_view(r@) == idents_view(ids.variables@) + idents_view(templates.templates@),
{
    let mut variables = ids.variables;
    let mut rest = templates.collect();
    let ghost a = variables@;
    let ghost b = rest@;
    variables.append(&mut rest);
    assert(idents_view(variables@) =~= idents_view(a) + idents_view(b));
    variables
}

/// The names of a template: every definition of every scope, sorted; none
/// when the template holds an unfinished block or its definitions could not
/// be read.
pub fn template_variables(snippets: &Snippets, definitions: Option<JinjaDefinitions>) -> (r: Option<Vec<Identifier>>)
    ensures
        match r {
            Some(v) => {
                &&& !snippets.is_error
                &&& definitions matches Some(d)
                &&& sorted_idents(idents_view(v@))
                &&& idents_view(v@).to_multiset() == flat_defs(d.definitions@).to_multiset()
            },
            None => snippets.is_error || definitions is None,
        },
{
    if snippets.is_error {
        return None;
    }
    match definitions {
        Some(d) => Some(d.collect()),
        None => None,
    }
}

/// `v` is what a template keeps from the definitions walk over the matches
/// `ms` of a tree ending at `e`: every definition of every scope, sorted.
pub open spec fn template_names(v: Seq<IdentV>, ms: Seq<Seq<CaptureV>>, e: Point) -> bool {
    exists|d: JinjaDefinitions|
        d@ == spec_definitions(ms, e, Point { row: 0, column: 0 }, true) && sorted_idents(v) && v.to_multiset()
            == #[trigger] flat_defs(d.definitions@).to_multiset()
}

/// What a template keeps, given the matches `ms0` of the snippets query and
/// `ms` of the definitions query over a tree ending at `e`: nothing exactly
/// where the template holds an unfinished block or the definitions walk
/// gives up (`definitions_outcome`), and otherwise every definition of
/// every scope, sorted.
pub open spec fn template_outcome(r: Option<Vec<Identifier>>, ms0: Seq<Seq<CaptureV>>, ms: Seq<Seq<CaptureV>>, e: Point) -> bool {
    &&& (r is Some <==> (!snippets_walk(no_snippets(), flat_captures(ms0, two_after(Point { row: 0, column: 0 }), true)).is_error
        && all_texts(ms) && capture_count(ms) < usize::MAX))
    &&& (r matches Some(v) ==> template_names(idents_view(v@), ms, e))
}

/// `v` is what backend code keeps from the definitions walk over the
/// matches `ms1` and the templates walk over the matches `ms2`.
pub open spec fn backend_names(v: Seq<IdentV>, ms1: Seq<Seq<CaptureV>>, ms2: Seq<Seq<CaptureV>>) -> bool {
    v == backend_walk(Seq::empty(), flat_captures(ms1, Point { row: 0, column: 0 }, true)) + templates_walk(
        Seq::empty(),
        false,
        flat_captures(ms2, Point { row: 0, column: 0 }, true),
    ).0
}


/// `v` is what backend code keeps from some lists of matches of its two
/// queries, whose captures carry the names `names1` and `names2`.
pub open spec fn backend_kept(v: Seq<IdentV>, names1: Seq<Seq<char>>, names2: Seq<Seq<char>>) -> bool {
    exists|ms1: Seq<Seq<CaptureV>>, ms2: Seq<Seq<CaptureV>>|
        names_within(ms1, names1) && names_within(ms2, names2) && #[trigger] backend_names(v, ms1, ms2)
}

/// Runs the queries of a file's kind over its tree and keeps the names it
/// defines: for backend code, its definitions and then the templates it
/// names; for a template with no unfinished block, its definitions, sorted.
/// What the queries find comes from the parse tree: each walk is over some
/// list of its query's matches.  A template gives nothing where it holds an
/// unfinished block or its definitions cannot be read.
pub fn file_variables(queries: &Queries, lang_type: LangType, tree: &tree_sitter::Tree, text: &str) -> (r: Option<Vec<Identifier>>)
    ensures
        lang_type == LangType::Backend ==> r is Some,
        lang_type == LangType::Backend ==> (r matches Some(v) ==> backend_kept(
            idents_view(v@),
            capture_names(queries.backend_definitions@.0, queries.backend_definitions@.1),
            capture_names(queries.backend_templates@.0, queries.backend_templates@.1),
        )),
        lang_type == LangType::Template ==> exists|ms0: Seq<Seq<CaptureV>>, ms: Seq<Seq<CaptureV>>, e: Point|
            names_within(ms0, capture_names(queries.jinja_snippets@.0, queries.jinja_snippets@.1))
            && names_within(ms, capture_names(queries.jinja_definitions@.0, queries.jinja_definitions@.1))
            && #[trigger] template_outcome(r, ms0, ms, e),
{
    let start = Point::zero();
    match lang_type {
        LangType::Backend => {
            let ids = backend_definition_query(&queries.backend_definitions, tree, start, text, true);
            let templates = backend_templates_query(&queries.backend_templates, tree, start, text, true);
            let ghost a = idents_view(ids.variables@);
            let ghost b = (idents_view(templates.templates@), templates.in_method);
            let v = backend_variables(ids, templates);
            proof {
                let ms1 = choose|ms1: Seq<Seq<CaptureV>>|
                    names_within(ms1, capture_names(queries.backend_definitions@.0, queries.backend_definitions@.1))
                    && a == #[trigger] backend_walk(Seq::empty(), flat_captures(ms1, start, true));
                let ms2 = choose|ms2: Seq<Seq<CaptureV>>|
                    names_within(ms2, capture_names(queries.backend_templates@.0, queries.backend_templates@.1))
                    && b == #[trigger] templates_walk(Seq::empty(), false, flat_captures(ms2, start, true));
                assert(backend_names(idents_view(v@), ms1, ms2));
                assert(backend_kept(
                    idents_view(v@),
                    capture_names(queries.backend_definitions@.0, queries.backend_definitions@.1),
                    capture_names(queries.backend_templates@.0, queries.backend_templates@.1),
                ));
            }
            Some(v)
        },
        LangType::Template => {
            let snippets = snippets_query(&queries.jinja_snippets, tree, start, text, true);
            let definitions = definition_query(&queries.jinja_definitions, tree, start, text, true);
            let ghost dv = definitions;
            let r = template_variables(&snippets, definitions);
            proof {
                let (ms, e) = choose|ms: Seq<Seq<CaptureV>>, e: Point|
                    names_within(ms, capture_names(queries.jinja_definitions@.0, queries.jinja_definitions@.1))
                    && #[trigger] definitions_outcome(dv, ms, e, start, true);
                let ms0 = choose|ms0: Seq<Seq<CaptureV>>|
                    names_within(ms0, capture_names(queries.jinja_snippets@.0, queries.jinja_snippets@.1))
                    && snippets == #[trigger] snippets_walk(no_snippets(), flat_captures(ms0, two_after(start), true));
                if r is Some {
                    let v = r.unwrap();
                    let d = dv.unwrap();
                    assert(template_names(idents_view(v@), ms, e));
                }
                assert(template_outcome(r, ms0, ms, e));
            }
            r
        },
    }
}

} // verus!
