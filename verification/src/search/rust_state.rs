use vstd::prelude::*;

use crate::lsp_helper::{contains_name, names_view, Diagnostic};
use crate::point::{spec_to_position, to_position2, Point, Range};
use crate::search::order::idents_view;
use crate::search::rust_identifiers::{backend_definition_query, backend_walk, BackendIdentifiers};
use crate::search::rust_template_completion::{backend_templates_query, templates_walk, BackendTemplates};
use crate::syntax::{capture_names, flat_captures, names_within, CaptureV};
use crate::search::IdentV;
use crate::text::copy_str;
use crate::tree_builder::DiagnosticSeverity;

verus! {

/// What the two backend queries found in one document.
#[derive(Debug)]
pub struct RustState {
    pub rust_identifiers: BackendIdentifiers,
    pub rust_templates: BackendTemplates,
}

/// The plain values of a diagnostic: its range, severity, message and source.
pub open spec fn diagnostic_view(d: Diagnostic) -> (Range, Option<DiagnosticSeverity>, Seq<char>, Option<Seq<char>>) {
    (d.range, d.severity, d.message@, match d.source { Some(s) => Some(s@), None => None })
}

/// A warning that the template named at `t` is not found.
pub open spec fn not_found_warning(t: IdentV) -> (Range, Option<DiagnosticSeverity>, Seq<char>, Option<Seq<char>>) {
    (
        Range { start: spec_to_position(t.start), end: spec_to_position(t.end) },
        Some(DiagnosticSeverity::Warning),
        "Template not found"@,
        Some("jinja-lsp"@),
    )
}

/// A warning for each template whose file is missing, in order.
pub open spec fn missing_warnings(ts: Seq<IdentV>, missing: Seq<Seq<char>>) -> Seq<(Range, Option<DiagnosticSeverity>, Seq<char>, Option<Seq<char>>)>
    decreases ts.len(),
{
    if ts.len() == 0 {
        Seq::empty()
    } else if missing.contains(ts.last().name) {
        missing_warnings(ts.drop_last(), missing).push(not_found_warning(ts.last()))
    } else {
        missing_warnings(ts.drop_last(), missing)
    }
}

impl RustState {
    /// Runs the backend definitions and templates queries.  What each walk
    /// sees comes from the parse tree: each result is the walk over some
    /// list of its query's matches, whose captures carry that query's names.
    pub fn init(
        trigger_point: Point,
        query: (&crate::syntax::SourcedQuery, &crate::syntax::SourcedQuery),
        tree: &tree_sitter::Tree,
        source: &str,
        all: bool,
    ) -> (r: RustState)
        ensures
            exists|ms: Seq<Seq<CaptureV>>|
                names_within(ms, capture_names(query.0@.0, query.0@.1))
                && idents_view(r.rust_identifiers.variables@) == #[trigger] backend_walk(
                    Seq::empty(),
                    flat_captures(ms, trigger_point, all),
                ),
            exists|ms: Seq<Seq<CaptureV>>|
                names_within(ms, capture_names(query.1@.0, query.1@.1))
                && (idents_view(r.rust_templates.templates@), r.rust_templates.in_method) == #[trigger] templates_walk(
                    Seq::empty(),
                    false,
                    flat_captures(ms, trigger_point, all),
                ),
    {
        let ids = backend_definition_query(query.0, tree, trigger_point, source, all);
        let templates = backend_templates_query(query.1, tree, trigger_point, source, all);
        RustState { rust_identifiers: ids, rust_templates: templates }
    }

    /// Forgets everything found.
    pub fn reset(&mut self)
        ensures
            final(self).rust_identifiers.variables@.len() == 0,
            final(self).rust_templates.templates@.len() == 0,
            !final(self).rust_templates.in_method,
    {
        self.rust_identifiers = BackendIdentifiers::new();
        self.rust_templates = BackendTemplates::new();
    }

    /// A warning for each template the backend renders whose file is
    /// missing; `missing` holds the names of those templates.
    pub fn template_errors(&self, missing: &Vec<String>) -> (r: Vec<Diagnostic>)
        ensures
            r@.map_values(|d: Diagnostic| diagnostic_view(d))
                == missing_warnings(idents_view(self.rust_templates.templates@), names_view(missing@)),
    {
        proof {
            reveal_strlit("Template not found");
            reveal_strlit("jinja-lsp");
        }
        let ghost ts = idents_view(self.rust_templates.templates@);
        let mut diagnostics: Vec<Diagnostic> = Vec::new();
        let mut i: usize = 0;
        proof {
            assert(ts.take(0) =~= Seq::<IdentV>::empty());
            assert(diagnostics@.map_values(|d: Diagnostic| diagnostic_view(d)) =~= Seq::empty());
        }
        while i < self.rust_templates.templates.len()
            invariant
                ts == idents_view(self.rust_templates.templates@),
                i <= ts.len(),
                diagnostics@.map_values(|d: Diagnostic| diagnostic_view(d)) == missing_warnings(ts.take(i as int), names_view(missing@)),
            decreases self.rust_templates.templates.len() - i,
        {
            let id = &self.rust_templates.templates[i];
            proof {
                let t = ts.take(i + 1);
                assert(t.drop_last() =~= ts.take(i as int));
                assert(t.last() == id@);
            }
            if contains_name(missing, id.name.as_str()) {
                let d = Diagnostic {
                    range: Range::new(to_position2(id.start), to_position2(id.end)),
                    severity: Some(DiagnosticSeverity::Warning),
                    message: copy_str("Template not found"),
                    source: Some(copy_str("jinja-lsp")),
                };
                let ghost prev = diagnostics@;
                diagnostics.push(d);
                proof {
                    assert(diagnostics@.map_values(|d: Diagnostic| diagnostic_view(d))
                        =~= prev.map_values(|d: Diagnostic| diagnostic_view(d)).push(not_found_warning(id@)));
                }
            }
            i = i + 1;
        }
        proof {
            assert(ts.take(i as int) =~= ts);
        }
        diagnostics
    }
}

} // verus!
