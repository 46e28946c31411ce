//! What the server publishes for the problems found in one file: a report
//! for each problem, and the templates a code action may create.
use vstd::prelude::*;

use crate::lsp_helper::{create_diagnostic, diags_view, Diagnostic};
use crate::point::{spec_to_position, Range};
use crate::search::order::idents_view;
use crate::search::{IdentV, Identifier};
use crate::tree_builder::{spec_message, spec_severity, JinjaDiagnostic, JinjaDiagnosticV};

verus! {

/// The places of the problems that name a template that does not exist,
/// in the order of the problems.
pub open spec fn missing_templates(d: Seq<(JinjaDiagnosticV, IdentV)>) -> Seq<IdentV>
    decreases d.len(),
{
    if d.len() == 0 {
        Seq::empty()
    } else {
        let rest = missing_templates(d.drop_last());
        if d.last().0 is TemplateNotFound {
            rest.push(d.last().1)
        } else {
            rest
        }
    }
}

/// The identifiers of the problems that name a template that does not
/// exist: what a code action may offer to create.
pub fn template_not_found(errors: &Vec<(JinjaDiagnostic, Identifier)>) -> (r: Vec<Identifier>)
    ensures
        idents_view(r@) == missing_templates(diags_view(errors@)),
{
    let ghost d = diags_view(errors@);
    let mut r: Vec<Identifier> = Vec::new();
    let mut i: usize = 0;
    while i < errors.len()
        invariant
            d == diags_view(errors@),
            i <= errors@.len(),
            idents_view(r@) == missing_templates(d.take(i as int)),
        decreases errors.len() - i,
    {
        proof {
            assert(d.take(i + 1).drop_last() =~= d.take(i as int));
        }
        let ghost prev = r@;
        if matches!(errors[i].0, JinjaDiagnostic::TemplateNotFound) {
            r.push(errors[i].1.copy());
            proof {
                assert(idents_view(r@) =~= idents_view(prev).push(errors@[i as int].1@));
            }
        }
        i = i + 1;
    }
    proof {
        assert(d.take(i as int) =~= d);
    }
    r
}

/// Whether `r` is the report of the problem `e`: at its identifier, with
/// the severity and the message of its kind.
pub open spec fn reports(r: Diagnostic, e: (JinjaDiagnosticV, IdentV)) -> bool {
    &&& r.range == (Range { start: spec_to_position(e.1.start), end: spec_to_position(e.1.end) })
    &&& r.severity == Some(spec_severity(e.0))
    &&& r.message@ == spec_message(e.0)
    &&& r.source matches Some(s) && s@ == "jinja-lsp"@
}

/// The report of each problem, in order.
pub fn diagnostics_of(errors: &Vec<(JinjaDiagnostic, Identifier)>) -> (r: Vec<Diagnostic>)
    ensures
        r@.len() == errors@.len(),
        forall|i: int| 0 <= i < r@.len() ==> reports(#[trigger] r@[i], diags_view(errors@)[i]),
{
    let mut r: Vec<Diagnostic> = Vec::new();
    let mut i: usize = 0;
    while i < errors.len()
        invariant
            i <= errors@.len(),
            r@.len() == i,
            forall|j: int| 0 <= j < i ==> reports(#[trigger] r@[j], diags_view(errors@)[j]),
        decreases errors.len() - i,
    {
        let e = &errors[i];
        let d = create_diagnostic(&e.1, e.0.severity(), e.0.to_string());
        r.push(d);
        i = i + 1;
    }
    r
}

} // verus!
