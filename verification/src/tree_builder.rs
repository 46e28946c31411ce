use vstd::prelude::*;

use crate::point::Point;
use crate::search::definition::{error_scope, Scope, ScopeError, ScopeErrorV, ScopeV};
use crate::search::{new_ident, IdentV, Identifier};
use crate::text::{joined, copy_str};

verus! {

/// The two kinds of documents the server reads.
#[derive(Clone, Copy, PartialEq, Eq, Structural, Debug, Hash)]
pub enum LangType {
    /// A Jinja template.
    Template,
    /// Source code of the backend that renders the templates.
    Backend,
}

/// How severe a diagnostic is, as the protocol grades it.
#[derive(Clone, Copy, PartialEq, Eq, Structural, Debug)]
pub enum DiagnosticSeverity {
    Error,
    Warning,
    Information,
    Hint,
}

/// A problem found in a document.
#[derive(Debug)]
pub enum JinjaDiagnostic {
    Undefined,
    DefinedInMultiplePlaces,
    TemplateNotFound,
    CreateNewTemplate,
    ScopeError(ScopeError),
}

pub enum JinjaDiagnosticV {
    Undefined,
    DefinedInMultiplePlaces,
    TemplateNotFound,
    CreateNewTemplate,
    ScopeError(ScopeErrorV),
}

impl View for JinjaDiagnostic {
    type V = JinjaDiagnosticV;

    open spec fn view(&self) -> JinjaDiagnosticV {
        match self {
            JinjaDiagnostic::Undefined => JinjaDiagnosticV::Undefined,
            JinjaDiagnostic::DefinedInMultiplePlaces => JinjaDiagnosticV::DefinedInMultiplePlaces,
            JinjaDiagnostic::TemplateNotFound => JinjaDiagnosticV::TemplateNotFound,
            JinjaDiagnostic::CreateNewTemplate => JinjaDiagnosticV::CreateNewTemplate,
            JinjaDiagnostic::ScopeError(e) => JinjaDiagnosticV::ScopeError(e@),
        }
    }
}

/// The severity of each kind of problem.
pub open spec fn spec_severity(d: JinjaDiagnosticV) -> DiagnosticSeverity {
    match d {
        JinjaDiagnosticV::Undefined => DiagnosticSeverity::Warning,
        JinjaDiagnosticV::TemplateNotFound => DiagnosticSeverity::Error,
        JinjaDiagnosticV::DefinedInMultiplePlaces => DiagnosticSeverity::Information,
        JinjaDiagnosticV::CreateNewTemplate => DiagnosticSeverity::Hint,
        JinjaDiagnosticV::ScopeError(_) => DiagnosticSeverity::Hint,
    }
}

/// The message shown for each kind of problem.
pub open spec fn spec_message(d: JinjaDiagnosticV) -> Seq<char> {
    match d {
        JinjaDiagnosticV::Undefined => "Undefined variable"@,
        JinjaDiagnosticV::TemplateNotFound => "Template not found"@,
        JinjaDiagnosticV::DefinedInMultiplePlaces => "Defined in multiple places"@,
        JinjaDiagnosticV::CreateNewTemplate => "Create new template with code actions."@,
        JinjaDiagnosticV::ScopeError(e) => match e {
            ScopeErrorV::WrongEndScopeKeyword(s) => "Expected `end"@ + s.keyword + "` keyword"@,
            ScopeErrorV::ElifStatement(_) => "Elif statement called before if"@,
            ScopeErrorV::ElseStatement(_) => "Else statement called before if or elif"@,
        },
    }
}

impl JinjaDiagnostic {
    pub fn severity(&self) -> (s: DiagnosticSeverity)
        ensures
            s == spec_severity(self@),
    {
        match self {
            JinjaDiagnostic::Undefined => DiagnosticSeverity::Warning,
            JinjaDiagnostic::TemplateNotFound => DiagnosticSeverity::Error,
            JinjaDiagnostic::DefinedInMultiplePlaces => DiagnosticSeverity::Information,
            JinjaDiagnostic::CreateNewTemplate => DiagnosticSeverity::Hint,
            JinjaDiagnostic::ScopeError(_) => DiagnosticSeverity::Hint,
        }
    }

    /// The message of this problem.
    pub fn to_string(&self) -> (s: String)
        ensures
            s@ == spec_message(self@),
    {
        proof {
            reveal_strlit("Undefined variable");
            reveal_strlit("Template not found");
            reveal_strlit("Defined in multiple places");
            reveal_strlit("Create new template with code actions.");
            reveal_strlit("Expected `end");
            reveal_strlit("` keyword");
            reveal_strlit("Elif statement called before if");
            reveal_strlit("Else statement called before if or elif");
        }
        match self {
            JinjaDiagnostic::Undefined => copy_str("Undefined variable"),
            JinjaDiagnostic::TemplateNotFound => copy_str("Template not found"),
            JinjaDiagnostic::DefinedInMultiplePlaces => copy_str("Defined in multiple places"),
            JinjaDiagnostic::CreateNewTemplate => copy_str("Create new template with code actions."),
            JinjaDiagnostic::ScopeError(e) => match e {
                ScopeError::WrongEndScopeKeyword(scope) => {
                    let head = joined("Expected `end", scope.keyword.as_str());
                    joined(head.as_str(), "` keyword")
                },
                ScopeError::ElifStatement(_) => copy_str("Elif statement called before if"),
                ScopeError::ElseStatement(_) => copy_str("Else statement called before if or elif"),
            },
        }
    }
}

impl Scope {
    /// A copy of this scope.
    pub fn copy(&self) -> (r: Scope)
        ensures
            r@ == self@,
    {
        Scope { id: self.id, keyword: copy_str(self.keyword.as_str()), start: self.start, end: self.end }
    }
}

impl ScopeError {
    /// A copy of this error.
    pub fn copy(&self) -> (r: ScopeError)
        ensures
            r@ == self@,
    {
        match self {
            ScopeError::WrongEndScopeKeyword(s) => ScopeError::WrongEndScopeKeyword(s.copy()),
            ScopeError::ElifStatement(s) => ScopeError::ElifStatement(s.copy()),
            ScopeError::ElseStatement(s) => ScopeError::ElseStatement(s.copy()),
        }
    }

    /// The problem this error reports, and where: an unnamed identifier that
    /// spans the keyword of the scope.
    pub fn diagnostic(&self) -> (r: (JinjaDiagnostic, Identifier))
        ensures
            r.0@ == JinjaDiagnosticV::ScopeError(self@),
            r.1@ == (IdentV {
                start: error_scope(self@).start,
                end: error_scope(self@).end,
                ..new_ident(Seq::empty(), Point { row: 0, column: 0 }, Point { row: 0, column: 0 })
            }),
    {
        (JinjaDiagnostic::ScopeError(self.copy()), self.diagnostic_location())
    }
}

} // verus!
