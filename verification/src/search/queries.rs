use vstd::prelude::*;

use crate::syntax::{query_accepted, Grammar};
use crate::text::str_eq;

verus! {

/// The tree-sitter queries the server runs.
pub struct Queries {
    pub jinja_definitions: crate::syntax::SourcedQuery,
    pub jinja_objects: crate::syntax::SourcedQuery,
    pub jinja_imports: crate::syntax::SourcedQuery,
    pub backend_definitions: crate::syntax::SourcedQuery,
    pub backend_templates: crate::syntax::SourcedQuery,
    pub jinja_snippets: crate::syntax::SourcedQuery,
    pub python_identifiers: crate::syntax::SourcedQuery,
}

/// The sources of the queries: four over Jinja templates, two over Rust
/// backends and one over Python.
pub struct QuerySources<'a> {
    pub jinja_definitions: &'a str,
    pub jinja_objects: &'a str,
    pub jinja_imports: &'a str,
    pub jinja_snippets: &'a str,
    pub rust_definitions: &'a str,
    pub rust_paths: &'a str,
    pub python_identifiers: &'a str,
}

/// Tree-sitter accepts each of the sources as a query over its grammar.
pub open spec fn sources_accepted(src: &QuerySources) -> bool {
    &&& query_accepted(Grammar::Jinja, src.jinja_definitions@)
    &&& query_accepted(Grammar::Jinja, src.jinja_objects@)
    &&& query_accepted(Grammar::Jinja, src.jinja_imports@)
    &&& query_accepted(Grammar::Jinja, src.jinja_snippets@)
    &&& query_accepted(Grammar::Rust, src.rust_definitions@)
    &&& query_accepted(Grammar::Rust, src.rust_paths@)
    &&& query_accepted(Grammar::Python, src.python_identifiers@)
}

impl Queries {
    /// Builds every query with its grammar; `None` exactly where one of the
    /// sources is not a valid query.
    pub fn new(src: &QuerySources) -> (r: Option<Queries>)
        ensures
            r is Some == sources_accepted(src),
            r matches Some(q) ==> {
                &&& q.jinja_definitions@ == (Grammar::Jinja, src.jinja_definitions@)
                &&& q.jinja_objects@ == (Grammar::Jinja, src.jinja_objects@)
                &&& q.jinja_imports@ == (Grammar::Jinja, src.jinja_imports@)
                &&& q.jinja_snippets@ == (Grammar::Jinja, src.jinja_snippets@)
                &&& q.backend_definitions@ == (Grammar::Rust, src.rust_definitions@)
                &&& q.backend_templates@ == (Grammar::Rust, src.rust_paths@)
                &&& q.python_identifiers@ == (Grammar::Python, src.python_identifiers@)
            },
    {
        let jinja_definitions = crate::syntax::SourcedQuery::new(Grammar::Jinja, src.jinja_definitions);
        let jinja_objects = crate::syntax::SourcedQuery::new(Grammar::Jinja, src.jinja_objects);
        let jinja_imports = crate::syntax::SourcedQuery::new(Grammar::Jinja, src.jinja_imports);
        let jinja_snippets = crate::syntax::SourcedQuery::new(Grammar::Jinja, src.jinja_snippets);
        let backend_definitions = crate::syntax::SourcedQuery::new(Grammar::Rust, src.rust_definitions);
        let backend_templates = crate::syntax::SourcedQuery::new(Grammar::Rust, src.rust_paths);
        let python_identifiers = crate::syntax::SourcedQuery::new(Grammar::Python, src.python_identifiers);
        match (jinja_definitions, jinja_objects, jinja_imports, jinja_snippets, backend_definitions, backend_templates, python_identifiers) {
            (Some(a), Some(b), Some(c), Some(d), Some(e), Some(f), Some(g)) => Some(Queries {
                jinja_definitions: a,
                jinja_objects: b,
                jinja_imports: c,
                jinja_snippets: d,
                backend_definitions: e,
                backend_templates: f,
                python_identifiers: g,
            }),
            _ => None,
        }
    }

    /// For a Python backend, replaces the backend queries with Python ones.
    /// Returns whether the queries were replaced: exactly for `"python"`
    /// where all three sources are valid queries.  Otherwise nothing
    /// changes; the template queries never change.
    pub fn update_backend(&mut self, lang: &str, paths: &str, definitions: &str, identifiers: &str) -> (r: bool)
        ensures
            r == (lang@ == "python"@ && query_accepted(Grammar::Python, paths@) && query_accepted(
                Grammar::Python,
                definitions@,
            ) && query_accepted(Grammar::Python, identifiers@)),
            !r ==> *final(self) == *old(self),
            r ==> {
                &&& final(self).backend_templates@ == (Grammar::Python, paths@)
                &&& final(self).backend_definitions@ == (Grammar::Python, definitions@)
                &&& final(self).python_identifiers@ == (Grammar::Python, identifiers@)
            },
            final(self).jinja_definitions == old(self).jinja_definitions,
            final(self).jinja_objects == old(self).jinja_objects,
            final(self).jinja_imports == old(self).jinja_imports,
            final(self).jinja_snippets == old(self).jinja_snippets,
    {
        proof {
            reveal_strlit("python");
        }
        if str_eq(lang, "python") {
            let t = crate::syntax::SourcedQuery::new(Grammar::Python, paths);
            let d = crate::syntax::SourcedQuery::new(Grammar::Python, definitions);
            let i = crate::syntax::SourcedQuery::new(Grammar::Python, identifiers);
            match (t, d, i) {
                (Some(t), Some(d), Some(i)) => {
                    self.backend_templates = t;
                    self.backend_definitions = d;
                    self.python_identifiers = i;
                    true
                },
                _ => false,
            }
        } else {
            false
        }
    }
}

} // verus!
