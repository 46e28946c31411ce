use vstd::prelude::*;

use crate::point::Point;
use crate::search::order::idents_view;
use crate::search::{new_ident, IdentV, Identifier, IdentifierType};
use crate::syntax::{capture_names, caps_view, flat_captures, matches_view, names_within, query_matches, taken_captures, Capture, CaptureV};
use crate::text::{remove_quotes, str_eq, without_quotes};

verus! {

/// The variables a backend file hands to its templates.
#[derive(Debug)]
pub struct BackendIdentifiers {
    pub variables: Vec<Identifier>,
}

/// A variable of the backend named `name` at `start`..`end`.
pub open spec fn backend_variable(name: Seq<char>, start: Point, end: Point) -> IdentV {
    IdentV { identifier_type: IdentifierType::BackendVariable, ..new_ident(name, start, end) }
}

/// How a capture of the backend definitions query changes the variables;
/// `None` stops the walk.
pub open spec fn backend_step(vs: Seq<IdentV>, c: CaptureV) -> (Seq<IdentV>, Option<()>) {
    if c.name == "key_id"@ {
        match c.text {
            Some(t) => (vs.push(backend_variable(t, c.start, c.end)), Some(())),
            None => (vs, None),
        }
    } else if c.name == "name"@ {
        match c.text {
            Some(t) => (vs.push(backend_variable(without_quotes(t), c.start, c.end)), Some(())),
            None => (vs, None),
        }
    } else if c.name == "error"@ {
        (vs, None)
    } else {
        (vs, Some(()))
    }
}

/// The walk over the captures, up to the first step that stops it.
pub open spec fn backend_walk(vs: Seq<IdentV>, caps: Seq<CaptureV>) -> Seq<IdentV>
    decreases caps.len(),
{
    if caps.len() == 0 {
        vs
    } else {
        let (v1, r) = backend_step(vs, caps[0]);
        if r is None {
            v1
        } else {
            backend_walk(v1, caps.drop_first())
        }
    }
}

impl BackendIdentifiers {
    pub fn new() -> (b: BackendIdentifiers)
        ensures
            b.variables@.len() == 0,
    {
        BackendIdentifiers { variables: Vec::new() }
    }

    /// The variables found.
    pub fn show(self) -> (r: Vec<Identifier>)
        ensures
            r@ == self.variables@,
    {
        self.variables
    }

    fn push_var(&mut self, name: &str, start: Point, end: Point)
        ensures
            idents_view(final(self).variables@) == idents_view(old(self).variables@).push(backend_variable(name@, start, end)),
    {
        let mut identifier = Identifier::new(name, start, end);
        identifier.identifier_type = IdentifierType::BackendVariable;
        let ghost before = self.variables@;
        self.variables.push(identifier);
        assert(idents_view(self.variables@) =~= idents_view(before).push(backend_variable(name@, start, end)));
    }

    /// Takes one capture of the backend definitions query.
    pub fn check(&mut self, capture: &Capture) -> (r: Option<()>)
        ensures
            (idents_view(final(self).variables@), r) == backend_step(idents_view(old(self).variables@), capture@),
    {
        proof {
            reveal_strlit("key_id");
            reveal_strlit("name");
            reveal_strlit("error");
        }
        let name = capture.name.as_str();
        if str_eq(name, "key_id") {
            match &capture.text {
                Some(t) => {
                    self.push_var(t.as_str(), capture.start, capture.end);
                    Some(())
                },
                None => None,
            }
        } else if str_eq(name, "name") {
            match &capture.text {
                Some(t) => {
                    let n = remove_quotes(t.as_str());
                    self.push_var(n.as_str(), capture.start, capture.end);
                    Some(())
                },
                None => None,
            }
        } else if str_eq(name, "error") {
            None
        } else {
            Some(())
        }
    }
}

/// Walks the captures of the backend definitions query that start no later
/// than the trigger point (or every capture, with `all`).
pub fn backend_definitions_from_matches(matches: &Vec<Vec<Capture>>, trigger_point: Point, all: bool) -> (b: BackendIdentifiers)
    ensures
        idents_view(b.variables@) == backend_walk(Seq::empty(), flat_captures(matches_view(matches@), trigger_point, all)),
{
    let caps = taken_captures(matches, trigger_point, all);
    let ghost cv = caps_view(caps@);
    let mut b = BackendIdentifiers::new();
    let mut i: usize = 0;
    let mut stopped = false;
    proof {
        assert(cv.skip(0) =~= cv);
        assert(idents_view(b.variables@) =~= Seq::<IdentV>::empty());
    }
    while i < caps.len() && !stopped
        invariant
            cv == caps_view(caps@),
            i <= cv.len(),
            stopped ==> idents_view(b.variables@) == backend_walk(Seq::empty(), cv),
            !stopped ==> backend_walk(idents_view(b.variables@), cv.skip(i as int)) == backend_walk(Seq::empty(), cv),
        decreases caps.len() - i,
    {
        proof {
            assert(cv.skip(i as int)[0] == caps@[i as int]@);
            assert(cv.skip(i as int).drop_first() =~= cv.skip(i + 1));
        }
        if b.check(&caps[i]).is_none() {
            stopped = true;
        }
        i = i + 1;
    }
    proof {
        if !stopped {
            assert(cv.skip(i as int).len() == 0);
        }
    }
    b
}

/// Walks the backend definitions query over `tree`.  What the walk sees
/// comes from the parse tree: the result is the walk over some list of the
/// query's matches, whose captures carry the query's names.
pub fn backend_definition_query(query: &crate::syntax::SourcedQuery, tree: &tree_sitter::Tree, trigger_point: Point, text: &str, all: bool) -> (b: BackendIdentifiers)
    ensures
        exists|ms: Seq<Seq<CaptureV>>|
            names_within(ms, capture_names(query@.0, query@.1))
            && idents_view(b.variables@) == #[trigger] backend_walk(Seq::empty(), flat_captures(ms, trigger_point, all)),
{
    let matches = query_matches(query, tree, text);
    backend_definitions_from_matches(&matches, trigger_point, all)
}

} // verus!
