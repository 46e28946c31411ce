use vstd::prelude::*;

use crate::point::{p_le, Point};
use crate::search::order::idents_view;
use crate::search::templates::{covers, template_ident};
use crate::search::{IdentV, Identifier, IdentifierType};
use crate::syntax::{capture_names, caps_view, flat_captures, matches_view, names_within, query_matches, taken_captures, Capture, CaptureV};
use crate::text::{remove_quotes, str_eq, without_quotes};

verus! {

/// The templates a backend file renders.
#[derive(Debug)]
pub struct BackendTemplates {
    pub templates: Vec<Identifier>,
    /// Whether the last method seen renders a template.
    pub in_method: bool,
}

/// The methods whose argument names a template.
pub open spec fn is_method(name: Seq<char>) -> bool {
    name == "render_jinja"@ || name == "get_template"@
}

/// How a capture of the backend templates query changes the templates found
/// and the method flag.
pub open spec fn templates_step(ts: Seq<IdentV>, in_method: bool, c: CaptureV) -> (Seq<IdentV>, bool) {
    if c.name == "template_name"@ && in_method {
        match c.text {
            Some(t) => (ts.push(template_ident(without_quotes(t), c.start, c.end)), false),
            None => (ts, in_method),
        }
    } else if c.name == "method_name"@ {
        match c.text {
            Some(t) => if is_method(t) { (ts, true) } else { (ts, in_method) },
            None => (ts, in_method),
        }
    } else {
        (ts, in_method)
    }
}

/// The walk over all the captures.
pub open spec fn templates_walk(ts: Seq<IdentV>, in_method: bool, caps: Seq<CaptureV>) -> (Seq<IdentV>, bool)
    decreases caps.len(),
{
    if caps.len() == 0 {
        (ts, in_method)
    } else {
        let (t1, m1) = templates_step(ts, in_method, caps[0]);
        templates_walk(t1, m1, caps.drop_first())
    }
}

impl BackendTemplates {
    pub fn new() -> (b: BackendTemplates)
        ensures
            b.templates@.len() == 0,
            !b.in_method,
    {
        BackendTemplates { templates: Vec::new(), in_method: false }
    }

    /// The last template, when the cursor lies within it.
    pub fn in_template(&self, trigger_point: Point) -> (r: Option<&Identifier>)
        ensures
            match r {
                Some(t) => self.templates@.len() > 0 && t@ == self.templates@.last()@ && covers(t@, trigger_point),
                None => !(self.templates@.len() > 0 && covers(self.templates@.last()@, trigger_point)),
            },
    {
        if self.templates.len() == 0 {
            return None;
        }
        let last = &self.templates[self.templates.len() - 1];
        if last.start.le(&trigger_point) && trigger_point.le(&last.end) {
            Some(last)
        } else {
            None
        }
    }

    /// Takes one capture of the backend templates query.  It always returns
    /// `None`.
    pub fn check(&mut self, capture: &Capture) -> (r: Option<()>)
        ensures
            (idents_view(final(self).templates@), final(self).in_method)
                == templates_step(idents_view(old(self).templates@), old(self).in_method, capture@),
            r is None,
    {
        proof {
            reveal_strlit("template_name");
            reveal_strlit("method_name");
            reveal_strlit("render_jinja");
            reveal_strlit("get_template");
        }
        let name = capture.name.as_str();
        if str_eq(name, "template_name") && self.in_method {
            let t = match &capture.text {
                Some(t) => t,
                None => return None,
            };
            let template = remove_quotes(t.as_str());
            let mut identifier = Identifier::new(template.as_str(), capture.start, capture.end);
            identifier.identifier_type = IdentifierType::JinjaTemplate;
            let ghost before = self.templates@;
            self.templates.push(identifier);
            assert(idents_view(self.templates@) =~= idents_view(before).push(template_ident(template@, capture.start, capture.end)));
            self.in_method = false;
        } else if str_eq(name, "method_name") {
            let content = match &capture.text {
                Some(t) => t,
                None => return None,
            };
            if !(str_eq(content.as_str(), "render_jinja") || str_eq(content.as_str(), "get_template")) {
                return None;
            }
            self.in_method = true;
        }
        None
    }

    /// The templates found.
    pub fn collect(self) -> (r: Vec<Identifier>)
        ensures
            r@ == self.templates@,
    {
        self.templates
    }
}

/// Walks the captures of the backend templates query that start no later
/// than the trigger point (or every capture, with `all`).
pub fn backend_templates_from_matches(matches: &Vec<Vec<Capture>>, trigger_point: Point, all: bool) -> (b: BackendTemplates)
    ensures
        (idents_view(b.templates@), b.in_method) == templates_walk(Seq::empty(), false, flat_captures(matches_view(matches@), trigger_point, all)),
{
    let caps = taken_captures(matches, trigger_point, all);
    let ghost cv = caps_view(caps@);
    let mut b = BackendTemplates::new();
    let mut i: usize = 0;
    proof {
        assert(cv.skip(0) =~= cv);
        assert(idents_view(b.templates@) =~= Seq::<IdentV>::empty());
    }
    while i < caps.len()
        invariant
            cv == caps_view(caps@),
            i <= cv.len(),
            templates_walk(idents_view(b.templates@), b.in_method, cv.skip(i as int))
                == templates_walk(Seq::empty(), false, cv),
        decreases caps.len() - i,
    {
        proof {
            assert(cv.skip(i as int)[0] == caps@[i as int]@);
            assert(cv.skip(i as int).drop_first() =~= cv.skip(i + 1));
        }
        let _ = b.check(&caps[i]);
        i = i + 1;
    }
    proof {
        assert(cv.skip(i as int).len() == 0);
    }
    b
}

/// Walks the backend templates query over `tree`.  What the walk sees comes
/// from the parse tree: the result is the walk over some list of the
/// query's matches, whose captures carry the query's names.
pub fn backend_templates_query(query: &crate::syntax::SourcedQuery, tree: &tree_sitter::Tree, trigger_point: Point, text: &str, all: bool) -> (b: BackendTemplates)
    ensures
        exists|ms: Seq<Seq<CaptureV>>|
            names_within(ms, capture_names(query@.0, query@.1))
            && (idents_view(b.templates@), b.in_method) == #[trigger] templates_walk(Seq::empty(), false, flat_captures(ms, trigger_point, all)),
{
    let matches = query_matches(query, tree, text);
    backend_templates_from_matches(&matches, trigger_point, all)
}

} // verus!
