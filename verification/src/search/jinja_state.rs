use vstd::prelude::*;

use crate::point::Point;
use crate::search::definition::{definition_query, definitions_outcome, defs_wf, spec_definitions, JinjaDefinitions};
use crate::search::objects::{objects_outcome, objects_query, spec_objects, taken_texts, JinjaObjects};
use crate::search::templates::{spec_imports, templates_query, Current, ImportV, JinjaImports};
use crate::syntax::{all_texts, capture_count, capture_names, names_within, CaptureV};

verus! {

/// What the three template queries found in one document.
#[derive(Debug)]
pub struct JinjaState {
    pub jinja_definitions: JinjaDefinitions,
    pub jinja_objects: JinjaObjects,
    pub jinja_imports: JinjaImports,
}

impl JinjaState {
    /// Runs the definitions, objects and imports queries, in that order.
    /// Each walk runs over some list of its own query's matches, whose
    /// captures carry that query's names.  `None` comes back exactly where
    /// the definitions walk or the objects walk gives up (see
    /// `definitions_outcome` and `taken_texts`); otherwise the state holds
    /// the three walks.
    pub fn init(
        trigger_point: Point,
        query: (&crate::syntax::SourcedQuery, &crate::syntax::SourcedQuery, &crate::syntax::SourcedQuery),
        tree: &tree_sitter::Tree,
        source: &str,
        all: bool,
    ) -> (r: Option<JinjaState>)
        ensures
            r matches Some(s) ==> defs_wf(&s.jinja_definitions),
            exists|m1: Seq<Seq<CaptureV>>, e: Point, m2: Seq<Seq<CaptureV>>, m3: Seq<Seq<CaptureV>>|
                names_within(m1, capture_names(query.0@.0, query.0@.1))
                && names_within(m2, capture_names(query.1@.0, query.1@.1))
                && names_within(m3, capture_names(query.2@.0, query.2@.1))
                && #[trigger] state_outcome(r, m1, e, m2, m3, trigger_point, all),
    {
        let definitions = definition_query(query.0, tree, trigger_point, source, all);
        let ghost (m1, e) = choose|m1: Seq<Seq<CaptureV>>, e: Point|
            names_within(m1, capture_names(query.0@.0, query.0@.1))
            && #[trigger] definitions_outcome(definitions, m1, e, trigger_point, all);
        let ghost empty = Seq::<Seq<CaptureV>>::empty();
        let definitions = match definitions {
            Some(d) => d,
            None => {
                assert(state_outcome(None, m1, e, empty, empty, trigger_point, all));
                return None;
            },
        };
        let objects = objects_query(query.1, tree, trigger_point, source, all);
        let ghost m2 = choose|m2: Seq<Seq<CaptureV>>|
            names_within(m2, capture_names(query.1@.0, query.1@.1)) && #[trigger] objects_outcome(objects, m2, trigger_point, all);
        let objects = match objects {
            Some(o) => o,
            None => {
                assert(state_outcome(None, m1, e, m2, empty, trigger_point, all));
                return None;
            },
        };
        let imports = templates_query(query.2, tree, trigger_point, source, all);
        let ghost m3 = choose|m3: Seq<Seq<CaptureV>>|
            names_within(m3, capture_names(query.2@.0, query.2@.1))
            && #[trigger] spec_imports(m3, trigger_point, all) == imports@;
        let r = Some(JinjaState { jinja_definitions: definitions, jinja_objects: objects, jinja_imports: imports });
        assert(state_outcome(r, m1, e, m2, m3, trigger_point, all));
        r
    }

    /// Forgets everything found.
    pub fn reset(&mut self)
        ensures
            final(self).jinja_definitions.definitions@.len() == 0,
            final(self).jinja_definitions.current_scope@.len() == 0,
            final(self).jinja_definitions.errors@.len() == 0,
            final(self).jinja_objects@.objects.len() == 0,
            final(self).jinja_objects@.nodes.len() == 0,
            final(self).jinja_imports@.imports == Map::<usize, ImportV>::empty(),
            final(self).jinja_imports@.current == Current::Nothing,
    {
        self.jinja_definitions = JinjaDefinitions::empty();
        self.jinja_objects = JinjaObjects::new();
        self.jinja_imports = JinjaImports::new();
    }
}

/// What `JinjaState::init` gives back for the matches `m1`, `m2` and `m3`
/// of its three queries: `None` exactly where the definitions walk or the
/// objects walk gives up, and otherwise the three walks.
pub open spec fn state_outcome(
    r: Option<JinjaState>,
    m1: Seq<Seq<CaptureV>>,
    root_end: Point,
    m2: Seq<Seq<CaptureV>>,
    m3: Seq<Seq<CaptureV>>,
    trigger: Point,
    all: bool,
) -> bool {
    &&& (r is Some <==> (all_texts(m1) && capture_count(m1) < usize::MAX && taken_texts(m2, trigger, all)))
    &&& (r matches Some(s) ==> {
        &&& s.jinja_definitions@ == spec_definitions(m1, root_end, trigger, all)
        &&& s.jinja_objects@ == spec_objects(m2, trigger, all)
        &&& s.jinja_imports@ == spec_imports(m3, trigger, all)
    })
}

} // verus!
