use vstd::prelude::*;

use crate::classic::capturer::{details_of, find_prop, insert_prop, keyed_insert, prop, props_view, CaptureDetails, DetailsV, JinjaCompletionCapturer};
use crate::classic::queries::{JINJA_COMPLETION, JINJA_DEF, JINJA_REF, RUST_DEF};
use crate::point::{p_le, p_lt, Point};
use crate::text::str_eq;
use crate::syntax::{capture_names, kinds_at, caps_view, flat_captures, matches_view, names_within, query_accepted, query_matches, taken_captures, Capture, CaptureV, Grammar};

verus! {

/// The queries of this form of the server.
pub struct Queries {
    pub jinja_ident_query: crate::syntax::SourcedQuery,
    pub jinja_ref_query: crate::syntax::SourcedQuery,
    pub jinja_completion_query: crate::syntax::SourcedQuery,
    pub rust_ident_query: crate::syntax::SourcedQuery,
}

impl Queries {
    /// Builds the queries with their grammars; `None` exactly where
    /// tree-sitter does not accept one of them.
    pub fn new() -> (r: Option<Queries>)
        ensures
            r is Some == (query_accepted(Grammar::Jinja, JINJA_DEF@) && query_accepted(Grammar::Jinja, JINJA_REF@)
                && query_accepted(Grammar::Jinja, JINJA_COMPLETION@) && query_accepted(Grammar::Rust, RUST_DEF@)),
            r matches Some(q) ==> {
                &&& q.jinja_ident_query@ == (Grammar::Jinja, JINJA_DEF@)
                &&& q.jinja_ref_query@ == (Grammar::Jinja, JINJA_REF@)
                &&& q.jinja_completion_query@ == (Grammar::Jinja, JINJA_COMPLETION@)
                &&& q.rust_ident_query@ == (Grammar::Rust, RUST_DEF@)
            },
    {
        let a = crate::syntax::SourcedQuery::new(Grammar::Jinja, JINJA_DEF);
        let b = crate::syntax::SourcedQuery::new(Grammar::Jinja, JINJA_REF);
        let c = crate::syntax::SourcedQuery::new(Grammar::Jinja, JINJA_COMPLETION);
        let d = crate::syntax::SourcedQuery::new(Grammar::Rust, RUST_DEF);
        match (a, b, c, d) {
            (Some(a), Some(b), Some(c), Some(d)) => Some(Queries {
                jinja_ident_query: a,
                jinja_ref_query: b,
                jinja_completion_query: c,
                rust_ident_query: d,
            }),
            _ => None,
        }
    }
}

/// What a query is run for.
#[derive(Clone, Copy, PartialEq, Eq, Structural, Debug)]
pub enum QueryType {
    Completion,
    Definition,
}

/// What the cursor completes.
#[derive(Clone, Copy, PartialEq, Eq, Structural, Debug)]
pub enum CompletionType {
    Pipe,
    Identifier,
}

/// The details the completion capturer keeps, capture after capture.
pub open spec fn completion_props(caps: Seq<CaptureV>) -> Seq<(Seq<char>, DetailsV)>
    decreases caps.len(),
{
    if caps.len() == 0 {
        Seq::empty()
    } else {
        keyed_insert(completion_props(caps.drop_last()), caps.last().name, details_of(caps.last()))
    }
}

/// Folds the captures that start no later than the trigger point (or every
/// capture, with `all`) into details by name, with the completion capturer.
pub fn props_from_matches(matches: &Vec<Vec<Capture>>, trigger_point: Point, all: bool) -> (r: Vec<(String, CaptureDetails)>)
    ensures
        props_view(r@) == completion_props(flat_captures(matches_view(matches@), trigger_point, all)),
{
    let caps = taken_captures(matches, trigger_point, all);
    let ghost cv = caps_view(caps@);
    let mut capturer = JinjaCompletionCapturer::new();
    let mut acc: Vec<(String, CaptureDetails)> = Vec::new();
    let mut i: usize = 0;
    proof {
        assert(cv.take(0) =~= Seq::<CaptureV>::empty());
        assert(props_view(acc@) =~= Seq::<(Seq<char>, DetailsV)>::empty());
    }
    while i < caps.len()
        invariant
            cv == caps_view(caps@),
            i <= cv.len(),
            props_view(acc@) == completion_props(cv.take(i as int)),
        decreases caps.len() - i,
    {
        proof {
            let t = cv.take(i + 1);
            assert(t.drop_last() =~= cv.take(i as int));
            assert(t.last() == caps@[i as int]@);
        }
        capturer.save_by(&caps[i], &mut acc);
        i = i + 1;
    }
    proof {
        assert(cv.take(i as int) =~= cv);
    }
    acc
}

/// A pipe is completed when the cursor lies within the pipe of an
/// expression that waits for a filter.
pub open spec fn spec_pipe(props: Seq<(Seq<char>, DetailsV)>, tp: Point) -> Option<CompletionType> {
    match (prop(props, "pipe_waiting"@), prop(props, "pipe"@)) {
        (Some(_), Some(pipe)) => if p_le(pipe.start_position, tp) && p_le(tp, pipe.end_position) {
            Some(CompletionType::Pipe)
        } else {
            None
        },
        _ => None,
    }
}

/// A name is completed after the keyword of a statement that waits for one,
/// unless the cursor is inside a name already there.
pub open spec fn spec_ident(props: Seq<(Seq<char>, DetailsV)>, tp: Point) -> Option<CompletionType> {
    match (prop(props, "ident_waiting"@), prop(props, "key_name"@)) {
        (Some(waiting), Some(keyword)) => if p_lt(keyword.end_position, tp) && p_le(tp, waiting.end_position) {
            match prop(props, "key_id"@) {
                Some(c) => if p_lt(c.start_position, tp) && p_le(tp, c.end_position) {
                    None
                } else {
                    Some(CompletionType::Identifier)
                },
                None => Some(CompletionType::Identifier),
            }
        } else {
            None
        },
        _ => None,
    }
}

/// A name is completed inside an empty expression.
pub open spec fn spec_expr(props: Seq<(Seq<char>, DetailsV)>, tp: Point) -> Option<CompletionType> {
    match (prop(props, "empty_expression"@), prop(props, "start"@), prop(props, "end"@)) {
        (Some(_), Some(start), Some(end)) => if p_le(start.start_position, tp) && p_le(tp, end.end_position) {
            Some(CompletionType::Identifier)
        } else {
            None
        },
        _ => None,
    }
}

fn get_prop<'a>(props: &'a Vec<(String, CaptureDetails)>, k: &str) -> (r: Option<&'a CaptureDetails>)
    ensures
        match r {
            Some(d) => prop(props_view(props@), k@) == Some(d@),
            None => prop(props_view(props@), k@) is None,
        },
{
    match find_prop(props, k) {
        Some(i) => {
            assert(props_view(props@)[i as int] == (props@[i as int].0@, props@[i as int].1@));
            Some(&props[i].1)
        },
        None => None,
    }
}

/// Whether the collected details call for a pipe at `trigger_point`.
pub fn pipe_from_props(props: &Vec<(String, CaptureDetails)>, trigger_point: Point) -> (r: Option<CompletionType>)
    ensures
        r == spec_pipe(props_view(props@), trigger_point),
{
    proof {
        reveal_strlit("pipe_waiting");
        reveal_strlit("pipe");
    }
    let _waiting = match get_prop(props, "pipe_waiting") {
        Some(w) => w,
        None => return None,
    };
    let pipe = match get_prop(props, "pipe") {
        Some(p) => p,
        None => return None,
    };
    if pipe.start_position.le(&trigger_point) && trigger_point.le(&pipe.end_position) {
        Some(CompletionType::Pipe)
    } else {
        None
    }
}

/// Whether the collected details call for a name after a keyword at
/// `trigger_point`.
pub fn ident_from_props(props: &Vec<(String, CaptureDetails)>, trigger_point: Point) -> (r: Option<CompletionType>)
    ensures
        r == spec_ident(props_view(props@), trigger_point),
{
    proof {
        reveal_strlit("ident_waiting");
        reveal_strlit("key_name");
        reveal_strlit("key_id");
    }
    let waiting = match get_prop(props, "ident_waiting") {
        Some(w) => w,
        None => return None,
    };
    let keyword = match get_prop(props, "key_name") {
        Some(k) => k,
        None => return None,
    };
    if keyword.end_position.lt(&trigger_point) && trigger_point.le(&waiting.end_position) {
        match get_prop(props, "key_id") {
            Some(c) => {
                if c.start_position.lt(&trigger_point) && trigger_point.le(&c.end_position) {
                    None
                } else {
                    Some(CompletionType::Identifier)
                }
            },
            None => Some(CompletionType::Identifier),
        }
    } else {
        None
    }
}

/// Whether the collected details call for a name in an empty expression at
/// `trigger_point`.
pub fn expr_from_props(props: &Vec<(String, CaptureDetails)>, trigger_point: Point) -> (r: Option<CompletionType>)
    ensures
        r == spec_expr(props_view(props@), trigger_point),
{
    proof {
        reveal_strlit("empty_expression");
        reveal_strlit("start");
        reveal_strlit("end");
    }
    let _empty = match get_prop(props, "empty_expression") {
        Some(e) => e,
        None => return None,
    };
    let start = match get_prop(props, "start") {
        Some(s) => s,
        None => return None,
    };
    let end = match get_prop(props, "end") {
        Some(e) => e,
        None => return None,
    };
    if start.start_position.le(&trigger_point) && trigger_point.le(&end.end_position) {
        Some(CompletionType::Identifier)
    } else {
        None
    }
}

/// Runs the completion query over `tree` up to the trigger point and tells
/// whether a pipe is completed there.  What the query captures comes from
/// the parse tree.
pub fn query_pipe(tree: &tree_sitter::Tree, source: &str, trigger_point: Point, _query_type: QueryType, query: &Queries) -> (r: Option<CompletionType>)
    ensures
        exists|ms: Seq<Seq<CaptureV>>|
            names_within(ms, capture_names(query.jinja_completion_query@.0, query.jinja_completion_query@.1))
            && r == #[trigger] spec_pipe(completion_props(flat_captures(ms, trigger_point, false)), trigger_point),
{
    let matches = query_matches(&query.jinja_completion_query, tree, source);
    let props = props_from_matches(&matches, trigger_point, false);
    pipe_from_props(&props, trigger_point)
}

/// Runs the completion query over `tree` up to the trigger point and tells
/// whether a name after a keyword is completed there.
pub fn query_ident(tree: &tree_sitter::Tree, source: &str, trigger_point: Point, _query_type: QueryType, query: &Queries) -> (r: Option<CompletionType>)
    ensures
        exists|ms: Seq<Seq<CaptureV>>|
            names_within(ms, capture_names(query.jinja_completion_query@.0, query.jinja_completion_query@.1))
            && r == #[trigger] spec_ident(completion_props(flat_captures(ms, trigger_point, false)), trigger_point),
{
    let matches = query_matches(&query.jinja_completion_query, tree, source);
    let props = props_from_matches(&matches, trigger_point, false);
    ident_from_props(&props, trigger_point)
}

/// Runs the completion query over `tree` up to the trigger point and tells
/// whether a name in an empty expression is completed there.
pub fn query_expr(tree: &tree_sitter::Tree, source: &str, trigger_point: Point, _query_type: QueryType, query: &Queries) -> (r: Option<CompletionType>)
    ensures
        exists|ms: Seq<Seq<CaptureV>>|
            names_within(ms, capture_names(query.jinja_completion_query@.0, query.jinja_completion_query@.1))
            && r == #[trigger] spec_expr(completion_props(flat_captures(ms, trigger_point, false)), trigger_point),
{
    let matches = query_matches(&query.jinja_completion_query, tree, source);
    let props = props_from_matches(&matches, trigger_point, false);
    expr_from_props(&props, trigger_point)
}

/// The first of three answers that is given.
pub open spec fn first_given(a: Option<CompletionType>, b: Option<CompletionType>, c: Option<CompletionType>) -> Option<CompletionType> {
    if a is Some {
        a
    } else if b is Some {
        b
    } else {
        c
    }
}

/// Whether one of the kinds names the node of a whole template.
fn has_source_file(kinds: &Vec<String>) -> (b: bool)
    ensures
        b == exists|j: int| 0 <= j < kinds@.len() && #[trigger] kinds@[j]@ == "source_file"@,
{
    let mut i: usize = 0;
    while i < kinds.len()
        invariant
            i <= kinds@.len(),
            forall|j: int| 0 <= j < i ==> #[trigger] kinds@[j]@ != "source_file"@,
        decreases kinds.len() - i,
    {
        if str_eq(kinds[i].as_str(), "source_file") {
            return true;
        }
        i = i + 1;
    }
    false
}

/// Whether one of the node kinds is that of a whole template.
pub open spec fn in_template(kinds: Seq<String>) -> bool {
    exists|j: int| 0 <= j < kinds.len() && #[trigger] kinds[j]@ == "source_file"@
}

/// What the cursor completes, given the kinds of the node at the cursor and
/// its ancestors (`None` where no node is there) and the answers of the
/// pipe, keyword and expression searches: the first answer given, where the
/// node lies within a template's `source_file` node; else nothing.
pub fn completion_at(
    kinds: &Option<Vec<String>>,
    pipe: Option<CompletionType>,
    ident: Option<CompletionType>,
    expr: Option<CompletionType>,
) -> (r: Option<CompletionType>)
    ensures
        r == (if kinds matches Some(k) && in_template(k@) { first_given(pipe, ident, expr) } else { None }),
{
    match kinds {
        Some(k) => {
            if !has_source_file(k) {
                None
            } else if pipe.is_some() {
                pipe
            } else if ident.is_some() {
                ident
            } else {
                expr
            }
        },
        None => None,
    }
}

/// What the cursor completes in a template: where the node at the cursor
/// lies within the template's `source_file` node, a pipe, else a name
/// after a keyword, else a name in an empty expression, as the completion
/// query finds them; else nothing.  Which nodes lie at the cursor comes
/// from the parse tree: the answer is `completion_at` on some list of node
/// kinds and on the three searches over some lists of the query's matches.
pub fn query_completion(tree: &tree_sitter::Tree, source: &str, trigger_point: Point, query_type: QueryType, query: &Queries) -> (r: Option<CompletionType>)
    ensures
        exists|kinds: Option<Vec<String>>, m1: Seq<Seq<CaptureV>>, m2: Seq<Seq<CaptureV>>, m3: Seq<Seq<CaptureV>>|
            names_within(m1, capture_names(query.jinja_completion_query@.0, query.jinja_completion_query@.1))
            && names_within(m2, capture_names(query.jinja_completion_query@.0, query.jinja_completion_query@.1))
            && names_within(m3, capture_names(query.jinja_completion_query@.0, query.jinja_completion_query@.1))
            && #[trigger] completion_outcome(r, kinds, m1, m2, m3, trigger_point),
{
    let kinds = kinds_at(tree, trigger_point);
    let pipe = query_pipe(tree, source, trigger_point, query_type, query);
    let ident = query_ident(tree, source, trigger_point, query_type, query);
    let expr = query_expr(tree, source, trigger_point, query_type, query);
    let r = completion_at(&kinds, pipe, ident, expr);
    proof {
        let names = capture_names(query.jinja_completion_query@.0, query.jinja_completion_query@.1);
        let m1 = choose|ms: Seq<Seq<CaptureV>>|
            names_within(ms, names) && pipe == #[trigger] spec_pipe(completion_props(flat_captures(ms, trigger_point, false)), trigger_point);
        let m2 = choose|ms: Seq<Seq<CaptureV>>|
            names_within(ms, names) && ident == #[trigger] spec_ident(completion_props(flat_captures(ms, trigger_point, false)), trigger_point);
        let m3 = choose|ms: Seq<Seq<CaptureV>>|
            names_within(ms, names) && expr == #[trigger] spec_expr(completion_props(flat_captures(ms, trigger_point, false)), trigger_point);
        assert(completion_outcome(r, kinds, m1, m2, m3, trigger_point));
    }
    r
}

/// What `query_completion` gives back for the node kinds `kinds` at the
/// cursor and the matches `m1`, `m2`, `m3` of its three searches.
pub open spec fn completion_outcome(
    r: Option<CompletionType>,
    kinds: Option<Vec<String>>,
    m1: Seq<Seq<CaptureV>>,
    m2: Seq<Seq<CaptureV>>,
    m3: Seq<Seq<CaptureV>>,
    trigger: Point,
) -> bool {
    let pipe = spec_pipe(completion_props(flat_captures(m1, trigger, false)), trigger);
    let ident = spec_ident(completion_props(flat_captures(m2, trigger, false)), trigger);
    let expr = spec_expr(completion_props(flat_captures(m3, trigger, false)), trigger);
    r == (if kinds matches Some(k) && in_template(k@) { first_given(pipe, ident, expr) } else { None })
}

/// The capturers a query's captures can be folded with.
#[derive(Clone, Copy, PartialEq, Eq, Structural, Debug)]
pub enum CapturerKind {
    /// The names after the keywords of definitions.
    Definitions,
    /// The names used in expressions and statements.
    References,
    /// The names handed to a `context!` macro.
    Backend,
    /// The identifiers of expressions and statements, each place once.
    Variables,
}

/// The details a capturer keeps from the captures.
pub open spec fn spec_props(kind: CapturerKind, force: bool, caps: Seq<CaptureV>) -> Seq<(Seq<char>, DetailsV)> {
    match kind {
        CapturerKind::Definitions => crate::classic::capturer::definitions_fold((0, false, force), Seq::empty(), caps),
        CapturerKind::References => crate::classic::capturer::references_fold((Seq::empty(), 0, force), Seq::empty(), caps),
        CapturerKind::Backend => crate::classic::capturer::backend_fold((0, force), Seq::empty(), caps),
        CapturerKind::Variables => crate::classic::capturer::variables_fold((Seq::empty(), 0, force), Seq::empty(), caps),
    }
}

/// Runs `query` over `tree` and folds the captures that start no later
/// than the trigger point (or every capture, with `all`) with a fresh
/// capturer of the given kind, forced or not.  What the query captures
/// comes from the parse tree: the answer is `props_outcome` over some list
/// of the query's matches, whose captures carry the query's names; `None`
/// comes back exactly where the captures taken are too many for the
/// capturer's count.
pub fn query_props(
    tree: &tree_sitter::Tree,
    source: &str,
    trigger_point: Point,
    query: &crate::syntax::SourcedQuery,
    all: bool,
    kind: CapturerKind,
    force: bool,
) -> (r: Option<Vec<(String, CaptureDetails)>>)
    ensures
        exists|ms: Seq<Seq<CaptureV>>|
            names_within(ms, capture_names(query@.0, query@.1))
            && #[trigger] props_outcome(r, kind, force, flat_captures(ms, trigger_point, all)),
{
    let matches = query_matches(query, tree, source);
    let caps = taken_captures(&matches, trigger_point, all);
    if caps.len() >= 4294967295 {
        assert(props_outcome(None, kind, force, flat_captures(matches_view(matches@), trigger_point, all)));
        return None;
    }
    let r = match kind {
        CapturerKind::Definitions => crate::classic::capturer::definitions_props(&caps, force),
        CapturerKind::References => crate::classic::capturer::references_props(&caps, force),
        CapturerKind::Backend => crate::classic::capturer::backend_props(&caps, force),
        CapturerKind::Variables => crate::classic::capturer::variables_props(&caps, force),
    };
    assert(props_outcome(Some(r), kind, force, flat_captures(matches_view(matches@), trigger_point, all)));
    Some(r)
}

/// What `query_props` gives back for the captures `caps` it takes: `None`
/// exactly where they are too many for the capturer's count, and otherwise
/// the details the capturer keeps.
pub open spec fn props_outcome(r: Option<Vec<(String, CaptureDetails)>>, kind: CapturerKind, force: bool, caps: Seq<CaptureV>) -> bool {
    &&& (r is Some <==> caps.len() < 4294967295)
    &&& (r matches Some(v) ==> props_view(v@) == spec_props(kind, force, caps))
}

} // verus!
