use tree_sitter::StreamingIterator;
use vstd::prelude::*;

use crate::point::{p_le, Point};

verus! {

#[verifier::external_type_specification]
#[verifier::external_body]
pub struct ExTree(tree_sitter::Tree);

#[verifier::external_type_specification]
#[verifier::external_body]
pub struct ExQuery(tree_sitter::Query);

#[verifier::external_type_specification]
#[verifier::external_body]
pub struct ExParser(tree_sitter::Parser);

#[verifier::external_type_specification]
#[verifier::external_body]
pub struct ExLanguage(tree_sitter::Language);

#[verifier::external_type_specification]
#[verifier::external_body]
pub struct ExNode<'a>(tree_sitter::Node<'a>);

/// The node that encloses a captured node, as far as the analyses read it.
#[derive(Clone, Copy, PartialEq, Eq, Structural, Debug)]
pub struct ParentInfo {
    /// Where the enclosing node starts.
    pub start: Point,
    /// How many children the enclosing node has.
    pub child_count: u32,
    /// Where its last child ends, if it has one.
    pub last_child_end: Option<Point>,
}

/// One captured node of a query match, held as plain values.
#[derive(Debug)]
pub struct Capture {
    /// The name of the capture in the query.
    pub name: String,
    /// The identity of the node within its tree.
    pub id: usize,
    pub start: Point,
    pub end: Point,
    /// The source text of the node, when it is valid UTF-8.
    pub text: Option<String>,
    pub parent: Option<ParentInfo>,
    /// The node's child in the field `identifier`, if it has one: its span
    /// and its text, when that is valid UTF-8.
    pub identifier: Option<(Point, Point, Option<String>)>,
}

/// A captured node as plain values.
pub struct CaptureV {
    pub name: Seq<char>,
    pub id: usize,
    pub start: Point,
    pub end: Point,
    pub text: Option<Seq<char>>,
    pub parent: Option<ParentInfo>,
    pub identifier: Option<(Point, Point, Option<Seq<char>>)>,
}

impl View for Capture {
    type V = CaptureV;

    open spec fn view(&self) -> CaptureV {
        CaptureV {
            name: self.name@,
            id: self.id,
            start: self.start,
            end: self.end,
            text: match self.text {
                Some(t) => Some(t@),
                None => None,
            },
            parent: self.parent,
            identifier: match self.identifier {
                Some((s, e, t)) => Some((s, e, match t { Some(x) => Some(x@), None => None })),
                None => None,
            },
        }
    }
}

/// The plain values of one match.
pub open spec fn match_view(m: Seq<Capture>) -> Seq<CaptureV> {
    m.map_values(|c: Capture| c@)
}

/// The plain values of a list of matches.
pub open spec fn matches_view(ms: Seq<Vec<Capture>>) -> Seq<Seq<CaptureV>> {
    ms.map_values(|m: Vec<Capture>| match_view(m@))
}

/// Every capture of every match has readable text.
pub open spec fn all_texts(ms: Seq<Seq<CaptureV>>) -> bool {
    forall|i: int, j: int| 0 <= i < ms.len() && 0 <= j < ms[i].len() ==> (#[trigger] ms[i][j]).text is Some
}

/// Whether every capture of every match has readable text.
pub fn texts_readable(ms: &Vec<Vec<Capture>>) -> (r: bool)
    ensures
        r == all_texts(matches_view(ms@)),
{
    let mut i: usize = 0;
    while i < ms.len()
        invariant
            i <= ms.len(),
            forall|a: int, b: int| 0 <= a < i && 0 <= b < ms@[a]@.len() ==> (#[trigger] ms@[a]@[b]).text is Some,
        decreases ms.len() - i,
    {
        let mut j: usize = 0;
        while j < ms[i].len()
            invariant
                i < ms.len(),
                j <= ms@[i as int]@.len(),
                forall|b: int| 0 <= b < j ==> (#[trigger] ms@[i as int]@[b]).text is Some,
            decreases ms[i as int].len() - j,
        {
            if ms[i][j].text.is_none() {
                assert(matches_view(ms@)[i as int][j as int].text is None);
                return false;
            }
            j = j + 1;
        }
        i = i + 1;
    }
    assert forall|a: int, b: int| 0 <= a < matches_view(ms@).len() && 0 <= b < matches_view(ms@)[a].len()
        implies (#[trigger] matches_view(ms@)[a][b]).text is Some by {
        assert(matches_view(ms@)[a][b] == ms@[a]@[b]@);
    }
    true
}

/// The total number of captures over all matches.
pub open spec fn capture_count(ms: Seq<Seq<CaptureV>>) -> int
    decreases ms.len(),
{
    if ms.len() == 0 {
        0
    } else {
        capture_count(ms.drop_last()) + ms.last().len()
    }
}

proof fn lemma_capture_count_push(ms: Seq<Seq<CaptureV>>, m: Seq<CaptureV>)
    ensures
        capture_count(ms.push(m)) == capture_count(ms) + m.len(),
        capture_count(ms) >= 0,
    decreases ms.len(),
{
    assert(ms.push(m).drop_last() =~= ms);
    if ms.len() > 0 {
        lemma_capture_count_push(ms.drop_last(), ms.last());
        assert(ms.drop_last().push(ms.last()) =~= ms);
    }
}

/// The number of captures over all matches, or `None` where it does not fit
/// in a `usize`.
pub fn total_captures(ms: &Vec<Vec<Capture>>) -> (r: Option<usize>)
    ensures
        match r {
            Some(n) => n == capture_count(matches_view(ms@)),
            None => capture_count(matches_view(ms@)) > usize::MAX,
        },
{
    let ghost v = matches_view(ms@);
    let mut n: usize = 0;
    let mut i: usize = 0;
    proof {
        assert(v.take(0) =~= Seq::<Seq<CaptureV>>::empty());
    }
    while i < ms.len()
        invariant
            v == matches_view(ms@),
            i <= ms@.len(),
            n == capture_count(v.take(i as int)),
        decreases ms.len() - i,
    {
        proof {
            lemma_capture_count_push(v.take(i as int), v[i as int]);
            assert(v.take(i as int).push(v[i as int]) =~= v.take(i + 1));
            assert(v[i as int].len() == ms@[i as int]@.len());
        }
        if ms[i].len() > usize::MAX - n {
            proof {
                lemma_capture_count_prefix(v, i + 1);
            }
            return None;
        }
        n = n + ms[i].len();
        i = i + 1;
    }
    proof {
        assert(v.take(i as int) =~= v);
    }
    Some(n)
}

/// A prefix of the matches has no more captures than the whole.
pub proof fn lemma_capture_count_prefix(ms: Seq<Seq<CaptureV>>, k: int)
    requires
        0 <= k <= ms.len(),
    ensures
        capture_count(ms.take(k)) <= capture_count(ms),
    decreases ms.len(),
{
    if k < ms.len() {
        assert(ms.drop_last().take(k) =~= ms.take(k));
        lemma_capture_count_prefix(ms.drop_last(), k);
        lemma_capture_count_push(ms.drop_last(), ms.last());
        assert(ms.drop_last().push(ms.last()) =~= ms);
    } else {
        assert(ms.take(k) =~= ms);
    }
}

/// Calls `Tree::root_node` and `Node::end_position` of tree-sitter: where the
/// tree's root ends.  Nothing is stated of the value.
#[verifier::external_body]
pub(crate) fn root_end(tree: &tree_sitter::Tree) -> Point {
    let e = tree.root_node().end_position();
    Point { row: e.row, column: e.column }
}

/// The grammars the server parses with.
#[derive(Clone, Copy, PartialEq, Eq, Structural, Debug)]
pub enum Grammar {
    Jinja,
    Rust,
    Python,
}

/// Calls `Node::parent`, `Node::child_count` and `Node::child` of tree-sitter
/// and returns the start of the enclosing node, its number of children and
/// the end of its last child.  Nothing is stated of the values.
#[verifier::external_body]
fn parent_info(node: &tree_sitter::Node) -> Option<ParentInfo> {
    let parent = node.parent()?;
    let count = parent.child_count();
    let last = if count > 0 { parent.child(count - 1) } else { None };
    let start = parent.start_position();
    Some(ParentInfo {
        start: Point { row: start.row, column: start.column },
        child_count: count,
        last_child_end: last.map(|l| Point { row: l.end_position().row, column: l.end_position().column }),
    })
}

/// Calls `Node::child_by_field_name` of tree-sitter for the field
/// `identifier` and reads the child's span, and its text as the bytes of
/// `source` in the child's byte range (`Node::byte_range`, read with a
/// checked `get`: no text where the range lies outside `source` or is not
/// UTF-8).  Nothing is stated of them: they come from the parse tree.
#[verifier::external_body]
fn identifier_child(node: &tree_sitter::Node, source: &str) -> Option<(Point, Point, Option<String>)> {
    let c = node.child_by_field_name("identifier")?;
    let (s, e) = (c.start_position(), c.end_position());
    let bytes = source.as_bytes().get(c.byte_range());
    let text = bytes.and_then(|b| std::str::from_utf8(b).ok()).map(|t| t.to_string());
    Some((Point { row: s.row, column: s.column }, Point { row: e.row, column: e.column }, text))
}

/// Reads a captured node of tree-sitter (`Node::id`, `start_position`,
/// `end_position`, and its text as the bytes of `source` in
/// `Node::byte_range`, read with a checked `get`: no text where the range
/// lies outside `source` or is not UTF-8) into plain values.  Only the name is
/// stated: the rest comes from the parse tree.
#[verifier::external_body]
fn capture_of(name: &str, node: &tree_sitter::Node, source: &str) -> (c: Capture)
    ensures
        c.name@ == name@,
{
    let (s, e) = (node.start_position(), node.end_position());
    let bytes = source.as_bytes().get(node.byte_range());
    Capture {
        name: name.to_string(),
        id: node.id(),
        start: Point { row: s.row, column: s.column },
        end: Point { row: e.row, column: e.column },
        text: bytes.and_then(|b| std::str::from_utf8(b).ok()).map(|t| t.to_string()),
        parent: parent_info(node),
        identifier: identifier_child(node, source),
    }
}

/// What `Query::capture_names` gives for the query tree-sitter builds from
/// `source` over the grammar `g`: the names of its captures, which the
/// grammar and the source alone decide.
pub uninterp spec fn capture_names(g: Grammar, source: Seq<char>) -> Seq<Seq<char>>;

/// Every capture of the matches has one of the names in `names`.
pub open spec fn names_within(ms: Seq<Seq<CaptureV>>, names: Seq<Seq<char>>) -> bool {
    forall|i: int, j: int| 0 <= i < ms.len() && 0 <= j < ms[i].len() ==> names.contains(#[trigger] ms[i][j].name)
}

/// A tree-sitter query together with the grammar and the source it was
/// built from.  It can only be built by `SourcedQuery::new`, so the three
/// always agree.
pub struct SourcedQuery {
    query: tree_sitter::Query,
    grammar: Grammar,
    source: String,
}

impl View for SourcedQuery {
    type V = (Grammar, Seq<char>);

    /// The grammar and the source of the query.
    closed spec fn view(&self) -> (Grammar, Seq<char>) {
        (self.grammar, self.source@)
    }
}

impl SourcedQuery {
    /// Builds the query of `source` over the grammar `g`; `None` exactly
    /// where tree-sitter does not accept the source.
    pub fn new(g: Grammar, source: &str) -> (r: Option<SourcedQuery>)
        ensures
            r is Some == query_accepted(g, source@),
            r matches Some(q) ==> q@ == (g, source@),
    {
        match new_query(g, source) {
            Some(query) => Some(SourcedQuery { query, grammar: g, source: crate::text::copy_str(source) }),
            None => None,
        }
    }

    /// The grammar the query was built for.
    pub fn grammar(&self) -> (g: Grammar)
        ensures
            g == self@.0,
    {
        self.grammar
    }
}

/// Runs `QueryCursor::matches` of tree-sitter for `query` over the whole of
/// `tree` and returns each match as its list of captures, in the order that
/// tree-sitter yields them.  Each capture is named by `Query::capture_names`
/// of the query, so its name is one of `capture_names` of the query's
/// grammar and source.  The text that the query's predicates read of a node
/// is the bytes of `source` in its byte range, read with a checked `get`
/// (empty where the range lies outside `source`), so a tree that does not
/// belong to `source` gives no panic.  Which captures come back depends on
/// the parse tree and on node identities that tree-sitter assigns, so
/// nothing more is stated of them.
#[verifier::external_body]
pub(crate) fn query_matches(query: &SourcedQuery, tree: &tree_sitter::Tree, source: &str) -> (r: Vec<Vec<Capture>>)
    ensures
        names_within(matches_view(r@), capture_names(query@.0, query@.1)),
{
    let names = query.query.capture_names();
    let mut cursor = tree_sitter::QueryCursor::new();
    let text = |n: tree_sitter::Node| std::iter::once(source.as_bytes().get(n.byte_range()).unwrap_or(&[]));
    let mut matches = cursor.matches(&query.query, tree.root_node(), text);
    let mut out = Vec::new();
    while let Some(m) = matches.next() {
        out.push(m.captures().iter().map(|c| capture_of(names[c.index as usize], &c.node, source)).collect());
    }
    out
}

/// The Jinja grammar of `tree-sitter-jinja2` (its `LANGUAGE`).
#[verifier::external_body]
pub(crate) fn jinja_language() -> tree_sitter::Language {
    tree_sitter_jinja2::LANGUAGE.into()
}

/// The Rust grammar of `tree-sitter-rust` (its `LANGUAGE`).
#[verifier::external_body]
pub(crate) fn rust_language() -> tree_sitter::Language {
    tree_sitter_rust::LANGUAGE.into()
}

/// The Python grammar of `tree-sitter-python` (its `LANGUAGE`).
#[verifier::external_body]
pub(crate) fn python_language() -> tree_sitter::Language {
    tree_sitter_python::LANGUAGE.into()
}

/// The language of a grammar.
pub fn language(g: Grammar) -> tree_sitter::Language {
    match g {
        Grammar::Jinja => jinja_language(),
        Grammar::Rust => rust_language(),
        Grammar::Python => python_language(),
    }
}

/// Whether tree-sitter accepts `source` as a query over the grammar `g`:
/// what `Query::new` decides from the grammar and the source alone.
pub uninterp spec fn query_accepted(g: Grammar, source: Seq<char>) -> bool;

/// Calls `Query::new` of tree-sitter over the `LANGUAGE` of
/// tree-sitter-jinja2, tree-sitter-rust or tree-sitter-python, as `g`
/// names it.  It gives a query exactly when tree-sitter accepts the source,
/// which `query_accepted` names; the error is dropped, and nothing is stated
/// of the query itself.
#[verifier::external_body]
pub(crate) fn new_query(g: Grammar, source: &str) -> (r: Option<tree_sitter::Query>)
    ensures
        r is Some == query_accepted(g, source@),
{
    let language: tree_sitter::Language = match g {
        Grammar::Jinja => tree_sitter_jinja2::LANGUAGE.into(),
        Grammar::Rust => tree_sitter_rust::LANGUAGE.into(),
        Grammar::Python => tree_sitter_python::LANGUAGE.into(),
    };
    tree_sitter::Query::new(&language, source).ok()
}

/// Calls `Node::descendant_for_point_range` of tree-sitter on the tree's
/// root for the empty range at `point`, then `Node::kind` and
/// `Node::parent` up to the root: the kinds of the smallest node there and
/// of its ancestors, innermost first; `None` where tree-sitter finds no
/// node.  Nothing is stated of them: they come from the parse tree.
#[verifier::external_body]
pub(crate) fn kinds_at(tree: &tree_sitter::Tree, point: Point) -> Option<Vec<String>> {
    let p = tree_sitter::Point::new(point.row, point.column);
    let mut node = Some(tree.root_node().descendant_for_point_range(p, p)?);
    let mut kinds = Vec::new();
    while let Some(n) = node {
        kinds.push(n.kind().to_string());
        node = n.parent();
    }
    Some(kinds)
}

/// Calls `Tree::edit` of tree-sitter with `edit`, its fields carried over
/// one for one into tree-sitter's `InputEdit`.  The tree is opaque: nothing
/// is stated of it.
#[verifier::external_body]
pub(crate) fn tree_edit(tree: &mut tree_sitter::Tree, edit: &crate::to_input_edit::InputEdit) {
    tree.edit(&tree_sitter::InputEdit {
        start_byte: edit.start_byte,
        old_end_byte: edit.old_end_byte,
        new_end_byte: edit.new_end_byte,
        start_position: tree_sitter::Point::new(edit.start_position.row, edit.start_position.column),
        old_end_position: tree_sitter::Point::new(edit.old_end_position.row, edit.old_end_position.column),
        new_end_position: tree_sitter::Point::new(edit.new_end_position.row, edit.new_end_position.column),
    });
}

/// Calls `Parser::new` and then `Parser::set_language` of tree-sitter; the
/// outcome of the second call is dropped.  Nothing is stated of the parser.
#[verifier::external_body]
pub(crate) fn new_parser(language: &tree_sitter::Language) -> tree_sitter::Parser {
    let mut parser = tree_sitter::Parser::new();
    let _ = parser.set_language(language);
    parser
}

/// Calls `Parser::parse` of tree-sitter.  It gives no tree when parsing
/// cannot be done; nothing is stated of the tree.
#[verifier::external_body]
pub(crate) fn parse_text(parser: &mut tree_sitter::Parser, text: &str, old_tree: Option<&tree_sitter::Tree>) -> Option<tree_sitter::Tree> {
    parser.parse(text, old_tree)
}

/// The captures of a match that a walk takes: each that starts no later than
/// the trigger point, or every one with `all`.
pub open spec fn taken_in(m: Seq<CaptureV>, trigger: Point, all: bool) -> Seq<CaptureV>
    decreases m.len(),
{
    if m.len() == 0 {
        Seq::empty()
    } else if all || p_le(m.last().start, trigger) {
        taken_in(m.drop_last(), trigger, all).push(m.last())
    } else {
        taken_in(m.drop_last(), trigger, all)
    }
}

/// The captures a walk takes, match after match.
pub open spec fn flat_captures(ms: Seq<Seq<CaptureV>>, trigger: Point, all: bool) -> Seq<CaptureV>
    decreases ms.len(),
{
    if ms.len() == 0 {
        Seq::empty()
    } else {
        flat_captures(ms.drop_last(), trigger, all) + taken_in(ms.last(), trigger, all)
    }
}

/// The plain values of a list of captures.
pub open spec fn caps_view(s: Seq<Capture>) -> Seq<CaptureV> {
    s.map_values(|c: Capture| c@)
}

impl Capture {
    /// A copy of this capture.
    pub fn copy(&self) -> (r: Capture)
        ensures
            r@ == self@,
    {
        Capture {
            name: self.name.clone(),
            id: self.id,
            start: self.start,
            end: self.end,
            text: match &self.text {
                Some(t) => Some(t.clone()),
                None => None,
            },
            parent: self.parent,
            identifier: match &self.identifier {
                Some((s, e, t)) => Some((*s, *e, match t {
                    Some(x) => Some(x.clone()),
                    None => None,
                })),
                None => None,
            },
        }
    }
}

/// The captures a walk takes, match after match, as one list.
pub fn taken_captures(matches: &Vec<Vec<Capture>>, trigger: Point, all: bool) -> (r: Vec<Capture>)
    ensures
        caps_view(r@) == flat_captures(matches_view(matches@), trigger, all),
{
    let ghost ms = matches_view(matches@);
    let mut r: Vec<Capture> = Vec::new();
    let mut mi: usize = 0;
    proof {
        assert(ms.take(0) =~= Seq::<Seq<CaptureV>>::empty());
        assert(caps_view(r@) =~= Seq::<CaptureV>::empty());
    }
    while mi < matches.len()
        invariant
            ms == matches_view(matches@),
            mi <= matches@.len(),
            caps_view(r@) == flat_captures(ms.take(mi as int), trigger, all),
        decreases matches.len() - mi,
    {
        let m = &matches[mi];
        let ghost mv = ms[mi as int];
        let ghost before = caps_view(r@);
        proof {
            assert(mv == match_view(m@));
            assert(mv.take(0) =~= Seq::<CaptureV>::empty());
            assert(before + Seq::<CaptureV>::empty() =~= before);
        }
        let mut ci: usize = 0;
        while ci < m.len()
            invariant
                mi < matches@.len(),
                m == matches@[mi as int],
                mv == match_view(m@),
                ci <= m@.len(),
                caps_view(r@) == before + taken_in(mv.take(ci as int), trigger, all),
            decreases m.len() - ci,
        {
            let c = &m[ci];
            proof {
                let t = mv.take(ci + 1);
                assert(t.drop_last() =~= mv.take(ci as int));
                assert(t.last() == c@);
            }
            if all || c.start.le(&trigger) {
                let ghost prev = r@;
                r.push(c.copy());
                proof {
                    assert(caps_view(r@) =~= caps_view(prev).push(c@));
                }
            }
            ci = ci + 1;
        }
        proof {
            assert(mv.take(ci as int) =~= mv);
            let t = ms.take(mi + 1);
            assert(t.drop_last() =~= ms.take(mi as int));
            assert(t.last() == mv);
        }
        mi = mi + 1;
    }
    proof {
        assert(ms.take(mi as int) =~= ms);
    }
    r
}

} // verus!
