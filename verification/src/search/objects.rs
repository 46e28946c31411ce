use vstd::prelude::*;

use crate::point::{p_le, p_lt, spec_to_range, to_range, Point, Range};
use crate::search::{completion_start, fields_view, new_ident, spec_completion_start, Identifier};
use crate::syntax::{capture_names, matches_view, names_within, query_matches, Capture, CaptureV};
use crate::text::{copy_str, str_eq};
use vstd::string::StringSliceAdditionalSpecFns;

verus! {

/// A name used in a template expression, with the attributes taken from it.
#[derive(Debug)]
pub struct JinjaObject {
    pub name: String,
    pub is_filter: bool,
    pub is_test: bool,
    pub fields: Vec<(String, (Point, Point))>,
    pub is_object: bool,
    pub location: (Point, Point),
}

pub struct ObjectV {
    pub name: Seq<char>,
    pub is_filter: bool,
    pub is_test: bool,
    pub fields: Seq<(Seq<char>, (Point, Point))>,
    pub is_object: bool,
    pub location: (Point, Point),
}

impl View for JinjaObject {
    type V = ObjectV;

    open spec fn view(&self) -> ObjectV {
        ObjectV {
            name: self.name@,
            is_filter: self.is_filter,
            is_test: self.is_test,
            fields: fields_view(self.fields@),
            is_object: self.is_object,
            location: self.location,
        }
    }
}

/// The point at the start of the document.
pub open spec fn origin() -> Point {
    Point { row: 0, column: 0 }
}

/// Where the last attribute ends, or the object itself when it has none.
pub open spec fn last_field_end(o: ObjectV) -> Point {
    if o.fields.len() == 0 {
        o.location.1
    } else {
        o.fields.last().1.1
    }
}

/// The span of an object: its own span for an object node, else from its
/// first attribute to its last.
pub open spec fn object_location(o: ObjectV) -> (Point, Point) {
    if o.is_object {
        o.location
    } else {
        (if o.fields.len() == 0 { o.location.0 } else { o.fields[0].1.0 }, last_field_end(o))
    }
}

impl JinjaObject {
    pub fn new(name: String, is_filter: bool, is_test: bool) -> (o: JinjaObject)
        ensures
            o@ == (ObjectV {
                name: name@,
                is_filter,
                is_test,
                fields: Seq::empty(),
                is_object: false,
                location: (origin(), origin()),
            }),
    {
        let o = JinjaObject {
            name,
            fields: Vec::new(),
            is_filter,
            is_test,
            is_object: false,
            location: (Point::zero(), Point::zero()),
        };
        assert(fields_view(o.fields@) =~= Seq::empty());
        o
    }

    pub fn add_field(&mut self, field: String, start: Point, end: Point)
        ensures
            final(self)@ == (ObjectV { fields: old(self)@.fields.push((field@, (start, end))), ..old(self)@ }),
    {
        let ghost before = self.fields@;
        self.fields.push((field, (start, end)));
        assert(fields_view(self.fields@) =~= fields_view(before).push((field@, (start, end))));
    }

    pub fn last_field_end(&self) -> (p: Point)
        ensures
            p == last_field_end(self@),
    {
        if self.fields.len() == 0 {
            self.location.1
        } else {
            self.fields[self.fields.len() - 1].1.1
        }
    }

    pub fn location(&self) -> (r: (Point, Point))
        ensures
            r == object_location(self@),
    {
        if self.is_object {
            return self.location;
        }
        let start = if self.fields.len() == 0 {
            self.location.0
        } else {
            self.fields[0].1.0
        };
        (start, self.last_field_end())
    }

    pub fn full_range(&self) -> (r: Range)
        ensures
            r == spec_to_range(object_location(self@)),
    {
        to_range(self.location())
    }

    /// A copy of this object.
    pub fn copy(&self) -> (r: JinjaObject)
        ensures
            r@ == self@,
    {
        JinjaObject {
            name: copy_str(self.name.as_str()),
            is_filter: self.is_filter,
            is_test: self.is_test,
            fields: crate::search::copy_fields(&self.fields),
            is_object: self.is_object,
            location: self.location,
        }
    }
}

/// What a node seen by the objects query tells about the place of the cursor.
#[derive(Debug)]
pub enum CompletionMember {
    ExpresionStart,
    ExpressionEnd,
    StatementStart,
    StatementEnd,
    Ident(String),
    FilterOperator,
    Test,
}

pub enum MemberV {
    ExpresionStart,
    ExpressionEnd,
    StatementStart,
    StatementEnd,
    Ident(Seq<char>),
    FilterOperator,
    Test,
}

impl View for CompletionMember {
    type V = MemberV;

    open spec fn view(&self) -> MemberV {
        match self {
            CompletionMember::ExpresionStart => MemberV::ExpresionStart,
            CompletionMember::ExpressionEnd => MemberV::ExpressionEnd,
            CompletionMember::StatementStart => MemberV::StatementStart,
            CompletionMember::StatementEnd => MemberV::StatementEnd,
            CompletionMember::Ident(s) => MemberV::Ident(s@),
            CompletionMember::FilterOperator => MemberV::FilterOperator,
            CompletionMember::Test => MemberV::Test,
        }
    }
}

/// The objects of a template and the nodes of its last expression or
/// statement.
#[derive(Debug)]
pub struct JinjaObjects {
    pub objects: Vec<JinjaObject>,
    /// The nodes already taken.
    pub previous_node_id: std::collections::HashSet<usize>,
    pub previous_nodes: Vec<(CompletionMember, (Point, Point))>,
    /// Whether the names that follow are tests.
    pub test: bool,
}

pub struct ObjectsV {
    pub objects: Seq<ObjectV>,
    pub seen: Set<usize>,
    pub nodes: Seq<(MemberV, (Point, Point))>,
    pub test: bool,
}

/// The plain values of a list of objects.
pub open spec fn objects_view(s: Seq<JinjaObject>) -> Seq<ObjectV> {
    s.map_values(|o: JinjaObject| o@)
}

/// The plain values of a list of nodes.
pub open spec fn nodes_view(s: Seq<(CompletionMember, (Point, Point))>) -> Seq<(MemberV, (Point, Point))> {
    s.map_values(|n: (CompletionMember, (Point, Point))| (n.0@, n.1))
}

impl View for JinjaObjects {
    type V = ObjectsV;

    open spec fn view(&self) -> ObjectsV {
        ObjectsV {
            objects: objects_view(self.objects@),
            seen: self.previous_node_id@,
            nodes: nodes_view(self.previous_nodes@),
            test: self.test,
        }
    }
}

/// Names that are never taken as objects.
pub open spec fn valid_identifier(s: Seq<char>) -> bool {
    s == "loop"@ || s == "true"@ || s == "false"@ || s == "not"@ || s == "as"@ || s == "module"@
        || s == "super"@ || s == "url_for"@
}

/// Whether `s` is one of the names that are never taken as objects.
pub fn is_valid_identifier(s: &str) -> (b: bool)
    ensures
        b == valid_identifier(s@),
{
    proof {
        reveal_strlit("loop");
        reveal_strlit("true");
        reveal_strlit("false");
        reveal_strlit("not");
        reveal_strlit("as");
        reveal_strlit("module");
        reveal_strlit("super");
        reveal_strlit("url_for");
    }
    str_eq(s, "loop") || str_eq(s, "true") || str_eq(s, "false") || str_eq(s, "not") || str_eq(s, "as")
        || str_eq(s, "module") || str_eq(s, "super") || str_eq(s, "url_for")
}

/// The kinds of captures that the objects query yields.
#[derive(Clone, Copy, PartialEq, Eq, Structural, Debug)]
pub enum ObjectCapture {
    Object,
    Attribute,
    JustId,
    Filter,
    ExprStart,
    ExprEnd,
    StatementStart,
    StatementEnd,
    Is,
    Error,
    Other,
}

/// The kind of a capture, by its name.
pub open spec fn object_kind(name: Seq<char>) -> ObjectCapture {
    if name == "object"@ {
        ObjectCapture::Object
    } else if name == "attribute"@ {
        ObjectCapture::Attribute
    } else if name == "just_id"@ {
        ObjectCapture::JustId
    } else if name == "filter"@ {
        ObjectCapture::Filter
    } else if name == "expr_start"@ {
        ObjectCapture::ExprStart
    } else if name == "expr_end"@ {
        ObjectCapture::ExprEnd
    } else if name == "statement_start"@ {
        ObjectCapture::StatementStart
    } else if name == "statement_end"@ {
        ObjectCapture::StatementEnd
    } else if name == "is"@ {
        ObjectCapture::Is
    } else if name == "error"@ {
        ObjectCapture::Error
    } else {
        ObjectCapture::Other
    }
}

/// Tells the kind of a capture by its name.
pub fn classify_object(name: &str) -> (k: ObjectCapture)
    ensures
        k == object_kind(name@),
{
    proof {
        reveal_strlit("object");
        reveal_strlit("attribute");
        reveal_strlit("just_id");
        reveal_strlit("filter");
        reveal_strlit("expr_start");
        reveal_strlit("expr_end");
        reveal_strlit("statement_start");
        reveal_strlit("statement_end");
        reveal_strlit("is");
        reveal_strlit("error");
    }
    if str_eq(name, "object") {
        ObjectCapture::Object
    } else if str_eq(name, "attribute") {
        ObjectCapture::Attribute
    } else if str_eq(name, "just_id") {
        ObjectCapture::JustId
    } else if str_eq(name, "filter") {
        ObjectCapture::Filter
    } else if str_eq(name, "expr_start") {
        ObjectCapture::ExprStart
    } else if str_eq(name, "expr_end") {
        ObjectCapture::ExprEnd
    } else if str_eq(name, "statement_start") {
        ObjectCapture::StatementStart
    } else if str_eq(name, "statement_end") {
        ObjectCapture::StatementEnd
    } else if str_eq(name, "is") {
        ObjectCapture::Is
    } else if str_eq(name, "error") {
        ObjectCapture::Error
    } else {
        ObjectCapture::Other
    }
}

/// Some node of the list is a filter operator.
pub open spec fn has_filter_operator(nodes: Seq<(MemberV, (Point, Point))>) -> bool {
    exists|i: int| 0 <= i < nodes.len() && (#[trigger] nodes[i]).0 is FilterOperator
}

/// The state with `n` appended to the nodes.
pub open spec fn with_node(d: ObjectsV, n: MemberV, start: Point, end: Point) -> ObjectsV {
    ObjectsV { nodes: d.nodes.push((n, (start, end))), ..d }
}

/// The state with the nodes restarted at `n`.
pub open spec fn restarted(d: ObjectsV, n: MemberV, start: Point, end: Point) -> ObjectsV {
    ObjectsV { nodes: seq![(n, (start, end))], ..d }
}

/// How a capture changes the objects, and what the step returns: `Some`
/// only where a name that is never an object was skipped.
pub open spec fn object_step(d: ObjectsV, c: CaptureV) -> (ObjectsV, Option<()>) {
    let v = c.text.unwrap();
    let (start, end) = (c.start, c.end);
    if d.seen.contains(c.id) {
        (d, None)
    } else {
        let d1 = ObjectsV { seen: d.seen.insert(c.id), ..d };
        match object_kind(c.name) {
            ObjectCapture::Object => (
                ObjectsV {
                    objects: d1.objects.push(ObjectV {
                        name: Seq::empty(),
                        is_filter: false,
                        is_test: false,
                        fields: Seq::empty(),
                        is_object: true,
                        location: (start, end),
                    }),
                    ..d1
                },
                None,
            ),
            ObjectCapture::Attribute => {
                if d1.objects.len() == 0 {
                    (d1, None)
                } else {
                    let last = d1.objects.last();
                    let fields = last.fields.push((v, (start, end)));
                    let i = d1.objects.len() - 1;
                    if last.name.len() == 0 {
                        let d2 = ObjectsV { objects: d1.objects.update(i, ObjectV { fields, name: fields[0].0, ..last }), ..d1 };
                        if fields.len() == 1 && valid_identifier(v) {
                            (d2, Some(()))
                        } else {
                            (with_node(d2, MemberV::Ident(v), start, end), None)
                        }
                    } else {
                        (ObjectsV { objects: d1.objects.update(i, ObjectV { fields, ..last }), ..d1 }, None)
                    }
                }
            },
            ObjectCapture::JustId => {
                if valid_identifier(v) {
                    (d1, Some(()))
                } else {
                    let o = ObjectV {
                        name: v,
                        is_filter: has_filter_operator(d1.nodes),
                        is_test: d1.test,
                        fields: seq![(v, (start, end))],
                        is_object: false,
                        location: (origin(), origin()),
                    };
                    (with_node(ObjectsV { objects: d1.objects.push(o), ..d1 }, MemberV::Ident(v), start, end), None)
                }
            },
            ObjectCapture::Filter => (with_node(d1, MemberV::FilterOperator, start, end), None),
            ObjectCapture::ExprStart => (restarted(d1, MemberV::ExpresionStart, start, end), None),
            ObjectCapture::ExprEnd => (with_node(d1, MemberV::ExpressionEnd, start, end), None),
            ObjectCapture::StatementStart => (restarted(d1, MemberV::StatementStart, start, end), None),
            ObjectCapture::StatementEnd => (with_node(d1, MemberV::StatementEnd, start, end), None),
            ObjectCapture::Is => (with_node(d1, MemberV::Test, start, end), None),
            ObjectCapture::Error => (d1, None),
            ObjectCapture::Other => (d1, None),
        }
    }
}

/// A copy of a node.
fn copy_member(m: &CompletionMember) -> (r: CompletionMember)
    ensures
        r@ == m@,
{
    match m {
        CompletionMember::ExpresionStart => CompletionMember::ExpresionStart,
        CompletionMember::ExpressionEnd => CompletionMember::ExpressionEnd,
        CompletionMember::StatementStart => CompletionMember::StatementStart,
        CompletionMember::StatementEnd => CompletionMember::StatementEnd,
        CompletionMember::Ident(s) => CompletionMember::Ident(copy_str(s.as_str())),
        CompletionMember::FilterOperator => CompletionMember::FilterOperator,
        CompletionMember::Test => CompletionMember::Test,
    }
}

impl JinjaObjects {
    /// No objects and no nodes.
    pub fn new() -> (d: JinjaObjects)
        ensures
            d@.objects.len() == 0,
            d@.seen == Set::<usize>::empty(),
            d@.nodes.len() == 0,
            !d@.test,
    {
        JinjaObjects { objects: Vec::new(), previous_node_id: std::collections::HashSet::new(), previous_nodes: Vec::new(), test: false }
    }

    fn seen(&self, id: usize) -> (b: bool)
        ensures
            b == self@.seen.contains(id),
    {
        broadcast use vstd::std_specs::hash::group_hash_axioms;
        self.previous_node_id.contains(&id)
    }

    fn push_node(&mut self, n: CompletionMember, start: Point, end: Point)
        ensures
            final(self)@ == with_node(old(self)@, n@, start, end),
    {
        let ghost before = self.previous_nodes@;
        self.previous_nodes.push((n, (start, end)));
        assert(nodes_view(self.previous_nodes@) =~= nodes_view(before).push((n@, (start, end))));
    }

    fn restart_nodes(&mut self, n: CompletionMember, start: Point, end: Point)
        ensures
            final(self)@ == restarted(old(self)@, n@, start, end),
    {
        self.previous_nodes = Vec::new();
        self.previous_nodes.push((n, (start, end)));
        assert(nodes_view(self.previous_nodes@) =~= seq![(n@, (start, end))]);
    }

    fn push_object(&mut self, o: JinjaObject)
        ensures
            final(self)@ == (ObjectsV { objects: old(self)@.objects.push(o@), ..old(self)@ }),
    {
        let ghost before = self.objects@;
        self.objects.push(o);
        assert(objects_view(self.objects@) =~= objects_view(before).push(o@));
    }

    /// Whether a filter operator is among the nodes.
    pub fn is_filter(&self, _trigger_point: Option<Point>) -> (b: bool)
        ensures
            b == has_filter_operator(self@.nodes),
    {
        let mut i: usize = 0;
        while i < self.previous_nodes.len()
            invariant
                i <= self.previous_nodes@.len(),
                forall|j: int| 0 <= j < i ==> (#[trigger] self@.nodes[j]).0 !is FilterOperator,
            decreases self.previous_nodes.len() - i,
        {
            if let CompletionMember::FilterOperator = self.previous_nodes[i].0 {
                assert(self@.nodes[i as int].0 is FilterOperator);
                return true;
            }
            assert(self@.nodes[i as int] == (self.previous_nodes@[i as int].0@, self.previous_nodes@[i as int].1));
            i = i + 1;
        }
        false
    }

    /// Takes one capture of the objects query.
    pub fn collect(&mut self, capture: &Capture) -> (r: Option<()>)
        requires
            capture.text is Some,
        ensures
            (final(self)@, r) == object_step(old(self)@, capture@),
    {
        let value = match &capture.text {
            Some(t) => t.as_str(),
            None => "",
        };
        let (start, end) = (capture.start, capture.end);
        let id = capture.id;
        if self.seen(id) {
            return None;
        }
        proof {
            broadcast use vstd::std_specs::hash::group_hash_axioms;
        }
        self.previous_node_id.insert(id);
        match classify_object(capture.name.as_str()) {
            ObjectCapture::Object => {
                let mut object = JinjaObject::new(String::new(), false, false);
                object.is_object = true;
                object.location = (start, end);
                self.push_object(object);
            },
            ObjectCapture::Attribute => {
                let mut last = match self.objects.pop() {
                    Some(o) => o,
                    None => return None,
                };
                let ghost rest = self.objects@;
                last.add_field(copy_str(value), start, end);
                assert(fields_view(last.fields@).len() == last.fields@.len());
                if last.name.as_str().is_empty() {
                    last.name = copy_str(last.fields[0].0.as_str());
                    let valid = last.fields.len() == 1 && is_valid_identifier(value);
                    self.objects.push(last);
                    proof {
                        assert(objects_view(self.objects@) =~= objects_view(old(self).objects@).update(
                            old(self).objects@.len() - 1, self.objects@.last()@));
                    }
                    if valid {
                        return Some(());
                    }
                    self.push_node(CompletionMember::Ident(copy_str(value)), start, end);
                } else {
                    self.objects.push(last);
                    proof {
                        assert(objects_view(self.objects@) =~= objects_view(old(self).objects@).update(
                            old(self).objects@.len() - 1, self.objects@.last()@));
                    }
                }
            },
            ObjectCapture::JustId => {
                if is_valid_identifier(value) {
                    return Some(());
                }
                let is_test = self.test;
                let is_filter = self.is_filter(None);
                let mut object = JinjaObject::new(copy_str(value), is_filter, is_test);
                object.add_field(copy_str(value), start, end);
                proof {
                    assert(object@.fields =~= seq![(value@, (start, end))]);
                }
                self.push_object(object);
                self.push_node(CompletionMember::Ident(copy_str(value)), start, end);
            },
            ObjectCapture::Filter => self.push_node(CompletionMember::FilterOperator, start, end),
            ObjectCapture::ExprStart => self.restart_nodes(CompletionMember::ExpresionStart, start, end),
            ObjectCapture::ExprEnd => self.push_node(CompletionMember::ExpressionEnd, start, end),
            ObjectCapture::StatementStart => self.restart_nodes(CompletionMember::StatementStart, start, end),
            ObjectCapture::StatementEnd => self.push_node(CompletionMember::StatementEnd, start, end),
            ObjectCapture::Is => self.push_node(CompletionMember::Test, start, end),
            ObjectCapture::Error => return None,
            ObjectCapture::Other => {},
        }
        None
    }
}

/// What the cursor may be completed with.
#[derive(Debug)]
pub enum CompletionType {
    Filter,
    Test,
    Identifier,
    IncludedTemplate { name: String, range: (Point, Point) },
    Snippets { range: (Point, Point) },
    IncompleteIdentifier { name: String, range: (Point, Point) },
    IncompleteFilter { name: String, range: (Point, Point) },
}

pub enum CompletionTypeV {
    Filter,
    Test,
    Identifier,
    IncludedTemplate { name: Seq<char>, range: (Point, Point) },
    Snippets { range: (Point, Point) },
    IncompleteIdentifier { name: Seq<char>, range: (Point, Point) },
    IncompleteFilter { name: Seq<char>, range: (Point, Point) },
}

impl View for CompletionType {
    type V = CompletionTypeV;

    open spec fn view(&self) -> CompletionTypeV {
        match self {
            CompletionType::Filter => CompletionTypeV::Filter,
            CompletionType::Test => CompletionTypeV::Test,
            CompletionType::Identifier => CompletionTypeV::Identifier,
            CompletionType::IncludedTemplate { name, range } => CompletionTypeV::IncludedTemplate { name: name@, range: *range },
            CompletionType::Snippets { range } => CompletionTypeV::Snippets { range: *range },
            CompletionType::IncompleteIdentifier { name, range } => CompletionTypeV::IncompleteIdentifier { name: name@, range: *range },
            CompletionType::IncompleteFilter { name, range } => CompletionTypeV::IncompleteFilter { name: name@, range: *range },
        }
    }
}

/// The plain value of an optional completion.
pub open spec fn opt_completion_view(c: Option<CompletionType>) -> Option<CompletionTypeV> {
    match c {
        Some(t) => Some(t@),
        None => None,
    }
}

/// The span of the last object, or nothing at the start of the document.
pub open spec fn objects_full_range(d: ObjectsV) -> (Point, Point) {
    if d.objects.len() == 0 {
        (origin(), origin())
    } else {
        object_location(d.objects.last())
    }
}

/// What the nodes up to the cursor tell.
pub struct Flags {
    pub is_filter: bool,
    pub is_id: bool,
    pub is_expr_start: bool,
    pub after_expr: bool,
    pub incomplete: Option<(Seq<char>, (Point, Point))>,
    pub is_error: bool,
    pub is_test: bool,
}

/// Nothing seen yet.
pub open spec fn no_flags() -> Flags {
    Flags {
        is_filter: false,
        is_id: false,
        is_expr_start: false,
        after_expr: false,
        incomplete: None,
        is_error: false,
        is_test: false,
    }
}

/// The flags after one node that starts no later than the cursor.
pub open spec fn flag_step(f: Flags, n: (MemberV, (Point, Point)), tp: Point, range: (Point, Point)) -> Flags {
    let (start, end) = n.1;
    match n.0 {
        MemberV::ExpresionStart => Flags {
            is_error: f.is_error || (p_lt(start, tp) && p_lt(tp, end)),
            is_expr_start: f.is_expr_start || p_le(end, tp),
            ..f
        },
        MemberV::ExpressionEnd => Flags {
            is_error: f.is_error || (p_lt(start, tp) && p_lt(tp, end)),
            after_expr: f.after_expr || p_le(end, tp),
            ..f
        },
        MemberV::Ident(name) => Flags {
            is_id: f.is_id || p_le(start, tp),
            incomplete: if p_le(start, tp) && p_le(tp, end) {
                match spec_completion_start(tp, new_ident(name, start, end)) {
                    Some(b) => Some((vstd::utf8::decode_utf8(b), range)),
                    None => None,
                }
            } else {
                f.incomplete
            },
            ..f
        },
        MemberV::FilterOperator => Flags { is_filter: f.is_filter || p_le(start, tp), ..f },
        MemberV::Test => Flags { is_test: f.is_test || p_le(start, tp), ..f },
        _ => f,
    }
}

/// The flags after the nodes, stopping at the first that starts after the
/// cursor.
pub open spec fn scan_flags(f: Flags, nodes: Seq<(MemberV, (Point, Point))>, tp: Point, range: (Point, Point)) -> Flags
    decreases nodes.len(),
{
    if nodes.len() == 0 {
        f
    } else if p_lt(tp, nodes[0].1.0) {
        f
    } else {
        scan_flags(flag_step(f, nodes[0], tp, range), nodes.drop_first(), tp, range)
    }
}

/// What the flags call for.
pub open spec fn completion_decision(f: Flags) -> Option<CompletionTypeV> {
    if f.is_test {
        Some(CompletionTypeV::Test)
    } else if f.is_error || f.after_expr {
        None
    } else if f.is_expr_start && f.is_id && f.is_filter {
        match f.incomplete {
            Some((name, range)) => Some(CompletionTypeV::IncompleteFilter { name, range }),
            None => Some(CompletionTypeV::Filter),
        }
    } else if f.is_expr_start && f.is_id {
        match f.incomplete {
            Some((name, range)) => Some(CompletionTypeV::IncompleteIdentifier { name, range }),
            None => None,
        }
    } else if f.is_expr_start && !f.is_id {
        Some(CompletionTypeV::Identifier)
    } else {
        None
    }
}

/// The completion that the nodes call for at `tp`.
pub open spec fn spec_completion(d: ObjectsV, tp: Point) -> Option<CompletionTypeV> {
    completion_decision(scan_flags(no_flags(), d.nodes, tp, objects_full_range(d)))
}

impl JinjaObjects {
    /// The span of the last object.
    pub fn full_range(&self) -> (r: (Point, Point))
        ensures
            r == objects_full_range(self@),
    {
        if self.objects.len() == 0 {
            (Point::zero(), Point::zero())
        } else {
            self.objects[self.objects.len() - 1].location()
        }
    }

    /// What the cursor at `trigger_point` may be completed with.
    pub fn completion(&self, trigger_point: Point) -> (r: Option<CompletionType>)
        ensures
            opt_completion_view(r) == spec_completion(self@, trigger_point),
    {
        let tp = trigger_point;
        let range = self.full_range();
        let mut is_filter = false;
        let mut is_id = false;
        let mut is_expr_start = false;
        let mut after_expr = false;
        let mut incomplete: Option<(String, (Point, Point))> = None;
        let mut is_error = false;
        let mut is_test = false;
        let ghost nodes = self@.nodes;
        let mut i: usize = 0;
        proof {
            assert(nodes.skip(0) =~= nodes);
        }
        let mut done = false;
        while i < self.previous_nodes.len() && !done
            invariant
                nodes == self@.nodes,
                range == objects_full_range(self@),
                i <= nodes.len(),
                done ==> i < nodes.len() && p_lt(tp, nodes[i as int].1.0),
                scan_flags(no_flags(), nodes, tp, range) == scan_flags(
                    Flags {
                        is_filter,
                        is_id,
                        is_expr_start,
                        after_expr,
                        incomplete: match incomplete { Some((n, r)) => Some((n@, r)), None => None },
                        is_error,
                        is_test,
                    },
                    nodes.skip(i as int),
                    tp,
                    range,
                ),
            decreases self.previous_nodes.len() - i, (if done { 0int } else { 1int }),
        {
            let (member, (start, end)) = (&self.previous_nodes[i].0, self.previous_nodes[i].1);
            proof {
                assert(nodes.skip(i as int)[0] == (member@, (start, end)));
                assert(nodes.skip(i as int).drop_first() =~= nodes.skip(i + 1));
            }
            if tp.lt(&start) {
                done = true;
                continue;
            }
            match member {
                CompletionMember::ExpresionStart => {
                    if start.lt(&tp) && tp.lt(&end) {
                        is_error = true;
                    }
                    if end.le(&tp) {
                        is_expr_start = true;
                    }
                },
                CompletionMember::ExpressionEnd => {
                    if start.lt(&tp) && tp.lt(&end) {
                        is_error = true;
                    }
                    if end.le(&tp) {
                        after_expr = true;
                    }
                },
                CompletionMember::Ident(name) => {
                    if start.le(&tp) {
                        is_id = true;
                    }
                    if start.le(&tp) && tp.le(&end) {
                        let identifier = Identifier::new(name.as_str(), start, end);
                        incomplete = match completion_start(tp, &identifier) {
                            Some(item) => {
                                proof {
                                    vstd::utf8::encode_utf8_decode_utf8(item@);
                                }
                                Some((copy_str(item), range))
                            },
                            None => None,
                        };
                    }
                },
                CompletionMember::FilterOperator => {
                    if start.le(&tp) {
                        is_filter = true;
                    }
                },
                CompletionMember::Test => {
                    if start.le(&tp) {
                        is_test = true;
                    }
                },
                _ => {},
            }
            i = i + 1;
        }
        proof {
            if !done {
                assert(nodes.skip(i as int).len() == 0);
            }
        }
        if is_test {
            return Some(CompletionType::Test);
        }
        if is_error || after_expr {
            return None;
        }
        if is_expr_start && is_id && is_filter {
            return match incomplete {
                Some((name, range)) => Some(CompletionType::IncompleteFilter { name, range }),
                None => Some(CompletionType::Filter),
            };
        }
        if is_expr_start && is_id {
            return match incomplete {
                Some((n, range)) => Some(CompletionType::IncompleteIdentifier { name: n, range }),
                None => None,
            };
        }
        if is_expr_start && !is_id {
            return Some(CompletionType::Identifier);
        }
        None
    }

    /// Whether the cursor lies within the last object.
    pub fn is_hover(&self, trigger_point: Point) -> (b: bool)
        ensures
            b == (p_le(objects_full_range(self@).0, trigger_point) && p_le(trigger_point, objects_full_range(self@).1)),
    {
        let full_range = self.full_range();
        full_range.0.le(&trigger_point) && trigger_point.le(&full_range.1)
    }

    /// The name of the last object, when the cursor lies within it.
    pub fn is_ident(&self, trigger_point: Point) -> (r: Option<String>)
        ensures
            match r {
                Some(n) => self@.objects.len() > 0 && p_le(object_location(self@.objects.last()).0, trigger_point)
                    && p_le(trigger_point, object_location(self@.objects.last()).1) && n@ == self@.objects.last().name,
                None => !(self@.objects.len() > 0 && p_le(object_location(self@.objects.last()).0, trigger_point)
                    && p_le(trigger_point, object_location(self@.objects.last()).1)),
            },
    {
        if self.objects.len() == 0 {
            return None;
        }
        let last = &self.objects[self.objects.len() - 1];
        let location = last.location();
        if location.0.le(&trigger_point) && trigger_point.le(&location.1) {
            return Some(copy_str(last.name.as_str()));
        }
        None
    }

    /// A copy of the objects.
    pub fn show(&self) -> (r: Vec<JinjaObject>)
        ensures
            objects_view(r@) == self@.objects,
    {
        let mut r: Vec<JinjaObject> = Vec::new();
        let mut i: usize = 0;
        while i < self.objects.len()
            invariant
                i <= self.objects@.len(),
                objects_view(r@) == objects_view(self.objects@).take(i as int),
            decreases self.objects.len() - i,
        {
            let ghost prev = r@;
            r.push(self.objects[i].copy());
            proof {
                assert(objects_view(r@) =~= objects_view(prev).push(self.objects@[i as int]@));
                assert(objects_view(self.objects@).take(i + 1) =~= objects_view(self.objects@).take(i as int).push(self.objects@[i as int]@));
            }
            i = i + 1;
        }
        proof {
            assert(objects_view(self.objects@).take(i as int) =~= objects_view(self.objects@));
        }
        r
    }
}

/// The captures the walk takes: each that starts no later than the trigger
/// point, or every one with `all`.
pub open spec fn taken(c: CaptureV, trigger: Point, all: bool) -> bool {
    all || p_le(c.start, trigger)
}

/// Every capture the walk takes has readable text.
pub open spec fn taken_texts(ms: Seq<Seq<CaptureV>>, trigger: Point, all: bool) -> bool {
    forall|i: int, j: int| 0 <= i < ms.len() && 0 <= j < ms[i].len() && taken(#[trigger] ms[i][j], trigger, all)
        ==> ms[i][j].text is Some
}

/// The walk over the captures of one match; every capture taken is seen,
/// whatever the step returns.
pub open spec fn objects_walk_match(d: ObjectsV, caps: Seq<CaptureV>, trigger: Point, all: bool) -> ObjectsV
    decreases caps.len(),
{
    if caps.len() == 0 {
        d
    } else {
        let d1 = if taken(caps[0], trigger, all) { object_step(d, caps[0]).0 } else { d };
        objects_walk_match(d1, caps.drop_first(), trigger, all)
    }
}

/// The objects that the query's matches describe.
pub open spec fn spec_objects(ms: Seq<Seq<CaptureV>>, trigger: Point, all: bool) -> ObjectsV
    decreases ms.len(),
{
    if ms.len() == 0 {
        ObjectsV { objects: Seq::empty(), seen: Set::empty(), nodes: Seq::empty(), test: false }
    } else {
        objects_walk_match(spec_objects(ms.drop_last(), trigger, all), ms.last(), trigger, all)
    }
}

/// Whether every capture the walk takes has readable text.
pub fn taken_readable(ms: &Vec<Vec<Capture>>, trigger: Point, all: bool) -> (r: bool)
    ensures
        r == taken_texts(matches_view(ms@), trigger, all),
{
    let ghost v = matches_view(ms@);
    let mut i: usize = 0;
    while i < ms.len()
        invariant
            v == matches_view(ms@),
            i <= ms@.len(),
            forall|a: int, b: int| 0 <= a < i && 0 <= b < v[a].len() && taken(#[trigger] v[a][b], trigger, all)
                ==> v[a][b].text is Some,
        decreases ms.len() - i,
    {
        let mut j: usize = 0;
        while j < ms[i].len()
            invariant
                v == matches_view(ms@),
                i < ms@.len(),
                j <= ms@[i as int]@.len(),
                forall|a: int, b: int| 0 <= a < i && 0 <= b < v[a].len() && taken(#[trigger] v[a][b], trigger, all)
                    ==> v[a][b].text is Some,
                forall|b: int| 0 <= b < j && taken(#[trigger] v[i as int][b], trigger, all) ==> v[i as int][b].text is Some,
            decreases ms[i as int].len() - j,
        {
            assert(v[i as int][j as int] == ms@[i as int]@[j as int]@);
            if (all || ms[i][j].start.le(&trigger)) && ms[i][j].text.is_none() {
                return false;
            }
            j = j + 1;
        }
        i = i + 1;
    }
    true
}

/// Walks the matches of the objects query, as `objects_query` does with what
/// tree-sitter returns.
pub fn objects_from_matches(matches: &Vec<Vec<Capture>>, trigger_point: Point, all: bool) -> (d: JinjaObjects)
    requires
        taken_texts(matches_view(matches@), trigger_point, all),
    ensures
        d@ == spec_objects(matches_view(matches@), trigger_point, all),
{
    let ghost ms = matches_view(matches@);
    let mut d = JinjaObjects::new();
    let mut mi: usize = 0;
    proof {
        assert(ms.take(0) =~= Seq::<Seq<CaptureV>>::empty());
        assert(d@.objects =~= Seq::<ObjectV>::empty());
        assert(d@.nodes =~= Seq::<(MemberV, (Point, Point))>::empty());
    }
    while mi < matches.len()
        invariant
            ms == matches_view(matches@),
            taken_texts(ms, trigger_point, all),
            mi <= matches@.len(),
            d@ == spec_objects(ms.take(mi as int), trigger_point, all),
        decreases matches.len() - mi,
    {
        let m = &matches[mi];
        let ghost start_state = d@;
        let ghost mv = ms[mi as int];
        proof {
            assert(mv == crate::syntax::match_view(m@));
            assert(mv.skip(0) == mv);
        }
        let mut ci: usize = 0;
        while ci < m.len()
            invariant
                ms == matches_view(matches@),
                taken_texts(ms, trigger_point, all),
                mi < matches@.len(),
                m == matches@[mi as int],
                mv == ms[mi as int],
                mv == crate::syntax::match_view(m@),
                ci <= m@.len(),
                objects_walk_match(d@, mv.skip(ci as int), trigger_point, all)
                    == objects_walk_match(start_state, mv, trigger_point, all),
            decreases m.len() - ci,
        {
            let c = &m[ci];
            proof {
                assert(mv.skip(ci as int)[0] == c@);
                assert(mv.skip(ci as int).drop_first() == mv.skip(ci + 1));
                assert(ms[mi as int][ci as int] == c@);
            }
            if all || c.start.le(&trigger_point) {
                let _ = d.collect(c);
            }
            ci = ci + 1;
        }
        proof {
            assert(mv.skip(ci as int).len() == 0);
            let t = ms.take(mi + 1);
            assert(t.drop_last() =~= ms.take(mi as int));
            assert(t.last() == mv);
        }
        mi = mi + 1;
    }
    proof {
        assert(ms.take(mi as int) =~= ms);
    }
    d
}

/// Walks the objects query over `tree`.  What the walk sees comes from the
/// parse tree: the result is the walk over some list of the query's
/// matches, whose captures carry the query's names.  `None` comes back
/// exactly where a capture the walk takes has text that is not valid UTF-8.
pub fn objects_query(query: &crate::syntax::SourcedQuery, tree: &tree_sitter::Tree, trigger_point: Point, text: &str, all: bool) -> (r: Option<JinjaObjects>)
    ensures
        exists|ms: Seq<Seq<CaptureV>>|
            names_within(ms, capture_names(query@.0, query@.1)) && #[trigger] objects_outcome(r, ms, trigger_point, all),
{
    let matches = query_matches(query, tree, text);
    let r = if !taken_readable(&matches, trigger_point, all) {
        None
    } else {
        Some(objects_from_matches(&matches, trigger_point, all))
    };
    assert(objects_outcome(r, matches_view(matches@), trigger_point, all));
    r
}

/// What the objects walk gives back for the matches `ms`: `None` exactly
/// where a capture it takes has text that is not valid UTF-8, and the walk
/// over `ms` otherwise.
pub open spec fn objects_outcome(r: Option<JinjaObjects>, ms: Seq<Seq<CaptureV>>, trigger: Point, all: bool) -> bool {
    &&& (r is Some <==> taken_texts(ms, trigger, all))
    &&& (r matches Some(d) ==> spec_objects(ms, trigger, all) == d@)
}


/// The nodes `nodes[..j]` are those that start no later than the cursor:
/// every one of them does, and the next one, if any, starts after it.
pub open spec fn reached_upto(nodes: Seq<(MemberV, (Point, Point))>, tp: Point, j: int) -> bool {
    &&& 0 <= j <= nodes.len()
    &&& forall|m: int| 0 <= m < j ==> !p_lt(tp, (#[trigger] nodes[m]).1.0)
    &&& (j == nodes.len() || p_lt(tp, nodes[j].1.0))
}

/// What the scan of the nodes up to the cursor finds: a filter operator,
/// a name and an expression start ending before the cursor among the nodes
/// reached are seen; no test, no expression end before the cursor and no
/// expression delimiter around the cursor among them means none is seen.
proof fn lemma_scan_flags(f: Flags, nodes: Seq<(MemberV, (Point, Point))>, tp: Point, range: (Point, Point), j: int)
    requires
        reached_upto(nodes, tp, j),
    ensures
        f.is_filter ==> scan_flags(f, nodes, tp, range).is_filter,
        f.is_id ==> scan_flags(f, nodes, tp, range).is_id,
        f.is_expr_start ==> scan_flags(f, nodes, tp, range).is_expr_start,
        forall|m: int| 0 <= m < j && (#[trigger] nodes[m]).0 is FilterOperator ==> scan_flags(f, nodes, tp, range).is_filter,
        forall|m: int| 0 <= m < j && (#[trigger] nodes[m]).0 is Ident ==> scan_flags(f, nodes, tp, range).is_id,
        forall|m: int| 0 <= m < j && (#[trigger] nodes[m]).0 is ExpresionStart && p_le(nodes[m].1.1, tp)
            ==> scan_flags(f, nodes, tp, range).is_expr_start,
        f.is_test ==> scan_flags(f, nodes, tp, range).is_test,
        forall|m: int| 0 <= m < j && (#[trigger] nodes[m]).0 is Test ==> scan_flags(f, nodes, tp, range).is_test,
        !f.is_test && (forall|m: int| 0 <= m < j ==> !((#[trigger] nodes[m]).0 is Test))
            ==> !scan_flags(f, nodes, tp, range).is_test,
        !f.is_id && (forall|m: int| 0 <= m < j ==> !((#[trigger] nodes[m]).0 is Ident))
            ==> !scan_flags(f, nodes, tp, range).is_id,
        !f.after_expr && (forall|m: int| 0 <= m < j && (#[trigger] nodes[m]).0 is ExpressionEnd ==> !p_le(nodes[m].1.1, tp))
            ==> !scan_flags(f, nodes, tp, range).after_expr,
        !f.is_error && (forall|m: int| 0 <= m < j && ((#[trigger] nodes[m]).0 is ExpresionStart || nodes[m].0 is ExpressionEnd)
            ==> !(p_lt(nodes[m].1.0, tp) && p_lt(tp, nodes[m].1.1)))
            ==> !scan_flags(f, nodes, tp, range).is_error,
    decreases nodes.len(),
{
    if nodes.len() > 0 && j > 0 {
        let rest = nodes.drop_first();
        let g = flag_step(f, nodes[0], tp, range);
        assert(!p_lt(tp, nodes[0].1.0));
        assert forall|m: int| 0 <= m < j - 1 implies !p_lt(tp, (#[trigger] rest[m]).1.0) by {
            assert(rest[m] == nodes[m + 1]);
        }
        if j - 1 < rest.len() {
            assert(rest[j - 1] == nodes[j]);
        }
        lemma_scan_flags(g, rest, tp, range, j - 1);
        assert forall|m: int| 0 <= m < j implies #[trigger] nodes[m] == (if m == 0 { nodes[0] } else { rest[m - 1] }) by {}
        if !f.is_test && (forall|m: int| 0 <= m < j ==> !((#[trigger] nodes[m]).0 is Test)) {
            assert forall|m: int| 0 <= m < j - 1 implies !((#[trigger] rest[m]).0 is Test) by {
                assert(rest[m] == nodes[m + 1]);
            }
        }
        if !f.is_id && (forall|m: int| 0 <= m < j ==> !((#[trigger] nodes[m]).0 is Ident)) {
            assert forall|m: int| 0 <= m < j - 1 implies !((#[trigger] rest[m]).0 is Ident) by {
                assert(rest[m] == nodes[m + 1]);
            }
        }
        if !f.after_expr && (forall|m: int| 0 <= m < j && (#[trigger] nodes[m]).0 is ExpressionEnd ==> !p_le(nodes[m].1.1, tp)) {
            assert forall|m: int| 0 <= m < j - 1 && (#[trigger] rest[m]).0 is ExpressionEnd implies !p_le(rest[m].1.1, tp) by {
                assert(rest[m] == nodes[m + 1]);
            }
        }
        if !f.is_error && (forall|m: int| 0 <= m < j && ((#[trigger] nodes[m]).0 is ExpresionStart || nodes[m].0 is ExpressionEnd)
            ==> !(p_lt(nodes[m].1.0, tp) && p_lt(tp, nodes[m].1.1))) {
            assert forall|m: int| 0 <= m < j - 1 && ((#[trigger] rest[m]).0 is ExpresionStart || rest[m].0 is ExpressionEnd)
                implies !(p_lt(rest[m].1.0, tp) && p_lt(tp, rest[m].1.1)) by {
                assert(rest[m] == nodes[m + 1]);
            }
        }
    }
}

/// After an expression start, a name and a filter operator, the cursor
/// completes a filter: where the nodes reached by the cursor hold an
/// expression start that ends before it, a name and a filter operator, and
/// neither a test, nor an expression end before the cursor, nor an
/// expression delimiter around the cursor, the completion is of a filter
/// (whole or partly typed), never of a name.
pub proof fn lemma_filter_after_pipe(d: ObjectsV, tp: Point, j: int, e: int, n: int, p: int)
    requires
        reached_upto(d.nodes, tp, j),
        0 <= e < j && d.nodes[e].0 is ExpresionStart && p_le(d.nodes[e].1.1, tp),
        0 <= n < j && d.nodes[n].0 is Ident,
        0 <= p < j && d.nodes[p].0 is FilterOperator,
        forall|m: int| 0 <= m < j ==> !((#[trigger] d.nodes[m]).0 is Test),
        forall|m: int| 0 <= m < j && (#[trigger] d.nodes[m]).0 is ExpressionEnd ==> !p_le(d.nodes[m].1.1, tp),
        forall|m: int| 0 <= m < j && ((#[trigger] d.nodes[m]).0 is ExpresionStart || d.nodes[m].0 is ExpressionEnd)
            ==> !(p_lt(d.nodes[m].1.0, tp) && p_lt(tp, d.nodes[m].1.1)),
    ensures
        spec_completion(d, tp) matches Some(c) && (c is Filter || c is IncompleteFilter),
{
    lemma_scan_flags(no_flags(), d.nodes, tp, objects_full_range(d), j);
    assert(d.nodes[e] == d.nodes[e]);
    assert(d.nodes[n] == d.nodes[n]);
    assert(d.nodes[p] == d.nodes[p]);
}

/// A test operator among the nodes reached by the cursor makes it complete
/// a test.
pub proof fn lemma_test_completes_test(d: ObjectsV, tp: Point, j: int, t: int)
    requires
        reached_upto(d.nodes, tp, j),
        0 <= t < j && d.nodes[t].0 is Test,
    ensures
        spec_completion(d, tp) == Some(CompletionTypeV::Test),
{
    lemma_scan_flags(no_flags(), d.nodes, tp, objects_full_range(d), j);
    assert(d.nodes[t] == d.nodes[t]);
}

/// Right after an expression start with no name yet, the cursor completes
/// a name: where the nodes reached by the cursor hold an expression start
/// that ends before it, and no name, no test, no expression end before the
/// cursor and no expression delimiter around the cursor, the completion is
/// of a name.
pub proof fn lemma_identifier_after_start(d: ObjectsV, tp: Point, j: int, e: int)
    requires
        reached_upto(d.nodes, tp, j),
        0 <= e < j && d.nodes[e].0 is ExpresionStart && p_le(d.nodes[e].1.1, tp),
        forall|m: int| 0 <= m < j ==> !((#[trigger] d.nodes[m]).0 is Test) && !(d.nodes[m].0 is Ident),
        forall|m: int| 0 <= m < j && (#[trigger] d.nodes[m]).0 is ExpressionEnd ==> !p_le(d.nodes[m].1.1, tp),
        forall|m: int| 0 <= m < j && ((#[trigger] d.nodes[m]).0 is ExpresionStart || d.nodes[m].0 is ExpressionEnd)
            ==> !(p_lt(d.nodes[m].1.0, tp) && p_lt(tp, d.nodes[m].1.1)),
    ensures
        spec_completion(d, tp) == Some(CompletionTypeV::Identifier),
{
    lemma_scan_flags(no_flags(), d.nodes, tp, objects_full_range(d), j);
    assert(d.nodes[e] == d.nodes[e]);
}

} // verus!
