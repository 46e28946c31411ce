//! Objects of a template as a walk over its captures finds them: each name
//! that stands alone starts an object, and a name right after a dot is a
//! field of the last object.  The walk also keeps where the last dot, pipe
//! and expression were, to tell what a completion asks for.
use vstd::prelude::*;

use crate::point::{p_le, p_lt, Point};
use crate::search::{copy_fields, fields_view};
use crate::syntax::{capture_names, flat_captures, matches_view, names_within, query_matches, taken_captures, Capture, CaptureV};
use crate::text::{copy_str, str_eq};

verus! {

/// What a completion inside an expression asks for.
#[derive(Debug, Clone, Copy, PartialEq, Eq, Structural)]
pub enum CompletionType {
    Pipe,
    Identifier,
}

/// A name used in a template, where it stands, and the fields read from it.
#[derive(Debug)]
pub struct JinjaObject {
    pub name: String,
    pub location: (Point, Point),
    pub fields: Vec<(String, (Point, Point))>,
}

/// An object as plain values.
pub struct JinjaObjectV {
    pub name: Seq<char>,
    pub location: (Point, Point),
    pub fields: Seq<(Seq<char>, (Point, Point))>,
}

impl View for JinjaObject {
    type V = JinjaObjectV;

    open spec fn view(&self) -> JinjaObjectV {
        JinjaObjectV { name: self.name@, location: self.location, fields: fields_view(self.fields@) }
    }
}

impl JinjaObject {
    /// An object with no fields.
    pub fn new(name: String, start: Point, end: Point) -> (o: JinjaObject)
        ensures
            o@ == (JinjaObjectV { name: name@, location: (start, end), fields: Seq::empty() }),
    {
        let o = JinjaObject { name, location: (start, end), fields: Vec::new() };
        assert(fields_view(o.fields@) =~= Seq::empty());
        o
    }

    /// Adds a field read from this object.
    pub fn add_field(&mut self, field: String, start: Point, end: Point)
        ensures
            final(self)@ == (JinjaObjectV { fields: old(self)@.fields.push((field@, (start, end))), ..old(self)@ }),
    {
        let ghost prev = self.fields@;
        self.fields.push((field, (start, end)));
        assert(fields_view(self.fields@) =~= fields_view(prev).push((field@, (start, end))));
    }

    /// A copy of this object.
    pub fn copy(&self) -> (r: JinjaObject)
        ensures
            r@ == self@,
    {
        JinjaObject { name: copy_str(self.name.as_str()), location: self.location, fields: copy_fields(&self.fields) }
    }
}

/// The plain values of a list of objects.
pub open spec fn objects_view(s: Seq<JinjaObject>) -> Seq<JinjaObjectV> {
    s.map_values(|o: JinjaObject| o@)
}

/// The walk over the captures of a template's expressions.
#[derive(Debug)]
pub struct JinjaObjectCapturer {
    objects: Vec<JinjaObject>,
    dot: (Point, Point),
    pipe: (Point, Point),
    expr: (Point, Point),
    ident: (Point, Point),
}

/// The walk as plain values.
pub struct ObjectWalk {
    pub objects: Seq<JinjaObjectV>,
    pub dot: (Point, Point),
    pub pipe: (Point, Point),
    pub expr: (Point, Point),
    pub ident: (Point, Point),
}

impl View for JinjaObjectCapturer {
    type V = ObjectWalk;

    closed spec fn view(&self) -> ObjectWalk {
        ObjectWalk {
            objects: objects_view(self.objects@),
            dot: self.dot,
            pipe: self.pipe,
            expr: self.expr,
            ident: self.ident,
        }
    }
}

/// The cursor lies within the last object of the walk.
pub open spec fn walk_has_ident(w: ObjectWalk, p: Point) -> bool {
    w.objects.len() > 0 && p_le(w.objects.last().location.0, p) && p_le(p, w.objects.last().location.1)
}

/// The name under the cursor: that of the last object, when the cursor lies
/// within it; else nothing.
pub open spec fn walk_ident_at(w: ObjectWalk, p: Point) -> Seq<char> {
    if walk_has_ident(w, p) {
        w.objects.last().name
    } else {
        Seq::empty()
    }
}

/// Where a walk starts: no objects, every place at the start of the text.
pub open spec fn walk_start() -> ObjectWalk {
    let z = Point { row: 0, column: 0 };
    ObjectWalk { objects: Seq::empty(), dot: (z, z), pipe: (z, z), expr: (z, z), ident: (z, z) }
}

/// The walk after a name: a field of the last object when the name starts
/// where the last dot ends and there is an object, else a new object.
/// Either way the name becomes the last identifier.  A name whose text
/// could not be read changes nothing.
pub open spec fn name_step(w: ObjectWalk, c: CaptureV) -> ObjectWalk {
    match c.text {
        None => w,
        Some(value) => {
            let place = (c.start, c.end);
            if c.start == w.dot.1 && w.objects.len() > 0 {
                let last = w.objects.last();
                let last2 = JinjaObjectV { fields: last.fields.push((value, place)), ..last };
                ObjectWalk { objects: w.objects.drop_last().push(last2), ident: place, ..w }
            } else {
                ObjectWalk {
                    objects: w.objects.push(JinjaObjectV { name: value, location: place, fields: Seq::empty() }),
                    ident: place,
                    ..w
                }
            }
        },
    }
}

/// The walk after one capture: names build objects; dots, pipes and
/// expressions are remembered; other captures change nothing.
pub open spec fn walk_step(w: ObjectWalk, c: CaptureV) -> ObjectWalk {
    let place = (c.start, c.end);
    if c.name == "just_id"@ {
        name_step(w, c)
    } else if c.name == "dot"@ {
        ObjectWalk { dot: place, ..w }
    } else if c.name == "pipe"@ {
        ObjectWalk { pipe: place, ..w }
    } else if c.name == "expr"@ {
        ObjectWalk { expr: place, ..w }
    } else {
        w
    }
}

/// The walk over captures, one after the other, from `w`.
pub open spec fn walk_all(w: ObjectWalk, cs: Seq<CaptureV>) -> ObjectWalk
    decreases cs.len(),
{
    if cs.len() == 0 {
        w
    } else {
        walk_step(walk_all(w, cs.drop_last()), cs.last())
    }
}

/// A step of the walk loses no object: every object but the last stays as
/// it was, the last keeps its name and place (it may gain a field), and at
/// most one object is added.
pub proof fn lemma_walk_step_keeps_objects(w: ObjectWalk, c: CaptureV)
    ensures
        w.objects.len() <= walk_step(w, c).objects.len() <= w.objects.len() + 1,
        forall|i: int| 0 <= i < w.objects.len() - 1 ==> walk_step(w, c).objects[i] == w.objects[i],
        w.objects.len() > 0 ==> walk_step(w, c).objects[w.objects.len() - 1].name == w.objects.last().name
            && walk_step(w, c).objects[w.objects.len() - 1].location == w.objects.last().location,
{
}

/// A whole walk keeps every object it found: the objects after a prefix of
/// the captures keep their names and places in the walk over all of them.
pub proof fn lemma_walk_keeps_names(w: ObjectWalk, cs: Seq<CaptureV>, k: int)
    requires
        0 <= k <= cs.len(),
    ensures
        walk_all(w, cs.take(k)).objects.len() <= walk_all(w, cs).objects.len(),
        forall|i: int|
            0 <= i < walk_all(w, cs.take(k)).objects.len() ==> (#[trigger] walk_all(w, cs).objects[i]).name == walk_all(
                w,
                cs.take(k),
            ).objects[i].name && walk_all(w, cs).objects[i].location == walk_all(w, cs.take(k)).objects[i].location,
    decreases cs.len() - k,
{
    if k == cs.len() {
        assert(cs.take(k) =~= cs);
    } else {
        lemma_walk_keeps_names(w, cs, k + 1);
        let before = walk_all(w, cs.take(k));
        assert(cs.take(k + 1).drop_last() =~= cs.take(k));
        assert(walk_all(w, cs.take(k + 1)) == walk_step(before, cs[k]));
        lemma_walk_step_keeps_objects(before, cs[k]);
    }
}

/// The trigger point is inside the last pipe.
pub open spec fn spec_in_pipe(w: ObjectWalk, t: Point) -> bool {
    p_le(w.pipe.0, t) && p_le(t, w.pipe.1)
}

/// The trigger point is inside the last expression and after the last
/// identifier.
pub open spec fn spec_in_expr(w: ObjectWalk, t: Point) -> bool {
    p_le(w.expr.0, t) && p_le(t, w.expr.1) && p_lt(w.ident.1, t)
}

impl JinjaObjectCapturer {
    /// A walk that has seen nothing.
    pub fn new() -> (c: JinjaObjectCapturer)
        ensures
            c@ == walk_start(),
    {
        let z = Point::zero();
        let c = JinjaObjectCapturer { objects: Vec::new(), dot: (z, z), pipe: (z, z), expr: (z, z), ident: (z, z) };
        assert(objects_view(c.objects@) =~= Seq::empty());
        c
    }

    /// The objects found so far, in the order their names came.
    pub fn show(&self) -> (r: Vec<JinjaObject>)
        ensures
            objects_view(r@) == self@.objects,
    {
        let mut r: Vec<JinjaObject> = Vec::new();
        let mut i: usize = 0;
        while i < self.objects.len()
            invariant
                i <= self.objects@.len(),
                objects_view(r@) == objects_view(self.objects@).take(i as int),
            decreases self.objects.len() - i,
        {
            let ghost prev = r@;
            r.push(self.objects[i].copy());
            proof {
                assert(objects_view(r@) =~= objects_view(prev).push(self.objects@[i as int]@));
                assert(objects_view(self.objects@).take(i + 1) =~= objects_view(self.objects@).take(i as int).push(
                    self.objects@[i as int]@,
                ));
            }
            i = i + 1;
        }
        proof {
            assert(objects_view(self.objects@).take(i as int) =~= objects_view(self.objects@));
        }
        r
    }

    /// Remembers the place of a dot (0), a pipe (1) or an expression (2);
    /// any other kind changes nothing.
    fn add_operator(&mut self, capture: &Capture, dot: u8)
        ensures
            final(self)@ == (if dot == 0 {
                ObjectWalk { dot: (capture.start, capture.end), ..old(self)@ }
            } else if dot == 1 {
                ObjectWalk { pipe: (capture.start, capture.end), ..old(self)@ }
            } else if dot == 2 {
                ObjectWalk { expr: (capture.start, capture.end), ..old(self)@ }
            } else {
                old(self)@
            }),
    {
        let start = capture.start;
        let end = capture.end;
        if dot == 0 {
            self.dot = (start, end);
        } else if dot == 1 {
            self.pipe = (start, end);
        } else if dot == 2 {
            self.expr = (start, end);
        }
    }

    /// Whether the trigger point is inside the last pipe.
    pub fn in_pipe(&self, trigger_point: Point) -> (r: bool)
        ensures
            r == spec_in_pipe(self@, trigger_point),
    {
        self.pipe.0.le(&trigger_point) && trigger_point.le(&self.pipe.1)
    }

    /// Whether the trigger point is inside the last expression, after its
    /// The name of the last object, when the cursor lies within it.
    pub fn is_ident(&self, trigger_point: Point) -> (r: Option<String>)
        ensures
            match r {
                Some(n) => walk_has_ident(self@, trigger_point) && n@ == self@.objects.last().name,
                None => !walk_has_ident(self@, trigger_point),
            },
    {
        if self.objects.len() == 0 {
            return None;
        }
        let last = &self.objects[self.objects.len() - 1];
        proof {
            assert(self@.objects.last() == last@);
        }
        if last.location.0.le(&trigger_point) && trigger_point.le(&last.location.1) {
            Some(copy_str(last.name.as_str()))
        } else {
            None
        }
    }

    /// last identifier.
    pub fn in_expr(&self, trigger_point: Point) -> (r: bool)
        ensures
            r == spec_in_expr(self@, trigger_point),
    {
        self.expr.0.le(&trigger_point) && trigger_point.le(&self.expr.1) && self.ident.1.lt(&trigger_point)
    }

    /// What a completion at the trigger point asks for: a filter inside a
    /// pipe, else a name inside an expression, else nothing.
    pub fn completion(&self, trigger_point: Point) -> (r: Option<CompletionType>)
        ensures
            r == (if spec_in_pipe(self@, trigger_point) {
                Some(CompletionType::Pipe)
            } else if spec_in_expr(self@, trigger_point) {
                Some(CompletionType::Identifier)
            } else {
                None
            }),
    {
        if self.in_pipe(trigger_point) {
            Some(CompletionType::Pipe)
        } else if self.in_expr(trigger_point) {
            Some(CompletionType::Identifier)
        } else {
            None
        }
    }

    /// Takes a name: a field of the last object when it starts where the
    /// last dot ends, else a new object.
    pub fn build_object(&mut self, capture: &Capture)
        ensures
            final(self)@ == name_step(old(self)@, capture@),
    {
        if let Some(value) = &capture.text {
            let start = capture.start;
            let end = capture.end;
            let n = self.objects.len();
            if start.same(&self.dot.1) && n > 0 {
                let ghost prev = self.objects@;
                let mut last = self.objects.pop().unwrap();
                last.add_field(copy_str(value.as_str()), start, end);
                self.objects.push(last);
                self.ident = (start, end);
                proof {
                    assert(prev.drop_last() =~= self.objects@.drop_last());
                    assert(objects_view(self.objects@) =~= objects_view(prev).drop_last().push(last@));
                }
            } else {
                let ghost prev = self.objects@;
                self.objects.push(JinjaObject::new(copy_str(value.as_str()), start, end));
                self.ident = (start, end);
                proof {
                    assert(objects_view(self.objects@) =~= objects_view(prev).push(self.objects@.last()@));
                }
            }
        }
    }

    /// Takes one capture of the walk, by its name.
    pub fn save_by(&mut self, capture: &Capture)
        ensures
            final(self)@ == walk_step(old(self)@, capture@),
    {
        proof {
            reveal_strlit("just_id");
            reveal_strlit("dot");
            reveal_strlit("pipe");
            reveal_strlit("expr");
        }
        let key = capture.name.as_str();
        if str_eq(key, "just_id") {
            self.build_object(capture);
        } else if str_eq(key, "dot") {
            self.add_operator(capture, 0);
        } else if str_eq(key, "pipe") {
            self.add_operator(capture, 1);
        } else if str_eq(key, "expr") {
            self.add_operator(capture, 2);
        }
    }

    /// The walk over the captures, in order, from a walk that has seen
    /// nothing.
    pub fn collect(captures: &Vec<Capture>) -> (c: JinjaObjectCapturer)
        ensures
            c@ == walk_all(walk_start(), crate::syntax::caps_view(captures@)),
    {
        let ghost cs = crate::syntax::caps_view(captures@);
        let mut c = JinjaObjectCapturer::new();
        let mut i: usize = 0;
        while i < captures.len()
            invariant
                cs == crate::syntax::caps_view(captures@),
                i <= captures@.len(),
                c@ == walk_all(walk_start(), cs.take(i as int)),
            decreases captures.len() - i,
        {
            proof {
                assert(cs.take(i + 1).drop_last() =~= cs.take(i as int));
            }
            c.save_by(&captures[i]);
            i = i + 1;
        }
        proof {
            assert(cs.take(i as int) =~= cs);
        }
        c
    }
}

/// Runs `query` over `tree` and walks the captures that start no later than
/// the trigger point (or every capture, with `all`), match after match.
/// What the query finds comes from the parse tree: the result is the walk
/// over some list of its matches, whose captures carry the query's names.
pub fn objects_walk(query: &crate::syntax::SourcedQuery, tree: &tree_sitter::Tree, trigger_point: Point, text: &str, all: bool) -> (c: JinjaObjectCapturer)
    ensures
        exists|ms: Seq<Seq<CaptureV>>|
            names_within(ms, capture_names(query@.0, query@.1)) && c@ == #[trigger] walk_all(walk_start(), flat_captures(ms, trigger_point, all)),
{
    let matches = query_matches(query, tree, text);
    let caps = taken_captures(&matches, trigger_point, all);
    let c = JinjaObjectCapturer::collect(&caps);
    assert(c@ == walk_all(walk_start(), flat_captures(matches_view(matches@), trigger_point, all)));
    c
}

} // verus!
