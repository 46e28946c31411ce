use vstd::prelude::*;

use crate::point::{p_le, spec_to_range, to_range, Point, Range};
use crate::search::objects::{CompletionType, CompletionTypeV};
use crate::syntax::{Capture, CaptureV};
use crate::text::{chars_through, joined, remove_quotes, str_eq, through_offset, utf8_bytes, without_quotes};

verus! {

/// A template named by an `include`, with the spans the query marks in it.
#[derive(Debug)]
pub struct IncludedTemplate {
    pub name: String,
    pub template: (Point, Point),
    pub error: (Point, Point),
    pub identifier: (Point, Point),
}

pub struct IncludedV {
    pub name: Seq<char>,
    pub template: (Point, Point),
    pub error: (Point, Point),
    pub identifier: (Point, Point),
}

impl View for IncludedTemplate {
    type V = IncludedV;

    open spec fn view(&self) -> IncludedV {
        IncludedV { name: self.name@, template: self.template, error: self.error, identifier: self.identifier }
    }
}

/// The point at the start of the document.
pub open spec fn zero() -> Point {
    Point { row: 0, column: 0 }
}

impl IncludedTemplate {
    pub fn new(name: &str) -> (t: IncludedTemplate)
        ensures
            t@ == (IncludedV { name: name@, template: (zero(), zero()), error: (zero(), zero()), identifier: (zero(), zero()) }),
    {
        IncludedTemplate {
            name: name.to_owned(),
            template: (Point::zero(), Point::zero()),
            error: (Point::zero(), Point::zero()),
            identifier: (Point::zero(), Point::zero()),
        }
    }

    /// Where the template lies under the template directory `root`: the
    /// root, a slash, and the template's name.
    pub fn template_path(&self, root: &str) -> (r: String)
        ensures
            r@ == root@ + "/"@ + self.name@,
    {
        proof {
            reveal_strlit("/");
        }
        let with_slash = joined(root, "/");
        joined(with_slash.as_str(), self.name.as_str())
    }
}

/// The address of a file at an absolute path.
pub fn file_url(path: &str) -> (r: String)
    ensures
        r@ == "file://"@ + path@,
{
    proof {
        reveal_strlit("file://");
    }
    joined("file://", path)
}

/// Which part of an include the cursor is in.
#[derive(Clone, Copy, PartialEq, Eq, Structural, Debug)]
pub enum Include {
    Id,
    Template,
    Error,
}

/// What has been typed of a name whose span ends at column `end_column`
/// when the cursor is at column `column`: nothing when the cursor is further
/// back than the name is long, else the characters up to the one that
/// starts as many bytes before the name's end as the cursor is before the
/// span's end.
pub open spec fn typed_part(name: Seq<char>, end_column: usize, column: usize, empty_is_nothing: bool) -> Seq<char> {
    let l1 = end_column - column;
    let len = (utf8_bytes(name).len() as usize) as int;
    if len < l1 || (empty_is_nothing && name.len() == 0) {
        Seq::empty()
    } else {
        through_offset(name, len - l1)
    }
}

/// The part of an include at the cursor, and the range it spans.
pub open spec fn spec_location(inc: Include, tp: Point, part: IncludedV) -> (Seq<char>, Range) {
    match inc {
        Include::Error => (Seq::empty(), spec_to_range(part.error)),
        Include::Id => (typed_part(part.name, part.identifier.1.column, tp.column, false), spec_to_range(part.identifier)),
        Include::Template => (typed_part(part.name, part.template.1.column, tp.column, true), spec_to_range(part.template)),
    }
}

impl Include {
    /// What has been typed of this part of an include, and its range.
    pub fn location(&self, trigger_point: Point, part: &IncludedTemplate) -> (r: (String, Range))
        requires
            *self == Include::Id ==> trigger_point.column <= part.identifier.1.column,
            *self == Include::Template ==> trigger_point.column <= part.template.1.column,
        ensures
            (r.0@, r.1) == spec_location(*self, trigger_point, part@),
    {
        match self {
            Include::Error => {
                let r = (String::new(), self.to_range(part.error));
                assert(r.0@ =~= Seq::<char>::empty());
                r
            },
            Include::Id => {
                let l1 = part.identifier.1.column - trigger_point.column;
                let len = part.name.as_str().len();
                if len < l1 {
                    let r = (String::new(), self.to_range(part.identifier));
                    assert(r.0@ =~= Seq::<char>::empty());
                    return r;
                }
                let end = len - l1;
                (chars_through(part.name.as_str(), end), self.to_range(part.identifier))
            },
            Include::Template => {
                let l1 = part.template.1.column - trigger_point.column;
                let len = part.name.as_str().len();
                if len < l1 || part.name.as_str().is_empty() {
                    let r = (String::new(), self.to_range(part.template));
                    assert(r.0@ =~= Seq::<char>::empty());
                    return r;
                }
                let end = len - l1;
                (chars_through(part.name.as_str(), end), self.to_range(part.template))
            },
        }
    }

    pub fn to_range(&self, points: (Point, Point)) -> (r: Range)
        ensures
            r == spec_to_range(points),
    {
        to_range(points)
    }
}

/// The templates named by `include` statements, in order.
#[derive(Debug)]
pub struct IncludeCapturer {
    pub included: Vec<IncludedTemplate>,
}

/// The plain values of a list of included templates.
pub open spec fn included_view(s: Seq<IncludedTemplate>) -> Seq<IncludedV> {
    s.map_values(|t: IncludedTemplate| t@)
}

/// `p` lies within the span, ends included.
pub open spec fn within(p: Point, span: (Point, Point)) -> bool {
    p_le(span.0, p) && p_le(p, span.1)
}

/// The last included template, when the cursor lies within its name.
pub open spec fn spec_in_template(s: Seq<IncludedV>, tp: Point) -> Option<IncludedV> {
    if s.len() > 0 && within(tp, s.last().template) {
        Some(s.last())
    } else {
        None
    }
}

/// How a capture of the include query changes the templates.
pub open spec fn include_step(s: Seq<IncludedV>, c: CaptureV) -> Seq<IncludedV> {
    if c.name == "keyword"@ {
        s.push(IncludedV { name: Seq::empty(), template: (zero(), zero()), error: (zero(), zero()), identifier: (zero(), zero()) })
    } else if s.len() == 0 {
        s
    } else if c.name == "error"@ {
        s.update(s.len() - 1, IncludedV { error: (c.start, c.end), ..s.last() })
    } else if c.name == "id"@ {
        s.update(s.len() - 1, IncludedV {
            identifier: (c.start, c.end),
            name: match c.text { Some(t) => without_quotes(t), None => s.last().name },
            ..s.last()
        })
    } else if c.name == "template"@ {
        match c.text {
            Some(t) => s.update(s.len() - 1, IncludedV { name: without_quotes(t), template: (c.start, c.end), ..s.last() }),
            None => s,
        }
    } else {
        s
    }
}

/// The completion of an included template's name at the cursor.
pub open spec fn spec_include_completion(s: Seq<IncludedV>, tp: Point) -> Option<CompletionTypeV> {
    match spec_in_template(s, tp) {
        Some(part) => {
            let (name, range) = spec_location(Include::Template, tp, part);
            Some(CompletionTypeV::IncludedTemplate { name, range: part.template })
        },
        None => None,
    }
}

impl IncludeCapturer {
    pub fn new() -> (c: IncludeCapturer)
        ensures
            c.included@.len() == 0,
    {
        IncludeCapturer { included: Vec::new() }
    }

    /// The last included template, when the cursor lies within its name.
    pub fn in_template(&self, trigger_point: Point) -> (r: Option<&IncludedTemplate>)
        ensures
            match r {
                Some(t) => spec_in_template(included_view(self.included@), trigger_point) == Some(t@),
                None => spec_in_template(included_view(self.included@), trigger_point) is None,
            },
    {
        if self.included.len() > 0 {
            let last = &self.included[self.included.len() - 1];
            if last.template.0.le(&trigger_point) && trigger_point.le(&last.template.1) {
                return Some(last);
            }
        }
        None
    }

    /// The last included template and the part of it the cursor is in.
    pub fn find(&self, trigger_point: Point) -> (r: Option<(&IncludedTemplate, Include)>)
        ensures
            match r {
                Some((t, part)) => spec_in_template(included_view(self.included@), trigger_point) == Some(t@)
                    && part == Include::Template,
                None => spec_in_template(included_view(self.included@), trigger_point) is None,
            },
    {
        match self.in_template(trigger_point) {
            Some(t) => Some((t, Include::Template)),
            None => None,
        }
    }

    /// What the cursor completes when it lies within an included template's
    /// name.
    pub fn completion(&self, trigger_point: Point) -> (r: Option<CompletionType>)
        requires
            spec_in_template(included_view(self.included@), trigger_point) matches Some(t)
                ==> trigger_point.column <= t.template.1.column,
        ensures
            match r {
                Some(c) => spec_include_completion(included_view(self.included@), trigger_point) == Some(c@),
                None => spec_include_completion(included_view(self.included@), trigger_point) is None,
            },
    {
        let part = match self.find(trigger_point) {
            Some(p) => p,
            None => return None,
        };
        let location = part.1.location(trigger_point, part.0);
        Some(CompletionType::IncludedTemplate { name: location.0, range: part.0.template })
    }

    pub fn add_template(&mut self, name: String, range: (Point, Point))
        ensures
            included_view(final(self).included@) == included_view(old(self).included@).push(
                IncludedV { name: name@, template: range, error: (zero(), zero()), identifier: (zero(), zero()) }),
    {
        let ghost before = self.included@;
        self.included.push(IncludedTemplate {
            name,
            template: range,
            error: (Point::zero(), Point::zero()),
            identifier: (Point::zero(), Point::zero()),
        });
        assert(included_view(self.included@) =~= included_view(before).push(
            IncludedV { name: name@, template: range, error: (zero(), zero()), identifier: (zero(), zero()) }));
    }

    /// The name of the last included template.
    pub fn last(&self) -> (r: Option<&String>)
        ensures
            match r {
                Some(n) => self.included@.len() > 0 && n@ == self.included@.last().name@,
                None => self.included@.len() == 0,
            },
    {
        if self.included.len() == 0 {
            None
        } else {
            Some(&self.included[self.included.len() - 1].name)
        }
    }

    /// Takes one capture of the include query.
    pub fn save_by(&mut self, capture: &Capture)
        ensures
            included_view(final(self).included@) == include_step(included_view(old(self).included@), capture@),
    {
        proof {
            reveal_strlit("keyword");
            reveal_strlit("error");
            reveal_strlit("id");
            reveal_strlit("template");
        }
        let ghost before = included_view(self.included@);
        let key = capture.name.as_str();
        if str_eq(key, "keyword") {
            let empty = String::new();
            self.add_template(empty, (Point::zero(), Point::zero()));
            return;
        }
        let mut last = match self.included.pop() {
            Some(l) => l,
            None => return,
        };
        proof {
            assert(included_view(old(self).included@) =~= included_view(self.included@).push(last@));
        }
        if str_eq(key, "error") {
            last.error = (capture.start, capture.end);
        } else if str_eq(key, "id") {
            last.identifier = (capture.start, capture.end);
            if let Some(t) = &capture.text {
                last.name = remove_quotes(t.as_str());
            }
        } else if str_eq(key, "template") {
            if let Some(t) = &capture.text {
                last.name = remove_quotes(t.as_str());
                last.template = (capture.start, capture.end);
            }
        }
        let ghost mid = self.included@;
        self.included.push(last);
        proof {
            assert(included_view(self.included@) =~= included_view(mid).push(last@));
            assert(included_view(self.included@) =~= include_step(before, capture@));
        }
    }
}

} // verus!
