use vstd::prelude::*;

use crate::point::Point;
use crate::syntax::{capture_names, caps_view, flat_captures, matches_view, names_within, query_matches, taken_captures, Capture, CaptureV};
use crate::text::{joined, copy_str};

verus! {

/// A name in a Python backend file.
#[derive(Debug)]
pub struct PythonIdentifier {
    pub id: usize,
    pub start: Point,
    pub end: Point,
    pub field: String,
}

pub struct PyV {
    pub id: usize,
    pub start: Point,
    pub end: Point,
    pub field: Seq<char>,
}

impl View for PythonIdentifier {
    type V = PyV;

    open spec fn view(&self) -> PyV {
        PyV { id: self.id, start: self.start, end: self.end, field: self.field@ }
    }
}

/// The plain values of a list of names.
pub open spec fn py_view(s: Seq<PythonIdentifier>) -> Seq<PyV> {
    s.map_values(|x: PythonIdentifier| x@)
}

/// The names of a Python file grouped by where the expression that holds
/// them starts, in the order the groups were first seen.
#[derive(Debug)]
pub struct PythonAttributes {
    pub attributes: Vec<(Point, Vec<PythonIdentifier>)>,
}

/// The plain values of the groups.
pub open spec fn groups_view(s: Seq<(Point, Vec<PythonIdentifier>)>) -> Seq<(Point, Seq<PyV>)> {
    s.map_values(|e: (Point, Vec<PythonIdentifier>)| (e.0, py_view(e.1@)))
}

/// The fields joined with dots.
pub open spec fn dotted(fields: Seq<PyV>) -> Seq<char>
    decreases fields.len(),
{
    if fields.len() == 0 {
        Seq::empty()
    } else if fields.len() == 1 {
        fields[0].field
    } else {
        dotted(fields.drop_last()) + seq!['.'] + fields.last().field
    }
}

/// `p` moved down by `line` rows.
pub open spec fn shifted(p: Point, line: u32) -> Point {
    Point { row: (p.row + line) as usize, ..p }
}

/// One group merged into one name: from where the group starts to where its
/// last name ends, both moved down by `line` rows, with the names joined
/// with dots.
pub open spec fn merged_group(e: (Point, Seq<PyV>), line: u32) -> PyV {
    PyV {
        id: 0,
        start: shifted(e.0, line),
        end: shifted(if e.1.len() == 0 { e.0 } else { e.1.last().end }, line),
        field: dotted(e.1),
    }
}

/// Every row that `merge` moves stays within `usize`.
pub open spec fn rows_fit(g: Seq<(Point, Seq<PyV>)>, line: u32) -> bool {
    forall|i: int| 0 <= i < g.len() ==> (#[trigger] g[i]).0.row + line <= usize::MAX
        && (g[i].1.len() > 0 ==> g[i].1.last().end.row + line <= usize::MAX)
}

impl PythonAttributes {
    /// Each group merged into one name, moved down by `line` rows.
    pub fn merge(&self, line: u32) -> (r: Vec<PythonIdentifier>)
        requires
            rows_fit(groups_view(self.attributes@), line),
        ensures
            py_view(r@) == groups_view(self.attributes@).map_values(|e: (Point, Seq<PyV>)| merged_group(e, line)),
    {
        let ghost g = groups_view(self.attributes@);
        let mut identifiers: Vec<PythonIdentifier> = Vec::new();
        let mut i: usize = 0;
        while i < self.attributes.len()
            invariant
                g == groups_view(self.attributes@),
                rows_fit(g, line),
                i <= g.len(),
                py_view(identifiers@) == g.take(i as int).map_values(|e: (Point, Seq<PyV>)| merged_group(e, line)),
            decreases self.attributes.len() - i,
        {
            let (key, ids) = (self.attributes[i].0, &self.attributes[i].1);
            let ghost gi = g[i as int];
            assert(gi == (key, py_view(ids@)));
            let mut start = key;
            start.row = start.row + line as usize;
            let mut end = key;
            let mut name = String::new();
            let len = ids.len();
            let mut j: usize = 0;
            proof {
                assert(gi.1.take(0) =~= Seq::<PyV>::empty());
            }
            while j < len
                invariant
                    gi == (key, py_view(ids@)),
                    len == ids@.len(),
                    j <= len,
                    name@ == dotted(gi.1.take(j as int)),
                    end == (if j == 0 { key } else { gi.1[j - 1].end }),
                decreases len - j,
            {
                let ghost t = gi.1.take(j + 1);
                proof {
                    assert(t.drop_last() =~= gi.1.take(j as int));
                    assert(t.last() == ids@[j as int]@);
                }
                if j > 0 {
                    crate::text::push_char(&mut name, '.');
                }
                name = joined(name.as_str(), ids[j].field.as_str());
                end = ids[j].end;
                proof {
                    if j > 0 {
                        assert(dotted(t) == dotted(gi.1.take(j as int)) + seq!['.'] + ids@[j as int]@.field);
                    } else {
                        assert(t.len() == 1);
                        assert(name@ =~= ids@[0]@.field);
                    }
                }
                j = j + 1;
            }
            proof {
                assert(gi.1.take(j as int) =~= gi.1);
            }
            end.row = end.row + line as usize;
            let ghost prev = identifiers@;
            identifiers.push(PythonIdentifier { id: 0, start, end, field: name });
            proof {
                let f = |e: (Point, Seq<PyV>)| merged_group(e, line);
                assert(g.take(i + 1) =~= g.take(i as int).push(gi));
                assert(py_view(identifiers@) =~= py_view(prev).push(merged_group(gi, line)));
                assert(g.take(i + 1).map_values(f) =~= g.take(i as int).map_values(f).push(f(gi)));
            }
            i = i + 1;
        }
        proof {
            assert(g.take(i as int) =~= g);
        }
        identifiers
    }
}

/// The index of the first group that starts at `k`, or -1.
pub open spec fn group_index(g: Seq<(Point, Seq<PyV>)>, k: Point) -> int
    decreases g.len(),
{
    if g.len() == 0 {
        -1
    } else if g[0].0 == k {
        0
    } else {
        let r = group_index(g.drop_first(), k);
        if r < 0 { -1 } else { r + 1 }
    }
}

proof fn lemma_group_index(g: Seq<(Point, Seq<PyV>)>, k: Point, i: int)
    requires
        -1 <= i < g.len(),
        forall|j: int| 0 <= j < g.len() && (i < 0 || j < i) ==> (#[trigger] g[j]).0 != k,
        i >= 0 ==> g[i].0 == k,
    ensures
        group_index(g, k) == i,
    decreases g.len(),
{
    if g.len() > 0 && i != 0 {
        assert forall|j: int| 0 <= j < g.drop_first().len() && (i - 1 < 0 || j < i - 1) implies (#[trigger] g.drop_first()[j]).0 != k by {
            assert(g.drop_first()[j] == g[j + 1]);
        }
        if i > 0 {
            lemma_group_index(g.drop_first(), k, i - 1);
        } else {
            lemma_group_index(g.drop_first(), k, -1);
        }
    }
}

/// The name a capture stands for; its text, or nothing when the text is not
/// readable.
pub open spec fn py_of(c: CaptureV) -> PyV {
    PyV { id: c.id, start: c.start, end: c.end, field: match c.text { Some(t) => t, None => Seq::empty() } }
}

/// The captures that have an enclosing node, grouped by where that node
/// starts.
pub open spec fn grouped(caps: Seq<CaptureV>) -> Seq<(Point, Seq<PyV>)>
    decreases caps.len(),
{
    if caps.len() == 0 {
        Seq::empty()
    } else {
        let g = grouped(caps.drop_last());
        let c = caps.last();
        match c.parent {
            None => g,
            Some(p) => {
                let i = group_index(g, p.start);
                if i < 0 {
                    g.push((p.start, seq![py_of(c)]))
                } else {
                    g.update(i, (p.start, g[i].1.push(py_of(c))))
                }
            },
        }
    }
}

fn find_group(g: &Vec<(Point, Vec<PythonIdentifier>)>, k: Point) -> (r: Option<usize>)
    ensures
        match r {
            Some(i) => i as int == group_index(groups_view(g@), k) && i < g@.len() && g@[i as int].0 == k,
            None => group_index(groups_view(g@), k) == -1,
        },
{
    let ghost gv = groups_view(g@);
    let mut i: usize = 0;
    while i < g.len()
        invariant
            gv == groups_view(g@),
            i <= g@.len(),
            forall|j: int| 0 <= j < i ==> (#[trigger] gv[j]).0 != k,
        decreases g.len() - i,
    {
        assert(gv[i as int].0 == g@[i as int].0);
        if g[i].0.same(&k) {
            proof {
                lemma_group_index(gv, k, i as int);
            }
            return Some(i);
        }
        i = i + 1;
    }
    proof {
        lemma_group_index(gv, k, -1);
    }
    None
}

fn py_from(c: &Capture) -> (r: PythonIdentifier)
    ensures
        r@ == py_of(c@),
{
    PythonIdentifier {
        id: c.id,
        start: c.start,
        end: c.end,
        field: match &c.text {
            Some(t) => copy_str(t.as_str()),
            None => String::new(),
        },
    }
}

/// Groups the captures of the Python identifiers query.
pub fn group_captures(caps: &Vec<Capture>) -> (a: PythonAttributes)
    ensures
        groups_view(a.attributes@) == grouped(caps_view(caps@)),
{
    let ghost cv = caps_view(caps@);
    let mut attributes: Vec<(Point, Vec<PythonIdentifier>)> = Vec::new();
    let mut i: usize = 0;
    proof {
        assert(cv.take(0) =~= Seq::<CaptureV>::empty());
        assert(groups_view(attributes@) =~= Seq::<(Point, Seq<PyV>)>::empty());
    }
    while i < caps.len()
        invariant
            cv == caps_view(caps@),
            i <= cv.len(),
            groups_view(attributes@) == grouped(cv.take(i as int)),
        decreases caps.len() - i,
    {
        let c = &caps[i];
        proof {
            let t = cv.take(i + 1);
            assert(t.drop_last() =~= cv.take(i as int));
            assert(t.last() == c@);
        }
        if let Some(parent) = c.parent {
            let ghost before = attributes@;
            match find_group(&attributes, parent.start) {
                Some(k) => {
                    let (key, mut list) = attributes.remove(k);
                    let ghost lb = list@;
                    list.push(py_from(c));
                    attributes.insert(k, (key, list));
                    proof {
                        crate::assoc::lemma_remove_insert(before, k as int, (key, list));
                        assert(lb == before[k as int].1@);
                        assert(key == parent.start);
                        assert(py_view(list@) =~= py_view(lb).push(py_of(c@)));
                        assert(groups_view(attributes@) =~= groups_view(before).update(k as int, (parent.start, groups_view(before)[k as int].1.push(py_of(c@)))));
                    }
                },
                None => {
                    let mut list: Vec<PythonIdentifier> = Vec::new();
                    list.push(py_from(c));
                    attributes.push((parent.start, list));
                    proof {
                        assert(py_view(list@) =~= seq![py_of(c@)]);
                        assert(groups_view(attributes@) =~= groups_view(before).push((parent.start, seq![py_of(c@)])));
                    }
                },
            }
        }
        i = i + 1;
    }
    proof {
        assert(cv.take(i as int) =~= cv);
    }
    PythonAttributes { attributes }
}

/// The names of a Python file, each group of attribute accesses merged into
/// one dotted name and moved down by `line` rows.  What the captures are
/// comes from the parse tree; `None` comes back where a moved row would not
/// fit in a `usize`, so never when nothing is moved.  The captures are
/// those of some list of the query's matches, which carry its names.
pub fn python_identifiers(query: &crate::syntax::SourcedQuery, tree: &tree_sitter::Tree, _trigger_point: Point, text: &str, line: u32) -> (r: Option<Vec<PythonIdentifier>>)
    ensures
        line == 0 ==> r is Some,
        exists|ms: Seq<Seq<CaptureV>>|
            names_within(ms, capture_names(query@.0, query@.1))
            && #[trigger] python_outcome(r, flat_captures(ms, Point { row: 0, column: 0 }, true), line),
{
    let matches = query_matches(query, tree, text);
    let caps = taken_captures(&matches, Point::zero(), true);
    let attributes = group_captures(&caps);
    if !rows_fit_exec(&attributes, line) {
        assert(python_outcome(None, flat_captures(matches_view(matches@), Point { row: 0, column: 0 }, true), line));
        return None;
    }
    let r = Some(attributes.merge(line));
    assert(python_outcome(r, flat_captures(matches_view(matches@), Point { row: 0, column: 0 }, true), line));
    r
}

/// What `python_identifiers` gives back for the captures `caps` it takes:
/// `None` exactly where a moved row would not fit in a `usize`, and
/// otherwise each group merged into one dotted name and moved down.
pub open spec fn python_outcome(r: Option<Vec<PythonIdentifier>>, caps: Seq<CaptureV>, line: u32) -> bool {
    &&& (r is Some <==> rows_fit(grouped(caps), line))
    &&& (r matches Some(v) ==> py_view(v@) == grouped(caps).map_values(|e: (Point, Seq<PyV>)| merged_group(e, line)))
}

fn rows_fit_exec(a: &PythonAttributes, line: u32) -> (b: bool)
    ensures
        b == rows_fit(groups_view(a.attributes@), line),
{
    let ghost g = groups_view(a.attributes@);
    let mut i: usize = 0;
    while i < a.attributes.len()
        invariant
            g == groups_view(a.attributes@),
            i <= g.len(),
            forall|j: int| 0 <= j < i ==> (#[trigger] g[j]).0.row + line <= usize::MAX
                && (g[j].1.len() > 0 ==> g[j].1.last().end.row + line <= usize::MAX),
        decreases a.attributes.len() - i,
    {
        let e = &a.attributes[i];
        assert(g[i as int] == (e.0, py_view(e.1@)));
        if e.0.row > usize::MAX - line as usize {
            return false;
        }
        if e.1.len() > 0 && e.1[e.1.len() - 1].end.row > usize::MAX - line as usize {
            return false;
        }
        i = i + 1;
    }
    true
}

} // verus!
