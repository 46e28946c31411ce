use vstd::prelude::*;

use crate::point::Point;
use crate::syntax::{Capture, CaptureV};
use crate::text::{joined, contains_str, copy_str, decimal, decimal_string, parses_as_u32, seq_contains, str_eq, u32_literal};

verus! {

/// A captured node of a query, as this form of the server keeps it.
#[derive(Debug)]
pub struct CaptureDetails {
    pub value: String,
    pub end_position: Point,
    pub start_position: Point,
}

pub struct DetailsV {
    pub value: Seq<char>,
    pub end_position: Point,
    pub start_position: Point,
}

impl View for CaptureDetails {
    type V = DetailsV;

    open spec fn view(&self) -> DetailsV {
        DetailsV { value: self.value@, end_position: self.end_position, start_position: self.start_position }
    }
}

/// The plain values of the collected details, by key.
pub open spec fn props_view(s: Seq<(String, CaptureDetails)>) -> Seq<(Seq<char>, DetailsV)> {
    s.map_values(|e: (String, CaptureDetails)| (e.0@, e.1@))
}

/// The index of the first entry with key `k`, or -1.
pub open spec fn key_index(m: Seq<(Seq<char>, DetailsV)>, k: Seq<char>) -> int
    decreases m.len(),
{
    if m.len() == 0 {
        -1
    } else {
        let r = key_index(m.drop_last(), k);
        if r >= 0 {
            r
        } else if m.last().0 == k {
            m.len() - 1
        } else {
            -1
        }
    }
}

/// The entries with `v` under `k`: the entry with that key takes it, or a
/// new entry is added at the end.
pub open spec fn keyed_insert(m: Seq<(Seq<char>, DetailsV)>, k: Seq<char>, v: DetailsV) -> Seq<(Seq<char>, DetailsV)> {
    let i = key_index(m, k);
    if i >= 0 {
        m.update(i, (k, v))
    } else {
        m.push((k, v))
    }
}

/// What the entry with key `k` holds, if any.
pub open spec fn prop(m: Seq<(Seq<char>, DetailsV)>, k: Seq<char>) -> Option<DetailsV> {
    let i = key_index(m, k);
    if i >= 0 {
        Some(m[i].1)
    } else {
        None
    }
}

proof fn lemma_key_index(m: Seq<(Seq<char>, DetailsV)>, k: Seq<char>, i: int)
    requires
        -1 <= i < m.len(),
        forall|j: int| 0 <= j < m.len() && (i < 0 || j < i) ==> (#[trigger] m[j]).0 != k,
        i >= 0 ==> m[i].0 == k,
    ensures
        key_index(m, k) == i,
    decreases m.len(),
{
    if m.len() > 0 {
        if i == m.len() - 1 {
            lemma_key_index(m.drop_last(), k, -1);
        } else {
            lemma_key_index(m.drop_last(), k, i);
        }
    }
}

/// The index of the entry with key `k`, if any.
pub fn find_prop(acc: &Vec<(String, CaptureDetails)>, k: &str) -> (r: Option<usize>)
    ensures
        match r {
            Some(i) => i as int == key_index(props_view(acc@), k@) && i < acc@.len(),
            None => key_index(props_view(acc@), k@) == -1,
        },
{
    let ghost m = props_view(acc@);
    let mut j: usize = 0;
    while j < acc.len()
        invariant
            m == props_view(acc@),
            j <= acc@.len(),
            forall|x: int| 0 <= x < j ==> (#[trigger] m[x]).0 != k@,
        decreases acc.len() - j,
    {
        assert(m[j as int].0 == acc@[j as int].0@);
        if str_eq(acc[j].0.as_str(), k) {
            proof {
                lemma_key_index(m, k@, j as int);
            }
            return Some(j);
        }
        j = j + 1;
    }
    proof {
        lemma_key_index(m, k@, -1);
    }
    None
}

/// Puts `v` under `k`.
pub fn insert_prop(acc: &mut Vec<(String, CaptureDetails)>, k: String, v: CaptureDetails)
    ensures
        props_view(final(acc)@) == keyed_insert(props_view(old(acc)@), k@, v@),
{
    let ghost before = props_view(acc@);
    match find_prop(acc, k.as_str()) {
        Some(i) => {
            let _ = acc.remove(i);
            acc.insert(i, (k, v));
            assert(props_view(acc@) =~= before.update(i as int, (k@, v@)));
        },
        None => {
            acc.push((k, v));
            assert(props_view(acc@) =~= before.push((k@, v@)));
        },
    }
}

/// The text of a capture, or nothing when it is not readable.
pub open spec fn value_of(c: CaptureV) -> Seq<char> {
    match c.text {
        Some(t) => t,
        None => Seq::empty(),
    }
}

/// The details of a capture.
pub open spec fn details_of(c: CaptureV) -> DetailsV {
    DetailsV { value: value_of(c), end_position: c.end, start_position: c.start }
}

fn details(c: &Capture) -> (d: CaptureDetails)
    ensures
        d@ == details_of(c@),
{
    CaptureDetails {
        value: match &c.text {
            Some(t) => copy_str(t.as_str()),
            None => String::new(),
        },
        end_position: c.end,
        start_position: c.start,
    }
}

/// A key and a count joined: `key_count`.
pub open spec fn numbered(key: Seq<char>, cnt: u32) -> Seq<char> {
    key + "_"@ + decimal(cnt as nat)
}

fn numbered_exec(key: &str, cnt: u32) -> (s: String)
    ensures
        s@ == numbered(key@, cnt),
{
    let a = joined(key, "_");
    let d = decimal_string(cnt);
    joined(a.as_str(), d.as_str())
}

/// Takes the name after each keyword of a definition.
#[derive(Debug)]
pub struct JinjaCapturer {
    pub cnt: u32,
    pub was_keyword: bool,
    pub force: bool,
}

impl JinjaCapturer {
    pub fn new() -> (c: JinjaCapturer)
        ensures
            c.cnt == 0 && !c.was_keyword && !c.force,
    {
        JinjaCapturer { cnt: 0, was_keyword: false, force: false }
    }

    /// From now on every capture is taken, keyword or not.
    pub fn force(&mut self)
        ensures
            final(self).force,
            final(self).cnt == old(self).cnt,
            final(self).was_keyword == old(self).was_keyword,
    {
        self.force = true;
    }

    /// Takes one capture: a keyword is remembered; the capture after a
    /// keyword (or any, when forced) is counted and kept under its name and
    /// count.
    pub fn save_by(&mut self, capture: &Capture, acc: &mut Vec<(String, CaptureDetails)>)
        requires
            old(self).cnt < u32::MAX,
        ensures
            if capture@.name == "key_name"@ {
                final(self).was_keyword && final(self).cnt == old(self).cnt && final(self).force == old(self).force
                    && props_view(final(acc)@) == props_view(old(acc)@)
            } else if old(self).was_keyword || old(self).force {
                &&& final(self).cnt == old(self).cnt + 1
                &&& !final(self).was_keyword
                &&& final(self).force == old(self).force
                &&& props_view(final(acc)@) == keyed_insert(props_view(old(acc)@),
                    numbered(capture@.name, (old(self).cnt + 1) as u32), details_of(capture@))
            } else {
                *final(self) == *old(self) && props_view(final(acc)@) == props_view(old(acc)@)
            },
    {
        proof {
            reveal_strlit("key_name");
        }
        let key = capture.name.as_str();
        if str_eq(key, "key_name") {
            self.was_keyword = true;
        } else if self.was_keyword || self.force {
            self.cnt = self.cnt + 1;
            self.was_keyword = false;
            insert_prop(acc, numbered_exec(key, self.cnt), details(capture));
        }
    }
}

/// The key a name of an expression or statement is kept under: counted
/// when forced, else `key_id`.
pub open spec fn variable_key(key: Seq<char>, force: bool, cnt: u32) -> Seq<char> {
    if force {
        numbered(key, cnt)
    } else {
        "key_id"@
    }
}

/// Takes the identifier of each expression and statement, each place once.
#[derive(Debug)]
pub struct JinjaVariableCapturer {
    pub points: Vec<(Point, Point)>,
    pub cnt: u32,
    pub force: bool,
}

impl JinjaVariableCapturer {
    pub fn new() -> (c: JinjaVariableCapturer)
        ensures
            c.points@.len() == 0 && c.cnt == 0 && !c.force,
    {
        JinjaVariableCapturer { points: Vec::new(), cnt: 0, force: false }
    }

    /// From now on every name taken is counted.
    pub fn force(&mut self)
        ensures
            final(self).force,
            final(self).cnt == old(self).cnt,
            final(self).points@ == old(self).points@,
    {
        self.force = true;
    }

    /// Remembers a place, unless it was seen already; returns whether it
    /// is new.
    pub fn add_point(&mut self, point: (Point, Point)) -> (added: bool)
        ensures
            added == !old(self).points@.contains(point),
            final(self).points@ == (if added { old(self).points@.push(point) } else { old(self).points@ }),
            final(self).cnt == old(self).cnt,
            final(self).force == old(self).force,
    {
        let mut i: usize = 0;
        while i < self.points.len()
            invariant
                i <= self.points@.len(),
                forall|j: int| 0 <= j < i ==> self.points@[j] != point,
            decreases self.points.len() - i,
        {
            if self.points[i].0.same(&point.0) && self.points[i].1.same(&point.1) {
                assert(self.points@[i as int] == point);
                return false;
            }
            i = i + 1;
        }
        self.points.push(point);
        true
    }

    /// Takes one capture: the identifier of an expression or a statement,
    /// at a place not seen before, is kept under its key with its text; its
    /// place is remembered even when its text is unreadable.
    pub fn save_by(&mut self, capture: &Capture, acc: &mut Vec<(String, CaptureDetails)>)
        requires
            old(self).cnt < u32::MAX,
        ensures
            match capture@.identifier {
                Some((s, e, t)) => if (capture@.name == "temp_expression"@ || capture@.name == "just_statement"@)
                    && !old(self).points@.contains((s, e)) {
                    &&& final(self).points@ == old(self).points@.push((s, e))
                    &&& final(self).force == old(self).force
                    &&& final(self).cnt == (if old(self).force { old(self).cnt + 1 } else { old(self).cnt as int })
                    &&& props_view(final(acc)@) == match t {
                        Some(v) => keyed_insert(
                            props_view(old(acc)@),
                            variable_key(capture@.name, old(self).force, final(self).cnt),
                            DetailsV { value: v, end_position: e, start_position: s },
                        ),
                        None => props_view(old(acc)@),
                    }
                } else {
                    &&& final(self).points@ == old(self).points@
                    &&& final(self).cnt == old(self).cnt
                    &&& final(self).force == old(self).force
                    &&& props_view(final(acc)@) == props_view(old(acc)@)
                },
                None => {
                    &&& final(self).points@ == old(self).points@
                    &&& final(self).cnt == old(self).cnt
                    &&& final(self).force == old(self).force
                    &&& props_view(final(acc)@) == props_view(old(acc)@)
                },
            },
    {
        proof {
            reveal_strlit("temp_expression");
            reveal_strlit("just_statement");
            reveal_strlit("key_id");
        }
        let key = capture.name.as_str();
        if !(str_eq(key, "temp_expression") || str_eq(key, "just_statement")) {
            return;
        }
        let (s, e, t) = match &capture.identifier {
            Some(x) => x,
            None => return,
        };
        if !self.add_point((*s, *e)) {
            return;
        }
        let k = if self.force {
            self.cnt = self.cnt + 1;
            numbered_exec(key, self.cnt)
        } else {
            copy_str("key_id")
        };
        match t {
            Some(v) => insert_prop(acc, k, CaptureDetails { value: copy_str(v.as_str()), end_position: *e, start_position: *s }),
            None => {},
        }
    }
}

/// Takes the names used in expressions and statements that are not
/// attributes of a name already seen in the block.
#[derive(Debug)]
pub struct JinjaCapturer2 {
    pub block: String,
    pub cnt: u32,
    pub force: bool,
}

impl JinjaCapturer2 {
    pub fn new() -> (c: JinjaCapturer2)
        ensures
            c.block@.len() == 0 && c.cnt == 0 && !c.force,
    {
        JinjaCapturer2 { block: String::new(), cnt: 0, force: false }
    }

    /// From now on each name taken is counted.
    pub fn force(&mut self)
        ensures
            final(self).force,
            final(self).cnt == old(self).cnt,
            final(self).block == old(self).block,
    {
        self.force = true;
    }

    /// Takes one capture: an expression or statement becomes the current
    /// block; a name that does not appear after a dot in the block, and is
    /// not a number, is kept, under its own key or, when forced, its key and
    /// count.
    pub fn save_by(&mut self, capture: &Capture, acc: &mut Vec<(String, CaptureDetails)>)
        requires
            old(self).cnt < u32::MAX,
        ensures
            ({
                let key = capture@.name;
                let value = value_of(capture@);
                if key == "temp_expression"@ || key == "temp_statement"@ {
                    final(self).block@ == value && final(self).cnt == old(self).cnt && final(self).force == old(self).force
                        && props_view(final(acc)@) == props_view(old(acc)@)
                } else if key == "key_id"@ && !seq_contains(old(self).block@, seq!['.'] + value) && !u32_literal(value) {
                    &&& final(self).block == old(self).block
                    &&& final(self).force == old(self).force
                    &&& final(self).cnt == if old(self).force { (old(self).cnt + 1) as u32 } else { old(self).cnt }
                    &&& props_view(final(acc)@) == keyed_insert(props_view(old(acc)@),
                        if old(self).force { numbered(key, (old(self).cnt + 1) as u32) } else { key }, details_of(capture@))
                } else {
                    final(self).block == old(self).block && final(self).cnt == old(self).cnt && final(self).force == old(self).force
                        && props_view(final(acc)@) == props_view(old(acc)@)
                }
            }),
    {
        proof {
            reveal_strlit("temp_expression");
            reveal_strlit("temp_statement");
            reveal_strlit("key_id");
            reveal_strlit(".");
            assert("."@ =~= seq!['.']);
        }
        let key = capture.name.as_str();
        let value = match &capture.text {
            Some(t) => copy_str(t.as_str()),
            None => String::new(),
        };
        if str_eq(key, "temp_expression") || str_eq(key, "temp_statement") {
            self.block = value;
        } else if str_eq(key, "key_id") {
            let dotted = joined(".", value.as_str());
            if !contains_str(self.block.as_str(), dotted.as_str()) {
                if parses_as_u32(value.as_str()) {
                    return;
                }
                let new_key = if self.force {
                    self.cnt = self.cnt + 1;
                    numbered_exec(key, self.cnt)
                } else {
                    copy_str(key)
                };
                insert_prop(acc, new_key, details(capture));
            }
        }
    }
}

/// Takes the names handed to a `context!` macro.
#[derive(Debug)]
pub struct RustCapturer {
    pub cnt: u32,
    pub force: bool,
}

impl RustCapturer {
    pub fn new() -> (c: RustCapturer)
        ensures
            c.cnt == 0 && !c.force,
    {
        RustCapturer { cnt: 0, force: false }
    }

    /// From now on each name taken is counted.
    pub fn force(&mut self)
        ensures
            final(self).force,
            final(self).cnt == old(self).cnt,
    {
        self.force = true;
    }

    /// Takes one capture: a name is kept under its own key or, when forced,
    /// its key and count.
    pub fn save_by(&mut self, capture: &Capture, acc: &mut Vec<(String, CaptureDetails)>)
        requires
            old(self).cnt < u32::MAX,
        ensures
            if capture@.name == "key_id"@ {
                &&& final(self).force == old(self).force
                &&& final(self).cnt == if old(self).force { (old(self).cnt + 1) as u32 } else { old(self).cnt }
                &&& props_view(final(acc)@) == keyed_insert(props_view(old(acc)@),
                    if old(self).force { numbered(capture@.name, (old(self).cnt + 1) as u32) } else { capture@.name },
                    details_of(capture@))
            } else {
                *final(self) == *old(self) && props_view(final(acc)@) == props_view(old(acc)@)
            },
    {
        proof {
            reveal_strlit("key_id");
        }
        let key = capture.name.as_str();
        if str_eq(key, "key_id") {
            let new_key = if self.force {
                self.cnt = self.cnt + 1;
                numbered_exec(key, self.cnt)
            } else {
                copy_str(key)
            };
            insert_prop(acc, new_key, details(capture));
        }
    }
}

/// Keeps every capture under its own name.
#[derive(Debug)]
pub struct JinjaCompletionCapturer {
    pub filter_name: String,
}

impl JinjaCompletionCapturer {
    pub fn new() -> (c: JinjaCompletionCapturer)
        ensures
            c.filter_name@.len() == 0,
    {
        JinjaCompletionCapturer { filter_name: String::new() }
    }

    /// Takes one capture, under its own name.
    pub fn save_by(&mut self, capture: &Capture, acc: &mut Vec<(String, CaptureDetails)>)
        ensures
            final(self).filter_name == old(self).filter_name,
            props_view(final(acc)@) == keyed_insert(props_view(old(acc)@), capture@.name, details_of(capture@)),
    {
        insert_prop(acc, copy_str(capture.name.as_str()), details(capture));
    }
}

/// One step of the definitions capturer over its state `(cnt, was_keyword,
/// force)` and the details kept so far.
pub open spec fn definitions_step(st: (u32, bool, bool), acc: Seq<(Seq<char>, DetailsV)>, c: CaptureV) -> ((u32, bool, bool), Seq<(Seq<char>, DetailsV)>) {
    if c.name == "key_name"@ {
        ((st.0, true, st.2), acc)
    } else if st.1 || st.2 {
        let cnt = (st.0 + 1) as u32;
        ((cnt, false, st.2), keyed_insert(acc, numbered(c.name, cnt), details_of(c)))
    } else {
        (st, acc)
    }
}

/// The definitions capturer over a list of captures.
pub open spec fn definitions_fold(st: (u32, bool, bool), acc: Seq<(Seq<char>, DetailsV)>, caps: Seq<CaptureV>) -> Seq<(Seq<char>, DetailsV)>
    decreases caps.len(),
{
    if caps.len() == 0 {
        acc
    } else {
        let (st1, acc1) = definitions_step(st, acc, caps[0]);
        definitions_fold(st1, acc1, caps.drop_first())
    }
}

/// One step of the references capturer over its state `(block, cnt,
/// force)` and the details kept so far.
pub open spec fn references_step(st: (Seq<char>, u32, bool), acc: Seq<(Seq<char>, DetailsV)>, c: CaptureV) -> ((Seq<char>, u32, bool), Seq<(Seq<char>, DetailsV)>) {
    let key = c.name;
    let value = value_of(c);
    if key == "temp_expression"@ || key == "temp_statement"@ {
        ((value, st.1, st.2), acc)
    } else if key == "key_id"@ && !seq_contains(st.0, seq!['.'] + value) && !u32_literal(value) {
        let cnt = if st.2 { (st.1 + 1) as u32 } else { st.1 };
        ((st.0, cnt, st.2), keyed_insert(acc, if st.2 { numbered(key, cnt) } else { key }, details_of(c)))
    } else {
        (st, acc)
    }
}

/// The references capturer over a list of captures.
pub open spec fn references_fold(st: (Seq<char>, u32, bool), acc: Seq<(Seq<char>, DetailsV)>, caps: Seq<CaptureV>) -> Seq<(Seq<char>, DetailsV)>
    decreases caps.len(),
{
    if caps.len() == 0 {
        acc
    } else {
        let (st1, acc1) = references_step(st, acc, caps[0]);
        references_fold(st1, acc1, caps.drop_first())
    }
}

/// One step of the backend capturer over its state `(cnt, force)` and the
/// details kept so far.
pub open spec fn backend_step(st: (u32, bool), acc: Seq<(Seq<char>, DetailsV)>, c: CaptureV) -> ((u32, bool), Seq<(Seq<char>, DetailsV)>) {
    if c.name == "key_id"@ {
        let cnt = if st.1 { (st.0 + 1) as u32 } else { st.0 };
        ((cnt, st.1), keyed_insert(acc, if st.1 { numbered(c.name, cnt) } else { c.name }, details_of(c)))
    } else {
        (st, acc)
    }
}

/// The backend capturer over a list of captures.
pub open spec fn backend_fold(st: (u32, bool), acc: Seq<(Seq<char>, DetailsV)>, caps: Seq<CaptureV>) -> Seq<(Seq<char>, DetailsV)>
    decreases caps.len(),
{
    if caps.len() == 0 {
        acc
    } else {
        let (st1, acc1) = backend_step(st, acc, caps[0]);
        backend_fold(st1, acc1, caps.drop_first())
    }
}

/// Folds the captures into details with a fresh definitions capturer.
pub fn definitions_props(caps: &Vec<Capture>, force: bool) -> (r: Vec<(String, CaptureDetails)>)
    requires
        caps@.len() < u32::MAX,
    ensures
        props_view(r@) == definitions_fold((0, false, force), Seq::empty(), crate::syntax::caps_view(caps@)),
{
    let ghost cv = crate::syntax::caps_view(caps@);
    let mut c = JinjaCapturer::new();
    c.force = force;
    let mut acc: Vec<(String, CaptureDetails)> = Vec::new();
    let mut i: usize = 0;
    proof {
        assert(cv.skip(0) =~= cv);
        assert(props_view(acc@) =~= Seq::<(Seq<char>, DetailsV)>::empty());
    }
    while i < caps.len()
        invariant
            cv == crate::syntax::caps_view(caps@),
            cv.len() < u32::MAX,
            i <= cv.len(),
            c.cnt <= i,
            definitions_fold((c.cnt, c.was_keyword, c.force), props_view(acc@), cv.skip(i as int))
                == definitions_fold((0, false, force), Seq::empty(), cv),
        decreases caps.len() - i,
    {
        proof {
            assert(cv.skip(i as int)[0] == caps@[i as int]@);
            assert(cv.skip(i as int).drop_first() =~= cv.skip(i + 1));
        }
        c.save_by(&caps[i], &mut acc);
        i = i + 1;
    }
    proof {
        assert(cv.skip(i as int).len() == 0);
    }
    acc
}

/// One step of the variables capturer over its state `(points, cnt,
/// force)` and the details kept so far.
pub open spec fn variables_step(
    st: (Seq<(Point, Point)>, u32, bool),
    acc: Seq<(Seq<char>, DetailsV)>,
    c: CaptureV,
) -> ((Seq<(Point, Point)>, u32, bool), Seq<(Seq<char>, DetailsV)>) {
    match c.identifier {
        Some((s, e, t)) => if (c.name == "temp_expression"@ || c.name == "just_statement"@) && !st.0.contains((s, e)) {
            let cnt = if st.2 { (st.1 + 1) as u32 } else { st.1 };
            let acc1 = match t {
                Some(v) => keyed_insert(acc, variable_key(c.name, st.2, cnt), DetailsV { value: v, end_position: e, start_position: s }),
                None => acc,
            };
            ((st.0.push((s, e)), cnt, st.2), acc1)
        } else {
            (st, acc)
        },
        None => (st, acc),
    }
}

/// The variables capturer over a list of captures.
pub open spec fn variables_fold(
    st: (Seq<(Point, Point)>, u32, bool),
    acc: Seq<(Seq<char>, DetailsV)>,
    caps: Seq<CaptureV>,
) -> Seq<(Seq<char>, DetailsV)>
    decreases caps.len(),
{
    if caps.len() == 0 {
        acc
    } else {
        let (st1, acc1) = variables_step(st, acc, caps[0]);
        variables_fold(st1, acc1, caps.drop_first())
    }
}

/// Folds the captures into details with a fresh variables capturer.
pub fn variables_props(caps: &Vec<Capture>, force: bool) -> (r: Vec<(String, CaptureDetails)>)
    requires
        caps@.len() < u32::MAX,
    ensures
        props_view(r@) == variables_fold((Seq::empty(), 0, force), Seq::empty(), crate::syntax::caps_view(caps@)),
{
    let ghost cv = crate::syntax::caps_view(caps@);
    let mut c = JinjaVariableCapturer::new();
    c.force = force;
    let mut acc: Vec<(String, CaptureDetails)> = Vec::new();
    let mut i: usize = 0;
    proof {
        assert(cv.skip(0) =~= cv);
        assert(props_view(acc@) =~= Seq::<(Seq<char>, DetailsV)>::empty());
        assert(c.points@ =~= Seq::<(Point, Point)>::empty());
    }
    while i < caps.len()
        invariant
            cv == crate::syntax::caps_view(caps@),
            cv.len() < u32::MAX,
            i <= cv.len(),
            c.cnt <= i,
            variables_fold((c.points@, c.cnt, c.force), props_view(acc@), cv.skip(i as int))
                == variables_fold((Seq::empty(), 0, force), Seq::empty(), cv),
        decreases caps.len() - i,
    {
        proof {
            assert(cv.skip(i as int)[0] == caps@[i as int]@);
            assert(cv.skip(i as int).drop_first() =~= cv.skip(i + 1));
            reveal_strlit("temp_expression");
            reveal_strlit("just_statement");
            reveal_strlit("key_id");
        }
        c.save_by(&caps[i], &mut acc);
        i = i + 1;
    }
    proof {
        assert(cv.skip(i as int).len() == 0);
    }
    acc
}

/// Folds the captures into details with a fresh references capturer.
pub fn references_props(caps: &Vec<Capture>, force: bool) -> (r: Vec<(String, CaptureDetails)>)
    requires
        caps@.len() < u32::MAX,
    ensures
        props_view(r@) == references_fold((Seq::empty(), 0, force), Seq::empty(), crate::syntax::caps_view(caps@)),
{
    let ghost cv = crate::syntax::caps_view(caps@);
    let mut c = JinjaCapturer2::new();
    c.force = force;
    let mut acc: Vec<(String, CaptureDetails)> = Vec::new();
    let mut i: usize = 0;
    proof {
        assert(cv.skip(0) =~= cv);
        assert(c.block@ =~= Seq::<char>::empty());
        assert(props_view(acc@) =~= Seq::<(Seq<char>, DetailsV)>::empty());
    }
    while i < caps.len()
        invariant
            cv == crate::syntax::caps_view(caps@),
            cv.len() < u32::MAX,
            i <= cv.len(),
            c.cnt <= i,
            references_fold((c.block@, c.cnt, c.force), props_view(acc@), cv.skip(i as int))
                == references_fold((Seq::empty(), 0, force), Seq::empty(), cv),
        decreases caps.len() - i,
    {
        proof {
            assert(cv.skip(i as int)[0] == caps@[i as int]@);
            assert(cv.skip(i as int).drop_first() =~= cv.skip(i + 1));
        }
        c.save_by(&caps[i], &mut acc);
        i = i + 1;
    }
    proof {
        assert(cv.skip(i as int).len() == 0);
    }
    acc
}

/// Folds the captures into details with a fresh backend capturer.
pub fn backend_props(caps: &Vec<Capture>, force: bool) -> (r: Vec<(String, CaptureDetails)>)
    requires
        caps@.len() < u32::MAX,
    ensures
        props_view(r@) == backend_fold((0, force), Seq::empty(), crate::syntax::caps_view(caps@)),
{
    let ghost cv = crate::syntax::caps_view(caps@);
    let mut c = RustCapturer::new();
    c.force = force;
    let mut acc: Vec<(String, CaptureDetails)> = Vec::new();
    let mut i: usize = 0;
    proof {
        assert(cv.skip(0) =~= cv);
        assert(props_view(acc@) =~= Seq::<(Seq<char>, DetailsV)>::empty());
    }
    while i < caps.len()
        invariant
            cv == crate::syntax::caps_view(caps@),
            cv.len() < u32::MAX,
            i <= cv.len(),
            c.cnt <= i,
            backend_fold((c.cnt, c.force), props_view(acc@), cv.skip(i as int))
                == backend_fold((0, force), Seq::empty(), cv),
        decreases caps.len() - i,
    {
        proof {
            assert(cv.skip(i as int)[0] == caps@[i as int]@);
            assert(cv.skip(i as int).drop_first() =~= cv.skip(i + 1));
        }
        c.save_by(&caps[i], &mut acc);
        i = i + 1;
    }
    proof {
        assert(cv.skip(i as int).len() == 0);
    }
    acc
}

} // verus!
