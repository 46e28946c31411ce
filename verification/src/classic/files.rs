//! The files of the first form of the server: a registry that numbers each
//! document once, and the variables each document defines.
use vstd::prelude::*;

use crate::classic::capturer::{CaptureDetails, DetailsV};
use crate::point::Point;
use crate::search::order::{chars_order, lemma_ord_chars, ord_chars, ord_point, point_order};
use crate::text::{copy_str, str_eq};
use vstd::multiset::Multiset;

verus! {

/// `DashMap` of the dashmap crate: a map that can be shared between
/// threads.
#[verifier::external_type_specification]
#[verifier::external_body]
#[verifier::reject_recursive_types(K)]
#[verifier::reject_recursive_types(V)]
#[verifier::reject_recursive_types(S)]
pub struct ExDashMap<K, V, S>(dashmap::DashMap<K, V, S>);

/// What a map from addresses to numbers holds.
pub uninterp spec fn numbers_held(m: dashmap::DashMap<String, usize>) -> Map<Seq<char>, usize>;

/// Calls `DashMap::new`: an empty map.
#[verifier::external_body]
fn numbers_new() -> (m: dashmap::DashMap<String, usize>)
    ensures
        numbers_held(m) =~= Map::empty(),
{
    dashmap::DashMap::new()
}

/// Calls `DashMap::get` and copies the number found under `key`, if any.
#[verifier::external_body]
fn numbers_get(m: &dashmap::DashMap<String, usize>, key: &str) -> (r: Option<usize>)
    ensures
        match r {
            Some(v) => numbers_held(*m).contains_key(key@) && numbers_held(*m)[key@] == v,
            None => !numbers_held(*m).contains_key(key@),
        },
{
    m.get(key).map(|e| *e.value())
}

/// Calls `DashMap::insert`: `key` holds `value` afterwards, and every other
/// key keeps what it held.  Its result, the number the key held before, is
/// dropped.
#[verifier::external_body]
fn numbers_insert(m: &mut dashmap::DashMap<String, usize>, key: String, value: usize)
    ensures
        numbers_held(*final(m)) == numbers_held(*old(m)).insert(key@, value),
{
    m.insert(key, value);
}

/// Calls `DashMap::clear`: nothing is held afterwards.
#[verifier::external_body]
fn numbers_clear(m: &mut dashmap::DashMap<String, usize>)
    ensures
        numbers_held(*final(m)) =~= Map::empty(),
{
    m.clear();
}

/// Calls `DashMap::iter` and copies each entry, in the order the map is
/// walked, which the map decides: each key it holds comes once, with its
/// number.
#[verifier::external_body]
fn numbers_entries(m: &dashmap::DashMap<String, usize>) -> (r: Vec<(String, usize)>)
    ensures
        forall|i: int|
            0 <= i < r@.len() ==> numbers_held(*m).contains_key((#[trigger] r@[i]).0@) && numbers_held(*m)[r@[i].0@]
                == r@[i].1,
        forall|k: Seq<char>| #[trigger] numbers_held(*m).contains_key(k) ==> exists|i: int| 0 <= i < r@.len() && r@[i].0@ == k,
        forall|i: int, j: int| 0 <= i < j < r@.len() ==> (#[trigger] r@[i]).0@ != (#[trigger] r@[j]).0@,
{
    m.iter().map(|e| (e.key().clone(), *e.value())).collect()
}

/// The registry as plain values: each document's address with its number,
/// and the number the next document gets.
pub struct IndexesV {
    pub numbers: Map<Seq<char>, usize>,
    pub current: usize,
}

/// The address numbered `i`, if some address has that number.
pub open spec fn uri_of(m: Map<Seq<char>, usize>, i: usize) -> Option<Seq<char>> {
    if exists|k: Seq<char>| m.contains_key(k) && m[k] == i {
        Some(choose|k: Seq<char>| m.contains_key(k) && m[k] == i)
    } else {
        None
    }
}

/// Every number given so far is below the next one, and no two addresses
/// share a number.
pub open spec fn registry_wf(m: Map<Seq<char>, usize>, current: usize) -> bool {
    &&& forall|k: Seq<char>| #[trigger] m.contains_key(k) ==> m[k] < current
    &&& forall|a: Seq<char>, b: Seq<char>| #[trigger] m.contains_key(a) && #[trigger] m.contains_key(b) && a != b ==> m[a] != m[b]
}

/// In a well-formed registry an address holds the only number it has.
proof fn lemma_uri_unique(m: Map<Seq<char>, usize>, current: usize, k: Seq<char>)
    requires
        registry_wf(m, current),
        m.contains_key(k),
    ensures
        uri_of(m, m[k]) == Some(k),
{
    let c = choose|c: Seq<char>| m.contains_key(c) && m[c] == m[k];
    if c != k {
        assert(m.contains_key(c) && m.contains_key(k));
    }
}

/// Numbering a new document makes it found both ways: its address gives
/// the new number and the number gives its address; every other address
/// keeps its number, and the registry stays well formed.
pub proof fn lemma_added_file_found(m: IndexesV, k: Seq<char>)
    requires
        registry_wf(m.numbers, m.current),
        !m.numbers.contains_key(k),
        m.current < usize::MAX,
    ensures
        registry_wf(m.numbers.insert(k, m.current), (m.current + 1) as usize),
        m.numbers.insert(k, m.current)[k] == m.current,
        uri_of(m.numbers.insert(k, m.current), m.current) == Some(k),
        forall|k2: Seq<char>|
            k2 != k ==> (#[trigger] m.numbers.insert(k, m.current).contains_key(k2)) == m.numbers.contains_key(k2)
                && (m.numbers.contains_key(k2) ==> m.numbers.insert(k, m.current)[k2] == m.numbers[k2]),
{
    let n = m.numbers.insert(k, m.current);
    assert(registry_wf(n, (m.current + 1) as usize)) by {
        assert forall|a: Seq<char>, b: Seq<char>| #[trigger] n.contains_key(a) && #[trigger] n.contains_key(b) && a != b implies n[a]
            != n[b] by {
            if a != k && b != k {
                assert(m.numbers.contains_key(a) && m.numbers.contains_key(b));
            } else if a == k {
                assert(m.numbers.contains_key(b));
            } else {
                assert(m.numbers.contains_key(a));
            }
        }
    }
    lemma_uri_unique(n, (m.current + 1) as usize, k);
}

/// Each document of the first form of the server gets a number once.
#[derive(Debug)]
pub struct FileIndexes {
    indexes: dashmap::DashMap<String, usize>,
    current: usize,
}

impl View for FileIndexes {
    type V = IndexesV;

    closed spec fn view(&self) -> IndexesV {
        IndexesV { numbers: numbers_held(self.indexes), current: self.current }
    }
}

impl FileIndexes {
    /// The registry keeps its numbers below the next one, one per address.
    pub open spec fn wf(&self) -> bool {
        registry_wf(self@.numbers, self@.current)
    }

    /// An empty registry.
    pub fn new() -> (r: FileIndexes)
        ensures
            r.wf(),
            r@.numbers == Map::<Seq<char>, usize>::empty(),
            r@.current == 0,
    {
        FileIndexes { indexes: numbers_new(), current: 0 }
    }

    /// The number of the document at `key`.
    pub fn get_index(&self, key: &str) -> (r: Option<usize>)
        ensures
            match r {
                Some(v) => self@.numbers.contains_key(key@) && self@.numbers[key@] == v,
                None => !self@.numbers.contains_key(key@),
            },
    {
        numbers_get(&self.indexes, key)
    }

    /// The address of the document numbered `index`.
    pub fn get_uri(&self, index: usize) -> (r: Option<String>)
        requires
            self.wf(),
        ensures
            match r {
                Some(s) => uri_of(self@.numbers, index) == Some(s@),
                None => uri_of(self@.numbers, index) is None,
            },
    {
        let entries = numbers_entries(&self.indexes);
        let ghost m = self@.numbers;
        let mut i: usize = 0;
        while i < entries.len()
            invariant
                m == self@.numbers,
                registry_wf(m, self@.current),
                i <= entries@.len(),
                forall|j: int|
                    0 <= j < entries@.len() ==> m.contains_key((#[trigger] entries@[j]).0@) && m[entries@[j].0@]
                        == entries@[j].1,
                forall|k: Seq<char>| #[trigger] m.contains_key(k) ==> exists|j: int| 0 <= j < entries@.len() && entries@[j].0@ == k,
                forall|j: int| 0 <= j < i ==> (#[trigger] entries@[j]).1 != index,
            decreases entries.len() - i,
        {
            if entries[i].1 == index {
                proof {
                    let k = entries@[i as int].0@;
                    assert(m.contains_key(k));
                    lemma_uri_unique(m, self@.current, k);
                }
                return Some(copy_str(entries[i].0.as_str()));
            }
            i = i + 1;
        }
        proof {
            if exists|k: Seq<char>| m.contains_key(k) && m[k] == index {
                let k = choose|k: Seq<char>| m.contains_key(k) && m[k] == index;
                let j = choose|j: int| 0 <= j < entries@.len() && entries@[j].0@ == k;
                assert(entries@[j].1 == index);
            }
        }
        None
    }

    /// Numbers the document at `key`, unless it has a number already: the
    /// new number is the next one.
    pub fn add_file(&mut self, key: String) -> (r: Option<usize>)
        requires
            old(self).wf(),
            !old(self)@.numbers.contains_key(key@) ==> old(self)@.current < usize::MAX,
        ensures
            final(self).wf(),
            match r {
                Some(i) => {
                    &&& !old(self)@.numbers.contains_key(key@)
                    &&& i == old(self)@.current
                    &&& final(self)@.numbers == old(self)@.numbers.insert(key@, i)
                    &&& final(self)@.current == i + 1
                },
                None => old(self)@.numbers.contains_key(key@) && final(self)@ == old(self)@,
            },
    {
        if self.get_index(key.as_str()).is_some() {
            return None;
        }
        let i = self.current;
        proof {
            lemma_added_file_found(self@, key@);
        }
        numbers_insert(&mut self.indexes, key, i);
        self.current = i + 1;
        Some(i)
    }

    /// Forgets every document; numbers already given are not given again.
    pub fn reset(&mut self)
        requires
            old(self).wf(),
        ensures
            final(self).wf(),
            final(self)@.numbers == Map::<Seq<char>, usize>::empty(),
            final(self)@.current == old(self)@.current,
    {
        numbers_clear(&mut self.indexes);
    }
}

/// The order of captured details: by start, then end, then text.
pub open spec fn ord_details(a: DetailsV, b: DetailsV) -> int {
    if ord_point(a.start_position, b.start_position) != 0 {
        ord_point(a.start_position, b.start_position)
    } else if ord_point(a.end_position, b.end_position) != 0 {
        ord_point(a.end_position, b.end_position)
    } else {
        ord_chars(a.value, b.value)
    }
}

/// The order of details is antisymmetric, and it ties only equal details.
pub proof fn lemma_ord_details(a: DetailsV, b: DetailsV)
    ensures
        ord_details(a, b) == -ord_details(b, a),
        ord_details(a, b) == 0 <==> a == b,
{
    lemma_ord_chars(a.value, b.value);
}

fn details_order(a: &CaptureDetails, b: &CaptureDetails) -> (r: i8)
    ensures
        r == ord_details(a@, b@),
{
    let c = point_order(&a.start_position, &b.start_position);
    if c != 0 {
        return c;
    }
    let c = point_order(&a.end_position, &b.end_position);
    if c != 0 {
        return c;
    }
    chars_order(a.value.as_str(), b.value.as_str())
}

/// The plain values of a list of details.
pub open spec fn details_view(s: Seq<CaptureDetails>) -> Seq<DetailsV> {
    s.map_values(|d: CaptureDetails| d@)
}

/// The details come in order.
pub open spec fn sorted_details(s: Seq<DetailsV>) -> bool {
    forall|i: int| 0 <= i < s.len() - 1 ==> ord_details(#[trigger] s[i], s[i + 1]) <= 0
}

/// The details in their order.
#[verifier::spinoff_prover]
#[verifier::rlimit(40)]
pub fn sort_details(v: Vec<CaptureDetails>) -> (r: Vec<CaptureDetails>)
    ensures
        sorted_details(details_view(r@)),
        details_view(r@).to_multiset() == details_view(v@).to_multiset(),
{
    let ghost orig = details_view(v@);
    let mut src = v;
    let mut r: Vec<CaptureDetails> = Vec::new();
    proof {
        broadcast use vstd::seq_lib::group_seq_properties;
        assert(details_view(r@) =~= Seq::<DetailsV>::empty());
    }
    while src.len() > 0
        invariant
            sorted_details(details_view(r@)),
            details_view(r@).to_multiset().add(details_view(src@).to_multiset()) == orig.to_multiset(),
        decreases src.len(),
    {
        let ghost before_src = src@;
        let x = src.pop().unwrap();
        proof {
            broadcast use vstd::seq_lib::group_seq_properties;
            assert(details_view(before_src) =~= details_view(src@).push(x@));
        }
        let mut p: usize = 0;
        while p < r.len() && details_order(&r[p], &x) <= 0
            invariant
                p <= r.len(),
                forall|q: int| 0 <= q < p ==> ord_details(#[trigger] r@[q]@, x@) <= 0,
            decreases r.len() - p,
        {
            p = p + 1;
        }
        let ghost before = details_view(r@);
        r.insert(p, x);
        proof {
            broadcast use vstd::seq_lib::group_seq_properties;
            let after = details_view(r@);
            assert(after =~= before.insert(p as int, x@));
            before.insert_ensures(p as int, x@);
            assert forall|i: int| 0 <= i < after.len() - 1 implies ord_details(#[trigger] after[i], after[i + 1]) <= 0 by {
                if i + 1 < p {
                    assert(after[i] == before[i] && after[i + 1] == before[i + 1]);
                } else if i + 1 == p {
                    assert(after[i] == r@[i]@);
                } else if i == p {
                    lemma_ord_details(before[i], x@);
                } else {
                    assert(after[i] == before[i - 1] && after[i + 1] == before[i]);
                }
            }
            assert(after.remove(p as int) =~= before);
            assert(after.to_multiset() =~= before.to_multiset().insert(x@)) by {
                assert(after.remove(p as int).to_multiset() =~= after.to_multiset().remove(after[p as int]));
                assert(after.contains(x@));
            }
        }
    }
    proof {
        assert(details_view(src@) =~= Seq::<DetailsV>::empty());
        assert(details_view(src@).to_multiset() =~= Multiset::empty());
        assert(details_view(r@).to_multiset().add(Multiset::empty()) =~= details_view(r@).to_multiset());
    }
    r
}

/// A variable of the first form of the server: its span and its name.
#[derive(Debug, Clone)]
pub struct JinjaVariable {
    pub start: Point,
    pub end: Point,
    pub name: String,
}

/// A variable as plain values.
pub struct VariableV {
    pub start: Point,
    pub end: Point,
    pub name: Seq<char>,
}

impl View for JinjaVariable {
    type V = VariableV;

    open spec fn view(&self) -> VariableV {
        VariableV { start: self.start, end: self.end, name: self.name@ }
    }
}

/// The plain values of a list of variables.
pub open spec fn variables_view(s: Seq<JinjaVariable>) -> Seq<VariableV> {
    s.map_values(|v: JinjaVariable| v@)
}

/// The variable a captured detail names.
pub open spec fn variable_of(d: DetailsV) -> VariableV {
    VariableV { start: d.start_position, end: d.end_position, name: d.value }
}

impl JinjaVariable {
    /// The variable a captured detail names.
    pub fn from_details(value: &CaptureDetails) -> (r: JinjaVariable)
        ensures
            r@ == variable_of(value@),
    {
        JinjaVariable { name: copy_str(value.value.as_str()), start: value.start_position, end: value.end_position }
    }

    /// A copy of this variable.
    pub fn copy(&self) -> (r: JinjaVariable)
        ensures
            r@ == self@,
    {
        JinjaVariable { name: copy_str(self.name.as_str()), start: self.start, end: self.end }
    }
}

/// The problems the first form of the server reports.
#[derive(Debug, Clone, Copy, PartialEq, Eq, Structural)]
pub enum ClassicDiagnostic {
    AlreadyDefined,
    DefinedSomewhere,
    Undefined,
}

/// The message of each problem.
pub open spec fn classic_message(d: ClassicDiagnostic) -> Seq<char> {
    match d {
        ClassicDiagnostic::AlreadyDefined => "This variable is already defined"@,
        ClassicDiagnostic::Undefined => "Undefined variable"@,
        ClassicDiagnostic::DefinedSomewhere => "Variable is defined in other file."@,
    }
}

impl ClassicDiagnostic {
    /// The message of this problem.
    pub fn to_string(&self) -> (s: String)
        ensures
            s@ == classic_message(*self),
    {
        proof {
            reveal_strlit("This variable is already defined");
            reveal_strlit("Undefined variable");
            reveal_strlit("Variable is defined in other file.");
        }
        match self {
            ClassicDiagnostic::AlreadyDefined => copy_str("This variable is already defined"),
            ClassicDiagnostic::Undefined => copy_str("Undefined variable"),
            ClassicDiagnostic::DefinedSomewhere => copy_str("Variable is defined in other file."),
        }
    }
}

/// Some variable of the list is named `name`.
pub open spec fn named_in(vs: Seq<VariableV>, name: Seq<char>) -> bool {
    exists|i: int| 0 <= i < vs.len() && vs[i].name == name
}

/// Whether some variable of the list is named `name`.
pub fn ident_exist(name: &str, variables: &Vec<JinjaVariable>) -> (r: bool)
    ensures
        r == named_in(variables_view(variables@), name@),
{
    let ghost vs = variables_view(variables@);
    let mut i: usize = 0;
    while i < variables.len()
        invariant
            vs == variables_view(variables@),
            i <= variables@.len(),
            forall|j: int| 0 <= j < i ==> vs[j].name != name@,
        decreases variables.len() - i,
    {
        if str_eq(variables[i].name.as_str(), name) {
            assert(vs[i as int].name == name@);
            return true;
        }
        i = i + 1;
    }
    false
}

/// The variables named `name`, in order: all of them, or only the first
/// unless `same`.
pub open spec fn named(vs: Seq<VariableV>, name: Seq<char>, same: bool) -> Seq<VariableV>
    decreases vs.len(),
{
    if vs.len() == 0 {
        Seq::empty()
    } else {
        let rest = named(vs.drop_last(), name, same);
        if vs.last().name == name && (same || rest.len() == 0) {
            rest.push(vs.last())
        } else {
            rest
        }
    }
}

/// The variables named `name`: every one when `same`, else the first.
pub fn get_jinja_variables(name: &str, same: bool, variables: &Vec<JinjaVariable>) -> (r: Vec<JinjaVariable>)
    ensures
        variables_view(r@) == named(variables_view(variables@), name@, same),
{
    let ghost vs = variables_view(variables@);
    let mut r: Vec<JinjaVariable> = Vec::new();
    let mut i: usize = 0;
    proof {
        assert(variables_view(r@) =~= Seq::<VariableV>::empty());
    }
    while i < variables.len()
        invariant
            vs == variables_view(variables@),
            i <= variables@.len(),
            variables_view(r@) == named(vs.take(i as int), name@, same),
        decreases variables.len() - i,
    {
        proof {
            assert(vs.take(i + 1).drop_last() =~= vs.take(i as int));
        }
        if str_eq(variables[i].name.as_str(), name) && (same || r.len() == 0) {
            let ghost prev = r@;
            r.push(variables[i].copy());
            proof {
                assert(variables_view(r@) =~= variables_view(prev).push(vs[i as int]));
            }
        }
        i = i + 1;
    }
    proof {
        assert(vs.take(i as int) =~= vs);
    }
    r
}

/// The variables of a template from its sorted details: each name once, at
/// its first place; each later place of a name is already defined.
pub open spec fn template_fold(ds: Seq<DetailsV>) -> (Seq<VariableV>, Seq<(VariableV, ClassicDiagnostic)>)
    decreases ds.len(),
{
    if ds.len() == 0 {
        (Seq::empty(), Seq::empty())
    } else {
        let (vars, diags) = template_fold(ds.drop_last());
        let v = variable_of(ds.last());
        if !named_in(vars, v.name) {
            (vars.push(v), diags)
        } else {
            (vars, diags.push((v, ClassicDiagnostic::AlreadyDefined)))
        }
    }
}

/// The plain values of a list of problems.
pub open spec fn classic_diags_view(s: Seq<(JinjaVariable, ClassicDiagnostic)>) -> Seq<(VariableV, ClassicDiagnostic)> {
    s.map_values(|e: (JinjaVariable, ClassicDiagnostic)| (e.0@, e.1))
}

/// The variables of a template and its names defined twice, from the
/// details its definitions query collected, taken in their order.
pub fn template_variables(details: Vec<CaptureDetails>) -> (r: (Vec<JinjaVariable>, Vec<(JinjaVariable, ClassicDiagnostic)>))
    ensures
        exists|sorted: Seq<DetailsV>|
            sorted_details(sorted) && sorted.to_multiset() == details_view(details@).to_multiset() && #[trigger] template_fold(
                sorted,
            ) == (variables_view(r.0@), classic_diags_view(r.1@)),
{
    let sorted = sort_details(details);
    let ghost ds = details_view(sorted@);
    let mut vars: Vec<JinjaVariable> = Vec::new();
    let mut diags: Vec<(JinjaVariable, ClassicDiagnostic)> = Vec::new();
    let mut i: usize = 0;
    proof {
        assert(variables_view(vars@) =~= Seq::<VariableV>::empty());
        assert(classic_diags_view(diags@) =~= Seq::<(VariableV, ClassicDiagnostic)>::empty());
    }
    while i < sorted.len()
        invariant
            ds == details_view(sorted@),
            i <= sorted@.len(),
            template_fold(ds.take(i as int)) == (variables_view(vars@), classic_diags_view(diags@)),
        decreases sorted.len() - i,
    {
        proof {
            assert(ds.take(i + 1).drop_last() =~= ds.take(i as int));
        }
        let v = JinjaVariable::from_details(&sorted[i]);
        if !ident_exist(v.name.as_str(), &vars) {
            let ghost prev = vars@;
            vars.push(v);
            proof {
                assert(variables_view(vars@) =~= variables_view(prev).push(v@));
            }
        } else {
            let ghost prev = diags@;
            diags.push((v, ClassicDiagnostic::AlreadyDefined));
            proof {
                assert(classic_diags_view(diags@) =~= classic_diags_view(prev).push((v@, ClassicDiagnostic::AlreadyDefined)));
            }
        }
        i = i + 1;
    }
    proof {
        assert(ds.take(i as int) =~= ds);
    }
    (vars, diags)
}

/// The variable of each detail, in order.
pub open spec fn variables_of(ds: Seq<DetailsV>) -> Seq<VariableV> {
    ds.map_values(|d: DetailsV| variable_of(d))
}

/// The variables of backend code, from the details its query collected,
/// taken in their order.
pub fn backend_variables(details: Vec<CaptureDetails>) -> (r: Vec<JinjaVariable>)
    ensures
        exists|sorted: Seq<DetailsV>|
            sorted_details(sorted) && sorted.to_multiset() == details_view(details@).to_multiset() && variables_view(r@)
                == #[trigger] variables_of(sorted),
{
    let sorted = sort_details(details);
    let ghost ds = details_view(sorted@);
    let mut vars: Vec<JinjaVariable> = Vec::new();
    let mut i: usize = 0;
    while i < sorted.len()
        invariant
            ds == details_view(sorted@),
            i <= sorted@.len(),
            variables_view(vars@) == ds.take(i as int).map_values(|d: DetailsV| variable_of(d)),
        decreases sorted.len() - i,
    {
        let ghost prev = vars@;
        vars.push(JinjaVariable::from_details(&sorted[i]));
        proof {
            assert(variables_view(vars@) =~= variables_view(prev).push(variable_of(ds[i as int])));
            assert(ds.take(i + 1).map_values(|d: DetailsV| variable_of(d)) =~= ds.take(i as int).map_values(
                |d: DetailsV| variable_of(d),
            ).push(variable_of(ds[i as int])));
        }
        i = i + 1;
    }
    proof {
        assert(ds.take(i as int) =~= ds);
        assert(variables_view(vars@) == variables_of(ds));
    }
    vars
}

/// The variables of the first file numbered `i` among `files`, if any.
pub open spec fn file_vars(files: Seq<(usize, Seq<VariableV>)>, i: usize) -> Option<Seq<VariableV>>
    decreases files.len(),
{
    if files.len() == 0 {
        None
    } else {
        match file_vars(files.drop_last(), i) {
            Some(v) => Some(v),
            None => if files.last().0 == i {
                Some(files.last().1)
            } else {
                None
            },
        }
    }
}

/// The plain values of the variables of each file.
pub open spec fn files_view(s: Seq<(usize, Vec<JinjaVariable>)>) -> Seq<(usize, Seq<VariableV>)> {
    s.map_values(|e: (usize, Vec<JinjaVariable>)| (e.0, variables_view(e.1@)))
}

/// Each name paired with `label`, in order.
pub open spec fn labelled(label: Seq<char>, vs: Seq<VariableV>) -> Seq<(Seq<char>, Seq<char>)> {
    vs.map_values(|v: VariableV| (label, v.name))
}

/// The names of every file, file after file, each paired with `label`.
pub open spec fn labelled_all(label: Seq<char>, files: Seq<(usize, Seq<VariableV>)>) -> Seq<(Seq<char>, Seq<char>)>
    decreases files.len(),
{
    if files.len() == 0 {
        Seq::empty()
    } else {
        labelled_all(label, files.drop_last()) + labelled(label, files.last().1)
    }
}

fn push_labelled(r: &mut Vec<(String, String)>, label: &str, vs: &Vec<JinjaVariable>)
    ensures
        final(r)@.map_values(|e: (String, String)| (e.0@, e.1@)) == old(r)@.map_values(|e: (String, String)| (e.0@, e.1@))
            + labelled(label@, variables_view(vs@)),
{
    let ghost before = r@.map_values(|e: (String, String)| (e.0@, e.1@));
    let ghost want = labelled(label@, variables_view(vs@));
    let mut i: usize = 0;
    proof {
        assert(before + want.take(0) =~= before);
    }
    while i < vs.len()
        invariant
            i <= vs@.len(),
            want == labelled(label@, variables_view(vs@)),
            r@.map_values(|e: (String, String)| (e.0@, e.1@)) == before + want.take(i as int),
        decreases vs.len() - i,
    {
        let ghost prev = r@;
        r.push((copy_str(label), copy_str(vs[i].name.as_str())));
        proof {
            assert(r@.map_values(|e: (String, String)| (e.0@, e.1@)) =~= prev.map_values(|e: (String, String)| (e.0@, e.1@)).push(
                (label@, vs@[i as int].name@),
            ));
            assert(want.take(i + 1) =~= want.take(i as int).push(want[i as int]));
        }
        i = i + 1;
    }
    proof {
        assert(want.take(i as int) =~= want);
    }
}

fn find_file<'a>(variables: &'a Vec<(usize, Vec<JinjaVariable>)>, index: usize) -> (r: Option<&'a Vec<JinjaVariable>>)
    ensures
        match r {
            Some(v) => file_vars(files_view(variables@), index) == Some(variables_view(v@)),
            None => file_vars(files_view(variables@), index) is None,
        },
{
    let ghost fs = files_view(variables@);
    let mut i: usize = 0;
    while i < variables.len()
        invariant
            fs == files_view(variables@),
            i <= variables@.len(),
            file_vars(fs.take(i as int), index) is None,
        decreases variables.len() - i,
    {
        proof {
            assert(fs.take(i + 1).drop_last() =~= fs.take(i as int));
        }
        if variables[i].0 == index {
            proof {
                lemma_file_vars_prefix(fs, index, i as int + 1);
            }
            return Some(&variables[i].1);
        }
        i = i + 1;
    }
    proof {
        assert(fs.take(i as int) =~= fs);
    }
    None
}

proof fn lemma_file_vars_prefix(fs: Seq<(usize, Seq<VariableV>)>, index: usize, k: int)
    requires
        0 < k <= fs.len(),
        file_vars(fs.take(k - 1), index) is None,
        fs[k - 1].0 == index,
    ensures
        file_vars(fs, index) == Some(fs[k - 1].1),
    decreases fs.len() - k,
{
    assert(fs.take(k).drop_last() =~= fs.take(k - 1));
    if k < fs.len() {
        assert(fs.take(k + 1).drop_last() =~= fs.take(k));
        lemma_file_vars_prefix_keeps(fs, index, k + 1);
    } else {
        assert(fs.take(k) =~= fs);
    }
}

proof fn lemma_file_vars_prefix_keeps(fs: Seq<(usize, Seq<VariableV>)>, index: usize, k: int)
    requires
        0 < k <= fs.len(),
        file_vars(fs.take(k - 1), index) is None ==> file_vars(fs.take(k), index) is Some,
        file_vars(fs.take(k - 1), index) is Some || file_vars(fs.take(k), index) is Some,
    ensures
        file_vars(fs, index) == file_vars(fs.take(k), index),
    decreases fs.len() - k,
{
    assert(fs.take(k).drop_last() =~= fs.take(k - 1));
    if k < fs.len() {
        assert(fs.take(k + 1).drop_last() =~= fs.take(k));
        lemma_file_vars_prefix_keeps(fs, index, k + 1);
    } else {
        assert(fs.take(k) =~= fs);
    }
}

/// Every name the server knows, for completion in the file at `current`:
/// the names of that file as "this file", then the names of every file (in
/// the order given) as "other file".  None where the file has no number, no
/// variables, or an empty list of them.
pub fn get_all_variables(indexes: &FileIndexes, variables: &Vec<(usize, Vec<JinjaVariable>)>, current: &str) -> (r: Option<
    Vec<(String, String)>,
>)
    ensures
        match r {
            Some(v) => {
                &&& indexes@.numbers.contains_key(current@)
                &&& file_vars(files_view(variables@), indexes@.numbers[current@]) matches Some(this)
                &&& this.len() > 0
                &&& v@.map_values(|e: (String, String)| (e.0@, e.1@)) == labelled("this file"@, this) + labelled_all(
                    "other file"@,
                    files_view(variables@),
                )
            },
            None => indexes@.numbers.contains_key(current@) ==> match file_vars(
                files_view(variables@),
                indexes@.numbers[current@],
            ) {
                Some(this) => this.len() == 0,
                None => true,
            },
        },
{
    proof {
        reveal_strlit("this file");
        reveal_strlit("other file");
    }
    let index = indexes.get_index(current)?;
    let this = find_file(variables, index)?;
    if this.len() == 0 {
        return None;
    }
    let mut all: Vec<(String, String)> = Vec::new();
    proof {
        assert(all@.map_values(|e: (String, String)| (e.0@, e.1@)) =~= Seq::<(Seq<char>, Seq<char>)>::empty());
    }
    push_labelled(&mut all, "this file", this);
    let ghost fs = files_view(variables@);
    let ghost head = labelled("this file"@, variables_view(this@));
    proof {
        assert(Seq::<(Seq<char>, Seq<char>)>::empty() + head =~= head);
        assert(head + labelled_all("other file"@, fs.take(0)) =~= head);
    }
    let mut i: usize = 0;
    while i < variables.len()
        invariant
            fs == files_view(variables@),
            i <= variables@.len(),
            all@.map_values(|e: (String, String)| (e.0@, e.1@)) == head + labelled_all("other file"@, fs.take(i as int)),
        decreases variables.len() - i,
    {
        push_labelled(&mut all, "other file", &variables[i].1);
        proof {
            assert(fs.take(i + 1).drop_last() =~= fs.take(i as int));
            assert(fs.take(i + 1).last() == (variables@[i as int].0, variables_view(variables@[i as int].1@)));
        }
        i = i + 1;
    }
    proof {
        assert(fs.take(i as int) =~= fs);
    }
    Some(all)
}

/// The variables named `name` in each file, by the file's address, file
/// after file; a file where none is named still gets its entry.  None where
/// no file has the name, or where a file's number has no address.
pub open spec fn named_by_file(
    entries: Map<Seq<char>, usize>,
    files: Seq<(usize, Seq<VariableV>)>,
    name: Seq<char>,
) -> Option<Seq<(Seq<char>, Seq<VariableV>)>>
    decreases files.len(),
{
    if files.len() == 0 {
        Some(Seq::empty())
    } else {
        match named_by_file(entries, files.drop_last(), name) {
            None => None,
            Some(rest) => match uri_of(entries, files.last().0) {
                Some(u) => Some(rest.push((u, named(files.last().1, name, true)))),
                None => None,
            },
        }
    }
}

/// Some file has a variable named `name`.
pub open spec fn name_somewhere(files: Seq<(usize, Seq<VariableV>)>, name: Seq<char>) -> bool {
    exists|i: int| 0 <= i < files.len() && named(#[trigger] files[i].1, name, true).len() > 0
}

/// The plain values of the result of `jinja_variables_in`.
pub open spec fn by_file_view(s: Seq<(String, Vec<JinjaVariable>)>) -> Seq<(Seq<char>, Seq<VariableV>)> {
    s.map_values(|e: (String, Vec<JinjaVariable>)| (e.0@, variables_view(e.1@)))
}

/// The variables named `name` in each file, by the file's address, when
/// some file has one.
pub fn jinja_variables_in(indexes: &FileIndexes, variables: &Vec<(usize, Vec<JinjaVariable>)>, name: &str) -> (r: Option<
    Vec<(String, Vec<JinjaVariable>)>,
>)
    requires
        indexes.wf(),
    ensures
        match r {
            Some(v) => name_somewhere(files_view(variables@), name@) && named_by_file(
                indexes@.numbers,
                files_view(variables@),
                name@,
            ) == Some(by_file_view(v@)),
            None => !name_somewhere(files_view(variables@), name@) || named_by_file(
                indexes@.numbers,
                files_view(variables@),
                name@,
            ) is None,
        },
{
    let ghost fs = files_view(variables@);
    let ghost es = indexes@.numbers;
    let mut all: Vec<(String, Vec<JinjaVariable>)> = Vec::new();
    let mut added = false;
    let mut i: usize = 0;
    proof {
        assert(by_file_view(all@) =~= Seq::<(Seq<char>, Seq<VariableV>)>::empty());
    }
    while i < variables.len()
        invariant
            fs == files_view(variables@),
            es == indexes@.numbers,
            indexes.wf(),
            i <= variables@.len(),
            named_by_file(es, fs.take(i as int), name@) == Some(by_file_view(all@)),
            added == name_somewhere(fs.take(i as int), name@),
        decreases variables.len() - i,
    {
        proof {
            assert(fs.take(i + 1).drop_last() =~= fs.take(i as int));
            assert(fs.take(i + 1).last() == fs[i as int]);
            assert(fs[i as int] == (variables@[i as int].0, variables_view(variables@[i as int].1@)));
        }
        let found = get_jinja_variables(name, true, &variables[i].1);
        if found.len() > 0 {
            added = true;
        }
        proof {
            let t = fs.take(i + 1);
            if name_somewhere(t, name@) && !name_somewhere(fs.take(i as int), name@) {
                let w = choose|w: int| 0 <= w < t.len() && named(#[trigger] t[w].1, name@, true).len() > 0;
                if w < i {
                    assert(t[w] == fs.take(i as int)[w]);
                }
            }
            if name_somewhere(fs.take(i as int), name@) {
                let w = choose|w: int| 0 <= w < i && named(#[trigger] fs.take(i as int)[w].1, name@, true).len() > 0;
                assert(t[w] == fs.take(i as int)[w]);
            }
            if found.len() > 0 {
                assert(named(t[i as int].1, name@, true).len() > 0);
            }
        }
        let uri = match indexes.get_uri(variables[i].0) {
            Some(u) => u,
            None => {
                proof {
                    lemma_named_by_file_none(es, fs, name@, i as int + 1);
                }
                return None;
            },
        };
        let ghost prev = all@;
        all.push((uri, found));
        proof {
            assert(by_file_view(all@) =~= by_file_view(prev).push((uri@, named(fs[i as int].1, name@, true))));
        }
        i = i + 1;
    }
    proof {
        assert(fs.take(i as int) =~= fs);
    }
    if added {
        Some(all)
    } else {
        None
    }
}

/// Once a file's number has no address, there is no result.
proof fn lemma_named_by_file_none(
    es: Map<Seq<char>, usize>,
    fs: Seq<(usize, Seq<VariableV>)>,
    name: Seq<char>,
    k: int,
)
    requires
        0 <= k <= fs.len(),
        named_by_file(es, fs.take(k), name) is None,
    ensures
        named_by_file(es, fs, name) is None,
    decreases fs.len() - k,
{
    if k < fs.len() {
        assert(fs.take(k + 1).drop_last() =~= fs.take(k));
        lemma_named_by_file_none(es, fs, name, k + 1);
    } else {
        assert(fs.take(k) =~= fs);
    }
}

/// What a map from document numbers to variables holds, each list by its
/// variables' plain values.
pub uninterp spec fn variables_held(m: dashmap::DashMap<usize, Vec<JinjaVariable>>) -> Map<usize, Seq<VariableV>>;

/// Calls `DashMap::new`: an empty map.
#[verifier::external_body]
fn variables_new() -> (m: dashmap::DashMap<usize, Vec<JinjaVariable>>)
    ensures
        variables_held(m) =~= Map::empty(),
{
    dashmap::DashMap::new()
}

/// Calls `DashMap::insert`: `key` holds `value` afterwards, and every other
/// key keeps what it held.  The list it held before is dropped.
#[verifier::external_body]
fn variables_insert(m: &mut dashmap::DashMap<usize, Vec<JinjaVariable>>, key: usize, value: Vec<JinjaVariable>)
    ensures
        variables_held(*final(m)) == variables_held(*old(m)).insert(key, variables_view(value@)),
{
    m.insert(key, value);
}

/// Calls `DashMap::remove`: `key` holds nothing afterwards, and every other
/// key keeps what it held.  The list removed is dropped.
#[verifier::external_body]
fn variables_remove(m: &mut dashmap::DashMap<usize, Vec<JinjaVariable>>, key: usize)
    ensures
        variables_held(*final(m)) == variables_held(*old(m)).remove(key),
{
    m.remove(&key);
}

/// Calls `DashMap::iter` and copies each entry (the list by its derived
/// `Clone`), in the order the map is walked, which the map decides: each
/// key it holds comes once, with its list.
#[verifier::external_body]
fn variables_entries(m: &dashmap::DashMap<usize, Vec<JinjaVariable>>) -> (r: Vec<(usize, Vec<JinjaVariable>)>)
    ensures
        lists_files(files_view(r@), variables_held(*m)),
{
    m.iter().map(|e| (*e.key(), e.value().clone())).collect()
}

/// `fs` lists every entry of `m` once: each key with the list it holds.
pub open spec fn lists_files(fs: Seq<(usize, Seq<VariableV>)>, m: Map<usize, Seq<VariableV>>) -> bool {
    &&& forall|i: int| 0 <= i < fs.len() ==> m.contains_key((#[trigger] fs[i]).0) && m[fs[i].0] == fs[i].1
    &&& forall|k: usize| #[trigger] m.contains_key(k) ==> exists|i: int| 0 <= i < fs.len() && fs[i].0 == k
    &&& forall|i: int, j: int| 0 <= i < j < fs.len() ==> (#[trigger] fs[i]).0 != (#[trigger] fs[j]).0
}

/// The variables of the first form of the server, by document number.
#[derive(Debug)]
pub struct FileVariables {
    variables: dashmap::DashMap<usize, Vec<JinjaVariable>>,
}

impl View for FileVariables {
    type V = Map<usize, Seq<VariableV>>;

    closed spec fn view(&self) -> Map<usize, Seq<VariableV>> {
        variables_held(self.variables)
    }
}

impl FileVariables {
    /// No variables yet.
    pub fn new() -> (r: FileVariables)
        ensures
            r@ == Map::<usize, Seq<VariableV>>::empty(),
    {
        FileVariables { variables: variables_new() }
    }

    /// Forgets the variables of document `index`.
    pub fn delete_variables(&mut self, index: usize)
        ensures
            final(self)@ == old(self)@.remove(index),
    {
        variables_remove(&mut self.variables, index);
    }

    /// Keeps `variables` as those of document `index`.
    pub fn set_variables(&mut self, index: usize, variables: Vec<JinjaVariable>)
        ensures
            final(self)@ == old(self)@.insert(index, variables_view(variables@)),
    {
        variables_insert(&mut self.variables, index, variables);
    }

    /// Every name the server knows, for completion in the file at
    /// `current`, as `get_all_variables` gives it for the files in the order
    /// the map is walked.
    pub fn get_all_variables(&self, indexes: &FileIndexes, current: &str) -> (r: Option<Vec<(String, String)>>)
        ensures
            exists|fs: Seq<(usize, Seq<VariableV>)>| #[trigger] lists_files(fs, self@) && match r {
                Some(v) => {
                    &&& indexes@.numbers.contains_key(current@)
                    &&& file_vars(fs, indexes@.numbers[current@]) matches Some(this)
                    &&& this.len() > 0
                    &&& v@.map_values(|e: (String, String)| (e.0@, e.1@)) == labelled("this file"@, this) + labelled_all(
                        "other file"@,
                        fs,
                    )
                },
                None => indexes@.numbers.contains_key(current@) ==> match file_vars(fs, indexes@.numbers[current@]) {
                    Some(this) => this.len() == 0,
                    None => true,
                },
            },
    {
        let entries = variables_entries(&self.variables);
        let r = get_all_variables(indexes, &entries, current);
        assert(lists_files(files_view(entries@), self@));
        r
    }

    /// The variables named `name` in each file, by the file's address, as
    /// `jinja_variables_in` gives them for the files in the order the map
    /// is walked.
    pub fn get_jinja_variables(&self, indexes: &FileIndexes, name: &str) -> (r: Option<Vec<(String, Vec<JinjaVariable>)>>)
        requires
            indexes.wf(),
        ensures
            exists|fs: Seq<(usize, Seq<VariableV>)>| #[trigger] lists_files(fs, self@) && match r {
                Some(v) => name_somewhere(fs, name@) && named_by_file(indexes@.numbers, fs, name@) == Some(by_file_view(v@)),
                None => !name_somewhere(fs, name@) || named_by_file(indexes@.numbers, fs, name@) is None,
            },
    {
        let entries = variables_entries(&self.variables);
        let r = jinja_variables_in(indexes, &entries, name);
        assert(lists_files(files_view(entries@), self@));
        r
    }
}

} // verus!
