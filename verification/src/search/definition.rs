use vstd::prelude::*;

use crate::assoc::{amap, distinct_keys, find_key, has_key, lemma_amap_dom, lemma_amap_index, lemma_amap_push_fresh, lemma_amap_same_keys, lemma_amap_update};
use crate::point::{p_le, Point};
use crate::search::order::{idents_view, sort_identifiers, sorted_idents};
use crate::search::{new_ident, IdentV, Identifier, IdentifierType};
use crate::syntax::{all_texts, capture_count, capture_names, match_view, names_within, matches_view, query_matches, root_end, texts_readable, total_captures, Capture, CaptureV, ParentInfo};
use crate::text::{copy_str, ends_with, seq_ends_with, str_eq};

verus! {

/// A block of a template that opens a scope: `for`, `with`, `macro`, `if`,
/// a `set` block and so on.
#[derive(Debug)]
pub struct Scope {
    pub id: usize,
    pub keyword: String,
    pub start: Point,
    pub end: Point,
}

pub struct ScopeV {
    pub id: usize,
    pub keyword: Seq<char>,
    pub start: Point,
    pub end: Point,
}

impl View for Scope {
    type V = ScopeV;

    open spec fn view(&self) -> ScopeV {
        ScopeV { id: self.id, keyword: self.keyword@, start: self.start, end: self.end }
    }
}

impl Scope {
    /// A scope that ends at `end`, with no keyword.
    pub fn new(end: Point) -> (s: Scope)
        ensures
            s@ == (ScopeV { id: 0, keyword: Seq::empty(), start: Point { row: 0, column: 0 }, end }),
    {
        Scope { start: Point::zero(), end, keyword: String::new(), id: 0 }
    }
}

/// A block that is closed or continued wrongly.
#[derive(Debug)]
pub enum ScopeError {
    /// A block closed by the end keyword of another kind of block.
    WrongEndScopeKeyword(Scope),
    /// `elif` outside an `if` block.
    ElifStatement(Scope),
    /// `else` outside an `if` or `elif` block.
    ElseStatement(Scope),
}

pub enum ScopeErrorV {
    WrongEndScopeKeyword(ScopeV),
    ElifStatement(ScopeV),
    ElseStatement(ScopeV),
}

impl View for ScopeError {
    type V = ScopeErrorV;

    open spec fn view(&self) -> ScopeErrorV {
        match self {
            ScopeError::WrongEndScopeKeyword(s) => ScopeErrorV::WrongEndScopeKeyword(s@),
            ScopeError::ElifStatement(s) => ScopeErrorV::ElifStatement(s@),
            ScopeError::ElseStatement(s) => ScopeErrorV::ElseStatement(s@),
        }
    }
}

/// The scope that an error is about.
pub open spec fn error_scope(e: ScopeErrorV) -> ScopeV {
    match e {
        ScopeErrorV::WrongEndScopeKeyword(s) => s,
        ScopeErrorV::ElifStatement(s) => s,
        ScopeErrorV::ElseStatement(s) => s,
    }
}

impl ScopeError {
    /// The location of the error, as an identifier that spans the keyword.
    pub fn diagnostic_location(&self) -> (r: Identifier)
        ensures
            r@ == (IdentV { start: error_scope(self@).start, end: error_scope(self@).end, ..new_ident(Seq::empty(), Point { row: 0, column: 0 }, Point { row: 0, column: 0 }) }),
    {
        let s = match self {
            ScopeError::WrongEndScopeKeyword(scope) => scope,
            ScopeError::ElifStatement(scope) => scope,
            ScopeError::ElseStatement(scope) => scope,
        };
        proof {
            reveal_strlit("");
            assert(""@ =~= Seq::<char>::empty());
        }
        let mut identifier = Identifier::new("", Point::zero(), Point::zero());
        identifier.start = s.start;
        identifier.end = s.end;
        identifier
    }
}

/// The definitions of one scope, by the identity of the node that defines them.
pub open spec fn table_view(t: Seq<(usize, Identifier)>) -> Map<usize, IdentV> {
    amap(t).map_values(|i: Identifier| i@)
}

/// The definitions of all scopes, by scope.
pub open spec fn tables_view(t: Seq<(usize, Vec<(usize, Identifier)>)>) -> Map<usize, Map<usize, IdentV>> {
    amap(t).map_values(|v: Vec<(usize, Identifier)>| table_view(v@))
}

/// The state of a walk over the captures of the definitions query.
#[derive(Debug)]
pub struct JinjaDefinitions {
    /// The open scopes; the innermost one is last.
    pub current_scope: Vec<Scope>,
    /// The definitions of each scope, by scope and then by node.
    pub definitions: Vec<(usize, Vec<(usize, Identifier)>)>,
    /// The statement nodes already handled.
    pub statements: std::collections::HashSet<usize>,
    pub errors: Vec<ScopeError>,
    pub scope_id: usize,
    pub last_keyword: String,
    pub keyword_location: (Point, Point),
    pub last_point: Point,
}

/// The walk's state as plain values.
pub struct DefsV {
    pub current_scope: Seq<ScopeV>,
    pub definitions: Map<usize, Map<usize, IdentV>>,
    pub statements: Set<usize>,
    pub errors: Seq<ScopeErrorV>,
    pub scope_id: usize,
    pub last_keyword: Seq<char>,
    pub keyword_location: (Point, Point),
    pub last_point: Point,
}

impl View for JinjaDefinitions {
    type V = DefsV;

    open spec fn view(&self) -> DefsV {
        DefsV {
            current_scope: self.current_scope@.map_values(|s: Scope| s@),
            definitions: tables_view(self.definitions@),
            statements: self.statements@,
            errors: self.errors@.map_values(|e: ScopeError| e@),
            scope_id: self.scope_id,
            last_keyword: self.last_keyword@,
            keyword_location: self.keyword_location,
            last_point: self.last_point,
        }
    }
}

/// The lists that hold the definitions have each key once, and no open
/// scope has an id beyond the scope counter.
pub open spec fn defs_wf(d: &JinjaDefinitions) -> bool {
    &&& distinct_keys(d.definitions@)
    &&& forall|i: int| 0 <= i < d.definitions@.len() ==> distinct_keys(#[trigger] d.definitions@[i].1@)
    &&& forall|i: int| 0 <= i < d@.current_scope.len() ==> (#[trigger] d@.current_scope[i]).id <= d@.scope_id
}

/// The kinds of captures that the definitions query yields.
#[derive(Clone, Copy, PartialEq, Eq, Structural, Debug)]
pub enum DefCapture {
    Error,
    MacroName,
    MacroParameter,
    SetVariable,
    WithDefinition,
    WithVariable,
    ForStatement,
    ForKey,
    ForValue,
    Keyword,
    StatementStart,
    StatementEnd,
    BlockVariable,
    Other,
}

/// The kind of a capture, by its name.
pub open spec fn def_kind(name: Seq<char>) -> DefCapture {
    if name == "error"@ {
        DefCapture::Error
    } else if name == "macro_name"@ {
        DefCapture::MacroName
    } else if name == "macro_parameter"@ {
        DefCapture::MacroParameter
    } else if name == "set_variable"@ {
        DefCapture::SetVariable
    } else if name == "with_definition"@ {
        DefCapture::WithDefinition
    } else if name == "with_variable"@ {
        DefCapture::WithVariable
    } else if name == "for_statement"@ {
        DefCapture::ForStatement
    } else if name == "for_key"@ {
        DefCapture::ForKey
    } else if name == "for_value"@ {
        DefCapture::ForValue
    } else if name == "keyword"@ {
        DefCapture::Keyword
    } else if name == "statement_start"@ {
        DefCapture::StatementStart
    } else if name == "statement_end"@ {
        DefCapture::StatementEnd
    } else if name == "block_variable"@ {
        DefCapture::BlockVariable
    } else {
        DefCapture::Other
    }
}

/// Tells the kind of a capture by its name.
pub fn classify(name: &str) -> (k: DefCapture)
    ensures
        k == def_kind(name@),
{
    proof {
        reveal_strlit("error");
        reveal_strlit("macro_name");
        reveal_strlit("macro_parameter");
        reveal_strlit("set_variable");
        reveal_strlit("with_definition");
        reveal_strlit("with_variable");
        reveal_strlit("for_statement");
        reveal_strlit("for_key");
        reveal_strlit("for_value");
        reveal_strlit("keyword");
        reveal_strlit("statement_start");
        reveal_strlit("statement_end");
        reveal_strlit("block_variable");
    }
    if str_eq(name, "error") {
        DefCapture::Error
    } else if str_eq(name, "macro_name") {
        DefCapture::MacroName
    } else if str_eq(name, "macro_parameter") {
        DefCapture::MacroParameter
    } else if str_eq(name, "set_variable") {
        DefCapture::SetVariable
    } else if str_eq(name, "with_definition") {
        DefCapture::WithDefinition
    } else if str_eq(name, "with_variable") {
        DefCapture::WithVariable
    } else if str_eq(name, "for_statement") {
        DefCapture::ForStatement
    } else if str_eq(name, "for_key") {
        DefCapture::ForKey
    } else if str_eq(name, "for_value") {
        DefCapture::ForValue
    } else if str_eq(name, "keyword") {
        DefCapture::Keyword
    } else if str_eq(name, "statement_start") {
        DefCapture::StatementStart
    } else if str_eq(name, "statement_end") {
        DefCapture::StatementEnd
    } else if str_eq(name, "block_variable") {
        DefCapture::BlockVariable
    } else {
        DefCapture::Other
    }
}

/// A new definition of kind `t` named by the capture, in scope `scope`.
pub open spec fn defined(c: CaptureV, t: IdentifierType, scope: usize, scope_end: Point) -> IdentV {
    IdentV {
        identifier_type: t,
        scope_ends: (scope, scope_end),
        ..new_ident(c.text.unwrap(), c.start, c.end)
    }
}

/// The state after a scope opens at `start` with `keyword`; nothing changes
/// when `start` is the point where the last scope opened.
pub open spec fn opened(d: DefsV, keyword: Seq<char>, start: Point) -> DefsV {
    if d.last_point == start {
        d
    } else {
        let id = (d.scope_id + 1) as usize;
        DefsV {
            scope_id: id,
            current_scope: d.current_scope.push(ScopeV { id, keyword, start, end: start }),
            definitions: d.definitions.insert(id, Map::empty()),
            ..d
        }
    }
}

/// The state with `ident` recorded under node `node` in scope `scope`.
pub open spec fn with_definition(d: DefsV, scope: usize, node: usize, ident: IdentV) -> DefsV {
    DefsV { definitions: d.definitions.insert(scope, d.definitions[scope].insert(node, ident)), ..d }
}

/// The definitions of a table, each with its scope ending at `end`.
pub open spec fn closed_table(t: Map<usize, IdentV>, end: Point) -> Map<usize, IdentV> {
    t.map_values(|i: IdentV| IdentV { scope_ends: (i.scope_ends.0, end), ..i })
}

/// The state with every definition of scope `scope` ending at `end`.
pub open spec fn with_closed(d: DefsV, scope: usize, end: Point) -> DefsV {
    DefsV { definitions: d.definitions.insert(scope, closed_table(d.definitions[scope], end)), ..d }
}

/// The state with `node` marked as handled.
pub open spec fn marked(d: DefsV, node: usize) -> DefsV {
    DefsV { statements: d.statements.insert(node), ..d }
}

/// A definition in the innermost scope: `macro_parameter`, `with_variable`,
/// `for_key` and `for_value`.
pub open spec fn plain_definition(d: DefsV, c: CaptureV, t: IdentifierType, scope_end: Point) -> (DefsV, Option<bool>) {
    if d.current_scope.len() == 0 {
        (d, None)
    } else {
        let s = d.current_scope.last();
        if !d.definitions.dom().contains(s.id) {
            (d, None)
        } else if d.definitions[s.id].dom().contains(c.id) {
            (d, Some(true))
        } else {
            (with_definition(d, s.id, c.id, defined(c, t, s.id, scope_end)), Some(true))
        }
    }
}

/// The point where nothing has been seen yet.
pub open spec fn origin() -> Point {
    Point { row: 0, column: 0 }
}

/// One step of the walk: how a capture changes the state, and whether the
/// walk goes on with the rest of the match (`None` stops it).
pub open spec fn step(d: DefsV, c: CaptureV) -> (DefsV, Option<bool>) {
    match def_kind(c.name) {
        DefCapture::Error => (d, None),
        DefCapture::MacroName => {
            if d.statements.contains(c.id) {
                (d, Some(true))
            } else if d.current_scope.len() == 0 {
                (d, None)
            } else {
                let s = d.current_scope.last();
                let d1 = marked(d, c.id);
                if !d1.definitions.dom().contains(s.id) {
                    (d1, None)
                } else if d1.definitions[s.id].dom().contains(c.id) {
                    (d1, Some(true))
                } else {
                    let d2 = with_definition(d1, s.id, c.id, defined(c, IdentifierType::MacroName, s.id, c.end));
                    (opened(d2, "macro"@, c.end), Some(true))
                }
            }
        },
        DefCapture::MacroParameter => plain_definition(d, c, IdentifierType::MacroParameter, c.end),
        DefCapture::SetVariable => {
            if d.statements.contains(c.id) {
                (d, Some(true))
            } else if d.current_scope.len() == 0 {
                (d, None)
            } else {
                let s = d.current_scope.last();
                if !d.definitions.dom().contains(s.id) {
                    (d, None)
                } else if d.definitions[s.id].dom().contains(c.id) {
                    (d, Some(true))
                } else {
                    let d1 = with_definition(d, s.id, c.id, defined(c, IdentifierType::SetVariable, s.id, origin()));
                    match c.parent {
                        None => (d1, None),
                        Some(p) => if p.child_count == 4 {
                            match p.last_child_end {
                                None => (d1, None),
                                Some(e) => (opened(d1, "set"@, e), Some(true)),
                            }
                        } else {
                            (d1, Some(true))
                        },
                    }
                }
            }
        },
        DefCapture::WithDefinition => {
            if d.statements.contains(c.id) {
                (d, Some(true))
            } else {
                (opened(marked(d, c.id), "with"@, c.end), Some(true))
            }
        },
        DefCapture::WithVariable => plain_definition(d, c, IdentifierType::WithVariable, origin()),
        DefCapture::ForStatement => {
            if d.statements.contains(c.id) {
                (d, Some(true))
            } else {
                (opened(marked(d, c.id), "for"@, c.end), Some(true))
            }
        },
        DefCapture::ForKey => plain_definition(d, c, IdentifierType::ForLoopKey, origin()),
        DefCapture::ForValue => plain_definition(d, c, IdentifierType::ForLoopValue, origin()),
        DefCapture::Keyword => (
            DefsV { last_keyword: c.text.unwrap(), keyword_location: (c.start, c.end), ..d },
            Some(true),
        ),
        DefCapture::StatementStart => {
            if d.statements.contains(c.id) {
                (d, Some(true))
            } else {
                let d1 = marked(d, c.id);
                let kw = d1.last_keyword;
                if kw == "elif"@ || kw == "else"@ {
                    let continues = d1.current_scope.len() > 0 && (d1.current_scope.last().keyword == "elif"@
                        || d1.current_scope.last().keyword == "if"@);
                    if !continues {
                        let s = ScopeV { id: 0, keyword: kw, start: d1.keyword_location.0, end: d1.keyword_location.1 };
                        let e = if kw == "elif"@ {
                            ScopeErrorV::ElifStatement(s)
                        } else {
                            ScopeErrorV::ElseStatement(s)
                        };
                        (opened(DefsV { errors: d1.errors.push(e), ..d1 }, kw, c.end), Some(true))
                    } else {
                        let s = d1.current_scope.last();
                        let d2 = DefsV { current_scope: d1.current_scope.drop_last(), ..d1 };
                        if !d2.definitions.dom().contains(s.id) {
                            (d2, None)
                        } else {
                            (opened(with_closed(d2, s.id, c.start), kw, c.end), Some(true))
                        }
                    }
                } else {
                    (opened(d1, kw, c.end), Some(true))
                }
            }
        },
        DefCapture::StatementEnd => {
            if d.statements.contains(c.id) {
                (d, Some(true))
            } else {
                let d1 = marked(d, c.id);
                if d1.current_scope.len() == 0 {
                    (d1, None)
                } else {
                    let s = d1.current_scope.last();
                    let kw = d1.last_keyword;
                    let d2 = DefsV { current_scope: d1.current_scope.drop_last(), ..d1 };
                    let wrong = !seq_ends_with(kw, s.keyword) && (kw == "endif"@ ==> !(s.keyword == "if"@
                        || s.keyword == "elif"@ || s.keyword == "else"@));
                    let d3 = if wrong {
                        DefsV {
                            errors: d2.errors.push(ScopeErrorV::WrongEndScopeKeyword(
                                ScopeV { id: s.id, keyword: s.keyword, start: d2.keyword_location.0, end: d2.keyword_location.1 },
                            )),
                            ..d2
                        }
                    } else {
                        d2
                    };
                    if !d3.definitions.dom().contains(s.id) {
                        (d3, None)
                    } else {
                        (with_closed(d3, s.id, c.start), Some(true))
                    }
                }
            }
        },
        DefCapture::BlockVariable => {
            if d.current_scope.len() == 0 {
                (d, None)
            } else {
                let s = d.current_scope.last();
                if !d.definitions.dom().contains(s.id) {
                    (d, None)
                } else {
                    let ident = IdentV { identifier_type: IdentifierType::TemplateBlock, ..new_ident(c.text.unwrap(), c.start, c.end) };
                    (with_definition(d, s.id, c.id, ident), Some(true))
                }
            }
        },
        DefCapture::Other => (d, Some(true)),
    }
}

/// The step on `c` opens a new scope, and so raises the scope counter.  Which
/// way a step goes does not depend on the counter, so it is read off a step
/// from the counter at zero.
pub open spec fn opens_scope(d: DefsV, c: CaptureV) -> bool {
    step(DefsV { scope_id: 0, ..d }, c).0.scope_id != 0
}

/// A capture seen twice is counted once: after a step on a capture that
/// lets the walk go on, the same capture again lets it go on too, opens no
/// scope (so the scope counter puts no bound on it), and leaves the open
/// scopes, the definitions, the handled nodes and the errors as they were.  A `set` variable is the exception: its first step may open a
/// scope of its own, in which the second step defines it again.
pub proof fn lemma_step_repeat(d: DefsV, c: CaptureV)
    requires
        step(d, c).1 == Some(true),
        c.name != "set_variable"@,
    ensures
        step(step(d, c).0, c).1 == Some(true),
        step(step(d, c).0, c).0.current_scope == step(d, c).0.current_scope,
        step(step(d, c).0, c).0.definitions == step(d, c).0.definitions,
        step(step(d, c).0, c).0.statements == step(d, c).0.statements,
        step(step(d, c).0, c).0.errors == step(d, c).0.errors,
        !opens_scope(step(d, c).0, c),
{
    let d1 = step(d, c).0;
    match def_kind(c.name) {
        DefCapture::BlockVariable => {
            let s = d.current_scope.last();
            let ident = IdentV { identifier_type: IdentifierType::TemplateBlock, ..new_ident(c.text.unwrap(), c.start, c.end) };
            assert(d1 == with_definition(d, s.id, c.id, ident));
            assert(d1.current_scope.last() == s);
            assert(d1.definitions.dom().contains(s.id));
            assert(d1.definitions[s.id].insert(c.id, ident) =~= d1.definitions[s.id]);
            assert(d1.definitions.insert(s.id, d1.definitions[s.id].insert(c.id, ident)) =~= d1.definitions);
        },
        _ => {},
    }
}

} // verus!

verus! {

impl JinjaDefinitions {
    /// An empty walk state: no scopes, no definitions, no errors.
    pub fn empty() -> (d: JinjaDefinitions)
        ensures
            defs_wf(&d),
            d.current_scope@.len() == 0,
            d.definitions@.len() == 0,
            d.statements@ == Set::<usize>::empty(),
            d.errors@.len() == 0,
            d.scope_id == 0,
            d.last_keyword@.len() == 0,
            d.last_point == (Point { row: 0, column: 0 }),
            d.keyword_location == (Point { row: 0, column: 0 }, Point { row: 0, column: 0 }),
    {
        JinjaDefinitions {
            current_scope: Vec::new(),
            definitions: Vec::new(),
            statements: std::collections::HashSet::new(),
            errors: Vec::new(),
            scope_id: 0,
            last_keyword: String::new(),
            keyword_location: (Point::zero(), Point::zero()),
            last_point: Point::zero(),
        }
    }

    /// Whether `node` has been handled already.
    pub fn has_statement(&self, node: usize) -> (b: bool)
        ensures
            b == self@.statements.contains(node),
    {
        broadcast use vstd::std_specs::hash::group_hash_axioms;
        self.statements.contains(&node)
    }

    /// Marks `node` as handled.
    pub fn mark(&mut self, node: usize)
        ensures
            final(self)@ == marked(old(self)@, node),
            final(self).definitions == old(self).definitions,
            final(self).scope_id == old(self).scope_id,
    {
        broadcast use vstd::std_specs::hash::group_hash_axioms;
        self.statements.insert(node);
        assert(self@.current_scope =~= old(self)@.current_scope);
        assert(self@.errors =~= old(self)@.errors);
    }

    /// The position of the table of scope `scope`.
    pub fn table_of(&self, scope: usize) -> (r: Option<usize>)
        requires
            defs_wf(self),
        ensures
            match r {
                Some(i) => {
                    &&& i < self.definitions@.len()
                    &&& self.definitions@[i as int].0 == scope
                    &&& self@.definitions.dom().contains(scope)
                    &&& self@.definitions[scope] == table_view(self.definitions@[i as int].1@)
                },
                None => !self@.definitions.dom().contains(scope),
            },
    {
        let r = find_key(&self.definitions, scope);
        proof {
            lemma_amap_dom(self.definitions@, scope);
            if let Some(i) = r {
                lemma_amap_index(self.definitions@, i as int);
            }
        }
        r
    }

    /// Whether table `i` holds a definition of `node`.
    pub fn table_contains(&self, i: usize, node: usize) -> (b: bool)
        requires
            defs_wf(self),
            i < self.definitions@.len(),
        ensures
            b == table_view(self.definitions@[i as int].1@).dom().contains(node),
    {
        let r = find_key(&self.definitions[i].1, node);
        proof {
            lemma_amap_dom(self.definitions@[i as int].1@, node);
        }
        r.is_some()
    }

    /// Records `ident` under `node` in table `i`.
    pub fn define(&mut self, i: usize, node: usize, ident: Identifier)
        requires
            defs_wf(old(self)),
            i < old(self).definitions@.len(),
        ensures
            defs_wf(final(self)),
            final(self)@ == with_definition(old(self)@, old(self).definitions@[i as int].0, node, ident@),
            final(self).scope_id == old(self).scope_id,
            final(self).definitions@.len() == old(self).definitions@.len(),
            forall|j: int| 0 <= j < final(self).definitions@.len() ==> #[trigger] final(self).definitions@[j].0 == old(self).definitions@[j].0,
    {
        let ghost old_defs = self.definitions@;
        let ghost ident_v = ident@;
        let (key, mut table) = self.definitions.remove(i);
        let ghost old_table = table@;
        proof {
            assert(old_defs[i as int] == (key, table));
            assert(distinct_keys(old_table));
        }
        match find_key(&table, node) {
            Some(j) => {
                let _ = table.remove(j);
                table.insert(j, (node, ident));
                proof {
                    crate::assoc::lemma_remove_insert(old_table, j as int, (node, ident));
                    lemma_amap_update(old_table, j as int, ident);
                    crate::assoc::lemma_map_values_insert(amap(old_table), node, ident, |x: Identifier| x@);
                }
            },
            None => {
                table.push((node, ident));
                proof {
                    lemma_amap_push_fresh(old_table, node, ident);
                    crate::assoc::lemma_map_values_insert(amap(old_table), node, ident, |x: Identifier| x@);
                }
            },
        }
        let ghost new_table = table;
        self.definitions.insert(i, (key, table));
        proof {
            crate::assoc::lemma_remove_insert(old_defs, i as int, (key, new_table));
            lemma_amap_update(old_defs, i as int, new_table);
            lemma_amap_index(old_defs, i as int);
            crate::assoc::lemma_map_values_insert(amap(old_defs), key, new_table, |v: Vec<(usize, Identifier)>| table_view(v@));
            assert(table_view(new_table@) == table_view(old_table).insert(node, ident_v));
            assert(distinct_keys(new_table@));
            assert forall|j: int| 0 <= j < self.definitions@.len() implies distinct_keys(#[trigger] self.definitions@[j].1@) by {
                if j != i {
                    assert(self.definitions@[j] == old_defs[j]);
                    assert(distinct_keys(old(self).definitions@[j].1@));
                } else {
                    assert(self.definitions@[j].1 == new_table);
                }
            }
            assert(self@.current_scope =~= old(self)@.current_scope);
            assert(self@.errors =~= old(self)@.errors);
        }
    }
}

} // verus!

verus! {

/// An identifier whose scope ends at `end`.
pub open spec fn closed_ident(i: IdentV, end: Point) -> IdentV {
    IdentV { scope_ends: (i.scope_ends.0, end), ..i }
}

impl JinjaDefinitions {
    /// Makes every definition of table `i` end at `end`.
    pub fn close_table(&mut self, i: usize, end: Point)
        requires
            defs_wf(old(self)),
            i < old(self).definitions@.len(),
        ensures
            defs_wf(final(self)),
            final(self)@ == with_closed(old(self)@, old(self).definitions@[i as int].0, end),
            final(self).scope_id == old(self).scope_id,
            final(self).definitions@.len() == old(self).definitions@.len(),
            forall|j: int| 0 <= j < final(self).definitions@.len() ==> #[trigger] final(self).definitions@[j].0 == old(self).definitions@[j].0,
    {
        let ghost old_defs = self.definitions@;
        let (key, table) = self.definitions.remove(i);
        proof {
            assert(old_defs[i as int] == (key, table));
        }
        let mut out: Vec<(usize, Identifier)> = Vec::new();
        let mut k: usize = 0;
        while k < table.len()
            invariant
                k <= table@.len(),
                out@.len() == k,
                forall|q: int| 0 <= q < k ==> #[trigger] out@[q].0 == table@[q].0 && out@[q].1@ == closed_ident(table@[q].1@, end),
            decreases table.len() - k,
        {
            let mut id = table[k].1.copy();
            id.scope_ends.1 = end;
            out.push((table[k].0, id));
            k = k + 1;
        }
        proof {
            let f = |x: IdentV| closed_ident(x, end);
            assert(distinct_keys(out@));
            assert forall|n: usize| #![auto] table_view(out@).dom().contains(n) <==> closed_table(table_view(table@), end).dom().contains(n) by {
                lemma_amap_same_keys(out@, table@, n);
            }
            assert forall|n: usize| #![auto] table_view(out@).dom().contains(n) implies table_view(out@)[n] == closed_table(table_view(table@), end)[n] by {
                lemma_amap_dom(out@, n);
                let q = choose|q: int| 0 <= q < out@.len() && out@[q].0 == n;
                lemma_amap_index(out@, q);
                lemma_amap_index(table@, q);
            }
            assert(table_view(out@) =~= closed_table(table_view(table@), end));
        }
        let ghost new_table = out;
        assert(distinct_keys(new_table@));
        self.definitions.insert(i, (key, out));
        proof {
            crate::assoc::lemma_remove_insert(old_defs, i as int, (key, new_table));
            lemma_amap_update(old_defs, i as int, new_table);
            lemma_amap_index(old_defs, i as int);
            crate::assoc::lemma_map_values_insert(amap(old_defs), key, new_table, |v: Vec<(usize, Identifier)>| table_view(v@));
            assert(distinct_keys(new_table@));
            assert forall|j: int| 0 <= j < self.definitions@.len() implies distinct_keys(#[trigger] self.definitions@[j].1@) by {
                if j != i {
                    assert(self.definitions@[j] == old_defs[j]);
                    assert(distinct_keys(old(self).definitions@[j].1@));
                } else {
                    assert(self.definitions@[j].1 == new_table);
                }
            }
            assert(self@.current_scope =~= old(self)@.current_scope);
            assert(self@.errors =~= old(self)@.errors);
        }
    }

    /// Opens a scope at `start`, unless the last scope opened there.
    pub fn new_scope(&mut self, keyword: &str, scope_start: Point)
        requires
            defs_wf(old(self)),
            old(self).last_point != scope_start ==> old(self).scope_id < usize::MAX,
        ensures
            defs_wf(final(self)),
            final(self)@ == opened(old(self)@, keyword@, scope_start),
            final(self).scope_id <= old(self).scope_id + 1,
    {
        if self.last_point.same(&scope_start) {
            return;
        }
        self.scope_id = self.scope_id + 1;
        let id = self.scope_id;
        let scope = Scope { id, keyword: copy_str(keyword), start: scope_start, end: scope_start };
        let ghost before = self@;
        self.current_scope.push(scope);
        let ghost old_defs = self.definitions@;
        let empty: Vec<(usize, Identifier)> = Vec::new();
        proof {
            assert(table_view(empty@) =~= Map::empty());
            assert(self@.current_scope =~= old(self)@.current_scope.push(ScopeV { id, keyword: keyword@, start: scope_start, end: scope_start }));
            assert forall|i: int| 0 <= i < self@.current_scope.len() implies (#[trigger] self@.current_scope[i]).id <= self@.scope_id by {
                if i < old(self)@.current_scope.len() {
                    assert(self@.current_scope[i] == old(self)@.current_scope[i]);
                }
            }
        }
        match self.table_of(id) {
            Some(i) => {
                let _ = self.definitions.remove(i);
                self.definitions.insert(i, (id, empty));
                proof {
                    crate::assoc::lemma_remove_insert(old_defs, i as int, (id, empty));
                    lemma_amap_update(old_defs, i as int, empty);
                    crate::assoc::lemma_map_values_insert(amap(old_defs), id, empty, |v: Vec<(usize, Identifier)>| table_view(v@));
                    assert forall|j: int| 0 <= j < self.definitions@.len() implies distinct_keys(#[trigger] self.definitions@[j].1@) by {
                        if j != i {
                            assert(self.definitions@[j] == old_defs[j]);
                        }
                    }
                }
            },
            None => {
                proof {
                    lemma_amap_dom(old_defs, id);
                }
                self.definitions.push((id, empty));
                proof {
                    lemma_amap_push_fresh(old_defs, id, empty);
                    crate::assoc::lemma_map_values_insert(amap(old_defs), id, empty, |v: Vec<(usize, Identifier)>| table_view(v@));
                    assert forall|j: int| 0 <= j < self.definitions@.len() implies distinct_keys(#[trigger] self.definitions@[j].1@) by {
                        if j < old_defs.len() {
                            assert(self.definitions@[j] == old_defs[j]);
                        }
                    }
                }
            },
        }
        proof {
            assert(self@.current_scope =~= old(self)@.current_scope.push(ScopeV { id, keyword: keyword@, start: scope_start, end: scope_start }));
            assert(self@.errors =~= old(self)@.errors);
        }
    }
}

} // verus!

verus! {

/// The text of a capture whose text was read.
pub fn text_of(c: &Capture) -> (t: &str)
    requires
        c.text is Some,
    ensures
        t@ == c@.text.unwrap(),
{
    match &c.text {
        Some(t) => t.as_str(),
        None => "",
    }
}

impl JinjaDefinitions {
    /// The id of the innermost open scope.
    fn front_id(&self) -> (id: usize)
        requires
            self.current_scope@.len() > 0,
        ensures
            id == self@.current_scope.last().id,
    {
        self.current_scope[self.current_scope.len() - 1].id
    }

    /// Records a definition of kind `t` in the innermost scope.
    fn plain_def(&mut self, capture: &Capture, t: IdentifierType, scope_end: Point) -> (r: Option<bool>)
        requires
            defs_wf(old(self)),
            capture.text is Some,
        ensures
            defs_wf(final(self)),
            (final(self)@, r) == plain_definition(old(self)@, capture@, t, scope_end),
            final(self).scope_id == old(self).scope_id,
    {
        if self.current_scope.len() == 0 {
            return None;
        }
        let sid = self.front_id();
        let i = match self.table_of(sid) {
            Some(i) => i,
            None => return None,
        };
        if self.table_contains(i, capture.id) {
            return Some(true);
        }
        let mut ident = Identifier::new(text_of(capture), capture.start, capture.end);
        ident.scope_ends = (sid, scope_end);
        ident.identifier_type = t;
        self.define(i, capture.id, ident);
        Some(true)
    }

    /// Advances the walk by one capture of the definitions query.  The
    /// result says whether the walk goes on with the rest of the match.
    pub fn check(&mut self, capture: &Capture) -> (r: Option<bool>)
        requires
            defs_wf(old(self)),
            opens_scope(old(self)@, capture@) ==> old(self).scope_id < usize::MAX,
            capture.text is Some,
        ensures
            defs_wf(final(self)),
            (final(self)@, r) == step(old(self)@, capture@),
            final(self).scope_id <= old(self).scope_id + 1,
    {
        let node = capture.id;
        match classify(capture.name.as_str()) {
            DefCapture::Error => None,
            DefCapture::MacroName => {
                if self.has_statement(node) {
                    return Some(true);
                }
                if self.current_scope.len() == 0 {
                    return None;
                }
                let sid = self.front_id();
                self.mark(node);
                let i = match self.table_of(sid) {
                    Some(i) => i,
                    None => return None,
                };
                if self.table_contains(i, node) {
                    return Some(true);
                }
                let mut ident = Identifier::new(text_of(capture), capture.start, capture.end);
                ident.scope_ends = (sid, capture.end);
                ident.identifier_type = IdentifierType::MacroName;
                self.define(i, node, ident);
                self.new_scope("macro", capture.end);
                Some(true)
            },
            DefCapture::MacroParameter => self.plain_def(capture, IdentifierType::MacroParameter, capture.end),
            DefCapture::SetVariable => {
                if self.has_statement(node) {
                    return Some(true);
                }
                if self.current_scope.len() == 0 {
                    return None;
                }
                let sid = self.front_id();
                let i = match self.table_of(sid) {
                    Some(i) => i,
                    None => return None,
                };
                if self.table_contains(i, node) {
                    return Some(true);
                }
                let mut ident = Identifier::new(text_of(capture), capture.start, capture.end);
                ident.scope_ends = (sid, Point::zero());
                ident.identifier_type = IdentifierType::SetVariable;
                self.define(i, node, ident);
                match capture.parent {
                    None => None,
                    Some(p) => {
                        if p.child_count == 4 {
                            match p.last_child_end {
                                None => None,
                                Some(e) => {
                                    self.new_scope("set", e);
                                    Some(true)
                                },
                            }
                        } else {
                            Some(true)
                        }
                    },
                }
            },
            DefCapture::WithDefinition => {
                if self.has_statement(node) {
                    return Some(true);
                }
                self.mark(node);
                self.new_scope("with", capture.end);
                Some(true)
            },
            DefCapture::WithVariable => self.plain_def(capture, IdentifierType::WithVariable, Point::zero()),
            DefCapture::ForStatement => {
                if self.has_statement(node) {
                    return Some(true);
                }
                self.mark(node);
                self.new_scope("for", capture.end);
                Some(true)
            },
            DefCapture::ForKey => self.plain_def(capture, IdentifierType::ForLoopKey, Point::zero()),
            DefCapture::ForValue => self.plain_def(capture, IdentifierType::ForLoopValue, Point::zero()),
            DefCapture::Keyword => {
                self.last_keyword = copy_str(text_of(capture));
                self.keyword_location = (capture.start, capture.end);
                Some(true)
            },
            DefCapture::StatementStart => {
                if self.has_statement(node) {
                    return Some(true);
                }
                self.mark(node);
                proof {
                    reveal_strlit("elif");
                    reveal_strlit("else");
                    reveal_strlit("if");
                }
                let kw = copy_str(self.last_keyword.as_str());
                if str_eq(kw.as_str(), "elif") || str_eq(kw.as_str(), "else") {
                    let continues = self.current_scope.len() > 0 && {
                        let front = &self.current_scope[self.current_scope.len() - 1].keyword;
                        str_eq(front.as_str(), "elif") || str_eq(front.as_str(), "if")
                    };
                    if !continues {
                        let scope = Scope {
                            id: 0,
                            keyword: copy_str(kw.as_str()),
                            start: self.keyword_location.0,
                            end: self.keyword_location.1,
                        };
                        let ghost before = self@;
                        if str_eq(kw.as_str(), "elif") {
                            self.errors.push(ScopeError::ElifStatement(scope));
                        } else {
                            self.errors.push(ScopeError::ElseStatement(scope));
                        }
                        proof {
                            assert(self@.errors =~= before.errors.push(self.errors@.last()@));
                            assert(self@.current_scope =~= before.current_scope);
                        }
                        self.new_scope(kw.as_str(), capture.end);
                        Some(true)
                    } else {
                        let ghost before = self@;
                        let scope = self.current_scope.pop().unwrap();
                        proof {
                            assert(self@.current_scope =~= before.current_scope.drop_last());
                            assert(self@.errors =~= before.errors);
                        }
                        let i = match self.table_of(scope.id) {
                            Some(i) => i,
                            None => return None,
                        };
                        self.close_table(i, capture.start);
                        self.new_scope(kw.as_str(), capture.end);
                        Some(true)
                    }
                } else {
                    self.new_scope(kw.as_str(), capture.end);
                    Some(true)
                }
            },
            DefCapture::StatementEnd => {
                if self.has_statement(node) {
                    return Some(true);
                }
                self.mark(node);
                if self.current_scope.len() == 0 {
                    return None;
                }
                let ghost before = self@;
                let scope = self.current_scope.pop().unwrap();
                proof {
                    assert(self@.current_scope =~= before.current_scope.drop_last());
                    assert(self@.errors =~= before.errors);
                    reveal_strlit("endif");
                    reveal_strlit("elif");
                    reveal_strlit("else");
                    reveal_strlit("if");
                }
                let kw = self.last_keyword.as_str();
                if !ends_with(kw, scope.keyword.as_str()) {
                    let is_error = if str_eq(kw, "endif") {
                        !(str_eq(scope.keyword.as_str(), "if") || str_eq(scope.keyword.as_str(), "elif")
                            || str_eq(scope.keyword.as_str(), "else"))
                    } else {
                        true
                    };
                    if is_error {
                        let wrong = Scope {
                            id: scope.id,
                            keyword: copy_str(scope.keyword.as_str()),
                            start: self.keyword_location.0,
                            end: self.keyword_location.1,
                        };
                        let ghost mid = self@;
                        self.errors.push(ScopeError::WrongEndScopeKeyword(wrong));
                        proof {
                            assert(self@.errors =~= mid.errors.push(self.errors@.last()@));
                            assert(self@.current_scope =~= mid.current_scope);
                        }
                    }
                }
                let i = match self.table_of(scope.id) {
                    Some(i) => i,
                    None => return None,
                };
                self.close_table(i, capture.start);
                Some(true)
            },
            DefCapture::BlockVariable => {
                if self.current_scope.len() == 0 {
                    return None;
                }
                let sid = self.front_id();
                let i = match self.table_of(sid) {
                    Some(i) => i,
                    None => return None,
                };
                let mut ident = Identifier::new(text_of(capture), capture.start, capture.end);
                ident.identifier_type = IdentifierType::TemplateBlock;
                self.define(i, node, ident);
                Some(true)
            },
            DefCapture::Other => Some(true),
        }
    }
}

} // verus!

verus! {

/// The walk over one match: each capture that starts no later than the
/// trigger point (or every capture, with `all`) is taken in turn, until a
/// step says to stop.
pub open spec fn walk_match(d: DefsV, caps: Seq<CaptureV>, trigger: Point, all: bool) -> DefsV
    decreases caps.len(),
{
    if caps.len() == 0 {
        d
    } else if all || p_le(caps[0].start, trigger) {
        let (d1, r) = step(d, caps[0]);
        if r is None {
            d1
        } else {
            walk_match(d1, caps.drop_first(), trigger, all)
        }
    } else {
        walk_match(d, caps.drop_first(), trigger, all)
    }
}

/// The walk over all matches in turn.
pub open spec fn walk_matches(d: DefsV, ms: Seq<Seq<CaptureV>>, trigger: Point, all: bool) -> DefsV
    decreases ms.len(),
{
    if ms.len() == 0 {
        d
    } else {
        walk_matches(walk_match(d, ms[0], trigger, all), ms.drop_first(), trigger, all)
    }
}

/// The state before the walk: one scope, spanning the whole document, with
/// an empty table of definitions.
pub open spec fn initial_defs(root_end: Point) -> DefsV {
    DefsV {
        current_scope: seq![ScopeV { id: 0, keyword: Seq::empty(), start: origin(), end: root_end }],
        definitions: Map::empty().insert(0, Map::empty()),
        statements: Set::empty(),
        errors: Seq::empty(),
        scope_id: 0,
        last_keyword: Seq::empty(),
        keyword_location: (origin(), origin()),
        last_point: origin(),
    }
}

/// After the walk, the definitions of the outermost table end where the
/// innermost open scope ends.
pub open spec fn finished(d: DefsV) -> DefsV {
    if d.current_scope.len() > 0 && d.definitions.dom().contains(0) {
        with_closed(d, 0, d.current_scope.last().end)
    } else {
        d
    }
}

/// The definitions that the query's matches describe.
pub open spec fn spec_definitions(ms: Seq<Seq<CaptureV>>, root_end: Point, trigger: Point, all: bool) -> DefsV {
    finished(walk_matches(initial_defs(root_end), ms, trigger, all))
}

/// Counting the captures of the first matches, one match at a time.
pub proof fn lemma_capture_count_take(ms: Seq<Seq<CaptureV>>, i: int)
    requires
        0 <= i < ms.len(),
    ensures
        capture_count(ms.take(i + 1)) == capture_count(ms.take(i)) + ms[i].len(),
        capture_count(ms.take(i + 1)) <= capture_count(ms),
    decreases ms.len(),
{
    assert(ms.take(i + 1).drop_last() == ms.take(i));
    if i + 1 < ms.len() {
        lemma_capture_count_take(ms.drop_last(), i);
        assert(ms.drop_last().take(i + 1) == ms.take(i + 1));
    } else {
        assert(ms.take(i + 1) == ms);
    }
}

impl JinjaDefinitions {
    /// Ends every definition of the outermost table where the innermost
    /// open scope ends.
    pub fn finish(&mut self)
        requires
            defs_wf(old(self)),
        ensures
            defs_wf(final(self)),
            final(self)@ == finished(old(self)@),
    {
        if self.current_scope.len() > 0 {
            let end = self.current_scope[self.current_scope.len() - 1].end;
            if let Some(i) = self.table_of(0) {
                self.close_table(i, end);
            }
        }
    }
}

/// Walks the matches of the definitions query over a document whose root
/// ends at `root_end`, as `definition_query` does with what tree-sitter
/// returns.
pub fn definitions_from_matches(matches: &Vec<Vec<Capture>>, root_end: Point, trigger_point: Point, all: bool) -> (d: JinjaDefinitions)
    requires
        all_texts(matches_view(matches@)),
        capture_count(matches_view(matches@)) < usize::MAX,
    ensures
        defs_wf(&d),
        d@ == spec_definitions(matches_view(matches@), root_end, trigger_point, all),
{
    let ghost ms = matches_view(matches@);
    let mut d = JinjaDefinitions::empty();
    d.current_scope.push(Scope::new(root_end));
    d.definitions.push((0, Vec::new()));
    proof {
        let e: Vec<(usize, Identifier)> = d.definitions@[0].1;
        let f = |v: Vec<(usize, Identifier)>| table_view(v@);
        assert(table_view(e@) =~= Map::empty());
        lemma_amap_push_fresh(Seq::<(usize, Vec<(usize, Identifier)>)>::empty(), 0, e);
        assert(d.definitions@ =~= Seq::<(usize, Vec<(usize, Identifier)>)>::empty().push((0usize, e)));
        assert(amap(Seq::<(usize, Vec<(usize, Identifier)>)>::empty()) == Map::<usize, Vec<(usize, Identifier)>>::empty());
        crate::assoc::lemma_map_values_insert(Map::<usize, Vec<(usize, Identifier)>>::empty(), 0, e, f);
        assert(Map::<usize, Vec<(usize, Identifier)>>::empty().map_values(f) =~= Map::<usize, Map<usize, IdentV>>::empty());
        assert(d@.definitions =~= initial_defs(root_end).definitions);
        assert(d@.current_scope =~= initial_defs(root_end).current_scope);
        assert(d@.statements =~= Set::empty());
        assert(d@.errors =~= Seq::empty());
        assert(d@.last_keyword =~= Seq::empty());
        assert(d@ == initial_defs(root_end));
        assert(ms.skip(0) == ms);
        assert(ms.take(0) == Seq::<Seq<CaptureV>>::empty());
    }
    let mut mi: usize = 0;
    while mi < matches.len()
        invariant
            ms == matches_view(matches@),
            all_texts(ms),
            capture_count(ms) < usize::MAX,
            mi <= matches@.len(),
            defs_wf(&d),
            d.scope_id <= capture_count(ms.take(mi as int)),
            walk_matches(d@, ms.skip(mi as int), trigger_point, all) == walk_matches(initial_defs(root_end), ms, trigger_point, all),
        decreases matches.len() - mi,
    {
        let m = &matches[mi];
        let ghost start_state = d@;
        let ghost mv = ms[mi as int];
        proof {
            assert(mv == match_view(m@));
            assert(mv.skip(0) == mv);
            lemma_capture_count_take(ms, mi as int);
            assert(ms.skip(mi as int).drop_first() == ms.skip(mi + 1));
            assert(ms.skip(mi as int)[0] == mv);
        }
        let mut ci: usize = 0;
        let mut stopped = false;
        while ci < m.len() && !stopped
            invariant
                ms == matches_view(matches@),
                all_texts(ms),
                capture_count(ms) < usize::MAX,
                mi < matches@.len(),
                m == matches@[mi as int],
                mv == ms[mi as int],
                mv == match_view(m@),
                ci <= m@.len(),
                defs_wf(&d),
                d.scope_id <= capture_count(ms.take(mi as int)) + ci,
                capture_count(ms.take(mi as int)) + mv.len() < usize::MAX,
                stopped ==> d@ == walk_match(start_state, mv, trigger_point, all),
                !stopped ==> walk_match(d@, mv.skip(ci as int), trigger_point, all) == walk_match(start_state, mv, trigger_point, all),
            decreases m.len() - ci,
        {
            let c = &m[ci];
            proof {
                assert(mv.skip(ci as int)[0] == c@);
                assert(mv.skip(ci as int).drop_first() == mv.skip(ci + 1));
                assert(ms[mi as int][ci as int] == c@);
            }
            if all || c.start.le(&trigger_point) {
                let ghost before = d@;
                let r = d.check(c);
                if r.is_none() {
                    stopped = true;
                }
            }
            ci = ci + 1;
        }
        proof {
            if !stopped {
                assert(mv.skip(ci as int).len() == 0);
            }
            assert(ms.take(mi + 1) == ms.take(mi as int).push(ms[mi as int]));
        }
        mi = mi + 1;
    }
    proof {
        assert(ms.skip(mi as int).len() == 0);
    }
    d.finish();
    d
}

/// The identifiers of all tables, table after table, each in its stored order.
pub open spec fn flat_defs(t: Seq<(usize, Vec<(usize, Identifier)>)>) -> Seq<IdentV>
    decreases t.len(),
{
    if t.len() == 0 {
        Seq::empty()
    } else {
        flat_defs(t.drop_last()) + t.last().1@.map_values(|p: (usize, Identifier)| p.1@)
    }
}

impl JinjaDefinitions {
    /// Every definition of every scope, sorted.
    pub fn collect(&self) -> (r: Vec<Identifier>)
        ensures
            sorted_idents(idents_view(r@)),
            idents_view(r@).to_multiset() == flat_defs(self.definitions@).to_multiset(),
    {
        let mut all: Vec<Identifier> = Vec::new();
        let mut i: usize = 0;
        proof {
            assert(self.definitions@.take(0) =~= Seq::<(usize, Vec<(usize, Identifier)>)>::empty());
            assert(idents_view(all@) =~= Seq::<IdentV>::empty());
        }
        while i < self.definitions.len()
            invariant
                i <= self.definitions@.len(),
                idents_view(all@) == flat_defs(self.definitions@.take(i as int)),
            decreases self.definitions.len() - i,
        {
            let table = &self.definitions[i].1;
            let ghost before = idents_view(all@);
            let mut j: usize = 0;
            proof {
                assert(table@.take(0).map_values(|p: (usize, Identifier)| p.1@) =~= Seq::<IdentV>::empty());
                assert(before + Seq::<IdentV>::empty() =~= before);
            }
            while j < table.len()
                invariant
                    j <= table@.len(),
                    i < self.definitions@.len(),
                    table == self.definitions@[i as int].1,
                    idents_view(all@) == before + table@.take(j as int).map_values(|p: (usize, Identifier)| p.1@),
                decreases table.len() - j,
            {
                let x = table[j].1.copy();
                let ghost prev = all@;
                all.push(x);
                proof {
                    assert(idents_view(all@) =~= idents_view(prev).push(table@[j as int].1@));
                    assert(table@.take(j + 1).map_values(|p: (usize, Identifier)| p.1@)
                        =~= table@.take(j as int).map_values(|p: (usize, Identifier)| p.1@).push(table@[j as int].1@));
                    assert(idents_view(all@) =~= before + table@.take(j + 1).map_values(|p: (usize, Identifier)| p.1@));
                }
                j = j + 1;
            }
            proof {
                assert(table@.take(j as int) =~= table@);
                let t = self.definitions@.take(i + 1);
                assert(t.drop_last() =~= self.definitions@.take(i as int));
                assert(t.last() == self.definitions@[i as int]);
            }
            i = i + 1;
        }
        proof {
            assert(self.definitions@.take(i as int) =~= self.definitions@);
        }
        sort_identifiers(all)
    }
}

/// The plain value of an optional walk state.
pub open spec fn defs_opt_view(r: Option<JinjaDefinitions>) -> Option<DefsV> {
    match r {
        Some(d) => Some(d@),
        None => None,
    }
}

/// What the definitions walk gives back for the matches `ms` of a tree whose
/// root ends at `root_end`: `None` exactly where a capture's text is not
/// valid UTF-8 or the captures are too many to count in a `usize`, and the
/// walk over `ms` otherwise.
pub open spec fn definitions_outcome(r: Option<JinjaDefinitions>, ms: Seq<Seq<CaptureV>>, root_end: Point, trigger: Point, all: bool) -> bool {
    &&& (r is Some <==> (all_texts(ms) && capture_count(ms) < usize::MAX))
    &&& (r is Some ==> defs_opt_view(r) == Some(spec_definitions(ms, root_end, trigger, all)))
}

/// Walks the definitions query over `tree` and collects the definitions
/// of each scope.  What the walk sees comes from the parse tree; the result
/// is the walk over some list of matches of the query, whose captures carry
/// the query's names.  `None` comes back exactly where a captured node's
/// text is not valid UTF-8, or where the captures are too many to count in
/// a `usize`.
pub fn definition_query(query: &crate::syntax::SourcedQuery, tree: &tree_sitter::Tree, trigger_point: Point, text: &str, all: bool) -> (r: Option<JinjaDefinitions>)
    ensures
        r matches Some(d) ==> defs_wf(&d),
        exists|ms: Seq<Seq<CaptureV>>, e: Point|
            names_within(ms, capture_names(query@.0, query@.1))
            && #[trigger] definitions_outcome(r, ms, e, trigger_point, all),
{
    let matches = query_matches(query, tree, text);
    let end = root_end(tree);
    let ghost mv = matches_view(matches@);
    let r = if !texts_readable(&matches) {
        None
    } else {
        match total_captures(&matches) {
            Some(n) => if n == usize::MAX {
                None
            } else {
                Some(definitions_from_matches(&matches, end, trigger_point, all))
            },
            None => None,
        }
    };
    assert(definitions_outcome(r, mv, end, trigger_point, all));
    r
}

/// What the walk keeps true: every open scope has a table of definitions,
/// no table has an id beyond the scope counter, and each definition that a
/// block does not name records the table it lives in.
pub open spec fn scopes_ok(d: DefsV) -> bool {
    &&& forall|i: int| 0 <= i < d.current_scope.len() ==> d.definitions.dom().contains(#[trigger] d.current_scope[i].id)
    &&& forall|k: usize| #[trigger] d.definitions.dom().contains(k) ==> k <= d.scope_id
    &&& forall|s: usize, n: usize|
        #![trigger d.definitions[s][n]]
        d.definitions.dom().contains(s) && d.definitions[s].dom().contains(n)
            && d.definitions[s][n].identifier_type != IdentifierType::TemplateBlock
            ==> d.definitions[s][n].scope_ends.0 == s
}

/// `after` keeps what `before` had: its errors come first, its handled
/// statements stay handled, its tables and their definitions stay, and the
/// scope counter does not go back.
pub open spec fn grows(before: DefsV, after: DefsV) -> bool {
    &&& before.errors.len() <= after.errors.len()
    &&& after.errors.take(before.errors.len() as int) == before.errors
    &&& before.statements.subset_of(after.statements)
    &&& forall|s: usize| #[trigger] before.definitions.dom().contains(s) ==> after.definitions.dom().contains(s)
        && before.definitions[s].dom().subset_of(after.definitions[s].dom())
    &&& before.scope_id <= after.scope_id
}

proof fn lemma_grows_trans(a: DefsV, b: DefsV, c: DefsV)
    requires
        grows(a, b),
        grows(b, c),
    ensures
        grows(a, c),
{
    assert(c.errors.take(a.errors.len() as int) =~= c.errors.take(b.errors.len() as int).take(a.errors.len() as int));
}

proof fn lemma_grows_refl(a: DefsV)
    ensures
        grows(a, a),
{
    assert(a.errors.take(a.errors.len() as int) =~= a.errors);
}

proof fn lemma_opened(d: DefsV, kw: Seq<char>, start: Point)
    requires
        scopes_ok(d),
        d.scope_id < usize::MAX,
    ensures
        scopes_ok(opened(d, kw, start)),
        grows(d, opened(d, kw, start)),
        opened(d, kw, start).scope_id <= d.scope_id + 1,
        opened(d, kw, start).errors == d.errors,
{
    lemma_grows_refl(d);
    let r = opened(d, kw, start);
    if d.last_point != start {
        let id = (d.scope_id + 1) as usize;
        assert(!d.definitions.dom().contains(id));
        assert forall|i: int| 0 <= i < r.current_scope.len() implies r.definitions.dom().contains(#[trigger] r.current_scope[i].id) by {
            if i < d.current_scope.len() {
                assert(r.current_scope[i] == d.current_scope[i]);
            }
        }
        assert forall|s: usize, n: usize|
            r.definitions.dom().contains(s) && r.definitions[s].dom().contains(n)
                && r.definitions[s][n].identifier_type != IdentifierType::TemplateBlock
            implies #[trigger] r.definitions[s][n].scope_ends.0 == s by {
            if s != id {
                assert(r.definitions[s] == d.definitions[s]);
            }
        }
        assert forall|s: usize| #[trigger] d.definitions.dom().contains(s) implies r.definitions.dom().contains(s)
            && d.definitions[s].dom().subset_of(r.definitions[s].dom()) by {
            assert(s != id);
        }
    }
}

proof fn lemma_with_definition(d: DefsV, s: usize, n: usize, ident: IdentV)
    requires
        scopes_ok(d),
        d.definitions.dom().contains(s),
        ident.identifier_type != IdentifierType::TemplateBlock ==> ident.scope_ends.0 == s,
    ensures
        scopes_ok(with_definition(d, s, n, ident)),
        grows(d, with_definition(d, s, n, ident)),
        with_definition(d, s, n, ident).scope_id == d.scope_id,
        with_definition(d, s, n, ident).errors == d.errors,
        with_definition(d, s, n, ident).current_scope == d.current_scope,
{
    lemma_grows_refl(d);
    let r = with_definition(d, s, n, ident);
    assert forall|a: usize, b: usize|
        r.definitions.dom().contains(a) && r.definitions[a].dom().contains(b)
            && r.definitions[a][b].identifier_type != IdentifierType::TemplateBlock
        implies #[trigger] r.definitions[a][b].scope_ends.0 == a by {
        if a != s {
            assert(r.definitions[a] == d.definitions[a]);
        } else if b != n {
            assert(r.definitions[a][b] == d.definitions[a][b]);
        }
    }
}

proof fn lemma_with_closed(d: DefsV, s: usize, end: Point)
    requires
        scopes_ok(d),
        d.definitions.dom().contains(s),
    ensures
        scopes_ok(with_closed(d, s, end)),
        grows(d, with_closed(d, s, end)),
        with_closed(d, s, end).scope_id == d.scope_id,
        with_closed(d, s, end).errors == d.errors,
        with_closed(d, s, end).current_scope == d.current_scope,
{
    lemma_grows_refl(d);
    let r = with_closed(d, s, end);
    assert forall|a: usize, b: usize|
        r.definitions.dom().contains(a) && r.definitions[a].dom().contains(b)
            && r.definitions[a][b].identifier_type != IdentifierType::TemplateBlock
        implies #[trigger] r.definitions[a][b].scope_ends.0 == a by {
        if a != s {
            assert(r.definitions[a] == d.definitions[a]);
        } else {
            assert(r.definitions[a][b] == IdentV { scope_ends: (d.definitions[a][b].scope_ends.0, end), ..d.definitions[a][b] });
        }
    }
}

proof fn lemma_errors_push(d: DefsV, e: ScopeErrorV)
    ensures
        grows(d, DefsV { errors: d.errors.push(e), ..d }),
        scopes_ok(d) ==> scopes_ok(DefsV { errors: d.errors.push(e), ..d }),
{
    assert(d.errors.push(e).take(d.errors.len() as int) =~= d.errors);
}

proof fn lemma_drop_scope(d: DefsV)
    requires
        scopes_ok(d),
        d.current_scope.len() > 0,
    ensures
        scopes_ok(DefsV { current_scope: d.current_scope.drop_last(), ..d }),
        grows(d, DefsV { current_scope: d.current_scope.drop_last(), ..d }),
{
    lemma_grows_refl(d);
    let r = DefsV { current_scope: d.current_scope.drop_last(), ..d };
    assert forall|i: int| 0 <= i < r.current_scope.len() implies r.definitions.dom().contains(#[trigger] r.current_scope[i].id) by {
        assert(r.current_scope[i] == d.current_scope[i]);
    }
}

proof fn lemma_marked(d: DefsV, n: usize)
    ensures
        scopes_ok(d) ==> scopes_ok(marked(d, n)),
        grows(d, marked(d, n)),
{
    lemma_grows_refl(d);
}

/// One step keeps the walk's invariant, keeps what the state had, and raises
/// the scope counter by one at most.
pub proof fn lemma_step_keeps(d: DefsV, c: CaptureV)
    requires
        scopes_ok(d),
        d.scope_id < usize::MAX,
    ensures
        scopes_ok(step(d, c).0),
        grows(d, step(d, c).0),
        step(d, c).0.scope_id <= d.scope_id + 1,
{
    lemma_grows_refl(d);
    let r = step(d, c).0;
    match def_kind(c.name) {
        DefCapture::MacroName => {
            if !d.statements.contains(c.id) && d.current_scope.len() > 0 {
                let s = d.current_scope.last();
                let d1 = marked(d, c.id);
                lemma_marked(d, c.id);
                assert(d.definitions.dom().contains(d.current_scope[d.current_scope.len() - 1].id));
                if !d1.definitions[s.id].dom().contains(c.id) {
                    let d2 = with_definition(d1, s.id, c.id, defined(c, IdentifierType::MacroName, s.id, c.end));
                    lemma_with_definition(d1, s.id, c.id, defined(c, IdentifierType::MacroName, s.id, c.end));
                    lemma_opened(d2, "macro"@, c.end);
                    lemma_grows_trans(d, d1, d2);
                    lemma_grows_trans(d, d2, r);
                }
            }
        },
        DefCapture::MacroParameter | DefCapture::WithVariable | DefCapture::ForKey | DefCapture::ForValue => {
            if d.current_scope.len() > 0 {
                let s = d.current_scope.last();
                assert(d.definitions.dom().contains(d.current_scope[d.current_scope.len() - 1].id));
                let t = match def_kind(c.name) {
                    DefCapture::MacroParameter => IdentifierType::MacroParameter,
                    DefCapture::WithVariable => IdentifierType::WithVariable,
                    DefCapture::ForKey => IdentifierType::ForLoopKey,
                    _ => IdentifierType::ForLoopValue,
                };
                let e = if def_kind(c.name) == DefCapture::MacroParameter { c.end } else { origin() };
                lemma_with_definition(d, s.id, c.id, defined(c, t, s.id, e));
            }
        },
        DefCapture::SetVariable => {
            if !d.statements.contains(c.id) && d.current_scope.len() > 0 {
                let s = d.current_scope.last();
                assert(d.definitions.dom().contains(d.current_scope[d.current_scope.len() - 1].id));
                let d1 = with_definition(d, s.id, c.id, defined(c, IdentifierType::SetVariable, s.id, origin()));
                lemma_with_definition(d, s.id, c.id, defined(c, IdentifierType::SetVariable, s.id, origin()));
                match c.parent {
                    Some(p) => {
                        match p.last_child_end {
                            Some(e) => {
                                lemma_opened(d1, "set"@, e);
                                lemma_grows_trans(d, d1, opened(d1, "set"@, e));
                            },
                            None => {},
                        }
                    },
                    None => {},
                }
            }
        },
        DefCapture::WithDefinition => {
            lemma_marked(d, c.id);
            lemma_opened(marked(d, c.id), "with"@, c.end);
            lemma_grows_trans(d, marked(d, c.id), opened(marked(d, c.id), "with"@, c.end));
        },
        DefCapture::ForStatement => {
            lemma_marked(d, c.id);
            lemma_opened(marked(d, c.id), "for"@, c.end);
            lemma_grows_trans(d, marked(d, c.id), opened(marked(d, c.id), "for"@, c.end));
        },
        DefCapture::StatementStart => {
            if !d.statements.contains(c.id) {
                let d1 = marked(d, c.id);
                lemma_marked(d, c.id);
                let kw = d1.last_keyword;
                if kw == "elif"@ || kw == "else"@ {
                    let continues = d1.current_scope.len() > 0 && (d1.current_scope.last().keyword == "elif"@
                        || d1.current_scope.last().keyword == "if"@);
                    if !continues {
                        let sc = ScopeV { id: 0, keyword: kw, start: d1.keyword_location.0, end: d1.keyword_location.1 };
                        let e = if kw == "elif"@ {
                            ScopeErrorV::ElifStatement(sc)
                        } else {
                            ScopeErrorV::ElseStatement(sc)
                        };
                        let d2 = DefsV { errors: d1.errors.push(e), ..d1 };
                        lemma_errors_push(d1, e);
                        lemma_opened(d2, kw, c.end);
                        lemma_grows_trans(d, d1, d2);
                        lemma_grows_trans(d, d2, r);
                    } else {
                        let s = d1.current_scope.last();
                        assert(d1.definitions.dom().contains(d1.current_scope[d1.current_scope.len() - 1].id));
                        let d2 = DefsV { current_scope: d1.current_scope.drop_last(), ..d1 };
                        lemma_drop_scope(d1);
                        lemma_with_closed(d2, s.id, c.start);
                        lemma_opened(with_closed(d2, s.id, c.start), kw, c.end);
                        lemma_grows_trans(d, d1, d2);
                        lemma_grows_trans(d, d2, with_closed(d2, s.id, c.start));
                        lemma_grows_trans(d, with_closed(d2, s.id, c.start), r);
                    }
                } else {
                    lemma_opened(d1, kw, c.end);
                    lemma_grows_trans(d, d1, r);
                }
            }
        },
        DefCapture::StatementEnd => {
            if !d.statements.contains(c.id) {
                let d1 = marked(d, c.id);
                lemma_marked(d, c.id);
                if d1.current_scope.len() > 0 {
                    let s = d1.current_scope.last();
                    assert(d1.definitions.dom().contains(d1.current_scope[d1.current_scope.len() - 1].id));
                    let kw = d1.last_keyword;
                    let d2 = DefsV { current_scope: d1.current_scope.drop_last(), ..d1 };
                    lemma_drop_scope(d1);
                    lemma_grows_trans(d, d1, d2);
                    let wrong = !seq_ends_with(kw, s.keyword) && (kw == "endif"@ ==> !(s.keyword == "if"@
                        || s.keyword == "elif"@ || s.keyword == "else"@));
                    let d3 = if wrong {
                        DefsV {
                            errors: d2.errors.push(ScopeErrorV::WrongEndScopeKeyword(
                                ScopeV { id: s.id, keyword: s.keyword, start: d2.keyword_location.0, end: d2.keyword_location.1 },
                            )),
                            ..d2
                        }
                    } else {
                        d2
                    };
                    if wrong {
                        lemma_errors_push(d2, ScopeErrorV::WrongEndScopeKeyword(
                            ScopeV { id: s.id, keyword: s.keyword, start: d2.keyword_location.0, end: d2.keyword_location.1 }));
                    } else {
                        lemma_grows_refl(d2);
                    }
                    lemma_grows_trans(d, d2, d3);
                    lemma_with_closed(d3, s.id, c.start);
                    lemma_grows_trans(d, d3, r);
                }
            }
        },
        DefCapture::BlockVariable => {
            if d.current_scope.len() > 0 {
                let s = d.current_scope.last();
                assert(d.definitions.dom().contains(d.current_scope[d.current_scope.len() - 1].id));
                let ident = IdentV { identifier_type: IdentifierType::TemplateBlock, ..new_ident(c.text.unwrap(), c.start, c.end) };
                lemma_with_definition(d, s.id, c.id, ident);
            }
        },
        _ => {},
    }
}

proof fn lemma_capture_count_first(ms: Seq<Seq<CaptureV>>)
    requires
        ms.len() > 0,
    ensures
        capture_count(ms) == ms[0].len() + capture_count(ms.drop_first()),
    decreases ms.len(),
{
    if ms.len() > 1 {
        lemma_capture_count_first(ms.drop_last());
        assert(ms.drop_last().drop_first() =~= ms.drop_first().drop_last());
        assert(ms.drop_first().last() == ms.last());
        assert(ms.drop_last()[0] == ms[0]);
        assert(capture_count(ms) == capture_count(ms.drop_last()) + ms.last().len());
        assert(capture_count(ms.drop_first()) == capture_count(ms.drop_first().drop_last()) + ms.drop_first().last().len());
    } else {
        assert(ms.drop_first().len() == 0);
        assert(ms.drop_last().len() == 0);
        assert(capture_count(ms.drop_first()) == 0);
        assert(capture_count(ms.drop_last()) == 0);
        assert(capture_count(ms) == capture_count(ms.drop_last()) + ms.last().len());
    }
}

proof fn lemma_walk_match_keeps(d: DefsV, caps: Seq<CaptureV>, trigger: Point, all: bool)
    requires
        scopes_ok(d),
        d.scope_id + caps.len() < usize::MAX,
    ensures
        scopes_ok(walk_match(d, caps, trigger, all)),
        grows(d, walk_match(d, caps, trigger, all)),
        walk_match(d, caps, trigger, all).scope_id <= d.scope_id + caps.len(),
    decreases caps.len(),
{
    lemma_grows_refl(d);
    if caps.len() > 0 {
        if all || p_le(caps[0].start, trigger) {
            let (d1, r) = step(d, caps[0]);
            lemma_step_keeps(d, caps[0]);
            if r is Some {
                lemma_walk_match_keeps(d1, caps.drop_first(), trigger, all);
                lemma_grows_trans(d, d1, walk_match(d1, caps.drop_first(), trigger, all));
            }
        } else {
            lemma_walk_match_keeps(d, caps.drop_first(), trigger, all);
        }
    }
}

proof fn lemma_walk_matches_keeps(d: DefsV, ms: Seq<Seq<CaptureV>>, trigger: Point, all: bool)
    requires
        scopes_ok(d),
        d.scope_id + capture_count(ms) < usize::MAX,
    ensures
        scopes_ok(walk_matches(d, ms, trigger, all)),
        grows(d, walk_matches(d, ms, trigger, all)),
        walk_matches(d, ms, trigger, all).scope_id <= d.scope_id + capture_count(ms),
    decreases ms.len(),
{
    lemma_grows_refl(d);
    if ms.len() > 0 {
        lemma_capture_count_first(ms);
        crate::syntax::lemma_capture_count_prefix(ms.drop_first(), 0);
        let d1 = walk_match(d, ms[0], trigger, all);
        lemma_walk_match_keeps(d, ms[0], trigger, all);
        lemma_walk_matches_keeps(d1, ms.drop_first(), trigger, all);
        lemma_grows_trans(d, d1, walk_matches(d1, ms.drop_first(), trigger, all));
    }
}

/// Whatever the query's matches, the definitions that come out of the walk
/// have a table for the outermost scope and one for every scope still open;
/// no table has an id beyond the number of scopes opened; every definition
/// that a block does not name records the scope whose table holds it; and
/// the number of scopes opened is at most the number of captures.
pub proof fn lemma_definitions_scopes(ms: Seq<Seq<CaptureV>>, root_end: Point, trigger: Point, all: bool)
    requires
        capture_count(ms) < usize::MAX,
    ensures
        scopes_ok(spec_definitions(ms, root_end, trigger, all)),
        spec_definitions(ms, root_end, trigger, all).definitions.dom().contains(0),
        spec_definitions(ms, root_end, trigger, all).scope_id <= capture_count(ms),
{
    let d0 = initial_defs(root_end);
    crate::syntax::lemma_capture_count_prefix(ms, 0);
    assert(scopes_ok(d0));
    lemma_walk_matches_keeps(d0, ms, trigger, all);
    let w = walk_matches(d0, ms, trigger, all);
    if w.current_scope.len() > 0 && w.definitions.dom().contains(0) {
        lemma_with_closed(w, 0, w.current_scope.last().end);
    }
}


/// Closing a block: a `statement_end` capture not handled before, with a
/// block open whose table is recorded, closes the innermost block.  The
/// walk goes on; the block is no longer open; every definition recorded in
/// it keeps its name, span, kind and scope, and its scope now ends where
/// the capture starts; the tables of the other scopes do not change.
pub proof fn lemma_statement_end_closes_block(d: DefsV, c: CaptureV)
    requires
        def_kind(c.name) == DefCapture::StatementEnd,
        !d.statements.contains(c.id),
        d.current_scope.len() > 0,
        d.definitions.dom().contains(d.current_scope.last().id),
    ensures
        step(d, c).1 == Some(true),
        step(d, c).0.current_scope == d.current_scope.drop_last(),
        step(d, c).0.definitions.dom() == d.definitions.dom(),
        step(d, c).0.definitions[d.current_scope.last().id].dom() == d.definitions[d.current_scope.last().id].dom(),
        forall|n: usize| #[trigger] d.definitions[d.current_scope.last().id].dom().contains(n) ==> {
            let before = d.definitions[d.current_scope.last().id][n];
            let after = step(d, c).0.definitions[d.current_scope.last().id][n];
            &&& after.scope_ends.1 == c.start
            &&& after.scope_ends.0 == before.scope_ends.0
            &&& after.name == before.name
            &&& after.start == before.start
            &&& after.end == before.end
            &&& after.identifier_type == before.identifier_type
        },
        forall|s2: usize| s2 != d.current_scope.last().id && #[trigger] d.definitions.dom().contains(s2)
            ==> step(d, c).0.definitions[s2] == d.definitions[s2],
{
    let s = d.current_scope.last().id;
    let r = step(d, c).0;
    let t = d.definitions[s];
    assert(r.definitions == d.definitions.insert(s, closed_table(t, c.start)));
    assert(r.definitions.dom() =~= d.definitions.dom());
    assert(closed_table(t, c.start).dom() =~= t.dom());
}

/// Closing a branch: an `elif` or `else` statement start not handled
/// before, inside an `if` or `elif` branch whose table is recorded, closes
/// that branch.  The walk goes on, and every definition recorded in the
/// branch keeps its name, span, kind and scope, and its scope now ends where
/// the capture starts.
pub proof fn lemma_branch_start_closes_branch(d: DefsV, c: CaptureV)
    requires
        def_kind(c.name) == DefCapture::StatementStart,
        !d.statements.contains(c.id),
        d.last_keyword == "elif"@ || d.last_keyword == "else"@,
        d.current_scope.len() > 0,
        d.current_scope.last().keyword == "elif"@ || d.current_scope.last().keyword == "if"@,
        d.definitions.dom().contains(d.current_scope.last().id),
        d.current_scope.last().id <= d.scope_id,
        d.scope_id < usize::MAX,
    ensures
        step(d, c).1 == Some(true),
        step(d, c).0.definitions.dom().contains(d.current_scope.last().id),
        step(d, c).0.definitions[d.current_scope.last().id].dom() == d.definitions[d.current_scope.last().id].dom(),
        forall|n: usize| #[trigger] d.definitions[d.current_scope.last().id].dom().contains(n) ==> {
            let before = d.definitions[d.current_scope.last().id][n];
            let after = step(d, c).0.definitions[d.current_scope.last().id][n];
            &&& after.scope_ends.1 == c.start
            &&& after.scope_ends.0 == before.scope_ends.0
            &&& after.name == before.name
            &&& after.start == before.start
            &&& after.end == before.end
            &&& after.identifier_type == before.identifier_type
        },
{
    let s = d.current_scope.last().id;
    let t = d.definitions[s];
    let d1 = marked(d, c.id);
    let d2 = DefsV { current_scope: d1.current_scope.drop_last(), ..d1 };
    let w = with_closed(d2, s, c.start);
    assert(w.definitions == d.definitions.insert(s, closed_table(t, c.start)));
    assert(closed_table(t, c.start).dom() =~= t.dom());
    assert(step(d, c).0 == opened(w, d.last_keyword, c.end));
    if w.last_point != c.end {
        assert((w.scope_id + 1) as usize != s);
        assert(opened(w, d.last_keyword, c.end).definitions[s] == w.definitions[s]);
    }
}

} // verus!
