use vstd::prelude::*;

use crate::assoc::lemma_map_values_insert;
use vstd::std_specs::iter::IteratorSpec;
use crate::point::{p_le, Point};
use crate::search::order::idents_view;
use crate::search::{new_ident, IdentV, Identifier, IdentifierType};
use crate::syntax::{capture_names, matches_view, names_within, query_matches, CaptureV, Capture};
use crate::text::{copy_str, remove_quotes, str_eq, without_quotes};

verus! {

/// A statement that brings in other templates.
#[derive(Debug)]
pub enum Import {
    /// `{% extends "base.html" %}`
    Extends { template: Identifier },
    /// `{% include "a.html" %}`, with each template it names.
    Include { templates: Vec<Identifier> },
    /// `{% from "macros.html" import a, b %}`
    From { template: Identifier, identifiers: Vec<Identifier> },
    /// `{% import "macros.html" as m %}`
    Import { template: Identifier, identifier: Identifier },
}

pub enum ImportV {
    Extends { template: IdentV },
    Include { templates: Seq<IdentV> },
    From { template: IdentV, identifiers: Seq<IdentV> },
    Import { template: IdentV, identifier: IdentV },
}

impl View for Import {
    type V = ImportV;

    open spec fn view(&self) -> ImportV {
        match self {
            Import::Extends { template } => ImportV::Extends { template: template@ },
            Import::Include { templates } => ImportV::Include { templates: idents_view(templates@) },
            Import::From { template, identifiers } => ImportV::From { template: template@, identifiers: idents_view(identifiers@) },
            Import::Import { template, identifier } => ImportV::Import { template: template@, identifier: identifier@ },
        }
    }
}

/// The import statement that the walk is filling in, if any.
#[derive(Clone, Copy, PartialEq, Eq, Structural, Debug)]
pub enum Current {
    Id(usize),
    Nothing,
}

/// The import statements of a template, by the node that holds each one.
#[derive(Debug)]
pub struct JinjaImports {
    pub imports: std::collections::HashMap<usize, Import>,
    pub current: Current,
    pub last_id: usize,
}

pub struct ImportsV {
    pub imports: Map<usize, ImportV>,
    pub current: Current,
    pub last_id: usize,
}

impl View for JinjaImports {
    type V = ImportsV;

    open spec fn view(&self) -> ImportsV {
        ImportsV {
            imports: self.imports@.map_values(|i: Import| i@),
            current: self.current,
            last_id: self.last_id,
        }
    }
}

/// An identifier with no name, at the start of the document.
pub open spec fn default_ident() -> IdentV {
    new_ident(Seq::empty(), Point { row: 0, column: 0 }, Point { row: 0, column: 0 })
}

/// A template named at `start`..`end`.
pub open spec fn template_ident(name: Seq<char>, start: Point, end: Point) -> IdentV {
    IdentV { identifier_type: IdentifierType::JinjaTemplate, ..new_ident(name, start, end) }
}

/// A template slot gets a name only while it has none.
pub open spec fn named_template(t: IdentV, name: Seq<char>, start: Point, end: Point) -> IdentV {
    if t.name.len() == 0 {
        IdentV { name, start, end, identifier_type: IdentifierType::JinjaTemplate, ..t }
    } else {
        t
    }
}

/// An import statement after a template name is read for it.
pub open spec fn with_template_name(imp: ImportV, name: Seq<char>, start: Point, end: Point) -> ImportV {
    match imp {
        ImportV::Extends { template } => ImportV::Extends { template: named_template(template, name, start, end) },
        ImportV::Include { templates } => ImportV::Include { templates: templates.push(template_ident(name, start, end)) },
        ImportV::From { template, identifiers } => ImportV::From {
            template: named_template(template, name, start, end),
            identifiers,
        },
        ImportV::Import { template, identifier } => ImportV::Import {
            template: named_template(template, name, start, end),
            identifier,
        },
    }
}

/// A statement at node `id` begins: a new one is recorded and becomes the
/// current one; one seen before makes `seen` current.
pub open spec fn import_started(d: ImportsV, id: usize, fresh: ImportV, seen: Current) -> ImportsV {
    if d.imports.dom().contains(id) {
        ImportsV { current: seen, ..d }
    } else {
        ImportsV { imports: d.imports.insert(id, fresh), current: Current::Id(id), last_id: id }
    }
}

/// The kinds of captures that the imports query yields.
#[derive(Clone, Copy, PartialEq, Eq, Structural, Debug)]
pub enum ImportCapture {
    Error,
    Extends,
    Include,
    Import,
    From,
    TemplateName,
    ImportIdentifier,
    Other,
}

/// The kind of a capture, by its name.
pub open spec fn import_kind(name: Seq<char>) -> ImportCapture {
    if name == "error"@ {
        ImportCapture::Error
    } else if name == "extends"@ {
        ImportCapture::Extends
    } else if name == "include"@ {
        ImportCapture::Include
    } else if name == "import"@ {
        ImportCapture::Import
    } else if name == "from"@ {
        ImportCapture::From
    } else if name == "template_name"@ {
        ImportCapture::TemplateName
    } else if name == "import_identifier"@ {
        ImportCapture::ImportIdentifier
    } else {
        ImportCapture::Other
    }
}

/// Tells the kind of a capture by its name.
pub fn classify_import(name: &str) -> (k: ImportCapture)
    ensures
        k == import_kind(name@),
{
    proof {
        reveal_strlit("error");
        reveal_strlit("extends");
        reveal_strlit("include");
        reveal_strlit("import");
        reveal_strlit("from");
        reveal_strlit("template_name");
        reveal_strlit("import_identifier");
    }
    if str_eq(name, "error") {
        ImportCapture::Error
    } else if str_eq(name, "extends") {
        ImportCapture::Extends
    } else if str_eq(name, "include") {
        ImportCapture::Include
    } else if str_eq(name, "import") {
        ImportCapture::Import
    } else if str_eq(name, "from") {
        ImportCapture::From
    } else if str_eq(name, "template_name") {
        ImportCapture::TemplateName
    } else if str_eq(name, "import_identifier") {
        ImportCapture::ImportIdentifier
    } else {
        ImportCapture::Other
    }
}

/// One step of the walk over the imports query: how a capture changes the
/// imports, and whether the walk goes on with the rest of the match.
pub open spec fn import_step(d: ImportsV, c: CaptureV) -> (ImportsV, Option<()>) {
    match import_kind(c.name) {
        ImportCapture::Error => (d, None),
        ImportCapture::Extends => (
            import_started(d, c.id, ImportV::Extends { template: default_ident() }, Current::Nothing),
            Some(()),
        ),
        ImportCapture::Include => (
            import_started(d, c.id, ImportV::Include { templates: Seq::empty() }, Current::Id(c.id)),
            Some(()),
        ),
        ImportCapture::Import => (
            import_started(d, c.id, ImportV::Import { template: default_ident(), identifier: default_ident() }, Current::Id(c.id)),
            Some(()),
        ),
        ImportCapture::From => (
            import_started(d, c.id, ImportV::From { template: default_ident(), identifiers: Seq::empty() }, Current::Id(c.id)),
            Some(()),
        ),
        ImportCapture::TemplateName => match d.current {
            Current::Nothing => (d, Some(())),
            Current::Id(id) => {
                if !d.imports.dom().contains(id) || c.text is None {
                    (d, None)
                } else {
                    let name = without_quotes(c.text.unwrap());
                    (
                        ImportsV { imports: d.imports.insert(id, with_template_name(d.imports[id], name, c.start, c.end)), ..d },
                        Some(()),
                    )
                }
            },
        },
        ImportCapture::ImportIdentifier => match d.current {
            Current::Nothing => (d, Some(())),
            Current::Id(id) => {
                if !d.imports.dom().contains(id) || c.text is None {
                    (d, None)
                } else {
                    let t = c.text.unwrap();
                    match d.imports[id] {
                        ImportV::From { template, identifiers } => (
                            ImportsV {
                                imports: d.imports.insert(id, ImportV::From {
                                    template,
                                    identifiers: identifiers.push(new_ident(t, c.start, c.end)),
                                }),
                                ..d
                            },
                            Some(()),
                        ),
                        ImportV::Import { template, identifier } => {
                            if identifier.name.len() == 0 {
                                (
                                    ImportsV {
                                        imports: d.imports.insert(id, ImportV::Import {
                                            template,
                                            identifier: IdentV { name: t, ..identifier },
                                        }),
                                        current: Current::Nothing,
                                        ..d
                                    },
                                    Some(()),
                                )
                            } else {
                                (d, Some(()))
                            }
                        },
                        _ => (ImportsV { current: Current::Nothing, ..d }, Some(())),
                    }
                }
            },
        },
        ImportCapture::Other => (d, Some(())),
    }
}

/// Copies a list of identifiers.
pub fn copy_idents(v: &Vec<Identifier>) -> (r: Vec<Identifier>)
    ensures
        idents_view(r@) == idents_view(v@),
{
    let mut r: Vec<Identifier> = Vec::new();
    let mut i: usize = 0;
    while i < v.len()
        invariant
            i <= v@.len(),
            idents_view(r@) == idents_view(v@).take(i as int),
        decreases v.len() - i,
    {
        let ghost prev = r@;
        r.push(v[i].copy());
        proof {
            assert(idents_view(r@) =~= idents_view(prev).push(v@[i as int]@));
            assert(idents_view(v@).take(i + 1) =~= idents_view(v@).take(i as int).push(v@[i as int]@));
        }
        i = i + 1;
    }
    proof {
        assert(idents_view(v@).take(i as int) =~= idents_view(v@));
    }
    r
}

fn named_template_exec(t: &Identifier, name: &str, start: Point, end: Point) -> (r: Identifier)
    ensures
        r@ == named_template(t@, name@, start, end),
{
    let mut r = t.copy();
    if t.name.as_str().is_empty() {
        r.name = copy_str(name);
        r.start = start;
        r.end = end;
        r.identifier_type = IdentifierType::JinjaTemplate;
    }
    r
}

fn with_template_name_exec(imp: &Import, name: &str, start: Point, end: Point) -> (r: Import)
    ensures
        r@ == with_template_name(imp@, name@, start, end),
{
    match imp {
        Import::Extends { template } => Import::Extends { template: named_template_exec(template, name, start, end) },
        Import::Include { templates } => {
            let mut ts = copy_idents(templates);
            let mut t = Identifier::new(name, start, end);
            t.identifier_type = IdentifierType::JinjaTemplate;
            let ghost prev = ts@;
            ts.push(t);
            proof {
                assert(idents_view(ts@) =~= idents_view(prev).push(template_ident(name@, start, end)));
            }
            Import::Include { templates: ts }
        },
        Import::From { template, identifiers } => Import::From {
            template: named_template_exec(template, name, start, end),
            identifiers: copy_idents(identifiers),
        },
        Import::Import { template, identifier } => Import::Import {
            template: named_template_exec(template, name, start, end),
            identifier: identifier.copy(),
        },
    }
}

impl JinjaImports {
    /// No imports yet.
    pub fn new() -> (d: JinjaImports)
        ensures
            d@.imports == Map::<usize, ImportV>::empty(),
            d@.current == Current::Nothing,
            d@.last_id == 0,
    {
        let d = JinjaImports { imports: std::collections::HashMap::new(), current: Current::Nothing, last_id: 0 };
        proof {
            assert(d.imports@.map_values(|i: Import| i@) =~= Map::<usize, ImportV>::empty());
        }
        d
    }

    /// Replaces the statement of node `k`.
    fn replace(&mut self, k: usize, imp: Import)
        ensures
            final(self)@ == (ImportsV { imports: old(self)@.imports.insert(k, imp@), ..old(self)@ }),
    {
        broadcast use vstd::std_specs::hash::group_hash_axioms;
        let ghost before = self.imports@;
        self.imports.insert(k, imp);
        proof {
            lemma_map_values_insert(before, k, imp, |x: Import| x@);
        }
    }

    /// Records a statement that begins at node `id`.
    fn start(&mut self, id: usize, fresh: Import, seen: Current)
        ensures
            final(self)@ == import_started(old(self)@, id, fresh@, seen),
    {
        broadcast use vstd::std_specs::hash::group_hash_axioms;
        if self.imports.contains_key(&id) {
            self.current = seen;
        } else {
            self.replace(id, fresh);
            self.current = Current::Id(id);
            self.last_id = id;
        }
    }

    /// Takes one capture of the imports query.
    pub fn check(&mut self, capture: &Capture) -> (r: Option<()>)
        ensures
            (final(self)@, r) == import_step(old(self)@, capture@),
    {
        broadcast use vstd::std_specs::hash::group_hash_axioms;
        let ghost d0 = self@;
        match classify_import(capture.name.as_str()) {
            ImportCapture::Error => None,
            ImportCapture::Extends => {
                self.start(capture.id, Import::Extends { template: Identifier::new("", Point::zero(), Point::zero()) }, Current::Nothing);
                proof { reveal_strlit(""); assert(""@ =~= Seq::<char>::empty()); }
                Some(())
            },
            ImportCapture::Include => {
                let fresh = Import::Include { templates: Vec::new() };
                proof {
                    assert(idents_view(Seq::<Identifier>::empty()) =~= Seq::<IdentV>::empty());
                    assert(fresh@ == ImportV::Include { templates: Seq::empty() });
                }
                self.start(capture.id, fresh, Current::Id(capture.id));
                Some(())
            },
            ImportCapture::Import => {
                proof { reveal_strlit(""); assert(""@ =~= Seq::<char>::empty()); }
                let fresh = Import::Import {
                    template: Identifier::new("", Point::zero(), Point::zero()),
                    identifier: Identifier::new("", Point::zero(), Point::zero()),
                };
                self.start(capture.id, fresh, Current::Id(capture.id));
                Some(())
            },
            ImportCapture::From => {
                proof { reveal_strlit(""); assert(""@ =~= Seq::<char>::empty()); }
                let fresh = Import::From { template: Identifier::new("", Point::zero(), Point::zero()), identifiers: Vec::new() };
                proof { assert(idents_view(Seq::<Identifier>::empty()) =~= Seq::<IdentV>::empty()); }
                self.start(capture.id, fresh, Current::Id(capture.id));
                Some(())
            },
            ImportCapture::TemplateName => {
                match self.current {
                    Current::Nothing => Some(()),
                    Current::Id(id) => {
                        let imp = match self.imports.get(&id) {
                            Some(imp) => imp,
                            None => return None,
                        };
                        let t = match &capture.text {
                            Some(t) => t,
                            None => return None,
                        };
                        let name = remove_quotes(t.as_str());
                        let new = with_template_name_exec(imp, name.as_str(), capture.start, capture.end);
                        self.replace(id, new);
                        Some(())
                    },
                }
            },
            ImportCapture::ImportIdentifier => {
                match self.current {
                    Current::Nothing => Some(()),
                    Current::Id(id) => {
                        let t = match &capture.text {
                            Some(t) => t,
                            None => return None,
                        };
                        let imp = match self.imports.get(&id) {
                            Some(imp) => imp,
                            None => return None,
                        };
                        match imp {
                            Import::From { template, identifiers } => {
                                let mut ids = copy_idents(identifiers);
                                let ghost prev = ids@;
                                ids.push(Identifier::new(t.as_str(), capture.start, capture.end));
                                proof {
                                    assert(idents_view(ids@) =~= idents_view(prev).push(new_ident(t@, capture.start, capture.end)));
                                }
                                let new = Import::From { template: template.copy(), identifiers: ids };
                                self.replace(id, new);
                                Some(())
                            },
                            Import::Import { template, identifier } => {
                                if identifier.name.as_str().is_empty() {
                                    let mut ident = identifier.copy();
                                    ident.name = copy_str(t.as_str());
                                    let new = Import::Import { template: template.copy(), identifier: ident };
                                    self.replace(id, new);
                                    self.current = Current::Nothing;
                                }
                                Some(())
                            },
                            _ => {
                                self.current = Current::Nothing;
                                Some(())
                            },
                        }
                    },
                }
            },
            ImportCapture::Other => Some(()),
        }
    }
}

/// `p` lies within the identifier, ends included.
pub open spec fn covers(t: IdentV, p: Point) -> bool {
    p_le(t.start, p) && p_le(p, t.end)
}

/// The first identifier of the list that covers `p`.
pub open spec fn first_covering(ts: Seq<IdentV>, p: Point) -> Option<IdentV>
    decreases ts.len(),
{
    if ts.len() == 0 {
        None
    } else if covers(ts[0], p) {
        Some(ts[0])
    } else {
        first_covering(ts.drop_first(), p)
    }
}

/// The template name of an import statement that lies under `p`.
pub open spec fn import_template_at(imp: ImportV, p: Point) -> Option<IdentV> {
    match imp {
        ImportV::Include { templates } => first_covering(templates, p),
        ImportV::Extends { template } => if covers(template, p) { Some(template) } else { None },
        ImportV::From { template, .. } => if covers(template, p) { Some(template) } else { None },
        ImportV::Import { template, .. } => if covers(template, p) { Some(template) } else { None },
    }
}

/// The identifiers an import statement names, template first.
pub open spec fn import_idents(imp: ImportV) -> Seq<IdentV> {
    match imp {
        ImportV::Extends { template } => seq![template],
        ImportV::Include { templates } => templates,
        ImportV::From { template, identifiers } => seq![template] + identifiers,
        ImportV::Import { template, .. } => seq![template],
    }
}

/// The identifiers of the statements of `m` under the keys `ks`, taken in
/// that order.
pub open spec fn idents_by_keys(m: Map<usize, ImportV>, ks: Seq<usize>) -> Seq<IdentV>
    decreases ks.len(),
{
    if ks.len() == 0 {
        Seq::empty()
    } else {
        idents_by_keys(m, ks.drop_last()) + import_idents(m[ks.last()])
    }
}

/// `ts` lists the identifiers of every statement of `m`, each statement once
/// and whole, the statements in some order.
pub open spec fn lists_imports(m: Map<usize, ImportV>, ts: Seq<IdentV>) -> bool {
    exists|ks: Seq<usize>|
        #[trigger] idents_by_keys(m, ks) == ts
        && ks.no_duplicates()
        && (forall|k: usize| ks.contains(k) <==> m.dom().contains(k))
}

fn covers_exec(t: &Identifier, p: Point) -> (b: bool)
    ensures
        b == covers(t@, p),
{
    t.start.le(&p) && p.le(&t.end)
}

fn append_idents(ids: &mut Vec<Identifier>, v: &Vec<Identifier>)
    ensures
        idents_view(final(ids)@) == idents_view(old(ids)@) + idents_view(v@),
{
    let ghost start = idents_view(ids@);
    let mut i: usize = 0;
    while i < v.len()
        invariant
            i <= v@.len(),
            idents_view(ids@) == start + idents_view(v@).take(i as int),
        decreases v.len() - i,
    {
        let ghost prev = ids@;
        ids.push(v[i].copy());
        proof {
            assert(idents_view(ids@) =~= idents_view(prev).push(v@[i as int]@));
            assert(idents_view(v@).take(i + 1) =~= idents_view(v@).take(i as int).push(v@[i as int]@));
        }
        i = i + 1;
    }
    proof {
        assert(idents_view(v@).take(i as int) =~= idents_view(v@));
    }
}

impl Import {
    /// The template name of this statement that lies under `trigger_point`.
    pub fn get_identifier(&self, trigger_point: Point) -> (r: Option<&Identifier>)
        ensures
            match r {
                Some(t) => import_template_at(self@, trigger_point) == Some(t@),
                None => import_template_at(self@, trigger_point) is None,
            },
    {
        match self {
            Import::Include { templates } => {
                let mut i: usize = 0;
                proof {
                    assert(idents_view(templates@).skip(0) =~= idents_view(templates@));
                }
                while i < templates.len()
                    invariant
                        i <= templates@.len(),
                        self@ == (ImportV::Include { templates: idents_view(templates@) }),
                        first_covering(idents_view(templates@), trigger_point)
                            == first_covering(idents_view(templates@).skip(i as int), trigger_point),
                    decreases templates.len() - i,
                {
                    proof {
                        let rest = idents_view(templates@).skip(i as int);
                        assert(rest[0] == templates@[i as int]@);
                        assert(rest.drop_first() =~= idents_view(templates@).skip(i + 1));
                    }
                    if covers_exec(&templates[i], trigger_point) {
                        proof {
                            let rest = idents_view(templates@).skip(i as int);
                            assert(rest.len() > 0);
                            assert(rest[0] == templates@[i as int]@);
                            assert(first_covering(rest, trigger_point) == Some(rest[0]));
                            assert(self@ == ImportV::Include { templates: idents_view(templates@) });
                            assert(import_template_at(self@, trigger_point) == Some(templates@[i as int]@));
                        }
                        return Some(&templates[i]);
                    }
                    i = i + 1;
                }
                None
            },
            Import::Extends { template } | Import::From { template, .. } | Import::Import { template, .. } => {
                if covers_exec(template, trigger_point) {
                    Some(template)
                } else {
                    None
                }
            },
        }
    }

    /// Appends the identifiers this statement names, template first.
    pub fn collect(&self, ids: &mut Vec<Identifier>)
        ensures
            idents_view(final(ids)@) == idents_view(old(ids)@) + import_idents(self@),
    {
        let ghost start = idents_view(ids@);
        match self {
            Import::Extends { template } | Import::Import { template, .. } => {
                ids.push(template.copy());
                proof {
                    assert(idents_view(ids@) =~= start + seq![template@]);
                }
            },
            Import::Include { templates } => {
                append_idents(ids, templates);
            },
            Import::From { template, identifiers } => {
                ids.push(template.copy());
                proof {
                    assert(idents_view(ids@) =~= start + seq![template@]);
                }
                append_idents(ids, identifiers);
                proof {
                    assert(start + seq![template@] + idents_view(identifiers@) =~= start + (seq![template@] + idents_view(identifiers@)));
                }
            },
        }
    }
}

impl JinjaImports {
    /// The statement being filled in, if any.
    pub fn in_template(&self, _trigger_point: Point) -> (r: Option<&Import>)
        ensures
            match r {
                Some(imp) => self@.current matches Current::Id(id) && self@.imports.dom().contains(id)
                    && self@.imports[id] == imp@,
                None => !(self@.current matches Current::Id(id) && self@.imports.dom().contains(id)),
            },
    {
        broadcast use vstd::std_specs::hash::group_hash_axioms;
        match self.current {
            Current::Id(id) => self.imports.get(&id),
            Current::Nothing => None,
        }
    }

    /// Appends the identifiers of every statement: each statement once and
    /// whole, the statements in the order the map is walked.
    pub fn collect(self, ids: &mut Vec<Identifier>)
        ensures
            exists|ts: Seq<IdentV>| #[trigger] lists_imports(self@.imports, ts)
                && idents_view(final(ids)@) == idents_view(old(ids)@) + ts,
    {
        broadcast use vstd::std_specs::hash::group_hash_axioms;
        let ghost start = idents_view(ids@);
        let ghost m = self@.imports;
        let ghost keys = vstd::std_specs::hash::spec_keys_iter(&self.imports).remaining();
        let ghost ks = keys.map_values(|x: &usize| *x);
        proof {
            assert(ks.take(0) =~= Seq::<usize>::empty());
            assert(start + Seq::<IdentV>::empty() =~= start);
        }
        for k in it: self.imports.keys()
            invariant
                it.seq() == keys,
                ks == keys.map_values(|x: &usize| *x),
                keys.unref().to_set() == self.imports@.dom(),
                m == self@.imports,
                idents_view(ids@) == start + idents_by_keys(m, ks.take(it.index() as int)),
        {
            let ghost i = it.index();
            proof {
                assert(keys.unref()[i as int] == *k);
                assert(keys.unref().to_set().contains(*k));
            }
            if let Some(imp) = self.imports.get(k) {
                let ghost before = idents_view(ids@);
                imp.collect(ids);
                proof {
                    assert(ks.take(i + 1).drop_last() =~= ks.take(i as int));
                    assert(ks.take(i + 1).last() == *k);
                    assert(m[*k] == imp@);
                    assert(start + idents_by_keys(m, ks.take(i as int)) + import_idents(imp@)
                        =~= start + idents_by_keys(m, ks.take(i + 1)));
                }
            }
        }
        proof {
            assert(ks.take(keys.len() as int) =~= ks);
            assert(ks =~= keys.unref());
            assert forall|k: usize| ks.contains(k) <==> m.dom().contains(k) by {
                if ks.contains(k) {
                    assert(ks.to_set().contains(k));
                }
                if m.dom().contains(k) {
                    assert(keys.unref().to_set().contains(k));
                }
            }
            assert(lists_imports(m, idents_by_keys(m, ks)));
            assert(idents_view(ids@) =~= start + idents_by_keys(m, ks));
        }
    }
}

/// The walk over one match of the imports query: each capture that starts no
/// later than the trigger point (or every capture, with `all`) is taken in
/// turn, until a step says to stop.
pub open spec fn imports_walk_match(d: ImportsV, caps: Seq<CaptureV>, trigger: Point, all: bool) -> ImportsV
    decreases caps.len(),
{
    if caps.len() == 0 {
        d
    } else if all || p_le(caps[0].start, trigger) {
        let (d1, r) = import_step(d, caps[0]);
        if r is None {
            d1
        } else {
            imports_walk_match(d1, caps.drop_first(), trigger, all)
        }
    } else {
        imports_walk_match(d, caps.drop_first(), trigger, all)
    }
}

/// The imports that the query's matches describe.
pub open spec fn spec_imports(ms: Seq<Seq<CaptureV>>, trigger: Point, all: bool) -> ImportsV
    decreases ms.len(),
{
    if ms.len() == 0 {
        ImportsV { imports: Map::empty(), current: Current::Nothing, last_id: 0 }
    } else {
        imports_walk_match(spec_imports(ms.drop_last(), trigger, all), ms.last(), trigger, all)
    }
}

/// Walks the matches of the imports query, as `templates_query` does with
/// what tree-sitter returns.
pub fn imports_from_matches(matches: &Vec<Vec<Capture>>, trigger_point: Point, all: bool) -> (d: JinjaImports)
    ensures
        d@ == spec_imports(matches_view(matches@), trigger_point, all),
{
    let ghost ms = matches_view(matches@);
    let mut d = JinjaImports::new();
    let mut mi: usize = 0;
    proof {
        assert(ms.take(0) =~= Seq::<Seq<CaptureV>>::empty());
        assert(d@ == spec_imports(ms.take(0), trigger_point, all));
    }
    while mi < matches.len()
        invariant
            ms == matches_view(matches@),
            mi <= matches@.len(),
            d@ == spec_imports(ms.take(mi as int), trigger_point, all),
        decreases matches.len() - mi,
    {
        let m = &matches[mi];
        let ghost start_state = d@;
        let ghost mv = ms[mi as int];
        proof {
            assert(mv == crate::syntax::match_view(m@));
            assert(mv.skip(0) == mv);
        }
        let mut ci: usize = 0;
        let mut stopped = false;
        while ci < m.len() && !stopped
            invariant
                ms == matches_view(matches@),
                mi < matches@.len(),
                m == matches@[mi as int],
                mv == ms[mi as int],
                mv == crate::syntax::match_view(m@),
                ci <= m@.len(),
                stopped ==> d@ == imports_walk_match(start_state, mv, trigger_point, all),
                !stopped ==> imports_walk_match(d@, mv.skip(ci as int), trigger_point, all)
                    == imports_walk_match(start_state, mv, trigger_point, all),
            decreases m.len() - ci,
        {
            let c = &m[ci];
            proof {
                assert(mv.skip(ci as int)[0] == c@);
                assert(mv.skip(ci as int).drop_first() == mv.skip(ci + 1));
            }
            if all || c.start.le(&trigger_point) {
                let r = d.check(c);
                if r.is_none() {
                    stopped = true;
                }
            }
            ci = ci + 1;
        }
        proof {
            if !stopped {
                assert(mv.skip(ci as int).len() == 0);
            }
            let t = ms.take(mi + 1);
            assert(t.drop_last() =~= ms.take(mi as int));
            assert(t.last() == mv);
        }
        mi = mi + 1;
    }
    proof {
        assert(ms.take(mi as int) =~= ms);
    }
    d
}

/// Walks the imports query over `tree`.  What the walk sees comes from the
/// parse tree: the result is the walk over some list of the query's
/// matches, whose captures carry the query's names.
pub fn templates_query(query: &crate::syntax::SourcedQuery, tree: &tree_sitter::Tree, trigger_point: Point, text: &str, all: bool) -> (r: JinjaImports)
    ensures
        exists|ms: Seq<Seq<CaptureV>>|
            names_within(ms, capture_names(query@.0, query@.1)) && #[trigger] spec_imports(ms, trigger_point, all) == r@,
{
    let matches = query_matches(query, tree, text);
    imports_from_matches(&matches, trigger_point, all)
}

/// The template that a statement other than `include` names.
pub open spec fn template_of(imp: ImportV) -> Option<IdentV> {
    match imp {
        ImportV::Extends { template } => Some(template),
        ImportV::From { template, .. } => Some(template),
        ImportV::Import { template, .. } => Some(template),
        ImportV::Include { .. } => None,
    }
}

/// No capture removes a recorded statement, a statement's template keeps the
/// first name it was given, and the templates of an `include` are only ever
/// added to.
pub proof fn lemma_import_step_keeps(d: ImportsV, c: CaptureV, id: usize)
    requires
        d.imports.dom().contains(id),
    ensures
        import_step(d, c).0.imports.dom().contains(id),
        template_of(d.imports[id]) matches Some(t) ==> (t.name.len() > 0
            ==> template_of(import_step(d, c).0.imports[id]) == Some(t)),
        d.imports[id] matches ImportV::Include { templates } ==> (import_step(d, c).0.imports[id] matches ImportV::Include { templates: t2 }
            && t2.len() >= templates.len() && t2.take(templates.len() as int) == templates),
{
    let r = import_step(d, c).0;
    if let ImportV::Include { templates } = d.imports[id] {
        if let ImportV::Include { templates: t2 } = r.imports[id] {
            if t2.len() > templates.len() {
                assert(t2.take(templates.len() as int) =~= templates);
            } else {
                assert(t2.take(templates.len() as int) =~= templates);
            }
        }
    }
}


/// A template name names the current statement's template: after a
/// `template_name` capture with readable text, for a current statement that
/// is recorded, the walk goes on, the other statements stay as they were,
/// and the statement's template, where it had no name yet, is the capture's
/// text without its quotes, spanning the capture, of the template kind; an
/// `include` gains such a template after the ones it had.  A template that
/// has a name keeps it.
pub proof fn lemma_template_name_names_template(d: ImportsV, c: CaptureV, id: usize)
    requires
        import_kind(c.name) == ImportCapture::TemplateName,
        d.current == Current::Id(id),
        d.imports.dom().contains(id),
        c.text is Some,
    ensures
        import_step(d, c).1 == Some(()),
        import_step(d, c).0.imports.dom() == d.imports.dom(),
        import_step(d, c).0.current == d.current,
        forall|k: usize| k != id && #[trigger] d.imports.dom().contains(k) ==> import_step(d, c).0.imports[k] == d.imports[k],
        match (d.imports[id], import_step(d, c).0.imports[id]) {
            (ImportV::Extends { template: t0 }, ImportV::Extends { template: t1 }) => named_fresh(t0, t1, c),
            (ImportV::From { template: t0, identifiers: a }, ImportV::From { template: t1, identifiers: b }) => named_fresh(t0, t1, c) && a == b,
            (ImportV::Import { template: t0, identifier: a }, ImportV::Import { template: t1, identifier: b }) => named_fresh(t0, t1, c) && a == b,
            (ImportV::Include { templates: a }, ImportV::Include { templates: b }) => b.len() == a.len() + 1 && b.take(a.len() as int) == a
                && b.last().name == without_quotes(c.text.unwrap()) && b.last().start == c.start && b.last().end == c.end
                && b.last().identifier_type == IdentifierType::JinjaTemplate,
            _ => false,
        },
{
    let r = import_step(d, c).0;
    assert(r.imports.dom() =~= d.imports.dom());
    match d.imports[id] {
        ImportV::Include { templates } => {
            assert(templates.push(template_ident(without_quotes(c.text.unwrap()), c.start, c.end)).take(templates.len() as int) =~= templates);
        },
        _ => {},
    }
}

/// Template `t1` is template `t0` after the capture `c` named it: named by
/// the capture's unquoted text over its span, of the template kind, where
/// `t0` had no name; `t0` itself otherwise.
pub open spec fn named_fresh(t0: IdentV, t1: IdentV, c: CaptureV) -> bool {
    if t0.name.len() == 0 {
        &&& t1.name == without_quotes(c.text.unwrap())
        &&& t1.start == c.start
        &&& t1.end == c.end
        &&& t1.identifier_type == IdentifierType::JinjaTemplate
    } else {
        t1 == t0
    }
}

} // verus!
