use vstd::prelude::*;

use crate::point::{p_le, p_lt, spec_to_range, to_range, Point, Range};
use crate::text::{copy_str, push_char};
use vstd::string::StringSliceAdditionalSpecFns;

pub mod definition;
pub mod order;
pub mod templates;
pub mod objects;
pub mod queries;
pub mod snippets_completion;
pub mod rust_identifiers;
pub mod rust_template_completion;
pub mod python_identifiers;
pub mod jinja_state;
pub mod rust_state;

verus! {

/// What a name in a template stands for.
#[derive(Clone, Copy, PartialEq, Eq, Structural, Debug)]
pub enum IdentifierType {
    ForLoopKey,
    ForLoopValue,
    ForLoopCount,
    SetVariable,
    WithVariable,
    MacroName,
    MacroParameter,
    TemplateBlock,
    BackendVariable,
    UndefinedVariable,
    JinjaTemplate,
}

/// The position of a kind in the declared order of the kinds.
pub open spec fn type_rank(t: IdentifierType) -> int {
    match t {
        IdentifierType::ForLoopKey => 0,
        IdentifierType::ForLoopValue => 1,
        IdentifierType::ForLoopCount => 2,
        IdentifierType::SetVariable => 3,
        IdentifierType::WithVariable => 4,
        IdentifierType::MacroName => 5,
        IdentifierType::MacroParameter => 6,
        IdentifierType::TemplateBlock => 7,
        IdentifierType::BackendVariable => 8,
        IdentifierType::UndefinedVariable => 9,
        IdentifierType::JinjaTemplate => 10,
    }
}

/// The kind of a completion item, as the protocol names it.
#[derive(Clone, Copy, PartialEq, Eq, Structural, Debug)]
pub enum CompletionItemKind {
    Variable,
    Field,
    Function,
    Module,
    Constant,
    File,
    Text,
    Snippet,
}

/// The kind of a document symbol, as the protocol names it.
#[derive(Clone, Copy, PartialEq, Eq, Structural, Debug)]
pub enum SymbolKind {
    Variable,
    Field,
    Function,
    Module,
    Constant,
    File,
}

/// The description shown beside a completion of each kind of name.
pub open spec fn detail_text(t: IdentifierType) -> Seq<char> {
    match t {
        IdentifierType::ForLoopKey => "For loop key"@,
        IdentifierType::ForLoopValue => "For loop value"@,
        IdentifierType::ForLoopCount => "For loop count"@,
        IdentifierType::SetVariable => "Set variable"@,
        IdentifierType::WithVariable => "With variable"@,
        IdentifierType::MacroName => "Macro"@,
        IdentifierType::MacroParameter => "Macro parameter"@,
        IdentifierType::TemplateBlock => "Template block"@,
        IdentifierType::BackendVariable => "Backend variable"@,
        IdentifierType::UndefinedVariable => "Undefined variable"@,
        IdentifierType::JinjaTemplate => "Jinja template"@,
    }
}

/// The completion kind of each kind of name.
pub open spec fn spec_completion_kind(t: IdentifierType) -> CompletionItemKind {
    match t {
        IdentifierType::ForLoopCount | IdentifierType::MacroParameter => CompletionItemKind::Field,
        IdentifierType::MacroName => CompletionItemKind::Function,
        IdentifierType::TemplateBlock => CompletionItemKind::Module,
        IdentifierType::UndefinedVariable => CompletionItemKind::Constant,
        IdentifierType::JinjaTemplate => CompletionItemKind::File,
        _ => CompletionItemKind::Variable,
    }
}

/// The symbol kind of each kind of name.
pub open spec fn spec_symbol_kind(t: IdentifierType) -> SymbolKind {
    match t {
        IdentifierType::ForLoopCount | IdentifierType::MacroParameter => SymbolKind::Field,
        IdentifierType::MacroName => SymbolKind::Function,
        IdentifierType::TemplateBlock => SymbolKind::Module,
        IdentifierType::UndefinedVariable => SymbolKind::Constant,
        IdentifierType::JinjaTemplate => SymbolKind::File,
        _ => SymbolKind::Variable,
    }
}

impl IdentifierType {
    /// The description of this kind of name.
    pub fn completion_detail(&self) -> (s: &'static str)
        ensures
            s@ == detail_text(*self),
    {
        match self {
            IdentifierType::ForLoopKey => {
                proof { reveal_strlit("For loop key"); }
                "For loop key"
            },
            IdentifierType::ForLoopValue => {
                proof { reveal_strlit("For loop value"); }
                "For loop value"
            },
            IdentifierType::ForLoopCount => {
                proof { reveal_strlit("For loop count"); }
                "For loop count"
            },
            IdentifierType::SetVariable => {
                proof { reveal_strlit("Set variable"); }
                "Set variable"
            },
            IdentifierType::WithVariable => {
                proof { reveal_strlit("With variable"); }
                "With variable"
            },
            IdentifierType::MacroName => {
                proof { reveal_strlit("Macro"); }
                "Macro"
            },
            IdentifierType::MacroParameter => {
                proof { reveal_strlit("Macro parameter"); }
                "Macro parameter"
            },
            IdentifierType::TemplateBlock => {
                proof { reveal_strlit("Template block"); }
                "Template block"
            },
            IdentifierType::BackendVariable => {
                proof { reveal_strlit("Backend variable"); }
                "Backend variable"
            },
            IdentifierType::UndefinedVariable => {
                proof { reveal_strlit("Undefined variable"); }
                "Undefined variable"
            },
            IdentifierType::JinjaTemplate => {
                proof { reveal_strlit("Jinja template"); }
                "Jinja template"
            },
        }
    }

    /// The completion kind of this kind of name.
    pub fn completion_kind(&self) -> (k: CompletionItemKind)
        ensures
            k == spec_completion_kind(*self),
    {
        match self {
            IdentifierType::ForLoopCount | IdentifierType::MacroParameter => CompletionItemKind::Field,
            IdentifierType::MacroName => CompletionItemKind::Function,
            IdentifierType::TemplateBlock => CompletionItemKind::Module,
            IdentifierType::UndefinedVariable => CompletionItemKind::Constant,
            IdentifierType::JinjaTemplate => CompletionItemKind::File,
            _ => CompletionItemKind::Variable,
        }
    }

    /// The symbol kind of this kind of name.
    pub fn symbol_kind(&self) -> (k: SymbolKind)
        ensures
            k == spec_symbol_kind(*self),
    {
        match self {
            IdentifierType::ForLoopCount | IdentifierType::MacroParameter => SymbolKind::Field,
            IdentifierType::MacroName => SymbolKind::Function,
            IdentifierType::TemplateBlock => SymbolKind::Module,
            IdentifierType::UndefinedVariable => SymbolKind::Constant,
            IdentifierType::JinjaTemplate => SymbolKind::File,
            _ => SymbolKind::Variable,
        }
    }
}

/// A named thing found in a document: where it stands, what it is, and, for
/// definitions, the scope that it belongs to and where that scope ends.
#[derive(Debug)]
pub struct Identifier {
    pub start: Point,
    pub end: Point,
    pub name: String,
    pub scope_ends: (usize, Point),
    pub identifier_type: IdentifierType,
    pub fields: Vec<(String, (Point, Point))>,
}

/// An identifier as plain values.
pub struct IdentV {
    pub start: Point,
    pub end: Point,
    pub name: Seq<char>,
    pub scope_ends: (usize, Point),
    pub identifier_type: IdentifierType,
    pub fields: Seq<(Seq<char>, (Point, Point))>,
}

/// The plain value of a list of named ranges.
pub open spec fn fields_view(f: Seq<(String, (Point, Point))>) -> Seq<(Seq<char>, (Point, Point))> {
    f.map_values(|x: (String, (Point, Point))| (x.0@, x.1))
}

impl View for Identifier {
    type V = IdentV;

    open spec fn view(&self) -> IdentV {
        IdentV {
            start: self.start,
            end: self.end,
            name: self.name@,
            scope_ends: self.scope_ends,
            identifier_type: self.identifier_type,
            fields: fields_view(self.fields@),
        }
    }
}

/// A fresh identifier: an undefined variable with no fields and an empty scope.
pub open spec fn new_ident(name: Seq<char>, start: Point, end: Point) -> IdentV {
    IdentV {
        start,
        end,
        name,
        scope_ends: (0, Point { row: 0, column: 0 }),
        identifier_type: IdentifierType::UndefinedVariable,
        fields: Seq::empty(),
    }
}

/// The dotted path of a name and its fields: `name.field1.field2`.
pub open spec fn merged(name: Seq<char>, fields: Seq<(Seq<char>, (Point, Point))>) -> Seq<char>
    decreases fields.len(),
{
    if fields.len() == 0 {
        name
    } else {
        merged(name, fields.drop_last()) + seq!['.'] + fields.last().0
    }
}

/// Copies a list of named ranges.
pub fn copy_fields(f: &Vec<(String, (Point, Point))>) -> (r: Vec<(String, (Point, Point))>)
    ensures
        fields_view(r@) == fields_view(f@),
{
    let mut r: Vec<(String, (Point, Point))> = Vec::new();
    let mut i: usize = 0;
    while i < f.len()
        invariant
            i <= f.len(),
            fields_view(r@) == fields_view(f@).take(i as int),
        decreases f.len() - i,
    {
        let name = copy_str(f[i].0.as_str());
        let ghost old_r = r@;
        r.push((name, f[i].1));
        proof {
            assert(r@ == old_r.push((name, f@[i as int].1)));
            assert(fields_view(r@) =~= fields_view(old_r).push((f@[i as int].0@, f@[i as int].1)));
        }
        i = i + 1;
        assert(fields_view(r@) =~= fields_view(f@).take(i as int));
    }
    assert(fields_view(f@).take(f.len() as int) =~= fields_view(f@));
    r
}

impl Identifier {
    pub fn new(name: &str, start: Point, end: Point) -> (r: Identifier)
        ensures
            r@ == new_ident(name@, start, end),
    {
        let r = Identifier {
            name: copy_str(name),
            start,
            end,
            scope_ends: (0, Point::zero()),
            identifier_type: IdentifierType::UndefinedVariable,
            fields: Vec::new(),
        };
        assert(fields_view(r.fields@) =~= Seq::empty());
        r
    }

    /// A copy of this identifier.
    pub fn copy(&self) -> (r: Identifier)
        ensures
            r@ == self@,
    {
        Identifier {
            name: copy_str(self.name.as_str()),
            start: self.start,
            end: self.end,
            scope_ends: self.scope_ends,
            identifier_type: self.identifier_type,
            fields: copy_fields(&self.fields),
        }
    }

    /// The name followed by each field, joined with dots.
    pub fn merge(&self) -> (s: String)
        ensures
            s@ == merged(self.name@, self@.fields),
    {
        let mut merged_name = copy_str(self.name.as_str());
        let mut i: usize = 0;
        while i < self.fields.len()
            invariant
                i <= self.fields.len(),
                merged_name@ == merged(self.name@, self@.fields.take(i as int)),
            decreases self.fields.len() - i,
        {
            push_char(&mut merged_name, '.');
            merged_name.append(self.fields[i].0.as_str());
            i = i + 1;
            assert(self@.fields.take(i as int).drop_last() == self@.fields.take(i - 1));
        }
        assert(self@.fields.take(self.fields.len() as int) == self@.fields);
        merged_name
    }
}

/// What of an identifier's name has been typed when the cursor stands at
/// `trigger`: the bytes of the name up to and including the one under the
/// cursor, counted back from the identifier's end.  The whole name when the
/// cursor is at the end or one column before it; nothing when the cursor is
/// further back than the name is long, when it stands at a column after the
/// end, or when the cut falls inside a character.
pub open spec fn spec_completion_start(trigger: Point, ident: IdentV) -> Option<Seq<u8>> {
    let bytes = crate::text::utf8_bytes(ident.name);
    let len = (bytes.len() as usize) as int;
    if trigger.column > ident.end.column {
        None
    } else {
        let diff = ident.end.column - trigger.column;
        if diff == 0 || diff == 1 {
            Some(bytes)
        } else if diff > len {
            None
        } else if vstd::utf8::is_char_boundary(bytes, len - diff + 1) {
            Some(bytes.take(len - diff + 1))
        } else {
            None
        }
    }
}

/// The typed part of `identifier`'s name at `trigger_point`.
pub fn completion_start<'a>(trigger_point: Point, identifier: &'a Identifier) -> (r: Option<&'a str>)
    ensures
        match r {
            Some(s) => spec_completion_start(trigger_point, identifier@) == Some(s.spec_bytes()),
            None => spec_completion_start(trigger_point, identifier@) is None,
        },
{
    let name = identifier.name.as_str();
    let len = name.len();
    if trigger_point.column > identifier.end.column {
        return None;
    }
    let diff = identifier.end.column - trigger_point.column;
    if diff == 0 || diff == 1 {
        return Some(name);
    }
    if diff > len {
        return None;
    }
    let to = len - diff;
    if name.is_char_boundary(to + 1) {
        let (head, _) = name.split_at(to + 1);
        assert(head.spec_bytes() =~= name.spec_bytes().take(to + 1));
        Some(head)
    } else {
        None
    }
}

} // verus!
