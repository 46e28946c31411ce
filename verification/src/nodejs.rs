use vstd::prelude::*;

use crate::lsp_helper::names_view;
use crate::point::{Point, Position, Range};
use crate::search::objects::JinjaObject;
use crate::search::python_identifiers::PythonIdentifier;
use crate::search::{CompletionItemKind, Identifier, IdentifierType};
use crate::lsp::filter::FilterCompletion;
use crate::lsp::task::hover_filter;
use crate::search::detail_text;
use crate::text::{copy_str, joined, seq_starts_with, split_by, split_on, starts_with, str_eq};
use vstd::std_specs::convert::FromSpecImpl;

verus! {

/// A position as the JavaScript bindings hand it over.
#[derive(Clone, Copy, PartialEq, Eq, Structural, Debug, Default)]
pub struct JsPosition {
    pub line: u32,
    pub character: u32,
}

/// The JavaScript form of a point; each coordinate keeps its low 32 bits.
pub open spec fn js_position(p: Point) -> JsPosition {
    JsPosition { line: p.row as u32, character: p.column as u32 }
}

impl From<Point> for JsPosition {
    fn from(value: Point) -> (r: JsPosition) {
        JsPosition { line: value.row as u32, character: value.column as u32 }
    }
}

impl FromSpecImpl<Point> for JsPosition {
    open spec fn obeys_from_spec() -> bool {
        true
    }

    open spec fn from_spec(value: Point) -> JsPosition {
        js_position(value)
    }
}

impl JsPosition {
    /// The JavaScript form of a protocol position.
    pub fn from_position(value: &Position) -> (r: JsPosition)
        ensures
            r.line == value.line,
            r.character == value.character,
    {
        JsPosition { line: value.line, character: value.character }
    }
}

/// What a name stands for, as the JavaScript bindings tell it.
#[derive(Clone, Copy, PartialEq, Eq, Structural, Debug)]
pub enum JsIdentifierType {
    ForLoopKey,
    ForLoopValue,
    ForLoopCount,
    SetVariable,
    WithVariable,
    MacroName,
    MacroParameter,
    TemplateBlock,
    BackendVariable,
    UndefinedVariable,
    JinjaTemplate,
    Link,
}

/// The JavaScript kind of each kind of name.
pub open spec fn js_type(t: IdentifierType) -> JsIdentifierType {
    match t {
        IdentifierType::ForLoopKey => JsIdentifierType::ForLoopKey,
        IdentifierType::ForLoopValue => JsIdentifierType::ForLoopValue,
        IdentifierType::ForLoopCount => JsIdentifierType::ForLoopCount,
        IdentifierType::SetVariable => JsIdentifierType::SetVariable,
        IdentifierType::WithVariable => JsIdentifierType::WithVariable,
        IdentifierType::MacroName => JsIdentifierType::MacroName,
        IdentifierType::MacroParameter => JsIdentifierType::MacroParameter,
        IdentifierType::TemplateBlock => JsIdentifierType::TemplateBlock,
        IdentifierType::BackendVariable => JsIdentifierType::BackendVariable,
        IdentifierType::UndefinedVariable => JsIdentifierType::UndefinedVariable,
        IdentifierType::JinjaTemplate => JsIdentifierType::JinjaTemplate,
    }
}

impl From<IdentifierType> for JsIdentifierType {
    fn from(value: IdentifierType) -> (r: JsIdentifierType) {
        match value {
            IdentifierType::ForLoopKey => JsIdentifierType::ForLoopKey,
            IdentifierType::ForLoopValue => JsIdentifierType::ForLoopValue,
            IdentifierType::ForLoopCount => JsIdentifierType::ForLoopCount,
            IdentifierType::SetVariable => JsIdentifierType::SetVariable,
            IdentifierType::WithVariable => JsIdentifierType::WithVariable,
            IdentifierType::MacroName => JsIdentifierType::MacroName,
            IdentifierType::MacroParameter => JsIdentifierType::MacroParameter,
            IdentifierType::TemplateBlock => JsIdentifierType::TemplateBlock,
            IdentifierType::BackendVariable => JsIdentifierType::BackendVariable,
            IdentifierType::UndefinedVariable => JsIdentifierType::UndefinedVariable,
            IdentifierType::JinjaTemplate => JsIdentifierType::JinjaTemplate,
        }
    }
}

impl FromSpecImpl<IdentifierType> for JsIdentifierType {
    open spec fn obeys_from_spec() -> bool {
        true
    }

    open spec fn from_spec(value: IdentifierType) -> JsIdentifierType {
        js_type(value)
    }
}

/// A name as the JavaScript bindings hand it over.
#[derive(Debug)]
pub struct JsIdentifier {
    pub start: JsPosition,
    pub end: JsPosition,
    pub name: String,
    pub identifier_type: JsIdentifierType,
    pub error: Option<String>,
}

impl JsIdentifier {
    /// The JavaScript form of an identifier, with no error.
    pub fn from_identifier(value: &Identifier) -> (r: JsIdentifier)
        ensures
            r.start == js_position(value.start),
            r.end == js_position(value.end),
            r.name@ == value.name@,
            r.identifier_type == js_type(value.identifier_type),
            r.error is None,
    {
        JsIdentifier {
            start: JsPosition::from(value.start),
            end: JsPosition::from(value.end),
            name: copy_str(value.name.as_str()),
            identifier_type: JsIdentifierType::from(value.identifier_type),
            error: None,
        }
    }
}

/// What hovering shows, as the JavaScript bindings hand it over.
#[derive(Debug)]
pub struct JsHover {
    pub kind: String,
    pub value: String,
    pub range: Option<JsRange>,
    pub label: Option<String>,
    pub documentaion: Option<String>,
}

/// A range as the JavaScript bindings hand it over.
#[derive(Clone, Copy, PartialEq, Eq, Structural, Debug)]
pub struct JsRange {
    pub start: JsPosition,
    pub end: JsPosition,
}

impl JsRange {
    /// The JavaScript form of a protocol range.
    pub fn from_range(value: &Range) -> (r: JsRange)
        ensures
            r.start.line == value.start.line && r.start.character == value.start.character,
            r.end.line == value.end.line && r.end.character == value.end.character,
    {
        JsRange { start: JsPosition::from_position(&value.start), end: JsPosition::from_position(&value.end) }
    }
}

/// A place in a file, as the JavaScript bindings hand it over.
#[derive(Debug)]
pub struct JsLocation {
    pub uri: String,
    pub range: JsRange,
    pub is_backend: bool,
    pub name: String,
}

impl JsLocation {
    /// The JavaScript form of a location in the file `uri`: not in the
    /// backend, with no name.
    pub fn from_location(uri: &str, range: &Range) -> (r: JsLocation)
        ensures
            r.uri@ == uri@,
            r.range == JsRange::from_range_spec(*range),
            !r.is_backend,
            r.name@.len() == 0,
    {
        JsLocation { uri: copy_str(uri), range: JsRange::from_range(range), is_backend: false, name: String::new() }
    }
}

impl JsRange {
    pub open spec fn from_range_spec(value: Range) -> JsRange {
        JsRange {
            start: JsPosition { line: value.start.line, character: value.start.character },
            end: JsPosition { line: value.end.line, character: value.end.character },
        }
    }
}

/// A completion as the JavaScript bindings hand it over.
#[derive(Debug)]
pub struct JsCompletionItem {
    pub completion_type: JsCompletionType,
    pub label: String,
    pub kind: Kind2,
    pub description: String,
    pub new_text: Option<String>,
    pub insert: Option<JsRange>,
    pub replace: Option<JsRange>,
}

/// The kinds of completions the JavaScript bindings know.
#[allow(non_camel_case_types)]
#[derive(Clone, Copy, PartialEq, Eq, Structural, Debug)]
pub enum Kind2 {
    VARIABLE,
    FIELD,
    FUNCTION,
    MODULE,
    CONSTANT,
    FILE,
    TEXT,
}

/// The JavaScript kind of a completion kind; kinds it does not know become
/// variables.
pub open spec fn kind2_of(k: CompletionItemKind) -> Kind2 {
    match k {
        CompletionItemKind::Variable => Kind2::VARIABLE,
        CompletionItemKind::Field => Kind2::FIELD,
        CompletionItemKind::Function => Kind2::FUNCTION,
        CompletionItemKind::Module => Kind2::MODULE,
        CompletionItemKind::Constant => Kind2::CONSTANT,
        CompletionItemKind::File => Kind2::FILE,
        _ => Kind2::VARIABLE,
    }
}

impl From<CompletionItemKind> for Kind2 {
    fn from(value: CompletionItemKind) -> (r: Kind2) {
        if value == CompletionItemKind::Variable {
            Kind2::VARIABLE
        } else if value == CompletionItemKind::Field {
            Kind2::FIELD
        } else if value == CompletionItemKind::Function {
            Kind2::FUNCTION
        } else if value == CompletionItemKind::Module {
            Kind2::MODULE
        } else if value == CompletionItemKind::Constant {
            Kind2::CONSTANT
        } else if value == CompletionItemKind::File {
            Kind2::FILE
        } else {
            Kind2::VARIABLE
        }
    }
}

impl FromSpecImpl<CompletionItemKind> for Kind2 {
    open spec fn obeys_from_spec() -> bool {
        true
    }

    open spec fn from_spec(value: CompletionItemKind) -> Kind2 {
        kind2_of(value)
    }
}

/// The kinds of completion lists the JavaScript bindings ask for.
#[derive(Clone, Copy, PartialEq, Eq, Structural, Debug)]
pub enum JsCompletionType {
    Filter,
    Identifier,
    Snippets,
}

/// An action offered on an object, named by its dotted path.
#[derive(Debug)]
pub struct Action {
    pub name: String,
    pub description: String,
}

/// The dotted path of an object, piece by piece.
#[derive(Debug)]
pub struct ActionObject {
    pub fields: Vec<String>,
}

impl ActionObject {
    /// The pieces of an action's name between dots.
    pub fn from_action(value: &Action) -> (r: ActionObject)
        ensures
            names_view(r.fields@) == split_on(value.name@, '.'),
    {
        let fields = split_by(value.name.as_str(), '.');
        ActionObject { fields }
    }

    /// An object's name followed by its attributes.
    pub fn from_object(value: &JinjaObject) -> (r: ActionObject)
        ensures
            names_view(r.fields@) == seq![value.name@] + value@.fields.map_values(|f: (Seq<char>, (Point, Point))| f.0),
    {
        let mut fields: Vec<String> = Vec::new();
        fields.push(copy_str(value.name.as_str()));
        let mut i: usize = 0;
        let ghost fs = value@.fields.map_values(|f: (Seq<char>, (Point, Point))| f.0);
        proof {
            assert(names_view(fields@) =~= seq![value.name@] + fs.take(0));
        }
        while i < value.fields.len()
            invariant
                fs == value@.fields.map_values(|f: (Seq<char>, (Point, Point))| f.0),
                i <= value.fields@.len(),
                names_view(fields@) == seq![value.name@] + fs.take(i as int),
            decreases value.fields.len() - i,
        {
            let ghost prev = fields@;
            fields.push(copy_str(value.fields[i].0.as_str()));
            proof {
                assert(fs[i as int] == value.fields@[i as int].0@);
                assert(names_view(fields@) =~= names_view(prev).push(value.fields@[i as int].0@));
                assert(fs.take(i + 1) =~= fs.take(i as int).push(fs[i as int]));
                assert(names_view(fields@) =~= seq![value.name@] + fs.take(i + 1));
            }
            i = i + 1;
        }
        proof {
            assert(fs.take(i as int) =~= fs);
        }
        ActionObject { fields }
    }

    /// The pieces of a Python name between dots.
    pub fn from_python(value: &PythonIdentifier) -> (r: ActionObject)
        ensures
            names_view(r.fields@) == split_on(value.field@, '.'),
    {
        ActionObject { fields: split_by(value.field.as_str(), '.') }
    }

    /// Whether the path is exactly `fields`.
    pub fn compare(&self, fields: &Vec<String>) -> (b: bool)
        ensures
            b == (names_view(self.fields@) == names_view(fields@)),
    {
        if self.fields.len() != fields.len() {
            proof {
                assert(names_view(self.fields@).len() != names_view(fields@).len());
            }
            return false;
        }
        let mut i: usize = 0;
        while i < fields.len()
            invariant
                self.fields@.len() == fields@.len(),
                i <= fields@.len(),
                forall|j: int| 0 <= j < i ==> self.fields@[j]@ == fields@[j]@,
            decreases fields.len() - i,
        {
            if !str_eq(self.fields[i].as_str(), fields[i].as_str()) {
                proof {
                    assert(names_view(self.fields@)[i as int] != names_view(fields@)[i as int]);
                }
                return false;
            }
            i = i + 1;
        }
        proof {
            assert(names_view(self.fields@) =~= names_view(fields@));
        }
        true
    }
}


/// `i` is the first filter named `name`.
pub open spec fn first_filter(fs: Seq<FilterCompletion>, name: Seq<char>, i: int) -> bool {
    &&& 0 <= i < fs.len()
    &&& fs[i].name@ == name
    &&& forall|j: int| 0 <= j < i ==> fs[j].name@ != name
}

/// `i` is the first action whose name starts with `name`.
pub open spec fn first_action(acts: Seq<Action>, name: Seq<char>, i: int) -> bool {
    &&& 0 <= i < acts.len()
    &&& seq_starts_with(acts[i].name@, name)
    &&& forall|j: int| 0 <= j < i ==> !seq_starts_with(acts[j].name@, name)
}

/// What a hover of a name that is not a filter shows when no action
/// describes it: the description of its kind, a rule, and the name in bold.
pub open spec fn detail_hover(detail: Seq<char>, name: Seq<char>) -> Seq<char> {
    detail + "\n\n---\n**"@ + name + "**"@
}

/// The range of a hovered name, moved down by `line` lines.
pub open spec fn shifted_range(v: Identifier, line: u32) -> JsRange {
    JsRange {
        start: JsPosition { line: (v.start.row as u32 + line) as u32, character: v.start.column as u32 },
        end: JsPosition { line: (v.end.row as u32 + line) as u32, character: v.end.column as u32 },
    }
}

/// What hovering a name in a template that starts `line` lines into its
/// file shows.  For a filter: the description of the first filter of that
/// name, if there is one.  For another name whose kind is known: the
/// description of the first action whose name starts with the name, else
/// the description of the kind followed by the name.
pub fn hover_of(
    filters: &Vec<FilterCompletion>,
    actions: &Vec<Action>,
    hovered: &Identifier,
    is_filter: bool,
    data_type: Option<IdentifierType>,
    line: u32,
) -> (r: Option<JsHover>)
    requires
        hovered.start.row as u32 + line <= u32::MAX,
        hovered.end.row as u32 + line <= u32::MAX,
    ensures
        match r {
            Some(h) => {
                &&& h.kind@ == "markdown"@
                &&& h.range == Some(shifted_range(*hovered, line))
                &&& h.label is None
                &&& h.documentaion is None
                &&& if is_filter {
                    exists|i: int| first_filter(filters@, hovered.name@, i) && h.value@ == filters@[i].desc@
                } else {
                    data_type matches Some(t) && ((exists|i: int|
                        first_action(actions@, hovered.name@, i) && h.value@ == actions@[i].description@)
                        || ((forall|j: int| 0 <= j < actions@.len() ==> !seq_starts_with(actions@[j].name@, hovered.name@))
                            && h.value@ == detail_hover(detail_text(t), hovered.name@)))
                }
            },
            None => if is_filter {
                forall|j: int| 0 <= j < filters@.len() ==> filters@[j].name@ != hovered.name@
            } else {
                data_type is None
            },
        },
{
    proof {
        reveal_strlit("markdown");
        reveal_strlit("\n\n---\n**");
        reveal_strlit("**");
    }
    let range = JsRange {
        start: JsPosition { line: hovered.start.row as u32 + line, character: hovered.start.column as u32 },
        end: JsPosition { line: hovered.end.row as u32 + line, character: hovered.end.column as u32 },
    };
    let value = if is_filter {
        match hover_filter(filters, hovered.name.as_str(), true) {
            Some(i) => {
                assert(first_filter(filters@, hovered.name@, i as int));
                copy_str(filters[i].desc.as_str())
            },
            None => return None,
        }
    } else {
        let t = match data_type {
            Some(t) => t,
            None => return None,
        };
        let mut found: Option<usize> = None;
        let mut j: usize = 0;
        while j < actions.len()
            invariant_except_break
                j <= actions@.len(),
                found is None,
                forall|k: int| 0 <= k < j ==> !seq_starts_with(actions@[k].name@, hovered.name@),
            ensures
                found matches Some(i) ==> first_action(actions@, hovered.name@, i as int),
                found is None ==> forall|k: int| 0 <= k < actions@.len() ==> !seq_starts_with(actions@[k].name@, hovered.name@),
            decreases actions.len() - j,
        {
            if starts_with(actions[j].name.as_str(), hovered.name.as_str()) {
                found = Some(j);
                break;
            }
            j = j + 1;
        }
        match found {
            Some(i) => {
                assert(first_action(actions@, hovered.name@, i as int));
                copy_str(actions[i].description.as_str())
            },
            None => {
                let a = joined(t.completion_detail(), "\n\n---\n**");
                let b = joined(a.as_str(), hovered.name.as_str());
                joined(b.as_str(), "**")
            },
        }
    };
    Some(JsHover { kind: copy_str("markdown"), value, range: Some(range), label: None, documentaion: None })
}

} // verus!
