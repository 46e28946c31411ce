//! The decisions of the server's message loop.  The loop itself (receiving
//! messages, answering the client, walking the project) runs around these
//! functions: each takes what the last message brought and says what to do.
use vstd::prelude::*;

use crate::lsp::config::JinjaConfig;
use crate::lsp::filter::FilterCompletion;
use crate::lsp_helper::{object_ident, object_identifier};
use crate::point::{p_le, Point};
use crate::search::objects::{objects_full_range, CompletionType, CompletionTypeV, JinjaObjects};
use crate::search::Identifier;
use crate::text::{copy_str, str_eq};

verus! {

/// What the message loop keeps from one message to the next.
#[derive(Debug)]
pub struct LspTask {
    /// Whether the client is one that asks for completions the server
    /// offers without a trigger character.
    pub can_complete: bool,
    /// The configuration the client gave, or the default one.
    pub config: JinjaConfig,
}

/// What the loop does once the client says it is initialized.
#[derive(Debug)]
pub enum StartStep {
    /// Log the message and stop serving.
    Stop(String),
    /// Walk the project's files and serve them.
    Walk,
}

/// Why the server stops once initialized, if it does: no configuration,
/// no template directory, or a backend language it has no queries for
/// (it reads Rust and Python).
pub open spec fn stop_reason(c: JinjaConfig) -> Option<Seq<char>> {
    if !c.user_defined {
        Some("Config doesn't exist."@)
    } else if c.templates@.len() == 0 {
        Some("Template directory not found"@)
    } else if c.lang@ != "rust"@ && c.lang@ != "python"@ {
        Some("Backend language not supported"@)
    } else {
        None
    }
}

/// Whether a client with this name completes without trigger characters.
pub open spec fn completing_client(name: Option<&str>) -> bool {
    name matches Some(n) && n@ == "helix"@
}

impl LspTask {
    /// The state before any message: no completion without triggers, the
    /// default configuration.
    pub fn new() -> (t: LspTask)
        ensures
            !t.can_complete,
            crate::lsp::config::is_default_config(t.config),
    {
        LspTask { can_complete: false, config: JinjaConfig::default() }
    }

    /// Takes the client's name and the configuration it sent, if it could
    /// be read.  A configuration sent replaces the one kept and counts as
    /// given by the user.  Returns whether the server answers with its
    /// capabilities: only with a configuration given by the user.
    pub fn on_initialize(&mut self, client_name: Option<&str>, options: Option<JinjaConfig>) -> (reply: bool)
        ensures
            final(self).can_complete == (old(self).can_complete || completing_client(client_name)),
            match options {
                Some(c) => {
                    &&& final(self).config.templates == c.templates
                    &&& final(self).config.backend == c.backend
                    &&& final(self).config.lang == c.lang
                    &&& final(self).config.hide_undefined == c.hide_undefined
                    &&& final(self).config.template_extensions == c.template_extensions
                    &&& final(self).config.user_defined
                },
                None => final(self).config == old(self).config,
            },
            reply == final(self).config.user_defined,
    {
        proof {
            reveal_strlit("helix");
        }
        if let Some(name) = client_name {
            if str_eq(name, "helix") {
                self.can_complete = true;
            }
        }
        if let Some(c) = options {
            self.config = c;
            self.config.user_defined = true;
        }
        self.config.user_defined
    }

    /// What to do once the client is initialized: stop, with the reason to
    /// log, or walk the project.
    pub fn on_initialized(&self) -> (step: StartStep)
        ensures
            match step {
                StartStep::Stop(m) => stop_reason(self.config) == Some(m@),
                StartStep::Walk => stop_reason(self.config) is None,
            },
    {
        proof {
            reveal_strlit("Config doesn't exist.");
            reveal_strlit("Template directory not found");
            reveal_strlit("Backend language not supported");
            reveal_strlit("rust");
            reveal_strlit("python");
            reveal_strlit("");
            if self.config.templates@.len() == 0 {
                assert(self.config.templates@ =~= ""@);
            }
        }
        if !self.config.user_defined {
            StartStep::Stop(copy_str("Config doesn't exist."))
        } else if str_eq(self.config.templates.as_str(), "") {
            StartStep::Stop(copy_str("Template directory not found"))
        } else if !str_eq(self.config.lang.as_str(), "rust") && !str_eq(self.config.lang.as_str(), "python") {
            StartStep::Stop(copy_str("Backend language not supported"))
        } else {
            StartStep::Walk
        }
    }
}

/// Whether a command asks the server to read the project again.
pub fn is_reset_command(command: &str) -> (r: bool)
    ensures
        r == (command@ == "reset_variables"@),
{
    proof {
        reveal_strlit("reset_variables");
    }
    str_eq(command, "reset_variables")
}

/// What a hover in a template is over: the last object, where the cursor
/// lies within the span of the objects, as an identifier, and whether it is
/// a filter, a test or another name.
pub fn hover_target(objects: &JinjaObjects, point: Point) -> (r: Option<(Identifier, CompletionType)>)
    ensures
        match r {
            Some((ident, kind)) => {
                &&& objects@.objects.len() > 0
                &&& p_le(objects_full_range(objects@).0, point)
                &&& p_le(point, objects_full_range(objects@).1)
                &&& ident@ == object_ident(objects@.objects.last())
                &&& kind@ == (if objects@.objects.last().is_filter {
                    CompletionTypeV::Filter
                } else if objects@.objects.last().is_test {
                    CompletionTypeV::Test
                } else {
                    CompletionTypeV::Identifier
                })
            },
            None => !(objects@.objects.len() > 0 && p_le(objects_full_range(objects@).0, point)
                && p_le(point, objects_full_range(objects@).1)),
        },
{
    if !objects.is_hover(point) || objects.objects.len() == 0 {
        return None;
    }
    let last = &objects.objects[objects.objects.len() - 1];
    let kind = if last.is_filter {
        CompletionType::Filter
    } else if last.is_test {
        CompletionType::Test
    } else {
        CompletionType::Identifier
    };
    Some((object_identifier(last), kind))
}

/// The filter whose description a hover shows: the first filter with the
/// hovered name, and none unless the hovered name is a filter.
pub fn hover_filter(filters: &Vec<FilterCompletion>, name: &str, is_filter: bool) -> (r: Option<usize>)
    ensures
        match r {
            Some(i) => {
                &&& is_filter
                &&& i < filters@.len()
                &&& filters@[i as int].name@ == name@
                &&& forall|j: int| 0 <= j < i ==> filters@[j].name@ != name@
            },
            None => !is_filter || forall|j: int| 0 <= j < filters@.len() ==> filters@[j].name@ != name@,
        },
{
    if !is_filter {
        return None;
    }
    let mut i: usize = 0;
    while i < filters.len()
        invariant
            is_filter,
            i <= filters@.len(),
            forall|j: int| 0 <= j < i ==> filters@[j].name@ != name@,
        decreases filters.len() - i,
    {
        if str_eq(filters[i].name.as_str(), name) {
            return Some(i);
        }
        i = i + 1;
    }
    None
}

/// The commands the server offers to run.
pub open spec fn server_commands() -> Seq<Seq<char>> {
    seq!["reset_variables"@, "warn"@]
}

/// The characters after which the client asks for completions.
pub open spec fn trigger_characters() -> Seq<Seq<char>> {
    seq!["-"@, "\""@, " "@]
}

/// The commands the server announces.
pub fn commands() -> (r: Vec<String>)
    ensures
        r@.map_values(|s: String| s@) == server_commands(),
{
    proof {
        reveal_strlit("reset_variables");
        reveal_strlit("warn");
    }
    let mut r: Vec<String> = Vec::new();
    r.push(copy_str("reset_variables"));
    r.push(copy_str("warn"));
    assert(r@.map_values(|s: String| s@) =~= server_commands());
    r
}

/// The completion trigger characters the server announces.
pub fn completion_triggers() -> (r: Vec<String>)
    ensures
        r@.map_values(|s: String| s@) == trigger_characters(),
{
    proof {
        reveal_strlit("-");
        reveal_strlit("\"");
        reveal_strlit(" ");
    }
    let mut r: Vec<String> = Vec::new();
    r.push(copy_str("-"));
    r.push(copy_str("\""));
    r.push(copy_str(" "));
    assert(r@.map_values(|s: String| s@) =~= trigger_characters());
    r
}

/// How the client is to send the changes of a document.
#[derive(Clone, Copy, PartialEq, Eq, Structural, Debug)]
pub enum SyncKind {
    /// The whole text each time.
    Full,
    /// Only the changed ranges.
    Incremental,
}

/// What the server says of itself when the client initializes it.
#[derive(Debug)]
pub struct ServerIdentity {
    pub name: String,
    pub version: String,
    /// How document changes are to be sent.
    pub sync: SyncKind,
}

/// The server is `jinja-lsp`, version 0.1.61, and takes document changes
/// range by range.
pub fn server_identity() -> (r: ServerIdentity)
    ensures
        r.name@ == "jinja-lsp"@,
        r.version@ == "0.1.61"@,
        r.sync == SyncKind::Incremental,
{
    proof {
        reveal_strlit("jinja-lsp");
        reveal_strlit("0.1.61");
    }
    ServerIdentity { name: copy_str("jinja-lsp"), version: copy_str("0.1.61"), sync: SyncKind::Incremental }
}

} // verus!
