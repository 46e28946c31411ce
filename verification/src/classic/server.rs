use vstd::prelude::*;

use crate::classic::config::JinjaConfig;
use crate::lsp::config::strings_view;
use crate::lsp::files::{text_from_bytes, written};
use crate::text::{copy_str, joined, str_eq};

verus! {

/// A buffer that collects the text written to it.
#[derive(Debug)]
pub struct LocalWriter {
    pub content: String,
}

impl LocalWriter {
    pub fn new() -> (w: LocalWriter)
        ensures
            w.content@.len() == 0,
    {
        LocalWriter { content: String::new() }
    }

    /// Appends the bytes as text when they are valid UTF-8; the whole of
    /// `buf` counts as written either way.
    pub fn write(&mut self, buf: &[u8]) -> (n: usize)
        ensures
            final(self).content@ == old(self).content@ + written(buf@),
            n == buf@.len(),
    {
        if let Some(b) = text_from_bytes(buf) {
            proof {
                vstd::utf8::encode_utf8_decode_utf8(b@);
            }
            self.content = joined(self.content.as_str(), b);
        } else {
            assert(self.content@ + Seq::<char>::empty() =~= self.content@);
        }
        buf.len()
    }

    /// Nothing is held back, so nothing is to be flushed.
    pub fn flush(&mut self)
        ensures
            final(self).content@ == old(self).content@,
    {
    }
}


/// What the older server answers when the client initializes it.
#[derive(Debug)]
pub struct InitReply {
    /// Whether the client is one that asks for completions without a
    /// trigger character.
    pub can_complete: bool,
    /// The configuration the client sent, where it could be read.
    pub config: Option<JinjaConfig>,
    /// Whether goto definition, references, code actions, hover and the
    /// reset command are offered: only with a configuration.
    pub providers: bool,
    /// The commands offered.
    pub commands: Vec<String>,
    /// The characters that trigger a completion.
    pub trigger_characters: Vec<String>,
    /// What to log.
    pub log: Option<String>,
    /// The server's name.
    pub name: String,
    /// The server's version.
    pub version: String,
}

/// The older server's answer to `initialize`: helix completes without a
/// trigger character; with a configuration the navigation features and the
/// `reset_variables` command are offered; without one, "Config not found"
/// is logged.  Completion is triggered by `-`, `"` and a space.  The
/// server is `jinja-lsp`, version 0.1.0.
pub fn initialize_reply(can_complete: bool, client_name: Option<&str>, config: Option<JinjaConfig>) -> (r: InitReply)
    ensures
        r.can_complete == (can_complete || (client_name matches Some(n) && n@ == "helix"@)),
        r.providers == config is Some,
        r.config == config,
        strings_view(r.commands@) == (if config is Some { seq!["reset_variables"@] } else { Seq::empty() }),
        strings_view(r.trigger_characters@) == seq!["-"@, "\""@, " "@],
        match r.log {
            Some(m) => config is None && m@ == "Config not found"@,
            None => config is Some,
        },
        r.name@ == "jinja-lsp"@,
        r.version@ == "0.1.0"@,
{
    proof {
        reveal_strlit("helix");
        reveal_strlit("jinja-lsp");
        reveal_strlit("0.1.0");
    }
    let mut complete = can_complete;
    if let Some(name) = client_name {
        if str_eq(name, "helix") {
            complete = true;
        }
    }
    let providers = config.is_some();
    let mut commands: Vec<String> = Vec::new();
    let log = if providers {
        commands.push(copy_str("reset_variables"));
        None
    } else {
        Some(copy_str("Config not found"))
    };
    let mut trigger_characters: Vec<String> = Vec::new();
    trigger_characters.push(copy_str("-"));
    trigger_characters.push(copy_str("\""));
    trigger_characters.push(copy_str(" "));
    proof {
        assert(strings_view(trigger_characters@) =~= seq!["-"@, "\""@, " "@]);
        if providers {
            assert(strings_view(commands@) =~= seq!["reset_variables"@]);
        } else {
            assert(strings_view(commands@) =~= Seq::<Seq<char>>::empty());
        }
    }
    InitReply { can_complete: complete, config, providers, commands, trigger_characters, log, name: copy_str("jinja-lsp"), version: copy_str("0.1.0") }
}

} // verus!
