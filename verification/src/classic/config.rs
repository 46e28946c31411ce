use vstd::prelude::*;

use crate::lsp::config::{extension_of, path_extension};
use crate::text::str_eq;

verus! {

/// The two kinds of documents this form of the server reads.
#[derive(Clone, Copy, PartialEq, Eq, Structural, Debug, Hash)]
pub enum LangType {
    Template,
    Backend,
}

/// The configuration: where templates live, where the backend code lives,
/// and the backend's language.
#[derive(Debug)]
pub struct JinjaConfig {
    pub templates: String,
    pub backend: Vec<String>,
    pub lang: String,
}

/// The backend languages this form of the server reads.
pub open spec fn spec_is_backend(lang: Seq<char>) -> bool {
    lang == "rust"@
}

/// Whether `lang` names a backend language this form of the server reads.
pub fn is_backend(lang: &str) -> (b: bool)
    ensures
        b == spec_is_backend(lang@),
{
    proof {
        reveal_strlit("rust");
    }
    str_eq(lang, "rust")
}

/// The kind of a file by its extension: `html`, `jinja` and `j2` for
/// templates; `rs`, the extension of Rust sources, for backend code.
pub open spec fn classic_ext_lang(path: Seq<char>) -> Option<LangType> {
    match path_extension(path) {
        Some(e) => if e == "html"@ || e == "jinja"@ || e == "j2"@ {
            Some(LangType::Template)
        } else if e == "rs"@ {
            Some(LangType::Backend)
        } else {
            None
        },
        None => None,
    }
}

impl JinjaConfig {
    /// Whether a file is a template or backend code, by its extension.
    pub fn file_ext(&self, path: &str) -> (r: Option<LangType>)
        ensures
            r == classic_ext_lang(path@),
    {
        proof {
            reveal_strlit("html");
            reveal_strlit("jinja");
            reveal_strlit("j2");
            reveal_strlit("rs");
        }
        match extension_of(path) {
            Some(e) => {
                let e = e.as_str();
                if str_eq(e, "html") || str_eq(e, "jinja") || str_eq(e, "j2") {
                    Some(LangType::Template)
                } else if str_eq(e, "rs") {
                    Some(LangType::Backend)
                } else {
                    None
                }
            },
            None => None,
        }
    }
}

} // verus!
