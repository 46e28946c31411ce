use vstd::prelude::*;

use crate::text::{copy_str, split_on, str_eq};
use crate::tree_builder::LangType;

verus! {

/// The last piece of a path, split at its separators, that names
/// something: neither empty (repeated and trailing separators) nor `.`
/// (which std's path components drop).
pub open spec fn last_named(pieces: Seq<Seq<char>>) -> Option<Seq<char>>
    decreases pieces.len(),
{
    if pieces.len() == 0 {
        None
    } else if pieces.last().len() == 0 || pieces.last() == seq!['.'] {
        last_named(pieces.drop_last())
    } else {
        Some(pieces.last())
    }
}

/// What `std::path::Path::file_name` gives for a path (with `/` as the
/// separator): its last component, unless that is `..`.
pub open spec fn path_file_name(path: Seq<char>) -> Option<Seq<char>> {
    match last_named(split_on(path, '/')) {
        Some(n) => if n == seq!['.', '.'] { None } else { Some(n) },
        None => None,
    }
}

/// The index of the last dot of a name, or -1 where it has none.
pub open spec fn last_dot(n: Seq<char>) -> int
    decreases n.len(),
{
    if n.len() == 0 {
        -1
    } else if n.last() == '.' {
        n.len() - 1
    } else {
        last_dot(n.drop_last())
    }
}

/// What `std::path::Path::extension` gives for a path: the part of its file
/// name after the last dot; nothing where there is no file name, where the
/// name has no dot, or where its only dot starts it.
pub open spec fn path_extension(path: Seq<char>) -> Option<Seq<char>> {
    match path_file_name(path) {
        Some(n) => if last_dot(n) <= 0 { None } else { Some(n.skip(last_dot(n) + 1)) },
        None => None,
    }
}

/// Calls `Path::extension` of std on `path` and converts the extension to a
/// `String` (exactly: it comes from a `str`).  The result is what the
/// documentation of `Path::extension`, `Path::file_name` and
/// `Path::components` says, as `path_extension` states it for `/`
/// separators.
#[verifier::external_body]
pub(crate) fn extension_of(path: &str) -> (r: Option<String>)
    ensures
        match r {
            Some(e) => path_extension(path@) == Some(e@),
            None => path_extension(path@) is None,
        },
{
    std::path::Path::new(path).extension().map(|e| e.to_string_lossy().into_owned())
}

/// The server's configuration: where templates live, where the backend
/// code lives, the backend's language, whether a file of the project gave
/// it, whether undefined names are left unreported, and the extensions
/// that mark templates besides `html`, `jinja` and `j2`.
#[derive(Debug)]
pub struct JinjaConfig {
    pub templates: String,
    pub backend: Vec<String>,
    pub lang: String,
    pub user_defined: bool,
    pub hide_undefined: Option<bool>,
    pub template_extensions: Vec<String>,
}

/// A configuration as a project file gives it: each entry may be missing.
#[derive(Debug)]
pub struct OptionalJinjaConfig {
    pub templates: Option<String>,
    pub backend: Option<Vec<String>>,
    pub lang: Option<String>,
    pub user_defined: Option<bool>,
    pub hide_undefined: Option<Option<bool>>,
    pub template_extensions: Option<Vec<String>>,
}

/// The plain values of a list of strings.
pub open spec fn strings_view(v: Seq<String>) -> Seq<Seq<char>> {
    v.map_values(|s: String| s@)
}

/// The configuration of a project that gives none: templates and backend
/// in the current directory, a Python backend.
pub open spec fn is_default_config(c: JinjaConfig) -> bool {
    &&& c.templates@ == "./"@
    &&& strings_view(c.backend@) == seq!["."@]
    &&& c.lang@ == "python"@
    &&& !c.user_defined
    &&& c.hide_undefined == Some(false)
    &&& c.template_extensions@.len() == 0
}

fn copy_strings(v: &Vec<String>) -> (r: Vec<String>)
    ensures
        strings_view(r@) == strings_view(v@),
{
    let mut r: Vec<String> = Vec::new();
    let mut i: usize = 0;
    while i < v.len()
        invariant
            i <= v@.len(),
            strings_view(r@) == strings_view(v@).take(i as int),
        decreases v.len() - i,
    {
        let ghost prev = r@;
        r.push(v[i].clone());
        proof {
            assert(strings_view(r@) =~= strings_view(prev).push(v@[i as int]@));
            assert(strings_view(v@).take(i + 1) =~= strings_view(v@).take(i as int).push(v@[i as int]@));
        }
        i = i + 1;
    }
    proof {
        assert(strings_view(v@).take(i as int) =~= strings_view(v@));
    }
    r
}

/// Whether `e` is one of `v`.
fn contains_string(v: &Vec<String>, e: &str) -> (b: bool)
    ensures
        b == strings_view(v@).contains(e@),
{
    let mut i: usize = 0;
    while i < v.len()
        invariant
            i <= v@.len(),
            forall|j: int| 0 <= j < i ==> v@[j]@ != e@,
        decreases v.len() - i,
    {
        if str_eq(v[i].as_str(), e) {
            assert(strings_view(v@)[i as int] == e@);
            return true;
        }
        i = i + 1;
    }
    assert(!strings_view(v@).contains(e@)) by {
        if strings_view(v@).contains(e@) {
            let j = choose|j: int| 0 <= j < strings_view(v@).len() && strings_view(v@)[j] == e@;
            assert(v@[j]@ == e@);
        }
    }
    false
}

impl Default for JinjaConfig {
    fn default() -> (c: JinjaConfig)
        ensures
            is_default_config(c),
    {
        proof {
            reveal_strlit("./");
            reveal_strlit(".");
            reveal_strlit("python");
        }
        let mut backend: Vec<String> = Vec::new();
        backend.push(copy_str("."));
        assert(strings_view(backend@) =~= seq!["."@]);
        JinjaConfig {
            templates: copy_str("./"),
            backend,
            lang: copy_str("python"),
            user_defined: false,
            hide_undefined: Some(false),
            template_extensions: Vec::new(),
        }
    }
}

/// Whether a file name's extension marks a template (`html`, `jinja`, `j2`
/// or one of the configured `extra` extensions) or backend code (`rs`,
/// `py`).
pub open spec fn ext_lang(extra: Seq<Seq<char>>, path: Seq<char>) -> Option<LangType> {
    match path_extension(path) {
        Some(e) => if e == "html"@ || e == "jinja"@ || e == "j2"@ || extra.contains(e) {
            Some(LangType::Template)
        } else if e == "rs"@ || e == "py"@ {
            Some(LangType::Backend)
        } else {
            None
        },
        None => None,
    }
}

impl JinjaConfig {
    /// A copy of this configuration.
    pub fn copy(&self) -> (r: JinjaConfig)
        ensures
            r.templates@ == self.templates@,
            strings_view(r.backend@) == strings_view(self.backend@),
            r.lang@ == self.lang@,
            r.user_defined == self.user_defined,
            r.hide_undefined == self.hide_undefined,
            strings_view(r.template_extensions@) == strings_view(self.template_extensions@),
    {
        JinjaConfig {
            templates: self.templates.clone(),
            backend: copy_strings(&self.backend),
            lang: self.lang.clone(),
            user_defined: self.user_defined,
            hide_undefined: self.hide_undefined,
            template_extensions: copy_strings(&self.template_extensions),
        }
    }

    /// The configuration a project file or the client gives: each entry
    /// it has replaces the default one; it is not yet marked as given by
    /// the user.
    pub fn from(value: OptionalJinjaConfig) -> (c: JinjaConfig)
        ensures
            c.templates@ == (match value.templates { Some(t) => t@, None => "./"@ }),
            strings_view(c.backend@) == (match value.backend { Some(b) => strings_view(b@), None => seq!["."@] }),
            c.lang@ == (match value.lang { Some(l) => l@, None => "python"@ }),
            !c.user_defined,
            c.hide_undefined == (match value.hide_undefined { Some(h) => h, None => Some(false) }),
            strings_view(c.template_extensions@) == (match value.template_extensions {
                Some(e) => strings_view(e@),
                None => Seq::empty(),
            }),
    {
        let mut config = JinjaConfig::default();
        if let Some(templates) = value.templates {
            config.templates = templates;
        }
        if let Some(backend) = value.backend {
            config.backend = backend;
        }
        if let Some(lang) = value.lang {
            config.lang = lang;
        }
        if let Some(hide_undefined) = value.hide_undefined {
            config.hide_undefined = hide_undefined;
        }
        if let Some(extensions) = value.template_extensions {
            config.template_extensions = extensions;
        }
        proof {
            if value.template_extensions is None {
                assert(strings_view(config.template_extensions@) =~= Seq::empty());
            }
        }
        config
    }

    /// Whether a file is a template or backend code, by its extension:
    /// `html`, `jinja`, `j2` and the configured extensions for templates,
    /// `rs` and `py` for backends.
    pub fn file_ext(&self, path: &str) -> (r: Option<LangType>)
        ensures
            r == ext_lang(strings_view(self.template_extensions@), path@),
    {
        proof {
            reveal_strlit("html");
            reveal_strlit("jinja");
            reveal_strlit("j2");
            reveal_strlit("rs");
            reveal_strlit("py");
        }
        match extension_of(path) {
            Some(e) => {
                let e = e.as_str();
                if str_eq(e, "html") || str_eq(e, "jinja") || str_eq(e, "j2") || contains_string(&self.template_extensions, e) {
                    Some(LangType::Template)
                } else if str_eq(e, "rs") || str_eq(e, "py") {
                    Some(LangType::Backend)
                } else {
                    None
                }
            },
            None => None,
        }
    }

    /// Records whether the configuration came from a project file.
    pub fn user_defined(&mut self, def: bool) -> (r: Option<()>)
        ensures
            final(self).user_defined == def,
            final(self).templates == old(self).templates,
            final(self).backend == old(self).backend,
            final(self).lang == old(self).lang,
            final(self).hide_undefined == old(self).hide_undefined,
            final(self).template_extensions == old(self).template_extensions,
            r is None,
    {
        self.user_defined = def;
        None
    }

    /// The directories to read at start-up: the templates, then each
    /// backend directory.
    pub fn roots(&self) -> (r: Vec<String>)
        ensures
            strings_view(r@) == seq![self.templates@] + strings_view(self.backend@),
    {
        let mut all: Vec<String> = Vec::new();
        all.push(self.templates.clone());
        let mut backend = copy_strings(&self.backend);
        let ghost a = strings_view(all@);
        let ghost b = strings_view(backend@);
        all.append(&mut backend);
        assert(strings_view(all@) =~= a + b);
        all
    }
}

/// The project files that may hold a configuration, in the order they are
/// tried: the file, the table that holds the `jinja-lsp` table, and the
/// backend language it implies.
pub open spec fn config_files() -> Seq<(Seq<char>, Seq<char>, Seq<char>)> {
    seq![
        ("pyproject.toml"@, "tool"@, "python"@),
        ("Cargo.toml"@, "metadata"@, "rust"@),
        ("jinja-lsp.toml"@, "tool"@, "python"@),
    ]
}

/// The project files that may hold a configuration.
pub fn config_file_list() -> (r: Vec<(String, String, String)>)
    ensures
        r@.map_values(|e: (String, String, String)| (e.0@, e.1@, e.2@)) == config_files(),
{
    let mut r: Vec<(String, String, String)> = Vec::new();
    r.push((copy_str("pyproject.toml"), copy_str("tool"), copy_str("python")));
    r.push((copy_str("Cargo.toml"), copy_str("metadata"), copy_str("rust")));
    r.push((copy_str("jinja-lsp.toml"), copy_str("tool"), copy_str("python")));
    assert(r@.map_values(|e: (String, String, String)| (e.0@, e.1@, e.2@)) =~= config_files());
    r
}

/// `c` is what the project file's `value` gives for a backend in `lang`:
/// each entry it has replaces the default one; the configuration is user
/// defined and has that language.
pub open spec fn tool_config(c: JinjaConfig, value: OptionalJinjaConfig, lang: Seq<char>) -> bool {
    &&& c.templates@ == (match value.templates { Some(t) => t@, None => "./"@ })
    &&& strings_view(c.backend@) == (match value.backend { Some(b) => strings_view(b@), None => seq!["."@] })
    &&& c.lang@ == lang
    &&& c.user_defined
    &&& c.hide_undefined == (match value.hide_undefined { Some(h) => h, None => Some(false) })
    &&& strings_view(c.template_extensions@) == (match value.template_extensions {
        Some(e) => strings_view(e@),
        None => Seq::empty(),
    })
}

/// The configuration a project file gives, for a backend in `lang`.
pub fn config_from_tool(value: OptionalJinjaConfig, lang: &str) -> (c: JinjaConfig)
    ensures
        tool_config(c, value, lang@),
{
    let mut config = JinjaConfig::from(value);
    config.user_defined = true;
    config.lang = copy_str(lang);
    config
}

/// Takes the configuration of the first project file that gave one:
/// `found[i]` is what the i-th of `config_files` held, if anything.
pub fn search_config(candidates: Vec<Option<OptionalJinjaConfig>>) -> (r: Option<JinjaConfig>)
    requires
        candidates@.len() <= 3,
    ensures
        r is Some <==> exists|i: int| 0 <= i < candidates@.len() && (#[trigger] candidates@[i]) is Some,
        r matches Some(c) ==> exists|i: int|
            0 <= i < candidates@.len() && (#[trigger] candidates@[i]) is Some
            && (forall|j: int| 0 <= j < i ==> candidates@[j] is None)
            && tool_config(c, candidates@[i].unwrap(), config_files()[i].2),
{
    let langs = config_file_list();
    let mut found = candidates;
    let ghost orig = found@;
    let mut i: usize = 0;
    proof {
        assert(orig.skip(0) =~= orig);
        assert(langs@.map_values(|e: (String, String, String)| (e.0@, e.1@, e.2@)).len() == 3);
    }
    while found.len() > 0
        invariant
            found@ == orig.skip(i as int),
            orig == candidates@,
            i <= orig.len(),
            orig.len() <= 3,
            forall|j: int| 0 <= j < i ==> orig[j] is None,
            langs@.map_values(|e: (String, String, String)| (e.0@, e.1@, e.2@)) == config_files(),
            langs@.len() == 3,
        decreases found.len(),
    {
        let item = found.remove(0);
        proof {
            assert(item == orig[i as int]);
            assert(found@ =~= orig.skip(i + 1));
        }
        let is_some = item.is_some();
        proof {
            assert(is_some == orig[i as int] is Some);
        }
        match item {
            Some(c) => {
                proof {
                    assert(orig[i as int] is Some);
                    assert(langs@.map_values(|e: (String, String, String)| (e.0@, e.1@, e.2@))[i as int] == config_files()[i as int]);
                }
                let config = config_from_tool(c, langs[i].2.as_str());
                proof {
                    assert(langs@[i as int].2@ == config_files()[i as int].2);
                    assert(orig[i as int] is Some && forall|j: int| 0 <= j < i ==> orig[j] is None);
                }
                return Some(config);
            },
            None => {},
        }
        i = i + 1;
    }
    proof {
        assert(orig.skip(i as int).len() == 0);
    }
    None
}

/// The arguments of the server's command line.
#[derive(Debug)]
pub struct JinjaLspArgs {
    /// Run language server.
    pub stdio: bool,
}

} // verus!
