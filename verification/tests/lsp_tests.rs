use jinja_lsp::lsp::config::{config_from_tool, search_config, JinjaConfig, OptionalJinjaConfig};
use jinja_lsp::lsp::files::{
    add_code_actions, create_template_action, data_type, document_symbols, documents_with_id, get_variable,
    global_definitions, read_variables, reset_commands, FileContent, FileWriter, JinjaCodeAction,
};
use jinja_lsp::lsp::filter::init_filter_completions;
use jinja_lsp::lsp::template_tests::init_template_test_completions;
use jinja_lsp::lsp::completion_item::CompletionTextEdit;
use jinja_lsp::lsp_helper::{object_errors, template_errors};
use jinja_lsp::point::{Point, Position, Range};
use jinja_lsp::search::objects::JinjaObject;
use jinja_lsp::search::{Identifier, IdentifierType, SymbolKind};
use jinja_lsp::tree_builder::{DiagnosticSeverity, JinjaDiagnostic, LangType};

fn ident(name: &str, t: IdentifierType, start: (usize, usize), end: (usize, usize), scope_end: (usize, usize)) -> Identifier {
    let mut i = Identifier::new(name, Point::new(start.0, start.1), Point::new(end.0, end.1));
    i.identifier_type = t;
    i.scope_ends = (0, Point::new(scope_end.0, scope_end.1));
    i
}

#[test]
fn default_config_is_python_in_current_directory() {
    let c = JinjaConfig::default();
    assert_eq!(c.templates, "./");
    assert_eq!(c.backend, vec!["."]);
    assert_eq!(c.lang, "python");
    assert!(!c.user_defined);
    assert_eq!(c.hide_undefined, Some(false));
}

#[test]
fn file_extensions_decide_the_kind_of_document() {
    let c = JinjaConfig::default();
    assert_eq!(c.file_ext("templates/page.html"), Some(LangType::Template));
    assert_eq!(c.file_ext("a.jinja"), Some(LangType::Template));
    assert_eq!(c.file_ext("a.j2"), Some(LangType::Template));
    assert_eq!(c.file_ext("src/main.rs"), Some(LangType::Backend));
    assert_eq!(c.file_ext("app.py"), Some(LangType::Backend));
    assert_eq!(c.file_ext("notes.txt"), None);
    assert_eq!(c.file_ext("Makefile"), None);
}

#[test]
fn custom_template_extensions_are_templates() {
    let opt = OptionalJinjaConfig {
        templates: Some("./templates".to_string()),
        backend: None,
        lang: None,
        user_defined: None,
        hide_undefined: None,
        template_extensions: Some(vec!["j2".to_string(), "tex".to_string()]),
    };
    let c = JinjaConfig::from(opt);
    assert_eq!(c.template_extensions, vec!["j2", "tex"]);
    assert_eq!(c.file_ext("templates/page.tex"), Some(LangType::Template));
    assert_eq!(c.file_ext("templates/page.html"), Some(LangType::Template));
    assert_eq!(c.file_ext("templates/page.txt"), None);
    let d = JinjaConfig::default();
    assert_eq!(d.file_ext("templates/page.tex"), None);
}

#[test]
fn optional_config_overrides_defaults() {
    let opt = OptionalJinjaConfig {
        templates: Some("./templates".to_string()),
        backend: None,
        lang: None,
        user_defined: None,
        hide_undefined: Some(Some(true)),
        template_extensions: None,
    };
    let c = JinjaConfig::from(opt);
    assert_eq!(c.templates, "./templates");
    assert_eq!(c.backend, vec!["."]);
    assert_eq!(c.lang, "python");
    assert_eq!(c.hide_undefined, Some(true));
    let roots = c.roots();
    assert_eq!(roots, vec!["./templates", "."]);
}

#[test]
fn first_project_file_with_a_config_wins() {
    let mk = || OptionalJinjaConfig { templates: None, backend: None, lang: None, user_defined: None, hide_undefined: None, template_extensions: None };
    let c = search_config(vec![None, Some(mk()), Some(mk())]).expect("a config");
    assert!(c.user_defined);
    assert_eq!(c.lang, "rust");
    assert!(search_config(vec![None, None, None]).is_none());
    let d = config_from_tool(mk(), "python");
    assert!(d.user_defined);
    assert_eq!(d.lang, "python");
}

#[test]
fn filters_and_tests_are_listed() {
    let filters = init_filter_completions(&vec!["absolute value".to_string()]);
    assert_eq!(filters.len(), 38);
    assert_eq!(filters[0].name, "abs");
    assert_eq!(filters[0].desc, "absolute value");
    assert_eq!(filters[1].name, "attr");
    assert_eq!(filters[1].desc, "");
    assert_eq!(filters[37].name, "urlencode");
    let tests = init_template_test_completions(&vec![]);
    assert_eq!(tests.len(), 31);
    assert_eq!(tests[0].name, "boolean");
    assert_eq!(tests[30].name, "upper");
}

#[test]
fn writers_collect_valid_text_only() {
    let mut f = FileContent::new();
    assert_eq!(f.write(b"ab"), 2);
    assert_eq!(f.write(&[0xff, 0xfe]), 2);
    assert_eq!(f.write("é".as_bytes()), 2);
    assert_eq!(f.content, "abé");
    let mut w = FileWriter::new();
    w.write(b"x");
    w.flush();
    assert_eq!(w.content, "x");
}

#[test]
fn undefined_and_multiply_defined_names_are_reported() {
    let mut used = JinjaObject::new("user".to_string(), false, false);
    used.add_field("user".to_string(), Point::new(3, 3), Point::new(3, 7));
    let mut elsewhere = JinjaObject::new("price".to_string(), false, false);
    elsewhere.add_field("price".to_string(), Point::new(4, 3), Point::new(4, 8));
    let mut local = JinjaObject::new("x".to_string(), false, false);
    local.add_field("x".to_string(), Point::new(5, 3), Point::new(5, 4));
    let filter = JinjaObject::new("upper".to_string(), true, false);
    let objects = vec![used, elsewhere, local, filter];
    let this_file = vec![ident("x", IdentifierType::SetVariable, (1, 0), (1, 1), (9, 0))];
    let variables = vec![
        ("file:///t.html".to_string(), this_file.clone_like()),
        ("file:///a.rs".to_string(), vec![ident("price", IdentifierType::BackendVariable, (0, 0), (0, 5), (0, 0))]),
        ("file:///b.rs".to_string(), vec![ident("price", IdentifierType::BackendVariable, (0, 0), (0, 5), (0, 0))]),
    ];
    let errs = object_errors(&objects, &this_file, &variables, "file:///t.html", false);
    assert_eq!(errs.len(), 2);
    assert!(matches!(errs[0].0, JinjaDiagnostic::Undefined));
    assert_eq!(errs[0].1.name, "user");
    assert!(matches!(errs[1].0, JinjaDiagnostic::DefinedInMultiplePlaces));
    assert_eq!(errs[1].0.severity(), DiagnosticSeverity::Information);
    assert!(object_errors(&objects, &this_file, &variables, "file:///t.html", true).is_empty());
}

trait CloneLike {
    fn clone_like(&self) -> Self;
}

impl CloneLike for Vec<Identifier> {
    fn clone_like(&self) -> Self {
        self.iter().map(|i| i.copy()).collect()
    }
}

#[test]
fn missing_templates_are_reported() {
    let mut named = Identifier::new("missing.html", Point::new(0, 3), Point::new(0, 15));
    named.identifier_type = IdentifierType::JinjaTemplate;
    let mut unnamed = Identifier::new("", Point::new(1, 3), Point::new(1, 5));
    unnamed.identifier_type = IdentifierType::JinjaTemplate;
    let mut present = Identifier::new("ok.html", Point::new(2, 3), Point::new(2, 10));
    present.identifier_type = IdentifierType::JinjaTemplate;
    let errs = template_errors(&vec![named, unnamed, present], &vec!["missing.html".to_string()]);
    assert_eq!(errs.len(), 3);
    assert!(matches!(errs[0].0, JinjaDiagnostic::TemplateNotFound));
    assert!(matches!(errs[1].0, JinjaDiagnostic::CreateNewTemplate));
    assert!(matches!(errs[2].0, JinjaDiagnostic::TemplateNotFound));
    assert_eq!(errs[2].1.start, Point::new(1, 3));
    assert_eq!(errs[0].0.to_string(), "Template not found");
    assert_eq!(errs[0].0.severity(), DiagnosticSeverity::Error);
}

#[test]
fn variables_in_scope_are_completed_once() {
    let file = vec![
        ident("item", IdentifierType::ForLoopKey, (1, 7), (1, 11), (5, 0)),
        ident("item", IdentifierType::SetVariable, (2, 7), (2, 11), (5, 0)),
        ident("late", IdentifierType::SetVariable, (8, 7), (8, 11), (9, 0)),
        ident("block", IdentifierType::TemplateBlock, (0, 0), (0, 5), (9, 0)),
    ];
    let variables = vec![
        ("file:///t.html".to_string(), file),
        ("file:///a.rs".to_string(), vec![ident("user", IdentifierType::BackendVariable, (0, 0), (0, 4), (0, 0))]),
    ];
    let items = read_variables(&variables, "file:///t.html", Position::new(3, 0), None, None, false).expect("items");
    let labels: Vec<&str> = items.iter().map(|i| i.label.as_str()).collect();
    assert_eq!(labels, vec!["item", "user"]);
    assert_eq!(items[0].detail.as_deref(), Some("For loop key"));
    let typed = read_variables(
        &variables,
        "file:///t.html",
        Position::new(3, 0),
        Some(("it".to_string(), Range::new(Position::new(3, 0), Position::new(3, 2)))),
        Some("file:///none.rs".to_string()),
        false,
    )
    .expect("items");
    assert_eq!(typed.len(), 1);
    match &typed[0].text_edit {
        Some(CompletionTextEdit::InsertAndReplace { new_text, .. }) => assert_eq!(new_text, "item"),
        other => panic!("unexpected {:?}", other),
    }
    assert!(read_variables(&variables, "file:///other.html", Position::new(0, 0), None, None, false).is_none());
}

#[test]
fn definitions_in_other_files_are_found() {
    let variables = vec![
        ("file:///t.html".to_string(), vec![ident("user", IdentifierType::SetVariable, (0, 0), (0, 4), (9, 0))]),
        ("file:///a.rs".to_string(), vec![
            ident("user.name", IdentifierType::BackendVariable, (3, 1), (3, 5), (0, 0)),
            ident("user", IdentifierType::BackendVariable, (0, 0), (0, 0), (0, 0)),
            ident("other", IdentifierType::BackendVariable, (4, 1), (4, 5), (0, 0)),
        ]),
    ];
    let places = global_definitions(&variables, "file:///t.html", "user");
    assert_eq!(places.len(), 2);
    assert_eq!(places[0].0, "file:///a.rs");
    assert_eq!(places[0].1.start, Position::new(3, 1));
    assert_eq!(places[1].0, "file:///a.rs-user");
    let mut hover = Identifier::new("user", Point::new(2, 0), Point::new(2, 4));
    assert_eq!(data_type(&variables, "file:///t.html", &hover), Some(IdentifierType::SetVariable));
    hover.name = "other".to_string();
    assert_eq!(data_type(&variables, "file:///t.html", &hover), Some(IdentifierType::BackendVariable));
    hover.name = "nothing".to_string();
    assert_eq!(data_type(&variables, "file:///t.html", &hover), None);
    let symbols = document_symbols(&variables, "file:///t.html").expect("symbols");
    assert_eq!(symbols.len(), 1);
    assert_eq!(symbols[0].kind, SymbolKind::Variable);
    let names = get_variable(&variables, "us", "file:///a.rs", "file:///t.html").expect("names");
    assert_eq!(names, vec!["user.name", "user", "user"]);
}

#[test]
fn code_actions_are_recorded_and_offered() {
    let mut actions: Vec<(String, Vec<Identifier>)> = Vec::new();
    let missing = Identifier::new("new.html", Point::new(1, 3), Point::new(1, 11));
    add_code_actions(&mut actions, vec![("file:///t.html".to_string(), vec![missing])]);
    add_code_actions(&mut actions, vec![("file:///u.html".to_string(), vec![])]);
    assert_eq!(actions.len(), 2);
    add_code_actions(&mut actions, vec![("file:///u.html".to_string(), vec![Identifier::new("x", Point::new(0, 0), Point::new(0, 1))])]);
    assert_eq!(actions.len(), 2);
    assert_eq!(actions[1].1.len(), 1);
    match create_template_action(&actions[0].1, Point::new(1, 5)) {
        Some(JinjaCodeAction::CreateTemplate(name)) => assert_eq!(name, "new.html"),
        other => panic!("unexpected {:?}", other),
    }
    assert!(create_template_action(&actions[0].1, Point::new(2, 0)).is_none());
    let commands = reset_commands();
    assert_eq!(commands[0], ("Reset variables".to_string(), "reset_variables".to_string()));
    assert_eq!(commands[1], ("Warn about unused".to_string(), "warn".to_string()));
    let ids = documents_with_id(&vec!["file:///a/x.html".to_string(), "file:///b/y.html".to_string()], "/a/");
    assert_eq!(ids, vec!["file:///a/x.html"]);
}
