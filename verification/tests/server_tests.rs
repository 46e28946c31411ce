use jinja_lsp::capturer::included::{file_url, IncludedTemplate};
use jinja_lsp::capturer::object::{CompletionType as ObjectCompletion, JinjaObjectCapturer};
use jinja_lsp::js_files::{
    action_objects, filter_items, global_identifiers, incomplete_item, js_definitions, object_links, python_links,
    shifted_identifiers, variable_items,
};
use jinja_lsp::capturer::included::IncludeCapturer;
use jinja_lsp::lsp::completion::{goto_answer_with_capturers, goto_targets_with_capturers, GotoAnswer};
use jinja_lsp::lsp::completion_item::CompletionItem;
use jinja_lsp::lsp::config::JinjaConfig;
use jinja_lsp::lsp::diagnostics::{diagnostics_of, template_not_found};
use jinja_lsp::lsp::filter::FilterCompletion;
use jinja_lsp::lsp::task::{commands, completion_triggers, hover_filter, is_reset_command, LspTask, StartStep};
use jinja_lsp::lsp::template_items::{split_second, template_items, template_root};
use jinja_lsp::lsp::completion_item::CompletionTextEdit;
use jinja_lsp::nodejs::{hover_of, Action, JsCompletionType, JsIdentifierType, JsPosition, Kind2};
use jinja_lsp::point::{Point, Position, Range};
use jinja_lsp::search::objects::JinjaObject as SearchObject;
use jinja_lsp::search::python_identifiers::PythonIdentifier;
use jinja_lsp::search::{CompletionItemKind, Identifier, IdentifierType};
use jinja_lsp::syntax::Capture;
use jinja_lsp::text::remove_first;
use jinja_lsp::tree_builder::{DiagnosticSeverity, JinjaDiagnostic};

fn cap(name: &str, start: (usize, usize), end: (usize, usize), text: Option<&str>) -> Capture {
    Capture {
        name: name.to_string(),
        id: 0,
        start: Point::new(start.0, start.1),
        end: Point::new(end.0, end.1),
        text: text.map(|t| t.to_string()),
        parent: None,
        identifier: None,
    }
}

fn user_config(templates: &str, lang: &str) -> JinjaConfig {
    JinjaConfig {
        templates: templates.to_string(),
        backend: vec!["src".to_string()],
        lang: lang.to_string(),
        user_defined: false,
        hide_undefined: None,
        template_extensions: vec![],
    }
}

#[test]
fn helix_completes_and_a_sent_config_is_user_defined() {
    let mut t = LspTask::new();
    assert!(!t.can_complete);
    assert!(!t.on_initialize(Some("vscode"), None));
    assert!(!t.can_complete);
    assert!(t.on_initialize(Some("helix"), Some(user_config("templates", "rust"))));
    assert!(t.can_complete);
    assert!(t.config.user_defined);
    assert_eq!(t.config.templates, "templates");
}

#[test]
fn start_stops_without_config_templates_or_rust() {
    let t = LspTask::new();
    match t.on_initialized() {
        StartStep::Stop(m) => assert_eq!(m, "Config doesn't exist."),
        StartStep::Walk => panic!("walked without a config"),
    }
    let mut t = LspTask::new();
    t.on_initialize(None, Some(user_config("", "rust")));
    match t.on_initialized() {
        StartStep::Stop(m) => assert_eq!(m, "Template directory not found"),
        StartStep::Walk => panic!("walked without templates"),
    }
    let mut t = LspTask::new();
    t.on_initialize(None, Some(user_config("templates", "go")));
    match t.on_initialized() {
        StartStep::Stop(m) => assert_eq!(m, "Backend language not supported"),
        StartStep::Walk => panic!("walked a go backend"),
    }
    let mut t = LspTask::new();
    t.on_initialize(None, Some(user_config("./templates", "python")));
    assert!(matches!(t.on_initialized(), StartStep::Walk));
    let mut t = LspTask::new();
    t.on_initialize(None, Some(user_config("templates", "rust")));
    assert!(matches!(t.on_initialized(), StartStep::Walk));
}

#[test]
fn commands_triggers_and_reset() {
    assert_eq!(commands(), vec!["reset_variables".to_string(), "warn".to_string()]);
    assert_eq!(completion_triggers(), vec!["-".to_string(), "\"".to_string(), " ".to_string()]);
    assert!(is_reset_command("reset_variables"));
    assert!(!is_reset_command("warn"));
}

#[test]
fn hover_finds_the_first_filter_of_the_name() {
    let fs = vec![
        FilterCompletion { name: "abs".to_string(), desc: "a".to_string() },
        FilterCompletion { name: "lower".to_string(), desc: "b".to_string() },
        FilterCompletion { name: "lower".to_string(), desc: "c".to_string() },
    ];
    assert_eq!(hover_filter(&fs, "lower", true), Some(1));
    assert_eq!(hover_filter(&fs, "lower", false), None);
    assert_eq!(hover_filter(&fs, "upper", true), None);
}

#[test]
fn missing_templates_and_reports() {
    let a = Identifier::new("a.html", Point::new(1, 2), Point::new(1, 8));
    let b = Identifier::new("x", Point::new(3, 0), Point::new(3, 1));
    let errors = vec![
        (JinjaDiagnostic::TemplateNotFound, a.copy()),
        (JinjaDiagnostic::Undefined, b.copy()),
        (JinjaDiagnostic::CreateNewTemplate, a.copy()),
    ];
    let missing = template_not_found(&errors);
    assert_eq!(missing.len(), 1);
    assert_eq!(missing[0].name, "a.html");
    let ds = diagnostics_of(&errors);
    assert_eq!(ds.len(), 3);
    assert_eq!(ds[0].message, "Template not found");
    assert_eq!(ds[0].severity, Some(DiagnosticSeverity::Error));
    assert_eq!(ds[0].range, Range::new(Position::new(1, 2), Position::new(1, 8)));
    assert_eq!(ds[1].message, "Undefined variable");
    assert_eq!(ds[1].severity, Some(DiagnosticSeverity::Warning));
    assert_eq!(ds[2].severity, Some(DiagnosticSeverity::Hint));
    assert_eq!(ds[2].source.as_deref(), Some("jinja-lsp"));
}

#[test]
fn object_walk_builds_objects_and_fields() {
    let caps = vec![
        cap("expr", (0, 0), (0, 20), None),
        cap("just_id", (0, 3), (0, 7), Some("user")),
        cap("dot", (0, 7), (0, 8), None),
        cap("just_id", (0, 8), (0, 12), Some("name")),
        cap("pipe", (0, 13), (0, 18), None),
        cap("just_id", (0, 15), (0, 18), Some("upper")),
        cap("just_id", (0, 19), (0, 20), None),
    ];
    let c = JinjaObjectCapturer::collect(&caps);
    let objects = c.show();
    assert_eq!(objects.len(), 2);
    assert_eq!(objects[0].name, "user");
    assert_eq!(objects[0].fields.len(), 1);
    assert_eq!(objects[0].fields[0].0, "name");
    assert_eq!(objects[1].name, "upper");
    assert!(objects[1].fields.is_empty());
    assert_eq!(c.completion(Point::new(0, 14)), Some(ObjectCompletion::Pipe));
    assert!(c.in_pipe(Point::new(0, 18)));
    assert!(!c.in_pipe(Point::new(0, 19)));
    assert!(c.in_expr(Point::new(0, 19)));
    assert_eq!(c.completion(Point::new(0, 19)), Some(ObjectCompletion::Identifier));
    assert_eq!(c.completion(Point::new(1, 0)), None);
}

#[test]
fn a_name_after_a_dot_with_no_object_starts_one() {
    let mut c = JinjaObjectCapturer::new();
    c.save_by(&cap("dot", (0, 0), (0, 1), None));
    c.save_by(&cap("just_id", (0, 1), (0, 3), Some("ab")));
    let objects = c.show();
    assert_eq!(objects.len(), 1);
    assert_eq!(objects[0].name, "ab");
}

#[test]
fn template_paths_and_urls() {
    let t = IncludedTemplate::new("pages/index.html");
    assert_eq!(t.template_path("/srv/templates"), "/srv/templates/pages/index.html");
    assert_eq!(file_url("/srv/a.html"), "file:///srv/a.html");
}

#[test]
fn split_and_remove_pieces() {
    assert_eq!(split_second("file:///root/templates/a.html", "templates"), Some("/a.html".to_string()));
    assert_eq!(split_second("a-b-c", "-"), Some("b".to_string()));
    assert_eq!(split_second("abc", ""), Some("a".to_string()));
    assert_eq!(split_second("abc", "x"), None);
    assert_eq!(remove_first("./templates", '.'), "/templates");
    assert_eq!(remove_first("abc", '.'), "abc");
    assert_eq!(template_root("./", "/home/me"), "/home/me");
    assert_eq!(template_root("./templates", "/home/me"), "/templates");
}

#[test]
fn templates_are_completed_by_their_path() {
    let uris = vec![
        "file:///p/templates/a.html".to_string(),
        "file:///p/other/b.html".to_string(),
        "file:///p/templates/sub/c.html".to_string(),
    ];
    let range = Range::new(Position::new(0, 1), Position::new(0, 4));
    let start = Position::new(0, 2);
    let items = template_items(&uris, "templates", "/templates", range, start, false).expect("items");
    assert_eq!(items.len(), 2);
    assert_eq!(items[0].label, "a.html");
    assert_eq!(items[1].label, "sub/c.html");
    assert_eq!(items[0].detail.as_deref(), Some("Jinja template"));
    assert_eq!(items[0].kind, Some(CompletionItemKind::File));
    match &items[0].text_edit {
        Some(CompletionTextEdit::InsertAndReplace { new_text, .. }) => assert_eq!(new_text, "\"a.html\""),
        _ => panic!("expected an insert and replace edit"),
    }
    let vs = template_items(&uris, "", "/templates", range, start, true);
    assert!(vs.is_none());
    let only = vec![uris[0].clone()];
    let vs = template_items(&only, "", "/templates", range, start, true).expect("items");
    assert_eq!(vs[0].additional_text_edits.as_ref().map(|e| e[0].new_text.clone()), Some("\"a.html\"".to_string()));
}

#[test]
fn hovers_show_filters_actions_or_kinds() {
    let filters = vec![FilterCompletion { name: "lower".to_string(), desc: "Lowercase".to_string() }];
    let actions = vec![Action { name: "user.name".to_string(), description: "The user's name".to_string() }];
    let mut v = Identifier::new("lower", Point::new(0, 3), Point::new(0, 8));
    let h = hover_of(&filters, &actions, &v, true, None, 10).expect("filter hover");
    assert_eq!(h.value, "Lowercase");
    assert_eq!(h.kind, "markdown");
    assert_eq!(h.range.map(|r| r.start.line), Some(10));
    v.name = "user".to_string();
    let h = hover_of(&filters, &actions, &v, false, Some(IdentifierType::BackendVariable), 0).expect("hover");
    assert_eq!(h.value, "The user's name");
    v.name = "count".to_string();
    let h = hover_of(&filters, &actions, &v, false, Some(IdentifierType::SetVariable), 0).expect("hover");
    assert_eq!(h.value, "Set variable\n\n---\n**count**");
    assert!(hover_of(&filters, &actions, &v, false, None, 0).is_none());
    assert!(hover_of(&filters, &actions, &v, true, None, 0).is_none());
}

#[test]
fn links_for_objects_described_by_actions() {
    let actions = action_objects(&vec![
        Action { name: "user.name".to_string(), description: String::new() },
        Action { name: "user.name".to_string(), description: String::new() },
        Action { name: "page".to_string(), description: String::new() },
    ]);
    let mut user = SearchObject::new("user".to_string(), false, false);
    user.location = (Point::new(1, 3), Point::new(1, 7));
    user.add_field("name".to_string(), Point::new(1, 8), Point::new(1, 12));
    let mut other = SearchObject::new("item".to_string(), false, false);
    other.location = (Point::new(2, 0), Point::new(2, 4));
    let links = object_links(&vec![user, other], &actions, 5);
    assert_eq!(links.len(), 2);
    assert_eq!(links[0].start, JsPosition { line: 6, character: 3 });
    assert_eq!(links[0].end, JsPosition { line: 6, character: 12 });
    assert_eq!(links[0].identifier_type, JsIdentifierType::Link);
    let ids = vec![PythonIdentifier { id: 0, start: Point::new(0, 0), end: Point::new(0, 4), field: "page".to_string() }];
    let py = python_links(&ids, &actions, 1);
    assert_eq!(py.len(), 1);
    assert_eq!(py[0].name, "page");
    assert_eq!(py[0].start.line, 1);
}

#[test]
fn bindings_conversions() {
    let vars = vec![Identifier::new("x", Point::new(2, 1), Point::new(2, 2))];
    let js = shifted_identifiers(&vars, 3);
    assert_eq!(js[0].start, JsPosition { line: 5, character: 1 });
    let globals = global_identifiers(&vec![Action { name: "a.b".to_string(), description: String::new() }]);
    assert_eq!(globals[0].name, "a.b");
    assert_eq!(globals[0].identifier_type, IdentifierType::BackendVariable);
    let fs = filter_items(&vec![FilterCompletion { name: "abs".to_string(), desc: "d".to_string() }]);
    assert_eq!(fs[0].kind, Kind2::FIELD);
    assert_eq!(fs[0].completion_type, JsCompletionType::Filter);
    let items = vec![
        CompletionItem::plain("v".to_string(), "Set variable".to_string(), CompletionItemKind::Variable),
        CompletionItem { label: "w".to_string(), detail: None, kind: None, text_edit: None, additional_text_edits: None },
    ];
    let vs = variable_items(&items);
    assert_eq!(vs[0].description, "Set variable");
    assert_eq!(vs[1].description, "");
    let it = incomplete_item("user.name", Range::new(Position::new(1, 0), Position::new(1, 4)), 2);
    assert_eq!(it.new_text.as_deref(), Some("user.name"));
    assert_eq!(it.insert.map(|r| r.start.line), Some(3));
    let locs = vec![
        ("file:///home/a.1.jinja".to_string(), Range::new(Position::new(0, 0), Position::new(0, 1))),
        ("file:///home/b.2.jinja".to_string(), Range::new(Position::new(1, 0), Position::new(1, 1))),
    ];
    let single = js_definitions(&locs, true, "a.1", 4);
    assert_eq!(single.len(), 1);
    assert_eq!(single[0].uri, "a.1");
    assert_eq!(single[0].range.start.line, 4);
    assert!(!single[0].is_backend);
    let many = js_definitions(&locs, false, "file:///home", 0);
    assert_eq!(many.len(), 2);
    assert!(many[1].is_backend);
    assert_eq!(many[1].uri, "file:///home/b.2.jinja");
}

#[test]
fn older_goto_prefers_this_file_then_the_include_then_every_file() {
    let caps = vec![cap("expr", (2, 0), (2, 12), None), cap("just_id", (2, 3), (2, 7), Some("user"))];
    let objects = JinjaObjectCapturer::collect(&caps);
    assert_eq!(objects.is_ident(Point::new(2, 4)), Some("user".to_string()));
    assert_eq!(objects.is_ident(Point::new(3, 0)), None);
    let ident = |name: &str, row: usize, col: usize| Identifier::new(name, Point::new(row, col), Point::new(row, col + 4));
    let variables = vec![
        ("file:///a.html".to_string(), vec![ident("user", 0, 0), ident("user", 1, 0), ident("user", 5, 0)]),
        ("file:///b.py".to_string(), vec![ident("user", 3, 2), ident("other", 0, 0)]),
    ];
    let none = IncludeCapturer { included: vec![] };
    let t = goto_targets_with_capturers(&objects, &none, &variables, "file:///a.html", Point::new(2, 4));
    let span = |row: u32, col: u32| Range { start: Position { line: row, character: col }, end: Position { line: row, character: col + 4 } };
    assert_eq!(t.local, Some(("file:///a.html".to_string(), span(1, 0))));
    assert_eq!(t.template, None);
    let files: Vec<String> = t.global.iter().map(|p| p.0.clone()).collect();
    assert_eq!(files, vec!["file:///a.html", "file:///a.html", "file:///a.html", "file:///b.py"]);
    assert_eq!(t.global[3].1, span(3, 2));
    match goto_answer_with_capturers(t, None) {
        Some(GotoAnswer::Local(u, r)) => {
            assert_eq!(u, "file:///a.html");
            assert_eq!(r, span(1, 0));
        }
        other => panic!("unexpected answer {:?}", other),
    }

    let included = IncludeCapturer {
        included: vec![IncludedTemplate {
            name: "base.html".to_string(),
            template: (Point::new(2, 0), Point::new(2, 10)),
            error: (Point::new(0, 0), Point::new(0, 0)),
            identifier: (Point::new(0, 0), Point::new(0, 0)),
        }],
    };
    let t = goto_targets_with_capturers(&objects, &included, &variables, "file:///c.html", Point::new(2, 4));
    assert_eq!(t.local, None);
    assert_eq!(t.template, Some("base.html".to_string()));
    assert!(goto_answer_with_capturers(t, None).is_none());
    let t = goto_targets_with_capturers(&objects, &included, &variables, "file:///c.html", Point::new(2, 4));
    match goto_answer_with_capturers(t, Some("file:///t/base.html".to_string())) {
        Some(GotoAnswer::Template(u)) => assert_eq!(u, "file:///t/base.html"),
        other => panic!("unexpected answer {:?}", other),
    }
    let t = goto_targets_with_capturers(&objects, &none, &variables, "file:///c.html", Point::new(2, 4));
    match goto_answer_with_capturers(t, None) {
        Some(GotoAnswer::Global(g)) => assert_eq!(g.len(), 4),
        other => panic!("unexpected answer {:?}", other),
    }
}
