use jinja_lsp::lsp::completion::{goto_answer, GotoAnswer, GotoTargets};
use jinja_lsp::lsp::filter::FilterCompletion;
use jinja_lsp::lsp::task::{hover_filter, hover_target};
use jinja_lsp::lsp_helper::template_errors_of_matches;
use jinja_lsp::point::{Point, Position, Range};
use jinja_lsp::tree_builder::JinjaDiagnostic;
use jinja_lsp::search::definition::{definitions_from_matches, JinjaDefinitions, ScopeError};
use jinja_lsp::search::objects::{objects_from_matches, CompletionType};
use jinja_lsp::search::snippets_completion::{snippets, snippets_at, snippets_from_matches};
use jinja_lsp::lsp::completion_item::CompletionTextEdit;
use jinja_lsp::search::templates::{imports_from_matches, Import};
use jinja_lsp::search::{completion_start, CompletionItemKind, Identifier, IdentifierType};
use jinja_lsp::syntax::Capture;

fn cap(name: &str, id: usize, start: (usize, usize), end: (usize, usize), text: &str) -> Capture {
    Capture {
        name: name.to_string(),
        id,
        start: Point::new(start.0, start.1),
        end: Point::new(end.0, end.1),
        text: Some(text.to_string()),
        parent: None,
        identifier: None,
    }
}

#[test]
fn for_loop_key_lives_until_endfor() {
    // {% for i in items %} ... {% endfor %}
    let m = vec![
        cap("statement_start", 1, (0, 0), (0, 2), "{%"),
        cap("keyword", 2, (0, 3), (0, 6), "for"),
        cap("for_statement", 3, (0, 0), (0, 20), "for i in items"),
        cap("for_key", 4, (0, 7), (0, 8), "i"),
        cap("statement_end", 5, (0, 18), (0, 20), "%}"),
        cap("keyword", 6, (2, 3), (2, 9), "endfor"),
        cap("statement_end", 7, (2, 10), (2, 12), "%}"),
    ];
    let defs = definitions_from_matches(&vec![m], Point::new(5, 0), Point::new(0, 0), true);
    let all = defs.collect();
    let i = all.iter().find(|x| x.name == "i").expect("i is defined");
    assert_eq!(i.identifier_type, IdentifierType::ForLoopKey);
    assert!(defs.errors.is_empty());
}

#[test]
fn wrong_end_keyword_is_reported() {
    let m = vec![
        cap("keyword", 1, (0, 3), (0, 7), "with"),
        cap("with_definition", 2, (0, 0), (0, 12), "with x = 1"),
        cap("keyword", 3, (1, 3), (1, 9), "endfor"),
        cap("statement_end", 4, (1, 10), (1, 12), "%}"),
    ];
    let defs = definitions_from_matches(&vec![m], Point::new(3, 0), Point::new(0, 0), true);
    assert_eq!(defs.errors.len(), 1);
    match &defs.errors[0] {
        ScopeError::WrongEndScopeKeyword(scope) => {
            assert_eq!(scope.keyword, "with");
            assert_eq!(scope.start, Point::new(1, 3));
        }
        _ => panic!("expected a wrong end keyword"),
    }
    let (diag, ident) = defs.errors[0].diagnostic();
    assert_eq!(diag.to_string(), "Expected `endwith` keyword");
    assert_eq!(ident.start, Point::new(1, 3));
    assert_eq!(ident.end, Point::new(1, 9));
}

#[test]
fn else_without_if_is_reported() {
    let m = vec![
        cap("keyword", 1, (0, 3), (0, 7), "else"),
        cap("statement_start", 2, (0, 0), (0, 2), "{%"),
    ];
    let defs = definitions_from_matches(&vec![m], Point::new(3, 0), Point::new(0, 0), true);
    assert_eq!(defs.errors.len(), 1);
    assert!(matches!(defs.errors[0], ScopeError::ElseStatement(_)));
    assert_eq!(defs.errors[0].diagnostic().0.to_string(), "Else statement called before if or elif");
}

#[test]
fn set_variable_belongs_to_the_outer_scope() {
    let m = vec![cap("set_variable", 1, (0, 7), (0, 12), "class")];
    let defs = definitions_from_matches(&vec![m], Point::new(4, 1), Point::new(0, 0), true);
    let all = defs.collect();
    assert_eq!(all.len(), 1);
    assert_eq!(all[0].name, "class");
    assert_eq!(all[0].identifier_type, IdentifierType::SetVariable);
    // the outermost scope ends where the document ends
    assert_eq!(all[0].scope_ends, (0, Point::new(4, 1)));
}

#[test]
fn captures_after_the_trigger_point_are_skipped() {
    let ms = vec![
        vec![cap("set_variable", 1, (0, 7), (0, 12), "class")],
        vec![cap("set_variable", 2, (3, 7), (3, 12), "other")],
    ];
    let defs = definitions_from_matches(&ms, Point::new(9, 0), Point::new(1, 0), false);
    let all = defs.collect();
    assert_eq!(all.len(), 1);
    assert_eq!(all[0].name, "class");
}

#[test]
fn collected_definitions_are_sorted() {
    // a set variable with no enclosing node ends the walk of its match, so
    // each stands in a match of its own
    let ms = vec![
        vec![cap("set_variable", 1, (2, 7), (2, 8), "b")],
        vec![cap("set_variable", 2, (0, 7), (0, 8), "a")],
        vec![cap("set_variable", 3, (1, 7), (1, 8), "c")],
    ];
    let defs = definitions_from_matches(&ms, Point::new(9, 0), Point::new(0, 0), true);
    let names: Vec<String> = defs.collect().into_iter().map(|i| i.name).collect();
    assert_eq!(names, vec!["a", "c", "b"]);
}

#[test]
fn include_collects_unquoted_template_names() {
    let m = vec![
        cap("include", 10, (0, 0), (0, 40), "include"),
        cap("template_name", 11, (0, 11), (0, 25), "\"header.jinja\""),
        cap("template_name", 12, (0, 27), (0, 41), "'footer.jinja'"),
    ];
    let imports = imports_from_matches(&vec![m], Point::new(0, 0), true);
    let mut ids = Vec::new();
    imports.collect(&mut ids);
    let names: Vec<String> = ids.iter().map(|i| i.name.clone()).collect();
    assert_eq!(names, vec!["header.jinja", "footer.jinja"]);
    assert!(ids.iter().all(|i| i.identifier_type == IdentifierType::JinjaTemplate));
}

#[test]
fn from_import_keeps_first_template_name() {
    let m = vec![
        cap("from", 20, (0, 0), (0, 40), "from"),
        cap("template_name", 21, (0, 8), (0, 20), "'macros.html'"),
        cap("template_name", 22, (0, 21), (0, 30), "'other.html'"),
        cap("import_identifier", 23, (0, 31), (0, 36), "input"),
    ];
    let imports = imports_from_matches(&vec![m], Point::new(0, 0), true);
    let imp = imports.in_template(Point::new(0, 0)).expect("current import");
    match imp {
        Import::From { template, identifiers } => {
            assert_eq!(template.name, "macros.html");
            assert_eq!(identifiers.len(), 1);
            assert_eq!(identifiers[0].name, "input");
        }
        _ => panic!("expected a from import"),
    }
    let under = imp.get_identifier(Point::new(0, 10)).expect("template under cursor");
    assert_eq!(under.name, "macros.html");
    assert!(imp.get_identifier(Point::new(1, 0)).is_none());
}

#[test]
fn incomplete_identifier_is_completed() {
    // {{ user }} with the cursor inside "user"
    let m = vec![
        cap("expr_start", 1, (0, 0), (0, 2), "{{"),
        cap("just_id", 2, (0, 3), (0, 7), "user"),
    ];
    let objects = objects_from_matches(&vec![m], Point::new(0, 5), false);
    match objects.completion(Point::new(0, 5)) {
        Some(CompletionType::IncompleteIdentifier { name, range }) => {
            assert_eq!(name, "use");
            assert_eq!(range, (Point::new(0, 3), Point::new(0, 7)));
        }
        other => panic!("unexpected completion {:?}", other),
    }
    assert!(objects.is_hover(Point::new(0, 4)));
    assert_eq!(objects.is_ident(Point::new(0, 4)), Some("user".to_string()));
}

#[test]
fn filter_after_pipe_is_completed() {
    let m = vec![
        cap("expr_start", 1, (0, 0), (0, 2), "{{"),
        cap("just_id", 2, (0, 3), (0, 7), "user"),
        cap("filter", 3, (0, 8), (0, 9), "|"),
    ];
    let objects = objects_from_matches(&vec![m], Point::new(0, 10), false);
    assert!(objects.is_filter(None));
    match objects.completion(Point::new(0, 10)) {
        Some(CompletionType::Filter) => {}
        other => panic!("unexpected completion {:?}", other),
    }
}

#[test]
fn empty_expression_completes_identifiers_and_loop_is_skipped() {
    let m = vec![
        cap("expr_start", 1, (0, 0), (0, 2), "{{"),
        cap("just_id", 2, (0, 3), (0, 7), "loop"),
    ];
    let objects = objects_from_matches(&vec![m], Point::new(0, 2), false);
    assert!(objects.objects.is_empty());
    match objects.completion(Point::new(0, 2)) {
        Some(CompletionType::Identifier) => {}
        other => panic!("unexpected completion {:?}", other),
    }
}

#[test]
fn unfinished_block_offers_snippets() {
    let m = vec![cap("error_block", 1, (0, 0), (0, 9), "{% with  ")];
    let s = snippets_from_matches(&vec![m], Point::new(0, 5), false);
    assert!(s.is_error);
    assert!(s.to_complete(Point::new(0, 5)).is_some());
    assert!(s.to_complete(Point::new(1, 0)).is_none());
}

#[test]
fn eleven_snippets_are_offered() {
    let all = snippets();
    assert_eq!(all.len(), 11);
    let labels: Vec<&str> = all.iter().map(|i| i.label.as_str()).collect();
    assert_eq!(labels, vec!["for1", "for2", "with", "set1", "set2", "include", "from", "import", "extends", "if1", "if2"]);
    assert_eq!(all[0].detail, Some("Basic for loop".to_string()));
    for item in &all {
        assert_eq!(item.kind, Some(CompletionItemKind::Snippet));
        match &item.text_edit {
            Some(CompletionTextEdit::Edit(e)) => {
                assert_eq!(e.range, Range::default());
                assert!(e.new_text.starts_with(' '));
            }
            other => panic!("unexpected edit {:?}", other),
        }
    }
    match &all[10].text_edit {
        Some(CompletionTextEdit::Edit(e)) => assert_eq!(e.new_text, " if $1 %}\n{% elif $2 %}\n{% endif %}\n"),
        other => panic!("unexpected edit {:?}", other),
    }
    let moved = snippets_at(span(2, 5));
    match &moved[3].text_edit {
        Some(CompletionTextEdit::Edit(e)) => assert_eq!(e.range, span(2, 5)),
        other => panic!("unexpected edit {:?}", other),
    }
}

#[test]
fn completion_start_cuts_the_name_at_the_cursor() {
    let ident = Identifier::new("identifier", Point::new(0, 10), Point::new(0, 20));
    assert_eq!(completion_start(Point::new(0, 20), &ident), Some("identifier"));
    assert_eq!(completion_start(Point::new(0, 19), &ident), Some("identifier"));
    assert_eq!(completion_start(Point::new(0, 13), &ident), Some("iden"));
    assert_eq!(completion_start(Point::new(0, 21), &ident), None);
    let short = Identifier::new("ab", Point::new(0, 0), Point::new(0, 20));
    assert_eq!(completion_start(Point::new(0, 10), &short), None);
}

#[test]
fn identifier_kinds_describe_themselves() {
    assert_eq!(IdentifierType::ForLoopKey.completion_detail(), "For loop key");
    assert_eq!(IdentifierType::MacroName.completion_detail(), "Macro");
    assert_eq!(IdentifierType::JinjaTemplate.completion_detail(), "Jinja template");
}

fn span(a: u32, b: u32) -> Range {
    Range { start: Position { line: 0, character: a }, end: Position { line: 0, character: b } }
}

#[test]
fn goto_answers_local_then_template_then_others() {
    let targets = || GotoTargets {
        local: None,
        template: Some("base.html".to_string()),
        global: vec![("file:///b.py".to_string(), span(1, 2))],
    };
    let mut t = targets();
    t.local = Some(("file:///a.html".to_string(), span(3, 4)));
    match goto_answer(t, Some("file:///t/base.html".to_string())) {
        GotoAnswer::Local(u, r) => {
            assert_eq!(u, "file:///a.html");
            assert_eq!(r, span(3, 4));
        }
        other => panic!("unexpected answer {:?}", other),
    }
    match goto_answer(targets(), Some("file:///t/base.html".to_string())) {
        GotoAnswer::Template(u) => assert_eq!(u, "file:///t/base.html"),
        other => panic!("unexpected answer {:?}", other),
    }
    match goto_answer(targets(), None) {
        GotoAnswer::Global(g) => assert_eq!(g, vec![("file:///b.py".to_string(), span(1, 2))]),
        other => panic!("unexpected answer {:?}", other),
    }
    let mut t = targets();
    t.template = None;
    match goto_answer(t, Some("file:///t/base.html".to_string())) {
        GotoAnswer::Global(g) => assert_eq!(g.len(), 1),
        other => panic!("unexpected answer {:?}", other),
    }
}

#[test]
fn hover_is_over_the_last_object_and_shows_only_filters() {
    let m = vec![
        cap("expr_start", 1, (0, 0), (0, 2), "{{"),
        cap("just_id", 2, (0, 3), (0, 7), "user"),
    ];
    let objects = objects_from_matches(&vec![m], Point::new(0, 5), false);
    let (ident, kind) = hover_target(&objects, Point::new(0, 4)).expect("hover target");
    assert_eq!(ident.name, "user");
    assert_eq!((ident.start, ident.end), objects.objects[0].location);
    assert!(matches!(kind, CompletionType::Identifier));
    assert!(hover_target(&objects, Point::new(1, 0)).is_none());
    let filters = vec![FilterCompletion { name: "user".to_string(), desc: "a filter".to_string() }];
    assert_eq!(hover_filter(&filters, &ident.name, matches!(kind, CompletionType::Filter)), None);
    assert_eq!(hover_filter(&filters, &ident.name, true), Some(0));
}

#[test]
fn template_errors_report_undefined_names_then_missing_templates() {
    let objects = vec![vec![
        cap("expr_start", 1, (0, 0), (0, 2), "{{"),
        cap("just_id", 2, (0, 3), (0, 7), "user"),
    ]];
    let imports = vec![vec![
        cap("include", 10, (1, 0), (1, 40), "include"),
        cap("template_name", 11, (1, 11), (1, 25), "\"header.jinja\""),
    ]];
    let variables = vec![("file:///a.html".to_string(), vec![])];
    let missing = vec!["header.jinja".to_string()];
    let d = template_errors_of_matches(&objects, &imports, &variables, "file:///a.html", &missing, false)
        .expect("diagnostics");
    assert_eq!(d.len(), 3);
    assert!(matches!(d[0].0, JinjaDiagnostic::Undefined));
    assert!(matches!(d[1].0, JinjaDiagnostic::TemplateNotFound));
    assert!(matches!(d[2].0, JinjaDiagnostic::CreateNewTemplate));
    assert_eq!(d[0].1.name, "user");
    assert_eq!(d[1].1.name, "header.jinja");
    let none = template_errors_of_matches(&objects, &imports, &variables, "file:///b.html", &missing, false);
    assert!(none.is_none());
    let found = template_errors_of_matches(&objects, &imports, &variables, "file:///a.html", &vec![], true)
        .expect("diagnostics");
    assert!(found.is_empty());
}

fn definition_count(d: &JinjaDefinitions) -> usize {
    d.definitions.iter().map(|t| t.1.len()).sum()
}

#[test]
fn a_capture_seen_twice_is_counted_once() {
    let mut d = JinjaDefinitions::empty();
    let for_stmt = cap("for_statement", 3, (0, 0), (0, 20), "for i in items");
    let key = cap("for_key", 4, (0, 7), (0, 8), "i");
    for c in [&for_stmt, &key] {
        assert_eq!(d.check(c), Some(true));
        let (scopes, defs, statements, errors) = (d.current_scope.len(), definition_count(&d), d.statements.clone(), d.errors.len());
        assert_eq!(d.check(c), Some(true));
        assert_eq!(d.current_scope.len(), scopes);
        assert_eq!(definition_count(&d), defs);
        assert_eq!(d.statements, statements);
        assert_eq!(d.errors.len(), errors);
    }
    assert_eq!(d.current_scope.len(), 1);
    assert_eq!(definition_count(&d), 1);
}
