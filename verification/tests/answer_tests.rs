use jinja_lsp::classic::query_helper::{completion_at, CompletionType};
use jinja_lsp::lsp::completion::goto_targets;
use jinja_lsp::lsp::files::add_code_actions;
use jinja_lsp::lsp_helper::lookup_file;
use jinja_lsp::parsers::Parsers;
use jinja_lsp::point::{Point, Position, Range};
use jinja_lsp::search::objects::objects_query;
use jinja_lsp::search::templates::JinjaImports;
use jinja_lsp::search::Identifier;
use jinja_lsp::syntax::{Grammar, SourcedQuery};
use jinja_lsp::tree_builder::LangType;

const OBJECTS: &str = r#"
(
  [
      (
          (operator) @dot
          (#eq? @dot "\.")
      )

      (
        (identifier) @just_id
        (#not-match? @just_id "(^\\d+$)")
      )

      (
        (operator) @pipe
        (#match? @pipe "\\|")
      )

  ]
)
"#;

fn kinds(names: &[&str]) -> Option<Vec<String>> {
    Some(names.iter().map(|n| n.to_string()).collect())
}

#[test]
fn completion_takes_the_first_answer_inside_a_template() {
    let inside = kinds(&["identifier", "expression", "source_file"]);
    let pipe = Some(CompletionType::Pipe);
    let ident = Some(CompletionType::Identifier);
    assert_eq!(completion_at(&inside, pipe, ident, None), Some(CompletionType::Pipe));
    assert_eq!(completion_at(&inside, None, ident, pipe), Some(CompletionType::Identifier));
    assert_eq!(completion_at(&inside, None, None, pipe), Some(CompletionType::Pipe));
    assert_eq!(completion_at(&inside, None, None, None), None);
}

#[test]
fn completion_outside_a_template_is_nothing() {
    let outside = kinds(&["identifier", "expression"]);
    assert_eq!(completion_at(&outside, Some(CompletionType::Pipe), None, None), None);
    assert_eq!(completion_at(&None, Some(CompletionType::Pipe), None, None), None);
}

#[test]
fn setting_a_file_twice_keeps_one_entry_with_the_last_names() {
    let mut entries: Vec<(String, Vec<Identifier>)> = Vec::new();
    let a = Identifier::new("a", Point::new(0, 0), Point::new(0, 1));
    let b = Identifier::new("b", Point::new(1, 0), Point::new(1, 1));
    add_code_actions(&mut entries, vec![("file:///t.html".to_string(), vec![a])]);
    add_code_actions(&mut entries, vec![("file:///u.html".to_string(), vec![])]);
    add_code_actions(&mut entries, vec![("file:///t.html".to_string(), vec![b])]);
    assert_eq!(entries.len(), 2);
    let names: Vec<String> = lookup_file(&entries, "file:///t.html").expect("entry").iter().map(|i| i.name.clone()).collect();
    assert_eq!(names, vec!["b"]);
    assert_eq!(lookup_file(&entries, "file:///u.html").map(|v| v.len()), Some(0));
    assert!(lookup_file(&entries, "file:///v.html").is_none());
}

#[test]
fn goto_looks_for_a_local_definition_only_under_a_name() {
    let case = "{{ user }} x";
    let mut parsers = Parsers::new();
    let tree = parsers.parse(LangType::Template, case, None).expect("tree");
    let query = SourcedQuery::new(Grammar::Jinja, OBJECTS).expect("query");
    let mut nameless = Identifier::new("", Point::new(0, 0), Point::new(0, 0));
    nameless.scope_ends = (0, Point::new(5, 0));
    let mut user = Identifier::new("user", Point::new(0, 0), Point::new(0, 2));
    user.scope_ends = (0, Point::new(5, 0));
    let variables = vec![("file:///a.html".to_string(), vec![nameless, user])];
    let imports = JinjaImports::new();

    let under = Point::new(0, 5);
    let objects = objects_query(&query, &tree, under, case, false).expect("objects");
    let t = goto_targets(&objects, &imports, &variables, "file:///a.html", under);
    let span = Range { start: Position { line: 0, character: 0 }, end: Position { line: 0, character: 2 } };
    assert_eq!(t.local, Some(("file:///a.html".to_string(), span)));

    let beside = Point::new(0, 11);
    let objects = objects_query(&query, &tree, beside, case, false).expect("objects");
    let t = goto_targets(&objects, &imports, &variables, "file:///a.html", beside);
    assert_eq!(t.local, None);
    assert_eq!(t.template, None);
}
