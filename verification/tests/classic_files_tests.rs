use jinja_lsp::classic::capturer::{CaptureDetails, JinjaVariableCapturer};
use jinja_lsp::syntax::Capture;
use jinja_lsp::classic::files::{
    backend_variables, get_all_variables, get_jinja_variables, ident_exist, jinja_variables_in, template_variables,
    ClassicDiagnostic, FileIndexes, FileVariables, JinjaVariable,
};
use jinja_lsp::point::Point;
use jinja_lsp::classic::config::JinjaConfig as ClassicConfig;
use jinja_lsp::classic::server::initialize_reply;

fn details(value: &str, start: (usize, usize), end: (usize, usize)) -> CaptureDetails {
    CaptureDetails {
        value: value.to_string(),
        start_position: Point::new(start.0, start.1),
        end_position: Point::new(end.0, end.1),
    }
}

fn var(name: &str, row: usize) -> JinjaVariable {
    JinjaVariable { start: Point::new(row, 0), end: Point::new(row, 1), name: name.to_string() }
}

#[test]
fn files_are_numbered_once_and_found_both_ways() {
    let mut ix = FileIndexes::new();
    assert_eq!(ix.add_file("file:///a.html".to_string()), Some(0));
    assert_eq!(ix.add_file("file:///b.html".to_string()), Some(1));
    assert_eq!(ix.add_file("file:///a.html".to_string()), None);
    assert_eq!(ix.get_index("file:///b.html"), Some(1));
    assert_eq!(ix.get_uri(0).as_deref(), Some("file:///a.html"));
    assert_eq!(ix.get_uri(2), None);
    ix.reset();
    assert_eq!(ix.get_index("file:///a.html"), None);
    assert_eq!(ix.add_file("file:///a.html".to_string()), Some(2));
}

#[test]
fn template_variables_are_sorted_and_defined_once() {
    let ds = vec![details("b", (2, 0), (2, 1)), details("a", (1, 0), (1, 1)), details("a", (3, 0), (3, 1))];
    let (vars, diags) = template_variables(ds);
    assert_eq!(vars.len(), 2);
    assert_eq!(vars[0].name, "a");
    assert_eq!(vars[0].start, Point::new(1, 0));
    assert_eq!(vars[1].name, "b");
    assert_eq!(diags.len(), 1);
    assert_eq!(diags[0].0.start, Point::new(3, 0));
    assert_eq!(diags[0].1, ClassicDiagnostic::AlreadyDefined);
    assert_eq!(diags[0].1.to_string(), "This variable is already defined");
    let back = backend_variables(vec![details("y", (4, 0), (4, 1)), details("x", (0, 0), (0, 1))]);
    assert_eq!(back[0].name, "x");
    assert_eq!(back[1].name, "y");
}

#[test]
fn variables_by_name() {
    let vs = vec![var("a", 0), var("b", 1), var("a", 2)];
    assert!(ident_exist("b", &vs));
    assert!(!ident_exist("c", &vs));
    assert_eq!(get_jinja_variables("a", true, &vs).len(), 2);
    let first = get_jinja_variables("a", false, &vs);
    assert_eq!(first.len(), 1);
    assert_eq!(first[0].start, Point::new(0, 0));
}

#[test]
fn all_variables_of_the_project() {
    let mut ix = FileIndexes::new();
    ix.add_file("file:///a.html".to_string());
    ix.add_file("file:///b.html".to_string());
    let files = vec![(0, vec![var("x", 0)]), (1, vec![var("y", 0), var("x", 3)])];
    let all = get_all_variables(&ix, &files, "file:///a.html").expect("variables");
    assert_eq!(all.len(), 4);
    assert_eq!(all[0], ("this file".to_string(), "x".to_string()));
    assert_eq!(all[1], ("other file".to_string(), "x".to_string()));
    assert_eq!(all[3], ("other file".to_string(), "x".to_string()));
    assert!(get_all_variables(&ix, &files, "file:///c.html").is_none());
    let named = jinja_variables_in(&ix, &files, "x").expect("named");
    assert_eq!(named.len(), 2);
    assert_eq!(named[1].0, "file:///b.html");
    assert_eq!(named[1].1.len(), 1);
    assert!(jinja_variables_in(&ix, &files, "z").is_none());
}

#[test]
fn variable_capturer_takes_each_place_once() {
    let cap = |name: &str, ident: Option<((usize, usize), (usize, usize), Option<&str>)>| Capture {
        name: name.to_string(),
        id: 0,
        start: Point::new(0, 0),
        end: Point::new(0, 9),
        text: None,
        parent: None,
        identifier: ident.map(|(s, e, t)| (Point::new(s.0, s.1), Point::new(e.0, e.1), t.map(|x| x.to_string()))),
    };
    let mut c = JinjaVariableCapturer::new();
    let mut acc = vec![];
    c.save_by(&cap("temp_expression", Some(((0, 3), (0, 7), Some("user")))), &mut acc);
    c.save_by(&cap("temp_expression", Some(((0, 3), (0, 7), Some("user")))), &mut acc);
    c.save_by(&cap("other", Some(((1, 3), (1, 7), Some("skip")))), &mut acc);
    assert_eq!(acc.len(), 1);
    assert_eq!(acc[0].0, "key_id");
    assert_eq!(acc[0].1.value, "user");
    assert_eq!(c.points.len(), 1);
    let mut forced = JinjaVariableCapturer::new();
    forced.force();
    let mut acc = vec![];
    forced.save_by(&cap("just_statement", Some(((2, 0), (2, 1), Some("a")))), &mut acc);
    forced.save_by(&cap("just_statement", Some(((3, 0), (3, 1), None))), &mut acc);
    forced.save_by(&cap("just_statement", Some(((4, 0), (4, 1), Some("b")))), &mut acc);
    assert_eq!(forced.cnt, 3);
    assert_eq!(acc.len(), 2);
    assert_eq!(acc[0].0, "just_statement_1");
    assert_eq!(acc[1].0, "just_statement_3");
    assert!(forced.add_point((Point::new(9, 0), Point::new(9, 1))));
    assert!(!forced.add_point((Point::new(9, 0), Point::new(9, 1))));
}

#[test]
fn older_server_offers_navigation_only_with_a_config() {
    let config = ClassicConfig { templates: "templates".to_string(), backend: vec!["src".to_string()], lang: "rust".to_string() };
    let r = initialize_reply(false, Some("helix"), Some(config));
    assert!(r.can_complete);
    assert!(r.providers);
    assert_eq!(r.commands, vec!["reset_variables"]);
    assert_eq!(r.trigger_characters, vec!["-", "\"", " "]);
    assert!(r.log.is_none());
    assert_eq!(r.config.map(|c| c.templates), Some("templates".to_string()));
    let r = initialize_reply(false, Some("vscode"), None);
    assert!(!r.can_complete);
    assert!(!r.providers);
    assert!(r.commands.is_empty());
    assert_eq!(r.log, Some("Config not found".to_string()));
}

#[test]
fn file_variables_are_kept_by_number() {
    let mut ix = FileIndexes::new();
    let a = ix.add_file("file:///a.html".to_string()).expect("a");
    let b = ix.add_file("file:///b.html".to_string()).expect("b");
    let mut vars = FileVariables::new();
    vars.set_variables(a, vec![var("user", 1), var("item", 2)]);
    vars.set_variables(b, vec![var("user", 3)]);
    let all = vars.get_all_variables(&ix, "file:///a.html").expect("variables");
    assert_eq!(all.len(), 5);
    assert_eq!(all[0], ("this file".to_string(), "user".to_string()));
    assert_eq!(all[1], ("this file".to_string(), "item".to_string()));
    let mut others: Vec<String> = all[2..].iter().map(|e| e.1.clone()).collect();
    others.sort();
    assert_eq!(others, vec!["item", "user", "user"]);
    let named = vars.get_jinja_variables(&ix, "user").expect("user is named");
    assert_eq!(named.len(), 2);
    assert!(named.iter().all(|f| f.1.len() == 1));
    vars.delete_variables(a);
    assert!(vars.get_all_variables(&ix, "file:///a.html").is_none());
    assert!(vars.get_jinja_variables(&ix, "nothing").is_none());
}
