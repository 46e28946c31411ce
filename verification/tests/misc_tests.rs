use jinja_lsp::parsers::{change_document, Parsers};
use jinja_lsp::tree_builder::LangType;
use jinja_lsp::lsp::task::{server_identity, SyncKind};
use jinja_lsp::classic::config::{is_backend, JinjaConfig as ClassicConfig, LangType as ClassicLang};
use jinja_lsp::classic::filters::{init_filter_completions, to_filter_completions};
use jinja_lsp::classic::server::LocalWriter;
use jinja_lsp::nodejs::{Action, ActionObject, JsIdentifier, JsIdentifierType, JsPosition, Kind2};
use jinja_lsp::point::{Point, Position, Range};
use jinja_lsp::search::{CompletionItemKind, Identifier, IdentifierType};
use jinja_lsp::search::python_identifiers::{PythonAttributes, PythonIdentifier};
use jinja_lsp::to_input_edit::{to_position, try_apply_change, try_to_char};

#[test]
fn classic_config_reads_rust_backends() {
    let c = ClassicConfig { templates: "t".to_string(), backend: vec![], lang: "rust".to_string() };
    assert_eq!(c.file_ext("a.html"), Some(ClassicLang::Template));
    assert_eq!(c.file_ext("src/main.rs"), Some(ClassicLang::Backend));
    assert_eq!(c.file_ext("a.rust"), None);
    assert_eq!(c.file_ext("t/a.html"), Some(ClassicLang::Template));
    assert!(is_backend("rust"));
    assert!(!is_backend("python"));
}

#[test]
fn classic_filters() {
    let all = init_filter_completions(&vec![]);
    assert_eq!(all.len(), 38);
    assert_eq!(all[0].0, "selectattr");
    let hx = to_filter_completions(vec![("abs", "absolute"), ("int", "integer")]);
    assert_eq!(hx.len(), 2);
    assert_eq!(hx[1].name, "int");
    assert_eq!(hx[1].desc, "integer");
}

#[test]
fn local_writer_collects_text() {
    let mut w = LocalWriter::new();
    assert_eq!(w.write(b"abc"), 3);
    w.flush();
    assert_eq!(w.content, "abc");
}

#[test]
fn action_objects_compare_paths() {
    let a = ActionObject::from_action(&Action { name: "user.name".to_string(), description: String::new() });
    assert!(a.compare(&vec!["user".to_string(), "name".to_string()]));
    assert!(!a.compare(&vec!["user".to_string()]));
    let p = ActionObject::from_python(&PythonIdentifier { id: 0, start: Point::new(0, 0), end: Point::new(0, 1), field: "a.b.c".to_string() });
    assert_eq!(p.fields, vec!["a", "b", "c"]);
}

#[test]
fn javascript_forms() {
    assert!(Kind2::from(CompletionItemKind::Function) == Kind2::FUNCTION);
    assert!(Kind2::from(CompletionItemKind::Snippet) == Kind2::VARIABLE);
    let p = JsPosition::from(Point::new(3, 4));
    assert_eq!((p.line, p.character), (3, 4));
    let mut i = Identifier::new("x", Point::new(1, 2), Point::new(1, 3));
    i.identifier_type = IdentifierType::MacroName;
    let j = JsIdentifier::from_identifier(&i);
    assert_eq!(j.name, "x");
    assert!(j.identifier_type == JsIdentifierType::MacroName);
}

#[test]
fn python_names_are_merged_per_expression() {
    let mk = |id: usize, s: (usize, usize), e: (usize, usize), f: &str| PythonIdentifier {
        id,
        start: Point::new(s.0, s.1),
        end: Point::new(e.0, e.1),
        field: f.to_string(),
    };
    let attrs = PythonAttributes {
        attributes: vec![(Point::new(1, 4), vec![mk(1, (1, 4), (1, 8), "page"), mk(2, (1, 9), (1, 13), "text")])],
    };
    let merged = attrs.merge(10);
    assert_eq!(merged.len(), 1);
    assert_eq!(merged[0].field, "page.text");
    assert_eq!(merged[0].start, Point::new(11, 4));
    assert_eq!(merged[0].end, Point::new(11, 13));
}

#[test]
fn rope_offsets_become_positions() {
    let rope = ropey::Rope::from_str("ab\ncd\n");
    let p = to_position(&rope, 4);
    assert_eq!(p, Position::new(1, 1));
    let end = to_position(&rope, 100);
    assert_eq!(end, Position::new(2, 0));
    assert_eq!(try_to_char(&rope, Position::new(1, 1)), Some(4));
    assert_eq!(try_to_char(&rope, Position::new(7, 0)), None);
}

#[test]
fn changes_are_applied_to_the_rope() {
    let mut rope = ropey::Rope::from_str("hello world");
    let range = Range::new(Position::new(0, 6), Position::new(0, 11));
    let (edit, text) = try_apply_change(&mut rope, range, "there").expect("fits");
    assert_eq!(text, "hello there");
    assert_eq!(edit.start_byte, 6);
    assert_eq!(edit.old_end_byte, 11);
    assert_eq!(edit.new_end_byte, 11);
    let range = Range::new(Position::new(0, 0), Position::new(0, 5));
    let (_, text) = try_apply_change(&mut rope, range, "").expect("fits");
    assert_eq!(text, " there");
}

#[test]
fn to_char_undoes_to_position_on_ascii_text() {
    let rope = ropey::Rope::from_str("ab\ncd\n\nefg");
    for offset in 0..=rope.len_bytes() {
        let p = to_position(&rope, offset);
        assert_eq!(try_to_char(&rope, p), Some(offset));
    }
    let p = to_position(&rope, 3);
    assert_eq!(p, Position::new(1, 0));
    let p = to_position(&rope, 6);
    assert_eq!(p, Position::new(2, 0));
}

#[test]
fn lines_break_at_crlf_cr_and_unicode_separators() {
    let rope = ropey::Rope::from_str("a\r\nb\rc\u{2028}d");
    assert_eq!(to_position(&rope, 4), Position::new(1, 1));
    assert_eq!(to_position(&rope, 5), Position::new(2, 0));
    assert_eq!(to_position(&rope, 9), Position::new(3, 0));
    assert_eq!(try_to_char(&rope, Position::new(3, 0)), Some(7));
    assert_eq!(try_to_char(&rope, Position::new(4, 0)), Some(8));
    assert_eq!(try_to_char(&rope, Position::new(5, 0)), None);
}

#[test]
fn both_servers_offer_the_same_filters() {
    let newer: Vec<String> = jinja_lsp::lsp::filter::init_filter_completions(&vec![]).into_iter().map(|f| f.name).collect();
    let older: Vec<String> = init_filter_completions(&vec![]).into_iter().map(|f| f.0).collect();
    assert_eq!(newer.len(), 38);
    assert_eq!(older.len(), 38);
    let a: std::collections::HashSet<String> = newer.iter().cloned().collect();
    let b: std::collections::HashSet<String> = older.iter().cloned().collect();
    assert_eq!(a.len(), 38);
    assert_eq!(a, b);
}

#[test]
fn a_change_edits_the_rope_and_reparses_the_tree() {
    let mut parsers = Parsers::new();
    let text = "{{ a }}\n";
    let mut tree = parsers.parse(LangType::Template, text, None).expect("tree");
    let mut rope = ropey::Rope::from_str(text);
    let range = Range::new(Position::new(0, 3), Position::new(0, 4));
    let new_tree = change_document(&mut parsers, LangType::Template, &mut rope, &mut tree, range, "user")
        .expect("the change fits")
        .expect("a tree");
    assert_eq!(rope.to_string(), "{{ user }}\n");
    assert_eq!(new_tree.root_node().end_byte(), 11);
    let far = Range::new(Position::new(7, 0), Position::new(7, 1));
    assert!(change_document(&mut parsers, LangType::Template, &mut rope, &mut tree, far, "x").is_none());
    assert_eq!(rope.to_string(), "{{ user }}\n");
}

#[test]
fn the_servers_name_themselves() {
    let id = server_identity();
    assert_eq!(id.name, "jinja-lsp");
    assert_eq!(id.version, "0.1.61");
    assert_eq!(id.sync, SyncKind::Incremental);
    let older = jinja_lsp::classic::server::initialize_reply(false, None, None);
    assert_eq!(older.name, "jinja-lsp");
    assert_eq!(older.version, "0.1.0");
}
