use jinja_lsp::classic::query_helper::{query_props, CapturerKind, Queries};
use jinja_lsp::parsers::Parsers;
use jinja_lsp::point::Point;
use jinja_lsp::tree_builder::LangType;

fn prepare_rust_tree(text: &str) -> tree_sitter::Tree {
    let mut parsers = Parsers::new();
    parsers.parse(LangType::Backend, text, None).expect("not to fail")
}

#[test]
fn query_helper_find_identifiers_in_macro() {
    let case = r#"
            let a = context!(name => 11 + abc, abc => "username");
            let b = context!{name, username => "username" } 
            let price = 100;
            let c = context!{ price };
        "#;
    let tree = prepare_rust_tree(case);
    let trigger_point = Point::new(0, 0);
    let queries = Queries::new().expect("queries");
    let props = query_props(&tree, case, trigger_point, &queries.rust_ident_query, true, CapturerKind::Backend, true)
        .expect("props");
    assert_eq!(props.len(), 6);
}
