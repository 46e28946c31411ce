use jinja_lsp::capturer::object::objects_walk;
use jinja_lsp::parsers::Parsers;
use jinja_lsp::point::Point;
use jinja_lsp::syntax::{Grammar, SourcedQuery};
use jinja_lsp::tree_builder::LangType;

const OBJECTS: &str = r#"
(
  [
      (
          (operator) @dot
          (#eq? @dot "\.")
      )

      (
        (identifier) @just_id
        (#not-match? @just_id "(^\\d+$)")
      )

      (
        (operator) @pipe
        (#match? @pipe "\\|")
      )

  ]
)
"#;

fn count_objects(case: &str) -> usize {
    let mut parsers = Parsers::new();
    let tree = parsers.parse(LangType::Template, case, None).expect("not to fail");
    let query = SourcedQuery::new(Grammar::Jinja, OBJECTS).expect("query");
    objects_walk(&query, &tree, Point::new(0, 0), case, true).show().len()
}

#[test]
fn find_identifiers_quick() {
    let case = r#"
        <p> {{ something }}</p>
        <p hx-swap="innerHTML"> {{ something | some_filter(a, b,c) }} </p>            
        {% for i in something -%}
            {{ i }}
        {%- endfor %}
        {% if something %}
            {{ something }}
        {% endif %}
        "#;
    assert_eq!(count_objects(case), 11);
}
