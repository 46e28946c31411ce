use jinja_lsp::capturer::included::{Include, IncludeCapturer, IncludedTemplate};
use jinja_lsp::lsp_helper::path_items;
use jinja_lsp::point::Point;
use jinja_lsp::search::objects::CompletionType;
use jinja_lsp::syntax::Capture;
use jinja_lsp::text::{chars_through, joined, decimal_string, remove_quotes, split_by};

#[test]
fn path_items_splits_on_slashes() {
    assert_eq!(path_items("a/b/c.html"), vec!["a", "b", "c.html"]);
    assert_eq!(path_items("page.html"), vec!["page.html"]);
    assert_eq!(path_items(""), vec![""]);
    assert_eq!(path_items("a//b/"), vec!["a", "", "b", ""]);
}

#[test]
fn split_by_dots() {
    assert_eq!(split_by("a.b.c", '.'), vec!["a", "b", "c"]);
}

#[test]
fn quotes_are_removed() {
    assert_eq!(remove_quotes("\"a'b\"c"), "abc");
}

#[test]
fn decimals_are_written_like_format() {
    for n in [0u32, 7, 10, 1234, u32::MAX] {
        assert_eq!(decimal_string(n), format!("{}", n));
    }
}

#[test]
fn chars_through_stops_at_the_char_starting_at_the_offset() {
    assert_eq!(chars_through("abcdef", 2), "abc");
    assert_eq!(chars_through("abcdef", 0), "a");
    assert_eq!(chars_through("abc", 7), "abc");
    // 'é' takes two bytes: offset 2 falls inside it, so all is taken
    assert_eq!(chars_through("aéb", 2), "aéb");
    assert_eq!(chars_through("aéb", 3), "aéb");
    assert_eq!(chars_through("aéb", 1), "aé");
}

#[test]
fn concat_joins() {
    assert_eq!(joined("ab", "cd"), "abcd");
}

#[test]
fn include_location_cuts_what_is_typed() {
    let mut part = IncludedTemplate::new("header.html");
    part.template = (Point::new(0, 12), Point::new(0, 23));
    let (name, range) = Include::Template.location(Point::new(0, 20), &part);
    assert_eq!(name, "header.ht");
    assert_eq!(range.start.character, 12);
    assert_eq!(range.end.character, 23);
    let (empty, _) = Include::Error.location(Point::new(0, 20), &part);
    assert_eq!(empty, "");
}

#[test]
fn include_capturer_completes_the_last_template() {
    let mut c = IncludeCapturer::new();
    let mut acc_cap = |name: &str, start: (usize, usize), end: (usize, usize), text: &str| Capture {
        name: name.to_string(),
        id: 0,
        start: Point::new(start.0, start.1),
        end: Point::new(end.0, end.1),
        text: Some(text.to_string()),
        parent: None,
        identifier: None,
    };
    c.save_by(&acc_cap("keyword", (0, 3), (0, 10), "include"));
    c.save_by(&acc_cap("template", (0, 11), (0, 20), "'page.ht'"));
    assert_eq!(c.last().map(|s| s.as_str()), Some("page.ht"));
    match c.completion(Point::new(0, 20)) {
        Some(CompletionType::IncludedTemplate { name, range }) => {
            assert_eq!(name, "page.ht");
            assert_eq!(range, (Point::new(0, 11), Point::new(0, 20)));
        }
        other => panic!("unexpected {:?}", other),
    }
    assert!(c.completion(Point::new(1, 0)).is_none());
}
