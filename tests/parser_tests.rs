use todo_tree::pattern::pattern_text;
use todo_tree::text::eq_ignore_ascii_case;
use todo_tree::{Priority, TodoParser};

fn default_tags() -> Vec<String> {
    vec![
        "TODO".to_string(),
        "FIXME".to_string(),
        "BUG".to_string(),
        "NOTE".to_string(),
        "HACK".to_string(),
    ]
}

#[test]
fn test_parse_simple_todo() {
    let parser = TodoParser::new(&default_tags(), false).unwrap();
    let result = parser.parse_line("// TODO: Fix this later", 1);

    assert!(result.is_some());
    let item = result.unwrap();
    assert_eq!(item.tag, "TODO");
    assert_eq!(item.message, "Fix this later");
    assert_eq!(item.line, 1);
}

#[test]
fn test_parse_todo_with_author() {
    let parser = TodoParser::new(&default_tags(), false).unwrap();
    let result = parser.parse_line("// TODO(john): Implement this", 5);

    assert!(result.is_some());
    let item = result.unwrap();
    assert_eq!(item.tag, "TODO");
    assert_eq!(item.author, Some("john".to_string()));
    assert_eq!(item.message, "Implement this");
}

#[test]
fn test_parse_hash_comment() {
    let parser = TodoParser::new(&default_tags(), false).unwrap();
    let result = parser.parse_line("# FIXME: This is broken", 1);

    assert!(result.is_some());
    let item = result.unwrap();
    assert_eq!(item.tag, "FIXME");
    assert_eq!(item.message, "This is broken");
}

#[test]
fn test_parse_case_insensitive() {
    let parser = TodoParser::new(&default_tags(), false).unwrap();

    let result1 = parser.parse_line("// todo: lowercase", 1);
    assert!(result1.is_some());
    assert_eq!(result1.unwrap().tag, "TODO");

    let result2 = parser.parse_line("// Todo: mixed case", 1);
    assert!(result2.is_some());
    assert_eq!(result2.unwrap().tag, "TODO");
}

#[test]
fn test_parse_case_sensitive() {
    let parser = TodoParser::new(&default_tags(), true).unwrap();

    let result1 = parser.parse_line("// TODO: uppercase", 1);
    assert!(result1.is_some());

    let result2 = parser.parse_line("// todo: lowercase", 1);
    assert!(result2.is_none());
}

#[test]
fn test_parse_multiple_lines() {
    let parser = TodoParser::new(&default_tags(), false).unwrap();
    let content = r#"
// Regular comment
// TODO: First item
fn main() {}
// FIXME: Second item
// NOTE: Third item
"#;
    let items = parser.parse_content(content);

    assert_eq!(items.len(), 3);
    assert_eq!(items[0].tag, "TODO");
    assert_eq!(items[1].tag, "FIXME");
    assert_eq!(items[2].tag, "NOTE");
}

#[test]
fn test_priority_from_tag() {
    assert_eq!(Priority::from_tag("BUG"), Priority::Critical);
    assert_eq!(Priority::from_tag("FIXME"), Priority::Critical);
    assert_eq!(Priority::from_tag("HACK"), Priority::High);
    assert_eq!(Priority::from_tag("TODO"), Priority::Medium);
    assert_eq!(Priority::from_tag("NOTE"), Priority::Low);
}

#[test]
fn test_todo_without_colon() {
    let parser = TodoParser::new(&default_tags(), false).unwrap();
    let result = parser.parse_line("// TODO fix this", 1);

    assert!(result.is_some());
    let item = result.unwrap();
    assert_eq!(item.tag, "TODO");
    assert_eq!(item.message, "fix this");
}

#[test]
fn test_empty_tags() {
    let parser = TodoParser::new(&[], false).unwrap();
    let result = parser.parse_line("// TODO: something", 1);
    assert!(result.is_none());
}

#[test]
fn test_special_characters_in_message() {
    let parser = TodoParser::new(&default_tags(), false).unwrap();
    let result = parser.parse_line("// TODO: Handle special chars: @#$%^&*()", 1);

    assert!(result.is_some());
    let item = result.unwrap();
    assert!(item.message.contains("@#$%^&*()"));
}

#[test]
fn author_scenario_with_two_tags() {
    let tags = vec!["TODO".to_string(), "FIXME".to_string()];
    let parser = TodoParser::new(&tags, false).unwrap();
    let item = parser.parse_line("// TODO(john): Implement this", 7).unwrap();
    assert_eq!(item.tag, "TODO");
    assert_eq!(item.author, Some("john".to_string()));
    assert_eq!(item.message, "Implement this");
    assert_eq!(item.line, 7);
    assert_eq!(item.column, 4);
    assert_eq!(item.line_content, "// TODO(john): Implement this");
    assert_eq!(item.priority, Priority::Medium);
}

#[test]
fn three_line_content_gives_lines_one_and_three() {
    let tags = vec!["TODO".to_string(), "FIXME".to_string()];
    let parser = TodoParser::new(&tags, false).unwrap();
    let items = parser.parse_content("// TODO: First\nfn x(){}\n// FIXME: Second");
    assert_eq!(items.len(), 2);
    assert_eq!(items[0].line, 1);
    assert_eq!(items[0].message, "First");
    assert_eq!(items[1].line, 3);
    assert_eq!(items[1].tag, "FIXME");
    assert_eq!(items[1].priority, Priority::Critical);
}

#[test]
fn case_sensitive_rejects_lowercase_accepts_uppercase() {
    let parser = TodoParser::new(&["TODO".to_string()], true).unwrap();
    assert!(parser.parse_line("// todo: x", 1).is_none());
    let item = parser.parse_line("// TODO: x", 1).unwrap();
    assert_eq!(item.tag, "TODO");
    assert_eq!(item.message, "x");
}

#[test]
fn tag_inside_identifier_does_not_match() {
    let parser = TodoParser::new(&default_tags(), false).unwrap();
    assert!(parser.parse_line("let AUTODOC: u8 = 1;", 1).is_none());
    assert!(parser.parse_line("my_todo: here", 1).is_none());
    assert!(parser.parse_line("TODOS: plural", 1).is_none());
}

#[test]
fn tag_at_line_start_matches_at_column_one() {
    let parser = TodoParser::new(&default_tags(), false).unwrap();
    let item = parser.parse_line("BUG: crash on start", 2).unwrap();
    assert_eq!(item.tag, "BUG");
    assert_eq!(item.column, 1);
    assert_eq!(item.priority, Priority::Critical);
}

#[test]
fn empty_tag_list_never_matches() {
    let parser = TodoParser::new(&[], true).unwrap();
    assert!(parser.parse_line("TODO: a", 1).is_none());
    assert!(parser.parse_line("", 1).is_none());
    assert!(parser.parse_content("// FIXME: b\n// TODO: c").is_empty());
    assert!(parser.tags().is_empty());
}

#[test]
fn first_occurrence_wins_on_a_line() {
    let parser = TodoParser::new(&default_tags(), false).unwrap();
    let item = parser.parse_line("// FIXME: later TODO: sooner", 1).unwrap();
    assert_eq!(item.tag, "FIXME");
    assert_eq!(item.message, "later TODO: sooner");
}

#[test]
fn tags_with_regex_metacharacters_are_literal() {
    let tags = vec!["C++".to_string(), "A.B".to_string()];
    let parser = TodoParser::new(&tags, true).unwrap();
    let item = parser.parse_line("// C++: templates", 1).unwrap();
    assert_eq!(item.tag, "C++");
    assert_eq!(item.message, "templates");
    assert!(parser.parse_line("// AxB: not a tag", 1).is_none());
    assert!(parser.parse_line("// A.B: a tag", 1).is_some());
}

#[test]
fn normalization_uses_configured_casing() {
    let tags = vec!["Todo".to_string(), "TODO".to_string()];
    let parser = TodoParser::new(&tags, false).unwrap();
    let item = parser.parse_line("# tOdO: mixed", 1).unwrap();
    assert_eq!(item.tag, "Todo");
    assert_eq!(parser.normalize_tag("TODO"), "Todo");
    assert_eq!(parser.normalize_tag("other"), "other");
}

#[test]
fn make_item_builds_fields() {
    let parser = TodoParser::new(&default_tags(), false).unwrap();
    let item = parser.make_item("fixme", Some("ann"), "msg", 3, "// fixme(ann): msg", 9);
    assert_eq!(item.tag, "FIXME");
    assert_eq!(item.author, Some("ann".to_string()));
    assert_eq!(item.message, "msg");
    assert_eq!(item.column, 4);
    assert_eq!(item.line, 9);
    assert_eq!(item.priority, Priority::Critical);
}

#[test]
fn pattern_text_escapes_and_joins() {
    let tags = vec!["TODO".to_string(), "C++".to_string()];
    assert_eq!(
        pattern_text(&tags),
        r"(?:^|[^a-zA-Z0-9_])(TODO|C\+\+)(?:\(([^)]+)\))?[:\s]+(.*)$"
    );
}

#[test]
fn priority_of_unknown_and_lowercase_tags() {
    assert_eq!(Priority::from_tag("warning"), Priority::High);
    assert_eq!(Priority::from_tag("idea"), Priority::Low);
    assert_eq!(Priority::from_tag("xxx"), Priority::Critical);
    assert_eq!(Priority::from_tag("CUSTOM"), Priority::Medium);
    assert_eq!(Priority::from_upper("perf"), Priority::Medium);
    assert_eq!(Priority::from_upper("INFO"), Priority::Low);
}

#[test]
fn ascii_case_comparison() {
    assert!(eq_ignore_ascii_case("FiXmE", "fixme"));
    assert!(!eq_ignore_ascii_case("fixme", "fixm"));
    assert!(!eq_ignore_ascii_case("é", "É"));
}

#[test]
fn message_is_trimmed_on_both_ends() {
    let parser = TodoParser::new(&default_tags(), false).unwrap();
    let item = parser.parse_line("#  HACK:\t  spaced out  \t", 1).unwrap();
    assert_eq!(item.message, "spaced out");
    assert_eq!(item.priority, Priority::High);
}

#[test]
fn crlf_content_lines_are_numbered() {
    let parser = TodoParser::new(&default_tags(), false).unwrap();
    let items = parser.parse_content("x\r\n// NOTE: n\r\n");
    assert_eq!(items.len(), 1);
    assert_eq!(items[0].line, 2);
    assert_eq!(items[0].message, "n");
}
