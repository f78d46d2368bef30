use todo_tree::tags::default_definitions;
use todo_tree::{default_tag_names, find_tag, Priority, TagDefinition};

#[test]
fn test_default_tags_count() {
    assert_eq!(default_definitions().len(), 8);
}

#[test]
fn test_default_tags_contains_todo() {
    assert!(default_definitions().iter().any(|t| t.name == "TODO"));
}

#[test]
fn test_default_tags_contains_fixme() {
    assert!(default_definitions().iter().any(|t| t.name == "FIXME"));
}

#[test]
fn test_default_tags_priorities() {
    let defs = default_definitions();
    let critical_tags: Vec<_> = defs.iter().filter(|t| t.priority == Priority::Critical).collect();
    assert_eq!(critical_tags.len(), 3);

    let high_tags: Vec<_> = defs.iter().filter(|t| t.priority == Priority::High).collect();
    assert_eq!(high_tags.len(), 2);

    let medium_tags: Vec<_> = defs.iter().filter(|t| t.priority == Priority::Medium).collect();
    assert_eq!(medium_tags.len(), 2);

    let low_tags: Vec<_> = defs.iter().filter(|t| t.priority == Priority::Low).collect();
    assert_eq!(low_tags.len(), 1);
}

#[test]
fn test_default_tag_names() {
    let names = default_tag_names();
    assert_eq!(names.len(), 8);
    assert!(names.contains(&"TODO".to_string()));
    assert!(names.contains(&"FIXME".to_string()));
    assert!(names.contains(&"BUG".to_string()));
}

#[test]
fn test_find_tag() {
    let tag = find_tag("TODO");
    assert!(tag.is_some());
    assert_eq!(tag.unwrap().name, "TODO");
}

#[test]
fn test_find_tag_case_insensitive() {
    let tag = find_tag("todo");
    assert!(tag.is_some());
    assert_eq!(tag.unwrap().name, "TODO");

    let tag = find_tag("FiXmE");
    assert!(tag.is_some());
    assert_eq!(tag.unwrap().name, "FIXME");
}

#[test]
fn test_find_tag_not_found() {
    let tag = find_tag("NONEXISTENT");
    assert!(tag.is_none());
}

#[test]
fn test_tag_definition_equality() {
    let tag1 = TagDefinition {
        name: "TODO",
        description: "Test",
        priority: Priority::Medium,
    };

    let tag2 = TagDefinition {
        name: "TODO",
        description: "Test",
        priority: Priority::Medium,
    };

    assert_eq!(tag1, tag2);
}

#[test]
fn test_all_tags_have_descriptions() {
    for tag in default_definitions() {
        assert!(!tag.description.is_empty());
    }
}

#[test]
fn test_all_tags_have_names() {
    for tag in default_definitions() {
        assert!(!tag.name.is_empty());
    }
}

#[test]
fn default_names_follow_definition_order() {
    let names = default_tag_names();
    assert_eq!(
        names,
        vec!["TODO", "FIXME", "BUG", "NOTE", "HACK", "XXX", "WARN", "PERF"]
    );
}

#[test]
fn find_tag_returns_priority() {
    assert_eq!(find_tag("xxx").unwrap().priority, Priority::Critical);
    assert_eq!(find_tag("note").unwrap().priority, Priority::Low);
    assert!(find_tag("TODOS").is_none());
    assert!(find_tag("").is_none());
}
