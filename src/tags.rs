use vstd::prelude::*;

use crate::priority::Priority;
use crate::text::{eq_ignore_ascii_case, eq_ignore_case};

verus! {

/// A tag known by default, with its description and priority.
#[derive(Debug, Clone, PartialEq)]
pub struct TagDefinition {
    /// Tag name, such as "TODO".
    pub name: &'static str,
    /// Description shown to users.
    pub description: &'static str,
    /// Priority level.
    pub priority: Priority,
}

/// Number of tags known by default.
pub const DEFAULT_TAG_COUNT: usize = 8;

/// Name of the default tag at index `i`.
pub open spec fn default_name(i: int) -> Seq<char> {
    if i == 0 {
        "TODO"@
    } else if i == 1 {
        "FIXME"@
    } else if i == 2 {
        "BUG"@
    } else if i == 3 {
        "NOTE"@
    } else if i == 4 {
        "HACK"@
    } else if i == 5 {
        "XXX"@
    } else if i == 6 {
        "WARN"@
    } else {
        "PERF"@
    }
}

/// Priority of the default tag at index `i`.
pub open spec fn default_priority(i: int) -> Priority {
    if i == 1 || i == 2 || i == 5 {
        Priority::Critical
    } else if i == 4 || i == 6 {
        Priority::High
    } else if i == 3 {
        Priority::Low
    } else {
        Priority::Medium
    }
}

/// The table of default tags, in order.
pub open spec fn is_default_table(t: Seq<TagDefinition>) -> bool {
    &&& t.len() == DEFAULT_TAG_COUNT
    &&& forall|i: int|
        0 <= i < t.len() ==> {
            &&& (#[trigger] t[i]).name@ == default_name(i)
            &&& t[i].priority == default_priority(i)
            &&& t[i].description@.len() > 0
        }
}

/// Index of the first default tag equal to `name` ignoring ASCII case, if any.
pub open spec fn first_default_match(name: Seq<char>) -> Option<int> {
    if exists|i: int| 0 <= i < DEFAULT_TAG_COUNT && eq_ignore_case(default_name(i), name) {
        let i = choose|i: int|
            0 <= i < DEFAULT_TAG_COUNT && eq_ignore_case(default_name(i), name) && forall|
                j: int,
            |
                0 <= j < i ==> !eq_ignore_case(#[trigger] default_name(j), name);
        Some(i)
    } else {
        None
    }
}

fn definition(
    name: &'static str,
    description: &'static str,
    priority: Priority,
) -> (r: TagDefinition)
    ensures
        r.name == name,
        r.description == description,
        r.priority == priority,
{
    TagDefinition { name, description, priority }
}

/// The default tag definitions.
pub fn default_definitions() -> (r: Vec<TagDefinition>)
    ensures
        is_default_table(r@),
{
    proof {
        reveal_strlit("General TODO items");
        reveal_strlit("Items that need fixing");
        reveal_strlit("Known bugs");
        reveal_strlit("Notes and documentation");
        reveal_strlit("Hacky solutions");
        reveal_strlit("Critical items requiring attention");
        reveal_strlit("Warnings");
        reveal_strlit("Performance issues");
    }
    let mut v: Vec<TagDefinition> = Vec::new();
    v.push(definition("TODO", "General TODO items", Priority::Medium));
    v.push(definition("FIXME", "Items that need fixing", Priority::Critical));
    v.push(definition("BUG", "Known bugs", Priority::Critical));
    v.push(definition("NOTE", "Notes and documentation", Priority::Low));
    v.push(definition("HACK", "Hacky solutions", Priority::High));
    v.push(definition("XXX", "Critical items requiring attention", Priority::Critical));
    v.push(definition("WARN", "Warnings", Priority::High));
    v.push(definition("PERF", "Performance issues", Priority::Medium));
    v
}

/// The names of the default tags, in order.
pub fn default_tag_names() -> (r: Vec<String>)
    ensures
        r@.len() == DEFAULT_TAG_COUNT,
        forall|i: int| 0 <= i < r@.len() ==> (#[trigger] r@[i])@ == default_name(i),
{
    let defs = default_definitions();
    let mut names: Vec<String> = Vec::new();
    let mut i: usize = 0;
    while i < defs.len()
        invariant
            is_default_table(defs@),
            0 <= i <= defs@.len(),
            names@.len() == i,
            forall|j: int| 0 <= j < i ==> (#[trigger] names@[j])@ == default_name(j),
        decreases defs@.len() - i,
    {
        names.push(defs[i].name.to_owned());
        i = i + 1;
    }
    names
}

/// Finds the first default tag whose name equals `name`, ignoring ASCII case.
pub fn find_tag(name: &str) -> (r: Option<TagDefinition>)
    ensures
        match first_default_match(name@) {
            None => r is None,
            Some(i) => r matches Some(d) && d.name@ == default_name(i) && d.priority
                == default_priority(i),
        },
{
    let defs = default_definitions();
    let mut i: usize = 0;
    while i < defs.len()
        invariant
            is_default_table(defs@),
            0 <= i <= defs@.len(),
            forall|j: int| 0 <= j < i ==> !eq_ignore_case(#[trigger] default_name(j), name@),
        decreases defs@.len() - i,
    {
        if eq_ignore_ascii_case(defs[i].name, name) {
            let d = definition(defs[i].name, defs[i].description, defs[i].priority);
            proof {
                let k = i as int;
                assert(0 <= k < DEFAULT_TAG_COUNT && eq_ignore_case(default_name(k), name@));
                let c = choose|c: int|
                    0 <= c < DEFAULT_TAG_COUNT && eq_ignore_case(default_name(c), name@) && forall|
                        j: int,
                    |
                        0 <= j < c ==> !eq_ignore_case(#[trigger] default_name(j), name@);
                assert(c == k) by {
                    if c < k {
                        assert(!eq_ignore_case(default_name(c), name@));
                    }
                    if k < c {
                        assert(!eq_ignore_case(default_name(k), name@));
                    }
                }
            }
            return Some(d);
        }
        i = i + 1;
    }
    None
}

} // verus!
