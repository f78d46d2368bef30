use vstd::prelude::*;

use crate::text::{str_equal, to_upper, upper_of};

verus! {

/// Priority levels for the different tag kinds.
#[derive(Debug, Clone, Copy, PartialEq, Eq, Structural, PartialOrd, Ord, Hash)]
pub enum Priority {
    Low,
    Medium,
    High,
    Critical,
}

/// The priority of an already upper-cased tag name; unknown names are Medium.
pub open spec fn priority_of_upper(u: Seq<char>) -> Priority {
    if u == "BUG"@ || u == "FIXME"@ || u == "XXX"@ {
        Priority::Critical
    } else if u == "HACK"@ || u == "WARN"@ || u == "WARNING"@ {
        Priority::High
    } else if u == "TODO"@ || u == "PERF"@ {
        Priority::Medium
    } else if u == "NOTE"@ || u == "INFO"@ || u == "IDEA"@ {
        Priority::Low
    } else {
        Priority::Medium
    }
}

/// The priority that a tag name carries.
pub open spec fn priority_of_tag(tag: Seq<char>) -> Priority {
    priority_of_upper(upper_of(tag))
}

impl Priority {
    /// Infers the priority of a tag name, compared in upper case.
    pub fn from_tag(tag: &str) -> (r: Priority)
        ensures
            r == priority_of_tag(tag@),
    {
        let upper = to_upper(tag);
        Priority::from_upper(upper.as_str())
    }

    /// The priority of a tag name that is already in upper case.
    pub fn from_upper(u: &str) -> (r: Priority)
        ensures
            r == priority_of_upper(u@),
    {
        if str_equal(u, "BUG") || str_equal(u, "FIXME") || str_equal(u, "XXX") {
            Priority::Critical
        } else if str_equal(u, "HACK") || str_equal(u, "WARN") || str_equal(u, "WARNING") {
            Priority::High
        } else if str_equal(u, "TODO") || str_equal(u, "PERF") {
            Priority::Medium
        } else if str_equal(u, "NOTE") || str_equal(u, "INFO") || str_equal(u, "IDEA") {
            Priority::Low
        } else {
            Priority::Medium
        }
    }
}

} // verus!
