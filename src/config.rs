use vstd::prelude::*;

verus! {

/// Name of the tag at index `i` of the default configuration.
pub open spec fn config_default_tag(i: int) -> Seq<char> {
    if i == 0 {
        "TODO"@
    } else if i == 1 {
        "FIXME"@
    } else if i == 2 {
        "BUG"@
    } else if i == 3 {
        "HACK"@
    } else if i == 4 {
        "NOTE"@
    } else if i == 5 {
        "XXX"@
    } else if i == 6 {
        "WARN"@
    } else {
        "PERF"@
    }
}

/// Whether `tags` is the default tag list of the configuration.
pub open spec fn is_config_default_tags(tags: Seq<String>) -> bool {
    &&& tags.len() == 8
    &&& forall|i: int| 0 <= i < 8 ==> (#[trigger] tags[i])@ == config_default_tag(i)
}

/// The list that replaces `current` when `given` is supplied: a non-empty
/// given list wins, anything else keeps the current one.
pub open spec fn replaced(current: Seq<String>, given: Option<Vec<String>>) -> Seq<String> {
    match given {
        Some(v) => if v@.len() > 0 {
            v@
        } else {
            current
        },
        None => current,
    }
}

/// The list `current` extended by `given`, if any.
pub open spec fn extended(current: Seq<String>, given: Option<Vec<String>>) -> Seq<String> {
    match given {
        Some(v) => current + v@,
        None => current,
    }
}

/// The tags that a configuration searches for by default.
pub fn config_default_tags() -> (r: Vec<String>)
    ensures
        is_config_default_tags(r@),
{
    let mut v: Vec<String> = Vec::new();
    v.push("TODO".to_owned());
    v.push("FIXME".to_owned());
    v.push("BUG".to_owned());
    v.push("HACK".to_owned());
    v.push("NOTE".to_owned());
    v.push("XXX".to_owned());
    v.push("WARN".to_owned());
    v.push("PERF".to_owned());
    v
}

/// Settings of a scan and of its output.
#[derive(Debug, Clone, Default)]
pub struct Config {
    /// Tags to search for.
    pub tags: Vec<String>,
    /// Glob patterns of files to scan.
    pub include_patterns: Vec<String>,
    /// File patterns to exclude (glob patterns).
    pub exclude: Vec<String>,
    /// Whether to print JSON.
    pub json: bool,
    /// Whether to print a flat list instead of a tree.
    pub flat: bool,
    /// Whether to print without colours.
    pub no_color: bool,
    /// A custom pattern for matching.
    pub custom_pattern: Option<String>,
    /// Whether matching is case-sensitive.
    pub case_sensitive: bool,
}

impl Config {
    /// The default configuration: the default tags, no patterns, every flag
    /// off.
    pub fn new() -> (r: Config)
        ensures
            is_config_default_tags(r.tags@),
            r.include_patterns@.len() == 0,
            r.exclude@.len() == 0,
            !r.json,
            !r.flat,
            !r.no_color,
            r.custom_pattern is None,
            !r.case_sensitive,
    {
        Config {
            tags: config_default_tags(),
            include_patterns: Vec::new(),
            exclude: Vec::new(),
            json: false,
            flat: false,
            no_color: false,
            custom_pattern: None,
            case_sensitive: false,
        }
    }

    /// Merges command-line options into this configuration: non-empty lists of
    /// tags and of file patterns replace the configured ones, exclude patterns
    /// are added,
    /// and a flag that is set turns the configured flag on.
    pub fn merge_with_cli(
        &mut self,
        tags: Option<Vec<String>>,
        include_patterns: Option<Vec<String>>,
        exclude: Option<Vec<String>>,
        json: bool,
        flat: bool,
        no_color: bool,
    )
        ensures
            final(self).tags@ == replaced(old(self).tags@, tags),
            final(self).include_patterns@ == replaced(old(self).include_patterns@, include_patterns),
            final(self).exclude@ == extended(old(self).exclude@, exclude),
            final(self).json == (old(self).json || json),
            final(self).flat == (old(self).flat || flat),
            final(self).no_color == (old(self).no_color || no_color),
            final(self).custom_pattern == old(self).custom_pattern,
            final(self).case_sensitive == old(self).case_sensitive,
    {
        if let Some(t) = tags {
            if t.len() > 0 {
                self.tags = t;
            }
        }
        if let Some(i) = include_patterns {
            if i.len() > 0 {
                self.include_patterns = i;
            }
        }
        if let Some(e) = exclude {
            let mut e = e;
            self.exclude.append(&mut e);
        }
        if json {
            self.json = true;
        }
        if flat {
            self.flat = true;
        }
        if no_color {
            self.no_color = true;
        }
    }
}

} // verus!
