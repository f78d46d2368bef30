use vstd::prelude::*;

use crate::config::{extended, replaced};
use crate::tags::{default_name, default_tag_names, DEFAULT_TAG_COUNT};

verus! {

/// The tags searched for when none are given: the names of the default tag
/// definitions.
pub fn default_tags() -> (r: Vec<String>)
    ensures
        r@.len() == DEFAULT_TAG_COUNT,
        forall|i: int| 0 <= i < r@.len() ==> (#[trigger] r@[i])@ == default_name(i),
{
    default_tag_names()
}

/// Options given on the command line.
#[derive(Debug, Clone, Default)]
pub struct CliOptions {
    pub tags: Option<Vec<String>>,
    pub include_patterns: Option<Vec<String>>,
    pub exclude: Option<Vec<String>>,
    pub json: bool,
    pub flat: bool,
    pub no_color: bool,
    pub case_sensitive: Option<bool>,
    pub ignore_case: bool,
    pub no_require_colon: bool,
}

/// Settings of a scan and of its output, with the matching options of the
/// command-line tool.
#[derive(Debug, Clone, Default)]
pub struct Config {
    /// Tags to search for.
    pub tags: Vec<String>,
    /// Glob patterns of files to scan.
    pub include_patterns: Vec<String>,
    /// File patterns to exclude (glob patterns).
    pub exclude: Vec<String>,
    /// Whether to print JSON.
    pub json: bool,
    /// Whether to print a flat list instead of a tree.
    pub flat: bool,
    /// Whether to print without colours.
    pub no_color: bool,
    /// A custom pattern for matching.
    pub custom_pattern: Option<String>,
    /// Whether matching is case-sensitive.
    pub case_sensitive: bool,
    /// Whether a colon is required after a tag.
    pub require_colon: bool,
}

/// The case sensitivity after merging: `ignore_case` wins, then an explicit
/// choice, then the configured value.
pub open spec fn merged_case_sensitive(current: bool, cli: CliOptions) -> bool {
    if cli.ignore_case {
        false
    } else {
        match cli.case_sensitive {
            Some(c) => c,
            None => current,
        }
    }
}

impl Config {
    /// The default configuration: the default tags, no patterns, output flags
    /// off, case-sensitive matching and a colon required.
    pub fn new() -> (r: Config)
        ensures
            r.tags@.len() == DEFAULT_TAG_COUNT,
            forall|i: int| 0 <= i < r.tags@.len() ==> (#[trigger] r.tags@[i])@ == default_name(i),
            r.include_patterns@.len() == 0,
            r.exclude@.len() == 0,
            !r.json,
            !r.flat,
            !r.no_color,
            r.custom_pattern is None,
            r.case_sensitive,
            r.require_colon,
    {
        Config {
            tags: default_tags(),
            include_patterns: Vec::new(),
            exclude: Vec::new(),
            json: false,
            flat: false,
            no_color: false,
            custom_pattern: None,
            case_sensitive: true,
            require_colon: true,
        }
    }

    /// Merges command-line options into this configuration: non-empty lists of
    /// tags and of file patterns replace the configured ones, exclude patterns
    /// are added,
    /// a flag that is set turns the configured flag on, `ignore_case` or an
    /// explicit choice sets the case sensitivity, and `no_require_colon`
    /// drops the colon requirement.
    pub fn merge_with_cli(&mut self, cli: CliOptions)
        ensures
            final(self).tags@ == replaced(old(self).tags@, cli.tags),
            final(self).include_patterns@ == replaced(old(self).include_patterns@, cli.include_patterns),
            final(self).exclude@ == extended(old(self).exclude@, cli.exclude),
            final(self).json == (old(self).json || cli.json),
            final(self).flat == (old(self).flat || cli.flat),
            final(self).no_color == (old(self).no_color || cli.no_color),
            final(self).custom_pattern == old(self).custom_pattern,
            final(self).case_sensitive == merged_case_sensitive(old(self).case_sensitive, cli),
            final(self).require_colon == (old(self).require_colon && !cli.no_require_colon),
    {
        let CliOptions {
            tags,
            include_patterns,
            exclude,
            json,
            flat,
            no_color,
            case_sensitive,
            ignore_case,
            no_require_colon,
        } = cli;
        if let Some(t) = tags {
            if t.len() > 0 {
                self.tags = t;
            }
        }
        if let Some(i) = include_patterns {
            if i.len() > 0 {
                self.include_patterns = i;
            }
        }
        if let Some(e) = exclude {
            let mut e = e;
            self.exclude.append(&mut e);
        }
        if json {
            self.json = true;
        }
        if flat {
            self.flat = true;
        }
        if no_color {
            self.no_color = true;
        }
        if let Some(c) = case_sensitive {
            self.case_sensitive = c;
        }
        if ignore_case {
            self.case_sensitive = false;
        }
        if no_require_colon {
            self.require_colon = false;
        }
    }
}

} // verus!
