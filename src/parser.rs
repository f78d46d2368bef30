use vstd::prelude::*;

use crate::pattern::{pattern_compiles, tag_pattern, TagPattern};
use crate::priority::{priority_of_tag, Priority};
use crate::text::{eq_ignore_ascii_case, eq_ignore_case, lines_of, split_lines, trim, trimmed};

verus! {

/// A tag found in a line of source text.
#[derive(Debug, Clone, PartialEq, Eq)]
pub struct TodoItem {
    /// The tag that matched, such as "TODO" or "FIXME".
    pub tag: String,
    /// The message after the tag, trimmed.
    pub message: String,
    /// Line number of the tag (1-indexed).
    pub line: usize,
    /// Column of the tag start (1-indexed, counted in bytes).
    pub column: usize,
    /// The whole line.
    pub line_content: String,
    /// Author given in parentheses right after the tag, as in `TODO(john):`.
    pub author: Option<String>,
    /// Priority inferred from the tag.
    pub priority: Priority,
}

/// The view of an optional string.
pub open spec fn opt_view(o: Option<String>) -> Option<Seq<char>> {
    match o {
        Some(s) => Some(s@),
        None => None,
    }
}

impl TodoItem {
    /// A copy of this item, equal to it field for field.
    pub fn duplicate(&self) -> (r: TodoItem)
        ensures
            r == *self,
    {
        let author = match &self.author {
            Some(a) => Some(a.clone()),
            None => None,
        };
        TodoItem {
            tag: self.tag.clone(),
            message: self.message.clone(),
            line: self.line,
            column: self.column,
            line_content: self.line_content.clone(),
            author,
            priority: self.priority,
        }
    }
}

/// The error of a tag list whose pattern the regex engine refuses.
#[derive(Debug, Clone, PartialEq, Eq)]
pub struct PatternError {
    /// The pattern text that was refused.
    pub pattern: String,
}

/// Index of the first tag in `tags` equal to `tag` ignoring ASCII case.
pub open spec fn first_tag_match(tags: Seq<String>, tag: Seq<char>) -> Option<int> {
    if exists|i: int| 0 <= i < tags.len() && eq_ignore_case(tags[i]@, tag) {
        Some(
            choose|i: int|
                0 <= i < tags.len() && eq_ignore_case(tags[i]@, tag) && forall|j: int|
                    0 <= j < i ==> !eq_ignore_case(#[trigger] tags[j]@, tag),
        )
    } else {
        None
    }
}

/// The tag as reported: when matching ignores case, the casing of the first
/// configured tag equal to it; the matched text otherwise.
pub open spec fn normalized_tag(tags: Seq<String>, case_sensitive: bool, tag: Seq<char>) -> Seq<
    char,
> {
    if case_sensitive {
        tag
    } else {
        match first_tag_match(tags, tag) {
            Some(i) => tags[i]@,
            None => tag,
        }
    }
}

/// Whether `item` is what a match with these parts gives.
pub open spec fn item_from_parts(
    item: TodoItem,
    tags: Seq<String>,
    case_sensitive: bool,
    tag: Seq<char>,
    author: Option<Seq<char>>,
    message: Seq<char>,
    start: nat,
    line: Seq<char>,
    line_number: usize,
) -> bool {
    &&& item.tag@ == normalized_tag(tags, case_sensitive, tag)
    &&& item.message@ == message
    &&& item.line == line_number
    &&& item.column == start + 1
    &&& item.line_content@ == line
    &&& opt_view(item.author) == author
    &&& item.priority == priority_of_tag(item.tag@)
}

/// Finds tags in lines of text.
#[derive(Debug)]
pub struct TodoParser {
    pattern: Option<TagPattern>,
    tags: Vec<String>,
    case_sensitive: bool,
}

impl TodoParser {
    /// The configured tags.
    pub closed spec fn spec_tags(&self) -> Seq<String> {
        self.tags@
    }

    /// Whether matching is case-sensitive.
    pub closed spec fn spec_case_sensitive(&self) -> bool {
        self.case_sensitive
    }

    /// The compiled pattern, absent when there are no tags.
    pub closed spec fn spec_pattern(&self) -> Option<TagPattern> {
        self.pattern
    }

    /// The pattern is absent exactly when there are no tags; otherwise it was
    /// built from the tags with the matching case flag.
    pub closed spec fn wf(&self) -> bool {
        match self.pattern {
            None => self.tags@.len() == 0,
            Some(p) => {
                &&& self.tags@.len() > 0
                &&& p.source() == tag_pattern(self.tags@.map_values(|t: String| t@))
                &&& p.is_case_insensitive() == !self.case_sensitive
            },
        }
    }

    /// What `parse_line` gives for `line` numbered `line_number`.
    pub open spec fn spec_parse_line(&self, line: Seq<char>, line_number: usize, r: Option<TodoItem>) -> bool {
        match self.spec_pattern() {
            None => r is None,
            Some(p) => match p.spec_captures(line) {
                None => r is None,
                Some(c) => r matches Some(item) && item_from_parts(
                    item,
                    self.spec_tags(),
                    self.spec_case_sensitive(),
                    c.0,
                    c.1,
                    trimmed(c.2),
                    c.3,
                    line,
                    line_number,
                ),
            },
        }
    }

    /// Creates a parser for `tags`. With no tags the parser matches nothing;
    /// otherwise it fails only where the regex engine refuses the pattern.
    pub fn new(tags: &[String], case_sensitive: bool) -> (r: Result<TodoParser, PatternError>)
        ensures
            tags@.len() == 0 ==> (r matches Ok(p) && p.spec_pattern() is None),
            tags@.len() > 0 ==> (r is Ok <==> pattern_compiles(
                tag_pattern(tags@.map_values(|t: String| t@)),
                !case_sensitive,
            )),
            r matches Ok(p) ==> {
                &&& p.wf()
                &&& p.spec_tags() == tags@
                &&& p.spec_case_sensitive() == case_sensitive
                &&& match p.spec_pattern() {
                    None => tags@.len() == 0,
                    Some(pat) => pat.source() == tag_pattern(tags@.map_values(|t: String| t@))
                        && pat.is_case_insensitive() == !case_sensitive,
                }
            },
            r matches Err(e) ==> e.pattern@ == tag_pattern(tags@.map_values(|t: String| t@)),
    {
        let owned = copy_strings(tags);
        if tags.len() == 0 {
            return Ok(TodoParser { pattern: None, tags: owned, case_sensitive });
        }
        match TagPattern::build(tags, !case_sensitive) {
            Ok(p) => Ok(TodoParser { pattern: Some(p), tags: owned, case_sensitive }),
            Err(text) => Err(PatternError { pattern: text }),
        }
    }

    /// The tags being searched for.
    pub fn tags(&self) -> (r: &[String])
        ensures
            r@ == self.spec_tags(),
    {
        self.tags.as_slice()
    }

    /// The tag as reported for the matched text `tag`.
    pub fn normalize_tag(&self, tag: &str) -> (r: String)
        ensures
            r@ == normalized_tag(self.spec_tags(), self.spec_case_sensitive(), tag@),
    {
        if self.case_sensitive {
            return tag.to_owned();
        }
        let mut i: usize = 0;
        while i < self.tags.len()
            invariant
                0 <= i <= self.tags@.len(),
                !self.case_sensitive,
                forall|j: int| 0 <= j < i ==> !eq_ignore_case(#[trigger] self.tags@[j]@, tag@),
            decreases self.tags@.len() - i,
        {
            if eq_ignore_ascii_case(self.tags[i].as_str(), tag) {
                proof {
                    let k = i as int;
                    assert(0 <= k < self.tags@.len() && eq_ignore_case(self.tags@[k]@, tag@));
                    let c = choose|c: int|
                        0 <= c < self.tags@.len() && eq_ignore_case(self.tags@[c]@, tag@) && forall|
                            j: int,
                        |
                            0 <= j < c ==> !eq_ignore_case(#[trigger] self.tags@[j]@, tag@);
                    assert(c == k) by {
                        if c < k {
                            assert(!eq_ignore_case(self.tags@[c]@, tag@));
                        }
                        if k < c {
                            assert(!eq_ignore_case(self.tags@[k]@, tag@));
                        }
                    }
                }
                return self.tags[i].clone();
            }
            i = i + 1;
        }
        tag.to_owned()
    }

    /// Builds the item for a match: `tag` is the matched tag text, `author`
    /// the author group, `message` the trimmed message, and `start` the byte
    /// offset of the tag in `line`.
    pub fn make_item(
        &self,
        tag: &str,
        author: Option<&str>,
        message: &str,
        start: usize,
        line: &str,
        line_number: usize,
    ) -> (r: TodoItem)
        requires
            start < usize::MAX,
        ensures
            item_from_parts(
                r,
                self.spec_tags(),
                self.spec_case_sensitive(),
                tag@,
                match author {
                    Some(a) => Some(a@),
                    None => None,
                },
                message@,
                start as nat,
                line@,
                line_number,
            ),
    {
        let normalized = self.normalize_tag(tag);
        let priority = Priority::from_tag(normalized.as_str());
        let author = match author {
            Some(a) => Some(a.to_owned()),
            None => None,
        };
        TodoItem {
            tag: normalized,
            message: message.to_owned(),
            line: line_number,
            column: start + 1,
            line_content: line.to_owned(),
            author,
            priority,
        }
    }

    /// Looks for the first tag in `line`, numbered `line_number`.
    pub fn parse_line(&self, line: &str, line_number: usize) -> (r: Option<TodoItem>)
        requires
            self.wf(),
        ensures
            self.spec_parse_line(line@, line_number, r),
            self.spec_tags().len() == 0 ==> r is None,
    {
        match &self.pattern {
            None => None,
            Some(p) => match p.captures(line) {
                None => None,
                Some(c) => {
                    let (tag, author, rest, start) = c;
                    let message = trim(rest);
                    Some(self.make_item(tag, author, message, start, line, line_number))
                },
            },
        }
    }

    /// The items of the lines `lines`, in order, numbering the first line 1.
    pub fn parse_lines(&self, lines: &[&str]) -> (r: Vec<TodoItem>)
        requires
            self.wf(),
        ensures
            exists|found: Seq<Option<TodoItem>>|
                {
                    &&& found.len() == lines@.len()
                    &&& forall|i: int|
                        0 <= i < lines@.len() ==> self.spec_parse_line(
                            (#[trigger] lines@[i])@,
                            (i + 1) as usize,
                            found[i],
                        )
                    &&& r@ == somes(found)
                },
    {
        let mut items: Vec<TodoItem> = Vec::new();
        let ghost mut found: Seq<Option<TodoItem>> = Seq::empty();
        let mut i: usize = 0;
        while i < lines.len()
            invariant
                self.wf(),
                0 <= i <= lines@.len(),
                found.len() == i,
                forall|k: int|
                    0 <= k < i ==> self.spec_parse_line(
                        (#[trigger] lines@[k])@,
                        (k + 1) as usize,
                        found[k],
                    ),
                items@ == somes(found),
            decreases lines@.len() - i,
        {
            let one = self.parse_line(lines[i], i + 1);
            proof {
                assert(found.push(one).drop_last() =~= found);
                found = found.push(one);
            }
            match one {
                Some(item) => items.push(item),
                None => {},
            }
            i = i + 1;
        }
        items
    }

    /// The items of every line of `content`, in line order.
    pub fn parse_content(&self, content: &str) -> (r: Vec<TodoItem>)
        requires
            self.wf(),
        ensures
            exists|found: Seq<Option<TodoItem>>|
                {
                    &&& found.len() == lines_of(content@).len()
                    &&& forall|i: int|
                        0 <= i < found.len() ==> self.spec_parse_line(
                            #[trigger] lines_of(content@)[i],
                            (i + 1) as usize,
                            found[i],
                        )
                    &&& r@ == somes(found)
                },
    {
        let lines = split_lines(content);
        let r = self.parse_lines(lines.as_slice());
        proof {
            let found = choose|found: Seq<Option<TodoItem>>|
                {
                    &&& found.len() == lines@.len()
                    &&& forall|i: int|
                        0 <= i < lines@.len() ==> self.spec_parse_line(
                            (#[trigger] lines@[i])@,
                            (i + 1) as usize,
                            found[i],
                        )
                    &&& r@ == somes(found)
                };
            assert forall|i: int| 0 <= i < found.len() implies self.spec_parse_line(
                #[trigger] lines_of(content@)[i],
                (i + 1) as usize,
                found[i],
            ) by {
                assert(lines@[i]@ == lines_of(content@)[i]);
            }
        }
        r
    }
}

/// A copy of a list of strings.
pub fn copy_strings(v: &[String]) -> (r: Vec<String>)
    ensures
        r@ == v@,
{
    let mut out: Vec<String> = Vec::new();
    let mut i: usize = 0;
    while i < v.len()
        invariant
            0 <= i <= v@.len(),
            out@ =~= v@.take(i as int),
        decreases v@.len() - i,
    {
        out.push(v[i].clone());
        i = i + 1;
    }
    proof {
        assert(v@.take(v@.len() as int) =~= v@);
    }
    out
}

/// The present values of a sequence of options, in order.
pub open spec fn somes<T>(s: Seq<Option<T>>) -> Seq<T>
    decreases s.len(),
{
    if s.len() == 0 {
        Seq::empty()
    } else {
        let rest = somes(s.drop_last());
        match s.last() {
            Some(x) => rest.push(x),
            None => rest,
        }
    }
}

} // verus!
