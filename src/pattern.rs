use vstd::prelude::*;

use vstd::string::StringExecFns;

verus! {

#[verifier::external_type_specification]
#[verifier::external_body]
pub struct ExRegex(regex::Regex);

#[verifier::external_type_specification]
#[verifier::external_body]
pub struct ExRegexError(regex::Error);

/// Characters that carry a meaning in the regex syntax.
pub open spec fn is_meta(c: char) -> bool {
    c == '\\' || c == '.' || c == '+' || c == '*' || c == '?' || c == '(' || c == ')' || c
        == '|' || c == '[' || c == ']' || c == '{' || c == '}' || c == '^' || c == '$' || c
        == '#' || c == '&' || c == '-' || c == '~'
}

/// A text with a backslash put before each meta character.
pub open spec fn escaped(s: Seq<char>) -> Seq<char>
    decreases s.len(),
{
    if s.len() == 0 {
        Seq::empty()
    } else {
        let c = s.last();
        let tail = if is_meta(c) {
            seq!['\\', c]
        } else {
            seq![c]
        };
        escaped(s.drop_last()) + tail
    }
}

/// The escaped tags joined by `|`.
pub open spec fn alternation(tags: Seq<Seq<char>>) -> Seq<char>
    decreases tags.len(),
{
    if tags.len() == 0 {
        Seq::empty()
    } else if tags.len() == 1 {
        escaped(tags[0])
    } else {
        alternation(tags.drop_last()) + seq!['|'] + escaped(tags.last())
    }
}

/// Text in front of the tag alternation: start of line, or a character that
/// cannot be part of an identifier, then the opening of the tag group.
pub open spec fn pattern_head() -> Seq<char> {
    "(?:^|[^a-zA-Z0-9_])("@
}

/// Text after the tag alternation: an optional author in parentheses, at
/// least one colon or whitespace, then the rest of the line.
pub open spec fn pattern_tail() -> Seq<char> {
    ")(?:\\(([^)]+)\\))?[:\\s]+(.*)$"@
}

/// The whole pattern for a list of tags.
pub open spec fn tag_pattern(tags: Seq<Seq<char>>) -> Seq<char> {
    pattern_head() + alternation(tags) + pattern_tail()
}

/// Whether the regex crate accepts a pattern, built case-insensitive or not
/// and in multi-line mode.
pub uninterp spec fn pattern_compiles(pattern: Seq<char>, case_insensitive: bool) -> bool;

/// The first match of such a compiled pattern in a line: the text of the tag
/// group, the text of the author group if it took part, the text of the
/// trailing group, and the byte offset at which the tag group starts.
pub uninterp spec fn pattern_captures(
    pattern: Seq<char>,
    case_insensitive: bool,
    line: Seq<char>,
) -> Option<(Seq<char>, Option<Seq<char>>, Seq<char>, nat)>;

/// Relies on `regex::escape`: a backslash before each meta character of the
/// regex syntax, every other character kept.
#[verifier::external_body]
fn escape(s: &str) -> (r: String)
    ensures
        r@ == escaped(s@),
{
    regex::escape(s)
}

/// A compiled tag pattern together with the text and flag it was built from.
#[derive(Debug)]
pub struct TagPattern {
    regex: regex::Regex,
    source: String,
    case_insensitive: bool,
}

impl TagPattern {
    /// The pattern text this was compiled from.
    pub closed spec fn source(&self) -> Seq<char> {
        self.source@
    }

    /// Whether this was compiled case-insensitive.
    pub closed spec fn is_case_insensitive(&self) -> bool {
        self.case_insensitive
    }

    /// The first match of this pattern in `line`.
    pub open spec fn spec_captures(&self, line: Seq<char>) -> Option<
        (Seq<char>, Option<Seq<char>>, Seq<char>, nat),
    > {
        pattern_captures(self.source(), self.is_case_insensitive(), line)
    }

    /// Relies on `regex::RegexBuilder::build` with the given case flag and
    /// multi-line mode: whether it accepts the pattern depends on the pattern
    /// and the flags alone.
    #[verifier::external_body]
    fn compile(pattern: &str, case_insensitive: bool) -> (r: Result<TagPattern, regex::Error>)
        ensures
            r is Ok <==> pattern_compiles(pattern@, case_insensitive),
            r matches Ok(p) ==> p.source() == pattern@ && p.is_case_insensitive()
                == case_insensitive,
    {
        match regex::RegexBuilder::new(pattern).case_insensitive(case_insensitive).multi_line(
            true,
        ).build() {
            Ok(regex) => Ok(TagPattern { regex, source: pattern.to_string(), case_insensitive }),
            Err(e) => Err(e),
        }
    }

    /// Relies on `regex::Regex::captures` and `Captures::get`: groups 1, 2 and
    /// 3 of the first match, and the start of group 1, a byte offset into the
    /// line, which is never more than `isize::MAX`.
    #[verifier::external_body]
    pub(crate) fn captures<'a>(&self, line: &'a str) -> (r: Option<
        (&'a str, Option<&'a str>, &'a str, usize),
    >)
        ensures
            match r {
                None => pattern_captures(self.source(), self.is_case_insensitive(), line@) is None,
                Some(c) => {
                    &&& pattern_captures(self.source(), self.is_case_insensitive(), line@) matches Some(s)
                    &&& s.0 == c.0@
                    &&& s.1 == (match c.1 {
                        Some(a) => Some(a@),
                        None => None,
                    })
                    &&& s.2 == c.2@
                    &&& s.3 == c.3
                    &&& c.3 <= isize::MAX
                },
            },
    {
        let c = self.regex.captures(line)?;
        let tag = c.get(1)?;
        let rest = c.get(3).map_or("", |m| m.as_str());
        Some((tag.as_str(), c.get(2).map(|m| m.as_str()), rest, tag.start()))
    }

    /// Builds the pattern text for `tags` and compiles it.
    pub fn build(tags: &[String], case_insensitive: bool) -> (r: Result<TagPattern, String>)
        ensures
            match r {
                Ok(p) => {
                    &&& p.source() == tag_pattern(tags@.map_values(|t: String| t@))
                    &&& p.is_case_insensitive() == case_insensitive
                    &&& pattern_compiles(p.source(), case_insensitive)
                },
                Err(text) => {
                    &&& text@ == tag_pattern(tags@.map_values(|t: String| t@))
                    &&& !pattern_compiles(text@, case_insensitive)
                },
            },
    {
        let text = pattern_text(tags);
        match TagPattern::compile(text.as_str(), case_insensitive) {
            Ok(p) => Ok(p),
            Err(_) => Err(text),
        }
    }
}

/// The pattern text that matches any of `tags`.
pub fn pattern_text(tags: &[String]) -> (r: String)
    ensures
        r@ == tag_pattern(tags@.map_values(|t: String| t@)),
{
    let ghost views = tags@.map_values(|t: String| t@);
    let mut alt = String::new();
    let mut i: usize = 0;
    while i < tags.len()
        invariant
            0 <= i <= tags@.len(),
            views == tags@.map_values(|t: String| t@),
            alt@ == alternation(views.take(i as int)),
        decreases tags@.len() - i,
    {
        let e = escape(tags[i].as_str());
        if i > 0 {
            alt.append("|");
        }
        alt.append(e.as_str());
        proof {
            reveal_strlit("|");
            let next = views.take(i + 1);
            assert(next.drop_last() =~= views.take(i as int));
            assert(next.last() == views[i as int]);
            if i == 0 {
                assert(alt@ =~= escaped(next[0]));
            } else {
                assert(alt@ =~= alternation(next.drop_last()) + seq!['|'] + escaped(next.last()));
            }
        }
        i = i + 1;
    }
    proof {
        assert(views.take(tags@.len() as int) =~= views);
    }
    let mut p = String::from_str("(?:^|[^a-zA-Z0-9_])(");
    p.append(alt.as_str());
    p.append(")(?:\\(([^)]+)\\))?[:\\s]+(.*)$");
    proof {
        assert(p@ =~= tag_pattern(views));
    }
    p
}

} // verus!
