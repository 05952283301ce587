//! Normalizing one raw line of pattern text into a structured rule: its kind
//! (ignore or whitelist), whether it is anchored to the root, and the cleaned
//! pattern body.

use vstd::prelude::*;

verus! {

/// Whether a rule excludes matching paths or re-includes them (a `!` rule).
#[derive(Clone, Copy, PartialEq, Eq, Structural, Debug)]
pub enum PatternType {
    Ignore,
    Whitelist,
}

/// One parsed rule line: the normalized pattern body, the rule kind, and
/// whether the rule only matches starting at the root of the governed tree.
pub struct Pattern {
    pub pattern: String,
    pub pattern_type: PatternType,
    pub anchored: bool,
}

/// The mathematical content of a `Pattern`.
pub struct PatternSpec {
    pub pattern: Seq<char>,
    pub pattern_type: PatternType,
    pub anchored: bool,
}

impl View for Pattern {
    type V = PatternSpec;

    open spec fn view(&self) -> PatternSpec {
        PatternSpec {
            pattern: self.pattern@,
            pattern_type: self.pattern_type,
            anchored: self.anchored,
        }
    }
}

/// A leading `!` marks a whitelist rule.
pub open spec fn spec_is_whitelist(line: Seq<char>) -> bool {
    line.len() > 0 && line[0] == '!'
}

/// The line after the negation marker, if any, has been stripped.
pub open spec fn after_negation(line: Seq<char>) -> Seq<char> {
    if spec_is_whitelist(line) {
        line.drop_first()
    } else {
        line
    }
}

/// A leading `/` (after negation stripping) anchors the rule to the root.
pub open spec fn spec_is_anchored(line: Seq<char>) -> bool {
    after_negation(line).len() > 0 && after_negation(line)[0] == '/'
}

/// The line after negation and anchor markers have been stripped.
pub open spec fn after_anchor(line: Seq<char>) -> Seq<char> {
    let s = after_negation(line);
    if spec_is_anchored(line) {
        s.drop_first()
    } else {
        s
    }
}

/// The line after a trailing `/` (a directory-only marker) has been stripped.
pub open spec fn after_trailing_slash(line: Seq<char>) -> Seq<char> {
    let s = after_anchor(line);
    if s.len() > 0 && s[s.len() - 1] == '/' {
        s.drop_last()
    } else {
        s
    }
}

/// The normalized pattern body: after all marker stripping, a leading
/// backslash escaping `#` or `!` is removed as well.
pub open spec fn spec_pattern_body(line: Seq<char>) -> Seq<char> {
    let s = after_trailing_slash(line);
    if s.len() >= 2 && s[0] == '\\' && (s[1] == '#' || s[1] == '!') {
        s.drop_first()
    } else {
        s
    }
}

/// What normalizing one rule line produces.
pub open spec fn spec_parse(line: Seq<char>) -> PatternSpec {
    PatternSpec {
        pattern: spec_pattern_body(line),
        pattern_type: if spec_is_whitelist(line) {
            PatternType::Whitelist
        } else {
            PatternType::Ignore
        },
        anchored: spec_is_anchored(line),
    }
}

impl Pattern {
    /// Normalize one raw rule line. Every string is acceptable here: comment
    /// and blank lines are filtered out by the caller, and malformed wildcard
    /// syntax is only caught later, when the rule set is compiled.
    pub fn parse(pattern: &str) -> (r: Pattern)
        ensures
            r@ == spec_parse(pattern@),
    {
        let n = pattern.unicode_len();
        let ghost line = pattern@;

        let mut start: usize = 0;
        let mut end: usize = n;

        let pattern_type = if n > 0 && pattern.get_char(0) == '!' {
            start = 1;
            PatternType::Whitelist
        } else {
            PatternType::Ignore
        };
        proof {
            assert(after_negation(line) =~= line.subrange(start as int, end as int));
        }

        let anchored = if start < end && pattern.get_char(start) == '/' {
            start = start + 1;
            true
        } else {
            false
        };
        proof {
            assert(anchored == spec_is_anchored(line));
            assert(after_anchor(line) =~= line.subrange(start as int, end as int));
        }

        if start < end && pattern.get_char(end - 1) == '/' {
            end = end - 1;
        }
        proof {
            assert(after_trailing_slash(line) =~= line.subrange(start as int, end as int));
        }

        if end - start >= 2 && pattern.get_char(start) == '\\' && (pattern.get_char(start + 1)
            == '#' || pattern.get_char(start + 1) == '!') {
            start = start + 1;
        }
        proof {
            assert(spec_pattern_body(line) =~= line.subrange(start as int, end as int));
        }

        let body = pattern.substring_char(start, end);
        Pattern { pattern: body.to_owned(), pattern_type, anchored }
    }
}

} // verus!
