//! Compiling an ordered sequence of rules into one queryable rule set, and
//! resolving per-path exclusion queries against it with last-matching-rule
//! precedence.

use vstd::prelude::*;

use crate::globs::builder_patterns;
use crate::globs::glob_matches;
use crate::globs::glob_new;
use crate::globs::glob_set_build;
use crate::globs::glob_set_buildable;
use crate::globs::glob_set_builder_add;
use crate::globs::glob_set_builder_new;
use crate::globs::glob_set_matches;
use crate::globs::glob_set_patterns;
use crate::globs::glob_syntax_ok;
use crate::pattern::spec_parse;
use crate::pattern::Pattern;
use crate::pattern::PatternSpec;
use crate::pattern::PatternType;

verus! {

#[verifier::external_type_specification]
#[verifier::external_body]
pub struct ExIoError(std::io::Error);

/// Why building a rule set failed.
#[derive(Debug)]
pub enum IgnoreError {
    /// A derived wildcard expression was rejected, or a combined matcher
    /// could not be built.
    GlobSet(globset::Error),
    /// Reading the pattern file failed.
    Io(std::io::Error),
}

/// The recursive-prefix wildcard segment, `**/`.
pub open spec fn recursive_prefix() -> Seq<char> {
    seq!['*', '*', '/']
}

/// The recursive-suffix wildcard segment, `/**`.
pub open spec fn recursive_suffix() -> Seq<char> {
    seq!['/', '*', '*']
}

/// Whether the pattern text already begins with the recursive-prefix
/// wildcard `**/`.
pub open spec fn has_recursive_prefix(p: Seq<char>) -> bool {
    p.len() >= 3 && p[0] == '*' && p[1] == '*' && p[2] == '/'
}

/// Whether the pattern text already ends with the recursive-suffix
/// wildcard `/**`.
pub open spec fn has_recursive_suffix(p: Seq<char>) -> bool {
    p.len() >= 3 && p[p.len() - 3] == '/' && p[p.len() - 2] == '*' && p[p.len() - 1] == '*'
}

/// The wildcard expression that matches the entry a rule names: unanchored
/// rules gain the recursive prefix so they match at any depth below the root.
pub open spec fn spec_glob_base(r: PatternSpec) -> Seq<char> {
    if !r.anchored && !has_recursive_prefix(r.pattern) {
        recursive_prefix() + r.pattern
    } else {
        r.pattern
    }
}

/// The wildcard expression that matches everything nested beneath a named
/// entry: the base expression with the recursive suffix appended.
pub open spec fn spec_glob_full(r: PatternSpec) -> Seq<char> {
    let base = spec_glob_base(r);
    if has_recursive_suffix(base) {
        base
    } else {
        base + recursive_suffix()
    }
}

/// The views of a sequence of rule lines.
pub open spec fn views_of(lines: Seq<&str>) -> Seq<Seq<char>> {
    lines.map_values(|l: &str| l@)
}

/// Whether a line produces a rule at all: blank lines and `#` comments do not.
pub open spec fn is_rule_line(line: Seq<char>) -> bool {
    line.len() > 0 && line[0] != '#'
}

/// The rules that a sequence of raw lines normalizes to, in line order, with
/// blank and comment lines dropped.
pub open spec fn spec_rules_of(lines: Seq<Seq<char>>) -> Seq<PatternSpec>
    decreases lines.len(),
{
    if lines.len() == 0 {
        Seq::empty()
    } else {
        let rest = spec_rules_of(lines.drop_last());
        if is_rule_line(lines.last()) {
            rest.push(spec_parse(lines.last()))
        } else {
            rest
        }
    }
}

/// The base wildcard expressions of a sequence of rules, in order.
pub open spec fn spec_base_texts(rules: Seq<PatternSpec>) -> Seq<Seq<char>> {
    rules.map_values(|r: PatternSpec| spec_glob_base(r))
}

/// The suffixed wildcard expressions of a sequence of rules, in order.
pub open spec fn spec_full_texts(rules: Seq<PatternSpec>) -> Seq<Seq<char>> {
    rules.map_values(|r: PatternSpec| spec_glob_full(r))
}

/// Whether every rule's two wildcard expressions are accepted and both
/// combined matchers can be built from them: exactly when compilation of the
/// rule set succeeds.
pub open spec fn spec_compiles(rules: Seq<PatternSpec>) -> bool {
    (forall|i: int|
        0 <= i < rules.len() ==> glob_syntax_ok(spec_glob_base(rules[i])) && glob_syntax_ok(
            spec_glob_full(rules[i]),
        )) && glob_set_buildable(spec_base_texts(rules)) && glob_set_buildable(
        spec_full_texts(rules),
    )
}

impl Pattern {
    /// Whether this rule's pattern text begins with `**/`.
    fn starts_with_recursive_prefix(&self) -> (r: bool)
        ensures
            r == has_recursive_prefix(self.pattern@),
    {
        let s = self.pattern.as_str();
        s.unicode_len() >= 3 && s.get_char(0) == '*' && s.get_char(1) == '*' && s.get_char(2) == '/'
    }

    /// The wildcard expression matching the entry this rule names.
    fn glob_base(&self) -> (r: String)
        ensures
            r@ == spec_glob_base(self@),
    {
        proof {
            reveal_strlit("**/");
            assert("**/"@ =~= recursive_prefix());
        }
        if !self.anchored && !self.starts_with_recursive_prefix() {
            let mut out = "**/".to_owned();
            out.append(self.pattern.as_str());
            proof {
                assert(out@ =~= recursive_prefix() + self@.pattern);
            }
            out
        } else {
            self.pattern.clone()
        }
    }

    /// The wildcard expression matching everything nested beneath the entry
    /// this rule names.
    fn glob_full(&self) -> (r: String)
        ensures
            r@ == spec_glob_full(self@),
    {
        proof {
            reveal_strlit("/**");
            assert("/**"@ =~= recursive_suffix());
        }
        let mut out = self.glob_base();
        let n = out.as_str().unicode_len();
        let ends = n >= 3 && out.as_str().get_char(n - 3) == '/' && out.as_str().get_char(n - 2)
            == '*' && out.as_str().get_char(n - 1) == '*';
        if !ends {
            out.append("/**");
        }
        out
    }
}

/// A compiled, immutable rule set: the rules in source order, the combined
/// matchers built from their wildcard expressions, and the root directory
/// against which every queried path is evaluated.
pub struct GitignoreFile {
    set_base: globset::GlobSet,
    set_full: globset::GlobSet,
    patterns: Vec<Pattern>,
    root: String,
}

/// The mathematical content of a `GitignoreFile`: its rules, in the order of
/// their source lines, and its root.
pub struct GitignoreSpec {
    pub rules: Seq<PatternSpec>,
    pub root: Seq<char>,
}

impl View for GitignoreFile {
    type V = GitignoreSpec;

    closed spec fn view(&self) -> GitignoreSpec {
        GitignoreSpec {
            rules: self.patterns@.map_values(|p: Pattern| p@),
            root: self.root@,
        }
    }
}

impl GitignoreFile {
    /// The two combined matchers hold exactly the rules' wildcard
    /// expressions, in rule order.
    #[verifier::type_invariant]
    spec fn wf(self) -> bool {
        glob_set_patterns(self.set_base) == spec_base_texts(self@.rules) && glob_set_patterns(
            self.set_full,
        ) == spec_full_texts(self@.rules)
    }

    /// The rules that survive line filtering, normalized, in line order.
    fn parse(contents: Vec<&str>) -> (r: Vec<Pattern>)
        ensures
            r@.map_values(|p: Pattern| p@) == spec_rules_of(views_of(contents@)),
    {
        let mut r: Vec<Pattern> = Vec::new();
        let mut i: usize = 0;
        while i < contents.len()
            invariant
                i <= contents@.len(),
                r@.map_values(|p: Pattern| p@) == spec_rules_of(
                    views_of(contents@.subrange(0, i as int)),
                ),
            decreases contents@.len() - i,
        {
            let line = contents[i];
            if !line.is_empty() && line.get_char(0) != '#' {
                r.push(Pattern::parse(line));
            }
            proof {
                let prev = views_of(contents@.subrange(0, i as int));
                let cur = views_of(contents@.subrange(0, i + 1 as int));
                assert(cur.drop_last() =~= prev);
                assert(cur.last() == line@);
                assert(r@.map_values(|p: Pattern| p@) =~= spec_rules_of(cur));
            }
            i = i + 1;
        }
        proof {
            assert(contents@.subrange(0, contents@.len() as int) =~= contents@);
        }
        r
    }

    /// Build a rule set from raw rule lines and the root directory. Succeeds
    /// exactly when every derived wildcard expression is accepted and the
    /// combined matchers can be built; no partial rule set is ever returned.
    #[verifier::loop_isolation(false)]
    pub fn from_strings(strs: Vec<&str>, root: &str) -> (r: Result<GitignoreFile, IgnoreError>)
        ensures
            r is Ok <==> spec_compiles(spec_rules_of(views_of(strs@))),
            r matches Ok(f) ==> f@.rules == spec_rules_of(views_of(strs@)) && f@.root == root@,
            r matches Err(e) ==> e is GlobSet,
    {
        let ghost rules = spec_rules_of(views_of(strs@));
        let patterns = GitignoreFile::parse(strs);
        let mut base_builder = glob_set_builder_new();
        let mut full_builder = glob_set_builder_new();
        let mut i: usize = 0;
        while i < patterns.len()
            invariant
                i <= patterns@.len(),
                patterns@.map_values(|p: Pattern| p@) == rules,
                builder_patterns(base_builder) == spec_base_texts(rules.subrange(0, i as int)),
                builder_patterns(full_builder) == spec_full_texts(rules.subrange(0, i as int)),
                forall|j: int|
                    0 <= j < i ==> glob_syntax_ok(spec_glob_base(rules[j])) && glob_syntax_ok(
                        spec_glob_full(rules[j]),
                    ),
            decreases patterns@.len() - i,
        {
            proof {
                assert(rules[i as int] == patterns@.map_values(|p: Pattern| p@)[i as int]);
            }
            let base = patterns[i].glob_base();
            let g_base = match glob_new(base.as_str()) {
                Ok(g) => g,
                Err(e) => {
                    proof {
                        assert(!spec_compiles(rules));
                    }
                    return Err(IgnoreError::GlobSet(e));
                },
            };
            let full = patterns[i].glob_full();
            let g_full = match glob_new(full.as_str()) {
                Ok(g) => g,
                Err(e) => {
                    proof {
                        assert(!spec_compiles(rules));
                    }
                    return Err(IgnoreError::GlobSet(e));
                },
            };
            glob_set_builder_add(&mut base_builder, g_base);
            glob_set_builder_add(&mut full_builder, g_full);
            proof {
                assert(rules.subrange(0, i + 1 as int).drop_last() =~= rules.subrange(0, i as int));
                assert(spec_base_texts(rules.subrange(0, i + 1 as int)) =~= spec_base_texts(
                    rules.subrange(0, i as int),
                ).push(spec_glob_base(rules[i as int])));
                assert(spec_full_texts(rules.subrange(0, i + 1 as int)) =~= spec_full_texts(
                    rules.subrange(0, i as int),
                ).push(spec_glob_full(rules[i as int])));
            }
            i = i + 1;
        }
        proof {
            assert(rules.subrange(0, rules.len() as int) =~= rules);
        }
        let set_base = match glob_set_build(&base_builder) {
            Ok(s) => s,
            Err(e) => {
                return Err(IgnoreError::GlobSet(e));
            },
        };
        let set_full = match glob_set_build(&full_builder) {
            Ok(s) => s,
            Err(e) => {
                return Err(IgnoreError::GlobSet(e));
            },
        };
        let f = GitignoreFile { set_base, set_full, patterns, root: root.to_owned() };
        proof {
            assert(f@.rules =~= rules);
        }
        Ok(f)
    }

    /// Build a rule set from the whole text of a pattern file and the root
    /// directory (the parent of the file the text came from).
    pub fn from_contents(contents: &str, root: &str) -> (r: Result<GitignoreFile, IgnoreError>)
        ensures
            r is Ok <==> spec_compiles(spec_rules_of(crate::lines::spec_lines(contents@))),
            r matches Ok(f) ==> f@.rules == spec_rules_of(crate::lines::spec_lines(contents@))
                && f@.root == root@,
            r matches Err(e) ==> e is GlobSet,
    {
        let lines = crate::lines::split_lines(contents);
        proof {
            assert(views_of(lines@) == lines@.map_values(|l: &str| l@));
        }
        GitignoreFile::from_strings(lines, root)
    }
}

/// The queried path expressed relative to the root, where that is possible:
/// the root itself maps to the empty path, a path below the root loses the
/// root and the separator, and any other path is outside the governed tree.
pub open spec fn spec_relative_to(root: Seq<char>, path: Seq<char>) -> Option<Seq<char>> {
    if path == root {
        Some(Seq::<char>::empty())
    } else if path.len() > root.len() && path.subrange(0, root.len() as int) == root && path[root.len() as int]
        == '/' {
        Some(path.subrange(root.len() as int + 1, path.len() as int))
    } else {
        None
    }
}

/// Whether one rule matches a relative path: either of its two wildcard
/// expressions does — the base expression matches the named entry, the
/// suffixed one everything nested beneath it.
pub open spec fn spec_rule_matches(r: PatternSpec, rel: Seq<char>) -> bool {
    glob_matches(spec_glob_base(r), rel) || glob_matches(spec_glob_full(r), rel)
}

/// Last matching rule wins: the latest rule that matches the relative path
/// decides, an ignore rule excluding and a whitelist rule re-including; with
/// no matching rule the path is not excluded.
pub open spec fn spec_excluded_by(rules: Seq<PatternSpec>, rel: Seq<char>) -> bool
    decreases rules.len(),
{
    if rules.len() == 0 {
        false
    } else if spec_rule_matches(rules.last(), rel) {
        rules.last().pattern_type is Ignore
    } else {
        spec_excluded_by(rules.drop_last(), rel)
    }
}

/// Whether a rule set excludes a path: a path outside the root never is; one
/// inside is decided by the last matching rule.
pub open spec fn spec_excluded(g: GitignoreSpec, path: Seq<char>) -> bool {
    match spec_relative_to(g.root, path) {
        Some(rel) => spec_excluded_by(g.rules, rel),
        None => false,
    }
}

/// Last-match-wins, stated positionally: if the rule at `m` matches the
/// relative path and no later rule does, that rule alone decides the outcome,
/// whatever earlier rules matched. In particular a later whitelist rule
/// overrides every earlier ignore rule.
pub proof fn lemma_last_match_wins(rules: Seq<PatternSpec>, rel: Seq<char>, m: int)
    requires
        0 <= m < rules.len(),
        spec_rule_matches(rules[m], rel),
        forall|j: int| m < j < rules.len() ==> !spec_rule_matches(rules[j], rel),
    ensures
        spec_excluded_by(rules, rel) == (rules[m].pattern_type is Ignore),
    decreases rules.len(),
{
    if m == rules.len() - 1 {
    } else {
        assert(rules.drop_last()[m] == rules[m]);
        lemma_last_match_wins(rules.drop_last(), rel, m);
    }
}

/// A path whose relative form no rule matches is not excluded.
pub proof fn lemma_no_match_not_excluded(rules: Seq<PatternSpec>, rel: Seq<char>)
    requires
        forall|j: int| 0 <= j < rules.len() ==> !spec_rule_matches(rules[j], rel),
    ensures
        !spec_excluded_by(rules, rel),
    decreases rules.len(),
{
    if rules.len() > 0 {
        lemma_no_match_not_excluded(rules.drop_last(), rel);
    }
}

impl GitignoreFile {
    /// The path the query evaluates, relative to the rule set's root, or
    /// `None` for a path outside the governed tree.
    #[verifier::loop_isolation(false)]
    fn strip_root<'a>(root: &str, path: &'a str) -> (r: Option<&'a str>)
        ensures
            match r {
                Some(rel) => spec_relative_to(root@, path@) == Some(rel@),
                None => spec_relative_to(root@, path@) is None,
            },
    {
        let rn = root.unicode_len();
        let pn = path.unicode_len();
        if pn < rn {
            return None;
        }
        let mut i: usize = 0;
        while i < rn
            invariant
                i <= rn,
                forall|j: int| 0 <= j < i ==> path@[j] == root@[j],
            decreases rn - i,
        {
            if path.get_char(i) != root.get_char(i) {
                proof {
                    assert(path@.subrange(0, rn as int)[i as int] != root@[i as int]);
                    assert(path@ == root@ ==> path@[i as int] == root@[i as int]);
                }
                return None;
            }
            i = i + 1;
        }
        if pn == rn {
            proof {
                assert(path@ =~= root@);
            }
            let rel = path.substring_char(pn, pn);
            proof {
                assert(rel@ =~= Seq::<char>::empty());
            }
            Some(rel)
        } else if path.get_char(rn) == '/' {
            proof {
                assert(path@.subrange(0, rn as int) =~= root@);
                assert(path@ != root@) by {
                    assert(path@.len() != root@.len());
                }
            }
            Some(path.substring_char(rn + 1, pn))
        } else {
            proof {
                assert(path@ != root@) by {
                    assert(path@.len() != root@.len());
                }
            }
            None
        }
    }

    /// The greatest rule index among those reported by one matcher, folded
    /// into the greatest seen so far.
    fn fold_max(v: &Vec<usize>, best0: Option<usize>) -> (r: Option<usize>)
        ensures
            match r {
                Some(b) => (v@.contains(b) || best0 == Some(b)) && (forall|t: int|
                    0 <= t < v@.len() ==> v@[t] <= b) && (best0 matches Some(p) ==> p <= b),
                None => v@.len() == 0 && best0 is None,
            },
    {
        let mut best = best0;
        let mut k: usize = 0;
        #[verifier::loop_isolation(false)]
        while k < v.len()
            invariant
                k <= v@.len(),
                best is None ==> k == 0 && best0 is None,
                match best {
                    Some(b) => (v@.subrange(0, k as int).contains(b) || best0 == Some(b)) && (
                    forall|t: int| 0 <= t < k ==> v@[t] <= b) && (best0 matches Some(p) ==> p <= b),
                    None => true,
                },
            decreases v@.len() - k,
        {
            let cur = v[k];
            let new_best = match best {
                Some(b) => if cur > b {
                    cur
                } else {
                    b
                },
                None => cur,
            };
            proof {
                let sub = v@.subrange(0, k + 1 as int);
                assert(sub[k as int] == cur);
                if new_best != cur {
                    match best {
                        Some(b) => {
                            if v@.subrange(0, k as int).contains(b) {
                                let w = choose|w: int|
                                    0 <= w < k && v@.subrange(0, k as int)[w] == b;
                                assert(sub[w] == b);
                            }
                        },
                        None => {},
                    }
                }
            }
            best = Some(new_best);
            k = k + 1;
        }
        proof {
            assert(v@.subrange(0, v@.len() as int) =~= v@);
        }
        best
    }

    /// Whether this rule set excludes the given path. A pure query: any path
    /// yields a boolean, never a failure, and a path outside the root is
    /// never excluded.
    pub fn is_excluded(&self, path: &str) -> (r: bool)
        ensures
            r == spec_excluded(self@, path@),
    {
        proof {
            use_type_invariant(self);
        }
        let rel = match GitignoreFile::strip_root(self.root.as_str(), path) {
            Some(rel) => rel,
            None => {
                return false;
            },
        };
        let matched_base = glob_set_matches(&self.set_base, rel);
        let matched_full = glob_set_matches(&self.set_full, rel);
        let ghost rules = self@.rules;
        let n = self.patterns.len();
        proof {
            assert(rules.len() == n);
        }

        // The matchers may report matches in any order: select the rule with
        // the highest original index explicitly.
        let inner = GitignoreFile::fold_max(&matched_base, None);
        let best = GitignoreFile::fold_max(&matched_full, inner);

        match best {
            None => {
                proof {
                    assert forall|j: int|
                        0 <= j < rules.len() implies !spec_rule_matches(rules[j], rel@) by {
                        if glob_matches(spec_glob_base(rules[j]), rel@) {
                            assert(glob_set_patterns(self.set_base)[j] == spec_glob_base(rules[j]));
                            assert(matched_base@.contains(j as usize));
                        }
                        if glob_matches(spec_glob_full(rules[j]), rel@) {
                            assert(glob_set_patterns(self.set_full)[j] == spec_glob_full(rules[j]));
                            assert(matched_full@.contains(j as usize));
                        }
                    };
                    lemma_no_match_not_excluded(rules, rel@);
                }
                false
            },
            Some(b) => {
                proof {
                    if matched_base@.contains(b) {
                        let w = choose|w: int|
                            0 <= w < matched_base@.len() && matched_base@[w] == b;
                        assert(glob_matches(glob_set_patterns(self.set_base)[b as int], rel@));
                    } else {
                        assert(matched_full@.contains(b));
                        let w = choose|w: int|
                            0 <= w < matched_full@.len() && matched_full@[w] == b;
                        assert(glob_matches(glob_set_patterns(self.set_full)[b as int], rel@));
                    }
                    assert(spec_rule_matches(rules[b as int], rel@));
                    assert forall|j: int|
                        b < j < rules.len() implies !spec_rule_matches(rules[j], rel@) by {
                        if glob_matches(spec_glob_base(rules[j]), rel@) {
                            assert(glob_set_patterns(self.set_base)[j] == spec_glob_base(rules[j]));
                            assert(matched_base@.contains(j as usize));
                            let t = choose|t: int|
                                0 <= t < matched_base@.len() && matched_base@[t] == j as usize;
                            assert(matched_base@[t] <= b);
                        }
                        if glob_matches(spec_glob_full(rules[j]), rel@) {
                            assert(glob_set_patterns(self.set_full)[j] == spec_glob_full(rules[j]));
                            assert(matched_full@.contains(j as usize));
                            let t = choose|t: int|
                                0 <= t < matched_full@.len() && matched_full@[t] == j as usize;
                            assert(matched_full@[t] <= b);
                        }
                    };
                    lemma_last_match_wins(rules, rel@, b as int);
                }
                match self.patterns[b].pattern_type {
                    PatternType::Ignore => true,
                    PatternType::Whitelist => false,
                }
            },
        }
    }
}

impl From<globset::Error> for IgnoreError {
    fn from(error: globset::Error) -> (r: IgnoreError)
        ensures
            r == IgnoreError::GlobSet(error),
    {
        IgnoreError::GlobSet(error)
    }
}

impl vstd::std_specs::convert::FromSpecImpl<globset::Error> for IgnoreError {
    open spec fn obeys_from_spec() -> bool {
        true
    }

    open spec fn from_spec(error: globset::Error) -> IgnoreError {
        IgnoreError::GlobSet(error)
    }
}

impl From<std::io::Error> for IgnoreError {
    fn from(error: std::io::Error) -> (r: IgnoreError)
        ensures
            r == IgnoreError::Io(error),
    {
        IgnoreError::Io(error)
    }
}

impl vstd::std_specs::convert::FromSpecImpl<std::io::Error> for IgnoreError {
    open spec fn obeys_from_spec() -> bool {
        true
    }

    open spec fn from_spec(error: std::io::Error) -> IgnoreError {
        IgnoreError::Io(error)
    }
}

/// A rule set never excludes a path outside its root.
pub proof fn lemma_outside_root_never_excluded(g: GitignoreSpec, path: Seq<char>)
    requires
        spec_relative_to(g.root, path) is None,
    ensures
        !spec_excluded(g, path),
{
}

/// A rule set with no rules excludes no path at all.
pub proof fn lemma_empty_rules_exclude_nothing(g: GitignoreSpec, path: Seq<char>)
    requires
        g.rules.len() == 0,
    ensures
        !spec_excluded(g, path),
{
}

/// Compiling the same rule lines against the same root twice yields rule
/// sets that agree on every query: exclusion is a function of the lines and
/// the root alone, so construction is deterministic.
pub proof fn lemma_compile_deterministic(
    a: GitignoreSpec,
    b: GitignoreSpec,
    lines: Seq<Seq<char>>,
    root: Seq<char>,
    path: Seq<char>,
)
    requires
        a.rules == spec_rules_of(lines),
        b.rules == spec_rules_of(lines),
        a.root == root,
        b.root == root,
    ensures
        spec_excluded(a, path) == spec_excluded(b, path),
{
}

} // verus!
