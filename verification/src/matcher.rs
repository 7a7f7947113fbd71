//! Path predicates.
//!
//! A [`Matcher`] is a boolean test over a path string. The primitive forms
//! are path equality, file-name prefix/suffix tests and Unix shell style
//! glob patterns (delegated to the `path-matchers` crate); matchers compose
//! with `and`, `or` and `not`. [`FilterConfig`] bundles the four optional
//! filter slots — global include/exclude and per-declaration
//! include/exclude — that the walker applies to every discovered entry.

use vstd::prelude::*;

use crate::pathname::{ends_with, file_name, starts_with, str_ends_with, str_file_name,
    str_starts_with};

verus! {

/// What `path_matchers::glob` answers for a pattern: whether the pattern
/// parses as a valid glob expression.
pub uninterp spec fn glob_ok(pattern: Seq<char>) -> bool;

/// What a glob matcher built from `pattern` answers for `path`. The answer
/// depends on the pattern and the path alone.
pub uninterp spec fn glob_match(pattern: Seq<char>, path: Seq<char>) -> bool;

/// Relies on `path_matchers::glob` (`glob::Pattern::new` underneath): a
/// pattern either parses or is rejected, deterministically.
#[verifier::external_body]
fn glob_pattern_valid(pattern: &str) -> (r: bool)
    ensures
        r == glob_ok(pattern@),
{
    match path_matchers::glob(pattern) {
        Ok(_) => true,
        Err(_) => false,
    }
}

/// Relies on `path_matchers::glob` and `PathMatcher::matches` of the matcher
/// it returns (`glob::Pattern::matches_path` underneath): the verdict is a
/// function of the pattern and the path alone; a pattern that does not parse
/// matches nothing.
#[verifier::external_body]
fn glob_pattern_matches(pattern: &str, path: &str) -> (r: bool)
    ensures
        r == glob_match(pattern@, path@),
{
    match path_matchers::glob(pattern) {
        Ok(m) => path_matchers::PathMatcher::matches(&m, std::path::Path::new(path)),
        Err(_) => false,
    }
}

/// A composable boolean test over a path string.
pub enum Matcher {
    /// The path equals the given string.
    Equal(String),
    /// The file-name portion of the path begins with the given string.
    FileNameStartsWith(String),
    /// The file-name portion of the path ends with the given string.
    FileNameEndsWith(String),
    /// The path matches the given glob pattern.
    Glob(String),
    /// Both matchers accept the path.
    And(Box<Matcher>, Box<Matcher>),
    /// At least one matcher accepts the path.
    Or(Box<Matcher>, Box<Matcher>),
    /// The matcher rejects the path.
    Not(Box<Matcher>),
}

impl Matcher {
    /// What this matcher answers for `path`.
    pub open spec fn spec_matches(self, path: Seq<char>) -> bool
        decreases self,
    {
        match self {
            Matcher::Equal(p) => path == p@,
            Matcher::FileNameStartsWith(p) => starts_with(file_name(path), p@),
            Matcher::FileNameEndsWith(p) => ends_with(file_name(path), p@),
            Matcher::Glob(p) => glob_match(p@, path),
            Matcher::And(a, b) => a.spec_matches(path) && b.spec_matches(path),
            Matcher::Or(a, b) => a.spec_matches(path) || b.spec_matches(path),
            Matcher::Not(a) => !a.spec_matches(path),
        }
    }

    /// Evaluates this matcher on a path.
    pub fn matches(&self, path: &String) -> (r: bool)
        ensures
            r == self.spec_matches(path@),
        decreases *self,
    {
        match self {
            Matcher::Equal(p) => *p == *path,
            Matcher::FileNameStartsWith(p) => str_starts_with(str_file_name(path.as_str()),
                p.as_str()),
            Matcher::FileNameEndsWith(p) => str_ends_with(str_file_name(path.as_str()),
                p.as_str()),
            Matcher::Glob(p) => glob_pattern_matches(p.as_str(), path.as_str()),
            Matcher::And(a, b) => a.matches(path) && b.matches(path),
            Matcher::Or(a, b) => a.matches(path) || b.matches(path),
            Matcher::Not(a) => !a.matches(path),
        }
    }

    /// A matcher accepting exactly the given path.
    pub fn equal(path: &str) -> (r: Matcher)
        ensures
            r matches Matcher::Equal(p) && p@ == path@,
    {
        Matcher::Equal(path.to_owned())
    }

    /// A matcher accepting paths whose file name begins with `prefix`.
    pub fn file_name_starts_with(prefix: &str) -> (r: Matcher)
        ensures
            r matches Matcher::FileNameStartsWith(p) && p@ == prefix@,
    {
        Matcher::FileNameStartsWith(prefix.to_owned())
    }

    /// A matcher accepting paths whose file name ends with `suffix`.
    pub fn file_name_ends_with(suffix: &str) -> (r: Matcher)
        ensures
            r matches Matcher::FileNameEndsWith(p) && p@ == suffix@,
    {
        Matcher::FileNameEndsWith(suffix.to_owned())
    }

    /// A matcher applying the given glob pattern, or `None` when the pattern
    /// does not parse.
    pub fn glob(pattern: &str) -> (r: Option<Matcher>)
        ensures
            r is Some <==> glob_ok(pattern@),
            r matches Some(m) ==> m matches Matcher::Glob(p) && p@ == pattern@,
    {
        if glob_pattern_valid(pattern) {
            Some(Matcher::Glob(pattern.to_owned()))
        } else {
            None
        }
    }

    /// The conjunction of this matcher and another.
    pub fn and(self, other: Matcher) -> (r: Matcher)
        ensures
            r == Matcher::And(Box::new(self), Box::new(other)),
    {
        Matcher::And(Box::new(self), Box::new(other))
    }

    /// The disjunction of this matcher and another.
    pub fn or(self, other: Matcher) -> (r: Matcher)
        ensures
            r == Matcher::Or(Box::new(self), Box::new(other)),
    {
        Matcher::Or(Box::new(self), Box::new(other))
    }

    /// The negation of this matcher.
    pub fn not(self) -> (r: Matcher)
        ensures
            r == Matcher::Not(Box::new(self)),
    {
        Matcher::Not(Box::new(self))
    }
}

/// The four optional filter slots in force while one declaration is walked.
pub struct FilterConfig {
    /// Global include filter, applied to every declaration.
    pub global_include: Option<Matcher>,
    /// Global exclude filter, applied to every declaration.
    pub global_exclude: Option<Matcher>,
    /// The walked declaration's own include filter.
    pub local_include: Option<Matcher>,
    /// The walked declaration's own exclude filter.
    pub local_exclude: Option<Matcher>,
}

/// An absent include filter admits everything; a present one admits what it
/// matches.
pub open spec fn include_passes(m: Option<Matcher>, path: Seq<char>) -> bool {
    match m {
        None => true,
        Some(f) => f.spec_matches(path),
    }
}

/// An absent exclude filter rejects nothing; a present one rejects what it
/// matches.
pub open spec fn exclude_passes(m: Option<Matcher>, path: Seq<char>) -> bool {
    match m {
        None => true,
        Some(f) => !f.spec_matches(path),
    }
}

/// A path survives the filters when all four optional slots let it through.
pub open spec fn filter_passes(f: FilterConfig, path: Seq<char>) -> bool {
    &&& include_passes(f.global_include, path)
    &&& exclude_passes(f.global_exclude, path)
    &&& include_passes(f.local_include, path)
    &&& exclude_passes(f.local_exclude, path)
}

/// The matcher a borrowed slot holds, if any.
pub open spec fn deref_matcher(m: Option<&Matcher>) -> Option<Matcher> {
    match m {
        None => None,
        Some(f) => Some(*f),
    }
}

/// The filter configuration the four borrowed slots stand for.
pub open spec fn config_of(
    gi: Option<&Matcher>,
    ge: Option<&Matcher>,
    li: Option<&Matcher>,
    le: Option<&Matcher>,
) -> FilterConfig {
    FilterConfig {
        global_include: deref_matcher(gi),
        global_exclude: deref_matcher(ge),
        local_include: deref_matcher(li),
        local_exclude: deref_matcher(le),
    }
}

/// Evaluates one optional include slot on a path.
pub fn include_ok(m: Option<&Matcher>, path: &String) -> (r: bool)
    ensures
        r == include_passes(deref_matcher(m), path@),
{
    match m {
        None => true,
        Some(f) => f.matches(path),
    }
}

/// Evaluates one optional exclude slot on a path.
pub fn exclude_ok(m: Option<&Matcher>, path: &String) -> (r: bool)
    ensures
        r == exclude_passes(deref_matcher(m), path@),
{
    match m {
        None => true,
        Some(f) => !f.matches(path),
    }
}

/// Evaluates all four filter slots on a path.
pub fn eval_filters(
    gi: Option<&Matcher>,
    ge: Option<&Matcher>,
    li: Option<&Matcher>,
    le: Option<&Matcher>,
    path: &String,
) -> (r: bool)
    ensures
        r == filter_passes(config_of(gi, ge, li, le), path@),
{
    include_ok(gi, path) && exclude_ok(ge, path) && include_ok(li, path) && exclude_ok(le, path)
}

/// Global and local filters combine conjunctively: a path survives exactly
/// when it passes each of the four slots independently, in any order.
pub proof fn lemma_filters_conjunctive(f: FilterConfig, path: Seq<char>)
    ensures
        filter_passes(f, path) <==> (include_passes(f.global_include, path) && exclude_passes(
            f.global_exclude,
            path,
        ) && include_passes(f.local_include, path) && exclude_passes(f.local_exclude, path)),
{
}

/// An exclude filter always wins: a path that a present global or local
/// exclude matches is rejected, whatever any include filter says.
pub proof fn lemma_exclude_wins(f: FilterConfig, path: Seq<char>)
    requires
        (f.global_exclude matches Some(m) && m.spec_matches(path)) || (f.local_exclude
            matches Some(m) && m.spec_matches(path)),
    ensures
        !filter_passes(f, path),
{
}

} // verus!
