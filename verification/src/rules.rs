//! The rule matcher: every configured pattern is compiled into one
//! combined matcher, built once when the monitor is constructed and
//! immutable afterwards.  The actual pattern matching is done by the
//! `regex` crate behind trusted wrappers; everything around it is
//! verified against the names those wrappers introduce.

use vstd::prelude::*;

verus! {

#[verifier::external_type_specification]
#[verifier::external_body]
pub struct ExRegexSet(regex::RegexSet);

/// Whether this collection of patterns compiles as one set.
pub uninterp spec fn regex_patterns_ok(patterns: Seq<Seq<char>>) -> bool;

/// The patterns a compiled set holds, in the order they were given.
pub uninterp spec fn regex_set_patterns(rs: regex::RegexSet) -> Seq<Seq<char>>;

/// Whether a pattern matches somewhere in a text.
pub uninterp spec fn regex_match(pattern: Seq<char>, text: Seq<char>) -> bool;

/// `r` is the ascending list of exactly those indices of `patterns`
/// whose pattern matches `text`.
pub open spec fn matching_indices(patterns: Seq<Seq<char>>, text: Seq<char>, r: Seq<usize>) -> bool {
    &&& forall|a: int, b: int| 0 <= a < b < r.len() ==> r[a] < r[b]
    &&& forall|k: int|
        0 <= k < r.len() ==> (r[k] as int) < patterns.len() && regex_match(
            patterns[r[k] as int],
            text,
        )
    &&& forall|i: usize|
        i < patterns.len() && regex_match(patterns[i as int], text) ==> r.contains(i)
}

/// Relies on `regex::RegexSet::new`: it returns `Ok` exactly when the
/// given expressions compile as one set, and the set then holds
/// exactly those patterns, in order.  The error is handed on as its
/// display text.
#[verifier::external_body]
fn regex_set_new(patterns: &Vec<String>) -> (r: Result<regex::RegexSet, String>)
    ensures
        r is Ok <==> regex_patterns_ok(patterns.deep_view()),
        r matches Ok(rs) ==> regex_set_patterns(rs) == patterns.deep_view(),
{
    regex::RegexSet::new(patterns).map_err(|e| format!("{e}"))
}

/// Relies on `regex::RegexSet::matches`: the returned set holds the
/// index of each pattern that matches the haystack, and iterating it
/// yields those indices in ascending order.
#[verifier::external_body]
fn regex_set_matching(rs: &regex::RegexSet, text: &str) -> (r: Vec<usize>)
    ensures
        forall|a: int, b: int| 0 <= a < b < r@.len() ==> r@[a] < r@[b],
        forall|k: int|
            0 <= k < r@.len() ==> (r@[k] as int) < regex_set_patterns(*rs).len() && regex_match(
                regex_set_patterns(*rs)[r@[k] as int],
                text@,
            ),
        forall|i: usize|
            i < regex_set_patterns(*rs).len() && regex_match(
                regex_set_patterns(*rs)[i as int],
                text@,
            ) ==> r@.contains(i),
{
    rs.matches(text).into_iter().collect()
}

/// A configuration failure: a rule's pattern text does not compile.
#[derive(Debug)]
pub enum ConfigError {
    BadPattern(String),
}

impl ConfigError {
    /// A description of the failure, for reporting.
    pub fn describe(&self) -> (r: &String)
        ensures
            self matches ConfigError::BadPattern(e) ==> r@ == e@,
    {
        match self {
            ConfigError::BadPattern(e) => e,
        }
    }
}

/// The combined matcher over all configured rule patterns.
pub struct RuleSet {
    set: regex::RegexSet,
}

impl RuleSet {
    /// The patterns this matcher was compiled from, in rule order.
    pub closed spec fn patterns(self) -> Seq<Seq<char>> {
        regex_set_patterns(self.set)
    }

    /// Compile all patterns into one matcher.  Fails exactly when the
    /// pattern collection does not compile.
    pub fn compile(patterns: &Vec<String>) -> (r: Result<RuleSet, ConfigError>)
        ensures
            r is Ok <==> regex_patterns_ok(patterns.deep_view()),
            r matches Ok(rs) ==> rs.patterns() == patterns.deep_view(),
    {
        match regex_set_new(patterns) {
            Ok(set) => Ok(RuleSet { set }),
            Err(e) => Err(ConfigError::BadPattern(e)),
        }
    }

    /// The indices of all patterns that match the text, ascending.
    /// Every matching rule is reported and no other: multi-pattern
    /// matching with set semantics.
    pub fn find_all(&self, text: &str) -> (r: Vec<usize>)
        ensures
            matching_indices(self.patterns(), text@, r@),
    {
        regex_set_matching(&self.set, text)
    }
}

} // verus!
