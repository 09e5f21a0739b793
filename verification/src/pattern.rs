//! The compiled pattern type and the trusted boundary to the outside
//! pattern-matching engine.
//!
//! Matching itself is delegated: what a pattern matches, which named groups
//! participate, and how a delimiter pattern splits a string are named by
//! uninterpreted functions of the pattern's source text and the input, and
//! the wrappers below relate each outside call to those names. Everything
//! downstream of a match is verified against them.

use vstd::prelude::*;

verus! {

#[verifier::external_type_specification]
#[verifier::external_body]
pub struct ExRegex(regex::Regex);

/// The source text a compiled pattern was built from.
pub uninterp spec fn regex_source(re: &regex::Regex) -> Seq<char>;

/// Whether a pattern text is well formed, that is, whether compiling it
/// succeeds.
pub uninterp spec fn regex_valid(pat: Seq<char>) -> bool;

/// Whether the pattern matches anywhere in the input.
pub uninterp spec fn regex_match(pat: Seq<char>, input: Seq<char>) -> bool;

/// The named-group captures of the first match of the pattern in the input:
/// one (group name, matched text) pair for each named group that participated
/// in the match, in the order the groups are declared in the pattern.
pub uninterp spec fn regex_captures(pat: Seq<char>, input: Seq<char>) -> Seq<
    (Seq<char>, Seq<char>),
>;

/// The parts of the input between successive matches of the pattern.
pub uninterp spec fn regex_split(pat: Seq<char>, input: Seq<char>) -> Seq<Seq<char>>;

/// How many named groups the pattern declares.
pub uninterp spec fn regex_named_groups(pat: Seq<char>) -> nat;

/// Relies on regex::Regex::new: compilation succeeds exactly for well-formed
/// pattern text, and the compiled value keeps that text (Regex::as_str).
#[verifier::external_body]
fn regex_new(src: &str) -> (r: Option<regex::Regex>)
    ensures
        r is Some <==> regex_valid(src@),
        r matches Some(re) ==> regex_source(&re) == src@,
{
    regex::Regex::new(src).ok()
}

/// Relies on regex::Regex::is_match: true if and only if the regex matches
/// somewhere in the haystack.
#[verifier::external_body]
fn regex_is_match(re: &regex::Regex, input: &str) -> (r: bool)
    ensures
        r == regex_match(regex_source(re), input@),
{
    re.is_match(input)
}

/// Relies on regex::Regex::captures (Some exactly when the regex matches),
/// regex::Regex::capture_names (group names in declaration order) and
/// regex::Captures::name (the text of a group, None when the group did not
/// participate in the match).
#[verifier::external_body]
fn regex_capture_pairs(re: &regex::Regex, input: &str) -> (r: Option<Vec<(String, String)>>)
    ensures
        r is Some <==> regex_match(regex_source(re), input@),
        r matches Some(v) ==> v.deep_view() == regex_captures(regex_source(re), input@),
{
    re.captures(input).map(|caps| {
        re.capture_names()
            .flatten()
            .filter_map(|name| caps.name(name).map(|m| (name.to_owned(), m.as_str().to_owned())))
            .collect()
    })
}

/// Relies on regex::Regex::capture_names: it yields one element per capture
/// group in declaration order, a name exactly for the named groups, so the
/// flattened count is the number of named groups the pattern declares.
#[verifier::external_body]
fn regex_count_named(re: &regex::Regex) -> (r: usize)
    ensures
        r as nat == regex_named_groups(regex_source(re)),
{
    re.capture_names().flatten().count()
}

/// Relies on regex::Regex::split: yields the parts of the haystack between
/// successive matches of the regex.
#[verifier::external_body]
fn regex_split_parts(re: &regex::Regex, input: &str) -> (r: Vec<String>)
    ensures
        r.deep_view() == regex_split(regex_source(re), input@),
{
    re.split(input).map(|part| part.to_owned()).collect()
}

/// The pure membership predicate: whether the pattern matches anywhere in
/// the input, usable independently of binding.
pub fn matches(pattern: &Pattern, input: &str) -> (r: bool)
    ensures
        r == regex_match(pattern@, input@),
{
    pattern.is_match(input)
}

/// An immutable, precompiled pattern with zero or more named groups.
/// Compiled once, shared read-only thereafter; its view is its source text.
pub struct Pattern {
    re: regex::Regex,
}

impl View for Pattern {
    type V = Seq<char>;

    closed spec fn view(&self) -> Seq<char> {
        regex_source(&self.re)
    }
}

impl Pattern {
    /// Compiles a pattern; `None` exactly when the source text is not a
    /// well-formed pattern.
    pub fn new(src: &str) -> (r: Option<Pattern>)
        ensures
            r is Some <==> regex_valid(src@),
            r matches Some(p) ==> p@ == src@,
    {
        match regex_new(src) {
            Option::Some(re) => Option::Some(Pattern { re }),
            Option::None => Option::None,
        }
    }

    /// The pure membership predicate: whether this pattern matches anywhere
    /// in the input.
    pub fn is_match(&self, input: &str) -> (r: bool)
        ensures
            r == regex_match(self@, input@),
    {
        regex_is_match(&self.re, input)
    }

    /// The named-group captures of the first match, or `None` when the
    /// pattern does not match at all.
    pub(crate) fn capture_pairs(&self, input: &str) -> (r: Option<Vec<(String, String)>>)
        ensures
            r is Some <==> regex_match(self@, input@),
            r matches Some(v) ==> v.deep_view() == regex_captures(self@, input@),
    {
        regex_capture_pairs(&self.re, input)
    }

    /// How many named groups this pattern declares.
    pub fn named_group_count(&self) -> (r: usize)
        ensures
            r as nat == regex_named_groups(self@),
    {
        regex_count_named(&self.re)
    }

    /// The parts of the input between successive matches of this pattern.
    pub(crate) fn split_parts(&self, input: &str) -> (r: Vec<String>)
        ensures
            r.deep_view() == regex_split(self@, input@),
    {
        regex_split_parts(&self.re, input)
    }
}

} // verus!
