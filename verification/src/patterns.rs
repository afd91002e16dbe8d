//! Regular expressions and template syntax checking, delegated to the
//! `regex` and `minijinja` crates.
//!
//! What those crates compute is named here, not restated: each name below is
//! the result of the outside call on the given pattern and text, and the
//! library's own logic is verified against these names.

use vstd::prelude::*;

verus! {

/// The message of the error that `regex::Regex::new` returns for a pattern,
/// or `None` when the pattern compiles.
pub uninterp spec fn regex_compile_error(pattern: Seq<char>) -> Option<Seq<char>>;

/// What `regex::Regex::is_match` returns for a compiled pattern and a text.
pub uninterp spec fn regex_matches(pattern: Seq<char>, text: Seq<char>) -> bool;

/// How many items `regex::Regex::find_iter` yields (successive non-overlapping matches).
pub uninterp spec fn regex_match_count(pattern: Seq<char>, text: Seq<char>) -> nat;

/// The capture groups of the leftmost match (`regex::Regex::captures`), group 0 first.
pub uninterp spec fn regex_captures(pattern: Seq<char>, text: Seq<char>) -> Option<
    Seq<Option<Seq<char>>>,
>;

/// The capture groups of every successive non-overlapping match
/// (`regex::Regex::captures_iter`).
pub uninterp spec fn regex_captures_all(pattern: Seq<char>, text: Seq<char>) -> Seq<
    Seq<Option<Seq<char>>>,
>;

/// Whether `minijinja::Environment::template_from_str` accepts a template source.
pub uninterp spec fn template_parses(source: Seq<char>) -> bool;

/// The text of the error `minijinja::Environment::template_from_str` returns
/// for a template source, or `None` when it parses.
pub uninterp spec fn template_error_text(source: Seq<char>) -> Option<Seq<char>>;

pub open spec fn regex_valid(pattern: Seq<char>) -> bool {
    regex_compile_error(pattern) is None
}

pub open spec fn opt_view(o: Option<String>) -> Option<Seq<char>> {
    match o {
        Some(s) => Some(s@),
        None => None,
    }
}

pub open spec fn groups_view(g: Seq<Option<String>>) -> Seq<Option<Seq<char>>> {
    g.map_values(|o: Option<String>| opt_view(o))
}

/// `regex::Regex::new`: `None` when the pattern compiles, else the error's text.
#[verifier::external_body]
pub fn regex_error(pattern: &str) -> (r: Option<String>)
    ensures
        opt_view(r) == regex_compile_error(pattern@),
{
    ::regex::Regex::new(pattern).err().map(|e| e.to_string())
}

/// `regex::Regex::is_match` on the compiled pattern; `None` when it does not compile.
#[verifier::external_body]
pub fn regex_is_match(pattern: &str, text: &str) -> (r: Option<bool>)
    ensures
        r == (if regex_valid(pattern@) {
            Some(regex_matches(pattern@, text@))
        } else {
            None
        }),
{
    ::regex::Regex::new(pattern).ok().map(|re| re.is_match(text))
}

/// The number of matches `regex::Regex::find_iter` yields; `None` when the
/// pattern does not compile.
#[verifier::external_body]
pub fn regex_count(pattern: &str, text: &str) -> (r: Option<usize>)
    ensures
        r matches Some(n) ==> regex_valid(pattern@) && n == regex_match_count(pattern@, text@),
        r is None ==> !regex_valid(pattern@),
{
    ::regex::Regex::new(pattern).ok().map(|re| re.find_iter(text).count())
}

/// `regex::Regex::captures`: the groups of the leftmost match, each group as
/// its text; the outer `None` when the pattern does not compile. The crate
/// documents that group 0, the whole match, is always present in a match.
#[verifier::external_body]
pub fn regex_first_captures(pattern: &str, text: &str) -> (r: Option<Option<Vec<Option<String>>>>)
    ensures
        r is None <==> !regex_valid(pattern@),
        r matches Some(c) ==> match c {
            Some(g) => regex_captures(pattern@, text@) == Some(groups_view(g@)) && g@.len() >= 1
                && g@[0] is Some,
            None => regex_captures(pattern@, text@) is None,
        },
{
    ::regex::Regex::new(pattern).ok().map(
        |re| re.captures(text).map(|c| c.iter().map(|m| m.map(|m| m.as_str().to_string())).collect()),
    )
}

/// `regex::Regex::captures_iter`: the groups of each successive match; `None`
/// when the pattern does not compile. Group 0 of each is the whole match.
#[verifier::external_body]
pub fn regex_all_captures(pattern: &str, text: &str) -> (r: Option<Vec<Vec<Option<String>>>>)
    ensures
        r is None <==> !regex_valid(pattern@),
        r matches Some(all) ==> all@.map_values(|g: Vec<Option<String>>| groups_view(g@))
            == regex_captures_all(pattern@, text@) && forall|i: int|
            0 <= i < all@.len() ==> #[trigger] all@[i]@.len() >= 1 && all@[i]@[0] is Some,
{
    ::regex::Regex::new(pattern).ok().map(
        |re| re.captures_iter(text).map(|c| c.iter().map(|m| m.map(|m| m.as_str().to_string())).collect()).collect(),
    )
}

/// `minijinja::Environment::template_from_str` on a fresh environment:
/// `None` when the source parses as a template, else the text of the
/// compiler's error.
#[verifier::external_body]
pub(crate) fn template_compile_error(source: &str) -> (r: Option<String>)
    ensures
        r is None <==> template_parses(source@),
        opt_view(r) == template_error_text(source@),
{
    let env = ::minijinja::Environment::new();
    env.template_from_str(source).err().map(|e| e.to_string())
}

} // verus!
