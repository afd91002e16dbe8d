//! Template header parsing and matching.
//!
//! A header line `template-match: <pattern>` names the configuration paths a
//! template applies to. The pattern is a regular expression when written
//! between slashes, a glob when it holds `*`, a hierarchical path when it holds
//! `.`, and an exact path otherwise.

use vstd::prelude::*;
use crate::text::{
    opt_strs, copy_opt_strings, trim, starts_with, contains_char, split_char, str_to_chars, string_chars, trim_chars,
    starts_with_exec, chars_to_string, contains_char_exec, chars_eq, split_char_exec,
};
use crate::patterns::{regex_valid, regex_compile_error, regex_matches, regex_error, regex_is_match};

verus! {

/// Template scope restrictions
#[derive(Debug, Clone, PartialEq)]
pub struct TemplateScope {
    /// Device types this template applies to
    pub device_types: Option<Vec<String>>,
    /// Vendor restrictions
    pub vendors: Option<Vec<String>>,
    /// Configuration contexts (e.g., "global", "interface", "routing")
    pub contexts: Option<Vec<String>>,
}

/// Different types of matching patterns supported
#[derive(Debug, Clone, PartialEq)]
pub enum MatchPattern {
    /// Exact string match
    Exact(String),
    /// Regular expression pattern
    Regex(String),
    /// Hierarchical path with wildcards (dot-separated)
    HierarchicalPath(String),
    /// Glob pattern with * and ** support
    Glob(String),
}

/// The four kinds of pattern.
#[derive(Debug, Clone, Copy, PartialEq, Eq, Structural)]
pub enum PatternKind {
    Exact,
    Regex,
    HierarchicalPath,
    Glob,
}

impl MatchPattern {
    pub open spec fn kind(&self) -> PatternKind {
        match self {
            MatchPattern::Exact(_) => PatternKind::Exact,
            MatchPattern::Regex(_) => PatternKind::Regex,
            MatchPattern::HierarchicalPath(_) => PatternKind::HierarchicalPath,
            MatchPattern::Glob(_) => PatternKind::Glob,
        }
    }

    pub open spec fn text(&self) -> Seq<char> {
        match self {
            MatchPattern::Exact(s) => s@,
            MatchPattern::Regex(s) => s@,
            MatchPattern::HierarchicalPath(s) => s@,
            MatchPattern::Glob(s) => s@,
        }
    }

    /// The pattern's text.
    pub fn as_text(&self) -> (s: &String)
        ensures
            s@ == self.text(),
    {
        match self {
            MatchPattern::Exact(s) => s,
            MatchPattern::Regex(s) => s,
            MatchPattern::HierarchicalPath(s) => s,
            MatchPattern::Glob(s) => s,
        }
    }
}

/// Template match header specification
#[derive(Debug, Clone, PartialEq)]
pub struct TemplateHeader {
    /// The raw header specification string
    pub raw: String,
    /// Parsed match pattern
    pub pattern: MatchPattern,
    /// Optional priority for conflict resolution (higher = more priority)
    pub priority: Option<u32>,
    /// Optional scope restrictions
    pub scope: Option<TemplateScope>,
}

/// Why a header could not be parsed or a pattern could not be matched.
#[derive(Debug, Clone, PartialEq)]
pub enum HeaderError {
    /// The line does not start with `template-match:`
    MissingDirective,
    /// Nothing follows the directive
    EmptyPattern,
    /// A `/.../` pattern whose inside is not a valid regular expression
    InvalidRegex { pattern: String, reason: String },
    /// A glob holding `***`
    TripleAsterisk,
    /// A glob where `**` is followed by something other than `.` or `/`
    UnseparatedDoubleStar,
    /// A regular expression (given, or made from a glob) that does not compile at match time
    RegexCompile { pattern: String, reason: String },
}

// ---------------------------------------------------------------------------
// Specification
// ---------------------------------------------------------------------------

pub open spec fn directive() -> Seq<char> {
    "template-match:"@
}

/// The pattern text of a header line: what follows the directive, trimmed.
pub open spec fn header_value(line: Seq<char>) -> Seq<char> {
    trim(trim(line).skip(directive().len() as int))
}

/// A pattern written between slashes, with something inside.
pub open spec fn is_slash_delimited(v: Seq<char>) -> bool {
    v.len() > 2 && v[0] == '/' && v.last() == '/'
}

pub open spec fn has_triple_star(v: Seq<char>) -> bool {
    exists|i: int| #![trigger v[i]] 0 <= i && i + 2 < v.len() && v[i] == '*' && v[i + 1] == '*' && v[i + 2] == '*'
}

/// Every `**` is followed by `.` or `/`, or ends the pattern.
pub open spec fn double_star_separated(v: Seq<char>) -> bool {
    forall|i: int|
        #![trigger v[i]]
        0 <= i && i + 2 < v.len() && v[i] == '*' && v[i + 1] == '*' ==> v[i + 2] == '.' || v[i
            + 2] == '/'
}

/// The kind a non-empty pattern text is given, when the pattern is accepted.
pub open spec fn classify(v: Seq<char>) -> PatternKind {
    if is_slash_delimited(v) {
        PatternKind::Regex
    } else if contains_char(v, '*') {
        PatternKind::Glob
    } else if contains_char(v, '.') {
        PatternKind::HierarchicalPath
    } else {
        PatternKind::Exact
    }
}

/// The stored text of a pattern of that kind: the inside of the slashes for a
/// regular expression, the whole text otherwise.
pub open spec fn stored_text(v: Seq<char>) -> Seq<char> {
    if is_slash_delimited(v) {
        v.subrange(1, v.len() - 1)
    } else {
        v
    }
}

/// A pattern text is accepted unless it is a malformed regular expression or glob.
pub open spec fn pattern_accepted(v: Seq<char>) -> bool {
    if is_slash_delimited(v) {
        regex_valid(stored_text(v))
    } else if contains_char(v, '*') {
        !has_triple_star(v) && double_star_separated(v)
    } else {
        true
    }
}

/// A header line is accepted when it carries the directive and an accepted,
/// non-empty pattern.
pub open spec fn header_accepted(line: Seq<char>) -> bool {
    &&& starts_with(trim(line), directive())
    &&& header_value(line).len() > 0
    &&& pattern_accepted(header_value(line))
}

// ---------------------------------------------------------------------------
// Hierarchical and glob matching
// ---------------------------------------------------------------------------

pub open spec fn views(v: Seq<Vec<char>>) -> Seq<Seq<char>> {
    v.map_values(|x: Vec<char>| x@)
}

/// Pattern parts from `i` on match path parts from `j` on: `*` matches one
/// part, `**` matches any number of parts (but not past the last one, as
/// reaching the end of the path with pattern parts left fails), and any other
/// part matches an equal part.
pub open spec fn parts_match(pp: Seq<Seq<char>>, xp: Seq<Seq<char>>, i: int, j: int) -> bool
    decreases pp.len() - i, 0int,
{
    if i >= pp.len() {
        j >= xp.len()
    } else if j >= xp.len() {
        false
    } else if pp[i] == seq!['*'] {
        parts_match(pp, xp, i + 1, j + 1)
    } else if pp[i] == seq!['*', '*'] {
        rest_matches_from(pp, xp, i + 1, j)
    } else {
        pp[i] == xp[j] && parts_match(pp, xp, i + 1, j + 1)
    }
}

/// Pattern parts from `i` on match the path parts from some position `k` on,
/// with `k` between the given position and the number of path parts.
pub open spec fn rest_matches_from(pp: Seq<Seq<char>>, xp: Seq<Seq<char>>, i: int, k: int) -> bool
    decreases pp.len() - i, xp.len() + 1 - k,
{
    if k > xp.len() || i > pp.len() {
        false
    } else {
        parts_match(pp, xp, i, k) || rest_matches_from(pp, xp, i, k + 1)
    }
}

/// A hierarchical pattern matches a path when their dot-separated parts match.
pub open spec fn hierarchical_match(pattern: Seq<char>, path: Seq<char>) -> bool {
    parts_match(split_char(pattern, '.'), split_char(path, '.'), 0, 0)
}

pub open spec fn is_regex_special(c: char) -> bool {
    c == '.' || c == '^' || c == '$' || c == '(' || c == ')' || c == '[' || c == ']' || c == '{'
        || c == '}' || c == '|' || c == '+' || c == '?' || c == '\\'
}

/// The regular-expression body of a glob: `**` becomes `.*`, `*` becomes
/// `[^.]*`, metacharacters are escaped, everything else is kept.
pub open spec fn glob_body(g: Seq<char>) -> Seq<char>
    decreases g.len(),
{
    if g.len() == 0 {
        Seq::empty()
    } else if g[0] == '*' {
        if g.len() > 1 && g[1] == '*' {
            seq!['.', '*'] + glob_body(g.skip(2))
        } else {
            seq!['[', '^', '.', ']', '*'] + glob_body(g.skip(1))
        }
    } else if is_regex_special(g[0]) {
        seq!['\\', g[0]] + glob_body(g.skip(1))
    } else {
        seq![g[0]] + glob_body(g.skip(1))
    }
}

/// The anchored regular expression a glob is matched with.
pub open spec fn glob_to_regex(g: Seq<char>) -> Seq<char> {
    seq!['^'] + glob_body(g) + seq!['$']
}

/// Whether the header's pattern can be checked against paths (its regular
/// expression, given or derived from a glob, compiles).
pub open spec fn pattern_checkable(p: MatchPattern) -> bool {
    match p {
        MatchPattern::Regex(r) => regex_valid(r@),
        MatchPattern::Glob(g) => regex_valid(glob_to_regex(g@)),
        _ => true,
    }
}

/// Whether a configuration path matches a (checkable) pattern.
pub open spec fn pattern_matches(p: MatchPattern, path: Seq<char>) -> bool {
    match p {
        MatchPattern::Exact(e) => e@ == path,
        MatchPattern::Regex(r) => regex_matches(r@, path),
        MatchPattern::HierarchicalPath(h) => hierarchical_match(h@, path),
        MatchPattern::Glob(g) => regex_matches(glob_to_regex(g@), path),
    }
}

// ---------------------------------------------------------------------------
// Executable code
// ---------------------------------------------------------------------------

fn has_triple_star_exec(v: &[char]) -> (b: bool)
    ensures
        b == has_triple_star(v@),
{
    let mut i: usize = 0;
    while v.len() > 2 && i < v.len() - 2
        invariant
            forall|k: int|
                #![trigger v@[k]]
                0 <= k < i && k + 2 < v@.len() ==> !(v@[k] == '*' && v@[k + 1] == '*' && v@[k
                    + 2] == '*'),
        decreases v.len() - i,
    {
        if v[i] == '*' && v[i + 1] == '*' && v[i + 2] == '*' {
            return true;
        }
        i = i + 1;
    }
    false
}

fn double_star_separated_exec(v: &[char]) -> (b: bool)
    ensures
        b == double_star_separated(v@),
{
    let mut i: usize = 0;
    while v.len() > 2 && i < v.len() - 2
        invariant
            forall|k: int|
                #![trigger v@[k]]
                0 <= k < i && k + 2 < v@.len() && v@[k] == '*' && v@[k + 1] == '*' ==> v@[k + 2]
                    == '.' || v@[k + 2] == '/',
        decreases v.len() - i,
    {
        if v[i] == '*' && v[i + 1] == '*' && v[i + 2] != '.' && v[i + 2] != '/' {
            return false;
        }
        i = i + 1;
    }
    true
}

fn subrange_chars(v: &[char], from: usize, to: usize) -> (r: Vec<char>)
    requires
        from <= to <= v@.len(),
    ensures
        r@ == v@.subrange(from as int, to as int),
{
    let mut r: Vec<char> = Vec::new();
    let mut k = from;
    while k < to
        invariant
            from <= k <= to <= v@.len(),
            r@ == v@.subrange(from as int, k as int),
        decreases to - k,
    {
        r.push(v[k]);
        k = k + 1;
        assert(r@ =~= v@.subrange(from as int, k as int));
    }
    r
}

/// Parse a pattern text that is not empty.
fn parse_pattern(v: &[char]) -> (r: Result<MatchPattern, HeaderError>)
    requires
        v@.len() > 0,
    ensures
        r matches Ok(p) ==> pattern_accepted(v@) && p.kind() == classify(v@) && p.text()
            == stored_text(v@),
        r matches Err(e) ==> !pattern_accepted(v@) && match e {
            HeaderError::InvalidRegex { pattern, reason } => is_slash_delimited(v@)
                && pattern@ == stored_text(v@) && regex_compile_error(stored_text(v@)) == Some(
                reason@),
            HeaderError::TripleAsterisk => !is_slash_delimited(v@) && contains_char(v@, '*')
                && has_triple_star(v@),
            HeaderError::UnseparatedDoubleStar => !is_slash_delimited(v@) && contains_char(
                v@,
                '*',
            ) && !has_triple_star(v@) && !double_star_separated(v@),
            _ => false,
        },
{
    let n = v.len();
    if n > 2 && v[0] == '/' && v[n - 1] == '/' {
        let inner = subrange_chars(v, 1, n - 1);
        let inner_s = chars_to_string(inner.as_slice());
        match regex_error(inner_s.as_str()) {
            Some(reason) => {
                return Err(HeaderError::InvalidRegex { pattern: inner_s, reason });
            },
            None => {
                return Ok(MatchPattern::Regex(inner_s));
            },
        }
    }
    let s = chars_to_string(v);
    if contains_char_exec(v, '*') {
        if has_triple_star_exec(v) {
            return Err(HeaderError::TripleAsterisk);
        }
        if !double_star_separated_exec(v) {
            return Err(HeaderError::UnseparatedDoubleStar);
        }
        return Ok(MatchPattern::Glob(s));
    }
    if contains_char_exec(v, '.') {
        return Ok(MatchPattern::HierarchicalPath(s));
    }
    Ok(MatchPattern::Exact(s))
}

/// Template header parser
#[derive(Debug, Clone)]
pub struct HeaderParser {}

impl HeaderParser {
    /// Create a new header parser
    pub fn new() -> Self {
        HeaderParser {}
    }

    /// Parse a template header specification line.
    pub fn parse(&self, header_line: &str) -> (r: Result<TemplateHeader, HeaderError>)
        ensures
            r is Ok <==> header_accepted(header_line@),
            r matches Ok(h) ==> h.raw@ == header_line@ && h.pattern.kind() == classify(
                header_value(header_line@),
            ) && h.pattern.text() == stored_text(header_value(header_line@)) && h.priority is None
                && h.scope is None,
            r matches Err(e) ==> match e {
                HeaderError::MissingDirective => !starts_with(trim(header_line@), directive()),
                HeaderError::EmptyPattern => starts_with(trim(header_line@), directive())
                    && header_value(header_line@).len() == 0,
                HeaderError::InvalidRegex { pattern, reason } => starts_with(
                    trim(header_line@),
                    directive(),
                ) && header_value(header_line@).len() > 0 && is_slash_delimited(
                    header_value(header_line@),
                ) && pattern@ == stored_text(header_value(header_line@)) && regex_compile_error(
                    pattern@,
                ) == Some(reason@),
                HeaderError::TripleAsterisk => starts_with(trim(header_line@), directive())
                    && !is_slash_delimited(header_value(header_line@)) && has_triple_star(
                    header_value(header_line@),
                ),
                HeaderError::UnseparatedDoubleStar => starts_with(trim(header_line@), directive())
                    && !is_slash_delimited(header_value(header_line@)) && contains_char(
                    header_value(header_line@),
                    '*',
                ) && !has_triple_star(header_value(header_line@)) && !double_star_separated(
                    header_value(header_line@),
                ),
                HeaderError::RegexCompile { .. } => false,
            },
    {
        let line = str_to_chars(header_line);
        let trimmed = trim_chars(line.as_slice());
        let d = str_to_chars("template-match:");
        if !starts_with_exec(trimmed.as_slice(), d.as_slice()) {
            return Err(HeaderError::MissingDirective);
        }
        let rest = subrange_chars(trimmed.as_slice(), d.len(), trimmed.len());
        assert(rest@ =~= trimmed@.skip(directive().len() as int));
        let value = trim_chars(rest.as_slice());
        if value.len() == 0 {
            return Err(HeaderError::EmptyPattern);
        }
        let pattern = parse_pattern(value.as_slice());
        match pattern {
            Ok(p) => {
                let raw = chars_to_string(line.as_slice());
                Ok(TemplateHeader { raw, pattern: p, priority: None, scope: None })
            },
            Err(e) => Err(e),
        }
    }

    /// Check if a configuration path matches a template header.
    pub fn matches(&self, header: &TemplateHeader, config_path: &str) -> (r: Result<
        bool,
        HeaderError,
    >)
        ensures
            r is Ok <==> pattern_checkable(header.pattern),
            r matches Ok(b) ==> b == pattern_matches(header.pattern, config_path@),
            r matches Err(e) ==> e matches HeaderError::RegexCompile { .. },
    {
        match &header.pattern {
            MatchPattern::Exact(p) => {
                let a = string_chars(p);
                let b = str_to_chars(config_path);
                Ok(chars_eq(a.as_slice(), b.as_slice()))
            },
            MatchPattern::Regex(p) => {
                match regex_is_match(p.as_str(), config_path) {
                    Some(b) => Ok(b),
                    None => {
                        let reason = match regex_error(p.as_str()) {
                            Some(m) => m,
                            None => String::new(),
                        };
                        Err(HeaderError::RegexCompile { pattern: p.clone(), reason })
                    },
                }
            },
            MatchPattern::HierarchicalPath(p) => {
                let a = string_chars(p);
                let b = str_to_chars(config_path);
                Ok(matches_hierarchical(a.as_slice(), b.as_slice()))
            },
            MatchPattern::Glob(p) => {
                let a = string_chars(p);
                let re = glob_to_regex_exec(a.as_slice());
                let re_s = chars_to_string(re.as_slice());
                match regex_is_match(re_s.as_str(), config_path) {
                    Some(b) => Ok(b),
                    None => {
                        let reason = match regex_error(re_s.as_str()) {
                            Some(m) => m,
                            None => String::new(),
                        };
                        Err(HeaderError::RegexCompile { pattern: re_s, reason })
                    },
                }
            },
        }
    }
}

/// Match a hierarchical pattern against a path.
pub fn matches_hierarchical(pattern: &[char], path: &[char]) -> (b: bool)
    ensures
        b == hierarchical_match(pattern@, path@),
{
    let pp = split_char_exec(pattern, '.');
    let xp = split_char_exec(path, '.');
    match_parts(&pp, &xp, 0, 0)
}

fn is_single_star(p: &Vec<char>) -> (b: bool)
    ensures
        b == (p@ == seq!['*']),
{
    if p.len() == 1 && p[0] == '*' {
        assert(p@ =~= seq!['*']);
        true
    } else {
        false
    }
}

fn is_double_star(p: &Vec<char>) -> (b: bool)
    ensures
        b == (p@ == seq!['*', '*']),
{
    if p.len() == 2 && p[0] == '*' && p[1] == '*' {
        assert(p@ =~= seq!['*', '*']);
        true
    } else {
        false
    }
}

fn match_parts(pp: &Vec<Vec<char>>, xp: &Vec<Vec<char>>, i: usize, j: usize) -> (b: bool)
    requires
        i <= pp@.len(),
        j <= xp@.len(),
    ensures
        b == parts_match(views(pp@), views(xp@), i as int, j as int),
    decreases pp@.len() - i,
{
    let ghost pv = views(pp@);
    let ghost xv = views(xp@);
    if i >= pp.len() {
        return j >= xp.len();
    }
    if j >= xp.len() {
        return false;
    }
    assert(pv[i as int] == pp@[i as int]@);
    assert(xv[j as int] == xp@[j as int]@);
    if is_single_star(&pp[i]) {
        return match_parts(pp, xp, i + 1, j + 1);
    }
    if is_double_star(&pp[i]) {
        assert(pv[i as int] != seq!['*']) by {
            assert(pv[i as int].len() == 2);
        }
        assert(parts_match(pv, xv, i as int, j as int) == rest_matches_from(pv, xv, i + 1, j as int));
        let mut k: usize = j;
        while k <= xp.len()
            invariant
                parts_match(pv, xv, i as int, j as int) == rest_matches_from(pv, xv, i + 1, j as int),
                i < pp@.len(),
                i < pp.len(),
                j <= k <= xp@.len(),
                pv == views(pp@),
                xv == views(xp@),
                rest_matches_from(pv, xv, i + 1, j as int) == rest_matches_from(pv, xv, i + 1, k as int),
            decreases xp@.len() - k,
        {
            assert(rest_matches_from(pv, xv, i + 1, k as int) == (parts_match(pv, xv, i + 1, k as int) || rest_matches_from(pv, xv, i + 1, k + 1)));
            if match_parts(pp, xp, i + 1, k) {
                return true;
            }
            if k == xp.len() {
                assert(!rest_matches_from(pv, xv, i + 1, k + 1));
                return false;
            }
            k = k + 1;
        }
        return false;
    }
    if chars_eq(pp[i].as_slice(), xp[j].as_slice()) {
        match_parts(pp, xp, i + 1, j + 1)
    } else {
        false
    }
}

fn is_regex_special_exec(c: char) -> (b: bool)
    ensures
        b == is_regex_special(c),
{
    c == '.' || c == '^' || c == '$' || c == '(' || c == ')' || c == '[' || c == ']' || c == '{'
        || c == '}' || c == '|' || c == '+' || c == '?' || c == '\\'
}

/// The anchored regular expression a glob is matched with.
pub fn glob_to_regex_exec(g: &[char]) -> (r: Vec<char>)
    ensures
        r@ == glob_to_regex(g@),
{
    let mut out: Vec<char> = Vec::new();
    out.push('^');
    let mut i: usize = 0;
    assert(g@.skip(0) =~= g@);
    while i < g.len()
        invariant
            i <= g@.len(),
            out@ + glob_body(g@.skip(i as int)) == seq!['^'] + glob_body(g@),
        decreases g.len() - i,
    {
        let ghost before = out@;
        let ghost rest = g@.skip(i as int);
        let c = g[i];
        if c == '*' {
            if i + 1 < g.len() && g[i + 1] == '*' {
                out.push('.');
                out.push('*');
                assert(rest.skip(2) =~= g@.skip(i + 2));
                assert(out@ + glob_body(g@.skip(i + 2)) =~= before + (seq!['.', '*'] + glob_body(
                    rest.skip(2),
                )));
                i = i + 2;
            } else {
                out.push('[');
                out.push('^');
                out.push('.');
                out.push(']');
                out.push('*');
                assert(rest.skip(1) =~= g@.skip(i + 1));
                assert(out@ + glob_body(g@.skip(i + 1)) =~= before + (seq!['[', '^', '.', ']', '*']
                    + glob_body(rest.skip(1))));
                i = i + 1;
            }
        } else if is_regex_special_exec(c) {
            out.push('\\');
            out.push(c);
            assert(rest.skip(1) =~= g@.skip(i + 1));
            assert(out@ + glob_body(g@.skip(i + 1)) =~= before + (seq!['\\', c] + glob_body(
                rest.skip(1),
            )));
            i = i + 1;
        } else {
            out.push(c);
            assert(rest.skip(1) =~= g@.skip(i + 1));
            assert(out@ + glob_body(g@.skip(i + 1)) =~= before + (seq![c] + glob_body(
                rest.skip(1),
            )));
            i = i + 1;
        }
    }
    assert(g@.skip(i as int) =~= Seq::<char>::empty());
    out.push('$');
    assert(out@ =~= glob_to_regex(g@));
    out
}

// ---------------------------------------------------------------------------
// Models and copies
// ---------------------------------------------------------------------------

/// The content of a scope: device types, vendors and contexts, each optional.
pub type ScopeModel = (Option<Seq<Seq<char>>>, Option<Seq<Seq<char>>>, Option<Seq<Seq<char>>>);

/// The content of a header: raw line, pattern kind and text, priority, scope.
pub type HeaderModel = (Seq<char>, PatternKind, Seq<char>, Option<u32>, Option<ScopeModel>);

impl TemplateScope {
    pub open spec fn model(&self) -> ScopeModel {
        (opt_strs(self.device_types), opt_strs(self.vendors), opt_strs(self.contexts))
    }

    /// A copy with the same content.
    pub fn duplicate(&self) -> (r: Self)
        ensures
            r.model() == self.model(),
    {
        TemplateScope {
            device_types: copy_opt_strings(&self.device_types),
            vendors: copy_opt_strings(&self.vendors),
            contexts: copy_opt_strings(&self.contexts),
        }
    }
}

impl MatchPattern {
    /// A copy with the same kind and text.
    pub fn duplicate(&self) -> (r: Self)
        ensures
            r == *self,
    {
        match self {
            MatchPattern::Exact(s) => MatchPattern::Exact(s.clone()),
            MatchPattern::Regex(s) => MatchPattern::Regex(s.clone()),
            MatchPattern::HierarchicalPath(s) => MatchPattern::HierarchicalPath(s.clone()),
            MatchPattern::Glob(s) => MatchPattern::Glob(s.clone()),
        }
    }
}

pub open spec fn opt_scope_model(o: Option<TemplateScope>) -> Option<ScopeModel> {
    match o {
        Some(s) => Some(s.model()),
        None => None,
    }
}

impl TemplateHeader {
    pub open spec fn model(&self) -> HeaderModel {
        (self.raw@, self.pattern.kind(), self.pattern.text(), self.priority, opt_scope_model(self.scope))
    }

    /// A copy with the same content.
    pub fn duplicate(&self) -> (r: Self)
        ensures
            r.model() == self.model(),
            r.pattern == self.pattern,
    {
        let scope = match &self.scope {
            Some(s) => Some(s.duplicate()),
            None => None,
        };
        TemplateHeader {
            raw: self.raw.clone(),
            pattern: self.pattern.duplicate(),
            priority: self.priority,
            scope,
        }
    }
}

/// Every '.' of the regular expression is escaped (the character before it
/// is a backslash) or is the excluded character of a `[^.]` class: none is
/// a wildcard that could match any character, a '.' among them.
pub open spec fn dots_never_wild(r: Seq<char>) -> bool {
    forall|k: int|
        0 <= k < r.len() && #[trigger] r[k] == '.' ==> (k >= 1 && r[k - 1] == '\\') || (k >= 2 && r[k - 2] == '[' && r[k - 1]
            == '^' && k + 1 < r.len() && r[k + 1] == ']')
}

/// A glob holds no `**`.
pub open spec fn no_double_star(g: Seq<char>) -> bool {
    forall|i: int| 0 <= i < g.len() - 1 ==> !(#[trigger] g[i] == '*' && g[i + 1] == '*')
}

proof fn lemma_glob_body_dots(g: Seq<char>)
    requires
        no_double_star(g),
    ensures
        dots_never_wild(glob_body(g)),
    decreases g.len(),
{
    if g.len() > 0 {
        let rest = g.skip(1);
        assert(no_double_star(rest)) by {
            assert forall|i: int| 0 <= i < rest.len() - 1 implies !(#[trigger] rest[i] == '*' && rest[i + 1] == '*') by {
                assert(rest[i] == g[i + 1] && rest[i + 1] == g[i + 2]);
            }
        }
        lemma_glob_body_dots(rest);
        let tail = glob_body(rest);
        let tok: Seq<char> = if g[0] == '*' {
            if g.len() > 1 && g[1] == '*' {
                assert(!(g[0] == '*' && g[1] == '*'));
                seq!['.', '*']
            } else {
                seq!['[', '^', '.', ']', '*']
            }
        } else if is_regex_special(g[0]) {
            seq!['\\', g[0]]
        } else {
            seq![g[0]]
        };
        let r = glob_body(g);
        assert(r == tok + tail);
        assert forall|k: int|
            0 <= k < r.len() && #[trigger] r[k] == '.' implies (k >= 1 && r[k - 1] == '\\') || (k >= 2 && r[k - 2] == '['
                && r[k - 1] == '^' && k + 1 < r.len() && r[k + 1] == ']') by {
            if k >= tok.len() {
                let j = k - tok.len();
                assert(r[k] == tail[j]);
                assert(tail[j] == '.');
                if j >= 1 {
                    assert(r[k - 1] == tail[j - 1]);
                }
                if j >= 2 {
                    assert(r[k - 2] == tail[j - 2]);
                }
                if j + 1 < tail.len() {
                    assert(r[k + 1] == tail[j + 1]);
                }
            }
        }
    }
}

/// A single '*' of a glob never stands for a '.': the regular expression a
/// glob without `**` is matched with has no wildcard that can match a '.'
/// (each of its dots is escaped, or excluded by `[^.]`), so only the
/// glob's own dots match the dots of a path.
pub proof fn law_single_star_stays_within_a_part(g: Seq<char>)
    requires
        no_double_star(g),
    ensures
        dots_never_wild(glob_to_regex(g)),
{
    lemma_glob_body_dots(g);
    let b = glob_body(g);
    let r = glob_to_regex(g);
    assert(r == seq!['^'] + b + seq!['$']);
    assert forall|k: int|
        0 <= k < r.len() && #[trigger] r[k] == '.' implies (k >= 1 && r[k - 1] == '\\') || (k >= 2 && r[k - 2] == '['
            && r[k - 1] == '^' && k + 1 < r.len() && r[k + 1] == ']') by {
        assert(k >= 1 && k - 1 < b.len());
        let j = k - 1;
        assert(r[k] == b[j]);
        if j >= 1 {
            assert(r[k - 1] == b[j - 1]);
        }
        if j >= 2 {
            assert(r[k - 2] == b[j - 2]);
        }
        if j + 1 < b.len() {
            assert(r[k + 1] == b[j + 1]);
        }
    }
}

proof fn lemma_glob_body_split(a: Seq<char>, s: Seq<char>)
    requires
        a.len() == 0 || a.last() != '*',
    ensures
        glob_body(a + s) == glob_body(a) + glob_body(s),
    decreases a.len(),
{
    if a.len() == 0 {
        assert(a + s =~= s);
        assert(glob_body(a) =~= Seq::<char>::empty());
        assert(glob_body(a) + glob_body(s) =~= glob_body(s));
    } else {
        let g = a + s;
        assert(g[0] == a[0]);
        if a[0] == '*' {
            assert(a.len() > 1);
            assert(g[1] == a[1]);
            if a[1] == '*' {
                let a2 = a.skip(2);
                assert(g.skip(2) =~= a2 + s);
                if a2.len() > 0 {
                    assert(a2.last() == a.last());
                }
                lemma_glob_body_split(a2, s);
            } else {
                let a1 = a.skip(1);
                assert(g.skip(1) =~= a1 + s);
                assert(a1.last() == a.last());
                lemma_glob_body_split(a1, s);
            }
        } else {
            let a1 = a.skip(1);
            assert(g.skip(1) =~= a1 + s);
            if a1.len() > 0 {
                assert(a1.last() == a.last());
            }
            lemma_glob_body_split(a1, s);
        }
    }
}

/// A `**` of a glob becomes the wildcard run `.*`, which crosses dots,
/// between the translations of what comes before and after it.
pub proof fn law_double_star_crosses_parts(a: Seq<char>, b: Seq<char>)
    requires
        a.len() == 0 || a.last() != '*',
    ensures
        glob_body(a + seq!['*', '*'] + b) == glob_body(a) + seq!['.', '*'] + glob_body(b),
{
    let s2 = seq!['*', '*'] + b;
    lemma_glob_body_split(a, s2);
    assert(a + seq!['*', '*'] + b =~= a + s2);
    assert(s2.skip(2) =~= b);
    assert(glob_body(s2) == seq!['.', '*'] + glob_body(b));
}

} // verus!
