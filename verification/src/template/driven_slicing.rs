//! Template-driven configuration slicing
//!
//! Slice patterns are read from template headers, checked against
//! configurations, and templates and configurations are checked for
//! consistent interface and VLAN references.

use vstd::prelude::*;
use crate::assoc::{get, lookup};
use crate::patterns::{groups_view, regex_all_captures, regex_captures_all, regex_count, regex_match_count, regex_valid};
use crate::template::header::{classify, header_accepted, header_value, stored_text, HeaderParser, MatchPattern, TemplateHeader};
use crate::template::slice::{cat2, group};
use crate::text::{
    chars_to_string, contains, contains_exec, ends_with, ends_with_exec, find_exec, lines, lines_exec, occurs_at,
    occurs_at_exec, starts_with, starts_with_exec, str_to_chars, strs, trim, trim_chars,
};

verus! {

// ---------------------------------------------------------------------------
// Header lines
// ---------------------------------------------------------------------------

/// `i` is the first position at which `p` occurs in `s`.
pub open spec fn first_at(s: Seq<char>, p: Seq<char>, i: int) -> bool {
    occurs_at(s, p, i) && forall|j: int| 0 <= j < i ==> !occurs_at(s, p, j)
}

/// `i` is the last position at which `p` occurs in `s`.
pub open spec fn last_at(s: Seq<char>, p: Seq<char>, i: int) -> bool {
    occurs_at(s, p, i) && forall|j: int| i < j ==> !occurs_at(s, p, j)
}

pub open spec fn header_directive() -> Seq<char> {
    "template-match:"@
}

/// A trimmed template line that carries a header: a bare directive, or a
/// `{# ... #}` comment holding one.
pub open spec fn header_candidate(t: Seq<char>) -> bool {
    starts_with(t, header_directive()) || (starts_with(t, "{#"@) && contains(t, header_directive()))
}

/// Where a commented header ends: at the last `#}`, else at the end.
pub open spec fn comment_end(t: Seq<char>) -> int {
    if contains(t, "#}"@) {
        choose|e: int| last_at(t, "#}"@, e)
    } else {
        t.len() as int
    }
}

/// The header text of a candidate line: from the directive to the closing
/// `#}` of a comment, trimmed; a bare directive line as it is.
pub open spec fn header_text(t: Seq<char>) -> Seq<char> {
    if starts_with(t, "{#"@) {
        trim(t.subrange(choose|i: int| first_at(t, header_directive(), i), comment_end(t)))
    } else {
        t
    }
}

/// A commented header whose last `#}` comes before its directive cannot be
/// cut out.
pub open spec fn header_cuttable(t: Seq<char>) -> bool {
    !(starts_with(t, "{#"@) && contains(t, header_directive())) || (choose|i: int| first_at(t, header_directive(), i))
        <= comment_end(t)
}

/// Every header line of the template can be cut out.
pub open spec fn headers_cuttable(template: Seq<char>) -> bool {
    forall|k: int| 0 <= k < lines(template).len() ==> header_cuttable(trim(#[trigger] lines(template)[k]))
}

/// The texts of the headers of the first `n` lines that parse.
pub open spec fn header_texts(ls: Seq<Seq<char>>, n: nat) -> Seq<Seq<char>>
    decreases n,
{
    if n == 0 {
        Seq::empty()
    } else {
        let prev = header_texts(ls, (n - 1) as nat);
        let t = trim(ls[n - 1]);
        if header_candidate(t) && header_accepted(header_text(t)) {
            prev.push(header_text(t))
        } else {
            prev
        }
    }
}

proof fn lemma_first_at_unique(s: Seq<char>, p: Seq<char>, i: int, j: int)
    requires
        first_at(s, p, i),
        first_at(s, p, j),
    ensures
        i == j,
{
}

proof fn lemma_last_at_unique(s: Seq<char>, p: Seq<char>, i: int, j: int)
    requires
        last_at(s, p, i),
        last_at(s, p, j),
    ensures
        i == j,
{
}

/// The last position at which `p` occurs in `s`.
fn rfind_exec(s: &[char], p: &[char]) -> (r: Option<usize>)
    ensures
        r matches Some(i) ==> last_at(s@, p@, i as int),
        r is None ==> !contains(s@, p@),
{
    if p.len() > s.len() {
        return None;
    }
    let mut i: usize = s.len() - p.len();
    loop
        invariant
            p@.len() <= s@.len(),
            i <= s@.len() - p@.len(),
            forall|j: int| i < j ==> !occurs_at(s@, p@, j),
        decreases i,
    {
        if occurs_at_exec(s, p, i) {
            return Some(i);
        }
        if i == 0 {
            assert forall|j: int| #![trigger occurs_at(s@, p@, j)] true implies !occurs_at(s@, p@, j) by {}
            return None;
        }
        i = i - 1;
    }
}

fn str_chars(s: &str) -> (v: Vec<char>)
    ensures
        v@ == s@,
{
    str_to_chars(s)
}

/// The header text of a trimmed candidate line.
fn header_text_exec(t: &[char]) -> (r: Vec<char>)
    requires
        header_candidate(t@),
        header_cuttable(t@),
    ensures
        r@ == header_text(t@),
{
    let open = str_chars("{#");
    if !starts_with_exec(t, open.as_slice()) {
        let mut c: Vec<char> = Vec::new();
        crate::text::push_all(&mut c, t);
        return c;
    }
    let d = str_chars("template-match:");
    let close = str_chars("#}");
    proof {
        if starts_with(t@, header_directive()) {
            assert(t@.subrange(0, d@.len() as int) =~= t@.take(d@.len() as int));
            assert(occurs_at(t@, d@, 0));
        }
    }
    let start = match find_exec(t, d.as_slice()) {
        Some(i) => i,
        None => {
            let mut c: Vec<char> = Vec::new();
            crate::text::push_all(&mut c, t);
            return c;
        },
    };
    proof {
        assert(first_at(t@, header_directive(), start as int));
        let c = choose|i: int| first_at(t@, header_directive(), i);
        lemma_first_at_unique(t@, header_directive(), c, start as int);
    }
    let end = match rfind_exec(t, close.as_slice()) {
        Some(e) => {
            proof {
                assert(last_at(t@, "#}"@, e as int));
                let c = choose|e: int| last_at(t@, "#}"@, e);
                lemma_last_at_unique(t@, "#}"@, c, e as int);
            }
            e
        },
        None => t.len(),
    };
    let mut cut: Vec<char> = Vec::new();
    let mut k: usize = start;
    while k < end
        invariant
            start <= k <= end <= t@.len(),
            cut@ == t@.subrange(start as int, k as int),
        decreases end - k,
    {
        cut.push(t[k]);
        k = k + 1;
        assert(cut@ =~= t@.subrange(start as int, k as int));
    }
    trim_chars(cut.as_slice())
}

/// What a header's pattern is written as for slicing: the pattern's text,
/// with `regex:` before a regular expression.
pub open spec fn pattern_string(p: MatchPattern) -> Seq<char> {
    match p {
        MatchPattern::Exact(x) => x@,
        MatchPattern::Regex(x) => "regex:"@ + x@,
        MatchPattern::HierarchicalPath(x) => x@,
        MatchPattern::Glob(x) => x@,
    }
}

// ---------------------------------------------------------------------------
// Matching patterns against configurations
// ---------------------------------------------------------------------------

/// The simple glob check: `*` matches everything, `x*` a prefix, `*x` a
/// suffix; anything else must be equal.
pub open spec fn glob_check(pattern: Seq<char>, text: Seq<char>) -> bool {
    if pattern == seq!['*'] {
        true
    } else if pattern.len() > 0 && pattern.last() == '*' {
        starts_with(text, pattern.drop_last())
    } else if pattern.len() > 0 && pattern[0] == '*' {
        ends_with(text, pattern.drop_first())
    } else {
        pattern == text
    }
}

/// How many of the lines satisfy a line test.
pub open spec fn count_lines(ls: Seq<Seq<char>>, f: spec_fn(Seq<char>) -> bool) -> nat
    decreases ls.len(),
{
    if ls.len() == 0 {
        0
    } else {
        count_lines(ls.drop_last(), f) + if f(ls.last()) {
            1nat
        } else {
            0nat
        }
    }
}

/// How often a slice pattern matches a configuration: the matches of a
/// `regex:` pattern (none when it does not compile), the lines that a glob
/// with `*` matches, or else the lines that contain the pattern.
pub open spec fn pattern_match_count(pattern: Seq<char>, config: Seq<char>) -> nat {
    if starts_with(pattern, "regex:"@) {
        if regex_valid(pattern.skip(6)) {
            regex_match_count(pattern.skip(6), config)
        } else {
            0
        }
    } else if pattern.contains('*') {
        count_lines(lines(config), |l: Seq<char>| glob_check(pattern, l))
    } else {
        count_lines(lines(config), |l: Seq<char>| contains(l, pattern))
    }
}

fn glob_check_exec(pattern: &[char], text: &[char]) -> (b: bool)
    ensures
        b == glob_check(pattern@, text@),
{
    if pattern.len() == 1 && pattern[0] == '*' {
        assert(pattern@ =~= seq!['*']);
        return true;
    }
    assert(pattern@ != seq!['*'] || pattern@.len() == 1);
    if pattern.len() > 0 && pattern[pattern.len() - 1] == '*' {
        let mut prefix: Vec<char> = Vec::new();
        let mut i: usize = 0;
        while i + 1 < pattern.len()
            invariant
                pattern@.len() > 0,
                i <= pattern@.len() - 1,
                prefix@ == pattern@.take(i as int),
            decreases pattern.len() - i,
        {
            prefix.push(pattern[i]);
            i = i + 1;
            assert(prefix@ =~= pattern@.take(i as int));
        }
        assert(prefix@ =~= pattern@.drop_last());
        return starts_with_exec(text, prefix.as_slice());
    }
    if pattern.len() > 0 && pattern[0] == '*' {
        let mut suffix: Vec<char> = Vec::new();
        let mut i: usize = 1;
        while i < pattern.len()
            invariant
                1 <= i <= pattern@.len(),
                suffix@ == pattern@.subrange(1, i as int),
            decreases pattern.len() - i,
        {
            suffix.push(pattern[i]);
            i = i + 1;
            assert(suffix@ =~= pattern@.subrange(1, i as int));
        }
        assert(suffix@ =~= pattern@.drop_first());
        return ends_with_exec(text, suffix.as_slice());
    }
    crate::text::chars_eq(pattern, text)
}

/// How often a slice pattern matches a configuration.
pub fn simple_pattern_match(pattern: &str, config_content: &str) -> (n: usize)
    ensures
        n == pattern_match_count(pattern@, config_content@),
{
    let pc = str_chars(pattern);
    let rx = str_chars("regex:");
    proof {
        reveal_strlit("regex:");
    }
    if starts_with_exec(pc.as_slice(), rx.as_slice()) {
        let mut inner: Vec<char> = Vec::new();
        let mut i: usize = 6;
        while i < pc.len()
            invariant
                6 <= i <= pc@.len(),
                inner@ == pc@.subrange(6, i as int),
            decreases pc.len() - i,
        {
            inner.push(pc[i]);
            i = i + 1;
            assert(inner@ =~= pc@.subrange(6, i as int));
        }
        assert(inner@ =~= pc@.skip(6));
        let rs = chars_to_string(inner.as_slice());
        return match regex_count(rs.as_str(), config_content) {
            Some(n) => n,
            None => 0,
        };
    }
    let star = crate::text::contains_char_exec(pc.as_slice(), '*');
    proof {
        if star {
            let j = choose|j: int| 0 <= j < pc@.len() && pc@[j] == '*';
            assert(pc@.contains('*'));
        }
        if pc@.contains('*') {
            let j = choose|j: int| 0 <= j < pc@.len() && pc@[j] == '*';
            assert(crate::text::contains_char(pc@, '*'));
        }
    }
    let cs = str_chars(config_content);
    let ls = lines_exec(cs.as_slice());
    let ghost lv = ls@.map_values(|l: Vec<char>| l@);
    let ghost f = if star {
        |l: Seq<char>| glob_check(pattern@, l)
    } else {
        |l: Seq<char>| contains(l, pattern@)
    };
    let mut n: usize = 0;
    let mut i: usize = 0;
    while i < ls.len()
        invariant
            i <= ls@.len(),
            lv == ls@.map_values(|l: Vec<char>| l@),
            lv == lines(config_content@),
            n == count_lines(lv.take(i as int), f),
            n <= i,
            pc@ == pattern@,
            star ==> f == (|l: Seq<char>| glob_check(pattern@, l)),
            !star ==> f == (|l: Seq<char>| contains(l, pattern@)),
        decreases ls.len() - i,
    {
        let hit = if star {
            glob_check_exec(pc.as_slice(), ls[i].as_slice())
        } else {
            contains_exec(ls[i].as_slice(), pc.as_slice())
        };
        proof {
            assert(lv.take(i + 1).drop_last() =~= lv.take(i as int));
            assert(lv.take(i + 1).last() == ls@[i as int]@);
            assert(f(lv[i as int]) == hit);
        }
        if hit {
            n = n + 1;
        }
        i = i + 1;
    }
    assert(lv.take(i as int) =~= lv);
    n
}

// ---------------------------------------------------------------------------
// Validation results
// ---------------------------------------------------------------------------

/// Pattern match information
#[derive(Debug, Clone)]
pub struct PatternMatch {
    /// The pattern that matched
    pub pattern: String,
    /// Number of matches found
    pub matches_count: usize,
}

/// Result of slice validation against template expectations
#[derive(Debug, Clone)]
pub struct TemplateSliceValidationResult {
    /// Whether the validation passed overall
    pub is_valid: bool,
    /// Successful pattern matches
    pub successful_matches: Vec<PatternMatch>,
    /// Validation errors encountered
    pub errors: Vec<String>,
    /// Validation warnings
    pub warnings: Vec<String>,
    /// Total patterns checked
    pub patterns_checked: usize,
}

impl TemplateSliceValidationResult {
    /// Create a new validation result
    pub fn new() -> (r: Self)
        ensures
            r.is_valid,
            r.successful_matches@.len() == 0,
            r.errors@.len() == 0,
            r.warnings@.len() == 0,
            r.patterns_checked == 0,
    {
        TemplateSliceValidationResult {
            is_valid: true,
            successful_matches: Vec::new(),
            errors: Vec::new(),
            warnings: Vec::new(),
            patterns_checked: 0,
        }
    }

    /// Add a successful pattern match
    pub fn add_successful_match(&mut self, pattern: String, matches_count: usize)
        requires
            old(self).patterns_checked < usize::MAX,
        ensures
            final(self).successful_matches@ == old(self).successful_matches@.push(PatternMatch { pattern, matches_count }),
            final(self).patterns_checked == old(self).patterns_checked + 1,
            final(self).errors == old(self).errors,
            final(self).warnings == old(self).warnings,
            final(self).is_valid == old(self).is_valid,
    {
        self.successful_matches.push(PatternMatch { pattern, matches_count });
        self.patterns_checked = self.patterns_checked + 1;
    }

    /// Add an error to the validation result
    pub fn add_error(&mut self, error: String)
        requires
            old(self).patterns_checked < usize::MAX,
        ensures
            final(self).errors@ == old(self).errors@.push(error),
            !final(self).is_valid,
            final(self).patterns_checked == old(self).patterns_checked + 1,
            final(self).successful_matches == old(self).successful_matches,
            final(self).warnings == old(self).warnings,
    {
        self.errors.push(error);
        self.is_valid = false;
        self.patterns_checked = self.patterns_checked + 1;
    }

    /// Add a warning to the validation result
    pub fn add_warning(&mut self, warning: String)
        requires
            old(self).patterns_checked < usize::MAX,
        ensures
            final(self).warnings@ == old(self).warnings@.push(warning),
            final(self).patterns_checked == old(self).patterns_checked + 1,
            final(self).successful_matches == old(self).successful_matches,
            final(self).errors == old(self).errors,
            final(self).is_valid == old(self).is_valid,
    {
        self.warnings.push(warning);
        self.patterns_checked = self.patterns_checked + 1;
    }

    /// The success rate as a fraction: the matched patterns over the
    /// checked ones (the rate is taken as full when nothing was checked).
    pub fn success_fraction(&self) -> (r: (usize, usize))
        ensures
            r.0 == self.successful_matches@.len(),
            r.1 == self.patterns_checked,
    {
        (self.successful_matches.len(), self.patterns_checked)
    }

    /// Check if validation has any issues
    pub fn has_issues(&self) -> (b: bool)
        ensures
            b == (self.errors@.len() > 0 || self.warnings@.len() > 0),
    {
        self.errors.len() > 0 || self.warnings.len() > 0
    }
}

impl Default for TemplateSliceValidationResult {
    fn default() -> (r: Self)
        ensures
            r.is_valid,
            r.successful_matches@.len() == 0,
            r.errors@.len() == 0,
            r.warnings@.len() == 0,
            r.patterns_checked == 0,
    {
        Self::new()
    }
}


/// `hs` are the headers of a template, in order.
pub open spec fn headers_for(template: Seq<char>, hs: Seq<TemplateHeader>) -> bool {
    let texts = header_texts(lines(template), lines(template).len());
    hs.len() == texts.len() && forall|k: int| 0 <= k < hs.len() ==> header_of(#[trigger] hs[k], texts[k])
}

/// `h` is what the header parser makes of a header text.
pub open spec fn header_of(h: TemplateHeader, text: Seq<char>) -> bool {
    &&& h.raw@ == text
    &&& h.pattern.kind() == classify(header_value(text))
    &&& h.pattern.text() == stored_text(header_value(text))
    &&& h.priority is None
    &&& h.scope is None
}

// ---------------------------------------------------------------------------
// The slicer
// ---------------------------------------------------------------------------

/// Template-driven slice extractor
#[derive(Debug, Clone)]
pub struct TemplateDrivenSlicer {
    header_parser: HeaderParser,
    pattern_cache: Vec<(String, String)>,
}

/// The slice pattern of a header: what the cache holds for its text, else
/// the pattern's own string.
pub open spec fn slice_pattern_of(cache: Seq<(String, String)>, h: TemplateHeader) -> Seq<char> {
    match lookup(cache, h.raw@) {
        Some(c) => c@,
        None => pattern_string(h.pattern),
    }
}

impl TemplateDrivenSlicer {
    pub closed spec fn cache(self) -> Seq<(String, String)> {
        self.pattern_cache@
    }

    pub closed spec fn wf(self) -> bool {
        crate::assoc::distinct_names(self.pattern_cache@)
    }

    /// Create a new template-driven slicer, with an empty pattern cache
    pub fn new() -> (s: Self)
        ensures
            s.wf(),
            s.cache().len() == 0,
    {
        TemplateDrivenSlicer { header_parser: HeaderParser::new(), pattern_cache: Vec::new() }
    }

    /// The headers of a template, in order: each trimmed line that is a
    /// header directive, bare or in a `{# ... #}` comment, and parses.
    pub fn extract_template_headers(&self, template_content: &str) -> (r: Vec<TemplateHeader>)
        requires
            headers_cuttable(template_content@),
        ensures
            r@.len() == header_texts(lines(template_content@), lines(template_content@).len()).len(),
            forall|k: int| 0 <= k < r@.len() ==> header_of(#[trigger] r@[k], header_texts(lines(template_content@), lines(template_content@).len())[k]),
    {
        let cs = str_chars(template_content);
        let ls = lines_exec(cs.as_slice());
        let ghost lv = ls@.map_values(|l: Vec<char>| l@);
        let d = str_chars("template-match:");
        let open = str_chars("{#");
        let mut headers: Vec<TemplateHeader> = Vec::new();
        let mut i: usize = 0;
        while i < ls.len()
            invariant
                i <= ls@.len(),
                lv == ls@.map_values(|l: Vec<char>| l@),
                lv == lines(template_content@),
                headers_cuttable(template_content@),
                d@ == header_directive(),
                open@ == "{#"@,
                headers@.len() == header_texts(lv, i as nat).len(),
                forall|k: int| 0 <= k < headers@.len() ==> header_of(#[trigger] headers@[k], header_texts(lv, i as nat)[k]),
            decreases ls.len() - i,
        {
            let t = trim_chars(ls[i].as_slice());
            proof {
                assert(lv[i as int] == ls@[i as int]@);
                assert(header_cuttable(trim(lv[i as int])));
            }
            let candidate = starts_with_exec(t.as_slice(), d.as_slice()) || (starts_with_exec(t.as_slice(), open.as_slice())
                && contains_exec(t.as_slice(), d.as_slice()));
            if candidate {
                let text = header_text_exec(t.as_slice());
                let ts = chars_to_string(text.as_slice());
                match self.header_parser.parse(ts.as_str()) {
                    Ok(h) => {
                        headers.push(h);
                        proof {
                            assert forall|k: int| 0 <= k < headers@.len() implies header_of(#[trigger] headers@[k], header_texts(lv, (i + 1) as nat)[k]) by {
                                if k < headers@.len() - 1 {
                                    assert(header_texts(lv, (i + 1) as nat)[k] == header_texts(lv, i as nat)[k]);
                                }
                            }
                        }
                    },
                    Err(_) => {},
                }
            }
            i = i + 1;
        }
        headers
    }

    fn convert_header_to_pattern_string(&self, header: &TemplateHeader) -> (s: String)
        requires
            self.wf(),
        ensures
            s@ == slice_pattern_of(self.cache(), *header),
    {
        match get(&self.pattern_cache, header.raw.as_str()) {
            Some(c) => c.clone(),
            None => match &header.pattern {
                MatchPattern::Exact(x) => x.clone(),
                MatchPattern::Regex(x) => cat2("regex:", x.as_str()),
                MatchPattern::HierarchicalPath(x) => x.clone(),
                MatchPattern::Glob(x) => x.clone(),
            },
        }
    }

    /// The slice patterns of a template's headers, in order.
    pub fn extract_slice_patterns(&self, template_content: &str) -> (r: Vec<String>)
        requires
            self.wf(),
            headers_cuttable(template_content@),
        ensures
            exists|hs: Seq<TemplateHeader>|
                #[trigger] headers_for(template_content@, hs) && strs(r@) == hs.map_values(
                    |h: TemplateHeader| slice_pattern_of(self.cache(), h),
                ),
    {
        let headers = self.extract_template_headers(template_content);
        assert(headers_for(template_content@, headers@));
        let mut patterns: Vec<String> = Vec::new();
        let mut i: usize = 0;
        while i < headers.len()
            invariant
                i <= headers@.len(),
                self.wf(),
                strs(patterns@) == headers@.take(i as int).map_values(|h: TemplateHeader| slice_pattern_of(self.cache(), h)),
            decreases headers.len() - i,
        {
            let p = self.convert_header_to_pattern_string(&headers[i]);
            let ghost before = patterns@;
            patterns.push(p);
            proof {
                assert(strs(patterns@) =~= strs(before).push(p@));
                assert(headers@.take(i + 1) =~= headers@.take(i as int).push(headers@[i as int]));
            }
            i = i + 1;
        }
        assert(headers@.take(i as int) =~= headers@);
        assert(headers_for(template_content@, headers@));
        patterns
    }

    /// Check a template's slice patterns against a configuration: a pattern
    /// that matches gives a successful match with its count, one that
    /// matches nothing a warning.
    pub fn validate_slice_extraction(&self, template_content: &str, config_content: &str, vendor_hint: Option<&str>) -> (r:
        TemplateSliceValidationResult)
        requires
            self.wf(),
            headers_cuttable(template_content@),
        ensures
            r.is_valid,
            r.errors@.len() == 0,
            r.patterns_checked == r.successful_matches@.len() + r.warnings@.len(),
            exists|hs: Seq<TemplateHeader>|
                #[trigger] headers_for(template_content@, hs) && validation_of(
                    hs.map_values(|h: TemplateHeader| slice_pattern_of(self.cache(), h)),
                    config_content@,
                ) == (
                    r.successful_matches@.map_values(|m: PatternMatch| (m.pattern@, m.matches_count as nat)),
                    strs(r.warnings@),
                ),
    {
        let patterns = self.extract_slice_patterns(template_content);
        let ghost hs = choose|hs: Seq<TemplateHeader>|
            #[trigger] headers_for(template_content@, hs) && strs(patterns@) == hs.map_values(
                |h: TemplateHeader| slice_pattern_of(self.cache(), h),
            );
        let mut result = TemplateSliceValidationResult::new();
        let mut i: usize = 0;
        let ghost ps = strs(patterns@);
        while i < patterns.len()
            invariant
                i <= patterns@.len(),
                ps == strs(patterns@),
                result.is_valid,
                result.errors@.len() == 0,
                result.patterns_checked == i,
                result.patterns_checked == result.successful_matches@.len() + result.warnings@.len(),
                validation_of(ps.take(i as int), config_content@) == (
                    result.successful_matches@.map_values(|m: PatternMatch| (m.pattern@, m.matches_count as nat)),
                    strs(result.warnings@),
                ),
            decreases patterns.len() - i,
        {
            let p = &patterns[i];
            let m = simple_pattern_match(p.as_str(), config_content);
            let ghost sm = result.successful_matches@;
            let ghost ws = result.warnings@;
            proof {
                assert(ps.take(i + 1).drop_last() =~= ps.take(i as int));
                assert(ps.take(i + 1).last() == p@);
            }
            if m == 0 {
                let w = cat4_quoted(p.as_str());
                result.add_warning(w);
                proof {
                    assert(strs(result.warnings@) =~= strs(ws).push(w@));
                }
            } else {
                result.add_successful_match(p.clone(), m);
                proof {
                    assert(result.successful_matches@.map_values(|x: PatternMatch| (x.pattern@, x.matches_count as nat))
                        =~= sm.map_values(|x: PatternMatch| (x.pattern@, x.matches_count as nat)).push((p@, m as nat)));
                }
            }
            i = i + 1;
        }
        assert(ps.take(i as int) =~= ps);
        assert(headers_for(template_content@, hs));
        result
    }
}

fn cat4_quoted(p: &str) -> (s: String)
    ensures
        s@ == "Pattern '"@ + p@ + "' matched no configuration sections"@,
{
    let r = crate::template::slice::cat4("Pattern '", p, "' matched no configuration sections", "");
    proof {
        reveal_strlit("");
        assert(r@ =~= "Pattern '"@ + p@ + "' matched no configuration sections"@);
    }
    r
}

/// The successful matches (pattern and count) and the warnings that
/// checking the patterns `ps` against a configuration gives, in order.
pub open spec fn validation_of(ps: Seq<Seq<char>>, config: Seq<char>) -> (Seq<(Seq<char>, nat)>, Seq<Seq<char>>)
    decreases ps.len(),
{
    if ps.len() == 0 {
        (Seq::empty(), Seq::empty())
    } else {
        let prev = validation_of(ps.drop_last(), config);
        let p = ps.last();
        let n = pattern_match_count(p, config);
        if n == 0 {
            (prev.0, prev.1.push("Pattern '"@ + p + "' matched no configuration sections"@))
        } else {
            (prev.0.push((p, n)), prev.1)
        }
    }
}


// ---------------------------------------------------------------------------
// Consistency between templates and configurations
// ---------------------------------------------------------------------------

/// Severity level for consistency violations
#[derive(Debug, Clone, Copy, PartialEq, Eq, Structural)]
pub enum ConsistencySeverity {
    Error,
    Warning,
    Info,
}

/// The group-1 texts of successive matches.
pub open spec fn first_groups(caps: Seq<Seq<Option<Seq<char>>>>) -> Seq<Seq<char>>
    decreases caps.len(),
{
    if caps.len() == 0 {
        Seq::empty()
    } else {
        match group(caps.last(), 1) {
            Some(g) => first_groups(caps.drop_last()).push(g),
            None => first_groups(caps.drop_last()),
        }
    }
}

/// What group 1 of each match of a pattern captures in a text; nothing when
/// the pattern does not compile.
pub open spec fn captured(pattern: Seq<char>, text: Seq<char>) -> Seq<Seq<char>> {
    if regex_valid(pattern) {
        first_groups(regex_captures_all(pattern, text))
    } else {
        Seq::empty()
    }
}

/// Append group 1 of each match to `out`.
pub fn captured_into(all: &Vec<Vec<Option<String>>>, out: &mut Vec<String>)
    ensures
        strs(final(out)@) == strs(old(out)@) + first_groups(all@.map_values(|g: Vec<Option<String>>| groups_view(g@))),
{
    let ghost cv = all@.map_values(|g: Vec<Option<String>>| groups_view(g@));
    let ghost start = strs(out@);
    let mut i: usize = 0;
    assert(start + first_groups(cv.take(0)) =~= start);
    while i < all.len()
        invariant
            i <= all@.len(),
            cv == all@.map_values(|g: Vec<Option<String>>| groups_view(g@)),
            strs(out@) == start + first_groups(cv.take(i as int)),
        decreases all.len() - i,
    {
        let g = &all[i];
        proof {
            assert(cv.take(i + 1).drop_last() =~= cv.take(i as int));
            assert(cv.take(i + 1).last() == groups_view(g@));
        }
        if 1 < g.len() {
            match &g[1] {
                Some(x) => {
                    let ghost before = strs(out@);
                    out.push(x.clone());
                    assert(strs(out@) =~= before.push(x@));
                    assert(start + first_groups(cv.take(i + 1)) =~= (start + first_groups(cv.take(i as int))).push(x@));
                },
                None => {},
            }
        }
        i = i + 1;
    }
    assert(cv.take(i as int) =~= cv);
}

fn captured_exec(pattern: &str, text: &str, out: &mut Vec<String>)
    ensures
        strs(final(out)@) == strs(old(out)@) + captured(pattern@, text@),
{
    match regex_all_captures(pattern, text) {
        None => {
            assert(strs(out@) =~= strs(out@) + Seq::<Seq<char>>::empty());
        },
        Some(all) => {
            captured_into(&all, out);
        },
    }
}

pub open spec fn interface_reference_patterns() -> Seq<Seq<char>> {
    seq![
        "interface\\s+(\\S+)"@,
        "{{.*interface.*}}"@,
        "GigabitEthernet\\d+/\\d+/\\d+"@,
        "FastEthernet\\d+/\\d+/\\d+"@,
        "TenGigabitEthernet\\d+/\\d+/\\d+"@,
    ]
}

/// The interfaces a template names: group 1 of each match of each
/// reference pattern, pattern after pattern.
pub open spec fn interface_references(template: Seq<char>) -> Seq<Seq<char>> {
    let ps = interface_reference_patterns();
    captured(ps[0], template) + captured(ps[1], template) + captured(ps[2], template) + captured(ps[3], template)
        + captured(ps[4], template)
}

pub open spec fn interface_definitions(config: Seq<char>) -> Seq<Seq<char>> {
    captured("interface\\s+(\\S+)"@, config)
}

pub open spec fn vlan_numbers(text: Seq<char>) -> Seq<Seq<char>> {
    captured("vlan\\s+(\\d+)"@, text)
}

/// The interfaces a template references.
pub fn extract_interface_references(template: &str) -> (r: Vec<String>)
    ensures
        strs(r@) == interface_references(template@),
{
    let mut out: Vec<String> = Vec::new();
    captured_exec("interface\\s+(\\S+)", template, &mut out);
    captured_exec("{{.*interface.*}}", template, &mut out);
    captured_exec("GigabitEthernet\\d+/\\d+/\\d+", template, &mut out);
    captured_exec("FastEthernet\\d+/\\d+/\\d+", template, &mut out);
    captured_exec("TenGigabitEthernet\\d+/\\d+/\\d+", template, &mut out);
    assert(strs(out@) =~= interface_references(template@));
    out
}

/// The interfaces a configuration defines.
pub fn extract_interface_definitions(config: &str) -> (r: Vec<String>)
    ensures
        strs(r@) == interface_definitions(config@),
{
    let mut out: Vec<String> = Vec::new();
    captured_exec("interface\\s+(\\S+)", config, &mut out);
    assert(strs(out@) =~= interface_definitions(config@));
    out
}

/// The VLANs a template references.
pub fn extract_vlan_references(template: &str) -> (r: Vec<String>)
    ensures
        strs(r@) == vlan_numbers(template@),
{
    let mut out: Vec<String> = Vec::new();
    captured_exec("vlan\\s+(\\d+)", template, &mut out);
    assert(strs(out@) =~= vlan_numbers(template@));
    out
}

/// The VLANs a configuration defines.
pub fn extract_vlan_definitions(config: &str) -> (r: Vec<String>)
    ensures
        strs(r@) == vlan_numbers(config@),
{
    let mut out: Vec<String> = Vec::new();
    captured_exec("vlan\\s+(\\d+)", config, &mut out);
    assert(strs(out@) =~= vlan_numbers(config@));
    out
}

/// What a consistency rule checks.
#[derive(Debug, Clone, Copy, PartialEq, Eq, Structural)]
pub enum RuleKind {
    /// Every interface the template references is defined in the configuration
    InterfaceReferences,
    /// Every VLAN the template references is defined in the configuration
    VlanReferences,
}

/// Result of a single rule check
#[derive(Debug, Clone)]
pub struct RuleCheckResult {
    /// Whether the rule check passed
    pub passed: bool,
    /// Message describing the result
    pub message: String,
}

/// Consistency rule for template-config checking
#[derive(Debug, Clone)]
pub struct ConsistencyRule {
    /// Rule name
    pub name: String,
    /// Rule description
    pub description: String,
    /// Severity of violations
    pub severity: ConsistencySeverity,
    /// What the rule checks
    pub kind: RuleKind,
}

/// The first reference that is not among the definitions.
pub open spec fn first_missing(refs: Seq<Seq<char>>, defs: Seq<Seq<char>>) -> Option<Seq<char>>
    decreases refs.len(),
{
    if refs.len() == 0 {
        None
    } else if !defs.contains(refs[0]) {
        Some(refs[0])
    } else {
        first_missing(refs.drop_first(), defs)
    }
}

/// Whether a rule passes on a template and configuration, and its message.
pub open spec fn rule_outcome(kind: RuleKind, template: Seq<char>, config: Seq<char>) -> (bool, Seq<char>) {
    match kind {
        RuleKind::InterfaceReferences => match first_missing(interface_references(template), interface_definitions(config)) {
            Some(x) => (false, "Template references interface '"@ + x + "' not found in config"@),
            None => (true, "All template interface references are valid"@),
        },
        RuleKind::VlanReferences => match first_missing(vlan_numbers(template), vlan_numbers(config)) {
            Some(x) => (false, "Template references VLAN '"@ + x + "' not found in config"@),
            None => (true, "All template VLAN references are valid"@),
        },
    }
}

fn first_missing_exec(refs: &Vec<String>, defs: &Vec<String>) -> (r: Option<String>)
    ensures
        crate::patterns::opt_view(r) == first_missing(strs(refs@), strs(defs@)),
{
    let mut i: usize = 0;
    assert(strs(refs@).skip(0) =~= strs(refs@));
    while i < refs.len()
        invariant
            i <= refs@.len(),
            first_missing(strs(refs@), strs(defs@)) == first_missing(strs(refs@).skip(i as int), strs(defs@)),
        decreases refs.len() - i,
    {
        let x = &refs[i];
        let found = crate::text::str_in_exec(defs, x);
        proof {
            let rest = strs(refs@).skip(i as int);
            assert(rest[0] == x@);
            assert(rest.drop_first() =~= strs(refs@).skip(i + 1));
            assert(found == strs(defs@).contains(x@)) by {
                if found {
                    let j = choose|j: int| 0 <= j < defs@.len() && defs@[j]@ == x@;
                    assert(strs(defs@)[j] == x@);
                }
                if strs(defs@).contains(x@) {
                    let j = choose|j: int| 0 <= j < strs(defs@).len() && strs(defs@)[j] == x@;
                    assert(defs@[j]@ == x@);
                }
            }
        }
        if !found {
            return Some(x.clone());
        }
        i = i + 1;
    }
    None
}

impl ConsistencyRule {
    /// Execute the consistency check
    pub fn check(&self, template_content: &str, config_content: &str) -> (r: RuleCheckResult)
        ensures
            (r.passed, r.message@) == rule_outcome(self.kind, template_content@, config_content@),
    {
        proof {
            reveal_strlit("");
        }
        match self.kind {
            RuleKind::InterfaceReferences => {
                let refs = extract_interface_references(template_content);
                let defs = extract_interface_definitions(config_content);
                match first_missing_exec(&refs, &defs) {
                    Some(x) => RuleCheckResult {
                        passed: false,
                        message: crate::template::slice::cat4("Template references interface '", x.as_str(), "' not found in config", ""),
                    },
                    None => RuleCheckResult { passed: true, message: "All template interface references are valid".to_string() },
                }
            },
            RuleKind::VlanReferences => {
                let refs = extract_vlan_references(template_content);
                let defs = extract_vlan_definitions(config_content);
                match first_missing_exec(&refs, &defs) {
                    Some(x) => RuleCheckResult {
                        passed: false,
                        message: crate::template::slice::cat4("Template references VLAN '", x.as_str(), "' not found in config", ""),
                    },
                    None => RuleCheckResult { passed: true, message: "All template VLAN references are valid".to_string() },
                }
            },
        }
    }
}

/// Consistency violation information
#[derive(Debug, Clone)]
pub struct ConsistencyViolation {
    /// Name of the rule that was violated
    pub rule_name: String,
    /// Description of the violation
    pub description: String,
    /// Severity of the violation
    pub severity: ConsistencySeverity,
}

/// Statistics about consistency checking
#[derive(Debug, Clone, Copy, PartialEq, Eq, Structural)]
pub struct ConsistencyStats {
    /// Number of errors found
    pub errors: usize,
    /// Number of warnings found
    pub warnings: usize,
    /// Number of info messages
    pub info: usize,
}

/// Result of consistency checking
#[derive(Debug, Clone)]
pub struct ConsistencyCheckResult {
    /// Whether the overall check passed
    pub is_consistent: bool,
    /// Violations found
    pub violations: Vec<ConsistencyViolation>,
    /// Summary statistics
    pub stats: ConsistencyStats,
}

/// How many violations have a severity.
pub open spec fn count_severity(vs: Seq<ConsistencyViolation>, s: ConsistencySeverity) -> nat
    decreases vs.len(),
{
    if vs.len() == 0 {
        0
    } else {
        count_severity(vs.drop_last(), s) + if vs.last().severity == s {
            1nat
        } else {
            0nat
        }
    }
}

proof fn lemma_count_severity_le(vs: Seq<ConsistencyViolation>, s: ConsistencySeverity)
    ensures
        count_severity(vs, s) <= vs.len(),
    decreases vs.len(),
{
    if vs.len() > 0 {
        lemma_count_severity_le(vs.drop_last(), s);
    }
}

impl ConsistencyCheckResult {
    /// The statistics agree with the violations, and the result is
    /// consistent exactly when no violation is an error.
    pub open spec fn wf(self) -> bool {
        &&& self.stats.errors == count_severity(self.violations@, ConsistencySeverity::Error)
        &&& self.stats.warnings == count_severity(self.violations@, ConsistencySeverity::Warning)
        &&& self.stats.info == count_severity(self.violations@, ConsistencySeverity::Info)
        &&& self.is_consistent == (self.stats.errors == 0)
    }

    /// Create a new consistency check result
    pub fn new() -> (r: Self)
        ensures
            r.wf(),
            r.violations@.len() == 0,
            r.is_consistent,
    {
        ConsistencyCheckResult { is_consistent: true, violations: Vec::new(), stats: ConsistencyStats { errors: 0, warnings: 0, info: 0 } }
    }

    /// Add a consistency violation
    pub fn add_violation(&mut self, violation: ConsistencyViolation)
        requires
            old(self).wf(),
            old(self).violations@.len() < usize::MAX,
        ensures
            final(self).wf(),
            final(self).violations@ == old(self).violations@.push(violation),
    {
        proof {
            lemma_count_severity_le(self.violations@, ConsistencySeverity::Error);
            lemma_count_severity_le(self.violations@, ConsistencySeverity::Warning);
            lemma_count_severity_le(self.violations@, ConsistencySeverity::Info);
        }
        let ghost before = self.violations@;
        if violation.severity == ConsistencySeverity::Error {
            self.is_consistent = false;
            self.stats.errors = self.stats.errors + 1;
        } else if violation.severity == ConsistencySeverity::Warning {
            self.stats.warnings = self.stats.warnings + 1;
        } else {
            self.stats.info = self.stats.info + 1;
        }
        self.violations.push(violation);
        assert(self.violations@.drop_last() =~= before);
    }

    /// Get violations by severity
    pub fn get_violations_by_severity(&self, severity: ConsistencySeverity) -> (r: Vec<&ConsistencyViolation>)
        ensures
            r@.map_values(|v: &ConsistencyViolation| *v) == self.violations@.filter(|v: ConsistencyViolation| v.severity == severity),
    {
        let mut r: Vec<&ConsistencyViolation> = Vec::new();
        let mut i: usize = 0;
        while i < self.violations.len()
            invariant
                i <= self.violations@.len(),
                r@.map_values(|v: &ConsistencyViolation| *v) == self.violations@.take(i as int).filter(
                    |v: ConsistencyViolation| v.severity == severity,
                ),
            decreases self.violations.len() - i,
        {
            let v = &self.violations[i];
            proof {
                assert(self.violations@.take(i + 1) =~= self.violations@.take(i as int).push(*v));
                self.violations@.take(i as int).lemma_filter_push(*v, |v: ConsistencyViolation| v.severity == severity);
            }
            if v.severity == severity {
                let ghost before = r@.map_values(|v: &ConsistencyViolation| *v);
                r.push(v);
                assert(r@.map_values(|v: &ConsistencyViolation| *v) =~= before.push(*v));
            }
            i = i + 1;
        }
        assert(self.violations@.take(i as int) =~= self.violations@);
        r
    }
}

/// The built-in rules: interface references (an error when violated) and
/// VLAN references (a warning).
pub open spec fn default_rules_spec(rules: Seq<ConsistencyRule>) -> bool {
    &&& rules.len() == 2
    &&& rules[0].name@ == "interface_references"@
    &&& rules[0].description@ == "Template should only reference interfaces that exist in config"@
    &&& rules[0].severity == ConsistencySeverity::Error
    &&& rules[0].kind == RuleKind::InterfaceReferences
    &&& rules[1].name@ == "vlan_references"@
    &&& rules[1].description@ == "Template should only reference VLANs that exist in config"@
    &&& rules[1].severity == ConsistencySeverity::Warning
    &&& rules[1].kind == RuleKind::VlanReferences
}

/// The violations that checking `rules` gives, in order: one per rule that
/// fails, with its name, message and severity.
pub open spec fn violations_of(rules: Seq<ConsistencyRule>, template: Seq<char>, config: Seq<char>) -> Seq<(Seq<char>, Seq<char>, ConsistencySeverity)>
    decreases rules.len(),
{
    if rules.len() == 0 {
        Seq::empty()
    } else {
        let prev = violations_of(rules.drop_last(), template, config);
        let r = rules.last();
        let o = rule_outcome(r.kind, template, config);
        if !o.0 {
            prev.push((r.name@, o.1, r.severity))
        } else {
            prev
        }
    }
}

/// Template-configuration consistency checker
#[derive(Debug, Clone)]
pub struct TemplateConfigConsistencyChecker {
    /// Rules for consistency checking
    pub rules: Vec<ConsistencyRule>,
}

impl TemplateConfigConsistencyChecker {
    /// Create a new consistency checker with the built-in rules
    pub fn new() -> (c: Self)
        ensures
            default_rules_spec(c.rules@),
    {
        TemplateConfigConsistencyChecker { rules: Self::default_consistency_rules() }
    }

    /// Get default consistency rules
    pub fn default_consistency_rules() -> (rules: Vec<ConsistencyRule>)
        ensures
            default_rules_spec(rules@),
    {
        let mut rules: Vec<ConsistencyRule> = Vec::new();
        rules.push(ConsistencyRule {
            name: "interface_references".to_string(),
            description: "Template should only reference interfaces that exist in config".to_string(),
            severity: ConsistencySeverity::Error,
            kind: RuleKind::InterfaceReferences,
        });
        rules.push(ConsistencyRule {
            name: "vlan_references".to_string(),
            description: "Template should only reference VLANs that exist in config".to_string(),
            severity: ConsistencySeverity::Warning,
            kind: RuleKind::VlanReferences,
        });
        rules
    }

    /// Add a consistency rule
    pub fn add_rule(&mut self, rule: ConsistencyRule)
        ensures
            final(self).rules@ == old(self).rules@.push(rule),
    {
        self.rules.push(rule);
    }

    /// Check consistency between template and configuration: each rule that
    /// fails adds a violation with its severity.
    pub fn check_consistency(&self, template_content: &str, config_content: &str) -> (r: ConsistencyCheckResult)
        ensures
            r.wf(),
            r.violations@.map_values(|v: ConsistencyViolation| (v.rule_name@, v.description@, v.severity)) == violations_of(
                self.rules@,
                template_content@,
                config_content@,
            ),
    {
        let mut result = ConsistencyCheckResult::new();
        let mut i: usize = 0;
        assert(result.violations@.map_values(|v: ConsistencyViolation| (v.rule_name@, v.description@, v.severity)) =~= Seq::<(Seq<char>, Seq<char>, ConsistencySeverity)>::empty());
        while i < self.rules.len()
            invariant
                i <= self.rules@.len(),
                result.wf(),
                result.violations@.len() <= i,
                result.violations@.map_values(|v: ConsistencyViolation| (v.rule_name@, v.description@, v.severity)) == violations_of(
                    self.rules@.take(i as int),
                    template_content@,
                    config_content@,
                ),
            decreases self.rules.len() - i,
        {
            let rule = &self.rules[i];
            let c = rule.check(template_content, config_content);
            proof {
                assert(self.rules@.take(i + 1).drop_last() =~= self.rules@.take(i as int));
                assert(self.rules@.take(i + 1).last() == *rule);
            }
            if !c.passed {
                let ghost before = result.violations@;
                result.add_violation(ConsistencyViolation { rule_name: rule.name.clone(), description: c.message, severity: rule.severity });
                assert(result.violations@.map_values(|v: ConsistencyViolation| (v.rule_name@, v.description@, v.severity)) =~= before.map_values(
                    |v: ConsistencyViolation| (v.rule_name@, v.description@, v.severity),
                ).push((rule.name@, c.message@, rule.severity)));
            }
            i = i + 1;
        }
        assert(self.rules@.take(i as int) =~= self.rules@);
        result
    }
}


/// The section names that lend themselves to templating.
pub open spec fn templatable_name(n: Seq<char>) -> bool {
    n == "interface"@ || n == "vlan"@ || n == "router"@ || n == "access-list"@ || n == "route-map"@ || n == "policy-map"@
        || n == "class-map"@ || n == "bgp"@ || n == "ospf"@ || n == "eigrp"@ || n == "isis"@ || n == "snmp-server"@ || n
        == "ntp"@ || n == "logging"@
}

fn str_eq(a: &String, b: &str) -> (r: bool)
    ensures
        r == (a@ == b@),
{
    let bs = b.to_string();
    *a == bs
}

impl TemplateDrivenSlicer {
    /// Simple glob pattern matching
    pub fn glob_match(&self, pattern: &str, text: &str) -> (b: bool)
        ensures
            b == glob_check(pattern@, text@),
    {
        let p = str_chars(pattern);
        let t = str_chars(text);
        glob_check_exec(p.as_slice(), t.as_slice())
    }

    /// Create template-config consistency checker
    pub fn create_consistency_checker(&self) -> (c: TemplateConfigConsistencyChecker)
        ensures
            default_rules_spec(c.rules@),
    {
        TemplateConfigConsistencyChecker::new()
    }

    /// Check if a configuration section is suitable for templating: its
    /// lowercase name is a known section.
    pub fn is_templatable_section(&self, section_name: &str) -> (b: bool)
        ensures
            b == templatable_name(crate::text::lowercase(section_name@)),
    {
        let n = crate::text::to_lowercase_str(section_name);
        str_eq(&n, "interface") || str_eq(&n, "vlan") || str_eq(&n, "router") || str_eq(&n, "access-list") || str_eq(
            &n,
            "route-map",
        ) || str_eq(&n, "policy-map") || str_eq(&n, "class-map") || str_eq(&n, "bgp") || str_eq(&n, "ospf") || str_eq(
            &n,
            "eigrp",
        ) || str_eq(&n, "isis") || str_eq(&n, "snmp-server") || str_eq(&n, "ntp") || str_eq(&n, "logging")
    }

    /// How confident a pattern for a section is, in percent.
    pub fn pattern_confidence_percent(&self, section_name: &str) -> (p: u32)
        ensures
            p == confidence_percent(crate::text::lowercase(section_name@)),
    {
        let n = crate::text::to_lowercase_str(section_name);
        if str_eq(&n, "interface") {
            90
        } else if str_eq(&n, "vlan") {
            80
        } else if str_eq(&n, "router") || str_eq(&n, "bgp") || str_eq(&n, "ospf") {
            70
        } else if str_eq(&n, "access-list") || str_eq(&n, "route-map") {
            60
        } else if str_eq(&n, "snmp-server") || str_eq(&n, "ntp") || str_eq(&n, "logging") {
            50
        } else {
            30
        }
    }

    /// Suggest template name based on section: its lowercase name with
    /// dashes turned into underscores, then `_template.j2`.
    pub fn suggest_template_name(&self, section_name: &str) -> (s: String)
        ensures
            s@ == crate::text::replace_all(crate::text::lowercase(section_name@), "-"@, "_"@) + "_template.j2"@,
    {
        let n = crate::text::to_lowercase_str(section_name);
        let nc = str_chars(n.as_str());
        let dash: [char; 1] = ['-'];
        let us: [char; 1] = ['_'];
        proof {
            reveal_strlit("-");
            reveal_strlit("_");
            assert(dash@ =~= "-"@);
            assert(us@ =~= "_"@);
        }
        let r = crate::text::replace_exec(nc.as_slice(), &dash, &us);
        let rs = chars_to_string(r.as_slice());
        cat2(rs.as_str(), "_template.j2")
    }
}

/// The confidence of a pattern for a lowercase section name, in percent.
pub open spec fn confidence_percent(n: Seq<char>) -> u32 {
    if n == "interface"@ {
        90
    } else if n == "vlan"@ {
        80
    } else if n == "router"@ || n == "bgp"@ || n == "ospf"@ {
        70
    } else if n == "access-list"@ || n == "route-map"@ {
        60
    } else if n == "snmp-server"@ || n == "ntp"@ || n == "logging"@ {
        50
    } else {
        30
    }
}


// ---------------------------------------------------------------------------
// Automatic slice patterns
// ---------------------------------------------------------------------------

/// The section a trimmed configuration line belongs to: the keyword it
/// starts with (followed by a space), else the global section.
pub open spec fn section_name_of(t: Seq<char>) -> Seq<char> {
    if starts_with(t, "interface "@) {
        "interface"@
    } else if starts_with(t, "router "@) {
        "router"@
    } else if starts_with(t, "vlan "@) {
        "vlan"@
    } else if starts_with(t, "access-list "@) {
        "access-list"@
    } else if starts_with(t, "route-map "@) {
        "route-map"@
    } else if starts_with(t, "policy-map "@) {
        "policy-map"@
    } else if starts_with(t, "class-map "@) {
        "class-map"@
    } else {
        "global"@
    }
}

/// A line that belongs to a section: not blank and not a comment.
pub open spec fn section_line(l: Seq<char>) -> bool {
    let t = trim(l);
    t.len() > 0 && !starts_with(t, "!"@) && !starts_with(t, "#"@)
}

/// The lines of a section, in order, as written.
pub open spec fn lines_of_section(ls: Seq<Seq<char>>, name: Seq<char>) -> Seq<Seq<char>>
    decreases ls.len(),
{
    if ls.len() == 0 {
        Seq::empty()
    } else {
        lines_of_section(ls.drop_last(), name) + if section_line(ls.last()) && section_name_of(trim(ls.last()))
            == name {
            seq![ls.last()]
        } else {
            Seq::empty()
        }
    }
}

pub open spec fn all_sections() -> Seq<Seq<char>> {
    seq![
        "interface"@,
        "router"@,
        "vlan"@,
        "access-list"@,
        "route-map"@,
        "policy-map"@,
        "class-map"@,
        "global"@,
    ]
}

/// The sections among `names` that have lines, each with its lines.
pub open spec fn sections_among(names: Seq<Seq<char>>, ls: Seq<Seq<char>>) -> Seq<(Seq<char>, Seq<Seq<char>>)>
    decreases names.len(),
{
    if names.len() == 0 {
        Seq::empty()
    } else {
        sections_among(names.drop_last(), ls) + if lines_of_section(ls, names.last()).len() > 0 {
            seq![(names.last(), lines_of_section(ls, names.last()))]
        } else {
            Seq::empty()
        }
    }
}

/// The sections of a configuration that have lines, each with its lines.
pub open spec fn config_sections(config: Seq<char>) -> Seq<(Seq<char>, Seq<Seq<char>>)> {
    sections_among(all_sections(), lines(config))
}

pub open spec fn sections_view(v: Seq<(String, Vec<String>)>) -> Seq<(Seq<char>, Seq<Seq<char>>)> {
    v.map_values(|e: (String, Vec<String>)| (e.0@, strs(e.1@)))
}

fn section_name_exec(t: &[char]) -> (r: &'static str)
    ensures
        r@ == section_name_of(t@),
{
    if starts_with_exec(t, str_to_chars("interface ").as_slice()) {
        "interface"
    } else if starts_with_exec(t, str_to_chars("router ").as_slice()) {
        "router"
    } else if starts_with_exec(t, str_to_chars("vlan ").as_slice()) {
        "vlan"
    } else if starts_with_exec(t, str_to_chars("access-list ").as_slice()) {
        "access-list"
    } else if starts_with_exec(t, str_to_chars("route-map ").as_slice()) {
        "route-map"
    } else if starts_with_exec(t, str_to_chars("policy-map ").as_slice()) {
        "policy-map"
    } else if starts_with_exec(t, str_to_chars("class-map ").as_slice()) {
        "class-map"
    } else {
        "global"
    }
}

fn section_line_exec(l: &[char]) -> (b: bool)
    ensures
        b == section_line(l@),
{
    let t = trim_chars(l);
    t.len() > 0 && !starts_with_exec(t.as_slice(), str_to_chars("!").as_slice()) && !starts_with_exec(
        t.as_slice(),
        str_to_chars("#").as_slice(),
    )
}

fn lines_of_section_exec(ls: &Vec<Vec<char>>, name: &str) -> (r: Vec<String>)
    ensures
        strs(r@) == lines_of_section(ls@.map_values(|l: Vec<char>| l@), name@),
{
    let ghost lv = ls@.map_values(|l: Vec<char>| l@);
    let mut r: Vec<String> = Vec::new();
    let mut i: usize = 0;
    while i < ls.len()
        invariant
            i <= ls@.len(),
            lv == ls@.map_values(|l: Vec<char>| l@),
            strs(r@) == lines_of_section(lv.take(i as int), name@),
        decreases ls.len() - i,
    {
        let l = &ls[i];
        let ghost before = strs(r@);
        proof {
            let t = lv.take(i + 1);
            assert(t.drop_last() =~= lv.take(i as int));
            assert(t.last() == l@);
        }
        if section_line_exec(l.as_slice()) {
            let t = trim_chars(l.as_slice());
            let sec = section_name_exec(t.as_slice());
            if sec.to_string() == name.to_string() {
                let line = chars_to_string(l.as_slice());
                r.push(line);
                proof {
                    assert(strs(r@) =~= before.push(l@));
                }
            }
        }
        proof {
            assert(strs(r@) =~= lines_of_section(lv.take(i + 1), name@));
        }
        i = i + 1;
    }
    assert(lv.take(i as int) =~= lv);
    r
}

impl TemplateDrivenSlicer {
    /// The sections of a configuration with their lines: each line that is
    /// neither blank nor a comment, under the section its keyword opens
    /// (interface, router, vlan, access-list, route-map, policy-map,
    /// class-map) or the global one.
    pub fn analyze_config_sections(&self, config_content: &str) -> (r: Vec<(String, Vec<String>)>)
        ensures
            sections_view(r@) == config_sections(config_content@),
    {
        let cs = str_to_chars(config_content);
        let ls = lines_exec(cs.as_slice());
        let ghost lv = ls@.map_values(|l: Vec<char>| l@);
        let names: [&str; 8] = [
            "interface",
            "router",
            "vlan",
            "access-list",
            "route-map",
            "policy-map",
            "class-map",
            "global",
        ];
        let ghost nv = names@.map_values(|n: &str| n@);
        assert(nv =~= all_sections());
        let mut r: Vec<(String, Vec<String>)> = Vec::new();
        let mut i: usize = 0;
        while i < 8
            invariant
                i <= 8,
                names@.len() == 8,
                nv == names@.map_values(|n: &str| n@),
                lv == ls@.map_values(|l: Vec<char>| l@),
                lv == lines(config_content@),
                sections_view(r@) == sections_among(nv.take(i as int), lv),
            decreases 8 - i,
        {
            let name: &str = names[i];
            let found = lines_of_section_exec(&ls, name);
            let ghost before = sections_view(r@);
            proof {
                let t = nv.take(i + 1);
                assert(t.drop_last() =~= nv.take(i as int));
                assert(t.last() == name@);
            }
            if found.len() > 0 {
                r.push((name.to_string(), found));
                proof {
                    assert(sections_view(r@) =~= before.push((name@, lines_of_section(lv, name@))));
                }
            }
            proof {
                assert(sections_view(r@) =~= sections_among(nv.take(i + 1), lv));
            }
            i = i + 1;
        }
        assert(nv.take(8) =~= nv);
        r
    }
}


/// Automatically generated slice pattern suggestion
#[derive(Debug, Clone)]
pub struct AutoGeneratedPattern {
    /// The suggested pattern
    pub pattern: String,
    /// Description of what the pattern matches
    pub description: String,
    /// Confidence, in percent
    pub confidence_percent: u32,
    /// Suggested template name
    pub suggested_template_name: String,
    /// Example content that would be matched
    pub example_content: String,
}

pub type AutoPatternModel = (Seq<char>, Seq<char>, u32, Seq<char>, Seq<char>);

impl AutoGeneratedPattern {
    pub open spec fn model(self) -> AutoPatternModel {
        (
            self.pattern@,
            self.description@,
            self.confidence_percent,
            self.suggested_template_name@,
            self.example_content@,
        )
    }
}

/// At most the first five lines.
pub open spec fn first_five(ls: Seq<Seq<char>>) -> Seq<Seq<char>> {
    if ls.len() <= 5 {
        ls
    } else {
        ls.take(5)
    }
}

/// The pattern suggested for a section with its lines.
pub open spec fn pattern_for(name: Seq<char>, ls: Seq<Seq<char>>) -> AutoPatternModel {
    (
        name + "*"@,
        "All "@ + name + " configurations"@,
        confidence_percent(crate::text::lowercase(name)),
        crate::text::replace_all(crate::text::lowercase(name), "-"@, "_"@) + "_template.j2"@,
        crate::text::join(first_five(ls), "\n"@),
    )
}

/// The patterns for the templatable sections, in section order.
pub open spec fn section_patterns(secs: Seq<(Seq<char>, Seq<Seq<char>>)>) -> Seq<AutoPatternModel>
    decreases secs.len(),
{
    if secs.len() == 0 {
        Seq::empty()
    } else {
        section_patterns(secs.drop_last()) + if templatable_name(crate::text::lowercase(secs.last().0)) {
            seq![pattern_for(secs.last().0, secs.last().1)]
        } else {
            Seq::empty()
        }
    }
}

/// The patterns of one confidence, in order.
pub open spec fn with_confidence(ps: Seq<AutoPatternModel>, c: int) -> Seq<AutoPatternModel>
    decreases ps.len(),
{
    if ps.len() == 0 {
        Seq::empty()
    } else {
        with_confidence(ps.drop_last(), c) + if ps.last().2 == c {
            seq![ps.last()]
        } else {
            Seq::empty()
        }
    }
}

/// The patterns of confidence `c` or lower, higher confidence first, each
/// confidence in order (a stable sort by confidence).
pub open spec fn by_confidence(ps: Seq<AutoPatternModel>, c: int) -> Seq<AutoPatternModel>
    decreases c + 1,
{
    if c < 0 {
        Seq::empty()
    } else {
        with_confidence(ps, c) + by_confidence(ps, c - 1)
    }
}

/// The suggested patterns of a configuration, most confident first.
pub open spec fn auto_patterns(config: Seq<char>) -> Seq<AutoPatternModel> {
    by_confidence(section_patterns(config_sections(config)), 100)
}

impl TemplateDrivenSlicer {
    fn pattern_of_section(&self, name: &String, ls: &Vec<String>) -> (p: AutoGeneratedPattern)
        ensures
            p.model() == pattern_for(name@, strs(ls@)),
    {
        let mut v: Vec<char> = Vec::new();
        crate::text::push_str(&mut v, "All ");
        crate::text::push_str(&mut v, name.as_str());
        crate::text::push_str(&mut v, " configurations");
        let description = chars_to_string(v.as_slice());
        let take: usize = if ls.len() <= 5 {
            ls.len()
        } else {
            5
        };
        let mut parts: Vec<Vec<char>> = Vec::new();
        let mut i: usize = 0;
        while i < take
            invariant
                i <= take,
                take <= ls@.len(),
                parts@.map_values(|x: Vec<char>| x@) == strs(ls@).take(i as int),
            decreases take - i,
        {
            let c = str_to_chars(ls[i].as_str());
            let ghost before = parts@.map_values(|x: Vec<char>| x@);
            assert(c@ == strs(ls@)[i as int]);
            parts.push(c);
            assert(parts@.map_values(|x: Vec<char>| x@) =~= before.push(c@));
            assert(parts@.map_values(|x: Vec<char>| x@) =~= strs(ls@).take(i + 1));
            i = i + 1;
        }
        proof {
            if ls@.len() <= 5 {
                assert(strs(ls@).take(take as int) =~= strs(ls@));
            }
        }
        let nl = str_to_chars("\n");
        let example = crate::text::join_exec(&parts, nl.as_slice());
        AutoGeneratedPattern {
            pattern: cat2(name.as_str(), "*"),
            description,
            confidence_percent: self.pattern_confidence_percent(name.as_str()),
            suggested_template_name: self.suggest_template_name(name.as_str()),
            example_content: chars_to_string(example.as_slice()),
        }
    }

    /// Suggest slice patterns from a configuration's sections: one for each
    /// templatable section, most confident first.
    pub fn generate_automatic_slice_patterns(&self, config_content: &str, vendor_hint: Option<&str>) -> (r: Vec<
        AutoGeneratedPattern,
    >)
        ensures
            r@.map_values(|p: AutoGeneratedPattern| p.model()) == auto_patterns(config_content@),
    {
        let sections = self.analyze_config_sections(config_content);
        let ghost secs = sections_view(sections@);
        let mut candidates: Vec<AutoGeneratedPattern> = Vec::new();
        let mut i: usize = 0;
        while i < sections.len()
            invariant
                i <= sections@.len(),
                secs == sections_view(sections@),
                candidates@.map_values(|p: AutoGeneratedPattern| p.model()) == section_patterns(secs.take(i as int)),
            decreases sections.len() - i,
        {
            let e = &sections[i];
            let ghost before = candidates@.map_values(|p: AutoGeneratedPattern| p.model());
            proof {
                let t = secs.take(i + 1);
                assert(t.drop_last() =~= secs.take(i as int));
                assert(t.last() == (e.0@, strs(e.1@)));
            }
            if self.is_templatable_section(e.0.as_str()) {
                let p = self.pattern_of_section(&e.0, &e.1);
                candidates.push(p);
                proof {
                    assert(candidates@.map_values(|p: AutoGeneratedPattern| p.model()) =~= before.push(
                        pattern_for(e.0@, strs(e.1@)),
                    ));
                }
            }
            proof {
                assert(candidates@.map_values(|p: AutoGeneratedPattern| p.model()) =~= section_patterns(
                    secs.take(i + 1),
                ));
            }
            i = i + 1;
        }
        assert(secs.take(i as int) =~= secs);
        let ghost cm = candidates@.map_values(|p: AutoGeneratedPattern| p.model());
        let mut out: Vec<AutoGeneratedPattern> = Vec::new();
        let mut c: u32 = 101;
        while c > 0
            invariant
                c <= 101,
                cm == candidates@.map_values(|p: AutoGeneratedPattern| p.model()),
                out@.map_values(|p: AutoGeneratedPattern| p.model()) + by_confidence(cm, c - 1) == by_confidence(cm, 100),
            decreases c,
        {
            c = c - 1;
            let ghost before = out@.map_values(|p: AutoGeneratedPattern| p.model());
            let mut k: usize = 0;
            while k < candidates.len()
                invariant
                    k <= candidates@.len(),
                    cm == candidates@.map_values(|p: AutoGeneratedPattern| p.model()),
                    out@.map_values(|p: AutoGeneratedPattern| p.model()) == before + with_confidence(
                        cm.take(k as int),
                        c as int,
                    ),
                decreases candidates.len() - k,
            {
                let cand = &candidates[k];
                let ghost b2 = out@.map_values(|p: AutoGeneratedPattern| p.model());
                proof {
                    let t = cm.take(k + 1);
                    assert(t.drop_last() =~= cm.take(k as int));
                    assert(t.last() == cand.model());
                }
                if cand.confidence_percent == c {
                    out.push(AutoGeneratedPattern {
                        pattern: cand.pattern.clone(),
                        description: cand.description.clone(),
                        confidence_percent: cand.confidence_percent,
                        suggested_template_name: cand.suggested_template_name.clone(),
                        example_content: cand.example_content.clone(),
                    });
                    proof {
                        assert(out@.map_values(|p: AutoGeneratedPattern| p.model()) =~= b2.push(cand.model()));
                    }
                }
                proof {
                    assert(out@.map_values(|p: AutoGeneratedPattern| p.model()) =~= before + with_confidence(
                        cm.take(k + 1),
                        c as int,
                    ));
                }
                k = k + 1;
            }
            proof {
                assert(cm.take(k as int) =~= cm);
                assert(out@.map_values(|p: AutoGeneratedPattern| p.model()) + by_confidence(cm, c - 1)
                    =~= before + by_confidence(cm, c as int));
            }
        }
        proof {
            assert(by_confidence(cm, -1) == Seq::<AutoPatternModel>::empty());
            assert(out@.map_values(|p: AutoGeneratedPattern| p.model()) =~= by_confidence(cm, 100));
        }
        out
    }
}


// ---------------------------------------------------------------------------
// Template assignments
// ---------------------------------------------------------------------------

/// Template assignment for nodes
#[derive(Debug, Clone)]
pub struct TemplateAssignment {
    /// Unique identifier for the assignment
    pub id: u128,
    /// Node ID this assignment applies to
    pub node_id: u128,
    /// Template name or path
    pub template_name: String,
    /// Priority of this assignment (higher = more priority)
    pub priority: u32,
    /// Whether this assignment is active
    pub active: bool,
    /// Template context variables, each with the JSON text of its value
    pub context_variables: Vec<(String, String)>,
    /// Template scope restrictions
    pub scope: Option<crate::template::header::TemplateScope>,
}

/// The value a variable has after `vars` were added over `before`.
pub open spec fn extended(before: Seq<(String, String)>, vars: Seq<(String, String)>, k: Seq<char>) -> Option<String> {
    match lookup(vars, k) {
        Some(v) => Some(v),
        None => lookup(before, k),
    }
}

impl TemplateAssignment {
    /// Create a new template assignment: a fresh id, priority 100, active,
    /// no variables and no scope.
    pub fn new(node_id: u128, template_name: String) -> (a: Self)
        ensures
            a.node_id == node_id,
            a.template_name == template_name,
            a.priority == 100,
            a.active,
            a.context_variables@.len() == 0,
            a.scope is None,
    {
        TemplateAssignment {
            id: crate::ids::random_id(),
            node_id,
            template_name,
            priority: 100,
            active: true,
            context_variables: Vec::new(),
            scope: None,
        }
    }

    /// Set priority for the assignment
    pub fn with_priority(self, priority: u32) -> (a: Self)
        ensures
            a == (TemplateAssignment { priority, ..self }),
    {
        TemplateAssignment { priority, ..self }
    }

    /// Set active state
    pub fn with_active(self, active: bool) -> (a: Self)
        ensures
            a == (TemplateAssignment { active, ..self }),
    {
        TemplateAssignment { active, ..self }
    }

    /// Set template scope
    pub fn with_scope(self, scope: crate::template::header::TemplateScope) -> (a: Self)
        ensures
            a == (TemplateAssignment { scope: Some(scope), ..self }),
    {
        TemplateAssignment { scope: Some(scope), ..self }
    }

    /// Add context variables: each takes the value given, later ones over
    /// earlier ones and over those already set.
    pub fn with_variables(self, variables: Vec<(String, String)>) -> (a: Self)
        requires
            crate::assoc::distinct_names(self.context_variables@),
        ensures
            crate::assoc::distinct_names(a.context_variables@),
            forall|k: Seq<char>| #[trigger] lookup(a.context_variables@, k) == extended(self.context_variables@, variables@, k),
            a.id == self.id,
            a.node_id == self.node_id,
            a.template_name == self.template_name,
            a.priority == self.priority,
            a.active == self.active,
            a.scope == self.scope,
    {
        let mut s = self;
        let ghost orig = s.context_variables@;
        let mut i: usize = 0;
        while i < variables.len()
            invariant
                i <= variables@.len(),
                crate::assoc::distinct_names(s.context_variables@),
                forall|k: Seq<char>| #[trigger] lookup(s.context_variables@, k) == extended(orig, variables@.take(i as int), k),
                s.id == self.id,
                s.node_id == self.node_id,
                s.template_name == self.template_name,
                s.priority == self.priority,
                s.active == self.active,
                s.scope == self.scope,
            decreases variables.len() - i,
        {
            let k = variables[i].0.clone();
            let v = variables[i].1.clone();
            let ghost before = s.context_variables@;
            crate::assoc::upsert(&mut s.context_variables, k, v);
            proof {
                let t = variables@.take(i + 1);
                assert(t.drop_last() =~= variables@.take(i as int));
                assert(t.last() == variables@[i as int]);
                assert forall|n: Seq<char>| #[trigger] lookup(s.context_variables@, n) == extended(orig, t, n) by {
                    if n != k@ {
                        assert(lookup(s.context_variables@, n) == lookup(before, n));
                    }
                }
            }
            i = i + 1;
        }
        assert(variables@.take(i as int) =~= variables@);
        s
    }
}

} // verus!
