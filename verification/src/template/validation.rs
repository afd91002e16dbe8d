//! Template validation and security checking

use vstd::prelude::*;
use crate::order::{sort_strings, sorted_strs, lex_le};
use crate::patterns::{groups_view, regex_all_captures, regex_captures_all, regex_is_match, regex_matches, regex_valid, template_compile_error, template_parses};
use crate::template::filters::{parse_u64, parse_u64_exec, utf8_len, utf8_width};
use crate::template::slice::{cat2, group};
use crate::text::{
    chars_to_string, count_matches, count_matches_exec, lines, lines_exec, split_char, split_char_exec, starts_with,
    starts_with_exec, str_to_chars, strs, trim, trim_chars,
};

verus! {

/// Template complexity levels
#[derive(Debug, Clone, Copy, PartialEq, Eq, Structural)]
pub enum TemplateComplexity {
    Low,
    Medium,
    High,
}

impl Default for TemplateComplexity {
    fn default() -> (c: Self)
        ensures
            c == TemplateComplexity::Low,
    {
        TemplateComplexity::Low
    }
}

/// Why a template was refused.
#[derive(Debug, Clone, PartialEq)]
pub enum TemplateCheckError {
    /// The template is larger than allowed, in bytes
    TooLarge { size: u128, max: usize },
    /// The template matches a forbidden pattern
    ForbiddenPattern(String),
    /// A `range` loop with too many iterations
    TooManyIterations(u64),
    /// Blocks nested too deeply
    ExcessiveNesting(i128),
    /// The template does not parse
    Syntax,
    /// The loop pattern did not compile
    LoopPattern,
    /// A variable or filter pattern did not compile
    ExtractPattern,
}

/// A refusal, as a plain value.
pub enum CheckFailure {
    TooLarge(nat, nat),
    Forbidden(Seq<char>),
    Iterations(nat),
    Nesting(int),
    Syntax,
    LoopPattern,
    ExtractPattern,
}

impl TemplateCheckError {
    pub open spec fn model(self) -> CheckFailure {
        match self {
            TemplateCheckError::TooLarge { size, max } => CheckFailure::TooLarge(size as nat, max as nat),
            TemplateCheckError::ForbiddenPattern(p) => CheckFailure::Forbidden(p@),
            TemplateCheckError::TooManyIterations(n) => CheckFailure::Iterations(n as nat),
            TemplateCheckError::ExcessiveNesting(d) => CheckFailure::Nesting(d as int),
            TemplateCheckError::Syntax => CheckFailure::Syntax,
            TemplateCheckError::LoopPattern => CheckFailure::LoopPattern,
            TemplateCheckError::ExtractPattern => CheckFailure::ExtractPattern,
        }
    }
}

/// The message a failure is reported with.
pub open spec fn failure_message(f: CheckFailure) -> Seq<char> {
    match f {
        CheckFailure::TooLarge(size, max) => "Template size ("@ + crate::text::decimal(size)
            + " bytes) exceeds maximum allowed size ("@ + crate::text::decimal(max) + " bytes)"@,
        CheckFailure::Forbidden(p) => "Template contains forbidden pattern: "@ + p,
        CheckFailure::Iterations(n) => "Template contains loop with too many iterations: "@ + crate::text::decimal(n),
        CheckFailure::Nesting(d) => "Template has excessive nesting depth: "@ + crate::snmp::values::signed_decimal(d)
            + " (max allowed: 20)"@,
        CheckFailure::Syntax => "Template syntax validation failed"@,
        CheckFailure::LoopPattern => "Failed to compile loop regex"@,
        CheckFailure::ExtractPattern => "Failed to compile variable regex"@,
    }
}

/// The message an error is reported with.
pub open spec fn check_error_message(e: TemplateCheckError) -> Seq<char> {
    failure_message(e.model())
}

/// The errors a comprehensive validation lists: the syntax failure, then
/// the security failure, each with its kind before its message.
pub open spec fn reported_errors(syn: Option<CheckFailure>, sec: Option<CheckFailure>) -> Seq<Seq<char>> {
    (match syn {
        Some(f) => seq!["Syntax error: "@ + failure_message(f)],
        None => Seq::empty(),
    }) + (match sec {
        Some(f) => seq!["Security error: "@ + failure_message(f)],
        None => Seq::empty(),
    })
}

impl TemplateCheckError {
    /// The message the error is reported with.
    pub fn message(&self) -> (s: String)
        ensures
            s@ == check_error_message(*self),
    {
        let mut v: Vec<char> = Vec::new();
        match self {
            TemplateCheckError::TooLarge { size, max } => {
                crate::text::push_str(&mut v, "Template size (");
                push_decimal_u128(&mut v, *size);
                crate::text::push_str(&mut v, " bytes) exceeds maximum allowed size (");
                crate::text::push_decimal(&mut v, *max as u64);
                crate::text::push_str(&mut v, " bytes)");
            },
            TemplateCheckError::ForbiddenPattern(p) => {
                crate::text::push_str(&mut v, "Template contains forbidden pattern: ");
                crate::text::push_str(&mut v, p.as_str());
            },
            TemplateCheckError::TooManyIterations(n) => {
                crate::text::push_str(&mut v, "Template contains loop with too many iterations: ");
                crate::text::push_decimal(&mut v, *n);
            },
            TemplateCheckError::ExcessiveNesting(d) => {
                crate::text::push_str(&mut v, "Template has excessive nesting depth: ");
                if *d < 0 {
                    v.push('-');
                    push_decimal_u128(&mut v, ((-(*d + 1)) as u128) + 1);
                } else {
                    push_decimal_u128(&mut v, *d as u128);
                }
                crate::text::push_str(&mut v, " (max allowed: 20)");
            },
            TemplateCheckError::Syntax => {
                crate::text::push_str(&mut v, "Template syntax validation failed");
            },
            TemplateCheckError::LoopPattern => {
                crate::text::push_str(&mut v, "Failed to compile loop regex");
            },
            TemplateCheckError::ExtractPattern => {
                crate::text::push_str(&mut v, "Failed to compile variable regex");
            },
        }
        assert(v@ =~= check_error_message(*self));
        chars_to_string(v.as_slice())
    }
}

/// Append the decimal form of a 128-bit number.
pub fn push_decimal_u128(out: &mut Vec<char>, n: u128)
    ensures
        final(out)@ == old(out)@ + crate::text::decimal(n as nat),
    decreases n,
{
    if n >= 10 {
        push_decimal_u128(out, n / 10);
    }
    let d = (n % 10) as u64;
    let before = out.len();
    let mut one: Vec<char> = Vec::new();
    crate::text::push_decimal(&mut one, d);
    assert(one@ == crate::text::decimal(d as nat));
    assert(one@ =~= seq![crate::text::digit_char(d as nat)]);
    out.push(one[0]);
    proof {
        if n >= 10 {
            assert(old(out)@ + crate::text::decimal((n / 10) as nat) + seq![one@[0]] =~= old(out)@ + crate::text::decimal(n as nat));
        } else {
            assert(old(out)@ + seq![one@[0]] =~= old(out)@ + crate::text::decimal(n as nat));
        }
    }
}

/// The patterns a template must not match.
pub open spec fn default_forbidden_patterns() -> Seq<Seq<char>> {
    seq![
        "__import__"@,
        "open\\s*\\("@,
        "file\\s*\\("@,
        "exec\\s*\\("@,
        "eval\\s*\\("@,
        "system\\s*\\("@,
        "subprocess"@,
        "os\\."@,
        "urllib"@,
        "requests"@,
        "socket"@,
        "globals\\s*\\("@,
        "locals\\s*\\("@,
        "vars\\s*\\("@,
        "dir\\s*\\("@,
        "getattr\\s*\\("@,
        "setattr\\s*\\("@,
        "delattr\\s*\\("@,
        "hasattr\\s*\\("@,
        "compile\\s*\\("@,
        "__class__"@,
        "__bases__"@,
        "__subclasses__"@,
        "__module__"@,
        "__globals__"@,
        "__dict__"@,
        "\\{\\{.*\\{%"@,
        "\\{%.*\\{\\{"@,
    ]
}

/// Template validator for syntax and security validation
#[derive(Debug, Clone)]
pub struct TemplateValidator {
    pub forbidden_patterns: Vec<String>,
    pub max_template_size: usize,
    pub max_render_time_ms: u64,
}


/// The first forbidden pattern that compiles and matches the template.
pub open spec fn first_forbidden(ps: Seq<Seq<char>>, content: Seq<char>) -> Option<Seq<char>>
    decreases ps.len(),
{
    if ps.len() == 0 {
        None
    } else if regex_valid(ps[0]) && regex_matches(ps[0], content) {
        Some(ps[0])
    } else {
        first_forbidden(ps.drop_first(), content)
    }
}

pub open spec fn loop_pattern() -> Seq<char> {
    "\\{%\\s*for\\s+\\w+\\s+in\\s+range\\s*\\(\\s*(\\d+)\\s*(?:,\\s*(\\d+))?\\s*\\)"@
}

/// A number, or 0 when it does not parse.
pub open spec fn number_or_zero(s: Seq<char>) -> nat {
    match parse_u64(s) {
        Some(n) => n as nat,
        None => 0,
    }
}

/// The iterations of a `range(a)` or `range(a, b)` loop: `b - a` when `b`
/// is larger, else `a`.
pub open spec fn loop_iterations(g: Seq<Option<Seq<char>>>) -> nat {
    let start = match group(g, 1) {
        Some(s) => number_or_zero(s),
        None => 0,
    };
    let end = match group(g, 2) {
        Some(s) => number_or_zero(s),
        None => start,
    };
    if end > start {
        (end - start) as nat
    } else {
        start
    }
}

/// The iterations of the first loop with more than 10,000 of them.
pub open spec fn first_long_loop(caps: Seq<Seq<Option<Seq<char>>>>) -> Option<nat>
    decreases caps.len(),
{
    if caps.len() == 0 {
        None
    } else if loop_iterations(caps[0]) > 10000 {
        Some(loop_iterations(caps[0]))
    } else {
        first_long_loop(caps.drop_first())
    }
}

/// The first position at or after `k` holding `%`, or the length.
pub open spec fn next_percent(cs: Seq<char>, k: int) -> int
    decreases cs.len() - k,
{
    if k >= cs.len() {
        cs.len() as int
    } else if cs[k] == '%' {
        k
    } else {
        next_percent(cs, k + 1)
    }
}

/// One step down in nesting, stopping at the least 32-bit value.
pub open spec fn step_out(depth: int) -> int {
    if depth > -2147483648 {
        depth - 1
    } else {
        depth
    }
}

/// The deepest nesting of `{% ... %}` blocks from position `i` on, given the
/// depth and the deepest nesting so far: a block whose trimmed content
/// starts with `end` closes one level, any other block opens one.
pub open spec fn scan_blocks(cs: Seq<char>, i: int, depth: int, maxd: int) -> int
    decreases cs.len() - i, 1int,
{
    if i >= cs.len() || i < 0 {
        maxd
    } else if i + 1 < cs.len() && cs[i] == '{' && cs[i + 1] == '%' {
        let j = next_percent(cs, i + 2);
        if j + 1 < cs.len() && cs[j] == '%' && cs[j + 1] == '}' && j >= i + 2 {
            if starts_with(trim(cs.subrange(i + 2, j)), "end"@) {
                scan_blocks(cs, j + 2, step_out(depth), maxd)
            } else {
                scan_blocks(cs, j + 2, depth + 1, if depth + 1 > maxd { depth + 1 } else { maxd })
            }
        } else {
            scan_blocks(cs, i + 1, depth, maxd)
        }
    } else {
        scan_blocks(cs, i + 1, depth, maxd)
    }
}

proof fn lemma_next_percent(cs: Seq<char>, k: int)
    requires
        0 <= k,
    ensures
        k <= next_percent(cs, k) || k > cs.len(),
        next_percent(cs, k) <= cs.len() || k > cs.len(),
        next_percent(cs, k) < cs.len() ==> cs[next_percent(cs, k)] == '%',
        forall|m: int| k <= m < next_percent(cs, k) && m < cs.len() ==> cs[m] != '%',
    decreases cs.len() - k,
{
    if k < cs.len() && cs[k] != '%' {
        lemma_next_percent(cs, k + 1);
    }
}

/// The deepest nesting of blocks in a template.
pub open spec fn nesting_depth(content: Seq<char>) -> int {
    scan_blocks(content, 0, 0, 0)
}

/// What the security checks find wrong with a template, if anything: a
/// forbidden pattern, then a loop with too many iterations, then blocks
/// nested deeper than 20.
pub open spec fn security_failure(ps: Seq<Seq<char>>, content: Seq<char>) -> Option<CheckFailure> {
    match first_forbidden(ps, content) {
        Some(p) => Some(CheckFailure::Forbidden(p)),
        None => if !regex_valid(loop_pattern()) {
            Some(CheckFailure::LoopPattern)
        } else {
            match first_long_loop(regex_captures_all(loop_pattern(), content)) {
                Some(n) => Some(CheckFailure::Iterations(n)),
                None => if nesting_depth(content) > 20 {
                    Some(CheckFailure::Nesting(nesting_depth(content)))
                } else {
                    None
                },
            }
        },
    }
}

/// What the syntax checks find wrong with a template: its size, then the
/// security checks, then whether it parses.
pub open spec fn syntax_failure(ps: Seq<Seq<char>>, max: nat, content: Seq<char>) -> Option<CheckFailure> {
    if utf8_len(content) > max {
        Some(CheckFailure::TooLarge(utf8_len(content), max))
    } else {
        match security_failure(ps, content) {
            Some(f) => Some(f),
            None => if !template_parses(content) {
                Some(CheckFailure::Syntax)
            } else {
                None
            },
        }
    }
}

/// How complex a template is: its lines, twice its blocks, its output
/// expressions and half its filters.
pub open spec fn complexity_score(content: Seq<char>) -> int {
    (lines(content).len() + 2 * count_matches(content, "{% "@) + count_matches(content, "{{ "@) + count_matches(content, " | "@) / 2) as int
}

pub open spec fn complexity_of(content: Seq<char>) -> TemplateComplexity {
    if complexity_score(content) > 200 {
        TemplateComplexity::High
    } else if complexity_score(content) > 50 {
        TemplateComplexity::Medium
    } else {
        TemplateComplexity::Low
    }
}

/// The byte length of a string's UTF-8 encoding.
pub fn byte_len(s: &[char]) -> (n: u128)
    ensures
        n == utf8_len(s@),
{
    let mut n: u128 = 0;
    let mut i: usize = 0;
    while i < s.len()
        invariant
            i <= s@.len(),
            n == utf8_len(s@.take(i as int)),
            n <= 4 * i,
        decreases s.len() - i,
    {
        let c = s[i];
        let w: u128 = if (c as u32) < 0x80 {
            1
        } else if (c as u32) < 0x800 {
            2
        } else if (c as u32) < 0x10000 {
            3
        } else {
            4
        };
        proof {
            assert(s@.take(i + 1).drop_last() =~= s@.take(i as int));
            assert(w == utf8_width(c));
        }
        n = n + w;
        i = i + 1;
    }
    assert(s@.take(i as int) =~= s@);
    n
}

fn number_or_zero_exec(s: &String) -> (n: u64)
    ensures
        n == number_or_zero(s@),
{
    let cs = str_to_chars(s.as_str());
    match parse_u64_exec(cs.as_slice()) {
        Some(n) => n,
        None => 0,
    }
}

impl TemplateValidator {
    /// Create a new template validator: the default forbidden patterns, at
    /// most 1 MiB of template, five seconds of rendering.
    pub fn new() -> (v: Self)
        ensures
            strs(v.forbidden_patterns@) == default_forbidden_patterns(),
            v.max_template_size == 1048576,
            v.max_render_time_ms == 5000,
    {
        let mut ps: Vec<String> = Vec::new();
        ps.push("__import__".to_string());
        ps.push("open\\s*\\(".to_string());
        ps.push("file\\s*\\(".to_string());
        ps.push("exec\\s*\\(".to_string());
        ps.push("eval\\s*\\(".to_string());
        ps.push("system\\s*\\(".to_string());
        ps.push("subprocess".to_string());
        ps.push("os\\.".to_string());
        ps.push("urllib".to_string());
        ps.push("requests".to_string());
        ps.push("socket".to_string());
        ps.push("globals\\s*\\(".to_string());
        ps.push("locals\\s*\\(".to_string());
        ps.push("vars\\s*\\(".to_string());
        ps.push("dir\\s*\\(".to_string());
        ps.push("getattr\\s*\\(".to_string());
        ps.push("setattr\\s*\\(".to_string());
        ps.push("delattr\\s*\\(".to_string());
        ps.push("hasattr\\s*\\(".to_string());
        ps.push("compile\\s*\\(".to_string());
        ps.push("__class__".to_string());
        ps.push("__bases__".to_string());
        ps.push("__subclasses__".to_string());
        ps.push("__module__".to_string());
        ps.push("__globals__".to_string());
        ps.push("__dict__".to_string());
        ps.push("\\{\\{.*\\{%".to_string());
        ps.push("\\{%.*\\{\\{".to_string());
        assert(strs(ps@) =~= default_forbidden_patterns());
        TemplateValidator { forbidden_patterns: ps, max_template_size: 1048576, max_render_time_ms: 5000 }
    }

    /// Create a validator with custom limits and the default patterns
    pub fn with_settings(max_template_size: usize, max_render_time_ms: u64) -> (v: Self)
        ensures
            strs(v.forbidden_patterns@) == default_forbidden_patterns(),
            v.max_template_size == max_template_size,
            v.max_render_time_ms == max_render_time_ms,
    {
        let mut v = Self::new();
        v.max_template_size = max_template_size;
        v.max_render_time_ms = max_render_time_ms;
        v
    }

    fn check_forbidden(&self, content: &str) -> (r: Option<String>)
        ensures
            crate::patterns::opt_view(r) == first_forbidden(strs(self.forbidden_patterns@), content@),
    {
        let ghost ps = strs(self.forbidden_patterns@);
        let mut i: usize = 0;
        assert(ps.skip(0) =~= ps);
        while i < self.forbidden_patterns.len()
            invariant
                i <= self.forbidden_patterns@.len(),
                ps == strs(self.forbidden_patterns@),
                first_forbidden(ps, content@) == first_forbidden(ps.skip(i as int), content@),
            decreases self.forbidden_patterns.len() - i,
        {
            let p = &self.forbidden_patterns[i];
            proof {
                assert(ps.skip(i as int)[0] == p@);
                assert(ps.skip(i as int).drop_first() =~= ps.skip(i + 1));
            }
            match regex_is_match(p.as_str(), content) {
                Some(true) => {
                    return Some(p.clone());
                },
                _ => {},
            }
            i = i + 1;
        }
        None
    }

    /// Validate that loops are safe: no `range` loop over more than 10,000
    /// iterations.
    pub fn validate_loop_safety(&self, content: &str) -> (r: Result<(), TemplateCheckError>)
        ensures
            !regex_valid(loop_pattern()) ==> r == Err::<(), TemplateCheckError>(TemplateCheckError::LoopPattern),
            regex_valid(loop_pattern()) ==> match first_long_loop(regex_captures_all(loop_pattern(), content@)) {
                Some(n) => r matches Err(TemplateCheckError::TooManyIterations(k)) && k as nat == n,
                None => r is Ok,
            },
    {
        let caps = match regex_all_captures("\\{%\\s*for\\s+\\w+\\s+in\\s+range\\s*\\(\\s*(\\d+)\\s*(?:,\\s*(\\d+))?\\s*\\)", content) {
            None => {
                return Err(TemplateCheckError::LoopPattern);
            },
            Some(c) => c,
        };
        let ghost cv = caps@.map_values(|g: Vec<Option<String>>| groups_view(g@));
        let mut i: usize = 0;
        assert(cv.skip(0) =~= cv);
        while i < caps.len()
            invariant
                i <= caps@.len(),
                cv == caps@.map_values(|g: Vec<Option<String>>| groups_view(g@)),
                cv == regex_captures_all(loop_pattern(), content@),
                regex_valid(loop_pattern()),
                first_long_loop(cv) == first_long_loop(cv.skip(i as int)),
            decreases caps.len() - i,
        {
            let g = &caps[i];
            let ghost gv = groups_view(g@);
            let start: u64 = if 1 < g.len() {
                match &g[1] {
                    Some(s) => number_or_zero_exec(s),
                    None => 0,
                }
            } else {
                0
            };
            let end: u64 = if 2 < g.len() {
                match &g[2] {
                    Some(s) => number_or_zero_exec(s),
                    None => start,
                }
            } else {
                start
            };
            let iterations = if end > start {
                end - start
            } else {
                start
            };
            proof {
                assert(cv.skip(i as int)[0] == gv);
                assert(cv.skip(i as int).drop_first() =~= cv.skip(i + 1));
                assert(iterations == loop_iterations(gv));
            }
            if iterations > 10000 {
                return Err(TemplateCheckError::TooManyIterations(iterations));
            }
            i = i + 1;
        }
        Ok(())
    }

    /// The deepest nesting of blocks.
    pub fn nesting_depth(&self, content: &str) -> (d: i128)
        ensures
            d == nesting_depth(content@),
    {
        let cs = str_to_chars(content);
        let n = cs.len();
        let mut depth: i128 = 0;
        let mut maxd: i128 = 0;
        let mut i: usize = 0;
        while i < n
            invariant
                n == cs@.len(),
                i <= n,
                -(i as int) - 1 <= depth <= i,
                0 <= maxd <= i,
                scan_blocks(cs@, 0, 0, 0) == scan_blocks(cs@, i as int, depth as int, maxd as int),
            decreases n - i,
        {
            if i + 1 < n && cs[i] == '{' && cs[i + 1] == '%' {
                let mut j: usize = i + 2;
                proof {
                    lemma_next_percent(cs@, (i + 2) as int);
                }
                while j < n && cs[j] != '%'
                    invariant
                        i + 2 <= j <= n,
                        n == cs@.len(),
                        forall|m: int| i + 2 <= m < j ==> cs@[m] != '%',
                        next_percent(cs@, (i + 2) as int) == next_percent(cs@, j as int),
                    decreases n - j,
                {
                    j = j + 1;
                }
                proof {
                    assert(j == next_percent(cs@, (i + 2) as int));
                }
                if j < n && j + 1 < n && cs[j] == '%' && cs[j + 1] == '}' {
                    let mut content_chars: Vec<char> = Vec::new();
                    let mut k: usize = i + 2;
                    while k < j
                        invariant
                            i + 2 <= k <= j < n,
                            n == cs@.len(),
                            content_chars@ == cs@.subrange(i + 2, k as int),
                        decreases j - k,
                    {
                        content_chars.push(cs[k]);
                        k = k + 1;
                        assert(content_chars@ =~= cs@.subrange(i + 2, k as int));
                    }
                    let t = trim_chars(content_chars.as_slice());
                    let e: [char; 3] = ['e', 'n', 'd'];
                    proof {
                        reveal_strlit("end");
                        assert(e@ =~= "end"@);
                    }
                    if starts_with_exec(t.as_slice(), &e) {
                        depth = if depth > -2147483648 {
                            depth - 1
                        } else {
                            depth
                        };
                    } else {
                        depth = depth + 1;
                        if depth > maxd {
                            maxd = depth;
                        }
                    }
                    i = j + 2;
                } else {
                    i = i + 1;
                }
            } else {
                i = i + 1;
            }
        }
        maxd
    }

    /// Validate template security: no forbidden pattern, no loop over more
    /// than 10,000 iterations, no nesting deeper than 20.
    pub fn validate_security(&self, template_content: &str) -> (r: Result<(), TemplateCheckError>)
        ensures
            match r {
                Ok(()) => security_failure(strs(self.forbidden_patterns@), template_content@) is None,
                Err(e) => security_failure(strs(self.forbidden_patterns@), template_content@) == Some(e.model()),
            },
    {
        match self.check_forbidden(template_content) {
            Some(p) => {
                return Err(TemplateCheckError::ForbiddenPattern(p));
            },
            None => {},
        }
        match self.validate_loop_safety(template_content) {
            Err(e) => {
                return Err(e);
            },
            Ok(()) => {},
        }
        self.validate_recursion_safety(template_content)
    }

    /// Validate variable access: names that look unsafe are only worth a
    /// warning, so no template is refused here.
    pub fn validate_variable_safety(&self, template_content: &str) -> (r: Result<(), TemplateCheckError>)
        ensures
            r is Ok,
    {
        Ok(())
    }

    /// Validate that blocks are not nested more than 20 deep.
    pub fn validate_recursion_safety(&self, template_content: &str) -> (r: Result<(), TemplateCheckError>)
        ensures
            nesting_depth(template_content@) > 20 ==> (r matches Err(TemplateCheckError::ExcessiveNesting(d)) && d
                == nesting_depth(template_content@)),
            nesting_depth(template_content@) <= 20 ==> r is Ok,
    {
        let d = self.nesting_depth(template_content);
        if d > 20 {
            return Err(TemplateCheckError::ExcessiveNesting(d));
        }
        Ok(())
    }

    /// Validate template syntax: size, security, then whether it parses.
    pub fn validate_syntax(&self, template_content: &str) -> (r: Result<(), TemplateCheckError>)
        ensures
            match r {
                Ok(()) => syntax_failure(strs(self.forbidden_patterns@), self.max_template_size as nat, template_content@) is None,
                Err(e) => syntax_failure(strs(self.forbidden_patterns@), self.max_template_size as nat, template_content@) == Some(e.model()),
            },
    {
        let cs = str_to_chars(template_content);
        let size = byte_len(cs.as_slice());
        if size > self.max_template_size as u128 {
            return Err(TemplateCheckError::TooLarge { size, max: self.max_template_size });
        }
        match self.validate_security(template_content) {
            Err(e) => {
                return Err(e);
            },
            Ok(()) => {},
        }
        if template_compile_error(template_content).is_some() {
            return Err(TemplateCheckError::Syntax);
        }
        Ok(())
    }

    /// Analyze template complexity
    pub fn analyze_complexity(&self, template_content: &str) -> (c: TemplateComplexity)
        ensures
            c == complexity_of(template_content@),
    {
        let cs = str_to_chars(template_content);
        let ls = lines_exec(cs.as_slice());
        let b: [char; 3] = ['{', '%', ' '];
        let v: [char; 3] = ['{', '{', ' '];
        let f: [char; 3] = [' ', '|', ' '];
        proof {
            reveal_strlit("{% ");
            reveal_strlit("{{ ");
            reveal_strlit(" | ");
            assert(b@ =~= "{% "@);
            assert(v@ =~= "{{ "@);
            assert(f@ =~= " | "@);
        }
        let blocks = count_matches_exec(cs.as_slice(), &b);
        let vars = count_matches_exec(cs.as_slice(), &v);
        let filters = count_matches_exec(cs.as_slice(), &f);
        let score: u128 = ls.len() as u128 + 2 * (blocks as u128) + vars as u128 + (filters as u128) / 2;
        assert(ls@.map_values(|l: Vec<char>| l@).len() == ls@.len());
        if score > 200 {
            TemplateComplexity::High
        } else if score > 50 {
            TemplateComplexity::Medium
        } else {
            TemplateComplexity::Low
        }
    }
}


/// The strings in ascending order, each once.
pub open spec fn sorted_distinct(s: Seq<Seq<char>>) -> bool {
    forall|i: int, j: int| 0 <= i < j < s.len() ==> lex_le(#[trigger] s[i], #[trigger] s[j]) && s[i] != s[j]
}

proof fn lemma_push_contains(s: Seq<Seq<char>>, a: Seq<char>, y: Seq<char>)
    ensures
        s.push(a).contains(y) <==> (s.contains(y) || y == a),
{
    if s.contains(y) {
        let k = choose|k: int| 0 <= k < s.len() && s[k] == y;
        assert(s.push(a)[k] == y);
    }
    if y == a {
        assert(s.push(a)[s.len() as int] == y);
    }
    if s.push(a).contains(y) {
        let k = choose|k: int| 0 <= k < s.push(a).len() && s.push(a)[k] == y;
        if k < s.len() {
            assert(s[k] == y);
        }
    }
}

/// The distinct strings of `v`, in ascending order.
pub fn sorted_unique(v: Vec<String>) -> (out: Vec<String>)
    ensures
        sorted_distinct(strs(out@)),
        strs(out@).to_set() == strs(v@).to_set(),
{
    let ghost orig = strs(v@);
    let sorted = sort_strings(v);
    proof {
        assert forall|x: Seq<char>| strs(sorted@).contains(x) <==> orig.contains(x) by {
            vstd::seq_lib::to_multiset_contains(strs(sorted@), x);
            vstd::seq_lib::to_multiset_contains(orig, x);
        }
    }
    let mut out: Vec<String> = Vec::new();
    let mut i: usize = 0;
    while i < sorted.len()
        invariant
            i <= sorted@.len(),
            sorted_strs(strs(sorted@)),
            sorted_distinct(strs(out@)),
            forall|x: Seq<char>| strs(out@).contains(x) <==> strs(sorted@).take(i as int).contains(x),
            i > 0 ==> out@.len() > 0 && out@.last()@ == sorted@[i - 1]@,
            i == 0 ==> out@.len() == 0,
        decreases sorted.len() - i,
    {
        let x = &sorted[i];
        let dup = out.len() > 0 && out[out.len() - 1] == *x;
        let ghost before = strs(out@);
        proof {
            assert(strs(sorted@).take(i + 1) =~= strs(sorted@).take(i as int).push(x@));
        }
        if !dup {
            out.push(x.clone());
            proof {
                assert(strs(out@) =~= before.push(x@));
                assert(strs(sorted@)[i as int] == x@);
                assert forall|a: int, b: int| 0 <= a < b < strs(out@).len() implies lex_le(#[trigger] strs(out@)[a], #[trigger] strs(out@)[b]) && strs(out@)[a] != strs(out@)[b] by {
                    if b == strs(out@).len() - 1 {
                        let last = before.len() - 1;
                        if i > 0 {
                            assert(before[last] == strs(sorted@)[i - 1]);
                            assert(lex_le(strs(sorted@)[i - 1], strs(sorted@)[i as int]));
                            if a < last {
                                crate::order::lemma_lex_le_transitive(before[a], before[last], x@);
                                if before[a] == x@ {
                                    crate::order::lemma_lex_le_antisymmetric(before[a], before[last]);
                                }
                            }
                        }
                    }
                }
                assert forall|y: Seq<char>| strs(out@).contains(y) <==> strs(sorted@).take(i + 1).contains(y) by {
                    lemma_push_contains(before, x@, y);
                    lemma_push_contains(strs(sorted@).take(i as int), x@, y);
                }
            }
        } else {
            proof {
                assert forall|y: Seq<char>| strs(out@).contains(y) <==> strs(sorted@).take(i + 1).contains(y) by {
                    lemma_push_contains(strs(sorted@).take(i as int), x@, y);
                    if y == x@ {
                        assert(strs(out@)[strs(out@).len() - 1] == y);
                    }
                }
            }
        }
        i = i + 1;
    }
    proof {
        assert(strs(sorted@).take(i as int) =~= strs(sorted@));
        assert(strs(out@).to_set() =~= orig.to_set());
    }
    out
}

pub open spec fn variable_pattern() -> Seq<char> {
    "\\{\\{\\s*([^}|]+)(?:\\s*\\|[^}]*)?\\s*\\}\\}"@
}

pub open spec fn filter_pattern() -> Seq<char> {
    "\\|\\s*([a-zA-Z_][a-zA-Z0-9_]*)"@
}

/// The base name of each output expression: group 1, trimmed, up to its
/// first dot.
pub open spec fn variable_names(content: Seq<char>) -> Seq<Seq<char>> {
    crate::template::driven_slicing::captured(variable_pattern(), content).map_values(
        |g: Seq<char>| split_char(trim(g), '.')[0],
    )
}

pub open spec fn filter_names(content: Seq<char>) -> Seq<Seq<char>> {
    crate::template::driven_slicing::captured(filter_pattern(), content)
}

impl TemplateValidator {
    /// The variables a template uses, sorted, each once; `None` when the
    /// pattern does not compile.
    pub fn extract_variables(&self, template_content: &str) -> (r: Option<Vec<String>>)
        ensures
            r is None <==> !regex_valid(variable_pattern()),
            r matches Some(v) ==> sorted_distinct(strs(v@)) && strs(v@).to_set() == variable_names(template_content@).to_set(),
    {
        let caps = match regex_all_captures("\\{\\{\\s*([^}|]+)(?:\\s*\\|[^}]*)?\\s*\\}\\}", template_content) {
            None => {
                return None;
            },
            Some(c) => c,
        };
        let mut raw: Vec<String> = Vec::new();
        crate::template::driven_slicing::captured_into(&caps, &mut raw);
        let ghost rv = strs(raw@);
        assert(rv == crate::template::driven_slicing::captured(variable_pattern(), template_content@));
        let mut names: Vec<String> = Vec::new();
        let mut i: usize = 0;
        while i < raw.len()
            invariant
                i <= raw@.len(),
                rv == strs(raw@),
                strs(names@) == rv.take(i as int).map_values(|g: Seq<char>| split_char(trim(g), '.')[0]),
            decreases raw.len() - i,
        {
            let cs = str_to_chars(raw[i].as_str());
            let t = trim_chars(cs.as_slice());
            let parts = split_char_exec(t.as_slice(), '.');
            proof {
                crate::text::lemma_split_char_nonempty(t@, '.');
            }
            let first = chars_to_string(parts[0].as_slice());
            let ghost before = strs(names@);
            names.push(first);
            proof {
                assert(parts@.map_values(|l: Vec<char>| l@)[0] == parts@[0]@);
                assert(strs(names@) =~= before.push(first@));
                assert(rv.take(i + 1) =~= rv.take(i as int).push(rv[i as int]));
            }
            i = i + 1;
        }
        assert(rv.take(i as int) =~= rv);
        Some(sorted_unique(names))
    }

    /// The filters a template uses, sorted, each once; `None` when the
    /// pattern does not compile.
    pub fn extract_filters(&self, template_content: &str) -> (r: Option<Vec<String>>)
        ensures
            r is None <==> !regex_valid(filter_pattern()),
            r matches Some(v) ==> sorted_distinct(strs(v@)) && strs(v@).to_set() == filter_names(template_content@).to_set(),
    {
        let caps = match regex_all_captures("\\|\\s*([a-zA-Z_][a-zA-Z0-9_]*)", template_content) {
            None => {
                return None;
            },
            Some(c) => c,
        };
        let mut raw: Vec<String> = Vec::new();
        crate::template::driven_slicing::captured_into(&caps, &mut raw);
        Some(sorted_unique(raw))
    }
}


/// Template validation result
#[derive(Debug, Clone)]
pub struct ValidationResult {
    /// Whether template syntax is valid
    pub syntax_valid: bool,
    /// Whether template passes security checks
    pub security_valid: bool,
    /// Overall validation status
    pub overall_valid: bool,
    /// List of validation errors
    pub errors: Vec<String>,
    /// Template complexity assessment
    pub complexity: TemplateComplexity,
    /// Variables used in template
    pub variables: Vec<String>,
    /// Filters used in template
    pub filters: Vec<String>,
}

impl TemplateValidator {
    /// Validate template with comprehensive checks: syntax, security,
    /// complexity, and the variables and filters it uses. `Err` when the
    /// variable or filter pattern does not compile.
    pub fn validate_comprehensive(&self, template_content: &str) -> (r: Result<ValidationResult, TemplateCheckError>)
        ensures
            r is Err <==> !regex_valid(variable_pattern()) || !regex_valid(filter_pattern()),
            r matches Err(e) ==> e == TemplateCheckError::ExtractPattern,
            r matches Ok(v) ==> {
                let ps = strs(self.forbidden_patterns@);
                let syn = syntax_failure(ps, self.max_template_size as nat, template_content@);
                let sec = security_failure(ps, template_content@);
                &&& v.syntax_valid == syn is None
                &&& v.security_valid == sec is None
                &&& v.overall_valid == (v.syntax_valid && v.security_valid)
                &&& v.complexity == complexity_of(template_content@)
                &&& strs(v.errors@) == reported_errors(syn, sec)
                &&& sorted_distinct(strs(v.variables@))
                &&& strs(v.variables@).to_set() == variable_names(template_content@).to_set()
                &&& sorted_distinct(strs(v.filters@))
                &&& strs(v.filters@).to_set() == filter_names(template_content@).to_set()
            },
    {
        let mut errors: Vec<String> = Vec::new();
        let syntax_valid = match self.validate_syntax(template_content) {
            Ok(()) => true,
            Err(e) => {
                let m = e.message();
                errors.push(cat2("Syntax error: ", m.as_str()));
                false
            },
        };
        let security_valid = match self.validate_security(template_content) {
            Ok(()) => true,
            Err(e) => {
                let m = e.message();
                errors.push(cat2("Security error: ", m.as_str()));
                false
            },
        };
        proof {
            let ps = strs(self.forbidden_patterns@);
            assert(strs(errors@) =~= reported_errors(
                syntax_failure(ps, self.max_template_size as nat, template_content@),
                security_failure(ps, template_content@),
            ));
        }
        let complexity = self.analyze_complexity(template_content);
        let variables = match self.extract_variables(template_content) {
            Some(v) => v,
            None => {
                return Err(TemplateCheckError::ExtractPattern);
            },
        };
        let filters = match self.extract_filters(template_content) {
            Some(f) => f,
            None => {
                return Err(TemplateCheckError::ExtractPattern);
            },
        };
        Ok(ValidationResult {
            syntax_valid,
            security_valid,
            overall_valid: syntax_valid && security_valid,
            errors,
            complexity,
            variables,
            filters,
        })
    }
}

impl Default for TemplateValidator {
    fn default() -> (v: Self)
        ensures
            strs(v.forbidden_patterns@) == default_forbidden_patterns(),
            v.max_template_size == 1048576,
            v.max_render_time_ms == 5000,
    {
        Self::new()
    }
}


/// A template that passes the syntax checks passes the security checks, is
/// no larger than allowed, and parses.
pub proof fn law_syntax_implies_security(ps: Seq<Seq<char>>, max: nat, content: Seq<char>)
    ensures
        syntax_failure(ps, max, content) is None ==> security_failure(ps, content) is None && utf8_len(content) <= max
            && template_parses(content),
        security_failure(ps, content) matches Some(f) ==> (utf8_len(content) <= max ==> syntax_failure(ps, max, content)
            == Some(f)),
{
}

/// The text, when there is one, reads as the number `n`.
pub open spec fn reads_as(o: Option<Seq<char>>, n: u64) -> bool {
    o matches Some(x) && parse_u64(x) == Some(n)
}

/// For loops written `range(a, b)` with `a < b`, the loop check counts
/// `b - a` iterations: the loops are accepted exactly when each runs at
/// most 10,000 times, and the first that runs more is the one reported,
/// with its `b - a`.
pub proof fn law_two_bound_ranges_count_their_length(caps: Seq<Seq<Option<Seq<char>>>>, starts: Seq<u64>, ends: Seq<u64>)
    requires
        starts.len() == caps.len(),
        ends.len() == caps.len(),
        forall|k: int|
            0 <= k < caps.len() ==> reads_as(#[trigger] group(caps[k], 1), starts[k]),
        forall|k: int|
            0 <= k < caps.len() ==> reads_as(#[trigger] group(caps[k], 2), ends[k]),
        forall|k: int| 0 <= k < caps.len() ==> #[trigger] starts[k] < ends[k],
    ensures
        first_long_loop(caps) is None <==> forall|k: int| 0 <= k < caps.len() ==> #[trigger] ends[k] - starts[k] <= 10000,
        forall|k: int|
            0 <= k < caps.len() && #[trigger] ends[k] - starts[k] > 10000 && (forall|j: int| 0 <= j < k ==> ends[j] - starts[j] <= 10000)
                ==> first_long_loop(caps) == Some((ends[k] - starts[k]) as nat),
    decreases caps.len(),
{
    if caps.len() > 0 {
        assert(reads_as(group(caps[0], 1), starts[0]));
        assert(reads_as(group(caps[0], 2), ends[0]));
        assert(starts[0] < ends[0]);
        assert(loop_iterations(caps[0]) == ends[0] - starts[0]);
        let rc = caps.drop_first();
        let rs = starts.drop_first();
        let re = ends.drop_first();
        assert forall|k: int| 0 <= k < rc.len() implies reads_as(#[trigger] group(rc[k], 1), rs[k]) by {
            assert(rc[k] == caps[k + 1]);
            assert(reads_as(group(caps[k + 1], 1), starts[k + 1]));
        }
        assert forall|k: int| 0 <= k < rc.len() implies reads_as(#[trigger] group(rc[k], 2), re[k]) by {
            assert(rc[k] == caps[k + 1]);
            assert(reads_as(group(caps[k + 1], 2), ends[k + 1]));
        }
        assert forall|k: int| 0 <= k < rc.len() implies #[trigger] rs[k] < re[k] by {
            assert(starts[k + 1] < ends[k + 1]);
        }
        law_two_bound_ranges_count_their_length(rc, rs, re);
        if first_long_loop(caps) is None {
            assert forall|k: int| 0 <= k < caps.len() implies #[trigger] ends[k] - starts[k] <= 10000 by {
                if k > 0 {
                    assert(re[k - 1] - rs[k - 1] <= 10000);
                }
            }
        }
        if forall|k: int| 0 <= k < caps.len() ==> #[trigger] ends[k] - starts[k] <= 10000 {
            assert(ends[0] - starts[0] <= 10000);
            assert forall|k: int| 0 <= k < rc.len() implies #[trigger] re[k] - rs[k] <= 10000 by {
                assert(ends[k + 1] - starts[k + 1] <= 10000);
            }
        }
        assert forall|k: int|
            0 <= k < caps.len() && #[trigger] ends[k] - starts[k] > 10000 && (forall|j: int| 0 <= j < k ==> ends[j] - starts[j] <= 10000)
                implies first_long_loop(caps) == Some((ends[k] - starts[k]) as nat) by {
            if k > 0 {
                assert(ends[0] - starts[0] <= 10000);
                assert(re[k - 1] - rs[k - 1] > 10000);
                assert forall|j: int| 0 <= j < k - 1 implies re[j] - rs[j] <= 10000 by {
                    assert(ends[j + 1] - starts[j + 1] <= 10000);
                }
            }
        }
    }
}

/// For loops written `range(n)`, the loop check counts `n` iterations: the
/// loops are accepted exactly when each runs at most 10,000 times, and the
/// first that runs more is the one reported, with its `n`.
pub proof fn law_one_bound_ranges_count_their_bound(caps: Seq<Seq<Option<Seq<char>>>>, bounds: Seq<u64>)
    requires
        bounds.len() == caps.len(),
        forall|k: int|
            0 <= k < caps.len() ==> reads_as(#[trigger] group(caps[k], 1), bounds[k]),
        forall|k: int| 0 <= k < caps.len() ==> (#[trigger] group(caps[k], 2)) is None,
    ensures
        first_long_loop(caps) is None <==> forall|k: int| 0 <= k < caps.len() ==> #[trigger] bounds[k] <= 10000,
        forall|k: int|
            0 <= k < caps.len() && #[trigger] bounds[k] > 10000 && (forall|j: int| 0 <= j < k ==> bounds[j] <= 10000)
                ==> first_long_loop(caps) == Some(bounds[k] as nat),
    decreases caps.len(),
{
    if caps.len() > 0 {
        assert(reads_as(group(caps[0], 1), bounds[0]));
        assert(group(caps[0], 2) is None);
        assert(loop_iterations(caps[0]) == bounds[0]);
        let rc = caps.drop_first();
        let rb = bounds.drop_first();
        assert forall|k: int| 0 <= k < rc.len() implies reads_as(#[trigger] group(rc[k], 1), rb[k]) by {
            assert(rc[k] == caps[k + 1]);
            assert(reads_as(group(caps[k + 1], 1), bounds[k + 1]));
        }
        assert forall|k: int| 0 <= k < rc.len() implies (#[trigger] group(rc[k], 2)) is None by {
            assert(rc[k] == caps[k + 1]);
            assert(group(caps[k + 1], 2) is None);
        }
        law_one_bound_ranges_count_their_bound(rc, rb);
        if first_long_loop(caps) is None {
            assert forall|k: int| 0 <= k < caps.len() implies #[trigger] bounds[k] <= 10000 by {
                if k > 0 {
                    assert(rb[k - 1] <= 10000);
                }
            }
        }
        if forall|k: int| 0 <= k < caps.len() ==> #[trigger] bounds[k] <= 10000 {
            assert(bounds[0] <= 10000);
            assert forall|k: int| 0 <= k < rb.len() implies #[trigger] rb[k] <= 10000 by {
                assert(bounds[k + 1] <= 10000);
            }
        }
        assert forall|k: int|
            0 <= k < caps.len() && #[trigger] bounds[k] > 10000 && (forall|j: int| 0 <= j < k ==> bounds[j] <= 10000)
                implies first_long_loop(caps) == Some(bounds[k] as nat) by {
            if k > 0 {
                assert(bounds[0] <= 10000);
                assert(rb[k - 1] > 10000);
                assert forall|j: int| 0 <= j < k - 1 implies rb[j] <= 10000 by {
                    assert(bounds[j + 1] <= 10000);
                }
            }
        }
    }
}

} // verus!
