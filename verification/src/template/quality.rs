//! Template quality analysis: linting, performance estimates, security
//! scanning, documentation, and the scores that sum them up.

use vstd::prelude::*;
use crate::time::{Span, now_since_epoch};
use crate::template::header::{header_accepted, HeaderParser, MatchPattern, PatternKind, ScopeModel, TemplateHeader, TemplateScope};
use crate::patterns::{
    opt_view, regex_count, regex_is_match, regex_match_count, regex_matches, regex_valid, template_compile_error, template_error_text,
    template_parses,
};
use crate::template::driven_slicing::{captured, captured_into};
use crate::template::filters::utf8_len;
use crate::template::slice::{cat2, cat4};
use crate::template::validation::byte_len;
use crate::text::{
    chars_to_string, contains, contains_exec, count_matches, count_matches_exec, decimal, decimal_string, is_uppercase,
    lines, lines_exec, starts_with, starts_with_exec, str_to_chars, strs, trim, trim_chars, debug_quoted,
    debug_quoted_str, join, join_exec, opt_strs, push_all, push_str, string_chars,
};

verus! {

/// Configuration for template quality analysis
#[derive(Debug, Clone, Copy)]
pub struct QualityAnalysisConfig {
    /// Enable template linting
    pub enable_linting: bool,
    /// Enable performance analysis
    pub enable_performance_analysis: bool,
    /// Enable security scanning
    pub enable_security_scanning: bool,
    /// Enable documentation generation
    pub enable_documentation_generation: bool,
    /// Maximum template complexity score allowed
    pub max_complexity_score: u32,
    /// Maximum template size in bytes
    pub max_template_size: usize,
    /// Timeout for individual template analysis
    pub analysis_timeout: Span,
    /// Include detailed explanations in results
    pub verbose_output: bool,
}

impl Default for QualityAnalysisConfig {
    /// Every analysis on, a complexity of at most 100, templates of at most
    /// 1 MiB, thirty seconds per template, terse output.
    fn default() -> (c: Self)
        ensures
            c.enable_linting && c.enable_performance_analysis && c.enable_security_scanning
                && c.enable_documentation_generation,
            c.max_complexity_score == 100,
            c.max_template_size == 1048576,
            c.analysis_timeout.nanos == 30_000_000_000,
            !c.verbose_output,
    {
        QualityAnalysisConfig {
            enable_linting: true,
            enable_performance_analysis: true,
            enable_security_scanning: true,
            enable_documentation_generation: true,
            max_complexity_score: 100,
            max_template_size: 1048576,
            analysis_timeout: Span::from_secs(30),
            verbose_output: false,
        }
    }
}

/// Linting error severity levels
#[derive(Debug, Clone, Copy, PartialEq, Eq, Structural)]
pub enum LintErrorSeverity {
    Error,
    Warning,
    Info,
}

/// Security severity levels
#[derive(Debug, Clone, Copy, PartialEq, Eq, Structural)]
pub enum SecuritySeverity {
    Low,
    Medium,
    High,
    Critical,
}

/// Linting error
#[derive(Debug, Clone)]
pub struct LintError {
    pub severity: LintErrorSeverity,
    pub error_type: String,
    pub message: String,
    pub line_number: Option<usize>,
}

impl LintError {
    pub fn new(severity: LintErrorSeverity, error_type: String, message: String, line_number: Option<usize>) -> (e: Self)
        ensures
            e.severity == severity,
            e.error_type == error_type,
            e.message == message,
            e.line_number == line_number,
    {
        LintError { severity, error_type, message, line_number }
    }
}

/// Linting warning
#[derive(Debug, Clone)]
pub struct LintWarning {
    pub warning_type: String,
    pub message: String,
    pub suggestion: Option<String>,
}

/// Type, message and suggestion of a warning.
pub type WarningModel = (Seq<char>, Seq<char>, Option<Seq<char>>);

impl LintWarning {
    pub fn new(warning_type: String, message: String, suggestion: Option<String>) -> (w: Self)
        ensures
            w.warning_type == warning_type,
            w.message == message,
            w.suggestion == suggestion,
    {
        LintWarning { warning_type, message, suggestion }
    }

    pub open spec fn model(self) -> WarningModel {
        (self.warning_type@, self.message@, crate::patterns::opt_view(self.suggestion))
    }
}

/// Template linting results
#[derive(Debug, Clone)]
pub struct TemplateLintingResults {
    pub syntax_valid: bool,
    pub complexity_score: u32,
    pub total_issues: usize,
    pub errors: Vec<LintError>,
    pub warnings: Vec<LintWarning>,
}

impl TemplateLintingResults {
    pub fn new() -> (r: Self)
        ensures
            !r.syntax_valid,
            r.complexity_score == 0,
            r.total_issues == 0,
            r.errors@.len() == 0,
            r.warnings@.len() == 0,
    {
        TemplateLintingResults { syntax_valid: false, complexity_score: 0, total_issues: 0, errors: Vec::new(), warnings: Vec::new() }
    }
}

/// Optimization suggestion
#[derive(Debug, Clone)]
pub struct OptimizationSuggestion {
    pub suggestion_type: String,
    pub description: String,
    pub recommendation: String,
}

impl OptimizationSuggestion {
    pub fn new(suggestion_type: String, description: String, recommendation: String) -> (s: Self)
        ensures
            s.suggestion_type == suggestion_type,
            s.description == description,
            s.recommendation == recommendation,
    {
        OptimizationSuggestion { suggestion_type, description, recommendation }
    }

    pub open spec fn model(self) -> (Seq<char>, Seq<char>, Seq<char>) {
        (self.suggestion_type@, self.description@, self.recommendation@)
    }
}

/// Rendering performance estimates
#[derive(Debug, Clone)]
pub struct RenderingPerformanceEstimate {
    pub variable_count: usize,
    pub loop_count: usize,
    pub condition_count: usize,
    pub filter_count: usize,
    pub estimated_render_time: Span,
    /// "fast", "moderate" or "slow"
    pub performance_category: String,
}

impl RenderingPerformanceEstimate {
    pub fn new() -> (e: Self)
        ensures
            e.variable_count == 0,
            e.loop_count == 0,
            e.condition_count == 0,
            e.filter_count == 0,
            e.estimated_render_time.nanos == 0,
            e.performance_category@ == "unknown"@,
    {
        RenderingPerformanceEstimate {
            variable_count: 0,
            loop_count: 0,
            condition_count: 0,
            filter_count: 0,
            estimated_render_time: Span::zero(),
            performance_category: "unknown".to_string(),
        }
    }
}

/// Template performance analysis results
#[derive(Debug, Clone)]
pub struct TemplatePerformanceAnalysis {
    pub template_size_bytes: u128,
    pub line_count: usize,
    pub compilation_successful: bool,
    pub compilation_time: Option<Span>,
    pub compilation_error: Option<String>,
    pub rendering_estimates: Option<RenderingPerformanceEstimate>,
    pub estimated_memory_usage: usize,
    pub optimization_suggestions: Vec<OptimizationSuggestion>,
}

impl TemplatePerformanceAnalysis {
    pub fn new() -> (a: Self)
        ensures
            a.template_size_bytes == 0,
            a.line_count == 0,
            !a.compilation_successful,
            a.compilation_time is None,
            a.compilation_error is None,
            a.rendering_estimates is None,
            a.estimated_memory_usage == 0,
            a.optimization_suggestions@.len() == 0,
    {
        TemplatePerformanceAnalysis {
            template_size_bytes: 0,
            line_count: 0,
            compilation_successful: false,
            compilation_time: None,
            compilation_error: None,
            rendering_estimates: None,
            estimated_memory_usage: 0,
            optimization_suggestions: Vec::new(),
        }
    }
}

/// Security issue
#[derive(Debug, Clone)]
pub struct SecurityIssue {
    pub severity: SecuritySeverity,
    pub issue_type: String,
    pub message: String,
    pub recommendation: Option<String>,
}

impl SecurityIssue {
    pub fn new(severity: SecuritySeverity, issue_type: String, message: String, recommendation: Option<String>) -> (i: Self)
        ensures
            i.severity == severity,
            i.issue_type == issue_type,
            i.message == message,
            i.recommendation == recommendation,
    {
        SecurityIssue { severity, issue_type, message, recommendation }
    }
}

/// Dangerous pattern detection
#[derive(Debug, Clone)]
pub struct DangerousPattern {
    pub pattern_type: String,
    pub description: String,
    pub severity: SecuritySeverity,
}

impl DangerousPattern {
    pub fn new(pattern_type: String, description: String, severity: SecuritySeverity) -> (p: Self)
        ensures
            p.pattern_type == pattern_type,
            p.description == description,
            p.severity == severity,
    {
        DangerousPattern { pattern_type, description, severity }
    }

    pub open spec fn model(self) -> (Seq<char>, Seq<char>, SecuritySeverity) {
        (self.pattern_type@, self.description@, self.severity)
    }
}

/// Sensitive data exposure risk
#[derive(Debug, Clone)]
pub struct SensitiveDataRisk {
    pub risk_type: String,
    pub description: String,
    pub severity: SecuritySeverity,
}

impl SensitiveDataRisk {
    pub fn new(risk_type: String, description: String, severity: SecuritySeverity) -> (r: Self)
        ensures
            r.risk_type == risk_type,
            r.description == description,
            r.severity == severity,
    {
        SensitiveDataRisk { risk_type, description, severity }
    }

    pub open spec fn model(self) -> (Seq<char>, Seq<char>, SecuritySeverity) {
        (self.risk_type@, self.description@, self.severity)
    }
}

/// Input validation issue
#[derive(Debug, Clone)]
pub struct InputValidationIssue {
    pub issue_type: String,
    pub description: String,
    pub severity: SecuritySeverity,
    pub recommendation: Option<String>,
}

impl InputValidationIssue {
    pub fn new(issue_type: String, description: String, severity: SecuritySeverity, recommendation: Option<String>) -> (i: Self)
        ensures
            i.issue_type == issue_type,
            i.description == description,
            i.severity == severity,
            i.recommendation == recommendation,
    {
        InputValidationIssue { issue_type, description, severity, recommendation }
    }
}

/// Template security scan results
#[derive(Debug, Clone)]
pub struct TemplateSecurityScan {
    pub security_validation_passed: bool,
    pub total_security_issues: usize,
    pub security_issues: Vec<SecurityIssue>,
    pub dangerous_patterns: Vec<DangerousPattern>,
    pub sensitive_data_risks: Vec<SensitiveDataRisk>,
    pub input_validation_issues: Vec<InputValidationIssue>,
}

impl TemplateSecurityScan {
    pub fn new() -> (s: Self)
        ensures
            !s.security_validation_passed,
            s.total_security_issues == 0,
            s.security_issues@.len() == 0,
            s.dangerous_patterns@.len() == 0,
            s.sensitive_data_risks@.len() == 0,
            s.input_validation_issues@.len() == 0,
    {
        TemplateSecurityScan {
            security_validation_passed: false,
            total_security_issues: 0,
            security_issues: Vec::new(),
            dangerous_patterns: Vec::new(),
            sensitive_data_risks: Vec::new(),
            input_validation_issues: Vec::new(),
        }
    }
}

/// Template section
#[derive(Debug, Clone)]
pub struct TemplateSection {
    pub name: String,
    pub start_line: usize,
    pub end_line: usize,
    pub line_count: usize,
}

/// Template structure analysis
#[derive(Debug, Clone)]
pub struct TemplateStructure {
    pub total_lines: usize,
    pub template_blocks: usize,
    pub output_expressions: usize,
    pub comments: usize,
    pub sections: Vec<TemplateSection>,
}

impl TemplateStructure {
    pub fn new() -> (s: Self)
        ensures
            s.total_lines == 0,
            s.template_blocks == 0,
            s.output_expressions == 0,
            s.comments == 0,
            s.sections@.len() == 0,
    {
        TemplateStructure { total_lines: 0, template_blocks: 0, output_expressions: 0, comments: 0, sections: Vec::new() }
    }
}

/// A value in an example rendering context.
#[derive(Debug, Clone, PartialEq)]
pub enum ExampleValue {
    Text(String),
    Number(i64),
    Flag(bool),
    List(Vec<String>),
}

/// Template variable documentation
#[derive(Debug, Clone)]
pub struct TemplateVariable {
    pub name: String,
    pub variable_type: String,
    pub description: Option<String>,
    pub required: bool,
    pub default_value: Option<ExampleValue>,
}

/// Usage example for template
#[derive(Debug, Clone)]
pub struct UsageExample {
    pub title: String,
    pub description: String,
    pub context: Vec<(String, ExampleValue)>,
    pub expected_output: Option<String>,
}

/// Template documentation
#[derive(Debug, Clone)]
pub struct TemplateDocumentation {
    pub metadata: Option<TemplateHeader>,
    pub variables: Vec<TemplateVariable>,
    pub usage_examples: Vec<UsageExample>,
    pub template_structure: TemplateStructure,
    pub markdown_content: String,
}

impl TemplateDocumentation {
    pub fn new() -> (d: Self)
        ensures
            d.metadata is None,
            d.variables@.len() == 0,
            d.usage_examples@.len() == 0,
            d.template_structure.total_lines == 0,
            d.template_structure.template_blocks == 0,
            d.template_structure.output_expressions == 0,
            d.template_structure.comments == 0,
            d.template_structure.sections@.len() == 0,
            d.markdown_content@.len() == 0,
    {
        TemplateDocumentation {
            metadata: None,
            variables: Vec::new(),
            usage_examples: Vec::new(),
            template_structure: TemplateStructure::new(),
            markdown_content: String::new(),
        }
    }
}

/// Complete quality analysis report for a single template
#[derive(Debug, Clone)]
pub struct TemplateQualityReport {
    /// Path to the analyzed template
    pub template_path: String,
    /// Overall quality score (0-100)
    pub overall_score: u32,
    /// Time taken for analysis
    pub analysis_duration: Span,
    pub linting_results: Option<TemplateLintingResults>,
    pub performance_analysis: Option<TemplatePerformanceAnalysis>,
    pub security_scan: Option<TemplateSecurityScan>,
    pub documentation: Option<TemplateDocumentation>,
}

/// `a - b`, or 0 when `b` is larger.
pub open spec fn sat_sub(a: int, b: int) -> int {
    if a >= b {
        a - b
    } else {
        0
    }
}

/// `a + b`, capped at the 32-bit maximum.
pub open spec fn sat_add(a: int, b: int) -> int {
    if a + b <= u32::MAX {
        a + b
    } else {
        u32::MAX as int
    }
}

/// The overall score of a report: 100, less 30 for invalid syntax, 10 per
/// lint error and 5 per warning, 25 for a template that does not compile,
/// 15 for slow and 5 for moderate rendering, 40 for failed security
/// validation and 8 per security issue (each step stopping at 0, each
/// deduction at most the 32-bit maximum), plus 5 for metadata and 5 for
/// documented variables, at most 100 in all.
pub open spec fn overall_score_of(r: TemplateQualityReport) -> int {
    let s4 = docs_step(security_step(performance_step(linting_step(100, r.linting_results), r.performance_analysis), r.security_scan), r.documentation);
    if s4 < 100 { s4 } else { 100 }
}

pub open spec fn linting_step(s0: int, l: Option<TemplateLintingResults>) -> int {
    match l {
        Some(l) => sat_sub(sat_sub(if !l.syntax_valid { sat_sub(s0, 30) } else { s0 }, capped((l.errors@.len() * 10) as int)), capped((l.warnings@.len() * 5) as int)),
        None => s0,
    }
}

pub open spec fn performance_step(s1: int, p: Option<TemplatePerformanceAnalysis>) -> int {
    match p {
        Some(p) => {
            let a = if !p.compilation_successful { sat_sub(s1, 25) } else { s1 };
            match p.rendering_estimates {
                Some(e) => if e.performance_category@ == "slow"@ {
                    sat_sub(a, 15)
                } else if e.performance_category@ == "moderate"@ {
                    sat_sub(a, 5)
                } else {
                    a
                },
                None => a,
            }
        },
        None => s1,
    }
}

pub open spec fn security_step(s2: int, sc: Option<TemplateSecurityScan>) -> int {
    match sc {
        Some(s) => sat_sub(if !s.security_validation_passed { sat_sub(s2, 40) } else { s2 }, capped(s.total_security_issues * 8)),
        None => s2,
    }
}

pub open spec fn docs_step(s3: int, d: Option<TemplateDocumentation>) -> int {
    match d {
        Some(d) => {
            let a = if d.metadata is Some { sat_add(s3, 5) } else { s3 };
            if d.variables@.len() > 0 { sat_add(a, 5) } else { a }
        },
        None => s3,
    }
}

fn linting_step_exec(score: u32, l: &Option<TemplateLintingResults>) -> (r: u32)
    ensures
        r == linting_step(score as int, *l),
{
    let mut score = score;
    match l {
        Some(linting) => {
            if !linting.syntax_valid {
                score = score.saturating_sub(30);
            }
            score = score.saturating_sub(scaled(linting.errors.len(), 10));
            score = score.saturating_sub(scaled(linting.warnings.len(), 5));
        },
        None => {},
    }
    score
}

fn performance_step_exec(score: u32, p: &Option<TemplatePerformanceAnalysis>) -> (r: u32)
    ensures
        r == performance_step(score as int, *p),
{
    let mut score = score;
    match p {
        Some(performance) => {
            if !performance.compilation_successful {
                score = score.saturating_sub(25);
            }
            match &performance.rendering_estimates {
                Some(estimates) => {
                    if str_is(&estimates.performance_category, "slow") {
                        score = score.saturating_sub(15);
                    } else if str_is(&estimates.performance_category, "moderate") {
                        score = score.saturating_sub(5);
                    }
                },
                None => {},
            }
        },
        None => {},
    }
    score
}

fn security_step_exec(score: u32, sc: &Option<TemplateSecurityScan>) -> (r: u32)
    ensures
        r == security_step(score as int, *sc),
{
    let mut score = score;
    match sc {
        Some(security) => {
            if !security.security_validation_passed {
                score = score.saturating_sub(40);
            }
            score = score.saturating_sub(scaled(security.total_security_issues, 8));
        },
        None => {},
    }
    score
}

fn docs_step_exec(score: u32, d: &Option<TemplateDocumentation>) -> (r: u32)
    ensures
        r == docs_step(score as int, *d),
{
    let mut score = score;
    match d {
        Some(docs) => {
            if docs.metadata.is_some() {
                score = score.saturating_add(5);
            }
            if docs.variables.len() > 0 {
                score = score.saturating_add(5);
            }
        },
        None => {},
    }
    score
}

/// A deduction, capped at the 32-bit maximum.
pub open spec fn capped(x: int) -> int {
    if x <= u32::MAX {
        x
    } else {
        u32::MAX as int
    }
}

fn scaled(n: usize, k: u32) -> (r: u32)
    ensures
        r == capped(n * k),
{
    proof {
        assert((n as int) * (k as int) <= 0xFFFF_FFFF_FFFF_FFFFint * 0xFFFF_FFFFint) by (nonlinear_arith)
            requires
                n <= 0xFFFF_FFFF_FFFF_FFFFint,
                k <= 0xFFFF_FFFFint,
        ;
    }
    let x: u128 = n as u128 * k as u128;
    if x > u32::MAX as u128 {
        u32::MAX
    } else {
        x as u32
    }
}

fn str_is(s: &String, lit: &str) -> (b: bool)
    ensures
        b == (s@ == lit@),
{
    let l = lit.to_string();
    *s == l
}

impl TemplateQualityReport {
    pub fn new(template_path: String) -> (r: Self)
        ensures
            r.template_path == template_path,
            r.overall_score == 0,
            r.analysis_duration.nanos == 0,
            r.linting_results is None,
            r.performance_analysis is None,
            r.security_scan is None,
            r.documentation is None,
    {
        TemplateQualityReport {
            template_path,
            overall_score: 0,
            analysis_duration: Span::zero(),
            linting_results: None,
            performance_analysis: None,
            security_scan: None,
            documentation: None,
        }
    }

    /// Calculate overall quality score based on all analysis results
    pub fn calculate_overall_score(&mut self)
        ensures
            final(self).overall_score == overall_score_of(*old(self)),
            *final(self) == (TemplateQualityReport { overall_score: final(self).overall_score, ..*old(self) }),
    {
        let score = linting_step_exec(100, &self.linting_results);
        let score = performance_step_exec(score, &self.performance_analysis);
        let score = security_step_exec(score, &self.security_scan);
        let score = docs_step_exec(score, &self.documentation);
        self.overall_score = if score < 100 {
            score
        } else {
            100
        };
    }
}

/// Summary statistics for directory quality analysis
#[derive(Debug, Clone, Copy, PartialEq, Eq, Structural)]
pub struct DirectoryQualitySummary {
    pub total_templates: usize,
    pub failed_templates: usize,
    pub average_score: u32,
    pub highest_score: u32,
    pub lowest_score: u32,
    /// Scores 90-100
    pub excellent_templates: usize,
    /// Scores 75-89
    pub good_templates: usize,
    /// Scores 50-74
    pub fair_templates: usize,
    /// Scores 0-49
    pub poor_templates: usize,
}

impl Default for DirectoryQualitySummary {
    fn default() -> (s: Self)
        ensures
            s == (DirectoryQualitySummary {
                total_templates: 0,
                failed_templates: 0,
                average_score: 0,
                highest_score: 0,
                lowest_score: 0,
                excellent_templates: 0,
                good_templates: 0,
                fair_templates: 0,
                poor_templates: 0,
            }),
    {
        DirectoryQualitySummary {
            total_templates: 0,
            failed_templates: 0,
            average_score: 0,
            highest_score: 0,
            lowest_score: 0,
            excellent_templates: 0,
            good_templates: 0,
            fair_templates: 0,
            poor_templates: 0,
        }
    }
}

/// Quality analysis report for a directory of templates
#[derive(Debug, Clone)]
pub struct DirectoryQualityReport {
    /// Directory path analyzed
    pub directory_path: String,
    /// Individual template reports
    pub template_reports: Vec<TemplateQualityReport>,
    /// Templates that failed analysis, with the reason
    pub failed_analyses: Vec<(String, String)>,
    /// Total analysis duration
    pub analysis_duration: Span,
    /// Summary statistics
    pub summary: DirectoryQualitySummary,
}

pub open spec fn scores_of(rs: Seq<TemplateQualityReport>) -> Seq<u32> {
    rs.map_values(|r: TemplateQualityReport| r.overall_score)
}

pub open spec fn score_sum(s: Seq<u32>) -> int
    decreases s.len(),
{
    if s.len() == 0 {
        0
    } else {
        score_sum(s.drop_last()) + s.last()
    }
}

pub open spec fn count_in(s: Seq<u32>, lo: int, hi: int) -> nat
    decreases s.len(),
{
    if s.len() == 0 {
        0
    } else {
        count_in(s.drop_last(), lo, hi) + if lo <= s.last() <= hi {
            1nat
        } else {
            0nat
        }
    }
}

pub open spec fn is_max(s: Seq<u32>, m: u32) -> bool {
    s.contains(m) && forall|i: int| 0 <= i < s.len() ==> s[i] <= m
}

pub open spec fn is_min(s: Seq<u32>, m: u32) -> bool {
    s.contains(m) && forall|i: int| 0 <= i < s.len() ==> m <= s[i]
}

proof fn lemma_count_in_le(s: Seq<u32>, lo: int, hi: int)
    ensures
        count_in(s, lo, hi) <= s.len(),
    decreases s.len(),
{
    if s.len() > 0 {
        lemma_count_in_le(s.drop_last(), lo, hi);
    }
}

impl DirectoryQualityReport {
    pub fn new(directory_path: String) -> (r: Self)
        ensures
            r.directory_path == directory_path,
            r.template_reports@.len() == 0,
            r.failed_analyses@.len() == 0,
            r.analysis_duration.nanos == 0,
            r.summary == (DirectoryQualitySummary {
                total_templates: 0,
                failed_templates: 0,
                average_score: 0,
                highest_score: 0,
                lowest_score: 0,
                excellent_templates: 0,
                good_templates: 0,
                fair_templates: 0,
                poor_templates: 0,
            }),
    {
        DirectoryQualityReport {
            directory_path,
            template_reports: Vec::new(),
            failed_analyses: Vec::new(),
            analysis_duration: Span::zero(),
            summary: DirectoryQualitySummary::default(),
        }
    }

    /// Calculate summary statistics: counts, the mean (rounded down),
    /// highest and lowest score, and the templates in each score band,
    /// added to the counts already there.
    pub fn calculate_summary(&mut self)
        requires
            score_sum(scores_of(old(self).template_reports@)) <= u32::MAX,
            old(self).template_reports@.len() <= u32::MAX,
            old(self).summary.excellent_templates + old(self).template_reports@.len() <= usize::MAX,
            old(self).summary.good_templates + old(self).template_reports@.len() <= usize::MAX,
            old(self).summary.fair_templates + old(self).template_reports@.len() <= usize::MAX,
            old(self).summary.poor_templates + old(self).template_reports@.len() <= usize::MAX,
        ensures
            ({
                let s = scores_of(old(self).template_reports@);
                let o = old(self).summary;
                let n = final(self).summary;
                &&& n.total_templates == s.len()
                &&& n.failed_templates == old(self).failed_analyses@.len()
                &&& s.len() > 0 ==> n.average_score == score_sum(s) / (s.len() as int) && is_max(s, n.highest_score)
                    && is_min(s, n.lowest_score)
                &&& s.len() == 0 ==> n.average_score == o.average_score && n.highest_score == o.highest_score
                    && n.lowest_score == o.lowest_score
                &&& n.excellent_templates == o.excellent_templates + count_in(s, 90, 100)
                &&& n.good_templates == o.good_templates + count_in(s, 75, 89)
                &&& n.fair_templates == o.fair_templates + count_in(s, 50, 74)
                &&& n.poor_templates == o.poor_templates + (count_in(s, 0, 49) + count_in(s, 101, u32::MAX as int))
            }),
            final(self).template_reports == old(self).template_reports,
            final(self).failed_analyses == old(self).failed_analyses,
            final(self).directory_path == old(self).directory_path,
            final(self).analysis_duration == old(self).analysis_duration,
    {
        let ghost s = scores_of(self.template_reports@);
        self.summary.total_templates = self.template_reports.len();
        self.summary.failed_templates = self.failed_analyses.len();
        let n = self.template_reports.len();
        let mut total: u32 = 0;
        let mut hi: u32 = 0;
        let mut lo: u32 = 0;
        let mut ex: usize = self.summary.excellent_templates;
        let mut good: usize = self.summary.good_templates;
        let mut fair: usize = self.summary.fair_templates;
        let mut poor: usize = self.summary.poor_templates;
        let ghost o = self.summary;
        let mut i: usize = 0;
        proof {
            lemma_score_sum_prefix(s, 0);
            assert(s.take(0) =~= Seq::<u32>::empty());
        }
        while i < n
            invariant
                n == self.template_reports@.len(),
                s == scores_of(self.template_reports@),
                i <= n,
                score_sum(s) <= u32::MAX,
                total == score_sum(s.take(i as int)),
                score_sum(s.take(i as int)) <= score_sum(s),
                i > 0 ==> is_max(s.take(i as int), hi) && is_min(s.take(i as int), lo),
                ex == o.excellent_templates + count_in(s.take(i as int), 90, 100),
                good == o.good_templates + count_in(s.take(i as int), 75, 89),
                fair == o.fair_templates + count_in(s.take(i as int), 50, 74),
                poor == o.poor_templates + (count_in(s.take(i as int), 0, 49) + count_in(s.take(i as int), 101, u32::MAX as int)),
                o.excellent_templates + n <= usize::MAX,
                o.good_templates + n <= usize::MAX,
                o.fair_templates + n <= usize::MAX,
                o.poor_templates + n <= usize::MAX,
            decreases n - i,
        {
            let x = self.template_reports[i].overall_score;
            let ghost t = s.take(i + 1);
            proof {
                assert(t.drop_last() =~= s.take(i as int));
                assert(t.last() == x);
                lemma_score_sum_prefix(s, i + 1);
                lemma_count_in_le(s.take(i as int), 90, 100);
                lemma_count_in_le(s.take(i as int), 75, 89);
                lemma_count_in_le(s.take(i as int), 50, 74);
                lemma_count_in_le(s.take(i as int), 0, 49);
                lemma_count_in_le(s.take(i as int), 101, u32::MAX as int);
                assert(count_in(s.take(i as int), 0, 49) + count_in(s.take(i as int), 101, u32::MAX as int) <= i) by {
                    lemma_count_disjoint(s.take(i as int));
                }
            }
            total = total + x;
            if i == 0 || x > hi {
                hi = x;
            }
            if i == 0 || x < lo {
                lo = x;
            }
            if 90 <= x && x <= 100 {
                ex = ex + 1;
            } else if 75 <= x && x <= 89 {
                good = good + 1;
            } else if 50 <= x && x <= 74 {
                fair = fair + 1;
            } else {
                poor = poor + 1;
            }
            proof {
                assert forall|k: int| 0 <= k < t.len() implies t[k] <= hi by {
                    if k < i {
                        assert(t[k] == s.take(i as int)[k]);
                    }
                }
                assert forall|k: int| 0 <= k < t.len() implies lo <= t[k] by {
                    if k < i {
                        assert(t[k] == s.take(i as int)[k]);
                    }
                }
                assert(t[i as int] == x);
                if hi != x {
                    let w = choose|w: int| 0 <= w < s.take(i as int).len() && s.take(i as int)[w] == hi;
                    assert(t[w] == hi);
                }
                if lo != x {
                    let w = choose|w: int| 0 <= w < s.take(i as int).len() && s.take(i as int)[w] == lo;
                    assert(t[w] == lo);
                }
            }
            i = i + 1;
        }
        assert(s.take(i as int) =~= s);
        self.summary.excellent_templates = ex;
        self.summary.good_templates = good;
        self.summary.fair_templates = fair;
        self.summary.poor_templates = poor;
        if n > 0 {
            self.summary.average_score = total / (n as u32);
            self.summary.highest_score = hi;
            self.summary.lowest_score = lo;
        }
    }
}

proof fn lemma_score_sum_prefix(s: Seq<u32>, k: int)
    requires
        0 <= k <= s.len(),
    ensures
        score_sum(s.take(k)) <= score_sum(s),
    decreases s.len() - k,
{
    if k < s.len() {
        lemma_score_sum_prefix(s, k + 1);
        assert(s.take(k + 1).drop_last() =~= s.take(k));
    } else {
        assert(s.take(k) =~= s);
    }
}

proof fn lemma_count_disjoint(s: Seq<u32>)
    ensures
        count_in(s, 0, 49) + count_in(s, 101, u32::MAX as int) <= s.len(),
    decreases s.len(),
{
    if s.len() > 0 {
        lemma_count_disjoint(s.drop_last());
    }
}


// ---------------------------------------------------------------------------
// Checks
// ---------------------------------------------------------------------------

/// Why an analysis stopped.
#[derive(Debug, Clone, PartialEq)]
pub enum QualityError {
    /// A fixed pattern of the analyzer did not compile
    Pattern(String),
    /// The template is larger than the configured maximum
    TooLarge { size: u128, max: usize },
}

fn warning(t: &str, m: String, sg: &str) -> (w: LintWarning)
    ensures
        w.model() == (t@, m@, Some(sg@)),
{
    LintWarning::new(t.to_string(), m, Some(sg.to_string()))
}

fn dec(n: u128) -> (s: String)
    ensures
        s@ == decimal(n as nat),
{
    let mut v: Vec<char> = Vec::new();
    crate::template::validation::push_decimal_u128(&mut v, n);
    chars_to_string(v.as_slice())
}

pub open spec fn ip_pattern() -> Seq<char> {
    "\\d{1,3}\\.\\d{1,3}\\.\\d{1,3}\\.\\d{1,3}"@
}

/// The warnings for lines indented with a tab that also hold a blank, from
/// line `n` on (counting from 1).
pub open spec fn mixed_indentation_warnings(ls: Seq<Seq<char>>, k: nat) -> Seq<WarningModel>
    decreases k,
{
    if k == 0 {
        Seq::empty()
    } else {
        let prev = mixed_indentation_warnings(ls, (k - 1) as nat);
        let line = ls[k - 1];
        if starts_with(line, "\t"@) && contains(line, " "@) {
            prev.push(
                (
                    "mixed_indentation"@,
                    "Line "@ + decimal(k) + " uses mixed tabs and spaces for indentation"@,
                    Some("Use consistent indentation (either tabs or spaces, not both)"@),
                ),
            )
        } else {
            prev
        }
    }
}

/// The best-practice warnings: hardcoded addresses, mixed indentation,
/// a missing header.
pub open spec fn best_practice_warnings(content: Seq<char>) -> Seq<WarningModel> {
    let ip = if regex_matches(ip_pattern(), content) {
        seq![
            (
                "hardcoded_ip"@,
                "Template contains hardcoded IP addresses"@,
                Some("Consider using variables for IP addresses to improve template reusability"@),
            ),
        ]
    } else {
        Seq::empty()
    };
    let ls = lines(content);
    let header = if !contains(content, "template-match:"@) {
        seq![
            (
                "missing_header"@,
                "Template is missing template-match header"@,
                Some("Add template-match header to specify template scope and matching criteria"@),
            ),
        ]
    } else {
        Seq::empty()
    };
    ip + mixed_indentation_warnings(ls, ls.len()) + header
}

pub open spec fn name_pattern() -> Seq<char> {
    "\\{\\{\\s*([a-zA-Z_][a-zA-Z0-9_]*)\\s*\\}\\}"@
}

pub open spec fn has_uppercase(s: Seq<char>) -> bool {
    exists|i: int| 0 <= i < s.len() && is_uppercase(#[trigger] s[i])
}

/// The naming warnings of one variable name.
pub open spec fn name_warnings(n: Seq<char>) -> Seq<WarningModel> {
    let camel = if has_uppercase(n) {
        seq![
            (
                "camel_case_variable"@,
                "Variable '"@ + n + "' uses camelCase, prefer snake_case"@,
                Some("Use snake_case for variable names (e.g., 'my_variable' instead of 'myVariable')"@),
            ),
        ]
    } else {
        Seq::empty()
    };
    let single = if utf8_len(n) == 1 {
        seq![
            (
                "single_char_variable"@,
                "Variable '"@ + n + "' is a single character"@,
                Some("Use descriptive variable names instead of single characters"@),
            ),
        ]
    } else {
        Seq::empty()
    };
    camel + single
}

pub open spec fn naming_warnings_of(names: Seq<Seq<char>>) -> Seq<WarningModel>
    decreases names.len(),
{
    if names.len() == 0 {
        Seq::empty()
    } else {
        naming_warnings_of(names.drop_last()) + name_warnings(names.last())
    }
}

pub open spec fn filter_loop_pattern() -> Seq<char> {
    "\\{\\%\\s*for.*\\n[\\s\\S]*?\\{\\{.*\\|.*\\}\\}[\\s\\S]*?\\{\\%\\s*endfor"@
}

/// The performance warnings: more than three loops, filters inside loops.
/// `None` when the filter-in-loop pattern is needed and does not compile.
pub open spec fn performance_warnings(content: Seq<char>) -> Option<Seq<WarningModel>> {
    let n = count_matches(content, "{% for"@);
    let loops = if n > 3 {
        seq![
            (
                "excessive_loops"@,
                "Template contains "@ + decimal(n) + " nested loops, which may impact performance"@,
                Some("Consider simplifying template logic or pre-processing data to reduce loop nesting"@),
            ),
        ]
    } else {
        Seq::empty()
    };
    if contains(content, "{% for"@) && contains(content, "|"@) {
        if !regex_valid(filter_loop_pattern()) {
            None
        } else if regex_matches(filter_loop_pattern(), content) {
            Some(
                loops + seq![
                    (
                        "filter_in_loop"@,
                        "Complex filters used inside loops may impact performance"@,
                        Some("Consider pre-processing data with filters before the template loop"@),
                    ),
                ],
            )
        } else {
            Some(loops)
        }
    } else {
        Some(loops)
    }
}

fn str_chars(s: &str) -> (v: Vec<char>)
    ensures
        v@ == s@,
{
    str_to_chars(s)
}

fn best_practices(content: &str, warnings: &mut Vec<LintWarning>) -> (r: Result<(), QualityError>)
    ensures
        r is Err <==> !regex_valid(ip_pattern()),
        r is Ok ==> final(warnings)@.map_values(|w: LintWarning| w.model()) == old(warnings)@.map_values(|w: LintWarning| w.model())
            + best_practice_warnings(content@),
{
    let ghost start = warnings@.map_values(|w: LintWarning| w.model());
    match regex_is_match("\\d{1,3}\\.\\d{1,3}\\.\\d{1,3}\\.\\d{1,3}", content) {
        None => {
            return Err(QualityError::Pattern("\\d{1,3}\\.\\d{1,3}\\.\\d{1,3}\\.\\d{1,3}".to_string()));
        },
        Some(true) => {
            warnings.push(
                warning(
                    "hardcoded_ip",
                    "Template contains hardcoded IP addresses".to_string(),
                    "Consider using variables for IP addresses to improve template reusability",
                ),
            );
        },
        Some(false) => {},
    }
    let ghost after_ip = warnings@.map_values(|w: LintWarning| w.model());
    let cs = str_chars(content);
    let ls = lines_exec(cs.as_slice());
    let ghost lv = ls@.map_values(|l: Vec<char>| l@);
    let tab = str_chars("\t");
    let sp = str_chars(" ");
    let mut k: usize = 0;
    while k < ls.len()
        invariant
            k <= ls@.len(),
            lv == ls@.map_values(|l: Vec<char>| l@),
            tab@ == "\t"@,
            sp@ == " "@,
            warnings@.map_values(|w: LintWarning| w.model()) == after_ip + mixed_indentation_warnings(lv, k as nat),
        decreases ls.len() - k,
    {
        let line = &ls[k];
        proof {
            assert(lv[k as int] == line@);
        }
        if starts_with_exec(line.as_slice(), tab.as_slice()) && contains_exec(line.as_slice(), sp.as_slice()) {
            let num = dec((k + 1) as u128);
            let msg = cat4("Line ", num.as_str(), " uses mixed tabs and spaces for indentation", "");
            proof {
                reveal_strlit("");
            }
            let ghost before = warnings@.map_values(|w: LintWarning| w.model());
            let w = warning("mixed_indentation", msg, "Use consistent indentation (either tabs or spaces, not both)");
            warnings.push(w);
            proof {
                assert(warnings@.map_values(|w: LintWarning| w.model()) =~= before.push(w.model()));
                assert(msg@ =~= "Line "@ + decimal((k + 1) as nat) + " uses mixed tabs and spaces for indentation"@);
            }
        }
        k = k + 1;
    }
    let d = str_chars("template-match:");
    if !contains_exec(cs.as_slice(), d.as_slice()) {
        let ghost before = warnings@.map_values(|w: LintWarning| w.model());
        let w = warning(
            "missing_header",
            "Template is missing template-match header".to_string(),
            "Add template-match header to specify template scope and matching criteria",
        );
        warnings.push(w);
        assert(warnings@.map_values(|w: LintWarning| w.model()) =~= before.push(w.model()));
    }
    proof {
        let ip = best_practice_warnings(content@);
        assert(warnings@.map_values(|w: LintWarning| w.model()) =~= start + best_practice_warnings(content@));
    }
    Ok(())
}

fn naming_conventions(content: &str, warnings: &mut Vec<LintWarning>) -> (r: Result<(), QualityError>)
    ensures
        r is Err <==> !regex_valid(name_pattern()),
        r is Ok ==> final(warnings)@.map_values(|w: LintWarning| w.model()) == old(warnings)@.map_values(|w: LintWarning| w.model())
            + naming_warnings_of(captured(name_pattern(), content@)),
{
    let caps = match crate::patterns::regex_all_captures("\\{\\{\\s*([a-zA-Z_][a-zA-Z0-9_]*)\\s*\\}\\}", content) {
        None => {
            return Err(QualityError::Pattern("\\{\\{\\s*([a-zA-Z_][a-zA-Z0-9_]*)\\s*\\}\\}".to_string()));
        },
        Some(c) => c,
    };
    let mut names: Vec<String> = Vec::new();
    captured_into(&caps, &mut names);
    let ghost nv = strs(names@);
    assert(nv =~= captured(name_pattern(), content@));
    let ghost start = warnings@.map_values(|w: LintWarning| w.model());
    let mut i: usize = 0;
    while i < names.len()
        invariant
            i <= names@.len(),
            nv == strs(names@),
            warnings@.map_values(|w: LintWarning| w.model()) == start + naming_warnings_of(nv.take(i as int)),
        decreases names.len() - i,
    {
        let name = &names[i];
        let cs = str_chars(name.as_str());
        let mut upper = false;
        let mut j: usize = 0;
        while j < cs.len()
            invariant
                j <= cs@.len(),
                upper == exists|q: int| 0 <= q < j && is_uppercase(#[trigger] cs@[q]),
            decreases cs.len() - j,
        {
            if crate::text::char_is_uppercase(cs[j]) {
                upper = true;
            }
            j = j + 1;
        }
        let ghost before = warnings@.map_values(|w: LintWarning| w.model());
        if upper {
            let msg = cat4("Variable '", name.as_str(), "' uses camelCase, prefer snake_case", "");
            let w = warning("camel_case_variable", msg, "Use snake_case for variable names (e.g., 'my_variable' instead of 'myVariable')");
            warnings.push(w);
            proof {
                reveal_strlit("");
                assert(msg@ =~= "Variable '"@ + name@ + "' uses camelCase, prefer snake_case"@);
            }
        }
        let ghost mid = warnings@.map_values(|w: LintWarning| w.model());
        if byte_len(cs.as_slice()) == 1 {
            let msg = cat4("Variable '", name.as_str(), "' is a single character", "");
            let w = warning("single_char_variable", msg, "Use descriptive variable names instead of single characters");
            warnings.push(w);
            proof {
                reveal_strlit("");
                assert(msg@ =~= "Variable '"@ + name@ + "' is a single character"@);
                assert(warnings@.map_values(|w: LintWarning| w.model()) =~= mid.push(w.model()));
            }
        }
        proof {
            assert(nv.take(i + 1).drop_last() =~= nv.take(i as int));
            assert(nv.take(i + 1).last() == name@);
            if upper {
                assert(mid =~= before + name_warnings(name@).take(1)) by {
                    assert(has_uppercase(name@));
                }
            } else {
                assert(mid =~= before);
            }
            assert(warnings@.map_values(|w: LintWarning| w.model()) =~= before + name_warnings(name@));
        }
        i = i + 1;
    }
    assert(nv.take(i as int) =~= nv);
    Ok(())
}

fn performance_patterns(content: &str, warnings: &mut Vec<LintWarning>) -> (r: Result<(), QualityError>)
    ensures
        r is Err <==> performance_warnings(content@) is None,
        r is Ok ==> final(warnings)@.map_values(|w: LintWarning| w.model()) == old(warnings)@.map_values(|w: LintWarning| w.model())
            + performance_warnings(content@)->0,
{
    let ghost start = warnings@.map_values(|w: LintWarning| w.model());
    let cs = str_chars(content);
    let lp = str_chars("{% for");
    let bar = str_chars("|");
    proof {
        reveal_strlit("{% for");
    }
    let n = count_matches_exec(cs.as_slice(), lp.as_slice());
    if n > 3 {
        let num = dec(n as u128);
        let msg = cat4("Template contains ", num.as_str(), " nested loops, which may impact performance", "");
        proof {
            reveal_strlit("");
            assert(msg@ =~= "Template contains "@ + decimal(n as nat) + " nested loops, which may impact performance"@);
        }
        warnings.push(
            warning(
                "excessive_loops",
                msg,
                "Consider simplifying template logic or pre-processing data to reduce loop nesting",
            ),
        );
    }
    let ghost after_loops = warnings@.map_values(|w: LintWarning| w.model());
    assert(after_loops =~= start + (if n > 3 {
        seq![
            (
                "excessive_loops"@,
                "Template contains "@ + decimal(n as nat) + " nested loops, which may impact performance"@,
                Some("Consider simplifying template logic or pre-processing data to reduce loop nesting"@),
            ),
        ]
    } else {
        Seq::<WarningModel>::empty()
    }));
    if contains_exec(cs.as_slice(), lp.as_slice()) && contains_exec(cs.as_slice(), bar.as_slice()) {
        match regex_is_match(
            "\\{\\%\\s*for.*\\n[\\s\\S]*?\\{\\{.*\\|.*\\}\\}[\\s\\S]*?\\{\\%\\s*endfor",
            content,
        ) {
            None => {
                return Err(
                    QualityError::Pattern(
                        "\\{\\%\\s*for.*\\n[\\s\\S]*?\\{\\{.*\\|.*\\}\\}[\\s\\S]*?\\{\\%\\s*endfor".to_string(),
                    ),
                );
            },
            Some(true) => {
                let w = warning(
                    "filter_in_loop",
                    "Complex filters used inside loops may impact performance".to_string(),
                    "Consider pre-processing data with filters before the template loop",
                );
                warnings.push(w);
                assert(warnings@.map_values(|w: LintWarning| w.model()) =~= after_loops.push(w.model()));
            },
            Some(false) => {},
        }
    }
    Ok(())
}


/// The command-execution patterns.
pub open spec fn command_patterns() -> Seq<Seq<char>> {
    seq!["\\|\\s*sh\\b"@, "\\|\\s*bash\\b"@, "\\|\\s*exec\\b"@, "system\\s*\\("@, "eval\\s*\\("@]
}

/// The file-access patterns.
pub open spec fn file_patterns() -> Seq<Seq<char>> {
    seq!["file\\s*\\("@, "open\\s*\\("@, "read\\s*\\("@, "write\\s*\\("@, "/etc/"@, "/var/"@, "\\.\\./"@]
}

/// The findings of a list of patterns, in order: one per pattern that
/// matches; `None` when one does not compile.
pub open spec fn pattern_findings(ps: Seq<Seq<char>>, content: Seq<char>, kind: Seq<char>, prefix: Seq<char>, sev: SecuritySeverity) -> Option<
    Seq<(Seq<char>, Seq<char>, SecuritySeverity)>,
>
    decreases ps.len(),
{
    if ps.len() == 0 {
        Some(Seq::empty())
    } else {
        match pattern_findings(ps.drop_last(), content, kind, prefix, sev) {
            None => None,
            Some(prev) => if !regex_valid(ps.last()) {
                None
            } else if regex_matches(ps.last(), content) {
                Some(prev.push((kind, prefix + ps.last(), sev)))
            } else {
                Some(prev)
            },
        }
    }
}

/// The dangerous patterns a template shows: command execution (high),
/// then file system access (medium).
pub open spec fn dangerous_findings(content: Seq<char>) -> Option<Seq<(Seq<char>, Seq<char>, SecuritySeverity)>> {
    match pattern_findings(command_patterns(), content, "command_injection_risk"@, "Template contains potentially dangerous pattern: "@, SecuritySeverity::High) {
        None => None,
        Some(a) => match pattern_findings(file_patterns(), content, "file_system_access"@, "Template may attempt file system access: "@, SecuritySeverity::Medium) {
            None => None,
            Some(b) => Some(a + b),
        },
    }
}

proof fn lemma_findings_none(ps: Seq<Seq<char>>, content: Seq<char>, kind: Seq<char>, prefix: Seq<char>, sev: SecuritySeverity, k: int)
    requires
        0 <= k <= ps.len(),
        pattern_findings(ps.take(k), content, kind, prefix, sev) is None,
    ensures
        pattern_findings(ps, content, kind, prefix, sev) is None,
    decreases ps.len() - k,
{
    if k < ps.len() {
        assert(ps.take(k + 1).drop_last() =~= ps.take(k));
        lemma_findings_none(ps, content, kind, prefix, sev, k + 1);
    } else {
        assert(ps.take(k) =~= ps);
    }
}

/// Check each pattern in turn, appending a finding for each that matches.
fn scan_patterns(ps: &Vec<String>, content: &str, kind: &str, prefix: &str, sev: SecuritySeverity, out: &mut Vec<DangerousPattern>) -> (r: Result<(), QualityError>)
    ensures
        r is Err <==> pattern_findings(strs(ps@), content@, kind@, prefix@, sev) is None,
        r is Ok ==> final(out)@.map_values(|d: DangerousPattern| d.model()) == old(out)@.map_values(|d: DangerousPattern| d.model())
            + pattern_findings(strs(ps@), content@, kind@, prefix@, sev)->0,
{
    let ghost pv = strs(ps@);
    let ghost start = out@.map_values(|d: DangerousPattern| d.model());
    let mut i: usize = 0;
    assert(pv.take(0) =~= Seq::<Seq<char>>::empty());
    assert(start + Seq::<(Seq<char>, Seq<char>, SecuritySeverity)>::empty() =~= start);
    while i < ps.len()
        invariant
            i <= ps@.len(),
            pv == strs(ps@),
            pattern_findings(pv.take(i as int), content@, kind@, prefix@, sev) is Some,
            out@.map_values(|d: DangerousPattern| d.model()) == start + pattern_findings(pv.take(i as int), content@, kind@, prefix@, sev)->0,
        decreases ps.len() - i,
    {
        let p = &ps[i];
        proof {
            assert(pv.take(i + 1).drop_last() =~= pv.take(i as int));
            assert(pv.take(i + 1).last() == p@);
        }
        match regex_is_match(p.as_str(), content) {
            None => {
                proof {
                    lemma_findings_none(pv, content@, kind@, prefix@, sev, i + 1);
                }
                return Err(QualityError::Pattern(p.clone()));
            },
            Some(true) => {
                let ghost before = out@.map_values(|d: DangerousPattern| d.model());
                let d = DangerousPattern::new(kind.to_string(), cat2(prefix, p.as_str()), sev);
                out.push(d);
                assert(out@.map_values(|d: DangerousPattern| d.model()) =~= before.push(d.model()));
            },
            Some(false) => {},
        }
        i = i + 1;
    }
    assert(pv.take(i as int) =~= pv);
    Ok(())
}

fn strings_of(v: &[&str]) -> (r: Vec<String>)
    ensures
        r@.len() == v@.len(),
        forall|i: int| 0 <= i < v@.len() ==> (#[trigger] r@[i])@ == v@[i]@,
{
    let mut r: Vec<String> = Vec::new();
    let mut i: usize = 0;
    while i < v.len()
        invariant
            i <= v@.len(),
            r@.len() == i,
            forall|k: int| 0 <= k < i ==> (#[trigger] r@[k])@ == v@[k]@,
        decreases v.len() - i,
    {
        r.push(v[i].to_string());
        i = i + 1;
    }
    r
}

/// The dangerous patterns of a template.
pub fn check_dangerous_patterns(template_content: &str) -> (r: Result<Vec<DangerousPattern>, QualityError>)
    ensures
        r is Err <==> dangerous_findings(template_content@) is None,
        r matches Ok(v) ==> Some(v@.map_values(|d: DangerousPattern| d.model())) == dangerous_findings(template_content@),
{
    let cmd = strings_of(&["\\|\\s*sh\\b", "\\|\\s*bash\\b", "\\|\\s*exec\\b", "system\\s*\\(", "eval\\s*\\("]);
    let fil = strings_of(&["file\\s*\\(", "open\\s*\\(", "read\\s*\\(", "write\\s*\\(", "/etc/", "/var/", "\\.\\./"]);
    proof {
        assert(strs(cmd@) =~= command_patterns());
        assert(strs(fil@) =~= file_patterns());
    }
    let mut out: Vec<DangerousPattern> = Vec::new();
    assert(out@.map_values(|d: DangerousPattern| d.model()) =~= Seq::<(Seq<char>, Seq<char>, SecuritySeverity)>::empty());
    match scan_patterns(&cmd, template_content, "command_injection_risk", "Template contains potentially dangerous pattern: ", SecuritySeverity::High, &mut out) {
        Err(e) => {
            return Err(e);
        },
        Ok(()) => {},
    }
    match scan_patterns(&fil, template_content, "file_system_access", "Template may attempt file system access: ", SecuritySeverity::Medium, &mut out) {
        Err(e) => {
            return Err(e);
        },
        Ok(()) => {},
    }
    Ok(out)
}

/// The credential patterns with the risk each stands for.
pub open spec fn credential_patterns() -> Seq<(Seq<char>, Seq<char>)> {
    seq![("(?i)password\\s*[=:]\\s*['\\x22]?[^'\\x22\\s]+"@, "password_in_template"@), ("(?i)secret\\s*[=:]\\s*['\\x22]?[^'\\x22\\s]+"@, "secret_in_template"@), ("(?i)key\\s*[=:]\\s*['\\x22]?[^'\\x22\\s]+"@, "key_in_template"@), ("(?i)token\\s*[=:]\\s*['\\x22]?[^'\\x22\\s]+"@, "token_in_template"@)]
}

pub open spec fn credential_findings(ps: Seq<(Seq<char>, Seq<char>)>, content: Seq<char>) -> Option<Seq<(Seq<char>, Seq<char>, SecuritySeverity)>>
    decreases ps.len(),
{
    if ps.len() == 0 {
        Some(Seq::empty())
    } else {
        match credential_findings(ps.drop_last(), content) {
            None => None,
            Some(prev) => if !regex_valid(ps.last().0) {
                None
            } else if regex_matches(ps.last().0, content) {
                Some(prev.push((ps.last().1, "Template may contain hardcoded credentials matching pattern: "@ + ps.last().0, SecuritySeverity::High)))
            } else {
                Some(prev)
            },
        }
    }
}

/// The sensitive-data risks of a template: one per credential pattern that
/// matches.
pub fn check_sensitive_data_exposure(template_content: &str) -> (r: Result<Vec<SensitiveDataRisk>, QualityError>)
    ensures
        r is Err <==> credential_findings(credential_patterns(), template_content@) is None,
        r matches Ok(v) ==> Some(v@.map_values(|d: SensitiveDataRisk| d.model())) == credential_findings(credential_patterns(), template_content@),
{
    let pats = strings_of(&["(?i)password\\s*[=:]\\s*['\\x22]?[^'\\x22\\s]+", "(?i)secret\\s*[=:]\\s*['\\x22]?[^'\\x22\\s]+", "(?i)key\\s*[=:]\\s*['\\x22]?[^'\\x22\\s]+", "(?i)token\\s*[=:]\\s*['\\x22]?[^'\\x22\\s]+"]);
    let kinds = strings_of(&["password_in_template", "secret_in_template", "key_in_template", "token_in_template"]);
    let ghost ps = credential_patterns();
    assert(ps.len() == 4);
    let mut out: Vec<SensitiveDataRisk> = Vec::new();
    let mut i: usize = 0;
    assert(ps.take(0) =~= Seq::<(Seq<char>, Seq<char>)>::empty());
    assert(out@.map_values(|d: SensitiveDataRisk| d.model()) =~= Seq::<(Seq<char>, Seq<char>, SecuritySeverity)>::empty());
    while i < 4
        invariant
            i <= 4,
            pats@.len() == 4,
            kinds@.len() == 4,
            ps == credential_patterns(),
            forall|k: int| 0 <= k < 4 ==> (#[trigger] pats@[k])@ == ps[k].0 && kinds@[k]@ == ps[k].1,
            credential_findings(ps.take(i as int), template_content@) is Some,
            Some(out@.map_values(|d: SensitiveDataRisk| d.model())) == credential_findings(ps.take(i as int), template_content@),
        decreases 4 - i,
    {
        let p = &pats[i];
        proof {
            assert(ps.take(i + 1).drop_last() =~= ps.take(i as int));
            assert(ps.take(i + 1).last() == ps[i as int]);
            assert(pats@[i as int]@ == ps[i as int].0);
        }
        match regex_is_match(p.as_str(), template_content) {
            None => {
                proof {
                    lemma_credentials_none(ps, template_content@, i + 1);
                }
                return Err(QualityError::Pattern(p.clone()));
            },
            Some(true) => {
                let ghost before = out@.map_values(|d: SensitiveDataRisk| d.model());
                let d = SensitiveDataRisk::new(
                    kinds[i].clone(),
                    cat2("Template may contain hardcoded credentials matching pattern: ", p.as_str()),
                    SecuritySeverity::High,
                );
                out.push(d);
                assert(out@.map_values(|d: SensitiveDataRisk| d.model()) =~= before.push(d.model()));
            },
            Some(false) => {},
        }
        i = i + 1;
    }
    assert(ps.take(4) =~= ps);
    Ok(out)
}

proof fn lemma_credentials_none(ps: Seq<(Seq<char>, Seq<char>)>, content: Seq<char>, k: int)
    requires
        0 <= k <= ps.len(),
        credential_findings(ps.take(k), content) is None,
    ensures
        credential_findings(ps, content) is None,
    decreases ps.len() - k,
{
    if k < ps.len() {
        assert(ps.take(k + 1).drop_last() =~= ps.take(k));
        lemma_credentials_none(ps, content, k + 1);
    } else {
        assert(ps.take(k) =~= ps);
    }
}


pub open spec fn unescaped_pattern() -> Seq<char> {
    "\\{\\{\\s*[^}|]*\\s*\\}\\}"@
}

pub open spec fn escaped_pattern() -> Seq<char> {
    "\\{\\{\\s*[^}]*\\|\\s*escape\\s*\\}\\}"@
}

/// Too many unescaped output expressions: more than twice the escaped ones.
pub open spec fn input_validation_findings(content: Seq<char>) -> Option<Seq<(Seq<char>, Seq<char>, SecuritySeverity, Option<Seq<char>>)>> {
    if !regex_valid(unescaped_pattern()) || !regex_valid(escaped_pattern()) {
        None
    } else if regex_match_count(unescaped_pattern(), content) > regex_match_count(escaped_pattern(), content) * 2 {
        Some(
            seq![
                (
                    "unescaped_output"@,
                    "Template has many unescaped output expressions"@,
                    SecuritySeverity::Medium,
                    Some("Consider using the 'escape' filter for user-provided data"@),
                ),
            ],
        )
    } else {
        Some(Seq::empty())
    }
}

impl InputValidationIssue {
    pub open spec fn model(self) -> (Seq<char>, Seq<char>, SecuritySeverity, Option<Seq<char>>) {
        (self.issue_type@, self.description@, self.severity, crate::patterns::opt_view(self.recommendation))
    }
}

/// The input validation issues of a template.
pub fn check_input_validation(template_content: &str) -> (r: Result<Vec<InputValidationIssue>, QualityError>)
    ensures
        r is Err <==> input_validation_findings(template_content@) is None,
        r matches Ok(v) ==> Some(v@.map_values(|i: InputValidationIssue| i.model())) == input_validation_findings(template_content@),
{
    let unescaped = match regex_count("\\{\\{\\s*[^}|]*\\s*\\}\\}", template_content) {
        None => {
            return Err(QualityError::Pattern("\\{\\{\\s*[^}|]*\\s*\\}\\}".to_string()));
        },
        Some(n) => n,
    };
    let escaped = match regex_count("\\{\\{\\s*[^}]*\\|\\s*escape\\s*\\}\\}", template_content) {
        None => {
            return Err(QualityError::Pattern("\\{\\{\\s*[^}]*\\|\\s*escape\\s*\\}\\}".to_string()));
        },
        Some(n) => n,
    };
    let mut out: Vec<InputValidationIssue> = Vec::new();
    if unescaped as u128 > escaped as u128 * 2 {
        let i = InputValidationIssue::new(
            "unescaped_output".to_string(),
            "Template has many unescaped output expressions".to_string(),
            SecuritySeverity::Medium,
            Some("Consider using the 'escape' filter for user-provided data".to_string()),
        );
        out.push(i);
        assert(out@.map_values(|i: InputValidationIssue| i.model()) =~= seq![i.model()]);
    } else {
        assert(out@.map_values(|i: InputValidationIssue| i.model()) =~= Seq::<(Seq<char>, Seq<char>, SecuritySeverity, Option<Seq<char>>)>::empty());
    }
    Ok(out)
}

pub open spec fn expression_pattern() -> Seq<char> {
    "\\{\\{[^}]+\\}\\}"@
}

/// The estimated rendering time in microseconds: 100, plus 10 per output
/// expression, 1000 per loop, 50 per condition and 100 per filter bar.
pub open spec fn render_micros(v: nat, l: nat, c: nat, f: nat) -> nat {
    100 + v * 10 + l * 1000 + c * 50 + f * 100
}

pub open spec fn category_of(micros: nat) -> Seq<char> {
    if micros < 1000 {
        "fast"@
    } else if micros < 10000 {
        "moderate"@
    } else {
        "slow"@
    }
}

/// The rendering estimate of a template: its counts of output expressions,
/// loops, conditions and filters, the time they add up to, and its category.
pub open spec fn rendering_estimate_of(content: Seq<char>, e: RenderingPerformanceEstimate) -> bool {
    let micros = render_micros(e.variable_count as nat, e.loop_count as nat, e.condition_count as nat, e.filter_count as nat);
    &&& e.variable_count == regex_match_count(expression_pattern(), content)
    &&& e.loop_count == count_matches(content, "{% for"@)
    &&& e.condition_count == count_matches(content, "{% if"@)
    &&& e.filter_count == count_matches(content, "|"@)
    &&& e.estimated_render_time.nanos == micros * 1000
    &&& e.performance_category@ == category_of(micros)
}

/// Estimate rendering performance characteristics; an error when the output
/// expression pattern does not compile.
pub fn estimate_rendering_performance(template_content: &str) -> (r: Result<RenderingPerformanceEstimate, QualityError>)
    ensures
        r is Err <==> !regex_valid(expression_pattern()),
        r matches Ok(e) ==> rendering_estimate_of(template_content@, e),
{
    let variable_count = match regex_count("\\{\\{[^}]+\\}\\}", template_content) {
        None => {
            return Err(QualityError::Pattern("\\{\\{[^}]+\\}\\}".to_string()));
        },
        Some(n) => n,
    };
    let cs = str_chars(template_content);
    let lp = str_chars("{% for");
    let cp = str_chars("{% if");
    let bar = str_chars("|");
    proof {
        reveal_strlit("{% for");
        reveal_strlit("{% if");
        reveal_strlit("|");
    }
    let loop_count = count_matches_exec(cs.as_slice(), lp.as_slice());
    let condition_count = count_matches_exec(cs.as_slice(), cp.as_slice());
    let filter_count = count_matches_exec(cs.as_slice(), bar.as_slice());
    let micros: u128 = 100 + variable_count as u128 * 10 + loop_count as u128 * 1000 + condition_count as u128 * 50
        + filter_count as u128 * 100;
    let category = if micros < 1000 {
        "fast".to_string()
    } else if micros < 10000 {
        "moderate".to_string()
    } else {
        "slow".to_string()
    };
    Ok(RenderingPerformanceEstimate {
        variable_count,
        loop_count,
        condition_count,
        filter_count,
        estimated_render_time: Span::from_nanos(micros * 1000),
        performance_category: category,
    })
}

/// The estimated memory in bytes: the template, half again for its parsed
/// form, and 64 per output expression, capped at the largest `usize`.
pub open spec fn memory_estimate(bytes: nat, expressions: nat) -> nat {
    let m = bytes + bytes / 2 + expressions * 64;
    if m <= usize::MAX {
        m
    } else {
        usize::MAX as nat
    }
}

/// Estimate memory usage for template; `Err` when the output expression
/// pattern does not compile.
pub fn estimate_memory_usage(template_content: &str) -> (r: Result<usize, QualityError>)
    ensures
        r is Err <==> !regex_valid(expression_pattern()),
        r matches Ok(m) ==> m == memory_estimate(utf8_len(template_content@), regex_match_count(expression_pattern(), template_content@)),
{
    let n = match regex_count("\\{\\{[^}]+\\}\\}", template_content) {
        None => {
            return Err(QualityError::Pattern("\\{\\{[^}]+\\}\\}".to_string()));
        },
        Some(n) => n,
    };
    let cs = str_chars(template_content);
    let bytes = byte_len(cs.as_slice());
    let m: u128 = if bytes > 0x1_0000_0000_0000_0000_0000_0000 {
        usize::MAX as u128
    } else {
        bytes + bytes / 2 + n as u128 * 64
    };
    if m > usize::MAX as u128 {
        Ok(usize::MAX)
    } else {
        Ok(m as usize)
    }
}

/// How often `x` occurs in `s`.
pub open spec fn occurrences(s: Seq<Seq<char>>, x: Seq<char>) -> nat
    decreases s.len(),
{
    if s.len() == 0 {
        0
    } else {
        occurrences(s.drop_last(), x) + if s.last() == x {
            1nat
        } else {
            0nat
        }
    }
}

/// The trimmed lines that are not empty.
pub open spec fn nonempty_trimmed(ls: Seq<Seq<char>>) -> Seq<Seq<char>>
    decreases ls.len(),
{
    if ls.len() == 0 {
        Seq::empty()
    } else if trim(ls.last()).len() > 0 {
        nonempty_trimmed(ls.drop_last()).push(trim(ls.last()))
    } else {
        nonempty_trimmed(ls.drop_last())
    }
}

/// The repeated-line suggestions for the distinct lines `ds`.
pub open spec fn repeat_suggestions(ds: Seq<Seq<char>>, all: Seq<Seq<char>>) -> Seq<(Seq<char>, Seq<char>, Seq<char>)>
    decreases ds.len(),
{
    if ds.len() == 0 {
        Seq::empty()
    } else {
        let prev = repeat_suggestions(ds.drop_last(), all);
        let l = ds.last();
        let c = occurrences(all, l);
        if c > 3 {
            prev.push(
                (
                    "repeated_code"@,
                    "Line '"@ + l + "' is repeated "@ + decimal(c) + " times"@,
                    "Consider extracting repeated code into a macro or include"@,
                ),
            )
        } else {
            prev
        }
    }
}

/// The optimization suggestions: each distinct non-empty line repeated more
/// than three times, in the order the lines first appear, then a large
/// template.
pub open spec fn optimization_suggestions_of(content: Seq<char>) -> Seq<(Seq<char>, Seq<char>, Seq<char>)> {
    let all = nonempty_trimmed(lines(content));
    let ds = crate::template::scope::first_occurrences(all);
    repeat_suggestions(ds, all) + if utf8_len(content) > 10000 {
        seq![
            (
                "large_template"@,
                "Template is very large"@,
                "Consider breaking down large templates into smaller, reusable components"@,
            ),
        ]
    } else {
        Seq::empty()
    }
}

fn count_equal(all: &Vec<String>, x: &String) -> (n: usize)
    ensures
        n == occurrences(strs(all@), x@),
{
    let ghost av = strs(all@);
    let mut n: usize = 0;
    let mut i: usize = 0;
    while i < all.len()
        invariant
            i <= all@.len(),
            av == strs(all@),
            n == occurrences(av.take(i as int), x@),
            n <= i,
        decreases all.len() - i,
    {
        proof {
            assert(av.take(i + 1).drop_last() =~= av.take(i as int));
            assert(av.take(i + 1).last() == all@[i as int]@);
        }
        if all[i] == *x {
            n = n + 1;
        }
        i = i + 1;
    }
    assert(av.take(i as int) =~= av);
    n
}

/// Generate optimization suggestions
pub fn generate_optimization_suggestions(template_content: &str) -> (r: Vec<OptimizationSuggestion>)
    ensures
        r@.map_values(|s: OptimizationSuggestion| s.model()) == optimization_suggestions_of(template_content@),
{
    let cs = str_chars(template_content);
    let ls = lines_exec(cs.as_slice());
    let ghost lv = ls@.map_values(|l: Vec<char>| l@);
    let mut all: Vec<String> = Vec::new();
    let mut i: usize = 0;
    while i < ls.len()
        invariant
            i <= ls@.len(),
            lv == ls@.map_values(|l: Vec<char>| l@),
            strs(all@) == nonempty_trimmed(lv.take(i as int)),
        decreases ls.len() - i,
    {
        let t = trim_chars(ls[i].as_slice());
        proof {
            assert(lv.take(i + 1).drop_last() =~= lv.take(i as int));
            assert(lv.take(i + 1).last() == ls@[i as int]@);
        }
        if t.len() > 0 {
            let ghost before = strs(all@);
            let ts = chars_to_string(t.as_slice());
            all.push(ts);
            assert(strs(all@) =~= before.push(ts@));
        }
        i = i + 1;
    }
    assert(lv.take(i as int) =~= lv);
    let ghost av = strs(all@);
    let mut out: Vec<OptimizationSuggestion> = Vec::new();
    let mut k: usize = 0;
    assert(out@.map_values(|s: OptimizationSuggestion| s.model()) =~= Seq::<(Seq<char>, Seq<char>, Seq<char>)>::empty());
    assert(av.take(0) =~= Seq::<Seq<char>>::empty());
    while k < all.len()
        invariant
            k <= all@.len(),
            av == strs(all@),
            out@.map_values(|s: OptimizationSuggestion| s.model()) == repeat_suggestions(
                crate::template::scope::first_occurrences(av.take(k as int)),
                av,
            ),
        decreases all.len() - k,
    {
        let x = &all[k];
        let mut seen = false;
        let mut j: usize = 0;
        while j < k
            invariant
                j <= k < all@.len(),
                av == strs(all@),
                x@ == av[k as int],
                seen == (exists|y: int| 0 <= y < j && #[trigger] av[y] == av[k as int]),
            decreases k - j,
        {
            assert(av[j as int] == all@[j as int]@);
            if all[j] == *x {
                seen = true;
            }
            j = j + 1;
        }
        proof {
            crate::template::scope::lemma_first_occurrences_step(av, k as int);
            assert(av[k as int] == x@);
            let fo = crate::template::scope::first_occurrences(av.take(k as int));
            if seen {
                assert(av.take(k as int).contains(av[k as int]));
                assert(crate::template::scope::first_occurrences(av.take(k + 1)) == fo);
            } else {
                assert(!av.take(k as int).contains(av[k as int]));
                assert(crate::template::scope::first_occurrences(av.take(k + 1)) == fo.push(x@));
                assert(fo.push(x@).drop_last() =~= fo);
            }
        }
        if !seen {
            let c = count_equal(&all, x);
            if c > 3 {
                let num = dec(c as u128);
                let msg = cat4("Line '", x.as_str(), "' is repeated ", num.as_str());
                let desc = cat2(msg.as_str(), " times");
                let ghost before = out@.map_values(|s: OptimizationSuggestion| s.model());
                let sg = OptimizationSuggestion::new(
                    "repeated_code".to_string(),
                    desc,
                    "Consider extracting repeated code into a macro or include".to_string(),
                );
                out.push(sg);
                proof {
                    reveal_strlit("");
                    assert(out@.map_values(|s: OptimizationSuggestion| s.model()) =~= before.push(sg.model()));
                    assert(sg.model().1 =~= "Line '"@ + x@ + "' is repeated "@ + decimal(c as nat) + " times"@);
                }
            }
        }
        k = k + 1;
    }
    assert(av.take(k as int) =~= av);
    let bytes = byte_len(cs.as_slice());
    if bytes > 10000 {
        let ghost before = out@.map_values(|s: OptimizationSuggestion| s.model());
        let sg = OptimizationSuggestion::new(
            "large_template".to_string(),
            "Template is very large".to_string(),
            "Consider breaking down large templates into smaller, reusable components".to_string(),
        );
        out.push(sg);
        assert(out@.map_values(|s: OptimizationSuggestion| s.model()) =~= before.push(sg.model()));
    } else {
        assert(out@.map_values(|s: OptimizationSuggestion| s.model()) =~= out@.map_values(|s: OptimizationSuggestion| s.model()) + Seq::<(Seq<char>, Seq<char>, Seq<char>)>::empty());
    }
    out
}


// ---------------------------------------------------------------------------
// Documentation
// ---------------------------------------------------------------------------

pub open spec fn documented_variable_pattern() -> Seq<char> {
    "\\{\\{\\s*([a-zA-Z_][a-zA-Z0-9_]*(?:\\.[a-zA-Z_][a-zA-Z0-9_]*)*)\\s*(?:\\|[^}]*)?\\s*\\}\\}"@
}

/// The type a variable's name suggests.
pub open spec fn variable_type_of(name: Seq<char>) -> Seq<char> {
    let n = crate::text::lowercase(name);
    if contains(n, "count"@) || contains(n, "num"@) || contains(n, "port"@) {
        "number"@
    } else if contains(n, "enable"@) || contains(n, "disable"@) || contains(n, "is_"@) {
        "boolean"@
    } else if contains(n, "list"@) || contains(n, "items"@) || crate::text::ends_with(n, "s"@) {
        "array"@
    } else {
        "string"@
    }
}

/// The description a variable's name suggests, if any.
pub open spec fn variable_description_of(name: Seq<char>) -> Option<Seq<char>> {
    let n = crate::text::lowercase(name);
    if contains(n, "interface"@) {
        Some("Network interface name or identifier"@)
    } else if contains(n, "ip"@) || contains(n, "address"@) {
        Some("IP address or network address"@)
    } else if contains(n, "vlan"@) {
        Some("VLAN identifier or configuration"@)
    } else if contains(n, "description"@) {
        Some("Descriptive text or comment"@)
    } else {
        None
    }
}

fn has(s: &Vec<char>, p: &str) -> (b: bool)
    ensures
        b == contains(s@, p@),
{
    let pc = str_chars(p);
    contains_exec(s.as_slice(), pc.as_slice())
}

/// Infer variable type from name
pub fn infer_variable_type(var_name: &str) -> (s: String)
    ensures
        s@ == variable_type_of(var_name@),
{
    let lo = crate::text::to_lowercase_str(var_name);
    let n = str_chars(lo.as_str());
    let s_ = str_chars("s");
    if has(&n, "count") || has(&n, "num") || has(&n, "port") {
        "number".to_string()
    } else if has(&n, "enable") || has(&n, "disable") || has(&n, "is_") {
        "boolean".to_string()
    } else if has(&n, "list") || has(&n, "items") || crate::text::ends_with_exec(n.as_slice(), s_.as_slice()) {
        "array".to_string()
    } else {
        "string".to_string()
    }
}

/// Generate description for variable
pub fn generate_variable_description(var_name: &str) -> (r: Option<String>)
    ensures
        crate::patterns::opt_view(r) == variable_description_of(var_name@),
{
    let lo = crate::text::to_lowercase_str(var_name);
    let n = str_chars(lo.as_str());
    if has(&n, "interface") {
        Some("Network interface name or identifier".to_string())
    } else if has(&n, "ip") || has(&n, "address") {
        Some("IP address or network address".to_string())
    } else if has(&n, "vlan") {
        Some("VLAN identifier or configuration".to_string())
    } else if has(&n, "description") {
        Some("Descriptive text or comment".to_string())
    } else {
        None
    }
}

impl TemplateVariable {
    /// Name, type, description, required, and whether a default is set.
    pub open spec fn model(self) -> (Seq<char>, Seq<char>, Option<Seq<char>>, bool, bool) {
        (self.name@, self.variable_type@, crate::patterns::opt_view(self.description), self.required, self.default_value is Some)
    }
}

/// The variables a template documents: each distinct name, in the order it
/// first appears, with its suggested type and description, required, and
/// without a default.
pub open spec fn documented_variables(content: Seq<char>) -> Seq<(Seq<char>, Seq<char>, Option<Seq<char>>, bool, bool)> {
    crate::template::scope::first_occurrences(captured(documented_variable_pattern(), content)).map_values(
        |n: Seq<char>| (n, variable_type_of(n), variable_description_of(n), true, false),
    )
}

/// Extract template variables and their usage; `Err` when the pattern does
/// not compile.
pub fn extract_template_variables(template_content: &str) -> (r: Result<Vec<TemplateVariable>, QualityError>)
    ensures
        r is Err <==> !regex_valid(documented_variable_pattern()),
        r matches Ok(v) ==> v@.map_values(|x: TemplateVariable| x.model()) == documented_variables(template_content@),
{
    let caps = match crate::patterns::regex_all_captures(
        "\\{\\{\\s*([a-zA-Z_][a-zA-Z0-9_]*(?:\\.[a-zA-Z_][a-zA-Z0-9_]*)*)\\s*(?:\\|[^}]*)?\\s*\\}\\}",
        template_content,
    ) {
        None => {
            return Err(
                QualityError::Pattern(
                    "\\{\\{\\s*([a-zA-Z_][a-zA-Z0-9_]*(?:\\.[a-zA-Z_][a-zA-Z0-9_]*)*)\\s*(?:\\|[^}]*)?\\s*\\}\\}".to_string(),
                ),
            );
        },
        Some(c) => c,
    };
    let mut names: Vec<String> = Vec::new();
    captured_into(&caps, &mut names);
    let ghost nv = strs(names@);
    assert(nv =~= captured(documented_variable_pattern(), template_content@));
    let mut out: Vec<TemplateVariable> = Vec::new();
    let mut k: usize = 0;
    assert(nv.take(0) =~= Seq::<Seq<char>>::empty());
    assert(out@.map_values(|x: TemplateVariable| x.model()) =~= crate::template::scope::first_occurrences(nv.take(0)).map_values(
        |n: Seq<char>| (n, variable_type_of(n), variable_description_of(n), true, false),
    ));
    while k < names.len()
        invariant
            k <= names@.len(),
            nv == strs(names@),
            out@.map_values(|x: TemplateVariable| x.model()) == crate::template::scope::first_occurrences(nv.take(k as int)).map_values(
                |n: Seq<char>| (n, variable_type_of(n), variable_description_of(n), true, false),
            ),
        decreases names.len() - k,
    {
        let x = &names[k];
        let mut seen = false;
        let mut j: usize = 0;
        while j < k
            invariant
                j <= k < names@.len(),
                nv == strs(names@),
                x@ == nv[k as int],
                seen == (exists|y: int| 0 <= y < j && #[trigger] nv[y] == nv[k as int]),
            decreases k - j,
        {
            assert(nv[j as int] == names@[j as int]@);
            if names[j] == *x {
                seen = true;
            }
            j = j + 1;
        }
        proof {
            crate::template::scope::lemma_first_occurrences_step(nv, k as int);
            let fo = crate::template::scope::first_occurrences(nv.take(k as int));
            if seen {
                assert(nv.take(k as int).contains(nv[k as int]));
                assert(crate::template::scope::first_occurrences(nv.take(k + 1)) == fo);
            } else {
                assert(!nv.take(k as int).contains(nv[k as int]));
                assert(crate::template::scope::first_occurrences(nv.take(k + 1)) == fo.push(x@));
            }
        }
        if !seen {
            let ghost before = out@.map_values(|x: TemplateVariable| x.model());
            let v = TemplateVariable {
                name: x.clone(),
                variable_type: infer_variable_type(x.as_str()),
                description: generate_variable_description(x.as_str()),
                required: true,
                default_value: None,
            };
            out.push(v);
            assert(out@.map_values(|x: TemplateVariable| x.model()) =~= before.push(v.model()));
        }
        k = k + 1;
    }
    assert(nv.take(k as int) =~= nv);
    Ok(out)
}

impl ExampleValue {
    pub open spec fn is_example_for(self, t: Seq<char>) -> bool {
        if t == "string"@ {
            self matches ExampleValue::Text(s) && s@ == "example_value"@
        } else if t == "number"@ {
            self == ExampleValue::Number(42)
        } else if t == "boolean"@ {
            self == ExampleValue::Flag(true)
        } else if t == "array"@ {
            self matches ExampleValue::List(l) && l@.len() == 2 && l@[0]@ == "item1"@ && l@[1]@ == "item2"@
        } else {
            self matches ExampleValue::Text(s) && s@ == "example"@
        }
    }
}

/// What an example value holds, as plain values.
pub enum ExampleValueModel {
    Text(Seq<char>),
    Number(i64),
    Flag(bool),
    List(Seq<Seq<char>>),
}

impl ExampleValue {
    pub open spec fn model(self) -> ExampleValueModel {
        match self {
            ExampleValue::Text(t) => ExampleValueModel::Text(t@),
            ExampleValue::Number(n) => ExampleValueModel::Number(n),
            ExampleValue::Flag(b) => ExampleValueModel::Flag(b),
            ExampleValue::List(l) => ExampleValueModel::List(strs(l@)),
        }
    }
}

/// An example context as names and plain values, in order.
pub open spec fn context_model(c: Seq<(String, ExampleValue)>) -> Seq<(Seq<char>, ExampleValueModel)> {
    c.map_values(|p: (String, ExampleValue)| (p.0@, p.1.model()))
}

/// The text `serde_json::to_string_pretty` writes for an example context
/// taken as a JSON object of its names and values.
pub uninterp spec fn context_json(context: Seq<(Seq<char>, ExampleValueModel)>) -> Seq<char>;

/// `serde_json::to_string_pretty` on the context as a JSON object: each
/// name a key, each value the JSON string, number, boolean or array of
/// strings that it holds. Writing such an object cannot fail; which text
/// comes out is named, not restated.
#[verifier::external_body]
pub(crate) fn context_json_text(context: &Vec<(String, ExampleValue)>) -> (s: String)
    ensures
        s@ == context_json(context_model(context@)),
{
    let object: ::serde_json::Map<String, ::serde_json::Value> = context.iter().map(|(k, v)| (k.clone(), match v {
        ExampleValue::Text(t) => ::serde_json::Value::from(t.clone()),
        ExampleValue::Number(n) => ::serde_json::Value::from(*n),
        ExampleValue::Flag(b) => ::serde_json::Value::from(*b),
        ExampleValue::List(l) => ::serde_json::Value::from(l.clone()),
    })).collect();
    ::serde_json::to_string_pretty(&object).unwrap_or_default()
}

fn example_value(t: &String) -> (v: ExampleValue)
    ensures
        v.is_example_for(t@),
{
    if str_is(t, "string") {
        ExampleValue::Text("example_value".to_string())
    } else if str_is(t, "number") {
        ExampleValue::Number(42)
    } else if str_is(t, "boolean") {
        ExampleValue::Flag(true)
    } else if str_is(t, "array") {
        let mut l: Vec<String> = Vec::new();
        l.push("item1".to_string());
        l.push("item2".to_string());
        ExampleValue::List(l)
    } else {
        ExampleValue::Text("example".to_string())
    }
}

/// The usage examples of a template: one basic example whose context gives
/// each documented variable, in order, an example value of its type.
pub open spec fn usage_examples_for(content: Seq<char>, v: Seq<UsageExample>) -> bool {
    let dv = documented_variables(content);
    &&& v.len() == 1
    &&& v[0].title@ == "Basic Usage"@
    &&& v[0].description@ == "Basic template rendering example"@
    &&& v[0].expected_output is None
    &&& v[0].context@.len() == dv.len()
    &&& forall|k: int| 0 <= k < v[0].context@.len() ==> (#[trigger] v[0].context@[k]).0@ == dv[k].0 && v[0].context@[k].1.is_example_for(dv[k].1)
}

/// Generate usage examples for template: one basic example whose context
/// gives each documented variable an example value of its type.
pub fn generate_usage_examples(template_content: &str) -> (r: Result<Vec<UsageExample>, QualityError>)
    ensures
        r is Err <==> !regex_valid(documented_variable_pattern()),
        r matches Ok(v) ==> usage_examples_for(template_content@, v@),
{
    let vars = match extract_template_variables(template_content) {
        Ok(v) => v,
        Err(e) => {
            return Err(e);
        },
    };
    let ghost dv = documented_variables(template_content@);
    let mut ctx: Vec<(String, ExampleValue)> = Vec::new();
    let mut i: usize = 0;
    while i < vars.len()
        invariant
            i <= vars@.len(),
            vars@.map_values(|x: TemplateVariable| x.model()) == dv,
            ctx@.len() == i,
            forall|k: int| 0 <= k < i ==> (#[trigger] ctx@[k]).0@ == dv[k].0 && ctx@[k].1.is_example_for(dv[k].1),
        decreases vars.len() - i,
    {
        let v = &vars[i];
        assert(dv[i as int] == v.model());
        ctx.push((v.name.clone(), example_value(&v.variable_type)));
        i = i + 1;
    }
    let mut out: Vec<UsageExample> = Vec::new();
    out.push(UsageExample {
        title: "Basic Usage".to_string(),
        description: "Basic template rendering example".to_string(),
        context: ctx,
        expected_output: None,
    });
    Ok(out)
}


// ---------------------------------------------------------------------------
// Structure and sections
// ---------------------------------------------------------------------------

/// Name, first line, end line and length of a section.
pub type SectionModel = (Seq<char>, nat, nat, nat);

impl TemplateSection {
    pub open spec fn model(self) -> SectionModel {
        (self.name@, self.start_line as nat, self.end_line as nat, self.line_count as nat)
    }
}

/// A comment line that opens a section.
pub open spec fn section_marker(t: Seq<char>) -> bool {
    starts_with(t, "{#"@) && (contains(t, "section"@) || contains(t, "SECTION"@))
}

/// The text of a comment: without its `{#` and `#}` marks, trimmed.
pub open spec fn comment_text(t: Seq<char>) -> Seq<char> {
    trim(crate::text::replace_all(crate::text::replace_all(t, "{#"@, ""@), "#}"@, ""@))
}

/// The sections closed within the first `n` lines, and the one still open
/// with the line it opened at (counting from 0).
pub open spec fn section_fold(ls: Seq<Seq<char>>, n: nat) -> (Seq<SectionModel>, Option<(Seq<char>, nat)>)
    decreases n,
{
    if n == 0 {
        (Seq::empty(), None)
    } else {
        let st = section_fold(ls, (n - 1) as nat);
        let k = (n - 1) as nat;
        let t = trim(ls[k as int]);
        if section_marker(t) {
            (
                match st.1 {
                    Some(c) => st.0.push((c.0, c.1, k, (k - c.1) as nat)),
                    None => st.0,
                },
                Some((comment_text(t), k)),
            )
        } else {
            st
        }
    }
}

/// The sections of a template: each runs from its marker comment up to
/// the next marker, the last one to the end.
pub open spec fn sections_of(content: Seq<char>) -> Seq<SectionModel> {
    let ls = lines(content);
    let st = section_fold(ls, ls.len());
    match st.1 {
        Some(c) => st.0.push((c.0, c.1, ls.len(), (ls.len() - c.1) as nat)),
        None => st.0,
    }
}

proof fn lemma_section_fold_bound(ls: Seq<Seq<char>>, n: nat)
    ensures
        section_fold(ls, n).1 matches Some(c) ==> c.1 < n,
        forall|i: int| 0 <= i < section_fold(ls, n).0.len() ==> (#[trigger] section_fold(ls, n).0[i]).2 < n,
    decreases n,
{
    if n > 0 {
        lemma_section_fold_bound(ls, (n - 1) as nat);
    }
}

fn comment_text_exec(t: &[char]) -> (r: String)
    ensures
        r@ == comment_text(t@),
{
    let open = str_chars("{#");
    let close = str_chars("#}");
    let empty = str_chars("");
    proof {
        reveal_strlit("{#");
        reveal_strlit("#}");
    }
    let a = crate::text::replace_exec(t, open.as_slice(), empty.as_slice());
    let b = crate::text::replace_exec(a.as_slice(), close.as_slice(), empty.as_slice());
    let c = trim_chars(b.as_slice());
    chars_to_string(c.as_slice())
}

fn is_section_marker(t: &Vec<char>) -> (b: bool)
    ensures
        b == section_marker(t@),
{
    let open = str_chars("{#");
    starts_with_exec(t.as_slice(), open.as_slice()) && (has(t, "section") || has(t, "SECTION"))
}

/// Identify template sections
pub fn identify_template_sections(template_content: &str) -> (r: Vec<TemplateSection>)
    ensures
        r@.map_values(|s: TemplateSection| s.model()) == sections_of(template_content@),
{
    let cs = str_chars(template_content);
    let ls = lines_exec(cs.as_slice());
    let ghost lv = ls@.map_values(|l: Vec<char>| l@);
    let mut sections: Vec<TemplateSection> = Vec::new();
    let mut current: Option<(String, usize)> = None;
    let mut k: usize = 0;
    assert(sections@.map_values(|s: TemplateSection| s.model()) =~= Seq::<SectionModel>::empty());
    while k < ls.len()
        invariant
            k <= ls@.len(),
            lv == ls@.map_values(|l: Vec<char>| l@),
            sections@.map_values(|s: TemplateSection| s.model()) == section_fold(lv, k as nat).0,
            match current {
                Some(c) => section_fold(lv, k as nat).1 == Some((c.0@, c.1 as nat)) && c.1 < k,
                None => section_fold(lv, k as nat).1 is None,
            },
        decreases ls.len() - k,
    {
        let t = trim_chars(ls[k].as_slice());
        proof {
            assert(lv[k as int] == ls@[k as int]@);
        }
        if is_section_marker(&t) {
            let ghost before = sections@.map_values(|s: TemplateSection| s.model());
            match current {
                Some(c) => {
                    let sec = TemplateSection { name: c.0, start_line: c.1, end_line: k, line_count: k - c.1 };
                    sections.push(sec);
                    assert(sections@.map_values(|s: TemplateSection| s.model()) =~= before.push(sec.model()));
                },
                None => {},
            }
            current = Some((comment_text_exec(t.as_slice()), k));
        }
        k = k + 1;
    }
    let n = ls.len();
    let ghost before = sections@.map_values(|s: TemplateSection| s.model());
    match current {
        Some(c) => {
            let sec = TemplateSection { name: c.0, start_line: c.1, end_line: n, line_count: n - c.1 };
            sections.push(sec);
            assert(sections@.map_values(|s: TemplateSection| s.model()) =~= before.push(sec.model()));
        },
        None => {},
    }
    sections
}

impl TemplateStructure {
    /// Line count, then counts of `{% `, `{{ ` and `{# `, then sections.
    pub open spec fn describes(self, content: Seq<char>) -> bool {
        &&& self.total_lines == lines(content).len()
        &&& self.template_blocks == count_matches(content, "{% "@)
        &&& self.output_expressions == count_matches(content, "{{ "@)
        &&& self.comments == count_matches(content, "{# "@)
        &&& self.sections@.map_values(|s: TemplateSection| s.model()) == sections_of(content)
    }
}

/// Analyze template structure
pub fn analyze_template_structure(template_content: &str) -> (s: TemplateStructure)
    ensures
        s.describes(template_content@),
{
    let cs = str_chars(template_content);
    let ls = lines_exec(cs.as_slice());
    let b = str_chars("{% ");
    let o = str_chars("{{ ");
    let c = str_chars("{# ");
    proof {
        reveal_strlit("{% ");
        reveal_strlit("{{ ");
        reveal_strlit("{# ");
        assert(ls@.map_values(|l: Vec<char>| l@).len() == ls@.len());
    }
    TemplateStructure {
        total_lines: ls.len(),
        template_blocks: count_matches_exec(cs.as_slice(), b.as_slice()),
        output_expressions: count_matches_exec(cs.as_slice(), o.as_slice()),
        comments: count_matches_exec(cs.as_slice(), c.as_slice()),
        sections: identify_template_sections(template_content),
    }
}

/// The header text of the first comment line holding a header directive.
pub open spec fn header_line_from(ls: Seq<Seq<char>>) -> Option<Seq<char>>
    decreases ls.len(),
{
    if ls.len() == 0 {
        None
    } else if starts_with(trim(ls[0]), "{#"@) && contains(trim(ls[0]), "template-match:"@) {
        Some(comment_text(trim(ls[0])))
    } else {
        header_line_from(ls.drop_first())
    }
}

/// Extract template header line from template content
pub fn extract_header_line(template_content: &str) -> (r: Option<String>)
    ensures
        crate::patterns::opt_view(r) == header_line_from(lines(template_content@)),
{
    let cs = str_chars(template_content);
    let ls = lines_exec(cs.as_slice());
    let ghost lv = ls@.map_values(|l: Vec<char>| l@);
    let open = str_chars("{#");
    let mut k: usize = 0;
    assert(lv.skip(0) =~= lv);
    while k < ls.len()
        invariant
            k <= ls@.len(),
            lv == ls@.map_values(|l: Vec<char>| l@),
            lv == lines(template_content@),
            open@ == "{#"@,
            header_line_from(lv) == header_line_from(lv.skip(k as int)),
        decreases ls.len() - k,
    {
        let t = trim_chars(ls[k].as_slice());
        proof {
            assert(lv.skip(k as int)[0] == ls@[k as int]@);
            assert(lv.skip(k as int).drop_first() =~= lv.skip(k + 1));
        }
        if starts_with_exec(t.as_slice(), open.as_slice()) && has(&t, "template-match:") {
            return Some(comment_text_exec(t.as_slice()));
        }
        k = k + 1;
    }
    None
}


// ---------------------------------------------------------------------------
// Markdown
// ---------------------------------------------------------------------------

/// The name of a pattern kind, as the variant is called.
pub open spec fn kind_name(k: PatternKind) -> Seq<char> {
    match k {
        PatternKind::Exact => "Exact"@,
        PatternKind::Regex => "Regex"@,
        PatternKind::HierarchicalPath => "HierarchicalPath"@,
        PatternKind::Glob => "Glob"@,
    }
}

/// What `{:?}` writes for a match pattern of this kind and text: the
/// variant's name and its quoted text in parentheses.
pub open spec fn pattern_debug(kind: PatternKind, text: Seq<char>) -> Seq<char> {
    kind_name(kind) + "("@ + debug_quoted(text) + ")"@
}

/// What `{:?}` writes for a list of strings: each quoted, separated by
/// commas, in square brackets.
pub open spec fn list_debug(items: Seq<Seq<char>>) -> Seq<char> {
    "["@ + join(items.map_values(|t: Seq<char>| debug_quoted(t)), ", "@) + "]"@
}

/// What `{:?}` writes for an optional list of strings.
pub open spec fn opt_list_debug(o: Option<Seq<Seq<char>>>) -> Seq<char> {
    match o {
        None => "None"@,
        Some(l) => "Some("@ + list_debug(l) + ")"@,
    }
}

/// What `{:?}` writes for a template scope: the struct's name and its
/// three fields in order.
pub open spec fn scope_debug(scope: ScopeModel) -> Seq<char> {
    "TemplateScope { device_types: "@ + opt_list_debug(scope.0) + ", vendors: "@ + opt_list_debug(scope.1)
        + ", contexts: "@ + opt_list_debug(scope.2) + " }"@
}

/// The `Debug` form of a match pattern.
fn pattern_debug_text(p: &MatchPattern) -> (s: String)
    ensures
        s@ == pattern_debug(p.kind(), p.text()),
{
    let mut v: Vec<char> = Vec::new();
    let t = match p {
        MatchPattern::Exact(t) => {
            push_str(&mut v, "Exact");
            t
        },
        MatchPattern::Regex(t) => {
            push_str(&mut v, "Regex");
            t
        },
        MatchPattern::HierarchicalPath(t) => {
            push_str(&mut v, "HierarchicalPath");
            t
        },
        MatchPattern::Glob(t) => {
            push_str(&mut v, "Glob");
            t
        },
    };
    assert(v@ == kind_name(p.kind()) && t@ == p.text());
    push_str(&mut v, "(");
    let q = debug_quoted_str(t.as_str());
    push_str(&mut v, q.as_str());
    push_str(&mut v, ")");
    chars_to_string(v.as_slice())
}

fn push_list_debug(v: &mut Vec<char>, items: &Vec<String>)
    ensures
        final(v)@ == old(v)@ + list_debug(strs(items@)),
{
    let ghost qs = strs(items@).map_values(|t: Seq<char>| debug_quoted(t));
    let mut parts: Vec<Vec<char>> = Vec::new();
    let mut i: usize = 0;
    while i < items.len()
        invariant
            i <= items@.len(),
            qs == strs(items@).map_values(|t: Seq<char>| debug_quoted(t)),
            parts@.len() == i,
            forall|k: int| 0 <= k < i ==> (#[trigger] parts@[k])@ == qs[k],
        decreases items.len() - i,
    {
        let q = debug_quoted_str(items[i].as_str());
        parts.push(string_chars(&q));
        i = i + 1;
    }
    assert(parts@.map_values(|l: Vec<char>| l@) =~= qs);
    push_str(v, "[");
    let joined = join_exec(&parts, [',', ' '].as_slice());
    assert(seq![',', ' '] =~= ", "@) by {
        reveal_strlit(", ");
    }
    push_all(v, joined.as_slice());
    push_str(v, "]");
    assert(final(v)@ =~= old(v)@ + list_debug(strs(items@)));
}

fn push_opt_list_debug(v: &mut Vec<char>, o: &Option<Vec<String>>)
    ensures
        final(v)@ == old(v)@ + opt_list_debug(opt_strs(*o)),
{
    match o {
        None => {
            push_str(v, "None");
        },
        Some(l) => {
            push_str(v, "Some(");
            push_list_debug(v, l);
            push_str(v, ")");
        },
    }
}

/// The `Debug` form of a template scope.
fn scope_debug_text(sc: &TemplateScope) -> (s: String)
    ensures
        s@ == scope_debug(sc.model()),
{
    let mut v: Vec<char> = Vec::new();
    push_str(&mut v, "TemplateScope { device_types: ");
    push_opt_list_debug(&mut v, &sc.device_types);
    push_str(&mut v, ", vendors: ");
    push_opt_list_debug(&mut v, &sc.vendors);
    push_str(&mut v, ", contexts: ");
    push_opt_list_debug(&mut v, &sc.contexts);
    push_str(&mut v, " }");
    chars_to_string(v.as_slice())
}

pub open spec fn md_metadata(h: Option<TemplateHeader>) -> Seq<char> {
    match h {
        None => Seq::empty(),
        Some(h) => "## Template Metadata\n\n"@ + "- **Match Pattern**: "@ + pattern_debug(h.pattern.kind(), h.pattern.text()) + "\n"@
            + match h.scope {
            Some(sc) => "- **Scope**: "@ + scope_debug(sc.model()) + "\n"@,
            None => Seq::empty(),
        } + "\n"@,
    }
}

pub open spec fn md_variable_row(v: TemplateVariable) -> Seq<char> {
    "| "@ + v.name@ + " | "@ + v.variable_type@ + " | "@ + (if v.required { "Yes"@ } else { "No"@ }) + " | "@ + match v.description {
        Some(d) => d@,
        None => "No description"@,
    } + " |\n"@
}

pub open spec fn md_rows(vs: Seq<TemplateVariable>) -> Seq<char>
    decreases vs.len(),
{
    if vs.len() == 0 {
        Seq::empty()
    } else {
        md_rows(vs.drop_last()) + md_variable_row(vs.last())
    }
}

pub open spec fn md_variables(vs: Seq<TemplateVariable>) -> Seq<char> {
    if vs.len() == 0 {
        Seq::empty()
    } else {
        "## Template Variables\n\n"@ + "| Name | Type | Required | Description |\n"@ + "|------|------|----------|-------------|\n"@ + md_rows(vs) + "\n"@
    }
}

pub open spec fn md_structure(st: TemplateStructure) -> Seq<char> {
    "## Template Structure\n\n"@ + "- **Total Lines**: "@ + decimal(st.total_lines as nat) + "\n"@ + "- **Template Blocks**: "@ + decimal(
        st.template_blocks as nat,
    ) + "\n"@ + "- **Output Expressions**: "@ + decimal(st.output_expressions as nat) + "\n"@ + "- **Comments**: "@ + decimal(
        st.comments as nat,
    ) + "\n"@ + "\n"@
}

pub open spec fn md_example(e: UsageExample) -> Seq<char> {
    "### "@ + e.title@ + "\n\n"@ + (if e.description@.len() > 0 { e.description@ + "\n\n"@ } else { Seq::empty() }) + "```json\n"@
        + context_json(context_model(e.context@)) + "\n```\n\n"@
}

pub open spec fn md_example_list(es: Seq<UsageExample>) -> Seq<char>
    decreases es.len(),
{
    if es.len() == 0 {
        Seq::empty()
    } else {
        md_example_list(es.drop_last()) + md_example(es.last())
    }
}

pub open spec fn md_examples(es: Seq<UsageExample>) -> Seq<char> {
    if es.len() == 0 {
        Seq::empty()
    } else {
        "## Usage Examples\n\n"@ + md_example_list(es)
    }
}

/// The markdown documentation of a template, each usage example's context
/// written as its JSON text.
pub open spec fn markdown_of(d: TemplateDocumentation) -> Seq<char> {
    "# Template Documentation\n\n"@ + md_metadata(d.metadata) + md_variables(d.variables@) + md_structure(d.template_structure)
        + md_examples(d.usage_examples@)
}

fn push_s(out: &mut Vec<char>, s: &str)
    ensures
        final(out)@ == old(out)@ + s@,
{
    crate::text::push_str(out, s)
}

fn push_n(out: &mut Vec<char>, n: usize)
    ensures
        final(out)@ == old(out)@ + decimal(n as nat),
{
    crate::text::push_decimal(out, n as u64)
}

fn md_metadata_exec(m: &mut Vec<char>, meta: &Option<TemplateHeader>)
    ensures
        final(m)@ == old(m)@ + md_metadata(*meta),
{
    let ghost m0 = m@;
    match meta {
        Some(h) => {
            push_s(m, "## Template Metadata\n\n");
            push_s(m, "- **Match Pattern**: ");
            let pd = pattern_debug_text(&h.pattern);
            push_s(m, pd.as_str());
            push_s(m, "\n");
            match &h.scope {
                Some(sc) => {
                    push_s(m, "- **Scope**: ");
                    let sd = scope_debug_text(sc);
                    push_s(m, sd.as_str());
                    push_s(m, "\n");
                },
                None => {},
            }
            push_s(m, "\n");
            assert(m@ =~= m0 + md_metadata(*meta));
        },
        None => {
            assert(m@ =~= m0 + md_metadata(*meta));
        },
    }
}

fn md_row_exec(m: &mut Vec<char>, v: &TemplateVariable)
    ensures
        final(m)@ == old(m)@ + md_variable_row(*v),
{
    let ghost m0 = m@;
    push_s(m, "| ");
    push_s(m, v.name.as_str());
    push_s(m, " | ");
    push_s(m, v.variable_type.as_str());
    push_s(m, " | ");
    push_s(m, if v.required { "Yes" } else { "No" });
    push_s(m, " | ");
    match &v.description {
        Some(d) => push_s(m, d.as_str()),
        None => push_s(m, "No description"),
    }
    push_s(m, " |\n");
    assert(m@ =~= m0 + md_variable_row(*v));
}

fn md_variables_exec(m: &mut Vec<char>, vs: &Vec<TemplateVariable>)
    ensures
        final(m)@ == old(m)@ + md_variables(vs@),
{
    let ghost m1 = m@;
    if vs.len() > 0 {
        push_s(m, "## Template Variables\n\n");
        push_s(m, "| Name | Type | Required | Description |\n");
        push_s(m, "|------|------|----------|-------------|\n");
        let ghost start = m@;
        let mut i: usize = 0;
        assert(start + md_rows(vs@.take(0)) =~= start);
        while i < vs.len()
            invariant
                i <= vs@.len(),
                m@ == start + md_rows(vs@.take(i as int)),
            decreases vs.len() - i,
        {
            let v = &vs[i];
            md_row_exec(m, v);
            proof {
                assert(vs@.take(i + 1).drop_last() =~= vs@.take(i as int));
                assert(vs@.take(i + 1).last() == *v);
                assert(m@ =~= start + md_rows(vs@.take(i + 1)));
            }
            i = i + 1;
        }
        push_s(m, "\n");
        proof {
            assert(vs@.take(i as int) =~= vs@);
            assert(m@ =~= m1 + md_variables(vs@));
        }
    } else {
        assert(m@ =~= m1 + md_variables(vs@));
    }
}

fn md_structure_exec(m: &mut Vec<char>, st: &TemplateStructure)
    ensures
        final(m)@ == old(m)@ + md_structure(*st),
{
    let ghost m2 = m@;
    push_s(m, "## Template Structure\n\n");
    push_s(m, "- **Total Lines**: ");
    push_n(m, st.total_lines);
    push_s(m, "\n");
    push_s(m, "- **Template Blocks**: ");
    push_n(m, st.template_blocks);
    push_s(m, "\n");
    push_s(m, "- **Output Expressions**: ");
    push_n(m, st.output_expressions);
    push_s(m, "\n");
    push_s(m, "- **Comments**: ");
    push_n(m, st.comments);
    push_s(m, "\n");
    push_s(m, "\n");
    assert(m@ =~= m2 + md_structure(*st));
}

fn md_example_exec(m: &mut Vec<char>, e: &UsageExample)
    ensures
        final(m)@ == old(m)@ + md_example(*e),
{
    let json = context_json_text(&e.context);
    let ghost m0 = m@;
    push_s(m, "### ");
    push_s(m, e.title.as_str());
    push_s(m, "\n\n");
    if str_chars(e.description.as_str()).len() > 0 {
        push_s(m, e.description.as_str());
        push_s(m, "\n\n");
    }
    push_s(m, "```json\n");
    push_s(m, json.as_str());
    push_s(m, "\n```\n\n");
    assert(m@ =~= m0 + md_example(*e));
}

fn md_examples_exec(m: &mut Vec<char>, es: &Vec<UsageExample>)
    ensures
        final(m)@ == old(m)@ + md_examples(es@),
{
    let ghost m3 = m@;
    if es.len() > 0 {
        push_s(m, "## Usage Examples\n\n");
        let ghost start = m@;
        let mut i: usize = 0;
        assert(start + md_example_list(es@.take(0)) =~= start);
        while i < es.len()
            invariant
                i <= es@.len(),
                m@ == start + md_example_list(es@.take(i as int)),
            decreases es.len() - i,
        {
            let e = &es[i];
            md_example_exec(m, e);
            proof {
                let t = es@.take(i + 1);
                assert(t.drop_last() =~= es@.take(i as int));
                assert(t.last() == *e);
                assert(m@ =~= start + md_example_list(t));
            }
            i = i + 1;
        }
        proof {
            assert(es@.take(i as int) =~= es@);
            assert(m@ =~= m3 + md_examples(es@));
        }
    } else {
        assert(m@ =~= m3 + md_examples(es@));
    }
}

/// Generate the markdown documentation: metadata, variables table,
/// structure and usage examples, each example's context written as JSON.
pub fn generate_markdown_documentation(documentation: &TemplateDocumentation) -> (s: String)
    ensures
        s@ == markdown_of(*documentation),
{
    let mut m: Vec<char> = Vec::new();
    push_s(&mut m, "# Template Documentation\n\n");
    md_metadata_exec(&mut m, &documentation.metadata);
    md_variables_exec(&mut m, &documentation.variables);
    md_structure_exec(&mut m, &documentation.template_structure);
    md_examples_exec(&mut m, &documentation.usage_examples);
    assert(m@ =~= markdown_of(*documentation));
    chars_to_string(m.as_slice())
}


// ---------------------------------------------------------------------------
// The analyzer
// ---------------------------------------------------------------------------

/// How a template's complexity counts towards its lint score.
pub open spec fn complexity_points(c: crate::template::validation::TemplateComplexity) -> u32 {
    match c {
        crate::template::validation::TemplateComplexity::Low => 25,
        crate::template::validation::TemplateComplexity::Medium => 60,
        crate::template::validation::TemplateComplexity::High => 100,
    }
}

/// Convert a complexity level to a numeric score
pub fn complexity_to_score(complexity: &crate::template::validation::TemplateComplexity) -> (p: u32)
    ensures
        p == complexity_points(*complexity),
{
    match complexity {
        crate::template::validation::TemplateComplexity::Low => 25,
        crate::template::validation::TemplateComplexity::Medium => 60,
        crate::template::validation::TemplateComplexity::High => 100,
    }
}

/// Comprehensive template quality analyzer
#[derive(Debug, Clone)]
pub struct TemplateQualityAnalyzer {
    /// Template validator for syntax checking
    pub validator: crate::template::validation::TemplateValidator,
    /// Header parser for metadata extraction
    pub header_parser: HeaderParser,
    /// Configuration for quality analysis
    pub config: QualityAnalysisConfig,
}

/// A count, capped at the largest `usize`.
pub open spec fn capped_count(n: int) -> int {
    if n <= usize::MAX {
        n
    } else {
        usize::MAX as int
    }
}

/// Linting fails when one of its patterns does not compile.
pub open spec fn lint_fails(content: Seq<char>) -> bool {
    !regex_valid(ip_pattern()) || !regex_valid(name_pattern()) || performance_warnings(content) is None
}

/// A security scan fails when one of its patterns does not compile.
pub open spec fn security_fails(content: Seq<char>) -> bool {
    dangerous_findings(content) is None || credential_findings(credential_patterns(), content) is None
        || input_validation_findings(content) is None
}

/// A performance analysis fails when the output expression pattern does not
/// compile.
pub open spec fn performance_fails() -> bool {
    !regex_valid(expression_pattern())
}

/// Documentation fails when the documented variable pattern does not compile.
pub open spec fn documentation_fails() -> bool {
    !regex_valid(documented_variable_pattern())
}

/// What a performance analysis says of a template whatever became of its
/// compilation: size, lines, the rendering estimate where there is one, the
/// memory estimate and the optimization suggestions.
pub open spec fn performance_measures(content: Seq<char>, a: TemplatePerformanceAnalysis) -> bool {
    &&& a.template_size_bytes == utf8_len(content)
    &&& a.line_count == lines(content).len()
    &&& (a.rendering_estimates matches Some(e) ==> rendering_estimate_of(content, e))
    &&& a.estimated_memory_usage == memory_estimate(utf8_len(content), regex_match_count(expression_pattern(), content))
    &&& a.optimization_suggestions@.map_values(|s: OptimizationSuggestion| s.model()) == optimization_suggestions_of(content)
}

/// The performance analysis of a template, given how compiling it went:
/// its compile time, or the compiler's message.
pub open spec fn performance_given(content: Seq<char>, compilation: Result<Span, String>, a: TemplatePerformanceAnalysis) -> bool {
    &&& performance_measures(content, a)
    &&& a.compilation_successful == compilation is Ok
    &&& (compilation matches Ok(t) ==> a.compilation_time == Some(t) && a.compilation_error is None)
    &&& (compilation matches Err(m) ==> a.compilation_time is None && a.compilation_error == Some(m))
    &&& a.rendering_estimates is Some == compilation is Ok
}

/// The performance analysis of a template compiled by minijinja: it has a
/// compile time exactly when the template parses, else the compiler's
/// message.
pub open spec fn performance_of(content: Seq<char>, a: TemplatePerformanceAnalysis) -> bool {
    &&& performance_measures(content, a)
    &&& a.compilation_successful == template_parses(content)
    &&& a.compilation_time is Some == template_parses(content)
    &&& opt_view(a.compilation_error) == template_error_text(content)
    &&& a.rendering_estimates is Some == template_parses(content)
}

impl TemplateQualityAnalyzer {
    /// The linting results of a template.
    pub open spec fn lint_of(self, content: Seq<char>, l: TemplateLintingResults) -> bool {
        let syn = crate::template::validation::syntax_failure(
            strs(self.validator.forbidden_patterns@),
            self.validator.max_template_size as nat,
            content,
        );
        let points = complexity_points(crate::template::validation::complexity_of(content));
        &&& l.syntax_valid == syn is None
        &&& l.errors@.len() == (if syn is None { 0int } else { 1int })
        &&& l.complexity_score == points
        &&& l.warning_models() =~= (if points > self.config.max_complexity_score {
            seq![
                (
                    "high_complexity"@,
                    "Template complexity score "@ + decimal(points as nat) + " exceeds recommended maximum "@ + decimal(
                        self.config.max_complexity_score as nat,
                    ),
                    Some("Consider breaking down complex templates into smaller, reusable components"@),
                ),
            ]
        } else {
            Seq::empty()
        }) + best_practice_warnings(content) + naming_warnings_of(captured(name_pattern(), content))
            + performance_warnings(content)->0
        &&& l.total_issues == capped_count((l.errors@.len() + l.warnings@.len()) as int)
        &&& (syn matches Some(f) ==> l.errors@[0].severity == LintErrorSeverity::Error && l.errors@[0].error_type@ == "syntax_error"@
            && l.errors@[0].message@ == crate::template::validation::failure_message(f) && l.errors@[0].line_number is None)
    }

    /// The security scan of a template.
    pub open spec fn security_of(self, content: Seq<char>, sc: TemplateSecurityScan) -> bool {
        let sec = crate::template::validation::security_failure(strs(self.validator.forbidden_patterns@), content);
        &&& Some(sc.dangerous_patterns@.map_values(|d: DangerousPattern| d.model())) == dangerous_findings(content)
        &&& sc.security_validation_passed == sec is None
        &&& sc.security_issues@.len() == (if sec is None { 0int } else { 1int })
        &&& (sec is Some ==> sc.security_issues@[0].severity == SecuritySeverity::High && sc.security_issues@[0].issue_type@
            == "security_validation_failed"@)
        &&& Some(sc.sensitive_data_risks@.map_values(|d: SensitiveDataRisk| d.model())) == credential_findings(credential_patterns(), content)
        &&& Some(sc.input_validation_issues@.map_values(|i: InputValidationIssue| i.model())) == input_validation_findings(content)
        &&& sc.total_security_issues == sc.security_issues@.len() + sc.dangerous_patterns@.len() + sc.sensitive_data_risks@.len()
            + sc.input_validation_issues@.len()
        &&& (sec matches Some(f) ==> sc.security_issues@[0].message@ == crate::template::validation::failure_message(f)
            && opt_view(sc.security_issues@[0].recommendation) == Some("Template failed security validation checks"@))
    }

    /// The documentation of a template: its header, variables, usage
    /// example, structure, and the markdown of them all.
    pub open spec fn documentation_of(self, content: Seq<char>, d: TemplateDocumentation) -> bool {
        &&& (d.metadata is Some <==> (header_line_from(lines(content)) matches Some(h) && header_accepted(h)))
        &&& (d.metadata matches Some(m) ==> crate::template::driven_slicing::header_of(m, header_line_from(lines(content))->0))
        &&& d.variables@.map_values(|x: TemplateVariable| x.model()) == documented_variables(content)
        &&& usage_examples_for(content, d.usage_examples@)
        &&& d.template_structure.describes(content)
        &&& d.markdown_content@ == markdown_of(d)
    }
}

impl TemplateLintingResults {
    pub open spec fn warning_models(self) -> Seq<WarningModel> {
        self.warnings@.map_values(|w: LintWarning| w.model())
    }
}

impl TemplateQualityAnalyzer {
    /// Create a new template quality analyzer with the default configuration
    pub fn new() -> (a: Self)
        ensures
            a.config == QualityAnalysisConfig::default_spec(),
    {
        Self::with_config(QualityAnalysisConfig::default())
    }

    /// Create a new template quality analyzer with custom configuration
    pub fn with_config(config: QualityAnalysisConfig) -> (a: Self)
        ensures
            a.config == config,
            strs(a.validator.forbidden_patterns@) == crate::template::validation::default_forbidden_patterns(),
            a.validator.max_template_size == 1048576,
    {
        TemplateQualityAnalyzer {
            validator: crate::template::validation::TemplateValidator::new(),
            header_parser: HeaderParser::new(),
            config,
        }
    }

    /// Lint a template: syntax, complexity against the configured maximum,
    /// then best practices, naming and performance patterns.
    pub fn lint_template(&self, template_content: &str) -> (r: Result<TemplateLintingResults, QualityError>)
        ensures
            r is Err <==> lint_fails(template_content@),
            r matches Ok(l) ==> self.lint_of(template_content@, l),
    {
        let mut results = TemplateLintingResults::new();
        match self.validator.validate_syntax(template_content) {
            Ok(()) => {
                results.syntax_valid = true;
            },
            Err(e) => {
                results.syntax_valid = false;
                let msg = e.message();
                let le = LintError::new(LintErrorSeverity::Error, "syntax_error".to_string(), msg, None);
                assert(le.message@ == crate::template::validation::failure_message(e.model()));
                results.errors.push(le);
            },
        }
        let ghost errs = results.errors@;
        let complexity = self.validator.analyze_complexity(template_content);
        results.complexity_score = complexity_to_score(&complexity);
        let ghost w0 = results.warnings@.map_values(|w: LintWarning| w.model());
        if results.complexity_score > self.config.max_complexity_score {
            let a = dec(results.complexity_score as u128);
            let b = dec(self.config.max_complexity_score as u128);
            let msg = cat4("Template complexity score ", a.as_str(), " exceeds recommended maximum ", b.as_str());
            let w = warning("high_complexity", msg, "Consider breaking down complex templates into smaller, reusable components");
            results.warnings.push(w);
            assert(results.warnings@.map_values(|w: LintWarning| w.model()) =~= w0.push(w.model()));
        }
        let ghost w1 = results.warnings@.map_values(|w: LintWarning| w.model());
        match best_practices(template_content, &mut results.warnings) {
            Err(e) => {
                return Err(e);
            },
            Ok(()) => {},
        }
        match naming_conventions(template_content, &mut results.warnings) {
            Err(e) => {
                return Err(e);
            },
            Ok(()) => {},
        }
        match performance_patterns(template_content, &mut results.warnings) {
            Err(e) => {
                return Err(e);
            },
            Ok(()) => {},
        }
        let ne = results.errors.len();
        let nw = results.warnings.len();
        if nw <= usize::MAX - ne {
            results.total_issues = ne + nw;
        } else {
            results.total_issues = usize::MAX;
        }
        assert(ne <= 1);
        assert(results.errors@ == errs);
        Ok(results)
    }

    /// Scan a template for security issues.
    pub fn scan_security(&self, template_content: &str) -> (r: Result<TemplateSecurityScan, QualityError>)
        ensures
            r is Err <==> security_fails(template_content@),
            r matches Ok(sc) ==> self.security_of(template_content@, sc),
    {
        let mut scan = TemplateSecurityScan::new();
        scan.dangerous_patterns = match check_dangerous_patterns(template_content) {
            Ok(v) => v,
            Err(e) => {
                return Err(e);
            },
        };
        match self.validator.validate_security(template_content) {
            Ok(()) => {
                scan.security_validation_passed = true;
            },
            Err(e) => {
                scan.security_validation_passed = false;
                scan.security_issues.push(
                    SecurityIssue::new(
                        SecuritySeverity::High,
                        "security_validation_failed".to_string(),
                        e.message(),
                        Some("Template failed security validation checks".to_string()),
                    ),
                );
            },
        }
        scan.sensitive_data_risks = match check_sensitive_data_exposure(template_content) {
            Ok(v) => v,
            Err(e) => {
                return Err(e);
            },
        };
        scan.input_validation_issues = match check_input_validation(template_content) {
            Ok(v) => v,
            Err(e) => {
                return Err(e);
            },
        };
        let total: u128 = scan.security_issues.len() as u128 + scan.dangerous_patterns.len() as u128
            + scan.sensitive_data_risks.len() as u128 + scan.input_validation_issues.len() as u128;
        proof {
            let d = dangerous_findings(template_content@)->0;
            assert(scan.dangerous_patterns@.len() == scan.dangerous_patterns@.map_values(|d: DangerousPattern| d.model()).len());
            assert(scan.sensitive_data_risks@.len() == scan.sensitive_data_risks@.map_values(|d: SensitiveDataRisk| d.model()).len());
            assert(scan.input_validation_issues@.len() == scan.input_validation_issues@.map_values(|i: InputValidationIssue| i.model()).len());
            lemma_findings_len(command_patterns(), template_content@, "command_injection_risk"@, "Template contains potentially dangerous pattern: "@, SecuritySeverity::High);
            lemma_findings_len(file_patterns(), template_content@, "file_system_access"@, "Template may attempt file system access: "@, SecuritySeverity::Medium);
            lemma_credential_len(credential_patterns(), template_content@);
        }
        scan.total_security_issues = total as usize;
        Ok(scan)
    }

    /// Analyze a template's performance: compile it with minijinja, timing
    /// the compilation by the clock, and analyze it given how that went.
    pub fn analyze_performance(&self, template_content: &str) -> (r: Result<TemplatePerformanceAnalysis, QualityError>)
        ensures
            r is Err <==> performance_fails(),
            r matches Ok(a) ==> performance_of(template_content@, a),
    {
        let start = now_since_epoch();
        let error = template_compile_error(template_content);
        let end = now_since_epoch();
        let compilation = match error {
            None => Ok(Span::from_nanos(if end.nanos >= start.nanos { end.nanos - start.nanos } else { 0 })),
            Some(m) => Err(m),
        };
        self.analyze_compiled_performance(template_content, compilation)
    }

    /// Analyze a template's performance, given how compiling it went: its
    /// compile time, or the compiler's message.
    pub fn analyze_compiled_performance(&self, template_content: &str, compilation: Result<Span, String>) -> (r: Result<
        TemplatePerformanceAnalysis,
        QualityError,
    >)
        ensures
            r is Err <==> performance_fails(),
            r matches Ok(a) ==> performance_given(template_content@, compilation, a),
    {
        let mut analysis = TemplatePerformanceAnalysis::new();
        let cs = str_chars(template_content);
        analysis.template_size_bytes = byte_len(cs.as_slice());
        let ls = lines_exec(cs.as_slice());
        assert(ls@.map_values(|l: Vec<char>| l@).len() == ls@.len());
        analysis.line_count = ls.len();
        match compilation {
            Ok(t) => {
                analysis.compilation_time = Some(t);
                analysis.compilation_successful = true;
            },
            Err(m) => {
                analysis.compilation_successful = false;
                analysis.compilation_error = Some(m);
            },
        }
        if analysis.compilation_successful {
            analysis.rendering_estimates = match estimate_rendering_performance(template_content) {
                Ok(e) => Some(e),
                Err(e) => {
                    return Err(e);
                },
            };
        }
        analysis.estimated_memory_usage = match estimate_memory_usage(template_content) {
            Ok(m) => m,
            Err(e) => {
                return Err(e);
            },
        };
        analysis.optimization_suggestions = generate_optimization_suggestions(template_content);
        Ok(analysis)
    }

    /// Generate documentation for a template: its header, variables, usage
    /// example, structure, and the markdown of them all.
    pub fn generate_documentation(&self, template_content: &str) -> (r: Result<TemplateDocumentation, QualityError>)
        ensures
            r is Err <==> documentation_fails(),
            r matches Ok(d) ==> self.documentation_of(template_content@, d),
    {
        let mut doc = TemplateDocumentation::new();
        match extract_header_line(template_content) {
            Some(line) => {
                match self.header_parser.parse(line.as_str()) {
                    Ok(h) => {
                        doc.metadata = Some(h);
                    },
                    Err(_) => {},
                }
            },
            None => {},
        }
        doc.variables = match extract_template_variables(template_content) {
            Ok(v) => v,
            Err(e) => {
                return Err(e);
            },
        };
        doc.usage_examples = match generate_usage_examples(template_content) {
            Ok(v) => v,
            Err(e) => {
                return Err(e);
            },
        };
        doc.template_structure = analyze_template_structure(template_content);
        let md = generate_markdown_documentation(&doc);
        doc.markdown_content = md;
        assert(markdown_of(doc) == md@);
        Ok(doc)
    }

    /// Analyze a template's content: refuse one larger than the configured
    /// maximum, run each enabled analysis in turn, stopping at the first that
    /// fails, and score the result.
    pub fn analyze_template_content(&self, template_path: String, template_content: &str) -> (r: Result<
        TemplateQualityReport,
        QualityError,
    >)
        ensures
            r is Err <==> (utf8_len(template_content@) > self.config.max_template_size
                || (self.config.enable_linting && lint_fails(template_content@))
                || (self.config.enable_performance_analysis && performance_fails())
                || (self.config.enable_security_scanning && security_fails(template_content@))
                || (self.config.enable_documentation_generation && documentation_fails())),
            utf8_len(template_content@) > self.config.max_template_size ==> (r matches Err(QualityError::TooLarge { size, max })
                && size == utf8_len(template_content@) && max == self.config.max_template_size),
            r matches Ok(rep) ==> {
                &&& rep.template_path == template_path
                &&& rep.linting_results is Some == self.config.enable_linting
                &&& (rep.linting_results matches Some(l) ==> self.lint_of(template_content@, l))
                &&& rep.performance_analysis is Some == self.config.enable_performance_analysis
                &&& (rep.performance_analysis matches Some(a) ==> performance_of(template_content@, a))
                &&& rep.security_scan is Some == self.config.enable_security_scanning
                &&& (rep.security_scan matches Some(sc) ==> self.security_of(template_content@, sc))
                &&& rep.documentation is Some == self.config.enable_documentation_generation
                &&& (rep.documentation matches Some(d) ==> self.documentation_of(template_content@, d))
                &&& rep.overall_score == overall_score_of(rep)
                &&& rep.analysis_duration.nanos == 0
            },
    {
        let cs = str_chars(template_content);
        let size = byte_len(cs.as_slice());
        if size > self.config.max_template_size as u128 {
            return Err(QualityError::TooLarge { size, max: self.config.max_template_size });
        }
        let mut report = TemplateQualityReport::new(template_path);
        if self.config.enable_linting {
            report.linting_results = match self.lint_template(template_content) {
                Ok(l) => Some(l),
                Err(e) => {
                    return Err(e);
                },
            };
        }
        if self.config.enable_performance_analysis {
            report.performance_analysis = match self.analyze_performance(template_content) {
                Ok(a) => Some(a),
                Err(e) => {
                    return Err(e);
                },
            };
        }
        if self.config.enable_security_scanning {
            report.security_scan = match self.scan_security(template_content) {
                Ok(sc) => Some(sc),
                Err(e) => {
                    return Err(e);
                },
            };
        }
        if self.config.enable_documentation_generation {
            report.documentation = match self.generate_documentation(template_content) {
                Ok(d) => Some(d),
                Err(e) => {
                    return Err(e);
                },
            };
        }
        report.calculate_overall_score();
        Ok(report)
    }
}

proof fn lemma_findings_len(ps: Seq<Seq<char>>, content: Seq<char>, kind: Seq<char>, prefix: Seq<char>, sev: SecuritySeverity)
    ensures
        pattern_findings(ps, content, kind, prefix, sev) matches Some(f) ==> f.len() <= ps.len(),
    decreases ps.len(),
{
    if ps.len() > 0 {
        lemma_findings_len(ps.drop_last(), content, kind, prefix, sev);
    }
}

proof fn lemma_credential_len(ps: Seq<(Seq<char>, Seq<char>)>, content: Seq<char>)
    ensures
        credential_findings(ps, content) matches Some(f) ==> f.len() <= ps.len(),
    decreases ps.len(),
{
    if ps.len() > 0 {
        lemma_credential_len(ps.drop_last(), content);
    }
}

impl QualityAnalysisConfig {
    pub open spec fn default_spec() -> QualityAnalysisConfig {
        QualityAnalysisConfig {
            enable_linting: true,
            enable_performance_analysis: true,
            enable_security_scanning: true,
            enable_documentation_generation: true,
            max_complexity_score: 100,
            max_template_size: 1048576,
            analysis_timeout: Span { nanos: 30_000_000_000 },
            verbose_output: false,
        }
    }
}


/// A quality score is between 0 and 100, and a report with no analysis in
/// it scores 100.
pub proof fn law_score_bounds(r: TemplateQualityReport)
    ensures
        0 <= overall_score_of(r) <= 100,
        (r.linting_results is None && r.performance_analysis is None && r.security_scan is None
            && r.documentation is None) ==> overall_score_of(r) == 100,
{
    let s1 = linting_step(100, r.linting_results);
    let s2 = performance_step(s1, r.performance_analysis);
    let s3 = security_step(s2, r.security_scan);
    let s4 = docs_step(s3, r.documentation);
    assert(s1 >= 0);
    assert(s2 >= 0);
    assert(s3 >= 0);
    assert(s4 >= 0);
}

proof fn lemma_steps_monotone(a: int, b: int, r: TemplateQualityReport)
    requires
        a <= b,
    ensures
        performance_step(a, r.performance_analysis) <= performance_step(b, r.performance_analysis),
        security_step(a, r.security_scan) <= security_step(b, r.security_scan),
        docs_step(a, r.documentation) <= docs_step(b, r.documentation),
{
}

/// One lint error more never raises a report's overall score, whatever the
/// rest of the report holds.
pub proof fn law_lint_error_never_raises_score(r1: TemplateQualityReport, r2: TemplateQualityReport)
    requires
        r1.linting_results is Some,
        r2.linting_results is Some,
        r2.linting_results->0.syntax_valid == r1.linting_results->0.syntax_valid,
        r2.linting_results->0.warnings@.len() == r1.linting_results->0.warnings@.len(),
        r2.linting_results->0.errors@.len() == r1.linting_results->0.errors@.len() + 1,
        r2.performance_analysis == r1.performance_analysis,
        r2.security_scan == r1.security_scan,
        r2.documentation == r1.documentation,
    ensures
        overall_score_of(r2) <= overall_score_of(r1),
{
    let a = linting_step(100, r2.linting_results);
    let b = linting_step(100, r1.linting_results);
    assert(a <= b);
    lemma_steps_monotone(a, b, r1);
    let pa = performance_step(a, r1.performance_analysis);
    let pb = performance_step(b, r1.performance_analysis);
    lemma_steps_monotone(pa, pb, r1);
    let sa = security_step(pa, r1.security_scan);
    let sb = security_step(pb, r1.security_scan);
    lemma_steps_monotone(sa, sb, r1);
}

/// In a report of linting alone, each lint error takes 10 off the score,
/// stopping at 0: one error more gives the score less 10, or 0 when the
/// score was under 10.
pub proof fn law_lint_error_costs_ten(r1: TemplateQualityReport, r2: TemplateQualityReport)
    requires
        r1.linting_results is Some,
        r2.linting_results is Some,
        r2.linting_results->0.syntax_valid == r1.linting_results->0.syntax_valid,
        r2.linting_results->0.warnings@.len() == r1.linting_results->0.warnings@.len(),
        r2.linting_results->0.errors@.len() == r1.linting_results->0.errors@.len() + 1,
        r1.performance_analysis is None && r1.security_scan is None && r1.documentation is None,
        r2.performance_analysis is None && r2.security_scan is None && r2.documentation is None,
    ensures
        overall_score_of(r2) == (if overall_score_of(r1) >= 10 { overall_score_of(r1) - 10 } else { 0 }),
{
}

/// A report of linting alone, with valid syntax and no warnings, scores
/// 100 less 10 per lint error, and 0 from 10 errors on.
pub proof fn law_lint_errors_alone(r: TemplateQualityReport)
    requires
        r.linting_results is Some,
        r.linting_results->0.syntax_valid,
        r.linting_results->0.warnings@.len() == 0,
        r.performance_analysis is None && r.security_scan is None && r.documentation is None,
    ensures
        overall_score_of(r) == (if r.linting_results->0.errors@.len() <= 10 {
            100 - 10 * r.linting_results->0.errors@.len()
        } else {
            0
        }),
{
}

} // verus!
