//! Template testing: test cases, the checks on rendered output, suite
//! results, their summary and report.

use vstd::prelude::*;
use crate::time::{Span, duration_debug, duration_debug_text, duration_divide, duration_quotient, fits_duration};
use crate::patterns::{regex_is_match, regex_matches, regex_valid};
use crate::template::quality::nonempty_trimmed;
use crate::template::slice::{cat2, cat4};
use crate::text::{
    chars_to_string, decimal, is_ws, join, join_exec, lines, lines_exec, lines_from, str_to_chars, strip_cr, strs, trim, trim_chars,
    trim_end, trim_start,
};

verus! {

/// Normalize configuration output for comparison: the lines trimmed,
/// empty ones dropped, joined by newlines.
pub open spec fn normalized(output: Seq<char>) -> Seq<char> {
    join(nonempty_trimmed(lines(output)), "\n"@)
}

/// No character of `s` is a newline.
pub open spec fn no_newline(s: Seq<char>) -> bool {
    forall|i: int| 0 <= i < s.len() ==> s[i] != '\n'
}

/// A normalized line: not empty, no newline, no whitespace at either end.
pub open spec fn clean_line(p: Seq<char>) -> bool {
    &&& p.len() > 0
    &&& no_newline(p)
    &&& !is_ws(p[0])
    &&& !is_ws(p.last())
}

proof fn lemma_trim_start_suffix(s: Seq<char>)
    ensures
        exists|k: int| 0 <= k <= s.len() && trim_start(s) == s.skip(k),
        trim_start(s).len() > 0 ==> !is_ws(trim_start(s)[0]),
    decreases s.len(),
{
    if s.len() > 0 && is_ws(s[0]) {
        lemma_trim_start_suffix(s.drop_first());
        let k = choose|k: int| 0 <= k <= s.drop_first().len() && trim_start(s.drop_first()) == s.drop_first().skip(k);
        assert(s.drop_first().skip(k) =~= s.skip(k + 1));
    } else {
        assert(s.skip(0) =~= s);
    }
}

proof fn lemma_trim_end_prefix(s: Seq<char>)
    ensures
        exists|k: int| 0 <= k <= s.len() && trim_end(s) == s.take(k),
        trim_end(s).len() > 0 ==> !is_ws(trim_end(s).last()),
    decreases s.len(),
{
    if s.len() > 0 && is_ws(s.last()) {
        lemma_trim_end_prefix(s.drop_last());
        let k = choose|k: int| 0 <= k <= s.drop_last().len() && trim_end(s.drop_last()) == s.drop_last().take(k);
        assert(s.drop_last().take(k) =~= s.take(k));
    } else {
        assert(s.take(s.len() as int) =~= s);
    }
}

/// A nonempty trimmed line is clean when the line has no newline.
proof fn lemma_trim_clean(s: Seq<char>)
    requires
        no_newline(s),
        trim(s).len() > 0,
    ensures
        clean_line(trim(s)),
{
    lemma_trim_start_suffix(s);
    let a = trim_start(s);
    let k = choose|k: int| 0 <= k <= s.len() && trim_start(s) == s.skip(k);
    lemma_trim_end_prefix(a);
    let j = choose|j: int| 0 <= j <= a.len() && trim_end(a) == a.take(j);
    let t = trim(s);
    assert forall|i: int| 0 <= i < t.len() implies t[i] != '\n' by {
        assert(t[i] == s[k + i]);
    }
    assert(t[0] == a[0]);
}

/// A clean line is its own trim.
proof fn lemma_clean_trim(p: Seq<char>)
    requires
        clean_line(p),
    ensures
        trim(p) == p,
{
}

/// The lines of a text have no newline.
proof fn lemma_lines_from_no_newline(cur: Seq<char>, rest: Seq<char>)
    requires
        no_newline(cur),
    ensures
        forall|i: int| 0 <= i < lines_from(cur, rest).len() ==> no_newline(#[trigger] lines_from(cur, rest)[i]),
    decreases rest.len(),
{
    if rest.len() == 0 {
        let l = lines_from(cur, rest);
        assert forall|i: int| 0 <= i < l.len() implies no_newline(#[trigger] l[i]) by {
            assert(l[i] == cur);
        }
    } else if rest[0] == '\n' {
        lemma_lines_from_no_newline(Seq::empty(), rest.drop_first());
        let l = lines_from(cur, rest);
        let tail = lines_from(Seq::empty(), rest.drop_first());
        assert(l == seq![strip_cr(cur)] + tail);
        assert forall|i: int| 0 <= i < l.len() implies no_newline(#[trigger] l[i]) by {
            if i == 0 {
                let c = strip_cr(cur);
                assert(l[0] == c);
                assert forall|m: int| 0 <= m < c.len() implies c[m] != '\n' by {
                    assert(c[m] == cur[m]);
                }
            } else {
                assert(l[i] == tail[i - 1]);
            }
        }
    } else {
        let c2 = cur.push(rest[0]);
        assert forall|m: int| 0 <= m < c2.len() implies c2[m] != '\n' by {
            if m < cur.len() {
                assert(c2[m] == cur[m]);
            }
        }
        lemma_lines_from_no_newline(c2, rest.drop_first());
        assert(lines_from(cur, rest) == lines_from(c2, rest.drop_first()));
    }
}

/// The kept lines are clean.
proof fn lemma_nonempty_trimmed_clean(ls: Seq<Seq<char>>)
    requires
        forall|i: int| 0 <= i < ls.len() ==> no_newline(#[trigger] ls[i]),
    ensures
        forall|i: int| 0 <= i < nonempty_trimmed(ls).len() ==> clean_line(#[trigger] nonempty_trimmed(ls)[i]),
    decreases ls.len(),
{
    if ls.len() > 0 {
        assert forall|i: int| 0 <= i < ls.drop_last().len() implies no_newline(#[trigger] ls.drop_last()[i]) by {
            assert(ls.drop_last()[i] == ls[i]);
        }
        lemma_nonempty_trimmed_clean(ls.drop_last());
        if trim(ls.last()).len() > 0 {
            assert(no_newline(ls[ls.len() - 1]));
            lemma_trim_clean(ls.last());
            let r = nonempty_trimmed(ls);
            let q = nonempty_trimmed(ls.drop_last());
            assert forall|i: int| 0 <= i < r.len() implies clean_line(#[trigger] r[i]) by {
                if i < q.len() {
                    assert(r[i] == q[i]);
                }
            }
        }
    }
}

/// Clean lines are kept as they are.
proof fn lemma_nonempty_trimmed_of_clean(ps: Seq<Seq<char>>)
    requires
        forall|i: int| 0 <= i < ps.len() ==> clean_line(#[trigger] ps[i]),
    ensures
        nonempty_trimmed(ps) == ps,
    decreases ps.len(),
{
    if ps.len() > 0 {
        assert forall|i: int| 0 <= i < ps.drop_last().len() implies clean_line(#[trigger] ps.drop_last()[i]) by {
            assert(ps.drop_last()[i] == ps[i]);
        }
        lemma_nonempty_trimmed_of_clean(ps.drop_last());
        assert(clean_line(ps[ps.len() - 1]));
        lemma_clean_trim(ps.last());
        assert(ps.drop_last().push(ps.last()) =~= ps);
    }
}

/// Reading on through text without a newline extends the current line.
proof fn lemma_lines_from_through(cur: Seq<char>, q: Seq<char>, rest: Seq<char>)
    requires
        no_newline(q),
    ensures
        lines_from(cur, q + rest) == lines_from(cur + q, rest),
    decreases q.len(),
{
    if q.len() == 0 {
        assert(q + rest =~= rest);
        assert(cur + q =~= cur);
    } else {
        assert((q + rest)[0] == q[0]);
        assert((q + rest).drop_first() =~= q.drop_first() + rest);
        assert forall|i: int| 0 <= i < q.drop_first().len() implies q.drop_first()[i] != '\n' by {
            assert(q.drop_first()[i] == q[i + 1]);
        }
        lemma_lines_from_through(cur.push(q[0]), q.drop_first(), rest);
        assert(cur.push(q[0]) + q.drop_first() =~= cur + q);
    }
}

/// Joining from the front: the first part, the separator, the rest joined.
proof fn lemma_join_front(ps: Seq<Seq<char>>, sep: Seq<char>)
    requires
        ps.len() >= 2,
    ensures
        join(ps, sep) == ps[0] + sep + join(ps.drop_first(), sep),
    decreases ps.len(),
{
    if ps.len() > 2 {
        lemma_join_front(ps.drop_last(), sep);
        assert(ps.drop_last().drop_first() =~= ps.drop_first().drop_last());
        assert(ps.drop_first().last() == ps.last());
        assert(ps.drop_last()[0] == ps[0]);
        assert(join(ps.drop_first(), sep) == join(ps.drop_first().drop_last(), sep) + sep + ps.drop_first().last());
        assert(join(ps, sep) == join(ps.drop_last(), sep) + sep + ps.last());
        assert(join(ps, sep) =~= ps[0] + sep + join(ps.drop_first(), sep));
    } else {
        assert(ps.drop_last().len() == 1);
        assert(ps.drop_first().len() == 1);
        assert(ps.drop_first()[0] == ps.last());
        assert(ps.drop_last()[0] == ps[0]);
        assert(join(ps.drop_last(), sep) == ps[0]);
        assert(join(ps.drop_first(), sep) == ps.last());
        assert(join(ps, sep) == join(ps.drop_last(), sep) + sep + ps.last());
    }
}

/// Clean lines joined by newlines read back as the same lines.
proof fn lemma_lines_of_join(ps: Seq<Seq<char>>)
    requires
        forall|i: int| 0 <= i < ps.len() ==> clean_line(#[trigger] ps[i]),
    ensures
        lines(join(ps, "\n"@)) == ps,
    decreases ps.len(),
{
    reveal_strlit("\n");
    let e = Seq::<char>::empty();
    if ps.len() == 0 {
        assert(lines(join(ps, "\n"@)) =~= ps);
    } else if ps.len() == 1 {
        assert(clean_line(ps[0]));
        lemma_lines_from_through(e, ps[0], e);
        assert(ps[0] + e =~= ps[0]);
        assert(e + ps[0] =~= ps[0]);
        assert(lines(join(ps, "\n"@)) =~= ps);
    } else {
        let r = ps.drop_first();
        assert forall|i: int| 0 <= i < r.len() implies clean_line(#[trigger] r[i]) by {
            assert(r[i] == ps[i + 1]);
        }
        lemma_lines_of_join(r);
        lemma_join_front(ps, "\n"@);
        assert(clean_line(ps[0]));
        let rest = "\n"@ + join(r, "\n"@);
        assert(ps[0] + "\n"@ + join(r, "\n"@) =~= ps[0] + rest);
        lemma_lines_from_through(e, ps[0], rest);
        assert(e + ps[0] =~= ps[0]);
        assert(rest[0] == '\n');
        assert(rest.drop_first() =~= join(r, "\n"@));
        assert(strip_cr(ps[0]) == ps[0]);
        assert(lines(join(ps, "\n"@)) =~= seq![ps[0]] + r);
        assert(seq![ps[0]] + r =~= ps);
    }
}

/// Normalizing normalized output changes nothing: no line of it is empty
/// or has whitespace at either end.
pub proof fn law_normalize_idempotent(s: Seq<char>)
    ensures
        normalized(normalized(s)) == normalized(s),
        forall|i: int| 0 <= i < lines(normalized(s)).len() ==> clean_line(#[trigger] lines(normalized(s))[i]),
{
    lemma_lines_from_no_newline(Seq::empty(), s);
    lemma_nonempty_trimmed_clean(lines(s));
    let ps = nonempty_trimmed(lines(s));
    lemma_lines_of_join(ps);
    lemma_nonempty_trimmed_of_clean(ps);
}

/// Normalize configuration output for comparison (removes minor whitespace
/// differences)
pub fn normalize_config_output(output: &str) -> (s: String)
    ensures
        s@ == normalized(output@),
{
    let cs = str_to_chars(output);
    let ls = lines_exec(cs.as_slice());
    let ghost lv = ls@.map_values(|l: Vec<char>| l@);
    let mut kept: Vec<Vec<char>> = Vec::new();
    let mut i: usize = 0;
    while i < ls.len()
        invariant
            i <= ls@.len(),
            lv == ls@.map_values(|l: Vec<char>| l@),
            kept@.map_values(|l: Vec<char>| l@) == nonempty_trimmed(lv.take(i as int)),
        decreases ls.len() - i,
    {
        let t = trim_chars(ls[i].as_slice());
        proof {
            assert(lv.take(i + 1).drop_last() =~= lv.take(i as int));
            assert(lv.take(i + 1).last() == ls@[i as int]@);
        }
        if t.len() > 0 {
            let ghost before = kept@.map_values(|l: Vec<char>| l@);
            kept.push(t);
            assert(kept@.map_values(|l: Vec<char>| l@) =~= before.push(t@));
        }
        i = i + 1;
    }
    assert(lv.take(i as int) =~= lv);
    let nl: [char; 1] = ['\n'];
    proof {
        reveal_strlit("\n");
        assert(nl@ =~= "\n"@);
    }
    let j = join_exec(&kept, &nl);
    chars_to_string(j.as_slice())
}

// ---------------------------------------------------------------------------
// Results
// ---------------------------------------------------------------------------

/// Name, outcome, duration and error of a test.
pub type OutcomeModel = (Seq<char>, bool, nat, Option<Seq<char>>);

/// Result of a unit test
#[derive(Debug, Clone)]
pub struct UnitTestResult {
    pub test_name: String,
    pub passed: bool,
    pub duration: Span,
    pub error: Option<String>,
}

/// Result of an integration test
#[derive(Debug, Clone)]
pub struct IntegrationTestResult {
    pub test_name: String,
    pub passed: bool,
    pub duration: Span,
    pub error: Option<String>,
}

/// Result of a regression test
#[derive(Debug, Clone)]
pub struct RegressionTestResult {
    pub test_name: String,
    pub passed: bool,
    pub duration: Span,
    pub error: Option<String>,
    pub baseline_match: bool,
}

/// Result of a performance test
#[derive(Debug, Clone)]
pub struct PerformanceTestResult {
    pub test_name: String,
    pub passed: bool,
    pub iterations: usize,
    pub total_duration: Span,
    pub average_duration: Span,
    pub min_duration: Span,
    pub max_duration: Span,
    pub error: Option<String>,
}

impl UnitTestResult {
    /// What a report line shows of the result: name, outcome, duration and
    /// error.
    pub open spec fn model(self) -> OutcomeModel {
        (self.test_name@, self.passed, self.duration.nanos as nat, crate::patterns::opt_view(self.error))
    }
}

impl IntegrationTestResult {
    /// What a report line shows of the result: name, outcome, duration and
    /// error.
    pub open spec fn model(self) -> OutcomeModel {
        (self.test_name@, self.passed, self.duration.nanos as nat, crate::patterns::opt_view(self.error))
    }
}

impl RegressionTestResult {
    /// What a report line shows of the result: name, outcome, duration and
    /// error; whether the output matched the baseline is not shown.
    pub open spec fn model(self) -> OutcomeModel {
        (self.test_name@, self.passed, self.duration.nanos as nat, crate::patterns::opt_view(self.error))
    }
}

/// Summary of test execution
#[derive(Debug, Clone, Copy, PartialEq, Eq, Structural)]
pub struct TestSummary {
    pub total_tests: usize,
    pub total_passed: usize,
    pub total_failed: usize,
    pub total_skipped: usize,
}

impl Default for TestSummary {
    fn default() -> (s: Self)
        ensures
            s == (TestSummary { total_tests: 0, total_passed: 0, total_failed: 0, total_skipped: 0 }),
    {
        TestSummary { total_tests: 0, total_passed: 0, total_failed: 0, total_skipped: 0 }
    }
}

/// Complete test suite results
#[derive(Debug, Clone)]
pub struct TestSuiteResult {
    pub unit_test_results: Vec<UnitTestResult>,
    pub integration_test_results: Vec<IntegrationTestResult>,
    pub regression_test_results: Vec<RegressionTestResult>,
    pub performance_test_results: Vec<PerformanceTestResult>,
    pub total_duration: Span,
    pub summary: TestSummary,
}

/// How many of the outcomes passed.
pub open spec fn passed_count(s: Seq<bool>) -> nat
    decreases s.len(),
{
    if s.len() == 0 {
        0
    } else {
        passed_count(s.drop_last()) + if s.last() {
            1nat
        } else {
            0nat
        }
    }
}

proof fn lemma_passed_count_le(s: Seq<bool>)
    ensures
        passed_count(s) <= s.len(),
    decreases s.len(),
{
    if s.len() > 0 {
        lemma_passed_count_le(s.drop_last());
    }
}

/// `after` is `before` with its summary counted: every test, the passed
/// ones, the failed ones, none skipped; the results and total duration kept.
pub open spec fn summarized(before: TestSuiteResult, after: TestSuiteResult) -> bool {
    &&& after.summary.total_tests == before.outcomes().len()
    &&& after.summary.total_passed == passed_count(before.outcomes())
    &&& after.summary.total_failed == before.outcomes().len() - passed_count(before.outcomes())
    &&& after.summary.total_skipped == 0
    &&& after.unit_test_results == before.unit_test_results
    &&& after.integration_test_results == before.integration_test_results
    &&& after.regression_test_results == before.regression_test_results
    &&& after.performance_test_results == before.performance_test_results
    &&& after.total_duration == before.total_duration
}

/// The passed and the failed tests make up all tests, and counting the
/// summary again changes nothing.
pub proof fn law_summary_stable(before: TestSuiteResult, once: TestSuiteResult, twice: TestSuiteResult)
    requires
        summarized(before, once),
        summarized(once, twice),
    ensures
        once.summary.total_passed + once.summary.total_failed == once.summary.total_tests,
        once.summary.total_passed <= once.summary.total_tests,
        twice == once,
{
    lemma_passed_count_le(before.outcomes());
    assert(once.outcomes() == before.outcomes());
}

impl TestSuiteResult {
    /// The outcome of every test, unit tests first, then integration,
    /// regression and performance tests.
    pub open spec fn outcomes(self) -> Seq<bool> {
        self.unit_test_results@.map_values(|r: UnitTestResult| r.passed) + self.integration_test_results@.map_values(
            |r: IntegrationTestResult| r.passed,
        ) + self.regression_test_results@.map_values(|r: RegressionTestResult| r.passed)
            + self.performance_test_results@.map_values(|r: PerformanceTestResult| r.passed)
    }

    pub fn new() -> (r: Self)
        ensures
            r.outcomes().len() == 0,
            r.unit_test_results@.len() == 0,
            r.integration_test_results@.len() == 0,
            r.regression_test_results@.len() == 0,
            r.performance_test_results@.len() == 0,
            r.total_duration.nanos == 0,
            r.summary == (TestSummary { total_tests: 0, total_passed: 0, total_failed: 0, total_skipped: 0 }),
    {
        let r = TestSuiteResult {
            unit_test_results: Vec::new(),
            integration_test_results: Vec::new(),
            regression_test_results: Vec::new(),
            performance_test_results: Vec::new(),
            total_duration: Span::zero(),
            summary: TestSummary::default(),
        };
        assert(r.outcomes() =~= Seq::<bool>::empty());
        r
    }

    /// Count the tests, the passed and the failed ones; none is skipped.
    pub fn calculate_summary(&mut self)
        requires
            old(self).outcomes().len() <= usize::MAX,
        ensures
            summarized(*old(self), *final(self)),
    {
        let ghost all = self.outcomes();
        let mut flags: Vec<bool> = Vec::new();
        let mut i: usize = 0;
        while i < self.unit_test_results.len()
            invariant
                i <= self.unit_test_results@.len(),
                flags@ == self.unit_test_results@.take(i as int).map_values(|r: UnitTestResult| r.passed),
            decreases self.unit_test_results.len() - i,
        {
            flags.push(self.unit_test_results[i].passed);
            assert(flags@ =~= self.unit_test_results@.take(i + 1).map_values(|r: UnitTestResult| r.passed));
            i = i + 1;
        }
        assert(self.unit_test_results@.take(i as int) =~= self.unit_test_results@);
        let ghost f1 = flags@;
        let mut i: usize = 0;
        while i < self.integration_test_results.len()
            invariant
                i <= self.integration_test_results@.len(),
                flags@ == f1 + self.integration_test_results@.take(i as int).map_values(|r: IntegrationTestResult| r.passed),
            decreases self.integration_test_results.len() - i,
        {
            flags.push(self.integration_test_results[i].passed);
            assert(flags@ =~= f1 + self.integration_test_results@.take(i + 1).map_values(|r: IntegrationTestResult| r.passed));
            i = i + 1;
        }
        assert(self.integration_test_results@.take(i as int) =~= self.integration_test_results@);
        let ghost f2 = flags@;
        let mut i: usize = 0;
        while i < self.regression_test_results.len()
            invariant
                i <= self.regression_test_results@.len(),
                flags@ == f2 + self.regression_test_results@.take(i as int).map_values(|r: RegressionTestResult| r.passed),
            decreases self.regression_test_results.len() - i,
        {
            flags.push(self.regression_test_results[i].passed);
            assert(flags@ =~= f2 + self.regression_test_results@.take(i + 1).map_values(|r: RegressionTestResult| r.passed));
            i = i + 1;
        }
        assert(self.regression_test_results@.take(i as int) =~= self.regression_test_results@);
        let ghost f3 = flags@;
        let mut i: usize = 0;
        while i < self.performance_test_results.len()
            invariant
                i <= self.performance_test_results@.len(),
                flags@ == f3 + self.performance_test_results@.take(i as int).map_values(|r: PerformanceTestResult| r.passed),
            decreases self.performance_test_results.len() - i,
        {
            flags.push(self.performance_test_results[i].passed);
            assert(flags@ =~= f3 + self.performance_test_results@.take(i + 1).map_values(|r: PerformanceTestResult| r.passed));
            i = i + 1;
        }
        assert(self.performance_test_results@.take(i as int) =~= self.performance_test_results@);
        assert(flags@ =~= all);
        let mut passed: usize = 0;
        let mut k: usize = 0;
        while k < flags.len()
            invariant
                k <= flags@.len(),
                passed == passed_count(flags@.take(k as int)),
                passed <= k,
            decreases flags.len() - k,
        {
            proof {
                assert(flags@.take(k + 1).drop_last() =~= flags@.take(k as int));
            }
            if flags[k] {
                passed = passed + 1;
            }
            k = k + 1;
        }
        assert(flags@.take(k as int) =~= flags@);
        self.summary = TestSummary {
            total_tests: flags.len(),
            total_passed: passed,
            total_failed: flags.len() - passed,
            total_skipped: 0,
        };
    }
}


// ---------------------------------------------------------------------------
// The report
// ---------------------------------------------------------------------------

/// Whether every duration of a suite result is one that `Duration` can hold.
pub open spec fn reportable(r: TestSuiteResult) -> bool {
    &&& fits_duration(r.total_duration)
    &&& forall|i: int| 0 <= i < r.unit_test_results@.len() ==> fits_duration(#[trigger] r.unit_test_results@[i].duration)
    &&& forall|i: int| 0 <= i < r.integration_test_results@.len() ==> fits_duration(#[trigger] r.integration_test_results@[i].duration)
    &&& forall|i: int| 0 <= i < r.regression_test_results@.len() ==> fits_duration(#[trigger] r.regression_test_results@[i].duration)
    &&& forall|i: int| 0 <= i < r.performance_test_results@.len() ==> fits_duration(#[trigger] r.performance_test_results@[i].average_duration)
}

pub open spec fn status_text(passed: bool) -> Seq<char> {
    if passed {
        "✅ PASSED"@
    } else {
        "❌ FAILED"@
    }
}

pub open spec fn error_text(e: Option<Seq<char>>) -> Seq<char> {
    match e {
        Some(m) => "  Error: "@ + m + "\n"@,
        None => Seq::empty(),
    }
}

/// The report line of a unit, integration or regression test.
pub open spec fn outcome_line(o: OutcomeModel) -> Seq<char> {
    "- **"@ + o.0 + "**: "@ + status_text(o.1) + " ("@ + duration_debug(o.2) + ")\n"@ + error_text(o.3)
}

pub open spec fn outcome_lines(s: Seq<OutcomeModel>) -> Seq<char>
    decreases s.len(),
{
    if s.len() == 0 {
        Seq::empty()
    } else {
        outcome_lines(s.drop_last()) + outcome_line(s.last())
    }
}

/// A section of the report: nothing when there are no results.
pub open spec fn outcome_section(heading: Seq<char>, s: Seq<OutcomeModel>) -> Seq<char> {
    if s.len() == 0 {
        Seq::empty()
    } else {
        heading + outcome_lines(s) + "\n"@
    }
}

/// Name, outcome, iterations, average duration and error of a performance test.
pub type PerformanceModel = (Seq<char>, bool, nat, nat, Option<Seq<char>>);

impl PerformanceTestResult {
    /// What a report line shows of the result: name, outcome, iterations,
    /// average duration and error; the total, shortest and longest
    /// durations are not shown.
    pub open spec fn report_model(self) -> PerformanceModel {
        (
            self.test_name@,
            self.passed,
            self.iterations as nat,
            self.average_duration.nanos as nat,
            crate::patterns::opt_view(self.error),
        )
    }
}

pub open spec fn performance_line(p: PerformanceModel) -> Seq<char> {
    "- **"@ + p.0 + "**: "@ + status_text(p.1) + " - "@ + decimal(p.2) + " iterations, avg: "@ + duration_debug(p.3)
        + "\n"@ + error_text(p.4)
}

pub open spec fn performance_lines(s: Seq<PerformanceModel>) -> Seq<char>
    decreases s.len(),
{
    if s.len() == 0 {
        Seq::empty()
    } else {
        performance_lines(s.drop_last()) + performance_line(s.last())
    }
}

pub open spec fn performance_section(s: Seq<PerformanceModel>) -> Seq<char> {
    if s.len() == 0 {
        Seq::empty()
    } else {
        "## Performance Tests\n\n"@ + performance_lines(s)
    }
}

pub open spec fn report_header(r: TestSuiteResult) -> Seq<char> {
    "# Template Test Suite Report\n\n"@ + "**Execution Time:** "@ + duration_debug(r.total_duration.nanos as nat) + "\n"@
        + "**Total Tests:** "@ + decimal(r.summary.total_tests as nat) + "\n"@ + "**Passed:** "@ + decimal(
        r.summary.total_passed as nat,
    ) + "\n"@ + "**Failed:** "@ + decimal(r.summary.total_failed as nat) + "\n"@ + "**Skipped:** "@ + decimal(
        r.summary.total_skipped as nat,
    ) + "\n\n"@
}

/// The markdown report of a suite result.
pub open spec fn report_of(r: TestSuiteResult) -> Seq<char> {
    report_header(r) + outcome_section(
        "## Unit Tests\n\n"@,
        r.unit_test_results@.map_values(|x: UnitTestResult| x.model()),
    ) + outcome_section(
        "## Integration Tests\n\n"@,
        r.integration_test_results@.map_values(|x: IntegrationTestResult| x.model()),
    ) + outcome_section(
        "## Regression Tests\n\n"@,
        r.regression_test_results@.map_values(|x: RegressionTestResult| x.model()),
    ) + performance_section(r.performance_test_results@.map_values(|x: PerformanceTestResult| x.report_model()))
}

fn push_s(out: &mut Vec<char>, s: &str)
    ensures
        final(out)@ == old(out)@ + s@,
{
    crate::text::push_str(out, s)
}

fn push_duration(out: &mut Vec<char>, d: Span)
    requires
        fits_duration(d),
    ensures
        final(out)@ == old(out)@ + duration_debug(d.nanos as nat),
{
    let t = duration_debug_text(d);
    push_s(out, t.as_str());
}

fn push_status(out: &mut Vec<char>, passed: bool)
    ensures
        final(out)@ == old(out)@ + status_text(passed),
{
    if passed {
        push_s(out, "✅ PASSED");
    } else {
        push_s(out, "❌ FAILED");
    }
}

fn push_error(out: &mut Vec<char>, e: &Option<String>)
    ensures
        final(out)@ == old(out)@ + error_text(crate::patterns::opt_view(*e)),
{
    match e {
        Some(m) => {
            let ghost o = out@;
            push_s(out, "  Error: ");
            push_s(out, m.as_str());
            push_s(out, "\n");
            assert(out@ =~= o + error_text(crate::patterns::opt_view(*e)));
        },
        None => {
            assert(out@ =~= out@ + error_text(crate::patterns::opt_view(*e)));
        },
    }
}

fn push_outcome(out: &mut Vec<char>, name: &String, passed: bool, d: Span, e: &Option<String>)
    requires
        fits_duration(d),
    ensures
        final(out)@ == old(out)@ + outcome_line((name@, passed, d.nanos as nat, crate::patterns::opt_view(*e))),
{
    let ghost o = out@;
    push_s(out, "- **");
    push_s(out, name.as_str());
    push_s(out, "**: ");
    push_status(out, passed);
    push_s(out, " (");
    push_duration(out, d);
    push_s(out, ")\n");
    push_error(out, e);
    assert(out@ =~= o + outcome_line((name@, passed, d.nanos as nat, crate::patterns::opt_view(*e))));
}

fn push_unit_section(out: &mut Vec<char>, rs: &Vec<UnitTestResult>)
    requires
        forall|i: int| 0 <= i < rs@.len() ==> fits_duration(#[trigger] rs@[i].duration),
    ensures
        final(out)@ == old(out)@ + outcome_section(
            "## Unit Tests\n\n"@,
            rs@.map_values(|x: UnitTestResult| x.model()),
        ),
{
    let ghost o = out@;
    let ghost ms = rs@.map_values(|x: UnitTestResult| x.model());
    if rs.len() == 0 {
        assert(out@ =~= o + outcome_section("## Unit Tests\n\n"@, ms));
        return;
    }
    push_s(out, "## Unit Tests\n\n");
    let ghost start = out@;
    let mut i: usize = 0;
    while i < rs.len()
        invariant
            i <= rs@.len(),
            ms == rs@.map_values(|x: UnitTestResult| x.model()),
            forall|k: int| 0 <= k < rs@.len() ==> fits_duration(#[trigger] rs@[k].duration),
            out@ == start + outcome_lines(ms.take(i as int)),
        decreases rs.len() - i,
    {
        let r = &rs[i];
        push_outcome(out, &r.test_name, r.passed, r.duration, &r.error);
        proof {
            assert(ms.take(i + 1).drop_last() =~= ms.take(i as int));
            assert(ms.take(i + 1).last() == r.model());
            assert(out@ =~= start + outcome_lines(ms.take(i + 1)));
        }
        i = i + 1;
    }
    push_s(out, "\n");
    assert(ms.take(i as int) =~= ms);
    assert(out@ =~= o + outcome_section("## Unit Tests\n\n"@, ms));
}

fn push_integration_section(out: &mut Vec<char>, rs: &Vec<IntegrationTestResult>)
    requires
        forall|i: int| 0 <= i < rs@.len() ==> fits_duration(#[trigger] rs@[i].duration),
    ensures
        final(out)@ == old(out)@ + outcome_section(
            "## Integration Tests\n\n"@,
            rs@.map_values(|x: IntegrationTestResult| x.model()),
        ),
{
    let ghost o = out@;
    let ghost ms = rs@.map_values(|x: IntegrationTestResult| x.model());
    if rs.len() == 0 {
        assert(out@ =~= o + outcome_section("## Integration Tests\n\n"@, ms));
        return;
    }
    push_s(out, "## Integration Tests\n\n");
    let ghost start = out@;
    let mut i: usize = 0;
    while i < rs.len()
        invariant
            i <= rs@.len(),
            ms == rs@.map_values(|x: IntegrationTestResult| x.model()),
            forall|k: int| 0 <= k < rs@.len() ==> fits_duration(#[trigger] rs@[k].duration),
            out@ == start + outcome_lines(ms.take(i as int)),
        decreases rs.len() - i,
    {
        let r = &rs[i];
        push_outcome(out, &r.test_name, r.passed, r.duration, &r.error);
        proof {
            assert(ms.take(i + 1).drop_last() =~= ms.take(i as int));
            assert(ms.take(i + 1).last() == r.model());
            assert(out@ =~= start + outcome_lines(ms.take(i + 1)));
        }
        i = i + 1;
    }
    push_s(out, "\n");
    assert(ms.take(i as int) =~= ms);
    assert(out@ =~= o + outcome_section("## Integration Tests\n\n"@, ms));
}

fn push_regression_section(out: &mut Vec<char>, rs: &Vec<RegressionTestResult>)
    requires
        forall|i: int| 0 <= i < rs@.len() ==> fits_duration(#[trigger] rs@[i].duration),
    ensures
        final(out)@ == old(out)@ + outcome_section(
            "## Regression Tests\n\n"@,
            rs@.map_values(|x: RegressionTestResult| x.model()),
        ),
{
    let ghost o = out@;
    let ghost ms = rs@.map_values(|x: RegressionTestResult| x.model());
    if rs.len() == 0 {
        assert(out@ =~= o + outcome_section("## Regression Tests\n\n"@, ms));
        return;
    }
    push_s(out, "## Regression Tests\n\n");
    let ghost start = out@;
    let mut i: usize = 0;
    while i < rs.len()
        invariant
            i <= rs@.len(),
            ms == rs@.map_values(|x: RegressionTestResult| x.model()),
            forall|k: int| 0 <= k < rs@.len() ==> fits_duration(#[trigger] rs@[k].duration),
            out@ == start + outcome_lines(ms.take(i as int)),
        decreases rs.len() - i,
    {
        let r = &rs[i];
        push_outcome(out, &r.test_name, r.passed, r.duration, &r.error);
        proof {
            assert(ms.take(i + 1).drop_last() =~= ms.take(i as int));
            assert(ms.take(i + 1).last() == r.model());
            assert(out@ =~= start + outcome_lines(ms.take(i + 1)));
        }
        i = i + 1;
    }
    push_s(out, "\n");
    assert(ms.take(i as int) =~= ms);
    assert(out@ =~= o + outcome_section("## Regression Tests\n\n"@, ms));
}

fn push_performance_section(out: &mut Vec<char>, rs: &Vec<PerformanceTestResult>)
    requires
        forall|i: int| 0 <= i < rs@.len() ==> fits_duration(#[trigger] rs@[i].average_duration),
    ensures
        final(out)@ == old(out)@ + performance_section(rs@.map_values(|x: PerformanceTestResult| x.report_model())),
{
    let ghost o = out@;
    let ghost ms = rs@.map_values(|x: PerformanceTestResult| x.report_model());
    if rs.len() == 0 {
        assert(out@ =~= o + performance_section(ms));
        return;
    }
    push_s(out, "## Performance Tests\n\n");
    let ghost start = out@;
    let mut i: usize = 0;
    while i < rs.len()
        invariant
            i <= rs@.len(),
            ms == rs@.map_values(|x: PerformanceTestResult| x.report_model()),
            forall|k: int| 0 <= k < rs@.len() ==> fits_duration(#[trigger] rs@[k].average_duration),
            out@ == start + performance_lines(ms.take(i as int)),
        decreases rs.len() - i,
    {
        let r = &rs[i];
        let ghost before = out@;
        push_s(out, "- **");
        push_s(out, r.test_name.as_str());
        push_s(out, "**: ");
        push_status(out, r.passed);
        push_s(out, " - ");
        crate::text::push_decimal(out, r.iterations as u64);
        push_s(out, " iterations, avg: ");
        push_duration(out, r.average_duration);
        push_s(out, "\n");
        push_error(out, &r.error);
        proof {
            assert(out@ =~= before + performance_line(r.report_model()));
            assert(ms.take(i + 1).drop_last() =~= ms.take(i as int));
            assert(ms.take(i + 1).last() == r.report_model());
            assert(out@ =~= start + performance_lines(ms.take(i + 1)));
        }
        i = i + 1;
    }
    assert(ms.take(i as int) =~= ms);
    assert(out@ =~= o + performance_section(ms));
}

fn push_count(out: &mut Vec<char>, n: usize)
    ensures
        final(out)@ == old(out)@ + decimal(n as nat),
{
    crate::text::push_decimal(out, n as u64)
}

/// Generate a markdown report of a suite result: the summary, then a
/// section for each kind of test that ran, one line per test.
pub fn render_report(result: &TestSuiteResult) -> (s: String)
    requires
        reportable(*result),
    ensures
        s@ == report_of(*result),
{
    let mut m: Vec<char> = Vec::new();
    push_s(&mut m, "# Template Test Suite Report\n\n");
    push_s(&mut m, "**Execution Time:** ");
    push_duration(&mut m, result.total_duration);
    push_s(&mut m, "\n");
    push_s(&mut m, "**Total Tests:** ");
    push_count(&mut m, result.summary.total_tests);
    push_s(&mut m, "\n");
    push_s(&mut m, "**Passed:** ");
    push_count(&mut m, result.summary.total_passed);
    push_s(&mut m, "\n");
    push_s(&mut m, "**Failed:** ");
    push_count(&mut m, result.summary.total_failed);
    push_s(&mut m, "\n");
    push_s(&mut m, "**Skipped:** ");
    push_count(&mut m, result.summary.total_skipped);
    push_s(&mut m, "\n\n");
    assert(m@ =~= report_header(*result));
    push_unit_section(&mut m, &result.unit_test_results);
    push_integration_section(&mut m, &result.integration_test_results);
    push_regression_section(&mut m, &result.regression_test_results);
    push_performance_section(&mut m, &result.performance_test_results);
    assert(m@ =~= report_of(*result));
    chars_to_string(m.as_slice())
}


// ---------------------------------------------------------------------------
// Checks on rendered output
// ---------------------------------------------------------------------------

/// Why one expected pattern fails on the output, if it does.
pub open spec fn expected_pattern_failure(p: Seq<char>, output: Seq<char>) -> Option<Seq<char>> {
    if !regex_valid(p) {
        Some("Invalid regex pattern: "@ + p)
    } else if !regex_matches(p, output) {
        Some("Template output does not match pattern '"@ + p + "': "@ + output)
    } else {
        None
    }
}

/// Why one forbidden pattern fails on the output, if it does.
pub open spec fn forbidden_pattern_failure(p: Seq<char>, output: Seq<char>) -> Option<Seq<char>> {
    if !regex_valid(p) {
        Some("Invalid regex pattern: "@ + p)
    } else if regex_matches(p, output) {
        Some("Template output contains forbidden pattern '"@ + p + "': "@ + output)
    } else {
        None
    }
}

/// The first failure among the patterns, in their order.
pub open spec fn first_failure(ps: Seq<Seq<char>>, output: Seq<char>, forbidden: bool) -> Option<Seq<char>>
    decreases ps.len(),
{
    if ps.len() == 0 {
        None
    } else {
        let f = if forbidden {
            forbidden_pattern_failure(ps[0], output)
        } else {
            expected_pattern_failure(ps[0], output)
        };
        match f {
            Some(m) => Some(m),
            None => first_failure(ps.drop_first(), output, forbidden),
        }
    }
}

pub open spec fn opt_failures(ps: Option<Seq<Seq<char>>>, output: Seq<char>, forbidden: bool) -> Option<Seq<char>> {
    match ps {
        Some(v) => first_failure(v, output, forbidden),
        None => None,
    }
}

/// The verdict on a unit test's rendered output: the exact expected output
/// first, then every expected pattern, then every forbidden one.
pub open spec fn unit_verdict(
    expected: Option<Seq<char>>,
    patterns: Option<Seq<Seq<char>>>,
    forbidden: Option<Seq<Seq<char>>>,
    output: Seq<char>,
) -> Result<(), Seq<char>> {
    if expected is Some && expected->0 != output {
        Err("Template output mismatch:\nExpected: "@ + expected->0 + "\nActual: "@ + output)
    } else {
        match opt_failures(patterns, output, false) {
            Some(m) => Err(m),
            None => match opt_failures(forbidden, output, true) {
                Some(m) => Err(m),
                None => Ok(()),
            },
        }
    }
}

pub open spec fn result_view(r: Result<(), String>) -> Result<(), Seq<char>> {
    match r {
        Ok(()) => Ok(()),
        Err(m) => Err(m@),
    }
}

fn pattern_check(p: &String, output: &str, forbidden: bool) -> (r: Option<String>)
    ensures
        crate::patterns::opt_view(r) == (if forbidden {
            forbidden_pattern_failure(p@, output@)
        } else {
            expected_pattern_failure(p@, output@)
        }),
{
    match regex_is_match(p.as_str(), output) {
        None => Some(cat2("Invalid regex pattern: ", p.as_str())),
        Some(hit) => {
            if forbidden && hit {
                Some(cat4("Template output contains forbidden pattern '", p.as_str(), "': ", output))
            } else if !forbidden && !hit {
                Some(cat4("Template output does not match pattern '", p.as_str(), "': ", output))
            } else {
                None
            }
        },
    }
}

fn patterns_check(ps: &Option<Vec<String>>, output: &str, forbidden: bool) -> (r: Option<String>)
    ensures
        crate::patterns::opt_view(r) == opt_failures(crate::text::opt_strs(*ps), output@, forbidden),
{
    match ps {
        None => None,
        Some(v) => {
            let ghost all = strs(v@);
            assert(all.skip(0) =~= all);
            assert(crate::text::opt_strs(*ps) == Some(all));
            let mut i: usize = 0;
            while i < v.len()
                invariant
                    i <= v@.len(),
                    all == strs(v@),
                    crate::text::opt_strs(*ps) == Some(all),
                    first_failure(all, output@, forbidden) == first_failure(all.skip(i as int), output@, forbidden),
                decreases v.len() - i,
            {
                let f = pattern_check(&v[i], output, forbidden);
                proof {
                    let rest = all.skip(i as int);
                    assert(rest[0] == v@[i as int]@);
                    assert(rest.drop_first() =~= all.skip(i + 1));
                    assert(rest.len() > 0);
                }
                if f.is_some() {
                    return f;
                }
                i = i + 1;
            }
            assert(all.skip(i as int) =~= Seq::<Seq<char>>::empty());
            None
        },
    }
}

/// Template unit test case
#[derive(Debug)]
pub struct TemplateUnitTest {
    /// Test name
    pub name: String,
    /// Template content to test
    pub template_content: String,
    /// Test context for rendering: each variable with the JSON text of its value
    pub test_context: Vec<(String, String)>,
    /// Expected exact output (optional)
    pub expected_output: Option<String>,
    /// Expected output patterns (regex)
    pub expected_patterns: Option<Vec<String>>,
    /// Forbidden patterns that should not appear
    pub forbidden_patterns: Option<Vec<String>>,
    /// Description of what this test validates
    pub description: Option<String>,
}

/// Compare rendered output with a baseline: equal once both are trimmed, or
/// equal once both are normalized.
pub open spec fn baseline_verdict(actual: Seq<char>, baseline: Seq<char>) -> Result<(), Seq<char>> {
    let a = trim(actual);
    let e = trim(baseline);
    if a == e || normalized(a) == normalized(e) {
        Ok(())
    } else {
        Err("Regression test failed - output differs from baseline:\nExpected:\n"@ + e + "\nActual:\n"@ + a)
    }
}

/// Compare a regression test's rendered output with its baseline output,
/// allowing for whitespace differences.
pub fn compare_with_baseline(actual_output: &str, baseline_output: &str) -> (r: Result<(), String>)
    ensures
        result_view(r) == baseline_verdict(actual_output@, baseline_output@),
{
    let a = crate::text::trim_str(actual_output);
    let e = crate::text::trim_str(baseline_output);
    if a == e {
        return Ok(());
    }
    let na = normalize_config_output(a.as_str());
    let ne = normalize_config_output(e.as_str());
    if na == ne {
        return Ok(());
    }
    Err(cat4("Regression test failed - output differs from baseline:\nExpected:\n", e.as_str(), "\nActual:\n", a.as_str()))
}


// ---------------------------------------------------------------------------
// Performance statistics
// ---------------------------------------------------------------------------

pub open spec fn total_nanos(s: Seq<Span>) -> nat
    decreases s.len(),
{
    if s.len() == 0 {
        0
    } else {
        total_nanos(s.drop_last()) + s.last().nanos as nat
    }
}

/// The shortest of the durations (0 for none).
pub open spec fn min_nanos(s: Seq<Span>) -> nat
    decreases s.len(),
{
    if s.len() == 0 {
        0
    } else if s.len() == 1 {
        s[0].nanos as nat
    } else {
        let m = min_nanos(s.drop_last());
        if (s.last().nanos as nat) < m {
            s.last().nanos as nat
        } else {
            m
        }
    }
}

/// The longest of the durations (0 for none).
pub open spec fn max_nanos(s: Seq<Span>) -> nat
    decreases s.len(),
{
    if s.len() == 0 {
        0
    } else {
        let m = max_nanos(s.drop_last());
        if (s.last().nanos as nat) > m {
            s.last().nanos as nat
        } else {
            m
        }
    }
}

proof fn lemma_total_prefix(s: Seq<Span>, i: int)
    requires
        0 <= i <= s.len(),
    ensures
        total_nanos(s.take(i)) <= total_nanos(s),
    decreases s.len(),
{
    if i < s.len() {
        assert(s.drop_last().take(i) =~= s.take(i));
        lemma_total_prefix(s.drop_last(), i);
    } else {
        assert(s.take(i) =~= s);
    }
}

proof fn lemma_extremes_bounded(s: Seq<Span>)
    ensures
        min_nanos(s) <= total_nanos(s),
        max_nanos(s) <= total_nanos(s),
    decreases s.len(),
{
    if s.len() > 0 {
        lemma_extremes_bounded(s.drop_last());
    }
}

/// The verdict of a performance test from its average and longest
/// iteration: the longest iteration's limit is checked last, and its
/// message wins.
pub open spec fn performance_verdict(avg: nat, max: nat, max_average: Option<Span>, max_single: Option<Span>) -> (
    bool,
    Option<Seq<char>>,
) {
    let avg_over = max_average is Some && avg > max_average->0.nanos;
    let max_over = max_single is Some && max > max_single->0.nanos;
    if max_over {
        (
            false,
            Some(
                "Maximum duration "@ + duration_debug(max) + " exceeds limit "@ + duration_debug(
                    max_single->0.nanos as nat,
                ),
            ),
        )
    } else if avg_over {
        (
            false,
            Some(
                "Average duration "@ + duration_debug(avg) + " exceeds maximum "@ + duration_debug(
                    max_average->0.nanos as nat,
                ),
            ),
        )
    } else {
        (true, None)
    }
}

pub open spec fn opt_fits(o: Option<Span>) -> bool {
    o matches Some(d) ==> fits_duration(d)
}

fn limit_message(lead: &str, d: Span, mid: &str, limit: Span) -> (s: String)
    requires
        fits_duration(d),
        fits_duration(limit),
    ensures
        s@ == lead@ + duration_debug(d.nanos as nat) + mid@ + duration_debug(limit.nanos as nat),
{
    let mut m: Vec<char> = Vec::new();
    push_s(&mut m, lead);
    push_duration(&mut m, d);
    push_s(&mut m, mid);
    push_duration(&mut m, limit);
    chars_to_string(m.as_slice())
}

/// Summarize the timed iterations of a performance test: total, average,
/// shortest and longest, and whether the limits were kept.
pub fn summarize_performance(
    test_name: &String,
    durations: &Vec<Span>,
    max_average_duration: Option<Span>,
    max_single_duration: Option<Span>,
) -> (r: PerformanceTestResult)
    requires
        durations@.len() > 0,
        durations@.len() <= u32::MAX,
        total_nanos(durations@) / 1_000_000_000 <= u64::MAX,
        opt_fits(max_average_duration),
        opt_fits(max_single_duration),
    ensures
        r.test_name@ == test_name@,
        r.iterations == durations@.len(),
        r.total_duration.nanos == total_nanos(durations@),
        r.average_duration.nanos == duration_quotient(total_nanos(durations@), durations@.len() as nat),
        r.min_duration.nanos == min_nanos(durations@),
        r.max_duration.nanos == max_nanos(durations@),
        (r.passed, crate::patterns::opt_view(r.error)) == performance_verdict(
            r.average_duration.nanos as nat,
            max_nanos(durations@),
            max_average_duration,
            max_single_duration,
        ),
{
    let ghost ds = durations@;
    let mut total: u128 = 0;
    let mut lo: u128 = durations[0].nanos;
    let mut hi: u128 = durations[0].nanos;
    let mut i: usize = 0;
    assert(ds.take(1).drop_last() =~= ds.take(0));
    while i < durations.len()
        invariant
            i <= ds.len(),
            ds == durations@,
            ds.len() > 0,
            total_nanos(ds) / 1_000_000_000 <= u64::MAX,
            total == total_nanos(ds.take(i as int)),
            i >= 1 ==> lo == min_nanos(ds.take(i as int)),
            i >= 1 ==> hi == max_nanos(ds.take(i as int)),
            i == 0 ==> lo == ds[0].nanos && hi == ds[0].nanos,
        decreases durations.len() - i,
    {
        let d = durations[i].nanos;
        proof {
            let t = ds.take(i + 1);
            assert(t.drop_last() =~= ds.take(i as int));
            assert(t.last() == ds[i as int]);
            lemma_total_prefix(ds, i + 1);
            if i == 0 {
                assert(t.len() == 1);
                assert(max_nanos(ds.take(0)) == 0);
            }
        }
        total = total + d;
        if i > 0 {
            if d < lo {
                lo = d;
            }
            if d > hi {
                hi = d;
            }
        }
        i = i + 1;
    }
    assert(ds.take(i as int) =~= ds);
    proof {
        lemma_extremes_bounded(ds);
    }
    let total_duration = Span { nanos: total };
    let average_duration = duration_divide(total_duration, durations.len() as u32);
    let min_duration = Span { nanos: lo };
    let max_duration = Span { nanos: hi };
    let mut passed = true;
    let mut error: Option<String> = None;
    match max_average_duration {
        Some(max_avg) => {
            if average_duration.nanos > max_avg.nanos {
                passed = false;
                error = Some(limit_message("Average duration ", average_duration, " exceeds maximum ", max_avg));
            }
        },
        None => {},
    }
    match max_single_duration {
        Some(max_single) => {
            if max_duration.nanos > max_single.nanos {
                passed = false;
                error = Some(limit_message("Maximum duration ", max_duration, " exceeds limit ", max_single));
            }
        },
        None => {},
    }
    PerformanceTestResult {
        test_name: test_name.clone(),
        passed,
        iterations: durations.len(),
        total_duration,
        average_duration,
        min_duration,
        max_duration,
        error,
    }
}


// ---------------------------------------------------------------------------
// The framework
// ---------------------------------------------------------------------------

/// Configuration for the template testing framework
#[derive(Debug, Clone)]
pub struct TestFrameworkConfig {
    /// Maximum time allowed for individual template tests
    pub test_timeout: Span,
    /// Maximum time allowed for test suite execution
    pub suite_timeout: Span,
    /// Whether to run integration tests
    pub run_integration_tests: bool,
    /// Whether to run regression tests
    pub run_regression_tests: bool,
    /// Directory containing test templates
    pub test_templates_dir: Option<String>,
    /// Directory for storing test artifacts
    pub test_artifacts_dir: Option<String>,
    /// Whether to enable verbose test output
    pub verbose: bool,
}

impl Default for TestFrameworkConfig {
    fn default() -> (c: Self)
        ensures
            c.test_timeout.nanos == 30_000_000_000,
            c.suite_timeout.nanos == 300_000_000_000,
            c.run_integration_tests,
            c.run_regression_tests,
            c.test_templates_dir is None,
            c.test_artifacts_dir is None,
            !c.verbose,
    {
        TestFrameworkConfig {
            test_timeout: Span::from_secs(30),
            suite_timeout: Span::from_secs(300),
            run_integration_tests: true,
            run_regression_tests: true,
            test_templates_dir: None,
            test_artifacts_dir: None,
            verbose: false,
        }
    }
}

/// Registry of the unit test cases
#[derive(Debug)]
pub struct TestRegistry {
    /// Unit test cases, in the order they were registered
    pub unit_tests: Vec<TemplateUnitTest>,
}

impl Default for TestRegistry {
    fn default() -> (r: Self)
        ensures
            r.unit_tests@.len() == 0,
    {
        TestRegistry { unit_tests: Vec::new() }
    }
}

/// Template testing framework: its configuration, the registered tests, and
/// the checks on what a test's template renders to.
#[derive(Debug)]
pub struct TemplateTestFramework {
    /// Template validator for syntax and security
    pub validator: crate::template::validation::TemplateValidator,
    /// Configuration for test execution
    pub config: TestFrameworkConfig,
    /// Registry of test templates
    pub test_registry: TestRegistry,
}

impl TemplateTestFramework {
    /// Create a new template testing framework
    pub fn new() -> (r: Result<Self, String>)
        ensures
            r matches Ok(f) && f.test_registry.unit_tests@.len() == 0 && f.config.test_timeout.nanos
                == 30_000_000_000 && f.config.run_integration_tests && f.config.run_regression_tests
                && !f.config.verbose,
    {
        Self::with_config(TestFrameworkConfig::default())
    }

    /// Create a new template testing framework with custom configuration
    pub fn with_config(config: TestFrameworkConfig) -> (r: Result<Self, String>)
        ensures
            r matches Ok(f) && f.config == config && f.test_registry.unit_tests@.len() == 0,
    {
        Ok(TemplateTestFramework {
            validator: crate::template::validation::TemplateValidator::new(),
            config,
            test_registry: TestRegistry::default(),
        })
    }

    /// Register a unit test case
    pub fn register_unit_test(&mut self, test: TemplateUnitTest)
        ensures
            final(self).test_registry.unit_tests@ == old(self).test_registry.unit_tests@.push(test),
            final(self).config == old(self).config,
    {
        self.test_registry.unit_tests.push(test);
    }

    /// Check what a unit test's template rendered to: the exact expected
    /// output, the expected patterns and the forbidden ones.
    pub fn check_unit_output(&self, test: &TemplateUnitTest, output: &str) -> (r: Result<(), String>)
        ensures
            result_view(r) == unit_verdict(
                crate::text::opt_str(test.expected_output),
                crate::text::opt_strs(test.expected_patterns),
                crate::text::opt_strs(test.forbidden_patterns),
                output@,
            ),
    {
        match &test.expected_output {
            Some(expected) => {
                let actual = output.to_string();
                if !(*expected == actual) {
                    let mut m: Vec<char> = Vec::new();
                    push_s(&mut m, "Template output mismatch:\nExpected: ");
                    push_s(&mut m, expected.as_str());
                    push_s(&mut m, "\nActual: ");
                    push_s(&mut m, output);
                    return Err(chars_to_string(m.as_slice()));
                }
            },
            None => {},
        }
        match patterns_check(&test.expected_patterns, output, false) {
            Some(m) => {
                return Err(m);
            },
            None => {},
        }
        match patterns_check(&test.forbidden_patterns, output, true) {
            Some(m) => Err(m),
            None => Ok(()),
        }
    }

    /// Generate a test report
    pub fn generate_report(&self, result: &TestSuiteResult) -> (r: Result<String, String>)
        requires
            reportable(*result),
        ensures
            r matches Ok(s) && s@ == report_of(*result),
    {
        Ok(render_report(result))
    }
}


// ---------------------------------------------------------------------------
// Building unit tests
// ---------------------------------------------------------------------------

/// The patterns after one more is added.
pub open spec fn with_pattern(ps: Option<Vec<String>>, p: Seq<char>) -> Option<Seq<Seq<char>>> {
    match ps {
        Some(v) => Some(strs(v@).push(p)),
        None => Some(seq![p]),
    }
}

/// Builder for creating template unit tests
#[derive(Debug)]
pub struct UnitTestBuilder {
    pub name: String,
    pub template_content: String,
    /// Each variable with the JSON text of its value
    pub test_context: Vec<(String, String)>,
    pub expected_output: Option<String>,
    pub expected_patterns: Option<Vec<String>>,
    pub forbidden_patterns: Option<Vec<String>>,
    pub description: Option<String>,
}

fn add_pattern(ps: Option<Vec<String>>, p: &str) -> (r: Option<Vec<String>>)
    ensures
        crate::text::opt_strs(r) == with_pattern(ps, p@),
{
    let mut v = match ps {
        Some(v) => v,
        None => Vec::new(),
    };
    let ghost before = strs(v@);
    v.push(p.to_string());
    assert(strs(v@) =~= before.push(p@));
    Some(v)
}

impl UnitTestBuilder {
    /// Create a new unit test builder
    pub fn new(name: &str, template_content: &str) -> (b: Self)
        ensures
            b.name@ == name@,
            b.template_content@ == template_content@,
            b.test_context@.len() == 0,
            b.expected_output is None,
            b.expected_patterns is None,
            b.forbidden_patterns is None,
            b.description is None,
    {
        UnitTestBuilder {
            name: name.to_string(),
            template_content: template_content.to_string(),
            test_context: Vec::new(),
            expected_output: None,
            expected_patterns: None,
            forbidden_patterns: None,
            description: None,
        }
    }

    /// Set a context variable to the JSON text of its value
    pub fn with_context_var(self, key: &str, value_json: &str) -> (b: Self)
        requires
            crate::assoc::distinct_names(self.test_context@),
        ensures
            crate::assoc::distinct_names(b.test_context@),
            crate::assoc::lookup(b.test_context@, key@) matches Some(v) && v@ == value_json@,
            forall|n: Seq<char>| n != key@ ==> #[trigger] crate::assoc::lookup(b.test_context@, n) == crate::assoc::lookup(
                self.test_context@,
                n,
            ),
            b.name == self.name,
            b.template_content == self.template_content,
            b.expected_output == self.expected_output,
            b.expected_patterns == self.expected_patterns,
            b.forbidden_patterns == self.forbidden_patterns,
            b.description == self.description,
    {
        let mut b = self;
        crate::assoc::upsert(&mut b.test_context, key.to_string(), value_json.to_string());
        b
    }

    /// Set several context variables, later ones over earlier ones
    pub fn with_context(self, context: Vec<(String, String)>) -> (b: Self)
        requires
            crate::assoc::distinct_names(self.test_context@),
        ensures
            crate::assoc::distinct_names(b.test_context@),
            forall|k: Seq<char>| #[trigger] crate::assoc::lookup(b.test_context@, k)
                == crate::template::driven_slicing::extended(self.test_context@, context@, k),
            b.name == self.name,
            b.template_content == self.template_content,
            b.expected_output == self.expected_output,
            b.expected_patterns == self.expected_patterns,
            b.forbidden_patterns == self.forbidden_patterns,
            b.description == self.description,
    {
        let mut b = self;
        let ghost orig = b.test_context@;
        let mut i: usize = 0;
        while i < context.len()
            invariant
                i <= context@.len(),
                crate::assoc::distinct_names(b.test_context@),
                forall|k: Seq<char>| #[trigger] crate::assoc::lookup(b.test_context@, k)
                    == crate::template::driven_slicing::extended(orig, context@.take(i as int), k),
                b.name == self.name,
                b.template_content == self.template_content,
                b.expected_output == self.expected_output,
                b.expected_patterns == self.expected_patterns,
                b.forbidden_patterns == self.forbidden_patterns,
                b.description == self.description,
            decreases context.len() - i,
        {
            let k = context[i].0.clone();
            let v = context[i].1.clone();
            let ghost before = b.test_context@;
            crate::assoc::upsert(&mut b.test_context, k, v);
            proof {
                let t = context@.take(i + 1);
                assert(t.drop_last() =~= context@.take(i as int));
                assert(t.last() == context@[i as int]);
                assert forall|n: Seq<char>| #[trigger] crate::assoc::lookup(b.test_context@, n)
                    == crate::template::driven_slicing::extended(orig, t, n) by {
                    if n != k@ {
                        assert(crate::assoc::lookup(b.test_context@, n) == crate::assoc::lookup(before, n));
                    }
                }
            }
            i = i + 1;
        }
        assert(context@.take(i as int) =~= context@);
        b
    }

    /// Set expected exact output
    pub fn expect_output(self, output: &str) -> (b: Self)
        ensures
            b.expected_output matches Some(o) && o@ == output@,
            b.name == self.name,
            b.template_content == self.template_content,
            b.test_context == self.test_context,
            b.expected_patterns == self.expected_patterns,
            b.forbidden_patterns == self.forbidden_patterns,
            b.description == self.description,
    {
        UnitTestBuilder { expected_output: Some(output.to_string()), ..self }
    }

    /// Add expected pattern (regex)
    pub fn expect_pattern(self, pattern: &str) -> (b: Self)
        ensures
            crate::text::opt_strs(b.expected_patterns) == with_pattern(self.expected_patterns, pattern@),
            b.name == self.name,
            b.template_content == self.template_content,
            b.test_context == self.test_context,
            b.expected_output == self.expected_output,
            b.forbidden_patterns == self.forbidden_patterns,
            b.description == self.description,
    {
        let mut b = self;
        let ps = b.expected_patterns.take();
        b.expected_patterns = add_pattern(ps, pattern);
        b
    }

    /// Add forbidden pattern (regex)
    pub fn forbid_pattern(self, pattern: &str) -> (b: Self)
        ensures
            crate::text::opt_strs(b.forbidden_patterns) == with_pattern(self.forbidden_patterns, pattern@),
            b.name == self.name,
            b.template_content == self.template_content,
            b.test_context == self.test_context,
            b.expected_output == self.expected_output,
            b.expected_patterns == self.expected_patterns,
            b.description == self.description,
    {
        let mut b = self;
        let ps = b.forbidden_patterns.take();
        b.forbidden_patterns = add_pattern(ps, pattern);
        b
    }

    /// Set description
    pub fn with_description(self, description: &str) -> (b: Self)
        ensures
            b.description matches Some(d) && d@ == description@,
            b.name == self.name,
            b.template_content == self.template_content,
            b.test_context == self.test_context,
            b.expected_output == self.expected_output,
            b.expected_patterns == self.expected_patterns,
            b.forbidden_patterns == self.forbidden_patterns,
    {
        UnitTestBuilder { description: Some(description.to_string()), ..self }
    }

    /// Build the unit test
    pub fn build(self) -> (t: TemplateUnitTest)
        ensures
            t.name == self.name,
            t.template_content == self.template_content,
            t.test_context == self.test_context,
            t.expected_output == self.expected_output,
            t.expected_patterns == self.expected_patterns,
            t.forbidden_patterns == self.forbidden_patterns,
            t.description == self.description,
    {
        TemplateUnitTest {
            name: self.name,
            template_content: self.template_content,
            test_context: self.test_context,
            expected_output: self.expected_output,
            expected_patterns: self.expected_patterns,
            forbidden_patterns: self.forbidden_patterns,
            description: self.description,
        }
    }
}

/// Common template test scenarios
#[derive(Debug)]
pub struct TemplateTestScenarios;

impl TemplateTestScenarios {
    /// Basic interface configuration test
    pub fn basic_interface_test() -> (t: TemplateUnitTest)
        ensures
            t.name@ == "basic_interface"@,
            t.expected_output matches Some(o) && o@ == "interface GigabitEthernet0/0\n description Uplink to Core\n no shutdown"@,
            t.expected_patterns is Some,
            t.forbidden_patterns is Some,
    {
        let b = UnitTestBuilder::new(
            "basic_interface",
            "interface {{ interface }}\n description {{ description }}\n no shutdown",
        );
        proof {
            assert(crate::assoc::distinct_names(b.test_context@));
        }
        let b = b.with_context_var("interface", "\"GigabitEthernet0/0\"");
        let b = b.with_context_var("description", "\"Uplink to Core\"");
        b.expect_output("interface GigabitEthernet0/0\n description Uplink to Core\n no shutdown").expect_pattern(
            "interface\\s+GigabitEthernet\\d+/\\d+",
        ).forbid_pattern("shutdown\\s*$").with_description("Basic interface configuration template test").build()
    }

    /// VLAN configuration test
    pub fn vlan_config_test() -> (t: TemplateUnitTest)
        ensures
            t.name@ == "vlan_config"@,
            t.expected_output matches Some(o) && o@ == "vlan 100\n name Data_VLAN"@,
            t.expected_patterns is Some,
            t.forbidden_patterns is None,
    {
        let b = UnitTestBuilder::new("vlan_config", "vlan {{ vlan_id }}\n name {{ vlan_name }}");
        let b = b.with_context_var("vlan_id", "100");
        let b = b.with_context_var("vlan_name", "\"Data_VLAN\"");
        b.expect_output("vlan 100\n name Data_VLAN").expect_pattern("vlan\\s+\\d+").with_description(
            "VLAN configuration template test",
        ).build()
    }

    /// Static routing configuration test
    pub fn routing_config_test() -> (t: TemplateUnitTest)
        ensures
            t.name@ == "routing_config"@,
            t.expected_output matches Some(o) && o@ == "ip route 10.1.0.0 255.255.0.0 192.168.1.1"@,
            t.expected_patterns is Some,
            t.forbidden_patterns is None,
    {
        let b = UnitTestBuilder::new("routing_config", "ip route {{ destination }} {{ mask }} {{ next_hop }}");
        let b = b.with_context_var("destination", "\"10.1.0.0\"");
        let b = b.with_context_var("mask", "\"255.255.0.0\"");
        let b = b.with_context_var("next_hop", "\"192.168.1.1\"");
        b.expect_output("ip route 10.1.0.0 255.255.0.0 192.168.1.1").expect_pattern(
            "ip route\\s+\\d+\\.\\d+\\.\\d+\\.\\d+\\s+\\d+\\.\\d+\\.\\d+\\.\\d+\\s+\\d+\\.\\d+\\.\\d+\\.\\d+",
        ).with_description("Static routing configuration template test").build()
    }

    /// Access control list configuration test
    pub fn acl_config_test() -> (t: TemplateUnitTest)
        ensures
            t.name@ == "acl_config"@,
            t.expected_output matches Some(o) && o@ == "access-list 100 permit tcp 10.0.0.0 0.255.255.255 any"@,
            t.expected_patterns is Some,
            t.forbidden_patterns is Some,
    {
        let b = UnitTestBuilder::new(
            "acl_config",
            "access-list {{ acl_name }} {{ action }} {{ protocol }} {{ source }} {{ destination }}",
        );
        let b = b.with_context_var("acl_name", "\"100\"");
        let b = b.with_context_var("action", "\"permit\"");
        let b = b.with_context_var("protocol", "\"tcp\"");
        let b = b.with_context_var("source", "\"10.0.0.0 0.255.255.255\"");
        let b = b.with_context_var("destination", "\"any\"");
        b.expect_output("access-list 100 permit tcp 10.0.0.0 0.255.255.255 any").expect_pattern(
            "access-list\\s+\\w+\\s+(permit|deny)",
        ).forbid_pattern("access-list.*\\{\\{.*\\}\\}").with_description(
            "Access control list configuration template test",
        ).build()
    }
}

} // verus!
