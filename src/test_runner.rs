//! Bookkeeping of test runs and analysis of test-runner output.
use vstd::prelude::*;

use crate::bench::{decimal, int_decimal, unix_timestamp};
use crate::manager::PYTHON_LOCATION;
use crate::pattern::{
    captures, captures_view, group_at, groups_view, location_from_groups, location_in,
    regex_captures,
};
use crate::text::{
    contains_seq, contains_str, lines_seq, split_lines, starts_with_seq, starts_with_str, same_text, strings_view, trim_seq,
    trim_text,
};

verus! {

/// Outcome of one test.
#[derive(Debug, Clone, Copy, PartialEq, Eq, Structural)]
pub enum TestStatus {
    Passed,
    Failed,
    Error,
    Skipped,
    Running,
    Pending,
}

pub open spec fn status_name(s: TestStatus) -> Seq<char> {
    match s {
        TestStatus::Passed => "passed"@,
        TestStatus::Failed => "failed"@,
        TestStatus::Error => "error"@,
        TestStatus::Skipped => "skipped"@,
        TestStatus::Running => "running"@,
        TestStatus::Pending => "pending"@,
    }
}

impl TestStatus {
    /// The status in lower case.
    pub fn to_string(&self) -> (r: String)
        ensures
            r@ == status_name(*self),
    {
        match self {
            TestStatus::Passed => "passed".to_owned(),
            TestStatus::Failed => "failed".to_owned(),
            TestStatus::Error => "error".to_owned(),
            TestStatus::Skipped => "skipped".to_owned(),
            TestStatus::Running => "running".to_owned(),
            TestStatus::Pending => "pending".to_owned(),
        }
    }
}

/// How serious a diagnostic is.
#[derive(Debug, Clone, Copy, PartialEq, Eq, Structural)]
pub enum DiagnosticSeverity {
    Error,
    Warning,
    Info,
    Hint,
}

/// A pattern in test output worth reporting.
#[derive(Debug, Clone)]
pub struct TestPattern {
    pub pattern: String,
    pub description: String,
    pub severity: DiagnosticSeverity,
}

/// A location that a diagnostic also refers to.
#[derive(Debug, Clone)]
pub struct DiagnosticRelatedInfo {
    pub file_path: String,
    pub line_number: u32,
    pub message: String,
}

/// A problem found in test output, tied to a source location.
#[derive(Debug, Clone)]
pub struct Diagnostic {
    pub file_path: String,
    pub line_number: u32,
    pub column: Option<u32>,
    pub message: String,
    pub severity: DiagnosticSeverity,
    pub code: Option<String>,
    pub source: String,
    pub related_info: Vec<DiagnosticRelatedInfo>,
}

pub ghost struct DiagnosticView {
    pub file_path: Seq<char>,
    pub line_number: u32,
    pub column: Option<u32>,
    pub message: Seq<char>,
    pub severity: DiagnosticSeverity,
    pub code: Option<Seq<char>>,
    pub source: Seq<char>,
    pub related_count: nat,
}

impl View for Diagnostic {
    type V = DiagnosticView;

    open spec fn view(&self) -> DiagnosticView {
        DiagnosticView {
            file_path: self.file_path@,
            line_number: self.line_number,
            column: self.column,
            message: self.message@,
            severity: self.severity,
            code: match self.code {
                Some(c) => Some(c@),
                None => None,
            },
            source: self.source@,
            related_count: self.related_info@.len(),
        }
    }
}

/// The line ends a traceback: it is not indented, does not open one, and is
/// not blank.
pub open spec fn ends_traceback(l: Seq<char>) -> bool {
    !starts_with_seq(l, "  "@) && !starts_with_seq(l, "Traceback"@) && trim_seq(l).len() > 0
}

/// The traceback among `lines`: from the first line that starts with
/// `Traceback` up to and including the line that ends it, or to the end.
pub open spec fn traceback_in(lines: Seq<Seq<char>>, inside: bool) -> Seq<Seq<char>>
    decreases lines.len(),
{
    if lines.len() == 0 {
        Seq::empty()
    } else {
        let l = lines[0];
        if inside || starts_with_seq(l, "Traceback"@) {
            if ends_traceback(l) {
                seq![l]
            } else {
                seq![l] + traceback_in(lines.drop_first(), true)
            }
        } else {
            traceback_in(lines.drop_first(), false)
        }
    }
}

/// A line that carries the gist of an error.
pub open spec fn is_message_line(l: Seq<char>) -> bool {
    let t = trim_seq(l);
    t.len() > 0 && !starts_with_seq(t, "File "@) && !starts_with_seq(t, "  "@)
}

/// The last line that carries the gist of an error, trimmed.
pub open spec fn last_message_line(lines: Seq<Seq<char>>) -> Option<Seq<char>>
    decreases lines.len(),
{
    if lines.len() == 0 {
        None
    } else if is_message_line(lines.last()) {
        Some(trim_seq(lines.last()))
    } else {
        last_message_line(lines.drop_last())
    }
}

/// Longest error text kept whole when no line carries its gist.
pub const MESSAGE_LIMIT: usize = 200;

/// The gist of an error message: its last meaningful line, or else the
/// message itself, cut to its first characters when it is long.
pub open spec fn cleaned_message(m: Seq<char>) -> Seq<char> {
    match last_message_line(lines_seq(m)) {
        Some(t) => t,
        None => if m.len() > MESSAGE_LIMIT {
            m.subrange(0, MESSAGE_LIMIT as int) + "..."@
        } else {
            m
        },
    }
}

/// The line number and file that an error message points at.
pub open spec fn location_of_groups(c: Option<Seq<Option<Seq<char>>>>) -> (Option<u32>, Option<Seq<char>>) {
    match c {
        Some(g) => match location_in(g, 1, 2) {
            Some((p, n)) => (Some(n), Some(p)),
            None => (None, None),
        },
        None => (None, None),
    }
}

pub open spec fn location_pair_view(r: (Option<u32>, Option<String>)) -> (Option<u32>, Option<Seq<char>>) {
    (
        r.0,
        match r.1 {
            Some(p) => Some(p@),
            None => None,
        },
    )
}

/// The diagnostic for a failed or erroneous test with this error message.
pub open spec fn failure_diagnostic(
    status: TestStatus,
    test_file: Option<Seq<char>>,
    error_message: Seq<char>,
) -> DiagnosticView {
    let loc = location_of_groups(regex_captures(PYTHON_LOCATION@, error_message));
    DiagnosticView {
        file_path: match loc.1 {
            Some(p) => p,
            None => match test_file {
                Some(f) => f,
                None => Seq::empty(),
            },
        },
        line_number: match loc.0 {
            Some(n) => n,
            None => 1,
        },
        column: None,
        message: cleaned_message(error_message),
        severity: if status is Error {
            DiagnosticSeverity::Error
        } else {
            DiagnosticSeverity::Warning
        },
        code: Some("test_"@ + status_name(status)),
        source: "frappe_test_runner"@,
        related_count: 0,
    }
}

/// One test outcome read from a line of runner output; the duration is kept
/// as the text the runner printed.
#[derive(Debug, Clone)]
pub struct TestLine {
    pub test_name: String,
    pub module: String,
    pub app: String,
    pub status: TestStatus,
    pub duration_text: Option<String>,
    pub error_message: Option<String>,
    pub file_path: Option<String>,
}

pub ghost struct TestLineView {
    pub test_name: Seq<char>,
    pub module: Seq<char>,
    pub app: Seq<char>,
    pub status: TestStatus,
    pub duration_text: Option<Seq<char>>,
    pub error_message: Option<Seq<char>>,
    pub file_path: Option<Seq<char>>,
}

pub open spec fn opt_view(o: Option<String>) -> Option<Seq<char>> {
    match o {
        Some(s) => Some(s@),
        None => None,
    }
}

impl View for TestLine {
    type V = TestLineView;

    open spec fn view(&self) -> TestLineView {
        TestLineView {
            test_name: self.test_name@,
            module: self.module@,
            app: self.app@,
            status: self.status,
            duration_text: opt_view(self.duration_text),
            error_message: opt_view(self.error_message),
            file_path: opt_view(self.file_path),
        }
    }
}

pub open spec fn test_line_opt_view(o: Option<TestLine>) -> Option<TestLineView> {
    match o {
        Some(t) => Some(t@),
        None => None,
    }
}

pub open spec fn test_lines_view(v: Seq<TestLine>) -> Seq<TestLineView> {
    v.map_values(|t: TestLine| t@)
}

/// A pytest result line: `path::Class::test STATUS [1.23s]`.
pub const PYTEST_LINE: &'static str = "^(.+)::\\s*(\\w+)\\s*::\\s*(\\w+)\\s*(PASSED|FAILED|ERROR|SKIPPED)(?:\\s*\\[(\\d+\\.\\d+)s\\])?";

/// A unittest result line: `test (module.Class) ... ok`.
pub const UNITTEST_LINE: &'static str = "^(\\w+)\\s+\\(([^.]+)\\.(\\w+)\\)\\s+\\.\\.\\.\\s+(ok|FAIL|ERROR|skip)";

pub open spec fn pytest_status(s: Seq<char>) -> TestStatus {
    if s == "PASSED"@ {
        TestStatus::Passed
    } else if s == "FAILED"@ {
        TestStatus::Failed
    } else if s == "SKIPPED"@ {
        TestStatus::Skipped
    } else {
        TestStatus::Error
    }
}

pub open spec fn unittest_status(s: Seq<char>) -> TestStatus {
    if s == "ok"@ {
        TestStatus::Passed
    } else if s == "FAIL"@ {
        TestStatus::Failed
    } else if s == "skip"@ {
        TestStatus::Skipped
    } else {
        TestStatus::Error
    }
}

/// The outcome that a line shows, given the matches of the pytest and the
/// unittest patterns in it; a pytest match decides alone.
pub open spec fn test_line_from(
    app: Seq<char>,
    pytest: Option<Seq<Option<Seq<char>>>>,
    unittest: Option<Seq<Option<Seq<char>>>>,
) -> Option<TestLineView> {
    match pytest {
        Some(g) => match (group_at(g, 1), group_at(g, 2), group_at(g, 3), group_at(g, 4)) {
            (Some(file), Some(class), Some(test), Some(status)) => Some(
                TestLineView {
                    test_name: class + "::"@ + test,
                    module: class,
                    app,
                    status: pytest_status(status),
                    duration_text: group_at(g, 5),
                    error_message: None,
                    file_path: Some(file),
                },
            ),
            _ => None,
        },
        None => match unittest {
            Some(g) => match (group_at(g, 1), group_at(g, 2), group_at(g, 3), group_at(g, 4)) {
                (Some(test), Some(module), Some(class), Some(status)) => Some(
                    TestLineView {
                        test_name: test,
                        module: module + "."@ + class,
                        app,
                        status: unittest_status(status),
                        duration_text: None,
                        error_message: None,
                        file_path: None,
                    },
                ),
                _ => None,
            },
            None => None,
        },
    }
}

/// The outcome that `line` shows, with the patterns matched against it.
pub open spec fn test_line_of(line: Seq<char>, app: Seq<char>) -> Option<TestLineView> {
    test_line_from(
        app,
        regex_captures(PYTEST_LINE@, line),
        regex_captures(UNITTEST_LINE@, line),
    )
}

/// The outcomes shown by `lines`, in order.
pub open spec fn test_lines_in(lines: Seq<Seq<char>>, app: Seq<char>) -> Seq<TestLineView>
    decreases lines.len(),
{
    if lines.len() == 0 {
        Seq::empty()
    } else {
        let prev = test_lines_in(lines.drop_last(), app);
        match test_line_of(lines.last(), app) {
            Some(t) => prev.push(t),
            None => prev,
        }
    }
}

/// How many outcomes have this status.
pub open spec fn count_status(v: Seq<TestLineView>, status: TestStatus) -> nat
    decreases v.len(),
{
    if v.len() == 0 {
        0
    } else {
        count_status(v.drop_last(), status) + if v.last().status == status {
            1nat
        } else {
            0nat
        }
    }
}

/// Counts of outcomes by status.
#[derive(Debug, Clone, Copy, PartialEq, Eq, Structural)]
pub struct TestTally {
    pub total_tests: u32,
    pub passed: u32,
    pub failed: u32,
    pub errors: u32,
    pub skipped: u32,
}

/// The first outcome among `lines`, if any.
pub open spec fn first_test_line(lines: Seq<Seq<char>>, app: Seq<char>) -> Option<TestLineView>
    decreases lines.len(),
{
    if lines.len() == 0 {
        None
    } else {
        match test_line_of(lines[0], app) {
            Some(t) => Some(t),
            None => first_test_line(lines.drop_first(), app),
        }
    }
}

/// The outcome of a single test run from what it printed: the first result
/// line, renamed after the test, or else a verdict from keywords.
pub open spec fn single_test_outcome(
    test_path: Seq<char>,
    stdout: Seq<char>,
    stderr: Seq<char>,
) -> TestLineView {
    match first_test_line(lines_seq(stdout + "\n"@ + stderr), ""@) {
        Some(t) => TestLineView { test_name: test_path, ..t },
        None => TestLineView {
            test_name: test_path,
            module: Seq::empty(),
            app: Seq::empty(),
            status: if contains_seq(stderr, "FAILED"@) || contains_seq(stderr, "ERROR"@) {
                TestStatus::Failed
            } else if contains_seq(stdout, "OK"@) || contains_seq(stdout, "PASSED"@) {
                TestStatus::Passed
            } else {
                TestStatus::Error
            },
            duration_text: None,
            error_message: if stderr.len() > 0 {
                Some(stderr)
            } else {
                None
            },
            file_path: Some(test_path),
        },
    }
}

/// Runs the tests of a bench and keeps track of the runs in progress.
#[derive(Debug, Clone)]
pub struct TestRunner {
    bench_path: String,
    site_name: String,
    running_tests: Vec<String>,
}

impl TestRunner {
    /// The ids of the runs in progress, in the order they started.
    pub closed spec fn running(&self) -> Seq<Seq<char>> {
        strings_view(self.running_tests@)
    }

    pub closed spec fn bench(&self) -> Seq<char> {
        self.bench_path@
    }

    pub closed spec fn site(&self) -> Seq<char> {
        self.site_name@
    }

    /// No run is listed twice.
    pub open spec fn wf(&self) -> bool {
        self.running().no_duplicates()
    }

    /// A runner for the bench at `bench_path`, testing on `site_name`.
    pub fn new(bench_path: String, site_name: String) -> (r: Self)
        ensures
            r.wf(),
            r.bench() == bench_path@,
            r.site() == site_name@,
            r.running() == Seq::<Seq<char>>::empty(),
    {
        let r = TestRunner { bench_path, site_name, running_tests: Vec::new() };
        assert(r.running() =~= Seq::<Seq<char>>::empty());
        r
    }

    pub fn bench_path(&self) -> (r: &String)
        ensures
            r@ == self.bench(),
    {
        &self.bench_path
    }

    pub fn site_name(&self) -> (r: &String)
        ensures
            r@ == self.site(),
    {
        &self.site_name
    }

    fn running_position(&self, test_id: &str) -> (r: Option<usize>)
        ensures
            match r {
                Some(i) => i < self.running().len() && self.running()[i as int] == test_id@,
                None => !self.running().contains(test_id@),
            },
    {
        let mut i: usize = 0;
        while i < self.running_tests.len()
            invariant
                i <= self.running_tests@.len(),
                forall|j: int| 0 <= j < i ==> self.running()[j] != test_id@,
            decreases self.running_tests@.len() - i,
        {
            if same_text(self.running_tests[i].as_str(), test_id) {
                return Some(i);
            }
            i = i + 1;
        }
        None
    }

    /// Notes that run `test_id` has started.
    pub fn mark_running(&mut self, test_id: String)
        requires
            old(self).wf(),
        ensures
            final(self).wf(),
            final(self).bench() == old(self).bench(),
            final(self).site() == old(self).site(),
            old(self).running().contains(test_id@) ==> final(self).running() == old(self).running(),
            !old(self).running().contains(test_id@) ==> final(self).running() == old(
                self,
            ).running().push(test_id@),
    {
        match self.running_position(test_id.as_str()) {
            Some(_) => {},
            None => {
                let ghost before = self.running_tests@;
                self.running_tests.push(test_id);
                assert(self.running() =~= strings_view(before).push(test_id@));
            },
        }
    }

    /// Notes that run `test_id` is over.
    pub fn mark_finished(&mut self, test_id: &str)
        requires
            old(self).wf(),
        ensures
            final(self).wf(),
            final(self).bench() == old(self).bench(),
            final(self).site() == old(self).site(),
            final(self).running() == old(self).running().remove_value(test_id@),
    {
        let ghost before = self.running();
        proof {
            before.index_of_first_ensures(test_id@);
        }
        match self.running_position(test_id) {
            Some(i) => {
                self.running_tests.remove(i);
                assert(self.running() =~= before.remove(i as int));
                assert(before.index_of_first(test_id@) == Some(i as int));
                assert forall|a: int, b: int|
                    0 <= a < self.running().len() && 0 <= b < self.running().len() && a != b
                        implies self.running()[a] != self.running()[b] by {
                    let a0 = if a < i { a } else { a + 1 };
                    let b0 = if b < i { b } else { b + 1 };
                    assert(self.running()[a] == before[a0]);
                    assert(self.running()[b] == before[b0]);
                }
            },
            None => {},
        }
    }

    /// Forgets every run in progress.
    pub fn stop_running_tests(&mut self) -> (r: Result<(), String>)
        requires
            old(self).wf(),
        ensures
            final(self).wf(),
            r is Ok,
            final(self).running() == Seq::<Seq<char>>::empty(),
            final(self).bench() == old(self).bench(),
            final(self).site() == old(self).site(),
    {
        self.running_tests.clear();
        assert(self.running() =~= Seq::<Seq<char>>::empty());
        Ok(())
    }

    /// The ids of the runs in progress.
    pub fn get_running_tests(&self) -> (r: Vec<String>)
        ensures
            strings_view(r@) == self.running(),
    {
        crate::process::copy_strings(&self.running_tests)
    }

    /// Whether run `test_id` is in progress.
    pub fn is_test_running(&self, test_id: &str) -> (r: bool)
        ensures
            r == self.running().contains(test_id@),
    {
        match self.running_position(test_id) {
            Some(_) => true,
            None => false,
        }
    }

    /// The patterns in test output that are worth reporting.
    pub fn get_test_patterns(&self) -> (r: Vec<TestPattern>)
        ensures
            r@.len() == 4,
            r@[0].pattern@ == "FAILED.*AssertionError"@ && r@[0].severity == DiagnosticSeverity::Error,
            r@[1].pattern@ == "ERROR.*ImportError"@ && r@[1].severity == DiagnosticSeverity::Error,
            r@[2].pattern@ == "WARNING"@ && r@[2].severity == DiagnosticSeverity::Warning,
            r@[3].pattern@ == "DeprecationWarning"@ && r@[3].severity
                == DiagnosticSeverity::Warning,
            r@[0].description@ == "Assertion failure in test"@,
            r@[1].description@ == "Import error in test"@,
            r@[2].description@ == "Test warning"@,
            r@[3].description@ == "Deprecated API usage"@,
    {
        let mut r: Vec<TestPattern> = Vec::new();
        r.push(
            TestPattern {
                pattern: "FAILED.*AssertionError".to_owned(),
                description: "Assertion failure in test".to_owned(),
                severity: DiagnosticSeverity::Error,
            },
        );
        r.push(
            TestPattern {
                pattern: "ERROR.*ImportError".to_owned(),
                description: "Import error in test".to_owned(),
                severity: DiagnosticSeverity::Error,
            },
        );
        r.push(
            TestPattern {
                pattern: "WARNING".to_owned(),
                description: "Test warning".to_owned(),
                severity: DiagnosticSeverity::Warning,
            },
        );
        r.push(
            TestPattern {
                pattern: "DeprecationWarning".to_owned(),
                description: "Deprecated API usage".to_owned(),
                severity: DiagnosticSeverity::Warning,
            },
        );
        r
    }

    /// The traceback in `error_output`, line by line.
    pub fn parse_traceback(&self, error_output: &str) -> (r: Vec<String>)
        ensures
            strings_view(r@) == traceback_in(lines_seq(error_output@), false),
    {
        let lines = split_lines(error_output);
        let ghost all = strings_view(lines@);
        let mut out: Vec<String> = Vec::new();
        let mut inside = false;
        let mut i: usize = 0;
        assert(all.subrange(0, all.len() as int) =~= all);
        assert(strings_view(out@) + all =~= all);
        while i < lines.len()
            invariant
                i <= lines@.len(),
                all == strings_view(lines@),
                all == lines_seq(error_output@),
                strings_view(out@) + traceback_in(all.subrange(i as int, all.len() as int), inside)
                    == traceback_in(all, false),
            decreases lines@.len() - i,
        {
            let line = &lines[i];
            let ghost rest = all.subrange(i as int, all.len() as int);
            assert(rest[0] == line@);
            assert(rest.drop_first() =~= all.subrange(i + 1, all.len() as int));
            if starts_with_str(line.as_str(), "Traceback") {
                inside = true;
            }
            if inside {
                let ghost before = out@;
                out.push(line.clone());
                assert(strings_view(out@) =~= strings_view(before).push(line@));
                let trimmed = trim_text(line.as_str());
                if !starts_with_str(line.as_str(), "  ") && !starts_with_str(
                    line.as_str(),
                    "Traceback",
                ) && !trimmed.as_str().is_empty() {
                    assert(strings_view(out@) =~= strings_view(before) + seq![line@]);
                    return out;
                }
                assert(strings_view(out@) + traceback_in(rest.drop_first(), true) =~= strings_view(
                    before,
                ) + (seq![line@] + traceback_in(rest.drop_first(), true)));
            }
            i = i + 1;
        }
        assert(all.subrange(i as int, all.len() as int) =~= Seq::<Seq<char>>::empty());
        assert(strings_view(out@) + Seq::<Seq<char>>::empty() =~= strings_view(out@));
        out
    }

    /// The gist of an error message: its last meaningful line, trimmed.
    pub fn clean_error_message(&self, error_message: &str) -> (r: String)
        ensures
            r@ == cleaned_message(error_message@),
    {
        let lines = split_lines(error_message);
        let ghost all = strings_view(lines@);
        let mut i = lines.len();
        assert(all.subrange(0, all.len() as int) =~= all);
        while i > 0
            invariant
                i <= lines@.len(),
                all == strings_view(lines@),
                all == lines_seq(error_message@),
                last_message_line(all) == last_message_line(all.subrange(0, i as int)),
            decreases i,
        {
            i = i - 1;
            let ghost prefix = all.subrange(0, i + 1);
            assert(prefix.drop_last() =~= all.subrange(0, i as int));
            assert(prefix.last() == lines@[i as int]@);
            let trimmed = trim_text(lines[i].as_str());
            if !trimmed.as_str().is_empty() && !starts_with_str(trimmed.as_str(), "File ")
                && !starts_with_str(trimmed.as_str(), "  ") {
                return trimmed;
            }
        }
        assert(all.subrange(0, 0) =~= Seq::<Seq<char>>::empty());
        let n = error_message.unicode_len();
        if n > MESSAGE_LIMIT {
            let mut r = error_message.substring_char(0, MESSAGE_LIMIT).to_owned();
            r.append("...");
            r
        } else {
            error_message.to_owned()
        }
    }

    /// The outcome that a line shows, given the matches of the two result
    /// patterns in it.
    pub fn test_line_from_captures(
        app_name: &str,
        pytest: Option<Vec<Option<String>>>,
        unittest: Option<Vec<Option<String>>>,
    ) -> (r: Option<TestLine>)
        ensures
            test_line_opt_view(r) == test_line_from(
                app_name@,
                captures_view(pytest),
                captures_view(unittest),
            ),
    {
        match pytest {
            Some(g) => {
                let file = group(&g, 1);
                let class = group(&g, 2);
                let test = group(&g, 3);
                let status = group(&g, 4);
                match (file, class, test, status) {
                    (Some(file), Some(class), Some(test), Some(status)) => {
                        let st = if same_text(status.as_str(), "PASSED") {
                            TestStatus::Passed
                        } else if same_text(status.as_str(), "FAILED") {
                            TestStatus::Failed
                        } else if same_text(status.as_str(), "SKIPPED") {
                            TestStatus::Skipped
                        } else {
                            TestStatus::Error
                        };
                        let mut name = class.clone();
                        name.append("::");
                        name.append(test.as_str());
                        Some(
                            TestLine {
                                test_name: name,
                                module: class,
                                app: app_name.to_owned(),
                                status: st,
                                duration_text: group(&g, 5),
                                error_message: None,
                                file_path: Some(file),
                            },
                        )
                    },
                    _ => None,
                }
            },
            None => match unittest {
                Some(g) => {
                    let test = group(&g, 1);
                    let module = group(&g, 2);
                    let class = group(&g, 3);
                    let status = group(&g, 4);
                    match (test, module, class, status) {
                        (Some(test), Some(module), Some(class), Some(status)) => {
                            let st = if same_text(status.as_str(), "ok") {
                                TestStatus::Passed
                            } else if same_text(status.as_str(), "FAIL") {
                                TestStatus::Failed
                            } else if same_text(status.as_str(), "skip") {
                                TestStatus::Skipped
                            } else {
                                TestStatus::Error
                            };
                            let mut full = module;
                            full.append(".");
                            full.append(class.as_str());
                            Some(
                                TestLine {
                                    test_name: test,
                                    module: full,
                                    app: app_name.to_owned(),
                                    status: st,
                                    duration_text: None,
                                    error_message: None,
                                    file_path: None,
                                },
                            )
                        },
                        _ => None,
                    }
                },
                None => None,
            },
        }
    }

    /// The outcome that `line` shows, if it is a pytest or unittest result
    /// line; `patterns` are not consulted.
    pub fn parse_test_line(&self, line: &str, app_name: &str, patterns: &[TestPattern]) -> (r:
        Option<TestLine>)
        ensures
            test_line_opt_view(r) == test_line_of(line@, app_name@),
    {
        let pytest = captures(PYTEST_LINE, line);
        if pytest.is_some() {
            return Self::test_line_from_captures(app_name, pytest, None);
        }
        let unittest = captures(UNITTEST_LINE, line);
        Self::test_line_from_captures(app_name, None, unittest)
    }

    /// The outcomes shown in `stdout`, then in `stderr`, line by line.
    pub fn parse_test_lines(&self, app_name: &str, stdout: &str, stderr: &str) -> (r: Vec<TestLine>)
        ensures
            test_lines_view(r@) == test_lines_in(lines_seq(stdout@) + lines_seq(stderr@), app_name@),
    {
        let out_lines = split_lines(stdout);
        let err_lines = split_lines(stderr);
        let ghost all = lines_seq(stdout@) + lines_seq(stderr@);
        let mut r: Vec<TestLine> = Vec::new();
        let n = out_lines.len();
        let mut i: usize = 0;
        assert(test_lines_view(r@) =~= test_lines_in(all.subrange(0, 0), app_name@));
        while i < n
            invariant
                n == out_lines@.len(),
                i <= n,
                strings_view(out_lines@) == lines_seq(stdout@),
                all == lines_seq(stdout@) + lines_seq(stderr@),
                test_lines_view(r@) == test_lines_in(all.subrange(0, i as int), app_name@),
            decreases n - i,
        {
            let line = &out_lines[i];
            assert(all[i as int] == line@);
            assert(all.subrange(0, i + 1).drop_last() =~= all.subrange(0, i as int));
            let ghost before = r@;
            match self.parse_test_line(line.as_str(), app_name, &[]) {
                Some(t) => {
                    r.push(t);
                    assert(test_lines_view(r@) =~= test_lines_view(before).push(t@));
                },
                None => {},
            }
            i = i + 1;
        }
        let mut j: usize = 0;
        while j < err_lines.len()
            invariant
                n == out_lines@.len(),
                j <= err_lines@.len(),
                strings_view(out_lines@) == lines_seq(stdout@),
                strings_view(err_lines@) == lines_seq(stderr@),
                all == lines_seq(stdout@) + lines_seq(stderr@),
                test_lines_view(r@) == test_lines_in(all.subrange(0, n + j), app_name@),
            decreases err_lines@.len() - j,
        {
            let line = &err_lines[j];
            assert(all[n + j] == line@);
            assert(all.subrange(0, n + j + 1).drop_last() =~= all.subrange(0, n + j));
            let ghost before = r@;
            match self.parse_test_line(line.as_str(), app_name, &[]) {
                Some(t) => {
                    r.push(t);
                    assert(test_lines_view(r@) =~= test_lines_view(before).push(t@));
                },
                None => {},
            }
            j = j + 1;
        }
        assert(all.subrange(0, n + j) =~= all);
        r
    }

    /// The number of outcomes with each status.
    pub fn tally(lines: &Vec<TestLine>) -> (r: TestTally)
        requires
            lines@.len() <= u32::MAX,
        ensures
            r.passed == count_status(test_lines_view(lines@), TestStatus::Passed),
            r.failed == count_status(test_lines_view(lines@), TestStatus::Failed),
            r.errors == count_status(test_lines_view(lines@), TestStatus::Error),
            r.skipped == count_status(test_lines_view(lines@), TestStatus::Skipped),
            r.total_tests == r.passed + r.failed + r.errors + r.skipped,
    {
        let mut t = TestTally { total_tests: 0, passed: 0, failed: 0, errors: 0, skipped: 0 };
        let mut i: usize = 0;
        while i < lines.len()
            invariant
                i <= lines@.len() <= u32::MAX,
                t.passed == count_status(test_lines_view(lines@.subrange(0, i as int)), TestStatus::Passed),
                t.failed == count_status(test_lines_view(lines@.subrange(0, i as int)), TestStatus::Failed),
                t.errors == count_status(test_lines_view(lines@.subrange(0, i as int)), TestStatus::Error),
                t.skipped == count_status(
                    test_lines_view(lines@.subrange(0, i as int)),
                    TestStatus::Skipped,
                ),
                t.passed + t.failed + t.errors + t.skipped <= i,
                t.total_tests == 0,
            decreases lines@.len() - i,
        {
            let ghost prefix = test_lines_view(lines@.subrange(0, i + 1));
            assert(prefix.drop_last() =~= test_lines_view(lines@.subrange(0, i as int)));
            assert(prefix.last() == lines@[i as int]@);
            match lines[i].status {
                TestStatus::Passed => t.passed = t.passed + 1,
                TestStatus::Failed => t.failed = t.failed + 1,
                TestStatus::Error => t.errors = t.errors + 1,
                TestStatus::Skipped => t.skipped = t.skipped + 1,
                _ => {},
            }
            i = i + 1;
        }
        assert(lines@.subrange(0, lines@.len() as int) =~= lines@);
        t.total_tests = t.passed + t.failed + t.errors + t.skipped;
        t
    }

    /// The outcome of a single test from what its run printed.
    pub fn parse_single_test_result(&self, test_path: &str, stdout: &str, stderr: &str) -> (r:
        TestLine)
        ensures
            r@ == single_test_outcome(test_path@, stdout@, stderr@),
    {
        let mut all = stdout.to_owned();
        all.append("\n");
        all.append(stderr);
        let lines = split_lines(all.as_str());
        let ghost ls = strings_view(lines@);
        let mut i: usize = 0;
        assert(ls.subrange(0, ls.len() as int) =~= ls);
        while i < lines.len()
            invariant
                i <= lines@.len(),
                ls == strings_view(lines@),
                ls == lines_seq(stdout@ + "\n"@ + stderr@),
                first_test_line(ls, ""@) == first_test_line(ls.subrange(i as int, ls.len() as int), ""@),
            decreases lines@.len() - i,
        {
            let ghost rest = ls.subrange(i as int, ls.len() as int);
            assert(rest[0] == lines@[i as int]@);
            assert(rest.drop_first() =~= ls.subrange(i + 1, ls.len() as int));
            match self.parse_test_line(lines[i].as_str(), "", &[]) {
                Some(t) => {
                    return TestLine { test_name: test_path.to_owned(), ..t };
                },
                None => {},
            }
            i = i + 1;
        }
        assert(ls.subrange(i as int, ls.len() as int) =~= Seq::<Seq<char>>::empty());
        let status = if contains_str(stderr, "FAILED") || contains_str(stderr, "ERROR") {
            TestStatus::Failed
        } else if contains_str(stdout, "OK") || contains_str(stdout, "PASSED") {
            TestStatus::Passed
        } else {
            TestStatus::Error
        };
        TestLine {
            test_name: test_path.to_owned(),
            module: String::new(),
            app: String::new(),
            status,
            duration_text: None,
            error_message: if stderr.is_empty() {
                None
            } else {
                Some(stderr.to_owned())
            },
            file_path: Some(test_path.to_owned()),
        }
    }

    /// The id of a run of the tests of `app_name` started at `timestamp`.
    pub fn run_id(app_name: &str, timestamp: i64) -> (r: String)
        ensures
            r@ == app_name@ + "::"@ + int_decimal(timestamp as int),
    {
        let mut r = app_name.to_owned();
        r.append("::");
        let digits = decimal(timestamp);
        r.append(digits.as_str());
        r
    }

    /// A fresh id for a run of the tests of `app_name` started now.
    pub fn fresh_run_id(app_name: &str) -> (r: String)
        ensures
            exists|t: i64| r@ == app_name@ + "::"@ + int_decimal(t as int),
    {
        let t = unix_timestamp();
        Self::run_id(app_name, t)
    }

    /// The shell command that runs every test of `app_name`, verbosely.
    pub fn app_tests_command(&self, app_name: &str) -> (r: String)
        ensures
            r@ == "cd "@ + self.bench() + " && bench --site "@ + self.site() + " run-tests --app "@
                + app_name@ + " --verbose"@,
    {
        let mut r = "cd ".to_owned();
        r.append(self.bench_path.as_str());
        r.append(" && bench --site ");
        r.append(self.site_name.as_str());
        r.append(" run-tests --app ");
        r.append(app_name);
        r.append(" --verbose");
        r
    }

    /// The shell command that runs the test `test_path` of `app_name`.
    pub fn specific_test_command(&self, app_name: &str, test_path: &str) -> (r: String)
        ensures
            r@ == "cd "@ + self.bench() + " && bench --site "@ + self.site() + " run-tests --app "@
                + app_name@ + " --test "@ + test_path@,
    {
        let mut r = "cd ".to_owned();
        r.append(self.bench_path.as_str());
        r.append(" && bench --site ");
        r.append(self.site_name.as_str());
        r.append(" run-tests --app ");
        r.append(app_name);
        r.append(" --test ");
        r.append(test_path);
        r
    }

    /// The diagnostic for a test outcome: only a failed or erroneous test with
    /// an error message has one.
    pub fn diagnostic_for_result(
        &self,
        status: TestStatus,
        test_file: Option<&str>,
        error_message: Option<&str>,
    ) -> (r: Option<Diagnostic>)
        ensures
            match r {
                Some(d) => (status is Failed || status is Error) && error_message is Some
                    && d@ == failure_diagnostic(
                    status,
                    match test_file {
                        Some(f) => Some(f@),
                        None => None,
                    },
                    error_message->Some_0@,
                ),
                None => !((status is Failed || status is Error) && error_message is Some),
            },
    {
        match status {
            TestStatus::Failed | TestStatus::Error => match error_message {
                Some(m) => Some(self.create_diagnostic_from_error(status, test_file, m)),
                None => None,
            },
            _ => None,
        }
    }

    /// The line number and file that `error_message` points at, given the
    /// match of the traceback location pattern in it.
    pub fn error_location_from_captures(captured: Option<Vec<Option<String>>>) -> (r: (
        Option<u32>,
        Option<String>,
    ))
        ensures
            location_pair_view(r) == location_of_groups(captures_view(captured)),
    {
        match captured {
            Some(g) => match location_from_groups(&g, 1, 2) {
                Some((p, n)) => (Some(n), Some(p)),
                None => (None, None),
            },
            None => (None, None),
        }
    }

    /// The line number and file that `error_message` points at.
    pub fn extract_error_location(&self, error_message: &str) -> (r: (Option<u32>, Option<String>))
        ensures
            location_pair_view(r) == location_of_groups(
                regex_captures(PYTHON_LOCATION@, error_message@),
            ),
    {
        Self::error_location_from_captures(captures(PYTHON_LOCATION, error_message))
    }

    /// The diagnostic for a test with `status`, defined in `test_file`, that
    /// failed with `error_message`.
    pub fn create_diagnostic_from_error(
        &self,
        status: TestStatus,
        test_file: Option<&str>,
        error_message: &str,
    ) -> (r: Diagnostic)
        ensures
            r@ == failure_diagnostic(
                status,
                match test_file {
                    Some(f) => Some(f@),
                    None => None,
                },
                error_message@,
            ),
    {
        let (line_number, found) = self.extract_error_location(error_message);
        let file_path = match found {
            Some(p) => p,
            None => match test_file {
                Some(f) => f.to_owned(),
                None => String::new(),
            },
        };
        let mut code = "test_".to_owned();
        let name = status.to_string();
        code.append(name.as_str());
        let r = Diagnostic {
            file_path,
            line_number: match line_number {
                Some(n) => n,
                None => 1,
            },
            column: None,
            message: self.clean_error_message(error_message),
            severity: match status {
                TestStatus::Error => DiagnosticSeverity::Error,
                _ => DiagnosticSeverity::Warning,
            },
            code: Some(code),
            source: "frappe_test_runner".to_owned(),
            related_info: Vec::new(),
        };
        r
    }
}

/// Group `i` of a match, when it took part.
fn group(g: &Vec<Option<String>>, i: usize) -> (r: Option<String>)
    ensures
        opt_view(r) == group_at(groups_view(g@), i as int),
{
    if i < g.len() {
        match &g[i] {
            Some(t) => Some(t.clone()),
            None => None,
        }
    } else {
        None
    }
}

} // verus!
