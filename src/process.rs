//! Values that describe supervised processes and their captured output.
use vstd::prelude::*;

use crate::text::strings_view;

verus! {

/// Lifecycle of a supervised process.
#[derive(Debug, Clone, Copy, PartialEq, Eq, Structural)]
pub enum ProcessStatus {
    Starting,
    Running,
    Stopped,
    Failed,
    Killed,
}

impl ProcessStatus {
    /// A process in this state still has a live child.
    pub open spec fn is_active(self) -> bool {
        self is Starting || self is Running
    }

    /// No transition leaves this state.
    pub open spec fn is_terminal(self) -> bool {
        self is Stopped || self is Failed || self is Killed
    }

    pub fn active(&self) -> (r: bool)
        ensures
            r == self.is_active(),
    {
        match self {
            ProcessStatus::Starting | ProcessStatus::Running => true,
            _ => false,
        }
    }
}

/// Severity of a captured line.
#[derive(Debug, Clone, Copy, PartialEq, Eq, Structural)]
pub enum LogLevel {
    Info,
    Warning,
    Error,
    Debug,
    Trace,
}

/// Stream a captured line came from.
#[derive(Debug, Clone, Copy, PartialEq, Eq, Structural)]
pub enum LogSource {
    Stdout,
    Stderr,
    System,
}

/// A moment, as time elapsed since the Unix epoch.
#[derive(Debug, Clone, Copy, PartialEq, Eq, Structural)]
pub struct Timestamp {
    pub secs: u64,
    pub nanos: u32,
}

/// One classified line of output.
#[derive(Debug, Clone)]
pub struct LogLine {
    pub timestamp: Timestamp,
    pub level: LogLevel,
    pub content: String,
    pub source: LogSource,
}

pub ghost struct LogLineView {
    pub timestamp: Timestamp,
    pub level: LogLevel,
    pub content: Seq<char>,
    pub source: LogSource,
}

impl View for LogLine {
    type V = LogLineView;

    open spec fn view(&self) -> LogLineView {
        LogLineView {
            timestamp: self.timestamp,
            level: self.level,
            content: self.content@,
            source: self.source,
        }
    }
}

impl LogLine {
    /// A copy with the same contents.
    pub fn snapshot(&self) -> (r: LogLine)
        ensures
            r@ == self@,
    {
        LogLine {
            timestamp: self.timestamp,
            level: self.level,
            content: self.content.clone(),
            source: self.source,
        }
    }
}

/// The views of a vector of log lines.
pub open spec fn log_lines_view(v: Seq<LogLine>) -> Seq<LogLineView> {
    v.map_values(|l: LogLine| l@)
}

/// A copy of each line, in order.
pub fn copy_log_lines(v: &Vec<LogLine>) -> (r: Vec<LogLine>)
    ensures
        log_lines_view(r@) == log_lines_view(v@),
{
    copy_log_range(v, 0)
}

/// A copy of the lines from position `from` on, in order.
pub fn copy_log_range(v: &Vec<LogLine>, from: usize) -> (r: Vec<LogLine>)
    ensures
        from <= v@.len() ==> log_lines_view(r@) == log_lines_view(v@.subrange(
            from as int,
            v@.len() as int,
        )),
        from > v@.len() ==> r@.len() == 0,
{
    let mut r: Vec<LogLine> = Vec::new();
    if from > v.len() {
        return r;
    }
    let mut i = from;
    while i < v.len()
        invariant
            from <= i <= v@.len(),
            log_lines_view(r@) == log_lines_view(v@.subrange(from as int, i as int)),
        decreases v@.len() - i,
    {
        let ghost before = r@;
        r.push(v[i].snapshot());
        assert(log_lines_view(r@) =~= log_lines_view(before).push(v@[i as int]@));
        assert(log_lines_view(v@.subrange(from as int, i + 1)) =~= log_lines_view(
            v@.subrange(from as int, i as int),
        ).push(v@[i as int]@));
        i = i + 1;
    }
    r
}

/// A copy of each string, in order.
pub fn copy_strings(v: &Vec<String>) -> (r: Vec<String>)
    ensures
        strings_view(r@) == strings_view(v@),
{
    let mut r: Vec<String> = Vec::new();
    let mut i: usize = 0;
    while i < v.len()
        invariant
            i <= v@.len(),
            strings_view(r@) == strings_view(v@.subrange(0, i as int)),
        decreases v@.len() - i,
    {
        let ghost before = r@;
        r.push(v[i].clone());
        assert(strings_view(r@) =~= strings_view(before).push(v@[i as int]@));
        assert(strings_view(v@.subrange(0, i + 1)) =~= strings_view(v@.subrange(0, i as int)).push(
            v@[i as int]@,
        ));
        i = i + 1;
    }
    assert(v@.subrange(0, v@.len() as int) =~= v@);
    r
}

/// Metadata and raw output of one supervised process.
#[derive(Debug, Clone)]
pub struct ProcessInfo {
    pub id: String,
    pub command: String,
    pub args: Vec<String>,
    pub working_dir: String,
    pub status: ProcessStatus,
    pub pid: Option<u32>,
    pub start_time: Timestamp,
    pub output_lines: Vec<String>,
    pub error_lines: Vec<String>,
}

pub ghost struct ProcessInfoView {
    pub id: Seq<char>,
    pub command: Seq<char>,
    pub args: Seq<Seq<char>>,
    pub working_dir: Seq<char>,
    pub status: ProcessStatus,
    pub pid: Option<u32>,
    pub start_time: Timestamp,
    pub output_lines: Seq<Seq<char>>,
    pub error_lines: Seq<Seq<char>>,
}

impl View for ProcessInfo {
    type V = ProcessInfoView;

    open spec fn view(&self) -> ProcessInfoView {
        ProcessInfoView {
            id: self.id@,
            command: self.command@,
            args: strings_view(self.args@),
            working_dir: self.working_dir@,
            status: self.status,
            pid: self.pid,
            start_time: self.start_time,
            output_lines: strings_view(self.output_lines@),
            error_lines: strings_view(self.error_lines@),
        }
    }
}

impl ProcessInfo {
    /// A copy with the same contents.
    pub fn snapshot(&self) -> (r: ProcessInfo)
        ensures
            r@ == self@,
    {
        ProcessInfo {
            id: self.id.clone(),
            command: self.command.clone(),
            args: copy_strings(&self.args),
            working_dir: self.working_dir.clone(),
            status: self.status,
            pid: self.pid,
            start_time: self.start_time,
            output_lines: copy_strings(&self.output_lines),
            error_lines: copy_strings(&self.error_lines),
        }
    }
}

/// The views of a vector of process records.
pub open spec fn infos_view(v: Seq<ProcessInfo>) -> Seq<ProcessInfoView> {
    v.map_values(|p: ProcessInfo| p@)
}

/// Shape of the text an error location was found in.
#[derive(Debug, Clone, Copy, PartialEq, Eq, Structural)]
pub enum ErrorType {
    PythonTraceback,
    JavaScriptError,
    BuildError,
    TestFailure,
    Generic,
}

/// A source location recovered from an error line.
#[derive(Debug, Clone)]
pub struct ClickableError {
    pub file_path: String,
    pub line_number: u32,
    pub message: String,
    pub error_type: ErrorType,
}

pub ghost struct ClickableErrorView {
    pub file_path: Seq<char>,
    pub line_number: u32,
    pub message: Seq<char>,
    pub error_type: ErrorType,
}

impl View for ClickableError {
    type V = ClickableErrorView;

    open spec fn view(&self) -> ClickableErrorView {
        ClickableErrorView {
            file_path: self.file_path@,
            line_number: self.line_number,
            message: self.message@,
            error_type: self.error_type,
        }
    }
}

pub open spec fn clickable_view(e: Option<ClickableError>) -> Option<ClickableErrorView> {
    match e {
        Some(x) => Some(x@),
        None => None,
    }
}

pub open spec fn clickables_view(v: Seq<ClickableError>) -> Seq<ClickableErrorView> {
    v.map_values(|e: ClickableError| e@)
}

} // verus!
