//! The registry of supervised processes: their records, captured output and
//! lifecycle, and the queries and controls over them.
use vstd::prelude::*;

use crate::pattern::{captures, location_from_groups, location_in, regex_captures, captures_view};
use crate::process::{
    clickable_view, clickables_view, infos_view, ClickableError, ClickableErrorView, ErrorType, LogLevel, LogLine, LogLineView, LogSource,
    ProcessInfo, ProcessInfoView, ProcessStatus, Timestamp, copy_log_lines, copy_log_range, copy_strings, log_lines_view,
};
use crate::text::{
    contains_seq, contains_str, lowercase_of, same_text, strings_view, to_lowercase, trim_end_seq,
    trim_end_text,
};

verus! {

/// Most lines kept per buffer of a process; older lines are dropped first.
pub const LOG_BUFFER_SIZE: usize = 1000;

/// A file reference in a Python traceback.
pub const PYTHON_LOCATION: &'static str = "File \"([^\"]+)\", line (\\d+)";

/// A frame of a JavaScript stack trace.
pub const JAVASCRIPT_LOCATION: &'static str = "at ([^(]+) \\(([^:]+):(\\d+):(\\d+)\\)";

pub open spec fn python_location() -> Seq<char> {
    PYTHON_LOCATION@
}

pub open spec fn javascript_location() -> Seq<char> {
    JAVASCRIPT_LOCATION@
}

/// The level of a line, given the line in lower case: the first rule that
/// matches wins.
pub open spec fn level_for(lower: Seq<char>) -> LogLevel {
    if contains_seq(lower, "error"@) || contains_seq(lower, "exception"@) {
        LogLevel::Error
    } else if contains_seq(lower, "warning"@) || contains_seq(lower, "warn"@) {
        LogLevel::Warning
    } else if contains_seq(lower, "debug"@) {
        LogLevel::Debug
    } else if contains_seq(lower, "trace"@) {
        LogLevel::Trace
    } else {
        LogLevel::Info
    }
}

/// The error that `line` yields, given the matches of the Python and the
/// JavaScript location patterns in it. A Python match decides alone, even
/// where its line number does not fit.
pub open spec fn clickable_from(
    line: Seq<char>,
    python: Option<Seq<Option<Seq<char>>>>,
    javascript: Option<Seq<Option<Seq<char>>>>,
) -> Option<ClickableErrorView> {
    match python {
        Some(g) => match location_in(g, 1, 2) {
            Some((p, n)) => Some(
                ClickableErrorView {
                    file_path: p,
                    line_number: n,
                    message: line,
                    error_type: ErrorType::PythonTraceback,
                },
            ),
            None => None,
        },
        None => match javascript {
            Some(g) => match location_in(g, 2, 3) {
                Some((p, n)) => Some(
                    ClickableErrorView {
                        file_path: p,
                        line_number: n,
                        message: line,
                        error_type: ErrorType::JavaScriptError,
                    },
                ),
                None => None,
            },
            None => None,
        },
    }
}

/// The error that `line` yields, with the patterns matched against it.
pub open spec fn clickable_of(line: Seq<char>) -> Option<ClickableErrorView> {
    clickable_from(
        line,
        regex_captures(python_location(), line),
        regex_captures(javascript_location(), line),
    )
}

/// What launching a process is recorded as.
#[derive(Debug, Clone)]
pub struct SpawnRequest {
    pub id: String,
    pub program: String,
    pub args: Vec<String>,
    pub working_dir: String,
    pub command: String,
}

pub ghost struct SpawnRequestView {
    pub id: Seq<char>,
    pub program: Seq<char>,
    pub args: Seq<Seq<char>>,
    pub working_dir: Seq<char>,
    pub command: Seq<char>,
}

impl View for SpawnRequest {
    type V = SpawnRequestView;

    open spec fn view(&self) -> SpawnRequestView {
        SpawnRequestView {
            id: self.id@,
            program: self.program@,
            args: strings_view(self.args@),
            working_dir: self.working_dir@,
            command: self.command@,
        }
    }
}

/// Everything the registry holds about one process.
pub ghost struct RecordView {
    pub info: ProcessInfoView,
    pub logs: Seq<LogLineView>,
}

/// The record of a process that was just launched.
pub open spec fn started_record(req: SpawnRequestView, pid: u32, start_time: Timestamp) -> RecordView {
    RecordView {
        info: ProcessInfoView {
            id: req.id,
            command: req.command,
            args: req.args,
            working_dir: req.working_dir,
            status: ProcessStatus::Starting,
            pid: Some(pid),
            start_time,
            output_lines: Seq::empty(),
            error_lines: Seq::empty(),
        },
        logs: Seq::empty(),
    }
}

/// `s` with `x` added at the end, and its oldest element dropped when that
/// takes it over the retention cap.
pub open spec fn push_capped<A>(s: Seq<A>, x: A) -> Seq<A> {
    if s.len() + 1 > LOG_BUFFER_SIZE {
        s.push(x).drop_first()
    } else {
        s.push(x)
    }
}

/// A record once `line` has been captured into it.
pub open spec fn with_line(r: RecordView, line: LogLineView) -> RecordView {
    RecordView {
        info: ProcessInfoView {
            output_lines: if line.source is Stderr {
                r.info.output_lines
            } else {
                push_capped(r.info.output_lines, line.content)
            },
            error_lines: if line.source is Stderr {
                push_capped(r.info.error_lines, line.content)
            } else {
                r.info.error_lines
            },
            ..r.info
        },
        logs: push_capped(r.logs, line),
    }
}

/// A record with another status.
pub open spec fn with_status(r: RecordView, status: ProcessStatus) -> RecordView {
    RecordView { info: ProcessInfoView { status, ..r.info }, logs: r.logs }
}

/// Whether some record has this id.
pub open spec fn has_id(recs: Seq<RecordView>, id: Seq<char>) -> bool {
    exists|i: int| 0 <= i < recs.len() && #[trigger] recs[i].info.id == id
}

/// The position of the record with this id, or -1.
pub open spec fn find_id(recs: Seq<RecordView>, id: Seq<char>) -> int {
    if has_id(recs, id) {
        choose|i: int| 0 <= i < recs.len() && #[trigger] recs[i].info.id == id
    } else {
        -1
    }
}

pub open spec fn ids_unique(recs: Seq<RecordView>) -> bool {
    forall|i: int, j: int|
        0 <= i < recs.len() && 0 <= j < recs.len() && i != j ==> #[trigger] recs[i].info.id
            != #[trigger] recs[j].info.id
}

pub open spec fn record_bounded(r: RecordView) -> bool {
    &&& r.info.output_lines.len() <= LOG_BUFFER_SIZE
    &&& r.info.error_lines.len() <= LOG_BUFFER_SIZE
    &&& r.logs.len() <= LOG_BUFFER_SIZE
    &&& r.info.pid is Some
}

/// Ids are unique, buffers are within the cap, and every record has a pid.
pub open spec fn records_wf(recs: Seq<RecordView>) -> bool {
    &&& ids_unique(recs)
    &&& forall|i: int| 0 <= i < recs.len() ==> #[trigger] record_bounded(recs[i])
}

pub proof fn lemma_find_id(recs: Seq<RecordView>, id: Seq<char>)
    requires
        ids_unique(recs),
    ensures
        -1 <= find_id(recs, id) < recs.len(),
        find_id(recs, id) >= 0 ==> recs[find_id(recs, id)].info.id == id,
        find_id(recs, id) == -1 <==> !has_id(recs, id),
        forall|i: int| 0 <= i < recs.len() && recs[i].info.id == id ==> find_id(recs, id) == i,
{
}

/// The line that capturing `raw` from `source` at `timestamp` records.
pub open spec fn captured_line(raw: Seq<char>, source: LogSource, timestamp: Timestamp) -> LogLineView {
    LogLineView {
        timestamp,
        level: level_for(lowercase_of(raw)),
        content: trim_end_seq(raw),
        source,
    }
}

/// What a poll of a child's exit status found.
#[derive(Debug, Clone, Copy, PartialEq, Eq, Structural)]
pub enum PollOutcome {
    StillRunning,
    Exited { success: bool },
    PollFailed,
}

/// The status of an active process after a poll.
pub open spec fn polled_status(status: ProcessStatus, outcome: PollOutcome) -> ProcessStatus {
    match outcome {
        PollOutcome::StillRunning => if status is Starting {
            ProcessStatus::Running
        } else {
            status
        },
        PollOutcome::Exited { success } => if success {
            ProcessStatus::Stopped
        } else {
            ProcessStatus::Failed
        },
        PollOutcome::PollFailed => ProcessStatus::Failed,
    }
}

/// Why an operation on a process did not take place.
#[derive(Debug, Clone, PartialEq, Eq)]
pub enum ProcessError {
    /// The operating system could not create the process.
    SpawnError(String),
    /// No record has the id.
    NotFound,
    /// The record has no live child.
    NotRunning,
}

impl ProcessError {
    /// A sentence that describes the error.
    pub fn message(&self) -> (r: String) {
        match self {
            ProcessError::SpawnError(m) => {
                let mut r = "Failed to start process: ".to_owned();
                r.append(m.as_str());
                r
            },
            ProcessError::NotFound => "Process not found".to_owned(),
            ProcessError::NotRunning => "Process is not running".to_owned(),
        }
    }
}

/// The metadata of each record, in order.
pub open spec fn infos_of(recs: Seq<RecordView>) -> Seq<ProcessInfoView> {
    recs.map_values(|r: RecordView| r.info)
}

/// The metadata of the records whose process is starting or running, in order.
pub open spec fn active_infos(recs: Seq<RecordView>) -> Seq<ProcessInfoView>
    decreases recs.len(),
{
    if recs.len() == 0 {
        Seq::empty()
    } else {
        let prev = active_infos(recs.drop_last());
        if recs.last().info.status.is_active() {
            prev.push(recs.last().info)
        } else {
            prev
        }
    }
}

/// The ids of the records whose process is starting or running, in order.
pub open spec fn active_ids(recs: Seq<RecordView>) -> Seq<Seq<char>>
    decreases recs.len(),
{
    if recs.len() == 0 {
        Seq::empty()
    } else {
        let prev = active_ids(recs.drop_last());
        if recs.last().info.status.is_active() {
            prev.push(recs.last().info.id)
        } else {
            prev
        }
    }
}

/// The records whose process is starting or running, in order.
pub open spec fn unfinished(recs: Seq<RecordView>) -> Seq<RecordView>
    decreases recs.len(),
{
    if recs.len() == 0 {
        Seq::empty()
    } else {
        let prev = unfinished(recs.drop_last());
        if recs.last().info.status.is_active() {
            prev.push(recs.last())
        } else {
            prev
        }
    }
}

/// A record as stopping every live child leaves it.
pub open spec fn stopped(r: RecordView) -> RecordView {
    if r.info.status.is_active() {
        with_status(r, ProcessStatus::Killed)
    } else {
        r
    }
}

/// The registry once every live child is stopped.
pub open spec fn all_stopped(recs: Seq<RecordView>) -> Seq<RecordView> {
    recs.map_values(|x: RecordView| stopped(x))
}

/// The last `count` lines of `logs`, or all of them where there are fewer.
pub open spec fn tail(logs: Seq<LogLineView>, count: nat) -> Seq<LogLineView> {
    if logs.len() > count {
        logs.subrange(logs.len() - count, logs.len() as int)
    } else {
        logs
    }
}

/// A development server started through the bench tool and still alive.
pub open spec fn is_bench_server(r: RecordView) -> bool {
    contains_seq(r.info.command, "bench start"@) && r.info.status.is_active()
}

pub open spec fn level_icon(level: LogLevel) -> Seq<char> {
    match level {
        LogLevel::Error => "\u{1f525}"@,
        LogLevel::Warning => "\u{26a0}\u{fe0f}"@,
        LogLevel::Info => "\u{2139}\u{fe0f}"@,
        LogLevel::Debug => "\u{1f41b}"@,
        LogLevel::Trace => "\u{1f50d}"@,
    }
}

pub open spec fn source_prefix(source: LogSource) -> Seq<char> {
    match source {
        LogSource::Stdout => ""@,
        LogSource::Stderr => "[ERR] "@,
        LogSource::System => "[SYS] "@,
    }
}

/// One line of the display: icon, space, stream prefix, content, newline.
pub open spec fn display_line(l: LogLineView) -> Seq<char> {
    level_icon(l.level) + " "@ + source_prefix(l.source) + l.content + "\n"@
}

pub open spec fn display_lines(logs: Seq<LogLineView>) -> Seq<char>
    decreases logs.len(),
{
    if logs.len() == 0 {
        Seq::empty()
    } else {
        display_lines(logs.drop_last()) + display_line(logs.last())
    }
}

/// The locations found in the error-level lines of `logs`, in order.
pub open spec fn clickables_in(logs: Seq<LogLineView>) -> Seq<ClickableErrorView>
    decreases logs.len(),
{
    if logs.len() == 0 {
        Seq::empty()
    } else {
        let prev = clickables_in(logs.drop_last());
        if logs.last().level is Error {
            match clickable_of(logs.last().content) {
                Some(e) => prev.push(e),
                None => prev,
            }
        } else {
            prev
        }
    }
}

/// Every record of `unfinished(recs)` is a record of `recs`, and the
/// registry invariant carries over.
pub proof fn lemma_unfinished_wf(recs: Seq<RecordView>)
    requires
        records_wf(recs),
    ensures
        records_wf(unfinished(recs)),
        forall|k: int|
            0 <= k < unfinished(recs).len() ==> exists|j: int|
                0 <= j < recs.len() && #[trigger] unfinished(recs)[k] == recs[j],
    decreases recs.len(),
{
    if recs.len() > 0 {
        let prev = recs.drop_last();
        assert forall|i: int, j: int|
            0 <= i < prev.len() && 0 <= j < prev.len() && i != j implies #[trigger] prev[i].info.id
            != #[trigger] prev[j].info.id by {
            assert(recs[i] == prev[i] && recs[j] == prev[j]);
        }
        assert forall|i: int| 0 <= i < prev.len() implies #[trigger] record_bounded(prev[i]) by {
            assert(record_bounded(recs[i]));
        }
        lemma_unfinished_wf(prev);
        let up = unfinished(prev);
        if recs.last().info.status.is_active() {
            let u = up.push(recs.last());
            assert forall|k: int| 0 <= k < up.len() implies #[trigger] up[k].info.id != recs.last().info.id by {
                let j = choose|j: int| 0 <= j < prev.len() && up[k] == prev[j];
                assert(recs[j] == prev[j]);
            }
            assert forall|k: int| 0 <= k < u.len() implies exists|j: int|
                0 <= j < recs.len() && #[trigger] u[k] == recs[j] by {
                if k < up.len() {
                    let j = choose|j: int| 0 <= j < prev.len() && up[k] == prev[j];
                    assert(u[k] == recs[j]);
                } else {
                    assert(u[k] == recs[recs.len() - 1]);
                }
            }
            assert forall|a: int, b: int|
                0 <= a < u.len() && 0 <= b < u.len() && a != b implies #[trigger] u[a].info.id
                != #[trigger] u[b].info.id by {
                if a < up.len() && b < up.len() {
                    assert(u[a] == up[a] && u[b] == up[b]);
                } else if a < up.len() {
                    assert(u[a] == up[a]);
                } else if b < up.len() {
                    assert(u[b] == up[b]);
                }
            }
            assert forall|k: int| 0 <= k < u.len() implies #[trigger] record_bounded(u[k]) by {
                if k < up.len() {
                    assert(u[k] == up[k]);
                } else {
                    assert(record_bounded(recs[recs.len() - 1]));
                }
            }
        } else {
            assert forall|k: int| 0 <= k < up.len() implies exists|j: int|
                0 <= j < recs.len() && #[trigger] up[k] == recs[j] by {
                let j = choose|j: int| 0 <= j < prev.len() && up[k] == prev[j];
                assert(up[k] == recs[j]);
            }
        }
    }
}

/// The registry once a process launched for `req` is recorded.
pub open spec fn spawned(recs: Seq<RecordView>, req: SpawnRequestView, pid: u32, start_time: Timestamp) -> Seq<RecordView> {
    if has_id(recs, req.id) {
        recs.update(find_id(recs, req.id), started_record(req, pid, start_time))
    } else {
        recs.push(started_record(req, pid, start_time))
    }
}

/// The registry once `line` is captured for process `id`.
pub open spec fn appended(recs: Seq<RecordView>, id: Seq<char>, line: LogLineView) -> Seq<RecordView> {
    if has_id(recs, id) {
        recs.update(find_id(recs, id), with_line(recs[find_id(recs, id)], line))
    } else {
        recs
    }
}

/// Process `id` has a record and a live child.
pub open spec fn is_live(recs: Seq<RecordView>, id: Seq<char>) -> bool {
    has_id(recs, id) && recs[find_id(recs, id)].info.status.is_active()
}

/// The registry once process `id` is stopped.
pub open spec fn stopped_one(recs: Seq<RecordView>, id: Seq<char>) -> Seq<RecordView> {
    if is_live(recs, id) {
        recs.update(find_id(recs, id), with_status(recs[find_id(recs, id)], ProcessStatus::Killed))
    } else {
        recs
    }
}

/// The registry once a poll of process `id` found `outcome`.
pub open spec fn polled(recs: Seq<RecordView>, id: Seq<char>, outcome: PollOutcome) -> Seq<RecordView> {
    if is_live(recs, id) {
        recs.update(
            find_id(recs, id),
            with_status(
                recs[find_id(recs, id)],
                polled_status(recs[find_id(recs, id)].info.status, outcome),
            ),
        )
    } else {
        recs
    }
}

/// The captured lines of process `id`; none when it is not known.
pub open spec fn logs_of(recs: Seq<RecordView>, id: Seq<char>) -> Seq<LogLineView> {
    if has_id(recs, id) {
        recs[find_id(recs, id)].logs
    } else {
        Seq::empty()
    }
}

/// The metadata of process `id`, when it is known.
pub open spec fn info_of(recs: Seq<RecordView>, id: Seq<char>) -> Option<ProcessInfoView> {
    if has_id(recs, id) {
        Some(recs[find_id(recs, id)].info)
    } else {
        None
    }
}

/// Changing one record's status keeps the registry well formed.
pub proof fn lemma_status_update_wf(recs: Seq<RecordView>, i: int, status: ProcessStatus)
    requires
        records_wf(recs),
        0 <= i < recs.len(),
    ensures
        records_wf(recs.update(i, with_status(recs[i], status))),
{
    let next = recs.update(i, with_status(recs[i], status));
    assert forall|j: int| 0 <= j < next.len() implies next[j].info.id == recs[j].info.id
        && record_bounded(next[j]) by {
        assert(record_bounded(recs[j]));
    }
}

struct ProcessHandle {
    info: ProcessInfo,
    log_lines: Vec<LogLine>,
}

impl ProcessHandle {
    spec fn record(&self) -> RecordView {
        RecordView { info: self.info@, logs: log_lines_view(self.log_lines@) }
    }

    fn add_line(&mut self, line: LogLine)
        requires
            record_bounded(old(self).record()),
        ensures
            final(self).record() == with_line(old(self).record(), line@),
            record_bounded(final(self).record()),
    {
        let content = line.content.clone();
        match line.source {
            LogSource::Stderr => push_capped_strings(&mut self.info.error_lines, content),
            _ => push_capped_strings(&mut self.info.output_lines, content),
        }
        let ghost before = self.log_lines@;
        self.log_lines.push(line);
        assert(log_lines_view(self.log_lines@) =~= log_lines_view(before).push(line@));
        if self.log_lines.len() > LOG_BUFFER_SIZE {
            let ghost pushed = self.log_lines@;
            self.log_lines.remove(0);
            assert(log_lines_view(self.log_lines@) =~= log_lines_view(pushed).drop_first());
        }
        assert(self.record().info =~= with_line(old(self).record(), line@).info);
    }
}

fn push_capped_strings(v: &mut Vec<String>, x: String)
    requires
        old(v)@.len() <= LOG_BUFFER_SIZE,
    ensures
        strings_view(final(v)@) == push_capped(strings_view(old(v)@), x@),
        final(v)@.len() <= LOG_BUFFER_SIZE,
{
    let ghost before = v@;
    v.push(x);
    assert(strings_view(v@) =~= strings_view(before).push(x@));
    if v.len() > LOG_BUFFER_SIZE {
        let ghost pushed = v@;
        v.remove(0);
        assert(strings_view(v@) =~= strings_view(pushed).drop_first());
    }
}

/// The registry of supervised processes, in the order they were launched.
pub struct ProcessManager {
    processes: Vec<ProcessHandle>,
    log_buffer_size: usize,
}

impl View for ProcessManager {
    type V = Seq<RecordView>;

    closed spec fn view(&self) -> Seq<RecordView> {
        self.processes@.map_values(|h: ProcessHandle| h.record())
    }
}

impl ProcessManager {
    pub closed spec fn wf(&self) -> bool {
        &&& self.log_buffer_size == LOG_BUFFER_SIZE
        &&& records_wf(self@)
    }

    /// An empty registry.
    pub fn new() -> (r: Self)
        ensures
            r.wf(),
            r@ == Seq::<RecordView>::empty(),
    {
        let r = ProcessManager { processes: Vec::new(), log_buffer_size: LOG_BUFFER_SIZE };
        assert(r@ =~= Seq::<RecordView>::empty());
        r
    }

    fn position(&self, id: &str) -> (r: Option<usize>)
        requires
            self.wf(),
        ensures
            match r {
                Some(i) => i == find_id(self@, id@) && i < self@.len(),
                None => find_id(self@, id@) == -1,
            },
    {
        proof {
            lemma_find_id(self@, id@);
        }
        let mut i: usize = 0;
        while i < self.processes.len()
            invariant
                self.wf(),
                i <= self@.len(),
                forall|j: int| 0 <= j < i ==> self@[j].info.id != id@,
            decreases self@.len() - i,
        {
            if same_text(self.processes[i].info.id.as_str(), id) {
                assert(self@[i as int] == self.processes@[i as int].record());
                proof {
                    lemma_find_id(self@, id@);
                }
                return Some(i);
            }
            i = i + 1;
        }
        proof {
            lemma_find_id(self@, id@);
        }
        None
    }

    /// Records a process that was just launched for `request`, with status
    /// `Starting`; a record with the same id is replaced.
    pub fn record_spawned(&mut self, request: &SpawnRequest, pid: u32, start_time: Timestamp)
        requires
            old(self).wf(),
        ensures
            final(self).wf(),
            final(self)@ == spawned(old(self)@, request@, pid, start_time),
    {
        let handle = ProcessHandle {
            info: ProcessInfo {
                id: request.id.clone(),
                command: request.command.clone(),
                args: copy_strings(&request.args),
                working_dir: request.working_dir.clone(),
                status: ProcessStatus::Starting,
                pid: Some(pid),
                start_time,
                output_lines: Vec::new(),
                error_lines: Vec::new(),
            },
            log_lines: Vec::new(),
        };
        let ghost rec = started_record(request@, pid, start_time);
        assert(strings_view(handle.info.output_lines@) =~= Seq::<Seq<char>>::empty());
        assert(strings_view(handle.info.error_lines@) =~= Seq::<Seq<char>>::empty());
        assert(handle.record().info =~= rec.info);
        assert(handle.record().logs =~= rec.logs);
        let ghost old_recs = self@;
        proof {
            lemma_find_id(old_recs, request.id@);
        }
        match self.position(request.id.as_str()) {
            Some(i) => {
                self.processes.set(i, handle);
                assert(self@ =~= old_recs.update(i as int, rec));
            },
            None => {
                self.processes.push(handle);
                assert(self@ =~= old_recs.push(rec));
            },
        }
        assert(records_wf(self@));
    }

    /// Captures one line of output of process `id`; returns whether the
    /// process is known.
    pub fn append_output(&mut self, id: &str, source: LogSource, raw_line: &str, timestamp: Timestamp) -> (found: bool)
        requires
            old(self).wf(),
        ensures
            final(self).wf(),
            found == has_id(old(self)@, id@),
            final(self)@ == appended(old(self)@, id@, captured_line(raw_line@, source, timestamp)),
    {
        proof {
            lemma_find_id(self@, id@);
        }
        let i = match self.position(id) {
            Some(i) => i,
            None => {
                return false;
            },
        };
        let level = Self::detect_log_level(raw_line);
        let content = trim_end_text(raw_line);
        let line = LogLine { timestamp, level, content, source };
        let ghost old_recs = self@;
        assert(record_bounded(old_recs[i as int]));
        self.processes[i].add_line(line);
        assert(self@ =~= old_recs.update(
            i as int,
            with_line(old_recs[i as int], captured_line(raw_line@, source, timestamp)),
        ));
        assert(records_wf(self@));
        true
    }

    /// Marks a process with a live child as killed; the caller then sends the
    /// signal.
    pub fn stop_process(&mut self, process_id: &str) -> (r: Result<(), ProcessError>)
        requires
            old(self).wf(),
        ensures
            final(self).wf(),
            final(self)@ == stopped_one(old(self)@, process_id@),
            !has_id(old(self)@, process_id@) ==> r == Err::<(), ProcessError>(ProcessError::NotFound),
            has_id(old(self)@, process_id@) && !is_live(old(self)@, process_id@) ==> r == Err::<
                (),
                ProcessError,
            >(ProcessError::NotRunning),
            is_live(old(self)@, process_id@) ==> r is Ok,
    {
        proof {
            lemma_find_id(self@, process_id@);
        }
        let i = match self.position(process_id) {
            Some(i) => i,
            None => {
                return Err(ProcessError::NotFound);
            },
        };
        if !self.processes[i].info.status.active() {
            return Err(ProcessError::NotRunning);
        }
        let ghost old_recs = self@;
        self.processes[i].info.status = ProcessStatus::Killed;
        assert(self@ =~= old_recs.update(
            i as int,
            with_status(old_recs[i as int], ProcessStatus::Killed),
        ));
        proof {
            lemma_status_update_wf(old_recs, i as int, ProcessStatus::Killed);
        }
        Ok(())
    }

    /// Applies what a poll of process `id` found; returns whether polling
    /// goes on. A record that is gone, or no longer active, stays as it is.
    pub fn observe_poll(&mut self, id: &str, outcome: PollOutcome) -> (keep_polling: bool)
        requires
            old(self).wf(),
        ensures
            final(self).wf(),
            final(self)@ == polled(old(self)@, id@, outcome),
            keep_polling == (is_live(old(self)@, id@) && outcome is StillRunning),
    {
        proof {
            lemma_find_id(self@, id@);
        }
        let i = match self.position(id) {
            Some(i) => i,
            None => {
                return false;
            },
        };
        let status = self.processes[i].info.status;
        if !status.active() {
            return false;
        }
        let next = match outcome {
            PollOutcome::StillRunning => match status {
                ProcessStatus::Starting => ProcessStatus::Running,
                _ => status,
            },
            PollOutcome::Exited { success } => if success {
                ProcessStatus::Stopped
            } else {
                ProcessStatus::Failed
            },
            PollOutcome::PollFailed => ProcessStatus::Failed,
        };
        let ghost old_recs = self@;
        self.processes[i].info.status = next;
        assert(self@ =~= old_recs.update(i as int, with_status(old_recs[i as int], next)));
        proof {
            lemma_status_update_wf(old_recs, i as int, next);
        }
        match outcome {
            PollOutcome::StillRunning => true,
            _ => false,
        }
    }

    /// Copies of every record's metadata, in launch order.
    pub fn list_processes(&self) -> (r: Vec<ProcessInfo>)
        requires
            self.wf(),
        ensures
            infos_view(r@) == infos_of(self@),
    {
        let mut r: Vec<ProcessInfo> = Vec::new();
        let mut i: usize = 0;
        while i < self.processes.len()
            invariant
                i <= self@.len(),
                infos_view(r@) == infos_of(self@.subrange(0, i as int)),
            decreases self@.len() - i,
        {
            let ghost before = r@;
            r.push(self.processes[i].info.snapshot());
            assert(infos_view(r@) =~= infos_view(before).push(self@[i as int].info));
            assert(infos_of(self@.subrange(0, i + 1)) =~= infos_of(self@.subrange(0, i as int)).push(
                self@[i as int].info,
            ));
            i = i + 1;
        }
        assert(self@.subrange(0, self@.len() as int) =~= self@);
        r
    }

    /// Copies of the metadata of processes that are starting or running.
    pub fn list_running_processes(&self) -> (r: Vec<ProcessInfo>)
        requires
            self.wf(),
        ensures
            infos_view(r@) == active_infos(self@),
    {
        let mut r: Vec<ProcessInfo> = Vec::new();
        let mut i: usize = 0;
        while i < self.processes.len()
            invariant
                i <= self@.len(),
                infos_view(r@) == active_infos(self@.subrange(0, i as int)),
            decreases self@.len() - i,
        {
            let ghost before = r@;
            assert(self@.subrange(0, i + 1).drop_last() =~= self@.subrange(0, i as int));
            if self.processes[i].info.status.active() {
                r.push(self.processes[i].info.snapshot());
                assert(infos_view(r@) =~= infos_view(before).push(self@[i as int].info));
            }
            i = i + 1;
        }
        assert(self@.subrange(0, self@.len() as int) =~= self@);
        r
    }

    /// A copy of the metadata of process `process_id`, if it is known.
    pub fn get_process_info(&self, process_id: &str) -> (r: Option<ProcessInfo>)
        requires
            self.wf(),
        ensures
            match r {
                Some(p) => info_of(self@, process_id@) == Some(p@),
                None => info_of(self@, process_id@) is None,
            },
    {
        proof {
            lemma_find_id(self@, process_id@);
        }
        match self.position(process_id) {
            Some(i) => Some(self.processes[i].info.snapshot()),
            None => None,
        }
    }

    /// A copy of every captured line of process `process_id`; empty when it
    /// is not known.
    pub fn get_process_logs(&self, process_id: &str) -> (r: Vec<LogLine>)
        requires
            self.wf(),
        ensures
            log_lines_view(r@) == logs_of(self@, process_id@),
    {
        proof {
            lemma_find_id(self@, process_id@);
        }
        match self.position(process_id) {
            Some(i) => copy_log_lines(&self.processes[i].log_lines),
            None => Vec::new(),
        }
    }

    /// A copy of the last `count` captured lines of process `process_id`.
    pub fn get_recent_logs(&self, process_id: &str, count: usize) -> (r: Vec<LogLine>)
        requires
            self.wf(),
        ensures
            !has_id(self@, process_id@) ==> r@.len() == 0,
            has_id(self@, process_id@) ==> log_lines_view(r@) == tail(
                self@[find_id(self@, process_id@)].logs,
                count as nat,
            ),
    {
        proof {
            lemma_find_id(self@, process_id@);
        }
        match self.position(process_id) {
            Some(i) => {
                let logs = &self.processes[i].log_lines;
                let start = if logs.len() > count {
                    logs.len() - count
                } else {
                    0
                };
                let r = copy_log_range(logs, start);
                assert(log_lines_view(logs@.subrange(start as int, logs@.len() as int))
                    =~= log_lines_view(logs@).subrange(start as int, logs@.len() as int));
                assert(log_lines_view(logs@).subrange(0, logs@.len() as int) =~= log_lines_view(
                    logs@,
                ));
                r
            },
            None => Vec::new(),
        }
    }

    /// Drops every record whose process has stopped, failed or been killed.
    pub fn cleanup_finished_processes(&mut self)
        requires
            old(self).wf(),
        ensures
            final(self).wf(),
            final(self)@ == unfinished(old(self)@),
    {
        let ghost old_recs = self@;
        let mut kept: Vec<ProcessHandle> = Vec::new();
        let mut i: usize = 0;
        while i < self.processes.len()
            invariant
                i <= self@.len(),
                self@ == old_recs,
                kept@.map_values(|h: ProcessHandle| h.record()) == unfinished(
                    old_recs.subrange(0, i as int),
                ),
            decreases self@.len() - i,
        {
            let ghost before = kept@;
            assert(old_recs.subrange(0, i + 1).drop_last() =~= old_recs.subrange(0, i as int));
            if self.processes[i].info.status.active() {
                let h = ProcessHandle {
                    info: self.processes[i].info.snapshot(),
                    log_lines: copy_log_lines(&self.processes[i].log_lines),
                };
                assert(h.record() == old_recs[i as int]);
                kept.push(h);
                assert(kept@.map_values(|h: ProcessHandle| h.record()) =~= before.map_values(
                    |h: ProcessHandle| h.record(),
                ).push(old_recs[i as int]));
            }
            i = i + 1;
        }
        assert(old_recs.subrange(0, old_recs.len() as int) =~= old_recs);
        self.processes = kept;
        proof {
            lemma_unfinished_wf(old_recs);
        }
    }

    /// Marks every process with a live child as killed and returns their ids,
    /// in launch order; the caller then sends the signals.
    pub fn stop_all_processes(&mut self) -> (r: Result<Vec<String>, String>)
        requires
            old(self).wf(),
        ensures
            final(self).wf(),
            r is Ok,
            strings_view(r->Ok_0@) == active_ids(old(self)@),
            final(self)@ == all_stopped(old(self)@),
            forall|i: int| 0 <= i < final(self)@.len() ==> #[trigger] final(self)@[i].info.status.is_terminal(),
    {
        let ghost old_recs = self@;
        let mut ids: Vec<String> = Vec::new();
        let mut i: usize = 0;
        while i < self.processes.len()
            invariant
                i <= self@.len(),
                self@.len() == old_recs.len(),
                records_wf(self@),
                self.log_buffer_size == LOG_BUFFER_SIZE,
                forall|j: int| 0 <= j < i ==> #[trigger] self@[j] == stopped(old_recs[j]),
                forall|j: int| i <= j < self@.len() ==> #[trigger] self@[j] == old_recs[j],
                strings_view(ids@) == active_ids(old_recs.subrange(0, i as int)),
            decreases self@.len() - i,
        {
            assert(old_recs.subrange(0, i + 1).drop_last() =~= old_recs.subrange(0, i as int));
            assert(self@[i as int] == old_recs[i as int]);
            if self.processes[i].info.status.active() {
                let ghost before = self@;
                let ghost before_ids = ids@;
                ids.push(self.processes[i].info.id.clone());
                assert(strings_view(ids@) =~= strings_view(before_ids).push(old_recs[i as int].info.id));
                self.processes[i].info.status = ProcessStatus::Killed;
                assert(self@ =~= before.update(
                    i as int,
                    with_status(before[i as int], ProcessStatus::Killed),
                ));
                proof {
                    lemma_status_update_wf(before, i as int, ProcessStatus::Killed);
                }
            }
            i = i + 1;
        }
        assert(self@ =~= all_stopped(old_recs));
        assert(old_recs.subrange(0, old_recs.len() as int) =~= old_recs);
        Ok(ids)
    }

    /// Whether a development server started through the bench tool is alive.
    pub fn is_bench_running(&self) -> (r: bool)
        requires
            self.wf(),
        ensures
            r == exists|i: int| 0 <= i < self@.len() && #[trigger] is_bench_server(self@[i]),
    {
        match self.get_bench_process_id() {
            Some(_) => true,
            None => false,
        }
    }

    /// The id of the first live development server started through the bench
    /// tool.
    pub fn get_bench_process_id(&self) -> (r: Option<String>)
        requires
            self.wf(),
        ensures
            r is None <==> forall|i: int| 0 <= i < self@.len() ==> !#[trigger] is_bench_server(self@[i]),
            r is Some ==> exists|i: int|
                0 <= i < self@.len() && #[trigger] is_bench_server(self@[i]) && self@[i].info.id
                    == r->Some_0@ && forall|j: int| 0 <= j < i ==> !is_bench_server(self@[j]),
    {
        let mut i: usize = 0;
        while i < self.processes.len()
            invariant
                i <= self@.len(),
                forall|j: int| 0 <= j < i ==> !#[trigger] is_bench_server(self@[j]),
            decreases self@.len() - i,
        {
            let h = &self.processes[i];
            if contains_str(h.info.command.as_str(), "bench start") && h.info.status.active() {
                assert(is_bench_server(self@[i as int]));
                return Some(h.info.id.clone());
            }
            i = i + 1;
        }
        None
    }

    /// Every captured line of process `process_id`, one per line with its
    /// level icon and stream prefix.
    pub fn format_logs_for_display(&self, process_id: &str) -> (r: String)
        requires
            self.wf(),
        ensures
            !has_id(self@, process_id@) ==> r@.len() == 0,
            has_id(self@, process_id@) ==> r@ == display_lines(
                self@[find_id(self@, process_id@)].logs,
            ),
    {
        proof {
            lemma_find_id(self@, process_id@);
        }
        let mut out = String::new();
        let i = match self.position(process_id) {
            Some(i) => i,
            None => {
                return out;
            },
        };
        let logs = &self.processes[i].log_lines;
        let mut k: usize = 0;
        while k < logs.len()
            invariant
                k <= logs@.len(),
                out@ == display_lines(log_lines_view(logs@.subrange(0, k as int))),
            decreases logs@.len() - k,
        {
            let l = &logs[k];
            let icon = match l.level {
                LogLevel::Error => "\u{1f525}",
                LogLevel::Warning => "\u{26a0}\u{fe0f}",
                LogLevel::Info => "\u{2139}\u{fe0f}",
                LogLevel::Debug => "\u{1f41b}",
                LogLevel::Trace => "\u{1f50d}",
            };
            let prefix = match l.source {
                LogSource::Stdout => "",
                LogSource::Stderr => "[ERR] ",
                LogSource::System => "[SYS] ",
            };
            let ghost before = out@;
            out.append(icon);
            out.append(" ");
            out.append(prefix);
            out.append(l.content.as_str());
            out.append("\n");
            assert(log_lines_view(logs@.subrange(0, k + 1)).drop_last() =~= log_lines_view(
                logs@.subrange(0, k as int),
            ));
            assert(out@ =~= before + display_line(l@));
            k = k + 1;
        }
        assert(logs@.subrange(0, logs@.len() as int) =~= logs@);
        out
    }

    /// The source locations found in the error-level lines of process
    /// `process_id`, in order.
    pub fn extract_clickable_errors(&self, process_id: &str) -> (r: Vec<ClickableError>)
        requires
            self.wf(),
        ensures
            !has_id(self@, process_id@) ==> r@.len() == 0,
            has_id(self@, process_id@) ==> clickables_view(r@) == clickables_in(
                self@[find_id(self@, process_id@)].logs,
            ),
    {
        proof {
            lemma_find_id(self@, process_id@);
        }
        let mut errors: Vec<ClickableError> = Vec::new();
        let i = match self.position(process_id) {
            Some(i) => i,
            None => {
                return errors;
            },
        };
        let logs = &self.processes[i].log_lines;
        let mut k: usize = 0;
        while k < logs.len()
            invariant
                k <= logs@.len(),
                clickables_view(errors@) == clickables_in(log_lines_view(logs@.subrange(0, k as int))),
            decreases logs@.len() - k,
        {
            let ghost before = errors@;
            assert(log_lines_view(logs@.subrange(0, k + 1)).drop_last() =~= log_lines_view(
                logs@.subrange(0, k as int),
            ));
            assert(log_lines_view(logs@.subrange(0, k + 1)).last() == logs@[k as int]@);
            if logs[k].level == LogLevel::Error {
                match Self::error_location(logs[k].content.as_str()) {
                    Some(e) => {
                        errors.push(e);
                        assert(clickables_view(errors@) =~= clickables_view(before).push(e@));
                    },
                    None => {},
                }
            }
            k = k + 1;
        }
        assert(logs@.subrange(0, logs@.len() as int) =~= logs@);
        errors
    }

    /// The level of a line already in lower case.
    pub fn level_for_lowercase(lower: &str) -> (r: LogLevel)
        ensures
            r == level_for(lower@),
    {
        if contains_str(lower, "error") || contains_str(lower, "exception") {
            LogLevel::Error
        } else if contains_str(lower, "warning") || contains_str(lower, "warn") {
            LogLevel::Warning
        } else if contains_str(lower, "debug") {
            LogLevel::Debug
        } else if contains_str(lower, "trace") {
            LogLevel::Trace
        } else {
            LogLevel::Info
        }
    }

    /// The level of a captured line, by keywords in any case.
    pub fn detect_log_level(line: &str) -> (r: LogLevel)
        ensures
            r == level_for(lowercase_of(line@)),
    {
        let lower = to_lowercase(line);
        Self::level_for_lowercase(lower.as_str())
    }

    /// The error that `line` yields, given the matches of the two location
    /// patterns in it.
    pub fn clickable_error_from_captures(
        line: &str,
        python: Option<Vec<Option<String>>>,
        javascript: Option<Vec<Option<String>>>,
    ) -> (r: Option<ClickableError>)
        ensures
            clickable_view(r) == clickable_from(line@, captures_view(python), captures_view(javascript)),
    {
        match python {
            Some(g) => match location_from_groups(&g, 1, 2) {
                Some((file_path, line_number)) => Some(
                    ClickableError {
                        file_path,
                        line_number,
                        message: line.to_owned(),
                        error_type: ErrorType::PythonTraceback,
                    },
                ),
                None => None,
            },
            None => match javascript {
                Some(g) => match location_from_groups(&g, 2, 3) {
                    Some((file_path, line_number)) => Some(
                        ClickableError {
                            file_path,
                            line_number,
                            message: line.to_owned(),
                            error_type: ErrorType::JavaScriptError,
                        },
                    ),
                    None => None,
                },
                None => None,
            },
        }
    }

    /// The source location that an error line points at, if any.
    pub fn parse_error_line(&self, line: &str) -> (r: Option<ClickableError>)
        ensures
            clickable_view(r) == clickable_of(line@),
    {
        Self::error_location(line)
    }

    fn error_location(line: &str) -> (r: Option<ClickableError>)
        ensures
            clickable_view(r) == clickable_of(line@),
    {
        let python = captures(PYTHON_LOCATION, line);
        if python.is_some() {
            return Self::clickable_error_from_captures(line, python, None);
        }
        let javascript = captures(JAVASCRIPT_LOCATION, line);
        Self::clickable_error_from_captures(line, None, javascript)
    }
}

} // verus!
