//! Properties of the process registry that span several operations.
use vstd::prelude::*;

use crate::manager::{
    active_infos, all_stopped, appended, find_id, has_id, info_of, infos_of, is_live,
    lemma_find_id, lemma_unfinished_wf, logs_of, polled, polled_status, push_capped, records_wf,
    spawned, stopped_one, tail, unfinished, with_line, PollOutcome, RecordView, SpawnRequestView,
    LOG_BUFFER_SIZE,
};
use crate::process::{LogLineView, ProcessInfoView, ProcessStatus, Timestamp};

verus! {

/// Once a launch is recorded, the listing holds its id with status
/// `Starting`.
pub proof fn law_spawned_is_listed_starting(
    recs: Seq<RecordView>,
    req: SpawnRequestView,
    pid: u32,
    start_time: Timestamp,
)
    requires
        records_wf(recs),
    ensures
        exists|i: int|
            0 <= i < infos_of(spawned(recs, req, pid, start_time)).len() && #[trigger] infos_of(
                spawned(recs, req, pid, start_time),
            )[i].id == req.id && infos_of(spawned(recs, req, pid, start_time))[i].status
                == ProcessStatus::Starting,
{
    lemma_find_id(recs, req.id);
    let next = spawned(recs, req, pid, start_time);
    let i = if has_id(recs, req.id) {
        find_id(recs, req.id)
    } else {
        recs.len() as int
    };
    assert(infos_of(next)[i].id == req.id);
}

/// A poll that sees a live process exit sets `Stopped` on success and
/// `Failed` otherwise.
pub proof fn law_exit_sets_final_status(recs: Seq<RecordView>, id: Seq<char>, success: bool)
    requires
        records_wf(recs),
        is_live(recs, id),
    ensures
        polled(recs, id, PollOutcome::Exited { success })[find_id(recs, id)].info.status == (if success {
            ProcessStatus::Stopped
        } else {
            ProcessStatus::Failed
        }),
{
    lemma_find_id(recs, id);
}

/// A record in a terminal status is left as it is by any poll, so an explicit
/// stop is never overwritten by what the monitor sees afterwards.
pub proof fn law_terminal_status_is_final(recs: Seq<RecordView>, id: Seq<char>, outcome: PollOutcome)
    requires
        records_wf(recs),
        has_id(recs, id),
        recs[find_id(recs, id)].info.status.is_terminal(),
    ensures
        polled(recs, id, outcome) == recs,
{
}

/// Every entry of `active_infos(recs)` is the metadata of a live record.
proof fn lemma_active_infos_from(recs: Seq<RecordView>)
    ensures
        forall|k: int|
            0 <= k < active_infos(recs).len() ==> exists|j: int|
                0 <= j < recs.len() && recs[j].info.status.is_active() && #[trigger] active_infos(
                    recs,
                )[k] == recs[j].info,
    decreases recs.len(),
{
    if recs.len() > 0 {
        let prev = recs.drop_last();
        lemma_active_infos_from(prev);
        let a = active_infos(recs);
        assert forall|k: int| 0 <= k < a.len() implies exists|j: int|
            0 <= j < recs.len() && recs[j].info.status.is_active() && #[trigger] a[k]
                == recs[j].info by {
            if k < active_infos(prev).len() {
                let j = choose|j: int|
                    0 <= j < prev.len() && prev[j].info.status.is_active() && #[trigger] active_infos(
                        prev,
                    )[k] == prev[j].info;
                assert(a[k] == recs[j].info);
            } else {
                assert(a[k] == recs[recs.len() - 1].info);
            }
        }
    }
}

/// Once a live process is stopped, the listing of running processes no longer
/// holds its id.
pub proof fn law_stopped_is_not_running(recs: Seq<RecordView>, id: Seq<char>)
    requires
        records_wf(recs),
        is_live(recs, id),
    ensures
        forall|k: int|
            0 <= k < active_infos(stopped_one(recs, id)).len() ==> #[trigger] active_infos(
                stopped_one(recs, id),
            )[k].id != id,
{
    lemma_find_id(recs, id);
    let next = stopped_one(recs, id);
    lemma_active_infos_from(next);
    let f = find_id(recs, id);
    assert forall|k: int| 0 <= k < active_infos(next).len() implies #[trigger] active_infos(
        next,
    )[k].id != id by {
        let j = choose|j: int|
            0 <= j < next.len() && next[j].info.status.is_active() && #[trigger] active_infos(
                next,
            )[k] == next[j].info;
        if j != f {
            assert(next[j] == recs[j]);
        }
    }
}

/// A record after the lines `lines` were captured into it, in order.
pub open spec fn captured_all(r: RecordView, lines: Seq<LogLineView>) -> RecordView
    decreases lines.len(),
{
    if lines.len() == 0 {
        r
    } else {
        with_line(captured_all(r, lines.drop_last()), lines.last())
    }
}

/// Retention: once lines are captured into a fresh record, its log holds
/// exactly the most recent `LOG_BUFFER_SIZE` of them, in the order they came.
pub proof fn law_log_keeps_latest_lines(r: RecordView, lines: Seq<LogLineView>)
    requires
        r.logs.len() == 0,
    ensures
        captured_all(r, lines).logs == tail(lines, LOG_BUFFER_SIZE as nat),
    decreases lines.len(),
{
    if lines.len() > 0 {
        let prev = lines.drop_last();
        law_log_keeps_latest_lines(r, prev);
        let x = lines.last();
        let t = tail(prev, LOG_BUFFER_SIZE as nat);
        if prev.len() >= LOG_BUFFER_SIZE {
            assert(push_capped(t, x) =~= tail(lines, LOG_BUFFER_SIZE as nat));
        } else {
            assert(push_capped(t, x) =~= tail(lines, LOG_BUFFER_SIZE as nat));
        }
    }
}

/// Queries read the registry and change nothing: two calls on the same
/// registry return the same listing, metadata and lines.
pub proof fn law_queries_repeat(
    recs: Seq<RecordView>,
    id: Seq<char>,
    first: (Seq<ProcessInfoView>, Option<ProcessInfoView>, Seq<LogLineView>),
    second: (Seq<ProcessInfoView>, Option<ProcessInfoView>, Seq<LogLineView>),
)
    requires
        first == (infos_of(recs), info_of(recs, id), logs_of(recs, id)),
        second == (infos_of(recs), info_of(recs, id), logs_of(recs, id)),
    ensures
        first == second,
{
}

/// How far along its lifecycle a status is.
pub open spec fn stage(s: ProcessStatus) -> int {
    match s {
        ProcessStatus::Starting => 0,
        ProcessStatus::Running => 1,
        _ => 2,
    }
}

/// Statuses only move forward: no poll takes a process back, and none
/// returns it to `Starting`.
pub proof fn law_status_moves_forward(status: ProcessStatus, outcome: PollOutcome)
    ensures
        stage(polled_status(status, outcome)) >= stage(status),
        !(polled_status(status, outcome) is Starting) || status is Starting,
{
}

/// Records appear only through a recorded launch: capturing output,
/// stopping, polling and cleaning up never add an id.
pub proof fn law_only_launches_add_records(
    recs: Seq<RecordView>,
    id: Seq<char>,
    line: LogLineView,
    outcome: PollOutcome,
)
    requires
        records_wf(recs),
    ensures
        forall|k: int|
            0 <= k < appended(recs, id, line).len() ==> has_id(
                recs,
                #[trigger] appended(recs, id, line)[k].info.id,
            ),
        forall|k: int|
            0 <= k < stopped_one(recs, id).len() ==> has_id(
                recs,
                #[trigger] stopped_one(recs, id)[k].info.id,
            ),
        forall|k: int|
            0 <= k < polled(recs, id, outcome).len() ==> has_id(
                recs,
                #[trigger] polled(recs, id, outcome)[k].info.id,
            ),
        forall|k: int|
            0 <= k < recs.len() ==> has_id(
                recs,
                #[trigger] all_stopped(recs)[k].info.id,
            ),
        forall|k: int|
            0 <= k < unfinished(recs).len() ==> has_id(recs, #[trigger] unfinished(recs)[k].info.id),
{
    lemma_find_id(recs, id);
    assert forall|k: int| 0 <= k < appended(recs, id, line).len() implies has_id(
        recs,
        #[trigger] appended(recs, id, line)[k].info.id,
    ) by {
        assert(recs[k].info.id == appended(recs, id, line)[k].info.id);
    }
    assert forall|k: int| 0 <= k < stopped_one(recs, id).len() implies has_id(
        recs,
        #[trigger] stopped_one(recs, id)[k].info.id,
    ) by {
        assert(recs[k].info.id == stopped_one(recs, id)[k].info.id);
    }
    assert forall|k: int| 0 <= k < polled(recs, id, outcome).len() implies has_id(
        recs,
        #[trigger] polled(recs, id, outcome)[k].info.id,
    ) by {
        assert(recs[k].info.id == polled(recs, id, outcome)[k].info.id);
    }
    assert forall|k: int| 0 <= k < recs.len() implies has_id(
        recs,
        #[trigger] all_stopped(recs)[k].info.id,
    ) by {
        assert(recs[k].info.id == all_stopped(recs)[k].info.id);
    }
    lemma_unfinished_wf(recs);
    assert forall|k: int| 0 <= k < unfinished(recs).len() implies has_id(
        recs,
        #[trigger] unfinished(recs)[k].info.id,
    ) by {
        let j = choose|j: int| 0 <= j < recs.len() && #[trigger] unfinished(recs)[k] == recs[j];
        assert(recs[j].info.id == unfinished(recs)[k].info.id);
    }
}

} // verus!
