//! Laws that hold of the orchestrator across calls, stated over the
//! contracts of `DownloaderService`.

use vstd::prelude::*;
use crate::job::{DownloadError, JobStatus};
use crate::service::{
    count_current, count_running, dispatched, join_lines, outcome_error_of, retired, spawns,
    start_actions, DownloaderService, JobRecord, Permit, ProcessOutcome,
};

verus! {

proof fn lemma_running_are_current(jobs: Seq<JobRecord>)
    requires
        forall|i: int| 0 <= i < jobs.len() ==> (#[trigger] jobs[i]).wf(),
        forall|i: int| 0 <= i < jobs.len() ==> (#[trigger] jobs[i]).permit != Some(Permit::Retired),
    ensures
        count_running(jobs) == count_current(jobs),
    decreases jobs.len(),
{
    if jobs.len() > 0 {
        let d = jobs.drop_last();
        assert forall|i: int| 0 <= i < d.len() implies (#[trigger] d[i]).wf() by {
            assert(d[i] == jobs[i]);
        }
        assert forall|i: int| 0 <= i < d.len() implies (#[trigger] d[i]).permit != Some(
            Permit::Retired,
        ) by {
            assert(d[i] == jobs[i]);
        }
        lemma_running_are_current(d);
        assert(jobs.last() == jobs[jobs.len() - 1]);
        assert(jobs[jobs.len() - 1].wf());
        assert(jobs[jobs.len() - 1].permit != Some(Permit::Retired));
        assert(jobs.last().permit == Some(Permit::Current) <==> jobs.last().status
            == JobStatus::Running) by {
            if jobs.last().permit is Some {
                assert(jobs.last().permit->Some_0 != Permit::Retired);
            }
        }
        assert(count_running(jobs) == count_running(d) + if jobs.last().status
            == JobStatus::Running {
            1nat
        } else {
            0nat
        });
        assert(count_current(jobs) == count_current(d) + if jobs.last().permit == Some(
            Permit::Current,
        ) {
            1nat
        } else {
            0nat
        });
    }
}

/// With concurrency `n` (at least one) configured, and no permit left over
/// from an earlier configuration, at most `n` jobs run at once, however many
/// were queued.
pub proof fn running_within_concurrency(s: &DownloaderService, n: usize)
    requires
        s.wf(),
        s.config_view().download.concurrency == n,
        n >= 1,
        forall|i: int|
            0 <= i < s.jobs_view().len() ==> (#[trigger] s.jobs_view()[i]).permit != Some(
                Permit::Retired,
            ),
    ensures
        count_running(s.jobs_view()) <= n,
{
    assert forall|i: int| 0 <= i < s.jobs_view().len() implies (#[trigger] s.jobs_view()[i]).wf() by {}
    lemma_running_are_current(s.jobs_view());
}

/// Only a job that was queued is ever started: a job canceled while it
/// waited for a permit never has its process spawned.
pub proof fn only_queued_jobs_start(old: Seq<JobRecord>, new: Seq<JobRecord>, k: int, i: usize)
    requires
        0 <= k <= old.len() <= usize::MAX,
        k <= new.len(),
        spawns(start_actions(old, new, k), i),
    ensures
        i < k,
        old[i as int].status == JobStatus::Queued,
    decreases k,
{
    let acts = start_actions(old, new, k);
    let w = choose|w: int| 0 <= w < acts.len() && acts[w] == (crate::service::Action::Spawn { job: i });
    if k > 0 {
        let prev = start_actions(old, new, k - 1);
        if old[k - 1].status == JobStatus::Queued && new[k - 1].status == JobStatus::Running {
            let tail = seq![
                crate::service::Action::Emit {
                    job: (k - 1) as usize,
                    event: crate::job::DownloadEvent::Status(JobStatus::Running),
                },
                crate::service::Action::Spawn { job: (k - 1) as usize },
            ];
            assert(acts == prev + tail);
            if w < prev.len() {
                assert(acts[w] == prev[w]);
                only_queued_jobs_start(old, new, k - 1, i);
            } else {
                assert(acts[w] == tail[w - prev.len()]);
                assert(w - prev.len() == 1);
                assert(i == k - 1);
            }
        } else {
            only_queued_jobs_start(old, new, k - 1, i);
        }
    }
}

/// Granting permits never touches a job that has finished: a job canceled
/// while running stays `Canceled`, never `Succeeded` or `Failed`.
pub proof fn finished_jobs_stay(old: Seq<JobRecord>, new: Seq<JobRecord>, cap: nat, i: int)
    requires
        dispatched(old, new, cap),
        0 <= i < old.len(),
        old[i].status.is_terminal(),
    ensures
        new[i] == old[i],
{
    assert(new[i] == old[i] || old[i].status == JobStatus::Queued);
}

/// A failed exit reports every diagnostic line the job saw, joined by line
/// breaks, as its diagnostic text.
pub proof fn failure_reports_every_line(j: JobRecord, code: Option<i32>)
    requires
        j.wf(),
    ensures
        outcome_error_of(j, ProcessOutcome::Exited { success: false, code }) matches Some(
            DownloadError::CommandFailed { status, stderr },
        ) && status == code && stderr@ == join_lines(j.lines@),
{
}

/// Sum of a list of counts.
pub open spec fn total(counts: Seq<nat>) -> nat
    decreases counts.len(),
{
    if counts.len() == 0 {
        0
    } else {
        total(counts.drop_last()) + counts.last()
    }
}

/// Along any run of a job, from `Queued` through statuses that each follow
/// the last, where each call writes the final record exactly when it moves
/// the job into a terminal status (as the contracts of every call of
/// `DownloaderService` state through `completions`), the final record is
/// written once if the job ended and never otherwise.
pub proof fn one_final_record(sts: Seq<JobStatus>, counts: Seq<nat>)
    requires
        sts.len() == counts.len() + 1,
        sts[0] == JobStatus::Queued,
        forall|k: int| 0 <= k < counts.len() ==> (#[trigger] sts[k]).leads_to(sts[k + 1]),
        forall|k: int|
            0 <= k < counts.len() ==> #[trigger] counts[k] == if !sts[k].is_terminal()
                && sts[k + 1].is_terminal() {
                1nat
            } else {
                0nat
            },
    ensures
        total(counts) == if sts.last().is_terminal() {
            1nat
        } else {
            0nat
        },
    decreases counts.len(),
{
    if counts.len() > 0 {
        let s2 = sts.drop_last();
        let c2 = counts.drop_last();
        assert forall|k: int| 0 <= k < c2.len() implies (#[trigger] s2[k]).leads_to(s2[k + 1]) by {
            assert(sts[k].leads_to(sts[k + 1]));
        }
        assert forall|k: int| 0 <= k < c2.len() implies #[trigger] c2[k] == if !s2[k].is_terminal()
            && s2[k + 1].is_terminal() {
            1nat
        } else {
            0nat
        } by {
            assert(counts[k] == c2[k]);
        }
        one_final_record(s2, c2);
        let k = counts.len() - 1;
        assert(sts[k].leads_to(sts[k + 1]));
        assert(counts[k] == counts.last());
    }
}

/// A new configuration changes nothing that a job was admitted with (its
/// request, output directory, format and settings), and a job that held a
/// permit keeps it and its status.
pub proof fn reconfiguration_keeps_jobs(old: Seq<JobRecord>, new: Seq<JobRecord>, cap: nat, i: int)
    requires
        dispatched(old.map_values(|j: JobRecord| retired(j)), new, cap),
        0 <= i < old.len(),
        old[i].wf(),
    ensures
        new[i].same_admission(&old[i]),
        new[i].request.output_dir == old[i].request.output_dir,
        new[i].request.format == old[i].request.format,
        old[i].permit is Some ==> new[i].permit is Some && new[i].status == old[i].status,
{
    let r = old.map_values(|j: JobRecord| retired(j));
    assert(r[i] == retired(old[i]));
    assert(new[i] == r[i] || (r[i].status == JobStatus::Queued && new[i] == r[i].started()));
}

} // verus!
