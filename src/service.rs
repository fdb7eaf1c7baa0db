//! The orchestrator: admits jobs, grants run permits in order of admission,
//! and decides every transition of every job.
//!
//! The service holds no thread, process or channel. Each call takes one
//! event (a request, a cancel, a line of output, the end of a process, a new
//! configuration), updates the jobs, and returns the actions that the caller
//! must carry out, in order: start or kill a process, publish an event, write
//! the history.

use vstd::prelude::*;
use crate::config::{clamp_concurrency, AdvancedSettings, Config, DownloadSettings};
use crate::job::{
    error_code_for, error_code_of, error_message, error_text, DownloadError, DownloadEvent,
    DownloadRequest, DownloadSummary, JobStatus,
};
use crate::progress::{destination_of, parse_destination, parse_progress, progress_of, ProgressSnapshot};
use crate::text::{append_str, copy_opt_string, copy_string, owned, push_char};

verus! {

/// Which pool a held run permit came from.
#[derive(Debug, Clone, Copy, PartialEq, Eq, Structural)]
pub enum Permit {
    /// The pool of the configuration in force.
    Current,
    /// A pool that a later configuration replaced.
    Retired,
}

/// Diagnostic lines joined by line breaks.
pub open spec fn join_lines(lines: Seq<Seq<char>>) -> Seq<char>
    decreases lines.len(),
{
    if lines.len() == 0 {
        Seq::empty()
    } else if lines.len() == 1 {
        lines[0]
    } else {
        join_lines(lines.drop_last()).push('\n') + lines.last()
    }
}

/// One admitted job.
pub struct JobRecord {
    pub id: u128,
    /// The request with its blanks filled at admission.
    pub request: DownloadRequest,
    /// Settings in force at admission; later configurations leave them be.
    pub download_settings: DownloadSettings,
    pub advanced_settings: AdvancedSettings,
    pub status: JobStatus,
    /// Latest progress reading.
    pub progress: Option<ProgressSnapshot>,
    /// The run permit, held while the job runs.
    pub permit: Option<Permit>,
    /// The history row of the job, taken when its final record is written.
    pub history_row: Option<i64>,
    /// Every diagnostic line seen, joined by line breaks.
    pub diagnostics: String,
    pub has_output: bool,
    pub lines: Ghost<Seq<Seq<char>>>,
    /// Output file announced by the tool.
    pub destination: Option<String>,
}

impl JobRecord {
    pub open spec fn wf(&self) -> bool {
        &&& (self.permit is Some <==> self.status == JobStatus::Running)
        &&& (self.history_row is Some <==> !self.status.is_terminal())
        &&& self.diagnostics@ == join_lines(self.lines@)
        &&& self.has_output == (self.lines@.len() > 0)
    }

    /// The same job after it was granted a permit of the current pool.
    pub open spec fn started(self) -> JobRecord {
        JobRecord { status: JobStatus::Running, permit: Some(Permit::Current), ..self }
    }

    /// Everything that a job was given at admission.
    pub open spec fn same_admission(&self, o: &JobRecord) -> bool {
        &&& self.id == o.id
        &&& self.request == o.request
        &&& self.download_settings == o.download_settings
        &&& self.advanced_settings == o.advanced_settings
    }
}

/// Something the caller must do, in the order given.
#[derive(Debug)]
pub enum Action {
    /// Start the extraction tool for the job.
    Spawn { job: usize },
    /// Terminate the job's tool at once.
    Kill { job: usize },
    /// Publish an event on the job's stream.
    Emit { job: usize, event: DownloadEvent },
    /// Write the final history record of the job.
    MarkCompleted {
        job: usize,
        row: i64,
        status: JobStatus,
        file_path: Option<String>,
        error_code: Option<String>,
        error_message: Option<String>,
    },
    /// Store the title and uploader found for the job.
    UpdateMetadata { job: usize, title: Option<String>, uploader: Option<String> },
}

/// Number of jobs holding a permit of the current pool.
pub open spec fn count_current(jobs: Seq<JobRecord>) -> nat
    decreases jobs.len(),
{
    if jobs.len() == 0 {
        0
    } else {
        count_current(jobs.drop_last()) + if jobs.last().permit == Some(Permit::Current) {
            1nat
        } else {
            0nat
        }
    }
}

/// Number of running jobs.
pub open spec fn count_running(jobs: Seq<JobRecord>) -> nat
    decreases jobs.len(),
{
    if jobs.len() == 0 {
        0
    } else {
        count_running(jobs.drop_last()) + if jobs.last().status == JobStatus::Running {
            1nat
        } else {
            0nat
        }
    }
}

/// Number of final-record writes for job `i` among `acts`.
pub open spec fn completions(acts: Seq<Action>, i: usize) -> nat
    decreases acts.len(),
{
    if acts.len() == 0 {
        0
    } else {
        completions(acts.drop_last(), i) + if writes_final(acts.last(), i) {
            1nat
        } else {
            0nat
        }
    }
}

/// `a` writes the final record of job `i`.
pub open spec fn writes_final(a: Action, i: usize) -> bool {
    a is MarkCompleted && a->MarkCompleted_job == i
}

/// Whether `acts` starts the tool for job `i`.
pub open spec fn spawns(acts: Seq<Action>, i: usize) -> bool {
    exists|k: int| 0 <= k < acts.len() && acts[k] == (Action::Spawn { job: i })
}

/// `new` is `old` after the queued jobs were granted the free permits of the
/// current pool, earliest admitted first.
pub open spec fn dispatched(old: Seq<JobRecord>, new: Seq<JobRecord>, capacity: nat) -> bool {
    &&& new.len() == old.len()
    &&& forall|i: int|
        0 <= i < old.len() ==> (#[trigger] new[i] == old[i] || (old[i].status == JobStatus::Queued
            && new[i] == old[i].started()))
    &&& forall|i: int, j: int|
        #![trigger new[i], old[j]]
        0 <= j < i < old.len() && old[j].status == JobStatus::Queued && old[i].status
            == JobStatus::Queued && new[i].status == JobStatus::Running ==> new[j].status
            == JobStatus::Running
    &&& count_current(new) <= capacity
    &&& (count_current(new) == capacity || forall|i: int|
        0 <= i < old.len() && old[i].status == JobStatus::Queued ==> (#[trigger] new[i]).status
            == JobStatus::Running)
}

/// The actions that start the jobs that `dispatched` started, in order of
/// admission: a `Running` status event, then the process.
pub open spec fn start_actions(old: Seq<JobRecord>, new: Seq<JobRecord>, k: int) -> Seq<Action>
    decreases k,
{
    if k <= 0 {
        Seq::empty()
    } else if old[k - 1].status == JobStatus::Queued && new[k - 1].status == JobStatus::Running {
        start_actions(old, new, k - 1) + seq![
            Action::Emit { job: (k - 1) as usize, event: DownloadEvent::Status(JobStatus::Running) },
            Action::Spawn { job: (k - 1) as usize },
        ]
    } else {
        start_actions(old, new, k - 1)
    }
}

/// The admission controller and the state of every job.
pub struct DownloaderService {
    config: Config,
    capacity: usize,
    jobs: Vec<JobRecord>,
}

impl DownloaderService {
    pub closed spec fn config_view(&self) -> Config {
        self.config
    }

    pub closed spec fn capacity_view(&self) -> nat {
        self.capacity as nat
    }

    pub closed spec fn jobs_view(&self) -> Seq<JobRecord> {
        self.jobs@
    }

    pub open spec fn wf(&self) -> bool {
        &&& self.capacity_view() == clamp_concurrency(
            self.config_view().download.concurrency as int,
        )
        &&& forall|i: int| 0 <= i < self.jobs_view().len() ==> (#[trigger] self.jobs_view()[i]).wf()
        &&& count_current(self.jobs_view()) <= self.capacity_view()
    }

    /// A service with no job, under `config`.
    pub fn new(config: Config) -> (r: Self)
        ensures
            r.wf(),
            r.config_view() == config,
            r.jobs_view().len() == 0,
    {
        let capacity = config.download.effective_concurrency();
        DownloaderService { config, capacity, jobs: Vec::new() }
    }

    /// The configuration in force.
    pub fn config(&self) -> (r: &Config)
        ensures
            *r == self.config_view(),
    {
        &self.config
    }

    /// How many jobs may hold a permit of the current pool.
    pub fn capacity(&self) -> (r: usize)
        ensures
            r == self.capacity_view(),
    {
        self.capacity
    }

    /// Number of admitted jobs.
    pub fn job_count(&self) -> (r: usize)
        ensures
            r == self.jobs_view().len(),
    {
        self.jobs.len()
    }

    /// Job `i`.
    pub fn job(&self, i: usize) -> (r: &JobRecord)
        requires
            i < self.jobs_view().len(),
        ensures
            *r == self.jobs_view()[i as int],
    {
        &self.jobs[i]
    }

    /// Status of job `i`.
    pub fn status(&self, i: usize) -> (r: JobStatus)
        requires
            i < self.jobs_view().len(),
        ensures
            r == self.jobs_view()[i as int].status,
    {
        self.jobs[i].status
    }
}

proof fn lemma_count_current_update(s: Seq<JobRecord>, i: int, x: JobRecord)
    requires
        0 <= i < s.len(),
    ensures
        count_current(s.update(i, x)) + (if s[i].permit == Some(Permit::Current) {
            1nat
        } else {
            0nat
        }) == count_current(s) + (if x.permit == Some(Permit::Current) {
            1nat
        } else {
            0nat
        }),
    decreases s.len(),
{
    if i < s.len() - 1 {
        lemma_count_current_update(s.drop_last(), i, x);
        assert(s.update(i, x).drop_last() =~= s.drop_last().update(i, x));
    } else {
        assert(s.update(i, x).drop_last() =~= s.drop_last());
    }
}

proof fn lemma_count_running_update(s: Seq<JobRecord>, i: int, x: JobRecord)
    requires
        0 <= i < s.len(),
    ensures
        count_running(s.update(i, x)) + (if s[i].status == JobStatus::Running {
            1nat
        } else {
            0nat
        }) == count_running(s) + (if x.status == JobStatus::Running {
            1nat
        } else {
            0nat
        }),
    decreases s.len(),
{
    if i < s.len() - 1 {
        lemma_count_running_update(s.drop_last(), i, x);
        assert(s.update(i, x).drop_last() =~= s.drop_last().update(i, x));
    } else {
        assert(s.update(i, x).drop_last() =~= s.drop_last());
    }
}

proof fn lemma_start_actions_frame(old: Seq<JobRecord>, a: Seq<JobRecord>, b: Seq<JobRecord>, k: int)
    requires
        0 <= k <= a.len(),
        k <= b.len(),
        k <= old.len(),
        forall|j: int| 0 <= j < k ==> a[j] == b[j],
    ensures
        start_actions(old, a, k) == start_actions(old, b, k),
    decreases k,
{
    if k > 0 {
        lemma_start_actions_frame(old, a, b, k - 1);
    }
}

proof fn lemma_count_current_push(s: Seq<JobRecord>, x: JobRecord)
    requires
        x.permit is None,
    ensures
        count_current(s.push(x)) == count_current(s),
{
    assert(s.push(x).drop_last() =~= s);
}

impl DownloaderService {
    /// Number of jobs holding a permit of the current pool.
    fn used_permits(&self) -> (r: usize)
        requires
            count_current(self.jobs@) <= 3,
        ensures
            r == count_current(self.jobs@),
    {
        let mut cnt: usize = 0;
        let mut k: usize = 0;
        while k < self.jobs.len()
            invariant
                k <= self.jobs@.len(),
                cnt == count_current(self.jobs@.take(k as int)),
                count_current(self.jobs@) <= 3,
            decreases self.jobs@.len() - k,
        {
            assert(self.jobs@.take(k + 1 as int).drop_last() =~= self.jobs@.take(k as int));
            proof {
                lemma_count_current_prefix(self.jobs@, k + 1 as int);
            }
            if self.jobs[k].permit == Some(Permit::Current) {
                cnt = cnt + 1;
            }
            k = k + 1;
        }
        assert(self.jobs@.take(k as int) =~= self.jobs@);
        cnt
    }

    /// Grants the free permits of the current pool to the queued jobs,
    /// earliest admitted first.
    fn dispatch(&mut self, actions: &mut Vec<Action>)
        requires
            forall|i: int| 0 <= i < old(self).jobs@.len() ==> (#[trigger] old(self).jobs@[i]).wf(),
            count_current(old(self).jobs@) <= old(self).capacity <= 3,
        ensures
            final(self).config == old(self).config,
            final(self).capacity == old(self).capacity,
            dispatched(old(self).jobs@, final(self).jobs@, old(self).capacity as nat),
            forall|i: int| 0 <= i < final(self).jobs@.len() ==> (#[trigger] final(self).jobs@[i]).wf(),
            final(actions)@ == old(actions)@ + start_actions(
                old(self).jobs@,
                final(self).jobs@,
                old(self).jobs@.len() as int,
            ),
    {
        let ghost old_jobs = self.jobs@;
        let mut used = self.used_permits();
        let n = self.jobs.len();
        let mut i: usize = 0;
        while i < n
            invariant
                self.config == old(self).config,
                self.capacity == old(self).capacity,
                self.capacity <= 3,
                n == self.jobs@.len() == old_jobs.len(),
                i <= n,
                forall|k: int| i <= k < n ==> self.jobs@[k] == old_jobs[k],
                forall|k: int|
                    0 <= k < i ==> (#[trigger] self.jobs@[k] == old_jobs[k] || (old_jobs[k].status
                        == JobStatus::Queued && self.jobs@[k] == old_jobs[k].started())),
                forall|k: int| 0 <= k < n ==> (#[trigger] old_jobs[k]).wf(),
                forall|k: int| 0 <= k < n ==> (#[trigger] self.jobs@[k]).wf(),
                used == count_current(self.jobs@),
                used <= self.capacity,
                used < self.capacity ==> forall|k: int|
                    0 <= k < i && old_jobs[k].status == JobStatus::Queued ==> (#[trigger] self.jobs@[
                        k]).status == JobStatus::Running,
                forall|a: int, b: int|
                    #![trigger self.jobs@[a], old_jobs[b]]
                    0 <= b < a < i && old_jobs[b].status == JobStatus::Queued && old_jobs[a].status
                        == JobStatus::Queued && self.jobs@[a].status == JobStatus::Running
                        ==> self.jobs@[b].status == JobStatus::Running,
                actions@ == old(actions)@ + start_actions(old_jobs, self.jobs@, i as int),
            decreases n - i,
        {
            let ghost before = self.jobs@;
            if used < self.capacity && self.jobs[i].status == JobStatus::Queued {
                self.jobs[i].status = JobStatus::Running;
                self.jobs[i].permit = Some(Permit::Current);
                proof {
                    assert(self.jobs@ == before.update(i as int, before[i as int].started()));
                    lemma_count_current_update(before, i as int, before[i as int].started());
                    lemma_start_actions_frame(old_jobs, before, self.jobs@, i as int);
                }
                used = used + 1;
                actions.push(Action::Emit { job: i, event: DownloadEvent::Status(JobStatus::Running) });
                actions.push(Action::Spawn { job: i });
            } else {
                proof {
                    lemma_start_actions_frame(old_jobs, before, self.jobs@, i as int);
                }
            }
            i = i + 1;
        }
    }
}

proof fn lemma_count_current_prefix(s: Seq<JobRecord>, k: int)
    requires
        0 <= k <= s.len(),
    ensures
        count_current(s.take(k)) <= count_current(s),
    decreases s.len() - k,
{
    if k < s.len() {
        lemma_count_current_prefix(s, k + 1);
        assert(s.take(k + 1).drop_last() =~= s.take(k));
    } else {
        assert(s.take(k) =~= s);
    }
}

/// Whether `url::Url::parse` accepts a string.
pub uninterp spec fn url_parses(s: Seq<char>) -> bool;

/// Relies on `url::Url::parse`: whether the text is a well-formed absolute
/// URL; the answer depends on the text alone.
#[verifier::external_body]
fn check_url(s: &str) -> (r: bool)
    ensures
        r == url_parses(s@),
{
    url::Url::parse(s).is_ok()
}

pub open spec fn opt_view(o: Option<String>) -> Option<Seq<char>> {
    match o {
        Some(s) => Some(s@),
        None => None,
    }
}

/// `r` is `request` with its blanks filled from `config`: the output
/// directory, the extra arguments and the cookie file.
pub open spec fn filled_from(r: DownloadRequest, request: DownloadRequest, config: Config) -> bool {
    &&& r.url == request.url
    &&& r.format == request.format
    &&& r.output_dir == if request.output_dir@.len() == 0 {
        config.general.output_dir
    } else {
        request.output_dir
    }
    &&& r.extra_args@ == if request.extra_args@.len() == 0 {
        config.advanced.extra_args@
    } else {
        request.extra_args@
    }
    &&& r.cookie_file == if request.cookie_file is None {
        config.advanced.cookie_file
    } else {
        request.cookie_file
    }
}

/// A job record as admission creates it, before any permit.
pub open spec fn fresh_job(q: JobRecord, id: u128, request: DownloadRequest, config: Config, row: i64) -> bool {
    &&& q.id == id
    &&& q.request == request
    &&& q.download_settings == config.download
    &&& q.advanced_settings.same(&config.advanced)
    &&& q.status == JobStatus::Queued
    &&& q.permit is None
    &&& q.history_row == Some(row)
    &&& q.progress is None
    &&& q.diagnostics@.len() == 0
    &&& !q.has_output
    &&& q.lines@.len() == 0
    &&& q.destination is None
}

/// `a` writes the final record of `job` with the given fields.
pub open spec fn is_completion(
    a: Action,
    job: usize,
    row: i64,
    status: JobStatus,
    file_path: Option<Seq<char>>,
    message: Option<Seq<char>>,
) -> bool {
    match a {
        Action::MarkCompleted { job: j, row: r, status: s, file_path: f, error_code: c, error_message: m } => {
            &&& j == job
            &&& r == row
            &&& s == status
            &&& opt_view(f) == file_path
            &&& opt_view(c) == error_code_of(status)
            &&& opt_view(m) == message
        },
        _ => false,
    }
}

/// The job after it reached terminal `status`: permit returned, history row
/// taken.
pub open spec fn ended(j: JobRecord, status: JobStatus) -> JobRecord {
    JobRecord { status, permit: None, history_row: None, ..j }
}

/// Same as `j` but with the pool marked replaced.
pub open spec fn retired(j: JobRecord) -> JobRecord {
    if j.permit is Some {
        JobRecord { permit: Some(Permit::Retired), ..j }
    } else {
        j
    }
}

impl DownloaderService {
    /// The request with its blanks filled from the configuration, or
    /// `InvalidUrl` where `url_ok` says that its URL is malformed.
    pub fn resolve_request(&self, request: DownloadRequest, url_ok: bool) -> (r: Result<DownloadRequest, DownloadError>)
        ensures
            !url_ok ==> r is Err && r->Err_0 is InvalidUrl && r->Err_0->InvalidUrl_0 == request.url,
            url_ok ==> r is Ok && filled_from(r->Ok_0, request, self.config_view()),
    {
        if !url_ok {
            return Err(DownloadError::InvalidUrl(request.url));
        }
        let mut request = request;
        if request.output_dir.unicode_len() == 0 {
            request.output_dir = copy_string(&self.config.general.output_dir);
        }
        if request.extra_args.len() == 0 {
            request.extra_args = crate::text::copy_strings(&self.config.advanced.extra_args);
        }
        if request.cookie_file.is_none() {
            request.cookie_file = copy_opt_string(&self.config.advanced.cookie_file);
        }
        Ok(request)
    }

    /// Checks the URL of a request and fills its blanks from the
    /// configuration; `InvalidUrl` where the URL does not parse.
    pub fn prepare(&self, request: DownloadRequest) -> (r: Result<DownloadRequest, DownloadError>)
        ensures
            !url_parses(request.url@) ==> r is Err && r->Err_0 is InvalidUrl
                && r->Err_0->InvalidUrl_0 == request.url,
            url_parses(request.url@) ==> r is Ok && filled_from(r->Ok_0, request, self.config_view()),
    {
        let ok = check_url(request.url.as_str());
        self.resolve_request(request, ok)
    }

    /// Admits a prepared request as job `id` with history row `row`. The job
    /// starts at once where the current pool has a free permit and no earlier
    /// job waits; otherwise it waits, queued.
    pub fn enqueue(&mut self, request: DownloadRequest, id: u128, row: i64) -> (r: (usize, Vec<Action>))
        requires
            old(self).wf(),
        ensures
            final(self).wf(),
            final(self).config_view() == old(self).config_view(),
            final(self).capacity_view() == old(self).capacity_view(),
            r.0 == old(self).jobs_view().len(),
            final(self).jobs_view().len() == r.0 + 1,
            fresh_job(
                JobRecord {
                    status: JobStatus::Queued,
                    permit: None,
                    ..final(self).jobs_view()[r.0 as int]
                },
                id,
                request,
                old(self).config_view(),
                row,
            ),
            dispatched(
                old(self).jobs_view().push(
                    JobRecord {
                        status: JobStatus::Queued,
                        permit: None,
                        ..final(self).jobs_view()[r.0 as int]
                    },
                ),
                final(self).jobs_view(),
                old(self).capacity_view(),
            ),
            r.1@ == start_actions(
                old(self).jobs_view().push(
                    JobRecord {
                        status: JobStatus::Queued,
                        permit: None,
                        ..final(self).jobs_view()[r.0 as int]
                    },
                ),
                final(self).jobs_view(),
                r.0 + 1,
            ),
            forall|i: usize| #![trigger completions(r.1@, i)] completions(r.1@, i) == 0,
    {
        let index = self.jobs.len();
        let record = JobRecord {
            id,
            request,
            download_settings: self.config.download,
            advanced_settings: self.config.advanced.duplicate(),
            status: JobStatus::Queued,
            progress: None,
            permit: None,
            history_row: Some(row),
            diagnostics: String::new(),
            has_output: false,
            lines: Ghost(Seq::empty()),
            destination: None,
        };
        proof {
            lemma_count_current_push(self.jobs@, record);
        }
        self.jobs.push(record);
        let ghost pushed = self.jobs@;
        let mut actions: Vec<Action> = Vec::new();
        self.dispatch(&mut actions);
        proof {
            assert(actions@ =~= start_actions(pushed, self.jobs@, index + 1));
            let q = JobRecord { status: JobStatus::Queued, permit: None, ..self.jobs@[index as int] };
            assert(q == pushed[index as int]);
            assert(old(self).jobs@.push(q) =~= pushed);
            assert(join_lines(Seq::<Seq<char>>::empty()) =~= Seq::<char>::empty());
            assert forall|i: usize| #[trigger] completions(actions@, i) == 0 by {
                lemma_start_actions_completions(pushed, self.jobs@, index + 1, i);
            }
        }
        (index, actions)
    }
}

impl DownloaderService {
    /// Moves running or queued job `job` to terminal `status`, returns its
    /// permit and writes its final record, once.
    fn end_job(
        &mut self,
        job: usize,
        status: JobStatus,
        file_path: Option<String>,
        message: Option<String>,
        actions: &mut Vec<Action>,
    )
        requires
            job < old(self).jobs@.len(),
            old(self).jobs@[job as int].wf(),
            !old(self).jobs@[job as int].status.is_terminal(),
            status.is_terminal(),
        ensures
            final(self).config == old(self).config,
            final(self).capacity == old(self).capacity,
            final(self).jobs@ == old(self).jobs@.update(job as int, ended(old(self).jobs@[job as int], status)),
            final(actions)@.len() == old(actions)@.len() + 1,
            final(actions)@.take(old(actions)@.len() as int) == old(actions)@,
            is_completion(
                final(actions)@.last(),
                job,
                old(self).jobs@[job as int].history_row->Some_0,
                status,
                opt_view(file_path),
                opt_view(message),
            ),
    {
        self.jobs[job].status = status;
        self.jobs[job].permit = None;
        let row = self.jobs[job].history_row.take();
        let code = error_code_for(status);
        proof {
            assert(self.jobs@ =~= old(self).jobs@.update(job as int, ended(old(self).jobs@[job as int], status)));
        }
        match row {
            Some(r) => {
                actions.push(Action::MarkCompleted {
                    job,
                    row: r,
                    status,
                    file_path,
                    error_code: code,
                    error_message: message,
                });
                assert(actions@.take(old(actions)@.len() as int) =~= old(actions)@);
            },
            None => {},
        }
    }

    /// Cancels job `job`. A queued job becomes `Canceled` and never starts;
    /// a running one has its process killed and becomes `Canceled`, and its
    /// permit passes to the earliest waiting job. A finished job is left as
    /// it is.
    pub fn cancel(&mut self, job: usize) -> (r: Vec<Action>)
        requires
            old(self).wf(),
            job < old(self).jobs_view().len(),
        ensures
            final(self).wf(),
            final(self).config_view() == old(self).config_view(),
            final(self).capacity_view() == old(self).capacity_view(),
            ({
                let o = old(self).jobs_view();
                let n = final(self).jobs_view();
                let j = o[job as int];
                let e = o.update(job as int, ended(j, JobStatus::Canceled));
                let done = is_completion(
                    r@[r@.len() - 1],
                    job,
                    j.history_row->Some_0,
                    JobStatus::Canceled,
                    None,
                    Some("download canceled"@),
                );
                &&& j.status.is_terminal() ==> n == o && r@.len() == 0
                &&& j.status == JobStatus::Queued ==> n == e && r@.len() == 2 && r@[0] == (
                    Action::Emit { job, event: DownloadEvent::Status(JobStatus::Canceled) }) && done
                &&& j.status == JobStatus::Running ==> dispatched(e, n, old(self).capacity_view())
                    && r@.len() >= 3 && r@[0] == (Action::Kill { job }) && r@[1] == (Action::Emit {
                    job,
                    event: DownloadEvent::Status(JobStatus::Canceled),
                }) && is_completion(
                    r@[2],
                    job,
                    j.history_row->Some_0,
                    JobStatus::Canceled,
                    None,
                    Some("download canceled"@),
                ) && r@.skip(3) == start_actions(e, n, e.len() as int)
            }),
            forall|i: usize|
                #![trigger completions(r@, i)]
                completions(r@, i) == if i == job && !old(self).jobs_view()[job as int].status.is_terminal() {
                    1nat
                } else {
                    0nat
                },
    {
        let mut actions: Vec<Action> = Vec::new();
        let status = self.jobs[job].status;
        if status.terminal() {
            return actions;
        }
        let ghost o = self.jobs@;
        let running = status == JobStatus::Running;
        if running {
            actions.push(Action::Kill { job });
        }
        actions.push(Action::Emit { job, event: DownloadEvent::Status(JobStatus::Canceled) });
        let msg = owned("download canceled");
        self.end_job(job, JobStatus::Canceled, None, Some(msg), &mut actions);
        proof {
            lemma_count_current_update(o, job as int, ended(o[job as int], JobStatus::Canceled));
            assert forall|i: int| 0 <= i < self.jobs@.len() implies (#[trigger] self.jobs@[i]).wf() by {
                if i == job {
                    assert(self.jobs@[i].lines == o[i].lines);
                }
            }
        }
        let ghost e = self.jobs@;
        let ghost before = actions@;
        if running {
            assert(before[0] == before.take(2)[0]);
            assert(before[1] == before.take(2)[1]);
            self.dispatch(&mut actions);
            assert(actions@.skip(3) =~= start_actions(e, self.jobs@, e.len() as int));
            assert(actions@[2] == before[2]);
            assert(actions@[0] == before[0]);
            assert(actions@[1] == before[1]);
        } else {
            assert(before[0] == before.take(1)[0]);
            assert(self.jobs@ == e);
        }
        proof {
            lemma_dispatched_wf(self);
            assert forall|i: usize| #[trigger] completions(actions@, i) == if i == job {
                1nat
            } else {
                0nat
            } by {
                if running {
                    let head = actions@.take(3);
                    assert(actions@ =~= head + actions@.skip(3));
                    lemma_completions_concat(head, actions@.skip(3), i);
                    lemma_start_actions_completions(e, self.jobs@, e.len() as int, i);
                    lemma_completions_small(head, i);
                } else {
                    lemma_completions_small(actions@, i);
                }
            }
        }
        actions
    }
}

/// After a dispatch, the service is well formed again.
proof fn lemma_dispatched_wf(s: &DownloaderService)
    requires
        s.capacity as nat == clamp_concurrency(s.config.download.concurrency as int),
        forall|i: int| 0 <= i < s.jobs@.len() ==> (#[trigger] s.jobs@[i]).wf(),
        count_current(s.jobs@) <= s.capacity,
    ensures
        s.wf(),
{
}

/// How the tool's run ended, as the caller observed it.
#[derive(Debug)]
pub enum ProcessOutcome {
    /// The tool exited; `code` where the platform gives one.
    Exited { success: bool, code: Option<i32> },
    /// The job's time budget ran out before the tool exited.
    TimedOut,
    /// Starting, reading from or waiting on the tool failed.
    Error(DownloadError),
}

/// What the metadata sidecar of a finished download told.
#[derive(Debug, Clone)]
pub struct SidecarMetadata {
    pub title: Option<String>,
    pub uploader: Option<String>,
    pub file_path: Option<String>,
}

/// The error that ends a run, or `None` for a successful exit. A failed
/// exit carries its code and every diagnostic line the job saw.
pub open spec fn outcome_error_of(j: JobRecord, outcome: ProcessOutcome) -> Option<DownloadError> {
    match outcome {
        ProcessOutcome::Exited { success, code } => if success {
            None
        } else {
            Some(DownloadError::CommandFailed { status: code, stderr: j.diagnostics })
        },
        ProcessOutcome::TimedOut => Some(DownloadError::Timeout(j.download_settings.timeout_sec)),
        ProcessOutcome::Error(e) => Some(e),
    }
}

/// The status that an error leaves a job in.
pub open spec fn failure_status(e: DownloadError) -> JobStatus {
    if e is Canceled {
        JobStatus::Canceled
    } else {
        JobStatus::Failed
    }
}

/// The file of a finished download: the one the sidecar names, else the
/// destination that the tool announced.
pub open spec fn chosen_file(meta: Option<SidecarMetadata>, dest: Option<String>) -> Option<Seq<char>> {
    match meta {
        Some(m) if m.file_path is Some => opt_view(m.file_path),
        _ => opt_view(dest),
    }
}

pub open spec fn meta_title(meta: Option<SidecarMetadata>) -> Option<String> {
    match meta {
        Some(m) => m.title,
        None => None,
    }
}

pub open spec fn meta_uploader(meta: Option<SidecarMetadata>) -> Option<String> {
    match meta {
        Some(m) => m.uploader,
        None => None,
    }
}

/// `s` summarizes the successful job `j`.
pub open spec fn success_summary(
    s: DownloadSummary,
    j: JobRecord,
    meta: Option<SidecarMetadata>,
    completed_at: i64,
) -> bool {
    &&& s.id == j.id
    &&& s.url == j.request.url
    &&& s.status == JobStatus::Succeeded
    &&& s.title == meta_title(meta)
    &&& s.uploader == meta_uploader(meta)
    &&& opt_view(s.file_path) == chosen_file(meta, j.destination)
    &&& s.completed_at == completed_at
    &&& s.error_message is None
}

/// The error that ends a run of job `j`, or `None` for a successful exit.
pub fn outcome_error(j: &JobRecord, outcome: ProcessOutcome) -> (r: Option<DownloadError>)
    ensures
        r == outcome_error_of(*j, outcome),
{
    match outcome {
        ProcessOutcome::Exited { success, code } => {
            if success {
                None
            } else {
                Some(DownloadError::CommandFailed { status: code, stderr: copy_string(&j.diagnostics) })
            }
        },
        ProcessOutcome::TimedOut => Some(DownloadError::Timeout(j.download_settings.timeout_sec)),
        ProcessOutcome::Error(e) => Some(e),
    }
}

impl DownloaderService {
    /// Takes one diagnostic line of running job `job`: publishes it, keeps
    /// it in the job's diagnostics, notes an announced destination, and
    /// publishes and keeps a progress reading where the line shows one.
    /// Lines of a job that is not running are ignored.
    pub fn observe_line(&mut self, job: usize, line: &str) -> (r: Vec<Action>)
        requires
            old(self).wf(),
            job < old(self).jobs_view().len(),
        ensures
            final(self).wf(),
            final(self).config_view() == old(self).config_view(),
            final(self).capacity_view() == old(self).capacity_view(),
            ({
                let o = old(self).jobs_view();
                let n = final(self).jobs_view();
                let j = o[job as int];
                let nj = n[job as int];
                &&& j.status != JobStatus::Running ==> n == o && r@.len() == 0
                &&& j.status == JobStatus::Running ==> {
                    &&& n == o.update(job as int, nj)
                    &&& nj.same_admission(&j)
                    &&& nj.status == j.status
                    &&& nj.permit == j.permit
                    &&& nj.history_row == j.history_row
                    &&& nj.lines@ == j.lines@.push(line@)
                    &&& nj.progress == if progress_of(line@) is Some {
                        progress_of(line@)
                    } else {
                        j.progress
                    }
                    &&& opt_view(nj.destination) == if destination_of(line@) is Some {
                        destination_of(line@)
                    } else {
                        opt_view(j.destination)
                    }
                    &&& r@.len() == if progress_of(line@) is Some {
                        2int
                    } else {
                        1int
                    }
                    &&& r@[0] matches Action::Emit { job: k, event: DownloadEvent::LogLine(t) }
                        && k == job && t@ == line@
                    &&& progress_of(line@) is Some ==> r@[1] == (Action::Emit {
                        job,
                        event: DownloadEvent::Progress(progress_of(line@)->Some_0),
                    })
                }
            }),
            forall|i: usize| #![trigger completions(r@, i)] completions(r@, i) == 0,
    {
        let mut actions: Vec<Action> = Vec::new();
        if self.jobs[job].status != JobStatus::Running {
            proof {
                assert forall|i: usize| #[trigger] completions(actions@, i) == 0 by {
                    lemma_completions_small(actions@, i);
                }
            }
            return actions;
        }
        let ghost o = self.jobs@;
        let ghost j = o[job as int];
        if self.jobs[job].has_output {
            push_char(&mut self.jobs[job].diagnostics, '\n');
        }
        append_str(&mut self.jobs[job].diagnostics, line);
        self.jobs[job].has_output = true;
        self.jobs[job].lines = Ghost(j.lines@.push(line@));
        proof {
            let ls = j.lines@.push(line@);
            assert(ls.drop_last() =~= j.lines@);
            if j.lines@.len() == 0 {
                assert(j.diagnostics@ =~= Seq::<char>::empty());
            }
        }
        match parse_destination(line) {
            Some(p) => {
                self.jobs[job].destination = Some(p);
            },
            None => {},
        }
        actions.push(Action::Emit { job, event: DownloadEvent::LogLine(owned(line)) });
        match parse_progress(line) {
            Some(p) => {
                self.jobs[job].progress = Some(p);
                actions.push(Action::Emit { job, event: DownloadEvent::Progress(p) });
            },
            None => {},
        }
        proof {
            let nj = self.jobs@[job as int];
            assert(self.jobs@ =~= o.update(job as int, nj));
            lemma_count_current_update(o, job as int, nj);
            assert forall|i: int| 0 <= i < self.jobs@.len() implies (#[trigger] self.jobs@[i]).wf() by {
                if i != job {
                    assert(self.jobs@[i] == o[i]);
                }
            }
            assert forall|i: usize| #[trigger] completions(actions@, i) == 0 by {
                lemma_completions_small(actions@, i);
            }
        }
        actions
    }
}

impl DownloaderService {
    /// Ends running job `job` after its process ended as `outcome`, with
    /// the sidecar's metadata where one was read and the time of completion.
    /// A successful exit publishes the summary and records `Succeeded`; an
    /// error publishes its message and records `Failed` (or `Canceled`
    /// for a cancellation); a timeout first kills the process. The permit
    /// passes to the earliest waiting job. A job that is not running is left
    /// as it is.
    pub fn finish(
        &mut self,
        job: usize,
        outcome: ProcessOutcome,
        metadata: Option<SidecarMetadata>,
        completed_at: i64,
    ) -> (r: Vec<Action>)
        requires
            old(self).wf(),
            job < old(self).jobs_view().len(),
        ensures
            final(self).wf(),
            final(self).config_view() == old(self).config_view(),
            final(self).capacity_view() == old(self).capacity_view(),
            ({
                let o = old(self).jobs_view();
                let n = final(self).jobs_view();
                let j = o[job as int];
                let err = outcome_error_of(j, outcome);
                let st = match err {
                    Some(e) => failure_status(e),
                    None => JobStatus::Succeeded,
                };
                let e = o.update(job as int, ended(j, st));
                let row = j.history_row->Some_0;
                &&& j.status != JobStatus::Running ==> n == o && r@.len() == 0
                &&& j.status == JobStatus::Running ==> {
                    &&& dispatched(e, n, old(self).capacity_view())
                    &&& exists|k: int|
                        0 <= k <= r@.len() && r@.skip(k) == start_actions(e, n, e.len() as int)
                            && #[trigger] ended_with(r@.take(k), job, j, outcome, err, row, metadata, completed_at)
                }
            }),
            forall|i: usize|
                #![trigger completions(r@, i)]
                completions(r@, i) == if i == job && old(self).jobs_view()[job as int].status
                    == JobStatus::Running {
                    1nat
                } else {
                    0nat
                },
    {
        let mut actions: Vec<Action> = Vec::new();
        if self.jobs[job].status != JobStatus::Running {
            return actions;
        }
        let ghost o = self.jobs@;
        let ghost j = o[job as int];
        let timed_out = match outcome {
            ProcessOutcome::TimedOut => true,
            _ => false,
        };
        let ghost out = outcome;
        let err = outcome_error(&self.jobs[job], outcome);
        match err {
            None => {
                let (title, uploader, file) = match metadata {
                    Some(m) => {
                        let f = match m.file_path {
                            Some(p) => Some(p),
                            None => copy_opt_string(&self.jobs[job].destination),
                        };
                        (m.title, m.uploader, f)
                    },
                    None => (None, None, copy_opt_string(&self.jobs[job].destination)),
                };
                let summary = DownloadSummary {
                    id: self.jobs[job].id,
                    url: copy_string(&self.jobs[job].request.url),
                    status: JobStatus::Succeeded,
                    title: copy_opt_string(&title),
                    uploader: copy_opt_string(&uploader),
                    file_path: copy_opt_string(&file),
                    completed_at,
                    error_message: None,
                };
                assert(success_summary(summary, j, metadata, completed_at));
                assert(opt_view(file) == chosen_file(metadata, j.destination));
                actions.push(Action::Emit { job, event: DownloadEvent::Completed(summary) });
                let ghost a0 = actions@;
                self.end_job(job, JobStatus::Succeeded, file, None, &mut actions);
                assert(actions@[0] == a0[0]) by {
                    assert(actions@.take(1)[0] == actions@[0]);
                }
                let ghost a1 = actions@;
                if title.is_some() || uploader.is_some() {
                    actions.push(Action::UpdateMetadata { job, title, uploader });
                    assert(actions@[0] == a1[0]);
                    assert(actions@[1] == a1[1]);
                }
                assert(ended_with(actions@, job, j, out, None, j.history_row->Some_0, metadata, completed_at));
            },
            Some(e) => {
                let message = error_message(&e);
                if e.is_canceled() {
                    actions.push(Action::Emit { job, event: DownloadEvent::Status(JobStatus::Canceled) });
                    self.end_job(job, JobStatus::Canceled, None, Some(message), &mut actions);
                    assert(actions@[0] == actions@.take(1)[0]);
                } else {
                    if timed_out {
                        actions.push(Action::Kill { job });
                    }
                    actions.push(Action::Emit { job, event: DownloadEvent::Failed(copy_string(&message)) });
                    let ghost a0 = actions@;
                    self.end_job(job, JobStatus::Failed, None, Some(message), &mut actions);
                    assert(actions@[0] == actions@.take(a0.len() as int)[0]);
                    assert(actions@[a0.len() - 1] == actions@.take(a0.len() as int)[a0.len() - 1]);
                }
            },
        }
        let ghost e = self.jobs@;
        let ghost before = actions@;
        proof {
            lemma_count_current_update(o, job as int, e[job as int]);
            assert forall|i: int| 0 <= i < self.jobs@.len() implies (#[trigger] self.jobs@[i]).wf() by {
                if i == job {
                    assert(self.jobs@[i].lines == o[i].lines);
                }
            }
        }
        self.dispatch(&mut actions);
        proof {
            let k = before.len() as int;
            assert(actions@.take(k) =~= before);
            assert(actions@.skip(k) =~= start_actions(e, self.jobs@, e.len() as int));
            assert(ended_with(actions@.take(k), job, j, out, outcome_error_of(j, out), j.history_row->Some_0, metadata, completed_at));
            lemma_dispatched_wf(self);
            assert forall|i: usize| #[trigger] completions(actions@, i) == if i == job {
                1nat
            } else {
                0nat
            } by {
                assert(actions@ =~= before + actions@.skip(k));
                lemma_completions_concat(before, actions@.skip(k), i);
                lemma_start_actions_completions(e, self.jobs@, e.len() as int, i);
                lemma_completions_small(before, i);
            }
        }
        actions
    }
}

impl DownloadError {
    pub fn is_canceled(&self) -> (r: bool)
        ensures
            r == (*self is Canceled),
    {
        match self {
            DownloadError::Canceled => true,
            _ => false,
        }
    }
}

/// `acts` are the actions that end job `job`, as `finish` takes them, before
/// any other job starts.
pub open spec fn ended_with(
    acts: Seq<Action>,
    job: usize,
    j: JobRecord,
    outcome: ProcessOutcome,
    err: Option<DownloadError>,
    row: i64,
    meta: Option<SidecarMetadata>,
    completed_at: i64,
) -> bool {
    match err {
        None => {
            &&& acts.len() == if meta_title(meta) is Some || meta_uploader(meta) is Some {
                3int
            } else {
                2int
            }
            &&& acts[0] matches Action::Emit { job: k, event: DownloadEvent::Completed(s) } && k
                == job && success_summary(s, j, meta, completed_at)
            &&& is_completion(acts[1], job, row, JobStatus::Succeeded, chosen_file(meta, j.destination), None)
            &&& acts.len() == 3 ==> acts[2] == (Action::UpdateMetadata {
                job,
                title: meta_title(meta),
                uploader: meta_uploader(meta),
            })
        },
        Some(e) => if e is Canceled {
            &&& acts.len() == 2
            &&& acts[0] == (Action::Emit { job, event: DownloadEvent::Status(JobStatus::Canceled) })
            &&& is_completion(acts[1], job, row, JobStatus::Canceled, None, Some(error_text(e)))
        } else {
            let k: int = if outcome is TimedOut {
                1
            } else {
                0
            };
            &&& acts.len() == k + 2
            &&& outcome is TimedOut ==> acts[0] == (Action::Kill { job })
            &&& acts[k] matches Action::Emit { job: x, event: DownloadEvent::Failed(m) } && x == job
                && m@ == error_text(e)
            &&& is_completion(acts[k + 1], job, row, JobStatus::Failed, None, Some(error_text(e)))
        },
    }
}

proof fn lemma_count_current_none(s: Seq<JobRecord>)
    requires
        forall|i: int| 0 <= i < s.len() ==> (#[trigger] s[i]).permit != Some(Permit::Current),
    ensures
        count_current(s) == 0,
    decreases s.len(),
{
    if s.len() > 0 {
        lemma_count_current_none(s.drop_last());
    }
}

impl DownloaderService {
    /// Replaces the configuration as a whole and the permit pool with one
    /// sized for it. Permits already held stay with their jobs, counted
    /// against the replaced pool; the waiting jobs then take the free
    /// permits of the new pool, earliest admitted first. Every job keeps the
    /// request and settings it was admitted with.
    pub fn update_config(&mut self, config: Config) -> (r: Vec<Action>)
        requires
            old(self).wf(),
        ensures
            final(self).wf(),
            final(self).config_view() == config,
            final(self).capacity_view() == clamp_concurrency(config.download.concurrency as int),
            dispatched(
                old(self).jobs_view().map_values(|j: JobRecord| retired(j)),
                final(self).jobs_view(),
                final(self).capacity_view(),
            ),
            r@ == start_actions(
                old(self).jobs_view().map_values(|j: JobRecord| retired(j)),
                final(self).jobs_view(),
                old(self).jobs_view().len() as int,
            ),
            forall|i: usize| #![trigger completions(r@, i)] completions(r@, i) == 0,
    {
        let capacity = config.download.effective_concurrency();
        self.config = config;
        self.capacity = capacity;
        let ghost o = self.jobs@;
        let n = self.jobs.len();
        let mut i: usize = 0;
        while i < n
            invariant
                n == self.jobs@.len() == o.len(),
                i <= n,
                self.config == config,
                self.capacity == capacity,
                1 <= capacity <= 3,
                capacity == clamp_concurrency(config.download.concurrency as int),
                forall|k: int| 0 <= k < i ==> #[trigger] self.jobs@[k] == retired(o[k]),
                forall|k: int| i <= k < n ==> #[trigger] self.jobs@[k] == o[k],
            decreases n - i,
        {
            if self.jobs[i].permit.is_some() {
                self.jobs[i].permit = Some(Permit::Retired);
            }
            i = i + 1;
        }
        proof {
            assert(self.jobs@ =~= o.map_values(|j: JobRecord| retired(j)));
            lemma_count_current_none(self.jobs@);
            assert forall|k: int| 0 <= k < self.jobs@.len() implies (#[trigger] self.jobs@[k]).wf() by {
                assert(o[k].wf());
            }
        }
        let mut actions: Vec<Action> = Vec::new();
        self.dispatch(&mut actions);
        proof {
            assert(actions@ =~= start_actions(
                o.map_values(|j: JobRecord| retired(j)),
                self.jobs@,
                o.len() as int,
            ));
            lemma_dispatched_wf(self);
            assert forall|i: usize| #[trigger] completions(actions@, i) == 0 by {
                lemma_start_actions_completions(
                    o.map_values(|j: JobRecord| retired(j)),
                    self.jobs@,
                    o.len() as int,
                    i,
                );
            }
        }
        actions
    }
}

proof fn lemma_completions_concat(a: Seq<Action>, b: Seq<Action>, i: usize)
    ensures
        completions(a + b, i) == completions(a, i) + completions(b, i),
    decreases b.len(),
{
    if b.len() == 0 {
        assert(a + b =~= a);
    } else {
        lemma_completions_concat(a, b.drop_last(), i);
        assert((a + b).drop_last() =~= a + b.drop_last());
    }
}

proof fn lemma_start_actions_completions(old: Seq<JobRecord>, new: Seq<JobRecord>, k: int, i: usize)
    ensures
        completions(start_actions(old, new, k), i) == 0,
    decreases k,
{
    if k > 0 {
        lemma_start_actions_completions(old, new, k - 1, i);
        if old[k - 1].status == JobStatus::Queued && new[k - 1].status == JobStatus::Running {
            let two = seq![
                Action::Emit { job: (k - 1) as usize, event: DownloadEvent::Status(JobStatus::Running) },
                Action::Spawn { job: (k - 1) as usize },
            ];
            lemma_completions_concat(start_actions(old, new, k - 1), two, i);
            let e = Seq::<Action>::empty();
            assert(two.drop_last().drop_last() =~= e);
            assert(completions(e, i) == 0);
            assert(two.drop_last().last() == two[0]);
            assert(!writes_final(two[0], i));
            assert(!writes_final(two[1], i));
            assert(completions(two.drop_last(), i) == 0);
            assert(completions(two, i) == 0);
        }
    }
}

/// Counts the final-record writes of a short list of actions.
proof fn lemma_completions_small(acts: Seq<Action>, i: usize)
    requires
        acts.len() <= 3,
    ensures
        completions(acts, i) == (if acts.len() > 0 && writes_final(acts[0], i) {
            1nat
        } else {
            0nat
        }) + (if acts.len() > 1 && writes_final(acts[1], i) {
            1nat
        } else {
            0nat
        }) + (if acts.len() > 2 && writes_final(acts[2], i) {
            1nat
        } else {
            0nat
        }),
{
    let e = Seq::<Action>::empty();
    assert(completions(e, i) == 0);
    reveal_with_fuel(completions, 4);
    if acts.len() > 0 {
        let a1 = acts.drop_last();
        assert(acts.last() == acts[acts.len() - 1]);
        if a1.len() > 0 {
            let a2 = a1.drop_last();
            assert(a1.last() == acts[a1.len() - 1]);
            if a2.len() > 0 {
                assert(a2.drop_last() =~= e);
                assert(a2.last() == acts[0]);
            } else {
                assert(a2 =~= e);
            }
        } else {
            assert(a1 =~= e);
        }
    }
}

/// What an observer sees of a job: its identity, latest status and latest
/// progress.
#[derive(Debug, Clone)]
pub struct JobState {
    pub id: u128,
    pub url: String,
    pub status: JobStatus,
    pub progress: Option<ProgressSnapshot>,
}

impl DownloaderService {
    /// The latest state of job `i`.
    pub fn job_state(&self, i: usize) -> (r: JobState)
        requires
            i < self.jobs_view().len(),
        ensures
            r.id == self.jobs_view()[i as int].id,
            r.url == self.jobs_view()[i as int].request.url,
            r.status == self.jobs_view()[i as int].status,
            r.progress == self.jobs_view()[i as int].progress,
    {
        let j = &self.jobs[i];
        JobState { id: j.id, url: copy_string(&j.request.url), status: j.status, progress: j.progress }
    }
}

} // verus!
