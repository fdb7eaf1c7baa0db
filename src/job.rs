//! What a job is: its request, its status, its errors and the events it
//! publishes.

use vstd::prelude::*;
use crate::config::AudioFormat;
use crate::progress::ProgressSnapshot;
use crate::text::{append_str, owned, push_signed_decimal, push_decimal, decimal, signed_decimal};

verus! {

/// Status of a job. A job moves forward only: `Queued`, then `Running`,
/// then one of the three terminal states; or from `Queued` straight to
/// `Canceled`.
#[derive(Debug, Clone, Copy, PartialEq, Eq, Structural)]
pub enum JobStatus {
    Queued,
    Running,
    Succeeded,
    Failed,
    Canceled,
}

pub open spec fn status_name(s: JobStatus) -> Seq<char> {
    match s {
        JobStatus::Queued => "Queued"@,
        JobStatus::Running => "Running"@,
        JobStatus::Succeeded => "Succeeded"@,
        JobStatus::Failed => "Failed"@,
        JobStatus::Canceled => "Canceled"@,
    }
}

/// The status stored under a name; any unknown name reads as `Failed`.
pub open spec fn status_of_name(t: Seq<char>) -> JobStatus {
    if t == "Queued"@ {
        JobStatus::Queued
    } else if t == "Running"@ {
        JobStatus::Running
    } else if t == "Succeeded"@ {
        JobStatus::Succeeded
    } else if t == "Canceled"@ {
        JobStatus::Canceled
    } else {
        JobStatus::Failed
    }
}

impl JobStatus {
    pub open spec fn is_terminal(self) -> bool {
        self == JobStatus::Succeeded || self == JobStatus::Failed || self == JobStatus::Canceled
    }

    /// `next` may directly follow `self`.
    pub open spec fn may_become(self, next: JobStatus) -> bool {
        match self {
            JobStatus::Queued => next == JobStatus::Running || next == JobStatus::Canceled,
            JobStatus::Running => next.is_terminal(),
            _ => false,
        }
    }

    /// `next` is `self` or a status that may follow it.
    pub open spec fn leads_to(self, next: JobStatus) -> bool {
        self == next || self.may_become(next)
    }

    /// Whether no further transition can happen.
    pub fn terminal(&self) -> (r: bool)
        ensures
            r == self.is_terminal(),
    {
        match self {
            JobStatus::Succeeded | JobStatus::Failed | JobStatus::Canceled => true,
            _ => false,
        }
    }

    pub fn as_str(&self) -> (r: &'static str)
        ensures
            r@ == status_name(*self),
    {
        match self {
            JobStatus::Queued => "Queued",
            JobStatus::Running => "Running",
            JobStatus::Succeeded => "Succeeded",
            JobStatus::Failed => "Failed",
            JobStatus::Canceled => "Canceled",
        }
    }

    pub fn from_str(value: &str) -> (r: JobStatus)
        ensures
            r == status_of_name(value@),
    {
        if crate::config::str_eq(value, "Queued") {
            JobStatus::Queued
        } else if crate::config::str_eq(value, "Running") {
            JobStatus::Running
        } else if crate::config::str_eq(value, "Succeeded") {
            JobStatus::Succeeded
        } else if crate::config::str_eq(value, "Canceled") {
            JobStatus::Canceled
        } else {
            JobStatus::Failed
        }
    }
}

/// What the caller asks for. Blank fields are filled from the configuration
/// when the job is admitted.
#[derive(Debug, Clone)]
pub struct DownloadRequest {
    pub url: String,
    pub output_dir: String,
    pub format: AudioFormat,
    pub extra_args: Vec<String>,
    pub cookie_file: Option<String>,
}

impl DownloadRequest {
    pub fn new(url: String, output_dir: String, format: AudioFormat) -> (r: Self)
        ensures
            r.url == url,
            r.output_dir == output_dir,
            r.format == format,
            r.extra_args@.len() == 0,
            r.cookie_file is None,
    {
        DownloadRequest { url, output_dir, format, extra_args: Vec::new(), cookie_file: None }
    }
}

/// Why a job could not be admitted or did not succeed. Errors of the
/// operating system arrive as their message.
#[derive(Debug, Clone)]
pub enum DownloadError {
    InvalidUrl(String),
    MissingDependency(String),
    Spawn(String),
    CommandFailed { status: Option<i32>, stderr: String },
    Canceled,
    Timeout(u64),
    Io(String),
    Join(String),
}

/// `Some(code)` or `None`, as `{:?}` writes an optional exit code.
pub open spec fn exit_code_text(status: Option<i32>) -> Seq<char> {
    match status {
        Some(c) => "Some("@ + signed_decimal(c as int) + ")"@,
        None => "None"@,
    }
}

/// The human-readable text of an error.
pub open spec fn error_text(e: DownloadError) -> Seq<char> {
    match e {
        DownloadError::InvalidUrl(u) => "invalid url: "@ + u@,
        DownloadError::MissingDependency(d) => "missing dependency: "@ + d@,
        DownloadError::Spawn(m) => "failed to spawn command: "@ + m@,
        DownloadError::CommandFailed { status, stderr } => "command failed (status "@
            + exit_code_text(status) + "): "@ + stderr@,
        DownloadError::Canceled => "download canceled"@,
        DownloadError::Timeout(s) => "download timed out after "@ + decimal(s as nat)
            + " seconds"@,
        DownloadError::Io(m) => "io error: "@ + m@,
        DownloadError::Join(m) => "task join error: "@ + m@,
    }
}

/// The human-readable text of an error.
pub fn error_message(error: &DownloadError) -> (r: String)
    ensures
        r@ == error_text(*error),
{
    match error {
        DownloadError::InvalidUrl(u) => {
            let mut s = owned("invalid url: ");
            append_str(&mut s, u.as_str());
            s
        },
        DownloadError::MissingDependency(d) => {
            let mut s = owned("missing dependency: ");
            append_str(&mut s, d.as_str());
            s
        },
        DownloadError::Spawn(m) => {
            let mut s = owned("failed to spawn command: ");
            append_str(&mut s, m.as_str());
            s
        },
        DownloadError::CommandFailed { status, stderr } => {
            let mut s = owned("command failed (status ");
            match status {
                Some(c) => {
                    append_str(&mut s, "Some(");
                    push_signed_decimal(&mut s, *c as i64);
                    append_str(&mut s, ")");
                },
                None => {
                    append_str(&mut s, "None");
                },
            }
            append_str(&mut s, "): ");
            append_str(&mut s, stderr.as_str());
            proof {
                let t = exit_code_text(*status);
                assert(s@ =~= "command failed (status "@ + t + "): "@ + stderr@);
            }
            s
        },
        DownloadError::Canceled => owned("download canceled"),
        DownloadError::Timeout(secs) => {
            let mut s = owned("download timed out after ");
            push_decimal(&mut s, *secs);
            append_str(&mut s, " seconds");
            s
        },
        DownloadError::Io(m) => {
            let mut s = owned("io error: ");
            append_str(&mut s, m.as_str());
            s
        },
        DownloadError::Join(m) => {
            let mut s = owned("task join error: ");
            append_str(&mut s, m.as_str());
            s
        },
    }
}

/// The record of a finished download.
#[derive(Debug, Clone)]
pub struct DownloadSummary {
    pub id: u128,
    pub url: String,
    pub status: JobStatus,
    pub title: Option<String>,
    pub uploader: Option<String>,
    pub file_path: Option<String>,
    /// Completion time, in seconds since the Unix epoch.
    pub completed_at: i64,
    pub error_message: Option<String>,
}

/// One notification of a job, in the order the job produced it.
#[derive(Debug, Clone)]
pub enum DownloadEvent {
    Status(JobStatus),
    Progress(ProgressSnapshot),
    LogLine(String),
    Completed(DownloadSummary),
    Failed(String),
}

/// The error code stored with a finished job.
pub open spec fn error_code_of(status: JobStatus) -> Option<Seq<char>> {
    match status {
        JobStatus::Canceled => Some("Canceled"@),
        JobStatus::Failed => Some("Failed"@),
        _ => None,
    }
}

/// The error code stored with a finished job: the status name for a failed
/// or canceled one, none otherwise.
pub fn error_code_for(status: JobStatus) -> (r: Option<String>)
    ensures
        r is Some <==> error_code_of(status) is Some,
        r is Some ==> r->Some_0@ == error_code_of(status)->Some_0,
{
    match status {
        JobStatus::Canceled => Some(owned("Canceled")),
        JobStatus::Failed => Some(owned("Failed")),
        _ => None,
    }
}

} // verus!
