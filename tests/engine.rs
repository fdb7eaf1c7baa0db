use space_downloader_core::config::{AudioFormat, Config, DownloadSettings, GeneralSettings};
use space_downloader_core::job::{DownloadError, DownloadEvent, DownloadRequest, JobStatus};
use space_downloader_core::service::{Action, DownloaderService, Permit, ProcessOutcome, SidecarMetadata};

fn config_with(concurrency: usize) -> Config {
    let mut c = Config::with_general(GeneralSettings::new("/downloads".to_string(), "en-US".to_string()));
    c.download.concurrency = concurrency;
    c
}

fn request(url: &str) -> DownloadRequest {
    DownloadRequest::new(url.to_string(), String::new(), AudioFormat::M4a)
}

fn enqueue(s: &mut DownloaderService, url: &str, id: u128) -> (usize, Vec<Action>) {
    let r = s.prepare(request(url)).unwrap();
    s.enqueue(r, id, id as i64)
}

fn spawned(actions: &[Action]) -> Vec<usize> {
    actions.iter().filter_map(|a| match a { Action::Spawn { job } => Some(*job), _ => None }).collect()
}

fn completed(actions: &[Action]) -> Vec<(usize, JobStatus, Option<String>, Option<String>)> {
    actions
        .iter()
        .filter_map(|a| match a {
            Action::MarkCompleted { job, status, error_code, error_message, .. } => {
                Some((*job, *status, error_code.clone(), error_message.clone()))
            }
            _ => None,
        })
        .collect()
}

fn running(s: &DownloaderService) -> usize {
    (0..s.job_count()).filter(|i| s.status(*i) == JobStatus::Running).count()
}

#[test]
fn three_jobs_one_slot() {
    let mut s = DownloaderService::new(config_with(1));
    let (j0, a0) = enqueue(&mut s, "https://example.com/1", 1);
    let (j1, a1) = enqueue(&mut s, "https://example.com/2", 2);
    let (j2, a2) = enqueue(&mut s, "https://example.com/3", 3);
    assert_eq!(spawned(&a0), vec![j0]);
    assert!(spawned(&a1).is_empty() && spawned(&a2).is_empty());
    assert_eq!(s.status(j0), JobStatus::Running);
    assert_eq!(s.status(j1), JobStatus::Queued);
    assert_eq!(s.status(j2), JobStatus::Queued);

    let c = s.cancel(j1);
    assert_eq!(s.status(j1), JobStatus::Canceled);
    assert!(spawned(&c).is_empty());
    assert_eq!(completed(&c), vec![(j1, JobStatus::Canceled, Some("Canceled".to_string()), Some("download canceled".to_string()))]);
    assert_eq!(s.status(j2), JobStatus::Queued);

    let f = s.finish(j0, ProcessOutcome::Exited { success: true, code: Some(0) }, None, 100);
    assert_eq!(s.status(j0), JobStatus::Succeeded);
    assert_eq!(spawned(&f), vec![j2]);
    assert_eq!(s.status(j2), JobStatus::Running);
    assert_eq!(s.status(j1), JobStatus::Canceled);
}

#[test]
fn running_never_exceeds_concurrency() {
    let mut s = DownloaderService::new(config_with(2));
    for id in 0..6u128 {
        enqueue(&mut s, "https://example.com/x", id);
        assert!(running(&s) <= 2);
    }
    assert_eq!(running(&s), 2);
    s.finish(0, ProcessOutcome::Exited { success: false, code: Some(2) }, None, 5);
    assert_eq!(running(&s), 2);
    assert_eq!(s.status(2), JobStatus::Running);
    s.cancel(1);
    assert_eq!(running(&s), 2);
    assert_eq!(s.status(3), JobStatus::Running);
}

#[test]
fn cancel_while_queued_never_spawns() {
    let mut s = DownloaderService::new(config_with(1));
    enqueue(&mut s, "https://example.com/1", 1);
    let (j, _) = enqueue(&mut s, "https://example.com/2", 2);
    s.cancel(j);
    let f = s.finish(0, ProcessOutcome::Exited { success: true, code: Some(0) }, None, 1);
    assert!(!spawned(&f).contains(&j));
    assert_eq!(s.status(j), JobStatus::Canceled);
}

#[test]
fn cancel_while_running_kills_and_cancels() {
    let mut s = DownloaderService::new(config_with(1));
    let (j, _) = enqueue(&mut s, "https://example.com/1", 1);
    let c = s.cancel(j);
    assert!(matches!(c[0], Action::Kill { job } if job == j));
    assert!(matches!(c[1], Action::Emit { job, event: DownloadEvent::Status(JobStatus::Canceled) } if job == j));
    assert_eq!(s.status(j), JobStatus::Canceled);
    let late = s.finish(j, ProcessOutcome::Exited { success: true, code: Some(0) }, None, 9);
    assert!(late.is_empty());
    assert_eq!(s.status(j), JobStatus::Canceled);
    assert!(s.cancel(j).is_empty());
}

#[test]
fn failed_exit_carries_all_lines() {
    let mut s = DownloaderService::new(config_with(1));
    let (j, _) = enqueue(&mut s, "https://example.com/1", 1);
    let a = s.observe_line(j, "first line");
    assert!(matches!(&a[0], Action::Emit { event: DownloadEvent::LogLine(t), .. } if t == "first line"));
    s.observe_line(j, "[download]  50.0% of 2.00KiB");
    s.observe_line(j, "ERROR: boom");
    assert_eq!(s.job(j).diagnostics, "first line\n[download]  50.0% of 2.00KiB\nERROR: boom");
    let f = s.finish(j, ProcessOutcome::Exited { success: false, code: Some(1) }, None, 3);
    assert_eq!(s.status(j), JobStatus::Failed);
    let text = "command failed (status Some(1)): first line\n[download]  50.0% of 2.00KiB\nERROR: boom".to_string();
    assert!(matches!(&f[0], Action::Emit { event: DownloadEvent::Failed(m), .. } if *m == text));
    assert_eq!(completed(&f), vec![(j, JobStatus::Failed, Some("Failed".to_string()), Some(text))]);
}

#[test]
fn progress_lines_update_progress_and_destination() {
    let mut s = DownloaderService::new(config_with(1));
    let (j, _) = enqueue(&mut s, "https://example.com/1", 1);
    let a = s.observe_line(j, "[download]  45.2% of 10.00MiB at 1.21MiB/s ETA 00:07");
    assert_eq!(a.len(), 2);
    assert_eq!(s.job(j).progress.unwrap().percent_hundredths, Some(4520));
    s.observe_line(j, "[download] Destination: /downloads/song.webm");
    assert_eq!(s.job(j).destination, Some("/downloads/song.webm".to_string()));
    assert_eq!(s.job(j).progress.unwrap().eta_secs, Some(7));
    let f = s.finish(j, ProcessOutcome::Exited { success: true, code: Some(0) }, None, 42);
    match &f[0] {
        Action::Emit { event: DownloadEvent::Completed(sum), .. } => {
            assert_eq!(sum.file_path, Some("/downloads/song.webm".to_string()));
            assert_eq!(sum.completed_at, 42);
            assert_eq!(sum.status, JobStatus::Succeeded);
        }
        _ => panic!("expected a summary"),
    }
}

#[test]
fn success_with_sidecar_updates_metadata() {
    let mut s = DownloaderService::new(config_with(1));
    let (j, _) = enqueue(&mut s, "https://example.com/1", 1);
    let meta = SidecarMetadata {
        title: Some("T".to_string()),
        uploader: None,
        file_path: Some("/downloads/T.m4a".to_string()),
    };
    let f = s.finish(j, ProcessOutcome::Exited { success: true, code: Some(0) }, Some(meta), 7);
    assert_eq!(f.len(), 3);
    assert_eq!(completed(&f), vec![(j, JobStatus::Succeeded, None, None)]);
    assert!(matches!(&f[2], Action::UpdateMetadata { title: Some(t), uploader: None, .. } if t == "T"));
}

#[test]
fn timeout_kills_and_fails() {
    let mut c = config_with(1);
    c.download.timeout_sec = 30;
    let mut s = DownloaderService::new(c);
    let (j, _) = enqueue(&mut s, "https://example.com/1", 1);
    let f = s.finish(j, ProcessOutcome::TimedOut, None, 0);
    assert!(matches!(f[0], Action::Kill { .. }));
    assert_eq!(completed(&f)[0].3, Some("download timed out after 30 seconds".to_string()));
    let (k, _) = enqueue(&mut s, "https://example.com/2", 2);
    let g = s.finish(k, ProcessOutcome::Error(DownloadError::Canceled), None, 0);
    assert_eq!(s.status(k), JobStatus::Canceled);
    assert_eq!(completed(&g)[0].1, JobStatus::Canceled);
}

#[test]
fn final_record_written_once() {
    let mut s = DownloaderService::new(config_with(1));
    let (j, _) = enqueue(&mut s, "https://example.com/1", 1);
    let mut all = Vec::new();
    all.extend(s.cancel(j));
    all.extend(s.finish(j, ProcessOutcome::Exited { success: true, code: Some(0) }, None, 1));
    all.extend(s.cancel(j));
    all.extend(s.observe_line(j, "late"));
    assert_eq!(completed(&all).len(), 1);
    assert!(s.job(j).history_row.is_none());
}

#[test]
fn new_config_keeps_running_jobs() {
    let mut s = DownloaderService::new(config_with(1));
    let (j0, _) = enqueue(&mut s, "https://example.com/1", 1);
    let (j1, _) = enqueue(&mut s, "https://example.com/2", 2);
    let (j2, _) = enqueue(&mut s, "https://example.com/3", 3);
    let mut c = Config::with_general(GeneralSettings::new("/elsewhere".to_string(), "en-US".to_string()));
    c.download = DownloadSettings { format: AudioFormat::Opus, max_retries: 1, timeout_sec: 5, concurrency: 2 };
    let a = s.update_config(c);
    assert_eq!(s.capacity(), 2);
    assert_eq!(s.job(j0).request.output_dir, "/downloads");
    assert_eq!(s.job(j0).request.format, AudioFormat::M4a);
    assert_eq!(s.job(j0).download_settings.concurrency, 1);
    assert_eq!(s.job(j0).permit, Some(Permit::Retired));
    assert_eq!(s.status(j0), JobStatus::Running);
    assert_eq!(spawned(&a), vec![j1, j2]);
    assert_eq!(s.job(j1).request.output_dir, "/downloads");
    let (j3, _) = enqueue(&mut s, "https://example.com/4", 4);
    assert_eq!(s.job(j3).request.output_dir, "/elsewhere");
    assert_eq!(s.status(j3), JobStatus::Queued);
}

#[test]
fn invalid_url_is_rejected() {
    let s = DownloaderService::new(config_with(1));
    match s.prepare(request("not a url")) {
        Err(DownloadError::InvalidUrl(u)) => assert_eq!(u, "not a url"),
        _ => panic!("expected InvalidUrl"),
    }
    assert_eq!(s.job_count(), 0);
}

#[test]
fn blanks_filled_from_config() {
    let mut c = config_with(1);
    c.advanced.extra_args = vec!["-q".to_string()];
    c.advanced.cookie_file = Some("cookies.txt".to_string());
    let s = DownloaderService::new(c);
    let r = s.prepare(request("https://example.com/v")).unwrap();
    assert_eq!(r.output_dir, "/downloads");
    assert_eq!(r.extra_args, vec!["-q".to_string()]);
    assert_eq!(r.cookie_file, Some("cookies.txt".to_string()));
    let mut own = DownloadRequest::new("https://example.com/v".to_string(), "/mine".to_string(), AudioFormat::Mp3);
    own.extra_args = vec!["-v".to_string()];
    let r2 = s.resolve_request(own, true).unwrap();
    assert_eq!(r2.output_dir, "/mine");
    assert_eq!(r2.extra_args, vec!["-v".to_string()]);
    assert_eq!(r2.format, AudioFormat::Mp3);
    assert!(s.resolve_request(request("https://example.com/v"), false).is_err());
}

#[test]
fn capacity_zero_runs_one() {
    let mut s = DownloaderService::new(config_with(0));
    assert_eq!(s.capacity(), 1);
    enqueue(&mut s, "https://example.com/1", 1);
    enqueue(&mut s, "https://example.com/2", 2);
    assert_eq!(running(&s), 1);
}

#[test]
fn job_state_shows_latest() {
    let mut s = DownloaderService::new(config_with(1));
    let (j, _) = enqueue(&mut s, "https://example.com/1", 77);
    s.observe_line(j, "[download] 10.0% of 1.00KiB");
    s.observe_line(j, "[download] 20.0% of 1.00KiB");
    let st = s.job_state(j);
    assert_eq!(st.id, 77);
    assert_eq!(st.url, "https://example.com/1");
    assert_eq!(st.status, JobStatus::Running);
    assert_eq!(st.progress.unwrap().percent_hundredths, Some(2000));
}
