use space_downloader_core::config::{AudioFormat, DownloadSettings, ParseAudioFormatError};
use space_downloader_core::job::{error_message, DownloadError, JobStatus};
use space_downloader_core::progress::{
    parse_bytes, parse_destination, parse_progress, parse_speed, ProgressSnapshot,
};
use space_downloader_core::numeral::parse_eta;
use space_downloader_core::command::build_command;
use space_downloader_core::job::DownloadRequest;

#[test]
fn progress_line_fields() {
    let p = parse_progress("[download]  45.2% of 10.00MiB at 1.21MiB/s ETA 00:07").unwrap();
    assert_eq!(p.percent_hundredths, Some(4520));
    assert_eq!(p.total_bytes, Some(10_485_760));
    assert_eq!(p.speed_bytes_per_sec, Some(1_268_776));
    assert_eq!(p.eta_secs, Some(7));
    assert_eq!(p.downloaded_bytes, None);
}

#[test]
fn eta_hours_minutes_seconds() {
    assert_eq!(parse_eta("01:02:03"), Some(3723));
    let p = parse_progress("ETA 01:02:03").unwrap();
    assert_eq!(p.eta_secs, Some(3723));
    assert_eq!(p.percent_hundredths, None);
}

#[test]
fn eta_forms_and_rejections() {
    assert_eq!(parse_eta("07"), Some(7));
    assert_eq!(parse_eta("2:05"), Some(125));
    assert_eq!(parse_eta(""), None);
    assert_eq!(parse_eta(":5"), None);
    assert_eq!(parse_eta("5:"), None);
    assert_eq!(parse_eta("1::2"), None);
    assert_eq!(parse_eta("1a"), None);
    assert_eq!(parse_eta("99999999999999999999"), None);
    assert_eq!(parse_eta("18446744073709551615"), Some(u64::MAX));
}

#[test]
fn progress_line_order_does_not_matter() {
    let p = parse_progress("ETA 00:10 at 2KiB/s 50% of 4KiB").unwrap();
    assert_eq!(p.percent_hundredths, Some(5000));
    assert_eq!(p.total_bytes, Some(4096));
    assert_eq!(p.speed_bytes_per_sec, Some(2048));
    assert_eq!(p.eta_secs, Some(10));
}

#[test]
fn progress_downloaded_amount_without_total() {
    let p = parse_progress("[download]    1.50MiB at  500.00KiB/s (00:00:03)").unwrap();
    assert_eq!(p.downloaded_bytes, Some(1_572_864));
    assert_eq!(p.speed_bytes_per_sec, Some(512_000));
    assert_eq!(p.total_bytes, None);
    assert_eq!(p.eta_secs, None);
}

#[test]
fn non_progress_lines_yield_nothing() {
    assert!(parse_progress("").is_none());
    assert!(parse_progress("[info] Downloading 1 format(s): 140").is_none());
    assert!(parse_progress("Deleting original file x.webm").is_none());
}

#[test]
fn progress_bad_eta_is_absent() {
    let p = parse_progress("[download] 10% ETA 1::2").unwrap();
    assert_eq!(p.percent_hundredths, Some(1000));
    assert_eq!(p.eta_secs, None);
}

#[test]
fn snapshot_default_is_empty() {
    let d = ProgressSnapshot::default();
    assert_eq!(d.percent_hundredths, None);
    assert_eq!(d.eta_secs, None);
}

#[test]
fn bytes_units() {
    assert_eq!(parse_bytes("1.5", Some("KiB")), Some(1536));
    assert_eq!(parse_bytes("1", Some("MiB")), Some(1_048_576));
    assert_eq!(parse_bytes("1", Some("GiB")), Some(1_073_741_824));
    assert_eq!(parse_bytes("1", Some("TiB")), Some(1_099_511_627_776));
    assert_eq!(parse_bytes("2", Some("kb")), Some(2000));
    assert_eq!(parse_bytes("2", Some("KB")), Some(2000));
    assert_eq!(parse_bytes("3", Some("MB")), Some(3_000_000));
    assert_eq!(parse_bytes("3", Some("gB")), Some(3_000_000_000));
    assert_eq!(parse_bytes("7", Some("B")), Some(7));
    assert_eq!(parse_bytes("7", Some("Bytes")), Some(7));
    assert_eq!(parse_bytes("7", None), Some(7));
    assert_eq!(parse_bytes("7", Some("parsecs")), Some(7));
    assert_eq!(parse_bytes("0.999", Some("KiB")), Some(1022));
}

#[test]
fn bytes_rejects_non_numerals_and_saturates() {
    assert_eq!(parse_bytes("x", None), None);
    assert_eq!(parse_bytes("", None), None);
    assert_eq!(parse_bytes(".", None), None);
    assert_eq!(parse_bytes("+", None), None);
    assert_eq!(parse_bytes("1.2.3", None), None);
    assert_eq!(parse_bytes("5..", None), None);
    assert_eq!(parse_bytes("99999999999999999999", Some("TiB")), Some(u64::MAX));
}

#[test]
fn bytes_number_forms() {
    assert_eq!(parse_bytes("1.", Some("KiB")), Some(1024));
    assert_eq!(parse_bytes(".5", Some("KiB")), Some(512));
    assert_eq!(parse_bytes("+5", None), Some(5));
    assert_eq!(parse_bytes("+.25", Some("kB")), Some(250));
    assert_eq!(parse_bytes("-5", Some("MiB")), Some(0));
    assert_eq!(parse_speed(".5", Some("KiB/s")), Some(512));
}

#[test]
fn speed_units() {
    assert_eq!(parse_speed("1.21", Some("MiB/s")), Some(1_268_776));
    assert_eq!(parse_speed("10", Some("KiB/s/s")), Some(10_240));
    assert_eq!(parse_speed("10", None), Some(10));
}

#[test]
fn destination_lines() {
    assert_eq!(
        parse_destination("[download] Destination: /tmp/a b.m4a"),
        Some("/tmp/a b.m4a".to_string())
    );
    assert_eq!(
        parse_destination("[ExtractAudio] Destination:   out/x.mp3"),
        Some("out/x.mp3".to_string())
    );
    assert_eq!(parse_destination("[download] Destination:"), None);
    assert_eq!(parse_destination("[download] Destination:x"), None);
    assert_eq!(parse_destination("[download] Destination: "), None);
    assert_eq!(parse_destination("[download] 10% of 1MiB"), None);
}

#[test]
fn destination_follows_the_pattern() {
    assert_eq!(parse_destination("Destination:  "), Some(" ".to_string()));
    assert_eq!(parse_destination("Destination:   "), Some(" ".to_string()));
    assert_eq!(parse_destination("Destination:x Destination: /a"), Some("/a".to_string()));
    assert_eq!(parse_destination("Destination:\u{a0}/b"), Some("/b".to_string()));
    assert_eq!(parse_destination("Destination:\u{c}/c"), Some("/c".to_string()));
    assert_eq!(parse_destination("Destination: /a\nmore"), Some("/a".to_string()));
    assert_eq!(parse_destination("Destination: \n\nX y"), Some("X y".to_string()));
    assert_eq!(parse_destination("Destination: \n"), None);
    assert_eq!(parse_destination("Destination: a\r"), Some("a\r".to_string()));
}

#[test]
fn job_status_names() {
    assert_eq!(JobStatus::Queued.as_str(), "Queued");
    assert_eq!(JobStatus::Canceled.as_str(), "Canceled");
    assert_eq!(JobStatus::from_str("Succeeded"), JobStatus::Succeeded);
    assert_eq!(JobStatus::from_str("Running"), JobStatus::Running);
    assert_eq!(JobStatus::from_str("bogus"), JobStatus::Failed);
}

#[test]
fn concurrency_is_clamped() {
    let mut d = DownloadSettings::default();
    assert_eq!(d.effective_concurrency(), 1);
    d.concurrency = 0;
    assert_eq!(d.effective_concurrency(), 1);
    d.concurrency = 2;
    assert_eq!(d.effective_concurrency(), 2);
    d.concurrency = 10;
    assert_eq!(d.effective_concurrency(), 3);
}

#[test]
fn audio_format_names() {
    assert_eq!(AudioFormat::parse("MP3").unwrap(), AudioFormat::Mp3);
    assert_eq!(AudioFormat::parse("opus").unwrap(), AudioFormat::Opus);
    let e: ParseAudioFormatError = AudioFormat::parse("FLAC").unwrap_err();
    assert_eq!(e.0, "flac");
    assert_eq!("M4A".parse::<AudioFormat>().unwrap(), AudioFormat::M4a);
    assert_eq!(AudioFormat::Opus.to_string(), "opus");
    assert!(AudioFormat::from_lowercase("MP3").is_err());
}

#[test]
fn error_messages() {
    let e = DownloadError::CommandFailed { status: Some(1), stderr: "a\nb".to_string() };
    assert_eq!(error_message(&e), "command failed (status Some(1)): a\nb");
    let e = DownloadError::CommandFailed { status: Some(-1), stderr: String::new() };
    assert_eq!(error_message(&e), "command failed (status Some(-1)): ");
    let e = DownloadError::CommandFailed { status: None, stderr: "x".to_string() };
    assert_eq!(error_message(&e), "command failed (status None): x");
    assert_eq!(error_message(&DownloadError::Timeout(30)), "download timed out after 30 seconds");
    assert_eq!(error_message(&DownloadError::Canceled), "download canceled");
    assert_eq!(error_message(&DownloadError::InvalidUrl("u".to_string())), "invalid url: u");
    assert_eq!(error_message(&DownloadError::MissingDependency("ffmpeg".to_string())), "missing dependency: ffmpeg");
    assert_eq!(error_message(&DownloadError::Spawn("nope".to_string())), "failed to spawn command: nope");
    assert_eq!(error_message(&DownloadError::Io("disk".to_string())), "io error: disk");
    assert_eq!(error_message(&DownloadError::Join("panic".to_string())), "task join error: panic");
}

#[test]
fn command_line_of_a_request() {
    let mut r = DownloadRequest::new("https://e.com/v".to_string(), "/music".to_string(), AudioFormat::Mp3);
    r.cookie_file = Some("c.txt".to_string());
    r.extra_args = vec!["--limit-rate".to_string(), "1M".to_string()];
    let args = build_command(&r);
    let expected: Vec<String> = [
        "--extract-audio", "--audio-format", "mp3", "--audio-quality", "0", "--write-info-json",
        "--no-playlist", "--progress", "--newline", "--output", "/music/%(title)s.%(ext)s",
        "--cookies", "c.txt", "--limit-rate", "1M", "https://e.com/v",
    ].iter().map(|s| s.to_string()).collect();
    assert_eq!(args, expected);
    let r2 = DownloadRequest::new("u".to_string(), "out/".to_string(), AudioFormat::M4a);
    let args2 = build_command(&r2);
    assert_eq!(args2.len(), 12);
    assert_eq!(args2[10], "out/%(title)s.%(ext)s");
    assert_eq!(args2[11], "u");
}
