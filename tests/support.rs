use space_downloader_core::display::{build_download_request, format_eta};
use space_downloader_core::sidecar::latest_sidecar;
use space_downloader_core::config::{
    default_download_dir, default_language, AdvancedSettings, Config, GeneralSettings, LogLevel,
    LogSettings, ThemePreference,
};
use space_downloader_core::dependency::{
    check_from_output, dependencies_dir_for, get_ytdlp_download_url, parse_version, version_from_trimmed,
    ytdlp_path_for, DependencyCheck, DependencyStatus,
};
use space_downloader_core::history::HistoryRepository;
use space_downloader_core::logging::LogManagerBuilder;
use space_downloader_core::paths::config_path_for;
use space_downloader_core::sidecar::{is_info_json, media_path_for, read_sidecar};
use space_downloader_core::job::error_code_for;
use space_downloader_core::job::JobStatus;

#[test]
fn sidecar_fields() {
    let f = read_sidecar(r#"{"title": "Song", "uploader": "Band", "ext": "opus", "n": 3}"#).unwrap();
    assert_eq!(f.title, Some("Song".to_string()));
    assert_eq!(f.uploader, Some("Band".to_string()));
    assert_eq!(f.ext, Some("opus".to_string()));
    let g = read_sidecar(r#"{"title": 5}"#).unwrap();
    assert_eq!(g.title, None);
    assert_eq!(g.ext, None);
    assert!(read_sidecar("not json").is_none());
}

#[test]
fn sidecar_names_and_media_path() {
    assert!(is_info_json("Song.info.json"));
    assert!(!is_info_json("Song.json"));
    assert!(!is_info_json("info.json"));
    assert_eq!(media_path_for("/d", "Song.info.json", Some("opus")), "/d/Song.opus");
    assert_eq!(media_path_for("/d/", "Song.info.json", None), "/d/Song.m4a");
}

#[test]
fn version_is_first_line() {
    assert_eq!(parse_version("2024.01.01\nmore"), Some("2024.01.01".to_string()));
    assert_eq!(parse_version("v1\r\nv2"), Some("v1".to_string()));
    assert_eq!(parse_version("only"), Some("only".to_string()));
    assert_eq!(parse_version(""), None);
    assert_eq!(parse_version("\nsecond"), Some(String::new()));
}

#[test]
fn dependency_findings() {
    let m = DependencyCheck::missing("ffmpeg", Some("command not found".to_string()));
    assert!(!m.available);
    assert_eq!(m.binary, "ffmpeg");
    let ok = check_from_output("yt-dlp", "/bin/yt-dlp".to_string(), true, "  2024.05.27\n", "");
    assert!(ok.available);
    assert_eq!(ok.version, Some("2024.05.27".to_string()));
    let err_out = check_from_output("ffmpeg", "/bin/ffmpeg".to_string(), true, "   ", " ffmpeg version 6\nbuilt ");
    assert_eq!(err_out.version, Some("ffmpeg version 6".to_string()));
    let bad = check_from_output("x", "/x".to_string(), false, "", "boom");
    assert!(!bad.available);
    assert_eq!(bad.error, Some("boom".to_string()));
    let status = DependencyStatus { yt_dlp: ok.clone(), ffmpeg: m };
    assert!(!status.all_available());
    let status = DependencyStatus { yt_dlp: ok.clone(), ffmpeg: ok };
    assert!(status.all_available());
}

#[test]
fn log_builder() {
    let b = LogManagerBuilder::new("logs".to_string());
    assert_eq!(b.level, LogLevel::Info);
    let b = b.with_settings(&LogSettings { enabled: false, level: LogLevel::Debug });
    assert_eq!(b.level, LogLevel::Debug);
    assert!(!b.enable_file);
    let b = b.level(LogLevel::Warn).log_dir("/var/log/x".to_string()).enable_file(true).enable_stdout(false);
    assert_eq!(b.level, LogLevel::Warn);
    assert_eq!(b.log_dir, "/var/log/x");
    assert!(b.enable_file);
    assert!(!b.enable_stdout);
    assert_eq!(LogLevel::Error.as_str(), "error");
}

#[test]
fn config_defaults_and_merges() {
    let mut c = Config::with_general(GeneralSettings::new("/d".to_string(), "en-US".to_string()));
    assert_eq!(c.download.concurrency, 1);
    assert_eq!(c.download.max_retries, 3);
    assert_eq!(c.advanced.extra_args.len(), 0);
    assert_eq!(c.advanced.yt_dlp_path, "yt-dlp");
    assert_eq!(c.general.theme, ThemePreference::System);
    let mut a = AdvancedSettings::default();
    a.save_logs = false;
    c.merge_advanced(a);
    assert!(!c.advanced.save_logs);
    c.merge_logging(LogSettings { enabled: false, level: LogLevel::Warn });
    assert_eq!(c.logging.level, LogLevel::Warn);
    c.merge_general(GeneralSettings::new("/e".to_string(), "ja-JP".to_string()));
    assert_eq!(c.general.output_dir, "/e");
    let mut d = c.download;
    d.concurrency = 3;
    c.merge_download(d);
    assert_eq!(c.download.concurrency, 3);
    assert_eq!(ThemePreference::Dark.label(), "Dark");
}

#[test]
fn environment_defaults() {
    assert_eq!(default_language(Some("ja_JP.UTF-8")), "ja-JP");
    assert_eq!(default_language(Some("en_US.UTF-8")), "en-US");
    assert_eq!(default_language(None), "en-US");
    assert_eq!(default_download_dir(Some("/home/u/Downloads".to_string())), "/home/u/Downloads");
    assert_eq!(default_download_dir(None), ".");
    assert_eq!(config_path_for(Some("/cfg")), "/cfg/space_downloader.toml");
    assert_eq!(config_path_for(None), "space_downloader.toml");
}

#[test]
fn history_location_and_codes() {
    assert_eq!(HistoryRepository::at(None).path(), "history/history.db");
    assert_eq!(HistoryRepository::at(Some("/h.db".to_string())).path(), "/h.db");
    assert_eq!(error_code_for(JobStatus::Failed), Some("Failed".to_string()));
    assert_eq!(error_code_for(JobStatus::Canceled), Some("Canceled".to_string()));
    assert_eq!(error_code_for(JobStatus::Succeeded), None);
}

#[test]
fn eta_display() {
    assert_eq!(format_eta(0), "0s");
    assert_eq!(format_eta(59), "59s");
    assert_eq!(format_eta(60), "1m 00s");
    assert_eq!(format_eta(125), "2m 05s");
    assert_eq!(format_eta(3723), "62m 03s");
}

#[test]
fn request_from_config() {
    let mut c = Config::with_general(GeneralSettings::new("/d".to_string(), "en-US".to_string()));
    c.advanced.extra_args = vec!["-x".to_string()];
    c.advanced.cookie_file = Some("k".to_string());
    let r = build_download_request(&c, "https://e.com".to_string());
    assert_eq!(r.url, "https://e.com");
    assert_eq!(r.output_dir, "/d");
    assert_eq!(r.extra_args, vec!["-x".to_string()]);
    assert_eq!(r.cookie_file, Some("k".to_string()));
}

#[test]
fn newest_sidecar_is_picked() {
    let names: Vec<String> = ["a.info.json", "b.m4a", "c.info.json", "d.info.json", "e.webm"]
        .iter()
        .map(|s| s.to_string())
        .collect();
    let times = vec![5, 99, 9, 9, 100];
    assert_eq!(latest_sidecar(&names, &times), Some(2));
    let none: Vec<String> = vec!["x.m4a".to_string()];
    assert_eq!(latest_sidecar(&none, &vec![1]), None);
    assert_eq!(latest_sidecar(&Vec::new(), &Vec::new()), None);
}

#[test]
fn dependency_locations() {
    assert_eq!(dependencies_dir_for(Some("/home/u/.local/share/sd")), Some("/home/u/.local/share/sd/bin".to_string()));
    assert_eq!(dependencies_dir_for(None), None);
    assert_eq!(ytdlp_path_for(Some("/d/bin")), Some("/d/bin/yt-dlp".to_string()));
    assert_eq!(ytdlp_path_for(None), None);
}

#[test]
fn download_urls() {
    assert_eq!(
        get_ytdlp_download_url("linux", "x86_64"),
        Some("https://github.com/yt-dlp/yt-dlp/releases/latest/download/yt-dlp_linux")
    );
    assert_eq!(
        get_ytdlp_download_url("macos", "aarch64"),
        Some("https://github.com/yt-dlp/yt-dlp/releases/latest/download/yt-dlp")
    );
    assert_eq!(
        get_ytdlp_download_url("windows", "x86_64"),
        Some("https://github.com/yt-dlp/yt-dlp/releases/latest/download/yt-dlp.exe")
    );
    assert_eq!(get_ytdlp_download_url("freebsd", "x86_64"), None);
}

#[test]
fn version_from_trimmed_output() {
    assert_eq!(version_from_trimmed("", "v2\nx"), Some("v2".to_string()));
    assert_eq!(version_from_trimmed("v1", "v2"), Some("v1".to_string()));
    assert_eq!(version_from_trimmed("", ""), None);
}
