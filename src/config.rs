//! Settings of the downloader, grouped the way they are stored.
//!
//! Paths are held as strings; the application layer turns them into
//! platform paths when it touches the file system.

use vstd::prelude::*;
use crate::text::{copy_opt_string, copy_string, copy_strings, owned};

verus! {

/// File name of the configuration file inside the configuration directory.
pub const CONFIG_RELATIVE_PATH: &'static str = "space_downloader.toml";

/// Colour scheme of the user interface.
#[derive(Debug, Clone, Copy, PartialEq, Eq, Structural)]
pub enum ThemePreference {
    Light,
    Dark,
    System,
}

impl ThemePreference {
    /// Display label of the theme.
    pub fn label(&self) -> (r: &'static str)
        ensures
            r@ == theme_label(*self),
    {
        match self {
            ThemePreference::Light => "Light",
            ThemePreference::Dark => "Dark",
            ThemePreference::System => "System",
        }
    }
}

pub open spec fn theme_label(t: ThemePreference) -> Seq<char> {
    match t {
        ThemePreference::Light => "Light"@,
        ThemePreference::Dark => "Dark"@,
        ThemePreference::System => "System"@,
    }
}

impl Default for ThemePreference {
    fn default() -> (r: Self)
        ensures
            r == ThemePreference::System,
    {
        ThemePreference::System
    }
}

/// Audio container requested from the extraction tool.
#[derive(Debug, Clone, Copy, PartialEq, Eq, Structural)]
pub enum AudioFormat {
    M4a,
    Mp3,
    Opus,
}

pub open spec fn format_name(f: AudioFormat) -> Seq<char> {
    match f {
        AudioFormat::M4a => "m4a"@,
        AudioFormat::Mp3 => "mp3"@,
        AudioFormat::Opus => "opus"@,
    }
}

/// The format whose lower-case name is `t`, if any.
pub open spec fn format_of_name(t: Seq<char>) -> Option<AudioFormat> {
    if t == "m4a"@ {
        Some(AudioFormat::M4a)
    } else if t == "mp3"@ {
        Some(AudioFormat::Mp3)
    } else if t == "opus"@ {
        Some(AudioFormat::Opus)
    } else {
        None
    }
}

/// What `str::to_lowercase` returns for a string.
pub uninterp spec fn lower_of(s: Seq<char>) -> Seq<char>;

/// Relies on `str::to_lowercase`: the result depends on the characters alone.
#[verifier::external_body]
fn lowercase(s: &str) -> (r: String)
    ensures
        r@ == lower_of(s@),
{
    s.to_lowercase()
}

/// The rejected text of an audio format name, after lower-casing.
#[derive(Debug, Clone)]
pub struct ParseAudioFormatError(pub String);

impl AudioFormat {
    /// Name of the format as the extraction tool spells it.
    pub fn as_str(&self) -> (r: &'static str)
        ensures
            r@ == format_name(*self),
    {
        match self {
            AudioFormat::M4a => "m4a",
            AudioFormat::Mp3 => "mp3",
            AudioFormat::Opus => "opus",
        }
    }

    /// Name of the format as an owned string.
    pub fn to_string(&self) -> (r: String)
        ensures
            r@ == format_name(*self),
    {
        owned(self.as_str())
    }

    /// Reads an already lower-cased format name.
    pub fn from_lowercase(t: &str) -> (r: Result<AudioFormat, ParseAudioFormatError>)
        ensures
            format_of_name(t@) is Some ==> r == Ok::<AudioFormat, ParseAudioFormatError>(
                format_of_name(t@).unwrap(),
            ),
            format_of_name(t@) is None ==> r is Err && r->Err_0.0@ == t@,
    {
        proof {
            reveal_strlit("m4a");
            reveal_strlit("mp3");
            reveal_strlit("opus");
        }
        if str_eq(t, "m4a") {
            Ok(AudioFormat::M4a)
        } else if str_eq(t, "mp3") {
            Ok(AudioFormat::Mp3)
        } else if str_eq(t, "opus") {
            Ok(AudioFormat::Opus)
        } else {
            Err(ParseAudioFormatError(owned(t)))
        }
    }

    /// Reads a format name, ignoring case as `str::to_lowercase` folds it.
    pub fn parse(s: &str) -> (r: Result<AudioFormat, ParseAudioFormatError>)
        ensures
            format_of_name(lower_of(s@)) is Some ==> r == Ok::<AudioFormat, ParseAudioFormatError>(
                format_of_name(lower_of(s@)).unwrap(),
            ),
            format_of_name(lower_of(s@)) is None ==> r is Err && r->Err_0.0@ == lower_of(s@),
    {
        let lower = lowercase(s);
        AudioFormat::from_lowercase(lower.as_str())
    }
}

impl std::str::FromStr for AudioFormat {
    type Err = ParseAudioFormatError;

    fn from_str(s: &str) -> Result<AudioFormat, ParseAudioFormatError> {
        AudioFormat::parse(s)
    }
}

impl Default for AudioFormat {
    fn default() -> (r: Self)
        ensures
            r == AudioFormat::M4a,
    {
        AudioFormat::M4a
    }
}

/// Character-wise equality of two strings.
pub fn str_eq(a: &str, b: &str) -> (r: bool)
    ensures
        r == (a@ == b@),
{
    let n = a.unicode_len();
    if n != b.unicode_len() {
        return false;
    }
    let mut i: usize = 0;
    while i < n
        invariant
            n == a@.len(),
            n == b@.len(),
            i <= n,
            forall|j: int| 0 <= j < i ==> a@[j] == b@[j],
        decreases n - i,
    {
        if a.get_char(i) != b.get_char(i) {
            return false;
        }
        i = i + 1;
    }
    assert(a@ =~= b@);
    true
}

/// Settings shown on the general page.
#[derive(Debug, Clone)]
pub struct GeneralSettings {
    pub output_dir: String,
    pub language: String,
    pub theme: ThemePreference,
}

impl GeneralSettings {
    /// General settings with the given output directory and language and the
    /// system theme.
    pub fn new(output_dir: String, language: String) -> (r: Self)
        ensures
            r.output_dir@ == output_dir@,
            r.language@ == language@,
            r.theme == ThemePreference::System,
    {
        GeneralSettings { output_dir, language, theme: ThemePreference::System }
    }

    /// A field-by-field copy.
    pub fn duplicate(&self) -> (r: Self)
        ensures
            r == *self,
    {
        GeneralSettings {
            output_dir: copy_string(&self.output_dir),
            language: copy_string(&self.language),
            theme: self.theme,
        }
    }
}

/// Language tag chosen from the value of the `LANG` variable, if it is set.
pub open spec fn language_for(lang: Option<Seq<char>>) -> Seq<char> {
    match lang {
        Some(v) => if v.len() >= 2 && v[0] == 'j' && v[1] == 'a' {
            "ja-JP"@
        } else {
            "en-US"@
        },
        None => "en-US"@,
    }
}

/// Default interface language: Japanese where `LANG` starts with `ja`,
/// English otherwise.
pub fn default_language(lang: Option<&str>) -> (r: String)
    ensures
        r@ == language_for(
            match lang {
                Some(v) => Some(v@),
                None => None,
            },
        ),
{
    match lang {
        Some(v) => {
            if v.unicode_len() >= 2 && v.get_char(0) == 'j' && v.get_char(1) == 'a' {
                owned("ja-JP")
            } else {
                owned("en-US")
            }
        },
        None => owned("en-US"),
    }
}

/// Default output directory: the user's `Downloads` folder where it exists,
/// else the current directory.
pub fn default_download_dir(existing_downloads: Option<String>) -> (r: String)
    ensures
        existing_downloads is Some ==> r@ == existing_downloads.unwrap()@,
        existing_downloads is None ==> r@ == "."@,
{
    match existing_downloads {
        Some(d) => d,
        None => owned("."),
    }
}

/// Settings that govern each download.
#[derive(Debug, Clone, Copy, PartialEq, Eq, Structural)]
pub struct DownloadSettings {
    pub format: AudioFormat,
    pub max_retries: u8,
    pub timeout_sec: u64,
    pub concurrency: usize,
}

/// Number of downloads allowed to run at once: the configured value held to
/// the range one to three.
pub open spec fn clamp_concurrency(n: int) -> int {
    if n < 1 {
        1
    } else if n > 3 {
        3
    } else {
        n
    }
}

impl DownloadSettings {
    pub fn effective_concurrency(&self) -> (r: usize)
        ensures
            r == clamp_concurrency(self.concurrency as int),
            1 <= r <= 3,
    {
        if self.concurrency < 1 {
            1
        } else if self.concurrency > 3 {
            3
        } else {
            self.concurrency
        }
    }
}

impl Default for DownloadSettings {
    fn default() -> (r: Self)
        ensures
            r.format == AudioFormat::M4a,
            r.max_retries == 3,
            r.timeout_sec == 0,
            r.concurrency == 1,
    {
        DownloadSettings { format: AudioFormat::M4a, max_retries: 3, timeout_sec: 0, concurrency: 1 }
    }
}

/// Settings for the extraction tool itself.
#[derive(Debug, Clone)]
pub struct AdvancedSettings {
    pub yt_dlp_path: String,
    pub cookie_file: Option<String>,
    pub extra_args: Vec<String>,
    pub save_logs: bool,
}

impl AdvancedSettings {
    /// Equal field by field, the argument list by its elements.
    pub open spec fn same(&self, o: &AdvancedSettings) -> bool {
        &&& self.yt_dlp_path == o.yt_dlp_path
        &&& self.cookie_file == o.cookie_file
        &&& self.extra_args@ == o.extra_args@
        &&& self.save_logs == o.save_logs
    }

    /// A field-by-field copy.
    pub fn duplicate(&self) -> (r: Self)
        ensures
            r.same(self),
    {
        AdvancedSettings {
            yt_dlp_path: copy_string(&self.yt_dlp_path),
            cookie_file: copy_opt_string(&self.cookie_file),
            extra_args: copy_strings(&self.extra_args),
            save_logs: self.save_logs,
        }
    }
}

impl Default for AdvancedSettings {
    fn default() -> (r: Self)
        ensures
            r.yt_dlp_path@ == "yt-dlp"@,
            r.cookie_file is None,
            r.extra_args@.len() == 0,
            r.save_logs,
    {
        AdvancedSettings {
            yt_dlp_path: owned("yt-dlp"),
            cookie_file: None,
            extra_args: Vec::new(),
            save_logs: true,
        }
    }
}

/// Severity threshold of the log.
#[derive(Debug, Clone, Copy, PartialEq, Eq, Structural)]
pub enum LogLevel {
    Error,
    Warn,
    Info,
    Debug,
}

pub open spec fn level_name(l: LogLevel) -> Seq<char> {
    match l {
        LogLevel::Error => "error"@,
        LogLevel::Warn => "warn"@,
        LogLevel::Info => "info"@,
        LogLevel::Debug => "debug"@,
    }
}

impl LogLevel {
    /// Lower-case name of the level.
    pub fn as_str(&self) -> (r: &'static str)
        ensures
            r@ == level_name(*self),
    {
        match self {
            LogLevel::Error => "error",
            LogLevel::Warn => "warn",
            LogLevel::Info => "info",
            LogLevel::Debug => "debug",
        }
    }
}

impl Default for LogLevel {
    fn default() -> (r: Self)
        ensures
            r == LogLevel::Info,
    {
        LogLevel::Info
    }
}

/// Whether and how much to log.
#[derive(Debug, Clone, Copy, PartialEq, Eq, Structural)]
pub struct LogSettings {
    pub enabled: bool,
    pub level: LogLevel,
}

impl Default for LogSettings {
    fn default() -> (r: Self)
        ensures
            r.enabled,
            r.level == LogLevel::Info,
    {
        LogSettings { enabled: true, level: LogLevel::Info }
    }
}

/// The whole configuration, replaced as one value.
#[derive(Debug, Clone)]
pub struct Config {
    pub general: GeneralSettings,
    pub download: DownloadSettings,
    pub advanced: AdvancedSettings,
    pub logging: LogSettings,
}

impl Config {
    /// Equal field by field, the argument list by its elements.
    pub open spec fn same(&self, o: &Config) -> bool {
        &&& self.general == o.general
        &&& self.download == o.download
        &&& self.advanced.same(&o.advanced)
        &&& self.logging == o.logging
    }

    /// The default configuration around the given general settings.
    pub fn with_general(general: GeneralSettings) -> (r: Config)
        ensures
            r.general == general,
            r.download == (DownloadSettings {
                format: AudioFormat::M4a,
                max_retries: 3,
                timeout_sec: 0,
                concurrency: 1,
            }),
            r.advanced.yt_dlp_path@ == "yt-dlp"@,
            r.advanced.cookie_file is None,
            r.advanced.extra_args@.len() == 0,
            r.advanced.save_logs,
            r.logging == (LogSettings { enabled: true, level: LogLevel::Info }),
    {
        Config {
            general,
            download: DownloadSettings::default(),
            advanced: AdvancedSettings::default(),
            logging: LogSettings::default(),
        }
    }

    /// A field-by-field copy.
    pub fn duplicate(&self) -> (r: Self)
        ensures
            r.same(self),
    {
        Config {
            general: self.general.duplicate(),
            download: self.download,
            advanced: self.advanced.duplicate(),
            logging: self.logging,
        }
    }

    pub fn merge_download(&mut self, download: DownloadSettings)
        ensures
            *final(self) == (Config { download, ..*old(self) }),
    {
        self.download = download;
    }

    pub fn merge_general(&mut self, general: GeneralSettings)
        ensures
            *final(self) == (Config { general, ..*old(self) }),
    {
        self.general = general;
    }

    pub fn merge_advanced(&mut self, advanced: AdvancedSettings)
        ensures
            *final(self) == (Config { advanced, ..*old(self) }),
    {
        self.advanced = advanced;
    }

    pub fn merge_logging(&mut self, logging: LogSettings)
        ensures
            *final(self) == (Config { logging, ..*old(self) }),
    {
        self.logging = logging;
    }
}

} // verus!
