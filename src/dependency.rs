//! The outside programs the downloader needs, and what a check of each
//! found.

use vstd::prelude::*;
use crate::command::{join_path, join_path_str};
use crate::paths::project_data_dir;
use crate::progress::is_white;
use crate::text::owned;

verus! {

/// What a check of one program found.
#[derive(Debug, Clone)]
pub struct DependencyCheck {
    pub binary: String,
    pub available: bool,
    pub version: Option<String>,
    pub path: Option<String>,
    pub error: Option<String>,
}

impl DependencyCheck {
    /// The finding for a program that is not there.
    pub fn missing(binary: &str, error: Option<String>) -> (r: Self)
        ensures
            r.binary@ == binary@,
            !r.available,
            r.version is None,
            r.path is None,
            r.error == error,
    {
        DependencyCheck { binary: owned(binary), available: false, version: None, path: None, error }
    }
}

/// What the checks of both programs found.
#[derive(Debug, Clone)]
pub struct DependencyStatus {
    pub yt_dlp: DependencyCheck,
    pub ffmpeg: DependencyCheck,
}

impl DependencyStatus {
    pub fn all_available(&self) -> (r: bool)
        ensures
            r == (self.yt_dlp.available && self.ffmpeg.available),
    {
        self.yt_dlp.available && self.ffmpeg.available
    }
}

/// The first line of a text: up to its first line feed, without a carriage
/// return just before it.
pub open spec fn first_line(t: Seq<char>) -> Seq<char> {
    if exists|k: int| 0 <= k < t.len() && t[k] == '\n' {
        let k = choose|k: int| 0 <= k < t.len() && t[k] == '\n' && forall|j: int| 0 <= j < k ==> t[j] != '\n';
        if k > 0 && t[k - 1] == '\r' {
            t.take(k - 1)
        } else {
            t.take(k)
        }
    } else {
        t
    }
}

/// The version a program printed: its first line; none for empty output.
pub fn parse_version(text: &str) -> (r: Option<String>)
    ensures
        text@.len() == 0 ==> r is None,
        text@.len() > 0 ==> r is Some && r->Some_0@ == first_line(text@),
{
    let n = text.unicode_len();
    if n == 0 {
        return None;
    }
    let mut k: usize = 0;
    while k < n && text.get_char(k) != '\n'
        invariant
            n == text@.len(),
            k <= n,
            forall|j: int| 0 <= j < k ==> text@[j] != '\n',
        decreases n - k,
    {
        k = k + 1;
    }
    let mut end = k;
    if k < n && k > 0 && text.get_char(k - 1) == '\r' {
        end = k - 1;
    }
    let line = text.substring_char(0, end);
    proof {
        if k < n {
            let c = choose|c: int| 0 <= c < text@.len() && text@[c] == '\n' && forall|j: int|
                0 <= j < c ==> text@[j] != '\n';
            if c < k {
            } else if c > k {
                assert(text@[k as int] == '\n');
            }
            assert(c == k);
        } else {
            assert(text@.take(n as int) =~= text@);
        }
    }
    Some(owned(line))
}

/// Number of white-space characters that open `s`.
pub open spec fn lead_white(s: Seq<char>) -> nat
    decreases s.len(),
{
    if s.len() > 0 && is_white(s[0]) {
        1 + lead_white(s.drop_first())
    } else {
        0
    }
}

/// Number of white-space characters that close `s`.
pub open spec fn trail_white(s: Seq<char>) -> nat
    decreases s.len(),
{
    if s.len() > 0 && is_white(s.last()) {
        1 + trail_white(s.drop_last())
    } else {
        0
    }
}

/// `s` without its leading and trailing white space.
pub open spec fn trim_of(s: Seq<char>) -> Seq<char> {
    if lead_white(s) == s.len() {
        Seq::empty()
    } else {
        s.subrange(lead_white(s) as int, s.len() - trail_white(s))
    }
}

/// Relies on `str::trim`: the text without its leading and trailing
/// characters of the Unicode `White_Space` property.
#[verifier::external_body]
fn trimmed(s: &str) -> (r: String)
    ensures
        r@ == trim_of(s@),
{
    s.trim().to_string()
}

/// The version shown by a program's trimmed output: the first line of its
/// standard output, or of its error output where the former is empty.
pub open spec fn version_shown(out: Seq<char>, err: Seq<char>) -> Option<Seq<char>> {
    let v = if out.len() == 0 {
        err
    } else {
        out
    };
    if v.len() == 0 {
        None
    } else {
        Some(first_line(v))
    }
}

/// The version shown by a program's already trimmed output.
pub fn version_from_trimmed(out: &str, err: &str) -> (r: Option<String>)
    ensures
        r is Some <==> version_shown(out@, err@) is Some,
        r is Some ==> r->Some_0@ == version_shown(out@, err@)->Some_0,
{
    if out.unicode_len() == 0 {
        parse_version(err)
    } else {
        parse_version(out)
    }
}

/// The finding for a program that ran: unavailable with its error output
/// where it failed; available otherwise, with the first line of its trimmed
/// standard output (or, where that is empty, of its trimmed error output)
/// as version.
pub fn check_from_output(binary: &str, path: String, success: bool, stdout: &str, stderr: &str) -> (r: DependencyCheck)
    ensures
        r.binary@ == binary@,
        r.path == Some(path),
        r.available == success,
        !success ==> r.version is None && r.error is Some && r.error->Some_0@ == stderr@,
        success ==> r.error is None && (r.version is Some <==> version_shown(
            trim_of(stdout@),
            trim_of(stderr@),
        ) is Some) && (r.version is Some ==> r.version->Some_0@ == version_shown(
            trim_of(stdout@),
            trim_of(stderr@),
        )->Some_0),
{
    if !success {
        return DependencyCheck {
            binary: owned(binary),
            available: false,
            version: None,
            path: Some(path),
            error: Some(owned(stderr)),
        };
    }
    let out = trimmed(stdout);
    let err = trimmed(stderr);
    DependencyCheck {
        binary: owned(binary),
        available: true,
        version: version_from_trimmed(out.as_str(), err.as_str()),
        path: Some(path),
        error: None,
    }
}

pub open spec fn opt_str_view(o: Option<String>) -> Option<Seq<char>> {
    match o {
        Some(s) => Some(s@),
        None => None,
    }
}

/// The dependencies directory for an optional data directory: its `bin`.
pub open spec fn dependencies_dir_in(data: Option<Seq<char>>) -> Option<Seq<char>> {
    match data {
        Some(d) => Some(join_path(d, "bin"@)),
        None => None,
    }
}

/// The path of a downloaded `yt-dlp` for an optional dependencies directory.
pub open spec fn ytdlp_path_in(deps: Option<Seq<char>>) -> Option<Seq<char>> {
    match deps {
        Some(d) => Some(join_path(d, "yt-dlp"@)),
        None => None,
    }
}

/// The dependencies directory inside data directory `data`, if there is one.
pub fn dependencies_dir_for(data: Option<&str>) -> (r: Option<String>)
    ensures
        opt_str_view(r) == dependencies_dir_in(
            match data {
                Some(d) => Some(d@),
                None => None,
            },
        ),
{
    match data {
        Some(d) => Some(join_path_str(d, "bin")),
        None => None,
    }
}

/// Where a downloaded `yt-dlp` lies in dependencies directory `deps`, if
/// there is one.
pub fn ytdlp_path_for(deps: Option<&str>) -> (r: Option<String>)
    ensures
        opt_str_view(r) == ytdlp_path_in(
            match deps {
                Some(d) => Some(d@),
                None => None,
            },
        ),
{
    match deps {
        Some(d) => Some(join_path_str(d, "yt-dlp")),
        None => None,
    }
}

/// Where downloaded programs are kept: `bin` in the user's data directory,
/// none where the platform gives no such directory.
pub fn get_dependencies_dir() -> (r: Option<String>)
    ensures
        exists|data: Option<Seq<char>>| opt_str_view(r) == dependencies_dir_in(data),
{
    let data = project_data_dir("com", "space-downloader", "space-downloader");
    let ghost dv = opt_str_view(data);
    let r = match &data {
        Some(d) => dependencies_dir_for(Some(d.as_str())),
        None => dependencies_dir_for(None),
    };
    assert(opt_str_view(r) == dependencies_dir_in(dv));
    r
}

/// Where a downloaded `yt-dlp` is kept: in the dependencies directory, none
/// where there is no such directory.
pub fn get_ytdlp_path() -> (r: Option<String>)
    ensures
        exists|data: Option<Seq<char>>| opt_str_view(r) == ytdlp_path_in(dependencies_dir_in(data)),
{
    let deps = get_dependencies_dir();
    let ghost data = choose|data: Option<Seq<char>>| opt_str_view(deps) == dependencies_dir_in(data);
    let r = match &deps {
        Some(d) => ytdlp_path_for(Some(d.as_str())),
        None => ytdlp_path_for(None),
    };
    assert(opt_str_view(r) == ytdlp_path_in(dependencies_dir_in(data)));
    r
}

/// Release asset of `yt-dlp` for an operating system and architecture, as
/// `std::env::consts` names them: the Python script on macOS, the native
/// build on x86-64 and AArch64 Linux and on x86-64 Windows; none elsewhere.
pub open spec fn download_url_for(os: Seq<char>, arch: Seq<char>) -> Option<Seq<char>> {
    if os == "macos"@ {
        Some("https://github.com/yt-dlp/yt-dlp/releases/latest/download/yt-dlp"@)
    } else if os == "linux"@ && arch == "x86_64"@ {
        Some("https://github.com/yt-dlp/yt-dlp/releases/latest/download/yt-dlp_linux"@)
    } else if os == "linux"@ && arch == "aarch64"@ {
        Some("https://github.com/yt-dlp/yt-dlp/releases/latest/download/yt-dlp_linux_aarch64"@)
    } else if os == "windows"@ && arch == "x86_64"@ {
        Some("https://github.com/yt-dlp/yt-dlp/releases/latest/download/yt-dlp.exe"@)
    } else {
        None
    }
}

/// Where to download `yt-dlp` from on the given platform.
pub fn get_ytdlp_download_url(os: &str, arch: &str) -> (r: Option<&'static str>)
    ensures
        r is Some <==> download_url_for(os@, arch@) is Some,
        r is Some ==> r->Some_0@ == download_url_for(os@, arch@)->Some_0,
{
    if crate::config::str_eq(os, "macos") {
        Some("https://github.com/yt-dlp/yt-dlp/releases/latest/download/yt-dlp")
    } else if crate::config::str_eq(os, "linux") && crate::config::str_eq(arch, "x86_64") {
        Some("https://github.com/yt-dlp/yt-dlp/releases/latest/download/yt-dlp_linux")
    } else if crate::config::str_eq(os, "linux") && crate::config::str_eq(arch, "aarch64") {
        Some("https://github.com/yt-dlp/yt-dlp/releases/latest/download/yt-dlp_linux_aarch64")
    } else if crate::config::str_eq(os, "windows") && crate::config::str_eq(arch, "x86_64") {
        Some("https://github.com/yt-dlp/yt-dlp/releases/latest/download/yt-dlp.exe")
    } else {
        None
    }
}

} // verus!
