//! The command line handed to the extraction tool.

use vstd::prelude::*;
use crate::config::format_name;
use crate::job::DownloadRequest;
use crate::text::{append_str, owned, push_char};

verus! {

/// `name` placed inside directory `dir`.
pub open spec fn join_path(dir: Seq<char>, name: Seq<char>) -> Seq<char> {
    if dir.len() == 0 {
        name
    } else if dir.last() == '/' {
        dir + name
    } else {
        dir.push('/') + name
    }
}

/// Where the tool writes: `<dir>/<title>.<ext>`, filled in by the tool.
pub open spec fn output_template(dir: Seq<char>) -> Seq<char> {
    join_path(dir, "%(title)s.%(ext)s"@)
}

pub open spec fn string_views(v: Seq<String>) -> Seq<Seq<char>> {
    v.map_values(|a: String| a@)
}

/// Arguments of the tool for a request: audio extraction in the requested
/// format at the best quality, a metadata sidecar, no playlist expansion,
/// one progress report per line, the output template, the cookie file if
/// any, the caller's extra arguments, and the URL last.
pub open spec fn command_args(r: DownloadRequest) -> Seq<Seq<char>> {
    seq![
        "--extract-audio"@,
        "--audio-format"@,
        format_name(r.format),
        "--audio-quality"@,
        "0"@,
        "--write-info-json"@,
        "--no-playlist"@,
        "--progress"@,
        "--newline"@,
        "--output"@,
        output_template(r.output_dir@),
    ] + match r.cookie_file {
        Some(c) => seq!["--cookies"@, c@],
        None => Seq::empty(),
    } + string_views(r.extra_args@) + seq![r.url@]
}

/// Joins a directory and a file name.
pub fn join_path_str(dir: &str, name: &str) -> (r: String)
    ensures
        r@ == join_path(dir@, name@),
{
    let mut s = owned(dir);
    let n = dir.unicode_len();
    if n > 0 && dir.get_char(n - 1) != '/' {
        push_char(&mut s, '/');
    }
    append_str(&mut s, name);
    s
}

/// Pushes an argument.
fn arg(args: &mut Vec<String>, a: &str)
    ensures
        string_views(final(args)@) == string_views(old(args)@).push(a@),
{
    args.push(owned(a));
    assert(string_views(args@) =~= string_views(old(args)@).push(a@));
}

/// The argument list of the tool for a request.
pub fn build_command(request: &DownloadRequest) -> (r: Vec<String>)
    ensures
        string_views(r@) == command_args(*request),
{
    let mut args: Vec<String> = Vec::new();
    arg(&mut args, "--extract-audio");
    arg(&mut args, "--audio-format");
    arg(&mut args, request.format.as_str());
    arg(&mut args, "--audio-quality");
    arg(&mut args, "0");
    arg(&mut args, "--write-info-json");
    arg(&mut args, "--no-playlist");
    arg(&mut args, "--progress");
    arg(&mut args, "--newline");
    arg(&mut args, "--output");
    let template = join_path_str(request.output_dir.as_str(), "%(title)s.%(ext)s");
    arg(&mut args, template.as_str());
    let ghost fixed = string_views(args@);
    match &request.cookie_file {
        Some(c) => {
            arg(&mut args, "--cookies");
            arg(&mut args, c.as_str());
        },
        None => {},
    }
    let ghost with_cookie = string_views(args@);
    let mut i: usize = 0;
    while i < request.extra_args.len()
        invariant
            i <= request.extra_args@.len(),
            string_views(args@) == with_cookie + string_views(
                request.extra_args@.take(i as int),
            ),
        decreases request.extra_args@.len() - i,
    {
        arg(&mut args, request.extra_args[i].as_str());
        assert(string_views(request.extra_args@.take(i + 1 as int)) =~= string_views(
            request.extra_args@.take(i as int),
        ).push(request.extra_args@[i as int]@));
        i = i + 1;
    }
    assert(request.extra_args@.take(request.extra_args@.len() as int) =~= request.extra_args@);
    arg(&mut args, request.url.as_str());
    assert(string_views(args@) =~= command_args(*request));
    args
}

} // verus!
