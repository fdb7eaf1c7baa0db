//! The metadata sidecar that the extraction tool writes beside each file:
//! a JSON document named `<base>.info.json` with `title`, `uploader` and
//! `ext` fields, any of which may be missing.

use vstd::prelude::*;
use crate::command::join_path;
use crate::command::join_path_str;
use crate::text::{append_str, owned};

verus! {

pub open spec fn info_suffix() -> Seq<char> {
    ".info.json"@
}

/// Whether a file name names a metadata sidecar.
pub open spec fn is_info_name(name: Seq<char>) -> bool {
    name.len() >= info_suffix().len() && name.skip(name.len() - info_suffix().len()) == info_suffix()
}

/// Whether a file name ends in `.info.json`.
pub fn is_info_json(name: &str) -> (r: bool)
    ensures
        r == is_info_name(name@),
{
    let suffix = ".info.json";
    let n = name.unicode_len();
    let m = suffix.unicode_len();
    if n < m {
        return false;
    }
    let mut i: usize = 0;
    while i < m
        invariant
            n == name@.len(),
            m == suffix@.len(),
            suffix@ == info_suffix(),
            m <= n,
            i <= m,
            forall|j: int| 0 <= j < i ==> name@[n - m + j] == suffix@[j],
        decreases m - i,
    {
        if name.get_char(n - m + i) != suffix.get_char(i) {
            assert(name@.skip(n - m)[i as int] != suffix@[i as int]);
            return false;
        }
        i = i + 1;
    }
    assert(name@.skip(n - m) =~= suffix@);
    true
}

/// Whether `serde_json` reads a text as a JSON document.
pub uninterp spec fn json_parses(text: Seq<char>) -> bool;

/// The string stored under `key` at the top of a JSON document, if the
/// document parses, holds that key and its value is a string.
pub uninterp spec fn json_string_field(text: Seq<char>, key: Seq<char>) -> Option<Seq<char>>;

/// Relies on `serde_json::from_str::<serde_json::Value>`: whether the text
/// is a JSON document; the answer depends on the text alone.
#[verifier::external_body]
fn json_ok(text: &str) -> (r: bool)
    ensures
        r == json_parses(text@),
{
    serde_json::from_str::<serde_json::Value>(text).is_ok()
}

/// Relies on `serde_json::from_str::<serde_json::Value>`, `Value::get` and
/// `Value::as_str`: the string under `key`, which depends on the text and
/// the key alone; none where the text does not parse.
#[verifier::external_body]
fn json_field(text: &str, key: &str) -> (r: Option<String>)
    ensures
        r is Some <==> json_string_field(text@, key@) is Some,
        r is Some ==> r->Some_0@ == json_string_field(text@, key@)->Some_0,
        !json_parses(text@) ==> r is None,
{
    let value = serde_json::from_str::<serde_json::Value>(text).ok()?;
    value.get(key).and_then(|v| v.as_str()).map(|s| s.to_string())
}

/// The fields of a sidecar document.
#[derive(Debug, Clone)]
pub struct SidecarFields {
    pub title: Option<String>,
    pub uploader: Option<String>,
    pub ext: Option<String>,
}

pub open spec fn opt_chars(o: Option<String>) -> Option<Seq<char>> {
    match o {
        Some(s) => Some(s@),
        None => None,
    }
}

/// Reads the title, uploader and extension of a sidecar; `None` where the
/// text is not JSON.
pub fn read_sidecar(text: &str) -> (r: Option<SidecarFields>)
    ensures
        r is Some <==> json_parses(text@),
        r is Some ==> opt_chars(r->Some_0.title) == json_string_field(text@, "title"@)
            && opt_chars(r->Some_0.uploader) == json_string_field(text@, "uploader"@)
            && opt_chars(r->Some_0.ext) == json_string_field(text@, "ext"@),
{
    if !json_ok(text) {
        return None;
    }
    Some(SidecarFields {
        title: json_field(text, "title"),
        uploader: json_field(text, "uploader"),
        ext: json_field(text, "ext"),
    })
}

/// The media file that sidecar `info_name` in `dir` describes: the
/// sidecar's base name with the extension it records, `m4a` where it
/// records none.
pub open spec fn media_path(dir: Seq<char>, info_name: Seq<char>, ext: Option<Seq<char>>) -> Seq<char> {
    let base = info_name.take(info_name.len() - info_suffix().len());
    let e = match ext {
        Some(x) => x,
        None => "m4a"@,
    };
    join_path(dir, base + "."@ + e)
}

/// The media file that a sidecar describes.
pub fn media_path_for(dir: &str, info_name: &str, ext: Option<&str>) -> (r: String)
    requires
        is_info_name(info_name@),
    ensures
        r@ == media_path(
            dir@,
            info_name@,
            match ext {
                Some(x) => Some(x@),
                None => None,
            },
        ),
{
    proof {
        reveal_strlit(".info.json");
    }
    let n = info_name.unicode_len();
    let base = info_name.substring_char(0, n - 10);
    let mut name = owned(base);
    append_str(&mut name, ".");
    match ext {
        Some(x) => append_str(&mut name, x),
        None => append_str(&mut name, "m4a"),
    }
    join_path_str(dir, name.as_str())
}

/// Index of the newest sidecar among directory entries given by name and
/// modification time: the entry named `*.info.json` with the latest time,
/// the first listed among equals.
pub open spec fn is_latest_sidecar(names: Seq<String>, times: Seq<u64>, k: int) -> bool {
    &&& 0 <= k < names.len()
    &&& is_info_name(names[k]@)
    &&& forall|j: int| 0 <= j < names.len() && is_info_name(#[trigger] names[j]@) ==> times[j] <= times[k]
    &&& forall|j: int| 0 <= j < k && is_info_name(#[trigger] names[j]@) ==> times[j] < times[k]
}

/// Picks the newest sidecar of a directory listing; `None` where it holds
/// none.
pub fn latest_sidecar(names: &Vec<String>, times: &Vec<u64>) -> (r: Option<usize>)
    requires
        names@.len() == times@.len(),
    ensures
        r is Some ==> is_latest_sidecar(names@, times@, r->Some_0 as int),
        r is None ==> forall|j: int| 0 <= j < names@.len() ==> !is_info_name(#[trigger] names@[j]@),
{
    let mut best: Option<usize> = None;
    let mut i: usize = 0;
    while i < names.len()
        invariant
            names@.len() == times@.len(),
            i <= names@.len(),
            best is None ==> forall|j: int| 0 <= j < i ==> !is_info_name(#[trigger] names@[j]@),
            best is Some ==> {
                let k = best->Some_0 as int;
                &&& k < i
                &&& is_info_name(names@[k]@)
                &&& forall|j: int| 0 <= j < i && is_info_name(#[trigger] names@[j]@) ==> times@[j] <= times@[k]
                &&& forall|j: int| 0 <= j < k && is_info_name(#[trigger] names@[j]@) ==> times@[j] < times@[k]
            },
        decreases names@.len() - i,
    {
        if is_info_json(names[i].as_str()) {
            match best {
                Some(k) => {
                    if times[i] > times[k] {
                        best = Some(i);
                    }
                },
                None => {
                    best = Some(i);
                },
            }
        }
        i = i + 1;
    }
    best
}

} // verus!
