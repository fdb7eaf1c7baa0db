//! Where the application keeps its files.

use vstd::prelude::*;
use crate::command::{join_path, join_path_str};
use crate::config::CONFIG_RELATIVE_PATH;
use crate::text::owned;

verus! {

/// Relies on `directories::ProjectDirs::from` and `ProjectDirs::data_dir`:
/// the per-user data directory of the application, where the platform has
/// one. It depends on the user's environment, so nothing is promised of it.
#[verifier::external_body]
pub(crate) fn project_data_dir(qualifier: &str, organization: &str, application: &str) -> (r: Option<String>) {
    directories::ProjectDirs::from(qualifier, organization, application).map(
        |d| d.data_dir().to_string_lossy().into_owned(),
    )
}

/// Relies on `directories::ProjectDirs::from` and `ProjectDirs::config_dir`:
/// the per-user configuration directory of the application, where the
/// platform has one. It depends on the user's environment.
#[verifier::external_body]
pub(crate) fn project_config_dir(qualifier: &str, organization: &str, application: &str) -> (r: Option<String>) {
    directories::ProjectDirs::from(qualifier, organization, application).map(
        |d| d.config_dir().to_string_lossy().into_owned(),
    )
}

/// The configuration file inside configuration directory `dir`, or the
/// bare file name where there is no such directory.
pub open spec fn config_path_in(dir: Option<Seq<char>>) -> Seq<char> {
    match dir {
        Some(d) => join_path(d, "space_downloader.toml"@),
        None => "space_downloader.toml"@,
    }
}

/// Path of the configuration file inside an optional configuration
/// directory.
pub fn config_path_for(dir: Option<&str>) -> (r: String)
    ensures
        r@ == config_path_in(
            match dir {
                Some(d) => Some(d@),
                None => None,
            },
        ),
{
    proof {
        reveal_strlit("space_downloader.toml");
    }
    match dir {
        Some(d) => join_path_str(d, "space_downloader.toml"),
        None => owned(CONFIG_RELATIVE_PATH),
    }
}

/// Path of the configuration file in the user's configuration directory.
pub fn default_config_path() -> (r: String)
    ensures
        exists|d: Option<Seq<char>>| r@ == config_path_in(d),
{
    let dir = project_config_dir("", "", "space-downloader");
    match dir {
        Some(d) => {
            let r = config_path_for(Some(d.as_str()));
            assert(r@ == config_path_in(Some(d@)));
            r
        },
        None => {
            let r = config_path_for(None);
            assert(r@ == config_path_in(None));
            r
        },
    }
}

/// `name` inside data directory `dir`, or `fallback` where there is none.
pub open spec fn data_path_in(dir: Option<Seq<char>>, name: Seq<char>, fallback: Seq<char>) -> Seq<char> {
    match dir {
        Some(d) => join_path(d, name),
        None => fallback,
    }
}

/// Directory of the log files: `logs` in the user's data directory, or
/// `logs` in the working directory where there is none.
pub fn default_log_dir() -> (r: String)
    ensures
        exists|d: Option<Seq<char>>| r@ == data_path_in(d, "logs"@, "logs"@),
{
    match project_data_dir("", "", "space-downloader") {
        Some(d) => {
            let r = join_path_str(d.as_str(), "logs");
            assert(r@ == data_path_in(Some(d@), "logs"@, "logs"@));
            r
        },
        None => {
            let r = owned("logs");
            assert(r@ == data_path_in(None, "logs"@, "logs"@));
            r
        },
    }
}

} // verus!
