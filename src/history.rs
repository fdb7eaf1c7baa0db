//! The history store's location. The store itself is a database that the
//! application opens; the job engine hands it its writes as actions.

use vstd::prelude::*;
use crate::text::owned;

verus! {

/// Where the history database lives when no path is given.
pub const DEFAULT_DB_PATH: &'static str = "history/history.db";

/// The history database, by its path.
#[derive(Debug, Clone)]
pub struct HistoryRepository {
    path: String,
}

impl HistoryRepository {
    pub closed spec fn path_view(&self) -> Seq<char> {
        self.path@
    }

    /// The repository at `path`, or at the default path.
    pub fn at(path: Option<String>) -> (r: Self)
        ensures
            path is Some ==> r.path_view() == path->Some_0@,
            path is None ==> r.path_view() == "history/history.db"@,
    {
        match path {
            Some(p) => HistoryRepository { path: p },
            None => HistoryRepository { path: owned(DEFAULT_DB_PATH) },
        }
    }

    pub fn path(&self) -> (r: &String)
        ensures
            r@ == self.path_view(),
    {
        &self.path
    }
}

} // verus!
