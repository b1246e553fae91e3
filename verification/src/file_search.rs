//! A file-name search request and its accumulated results.
//!
//! Walking the file system is the caller's business; whether a file name
//! matches is decided by [`crate::text::contains_substring`].

use vstd::prelude::*;

use crate::errors::FileSearchError;

verus! {

/// A search for files whose name holds a fragment, under a start path.
/// Either input may still be unresolved; results are full paths.
#[derive(Debug)]
pub struct FileSearch {
    pub path: Option<String>,
    pub name: Option<String>,
    pub result: Vec<String>,
}

impl FileSearch {
    /// Build a search over an optional start path and name fragment, with
    /// no results yet.
    pub fn new(path: Option<String>, name: Option<String>) -> (r: Result<
        FileSearch,
        FileSearchError,
    >)
        ensures
            r matches Ok(fs) ==> fs.path == path && fs.name == name && fs.result@ == Seq::<
                String,
            >::empty(),
            r is Ok,
    {
        Ok(FileSearch { path, name, result: Vec::new() })
    }
}

} // verus!
