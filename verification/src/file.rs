//! A source file as the diagnostics and the listing see it.

use vstd::prelude::*;

verus! {

/// The path and the contents of a source file.
#[derive(Debug, Clone, Copy)]
pub struct FileRef<'a> {
    pub path: &'a str,
    pub str: &'a str,
}

impl<'a> FileRef<'a> {
    /// The file at `path` whose contents are `str`.
    pub fn new(path: &'a str, str: &'a str) -> (res: Self)
        ensures
            res.path == path,
            res.str == str,
    {
        Self { path, str }
    }
}

} // verus!
