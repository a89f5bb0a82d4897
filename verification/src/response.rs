//! The output boundary: a flat list of rendered files.

use vstd::prelude::*;

verus! {

/// One generated file.
pub struct File {
    pub path: String,
    pub content: String,
}

/// The whole result of a successful build.
pub struct Response {
    pub files: Vec<File>,
}

impl Clone for File {
    fn clone(&self) -> (r: Self)
        ensures
            r.path@ == self.path@,
            r.content@ == self.content@,
    {
        File { path: self.path.clone(), content: self.content.clone() }
    }
}

} // verus!
