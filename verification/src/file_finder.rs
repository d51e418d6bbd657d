//! The files that a run looks at, as the caller hands them over.

use vstd::prelude::*;

verus! {

/// One file to scan: where it lies and what it holds.
#[derive(Debug, PartialEq, Eq)]
pub struct FileInfo {
    /// The path of the file, as it will be reported and written back to.
    pub full_path: String,
    /// The whole text of the file.
    pub content: String,
}

/// What a [`FileInfo`] stands for.
pub struct FileInfoView {
    pub full_path: Seq<char>,
    pub content: Seq<char>,
}

impl View for FileInfo {
    type V = FileInfoView;

    open spec fn view(&self) -> FileInfoView {
        FileInfoView { full_path: self.full_path@, content: self.content@ }
    }
}

impl Clone for FileInfo {
    /// A second `FileInfo` that equals this one.
    fn clone(&self) -> (copy: FileInfo)
        ensures
            copy == *self,
    {
        FileInfo { full_path: self.full_path.clone(), content: self.content.clone() }
    }
}


} // verus!
