//! The values that a walk surfaces.

use vstd::prelude::*;

verus! {

/// What kind of file system object an entry is.
#[derive(Debug, Clone, Copy, PartialEq, Eq, Structural)]
pub enum FileKind {
    File,
    Dir,
    Symlink,
}

/// One file system object met during a walk: an immutable snapshot of its
/// raw name bytes, its path bytes as the walk was started, and its kind
/// (`None` when the kind could not be determined).
#[derive(Debug, Clone, PartialEq, Eq)]
pub struct Entry {
    pub name: Vec<u8>,
    pub path: Vec<u8>,
    pub kind: Option<FileKind>,
}

impl Entry {
    /// An entry with the given name, path and kind.
    pub fn new(name: Vec<u8>, path: Vec<u8>, kind: Option<FileKind>) -> (r: Entry)
        ensures
            r.name@ == name@,
            r.path@ == path@,
            r.kind == kind,
    {
        Entry { name, path, kind }
    }
}

} // verus!
