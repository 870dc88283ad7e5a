//! The entry pending deletion, as the dialog reads it: a name, and for a
//! folder the aggregate count of its descendants. The surrounding
//! application owns the real filesystem tree; it hands the dialog these
//! plain values.

use vstd::prelude::*;

verus! {

/// A leaf entry.
pub struct File {
    pub name: String,
}

/// A directory entry with an aggregate count of descendant entries.
pub struct Folder {
    pub name: String,
    pub num_descendants: u64,
}

/// The entry a confirmation dialog asks about.
pub enum FileOrFolder {
    File(File),
    Folder(Folder),
}

/// The entry's bare name.
pub open spec fn spec_name(e: &FileOrFolder) -> Seq<char> {
    match e {
        FileOrFolder::File(f) => f.name@,
        FileOrFolder::Folder(f) => f.name@,
    }
}

impl FileOrFolder {
    /// The entry's bare name, for either variant.
    pub fn name(&self) -> (r: &String)
        ensures
            r@ == spec_name(self),
    {
        match self {
            FileOrFolder::File(f) => &f.name,
            FileOrFolder::Folder(f) => &f.name,
        }
    }
}

} // verus!
