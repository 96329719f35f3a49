use vstd::prelude::*;

use crate::tags::Tag;

verus! {

/// What can go wrong while tags, saves and messages are handled.
#[derive(Debug)]
pub enum Error {
    /// An object carries more than one valid tag of one namespace.
    AmbiguousTag { guid: String, tags: Vec<Tag> },
    /// More than one file could serve as the save-wide script or UI.
    AmbiguousGlobal { paths: Vec<String> },
    /// No object of the save has this identifier.
    UnknownObject { guid: String },
    /// The contents of a file that a tag points at were not supplied.
    MissingFile { path: String },
    /// A path given for a tag is not relative to the working directory.
    NotRelative { path: String },
    /// A path given for a tag names neither a script nor a UI file.
    UnsupportedFile { path: String },
    /// A tag follows neither naming convention.
    InvalidTag { tag: String },
}

} // verus!
