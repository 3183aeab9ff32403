//! What backends report about themselves and about their objects.
use crate::date::HttpDate;
use vstd::prelude::*;

verus! {

/// Whether an object is a file or a directory.
#[allow(clippy::upper_case_acronyms)]
#[derive(Clone, Copy, Debug, PartialEq, Eq, Structural)]
pub enum ObjectMode {
    FILE,
    DIR,
}

/// The kind of storage service behind an accessor.
#[derive(Clone, Copy, Debug, PartialEq, Eq, Structural)]
pub enum Scheme {
    Memory,
    S3,
}

/// Identity of a backend: its scheme, its root and its name.
#[derive(Clone, Debug)]
pub struct AccessorMetadata {
    pub scheme: Scheme,
    pub root: String,
    pub name: String,
}

/// What is known of one object. A directory carries its mode only.
#[derive(Clone, Debug)]
pub struct ObjectMetadata {
    pub mode: ObjectMode,
    pub content_length: Option<u64>,
    pub etag: Option<String>,
    /// The ETag without its surrounding quotes.
    pub content_md5: Option<String>,
    /// When the object was last modified.
    pub last_modified: Option<HttpDate>,
}

impl ObjectMetadata {
    pub open spec fn is_bare(&self, mode: ObjectMode) -> bool {
        &&& self.mode == mode
        &&& self.content_length is None
        &&& self.etag is None
        &&& self.content_md5 is None
        &&& self.last_modified is None
    }

    /// Metadata that holds a mode and nothing else.
    pub fn new(mode: ObjectMode) -> (r: ObjectMetadata)
        ensures
            r.is_bare(mode),
    {
        ObjectMetadata {
            mode,
            content_length: None,
            etag: None,
            content_md5: None,
            last_modified: None,
        }
    }
}

/// One child found by a listing: its mode and its path.
#[derive(Clone, Debug)]
pub struct DirEntry {
    pub mode: ObjectMode,
    pub path: String,
}

/// The mode that a key's form conveys: a trailing slash marks a directory.
pub open spec fn mode_of_key(k: Seq<char>) -> ObjectMode {
    if crate::text::ends_with_slash(k) {
        ObjectMode::DIR
    } else {
        ObjectMode::FILE
    }
}

impl DirEntry {
    /// An entry for `path`, a directory if it ends with a slash, else a file.
    pub fn from_key(path: &str) -> (r: DirEntry)
        ensures
            r.path@ == path@,
            r.mode == mode_of_key(path@),
    {
        let mode = if crate::text::slash_at_end(path) {
            ObjectMode::DIR
        } else {
            ObjectMode::FILE
        };
        DirEntry { mode, path: path.to_owned() }
    }
}

} // verus!
