//! The arguments of each accessor operation.
use crate::metadata::ObjectMode;
use crate::text::{decimal, decimal_text, join};
use vstd::prelude::*;

verus! {

/// Create an empty object; a directory's path ends with a slash.
#[derive(Clone, Debug)]
pub struct OpCreate {
    pub path: String,
    pub mode: ObjectMode,
}

impl OpCreate {
    pub fn new(path: &str, mode: ObjectMode) -> (r: OpCreate)
        ensures
            r.path@ == path@,
            r.mode == mode,
    {
        OpCreate { path: path.to_owned(), mode }
    }
}

/// Read the window `[offset, offset + size)` of an object; a missing offset
/// means the start, a missing size means the end.
#[derive(Clone, Debug)]
pub struct OpRead {
    pub path: String,
    pub offset: Option<u64>,
    pub size: Option<u64>,
}

impl OpRead {
    pub fn new(path: &str, offset: Option<u64>, size: Option<u64>) -> (r: OpRead)
        ensures
            r.path@ == path@,
            r.offset == offset,
            r.size == size,
    {
        OpRead { path: path.to_owned(), offset, size }
    }
}

/// Write an object of exactly `size` bytes.
#[derive(Clone, Debug)]
pub struct OpWrite {
    pub path: String,
    pub size: u64,
}

impl OpWrite {
    pub fn new(path: &str, size: u64) -> (r: OpWrite)
        ensures
            r.path@ == path@,
            r.size == size,
    {
        OpWrite { path: path.to_owned(), size }
    }
}

/// Ask for an object's metadata.
#[derive(Clone, Debug)]
pub struct OpStat {
    pub path: String,
}

impl OpStat {
    pub fn new(path: &str) -> (r: OpStat)
        ensures
            r.path@ == path@,
    {
        OpStat { path: path.to_owned() }
    }
}

/// Remove an object.
#[derive(Clone, Debug)]
pub struct OpDelete {
    pub path: String,
}

impl OpDelete {
    pub fn new(path: &str) -> (r: OpDelete)
        ensures
            r.path@ == path@,
    {
        OpDelete { path: path.to_owned() }
    }
}

/// List the immediate children of a directory.
#[derive(Clone, Debug)]
pub struct OpList {
    pub path: String,
}

impl OpList {
    pub fn new(path: &str) -> (r: OpList)
        ensures
            r.path@ == path@,
    {
        OpList { path: path.to_owned() }
    }
}

/// A byte window for an HTTP `Range` header.
#[derive(Clone, Copy, Debug, PartialEq, Eq, Structural)]
pub struct BytesRange {
    pub offset: Option<u64>,
    pub size: Option<u64>,
}

impl BytesRange {
    pub fn new(offset: Option<u64>, size: Option<u64>) -> (r: BytesRange)
        ensures
            r.offset == offset,
            r.size == size,
    {
        BytesRange { offset, size }
    }

    pub open spec fn start(&self) -> nat {
        match self.offset {
            Some(o) => o as nat,
            None => 0,
        }
    }

    /// Whether the window can be written as a header: a set size is
    /// positive and its last byte has a 64-bit position.
    pub open spec fn expressible(&self) -> bool {
        match self.size {
            Some(s) => s > 0 && self.start() + s - 1 <= u64::MAX,
            None => true,
        }
    }

    /// `bytes=a-b` with the first and last byte of the window, or
    /// `bytes=a-` when the window runs to the end.
    pub open spec fn spec_header(&self) -> Seq<char> {
        match self.size {
            Some(s) => "bytes="@ + decimal(self.start()) + "-"@ + decimal(
                (self.start() + s - 1) as nat,
            ),
            None => "bytes="@ + decimal(self.start()) + "-"@,
        }
    }

    /// The header value of this window.
    pub fn to_header(&self) -> (r: String)
        requires
            self.expressible(),
        ensures
            r@ == self.spec_header(),
    {
        let a: u64 = match self.offset {
            Some(o) => o,
            None => 0,
        };
        let first = join("bytes=", decimal_text(a).as_str());
        let head = join(first.as_str(), "-");
        proof {
            reveal_strlit("bytes=");
            reveal_strlit("-");
        }
        match self.size {
            Some(s) => {
                let b: u64 = a + (s - 1);
                join(head.as_str(), decimal_text(b).as_str())
            },
            None => head,
        }
    }
}

} // verus!
