use vstd::prelude::*;

verus! {

/// The kinds of failure that every backend reports.
#[derive(Clone, Copy, Debug, PartialEq, Eq, Structural)]
pub enum ErrorKind {
    NotFound,
    PermissionDenied,
    /// A transient failure: the caller may retry.
    Interrupted,
    Other,
}

/// The operation during which an object error occurred.
#[derive(Clone, Copy, Debug, PartialEq, Eq, Structural)]
pub enum Operation {
    Create,
    Read,
    Write,
    Stat,
    Delete,
    List,
}

impl Operation {
    pub open spec fn spec_name(self) -> Seq<char> {
        match self {
            Operation::Create => "create"@,
            Operation::Read => "read"@,
            Operation::Write => "write"@,
            Operation::Stat => "stat"@,
            Operation::Delete => "delete"@,
            Operation::List => "list"@,
        }
    }

    /// The operation's name as it appears in error reports.
    pub fn name(&self) -> (r: &'static str)
        ensures
            r@ == self.spec_name(),
    {
        proof {
            reveal_strlit("create");
            reveal_strlit("read");
            reveal_strlit("write");
            reveal_strlit("stat");
            reveal_strlit("delete");
            reveal_strlit("list");
        }
        match self {
            Operation::Create => "create",
            Operation::Read => "read",
            Operation::Write => "write",
            Operation::Stat => "stat",
            Operation::Delete => "delete",
            Operation::List => "list",
        }
    }
}

/// Why an object operation failed, beyond its kind.
#[derive(Clone, Copy, Debug, PartialEq, Eq, Structural)]
pub enum Cause {
    /// The key is not in the store.
    KeyMissing,
    /// The requested offset lies at or past the end of the object.
    OffsetOutOfBound,
    /// The requested size reaches past the end of the object.
    SizeOutOfBound,
    /// The writer was closed with another number of bytes than declared.
    ShortWrite,
    /// The range cannot be expressed as a header.
    InvalidRange,
    /// A response header could not be read.
    InvalidHeader,
    /// The service answered with an unexpected status code.
    Status(u16),
}

/// An error scoped to one object path.
#[derive(Clone, Debug)]
pub struct ObjectError {
    pub kind: ErrorKind,
    pub op: Operation,
    pub path: String,
    pub cause: Cause,
}

impl ObjectError {
    /// Whether this error has the given kind, operation, path and cause.
    pub open spec fn spec_is(&self, kind: ErrorKind, op: Operation, path: Seq<char>, cause: Cause) -> bool {
        &&& self.kind == kind
        &&& self.op == op
        &&& self.path@ == path
        &&& self.cause == cause
    }

    pub fn new(kind: ErrorKind, op: Operation, path: &str, cause: Cause) -> (r: ObjectError)
        ensures
            r.kind == kind,
            r.op == op,
            r.path@ == path@,
            r.cause == cause,
    {
        ObjectError { kind, op, path: path.to_owned(), cause }
    }
}

/// The encryption options, which must each hold a valid header value.
#[derive(Clone, Copy, Debug, PartialEq, Eq, Structural)]
pub enum SseOption {
    ServerSideEncryption,
    AwsKmsKeyId,
    CustomerAlgorithm,
    CustomerKey,
    CustomerKeyMd5,
}

/// Why building a backend failed.
#[derive(Clone, Copy, Debug, PartialEq, Eq, Structural)]
pub enum BuildFailure {
    EmptyBucket,
    /// The option does not hold a valid header value.
    InvalidOption(SseOption),
    /// A redirect named no region.
    RegionMissing,
    /// A redirect came for an endpoint that has no regional template.
    NoEndpointTemplate,
    /// The region probe got an unexpected status code.
    UnexpectedStatus(u16),
}

/// An error scoped to a backend rather than an object: its kind is always
/// `Other`, and it carries the backend context known when it happened.
#[derive(Clone, Debug)]
pub struct BackendError {
    pub context: Vec<(String, String)>,
    pub failure: BuildFailure,
}

impl BackendError {
    pub open spec fn spec_kind(&self) -> ErrorKind {
        ErrorKind::Other
    }

    pub fn kind(&self) -> (r: ErrorKind)
        ensures
            r == self.spec_kind(),
    {
        ErrorKind::Other
    }
}

/// The error kind that an HTTP status code of a failed request maps to.
pub open spec fn spec_error_kind(code: u16) -> ErrorKind {
    if code == 404 {
        ErrorKind::NotFound
    } else if code == 403 {
        ErrorKind::PermissionDenied
    } else if code == 500 || code == 502 || code == 503 || code == 504 {
        ErrorKind::Interrupted
    } else {
        ErrorKind::Other
    }
}

/// Maps an HTTP status code to an error kind: missing objects, refused
/// access and retryable server failures get their own kinds.
pub fn parse_error_kind(code: u16) -> (r: ErrorKind)
    ensures
        r == spec_error_kind(code),
{
    match code {
        404 => ErrorKind::NotFound,
        403 => ErrorKind::PermissionDenied,
        500 | 502 | 503 | 504 => ErrorKind::Interrupted,
        _ => ErrorKind::Other,
    }
}

} // verus!
