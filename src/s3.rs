//! The S3 backend: configuration, endpoint and region bootstrap, and the
//! requests and response handling of each operation. Sending requests and
//! signing them is left to the caller; everything decided here is verified.
use crate::date::{parse_http_date, spec_parse_http_date};
use crate::error::{BackendError, BuildFailure, SseOption, Cause, ErrorKind, ObjectError, Operation, parse_error_kind, spec_error_kind};
use crate::metadata::{mode_of_key, AccessorMetadata, DirEntry, ObjectMetadata, ObjectMode, Scheme};
use crate::ops::{BytesRange, OpCreate, OpDelete, OpList, OpRead, OpStat, OpWrite};
use crate::text::{
    all_digits, decimal, decimal_text, digits_value, ends_with_slash, has_prefix, is_header_value,
    join, parse_decimal, replace_all, replace_text, same_text, slash_at_end, strip_end,
    strip_start, text_of, trim_end, trim_start, url_encode, url_encoded, valid_header_value,
};
use crate::xml::{first_tag_text, tag_texts, tag_values, unescape, unescape_all, xml_unescape};
use vstd::prelude::*;
use vstd::string::*;

verus! {

/// The endpoint used when none is configured.
pub open spec fn default_endpoint() -> Seq<char> {
    "https://s3.amazonaws.com"@
}

/// The regional form of a global endpoint, for the endpoints that have one.
pub open spec fn regional_endpoint(endpoint: Seq<char>, region: Seq<char>) -> Option<Seq<char>> {
    if endpoint == default_endpoint() {
        Some("https://s3."@ + region + ".amazonaws.com"@)
    } else {
        None
    }
}

/// The text of a root option: a slash, then each non-empty segment of the
/// rest of `v` followed by a slash; `in_seg` tells whether a segment is open.
pub open spec fn root_tail(v: Seq<char>, in_seg: bool) -> Seq<char>
    decreases v.len(),
{
    if v.len() == 0 {
        if in_seg {
            "/"@
        } else {
            Seq::empty()
        }
    } else if v[0] == '/' {
        if in_seg {
            "/"@ + root_tail(v.drop_first(), false)
        } else {
            root_tail(v.drop_first(), false)
        }
    } else {
        seq![v[0]] + root_tail(v.drop_first(), true)
    }
}

/// The normalized root: `/` when unset, else the option with empty segments
/// collapsed, starting and ending with a slash.
pub open spec fn normalized_root(root: Option<Seq<char>>) -> Seq<char> {
    match root {
        None => "/"@,
        Some(v) => "/"@ + root_tail(v, false),
    }
}

/// The configuration that a builder holds.
pub struct BuilderView {
    pub root: Option<Seq<char>>,
    pub bucket: Seq<char>,
    pub endpoint: Option<Seq<char>>,
    pub region: Option<Seq<char>>,
    pub access_key_id: Option<Seq<char>>,
    pub secret_access_key: Option<Seq<char>>,
    pub server_side_encryption: Option<Seq<char>>,
    pub server_side_encryption_aws_kms_key_id: Option<Seq<char>>,
    pub server_side_encryption_customer_algorithm: Option<Seq<char>>,
    pub server_side_encryption_customer_key: Option<Seq<char>>,
    pub server_side_encryption_customer_key_md5: Option<Seq<char>>,
    pub disable_credential_loader: bool,
    pub enable_virtual_host_style: bool,
}

/// An option that a non-empty value sets and an empty one leaves as it was.
pub open spec fn set_unless_empty(old: Option<Seq<char>>, v: Seq<char>) -> Option<Seq<char>> {
    if v.len() == 0 {
        old
    } else {
        Some(v)
    }
}

/// Builder for the S3 backend.
#[derive(Clone, Default)]
pub struct Builder {
    root: Option<String>,
    bucket: String,
    endpoint: Option<String>,
    region: Option<String>,
    access_key_id: Option<String>,
    secret_access_key: Option<String>,
    server_side_encryption: Option<String>,
    server_side_encryption_aws_kms_key_id: Option<String>,
    server_side_encryption_customer_algorithm: Option<String>,
    server_side_encryption_customer_key: Option<String>,
    server_side_encryption_customer_key_md5: Option<String>,
    disable_credential_loader: bool,
    enable_virtual_host_style: bool,
}

impl View for Builder {
    type V = BuilderView;

    closed spec fn view(&self) -> BuilderView {
        BuilderView {
            root: self.root.deep_view(),
            bucket: self.bucket@,
            endpoint: self.endpoint.deep_view(),
            region: self.region.deep_view(),
            access_key_id: self.access_key_id.deep_view(),
            secret_access_key: self.secret_access_key.deep_view(),
            server_side_encryption: self.server_side_encryption.deep_view(),
            server_side_encryption_aws_kms_key_id: self.server_side_encryption_aws_kms_key_id.deep_view(),
            server_side_encryption_customer_algorithm: self.server_side_encryption_customer_algorithm.deep_view(),
            server_side_encryption_customer_key: self.server_side_encryption_customer_key.deep_view(),
            server_side_encryption_customer_key_md5: self.server_side_encryption_customer_key_md5.deep_view(),
            disable_credential_loader: self.disable_credential_loader,
            enable_virtual_host_style: self.enable_virtual_host_style,
        }
    }
}

/// `Some` of a copy of `v`.
fn some_text(v: &str) -> (r: Option<String>)
    ensures
        r.deep_view() == Some(v@),
{
    Some(String::from_str(v))
}

impl Builder {
    /// A builder with nothing configured.
    pub fn new() -> (r: Builder)
        ensures
            r@.root is None,
            r@.bucket.len() == 0,
            r@.endpoint is None,
            r@.region is None,
            r@.access_key_id is None,
            r@.secret_access_key is None,
            r@.server_side_encryption is None,
            r@.server_side_encryption_aws_kms_key_id is None,
            r@.server_side_encryption_customer_algorithm is None,
            r@.server_side_encryption_customer_key is None,
            r@.server_side_encryption_customer_key_md5 is None,
            !r@.disable_credential_loader,
            !r@.enable_virtual_host_style,
    {
        Builder {
            root: None,
            bucket: String::new(),
            endpoint: None,
            region: None,
            access_key_id: None,
            secret_access_key: None,
            server_side_encryption: None,
            server_side_encryption_aws_kms_key_id: None,
            server_side_encryption_customer_algorithm: None,
            server_side_encryption_customer_key: None,
            server_side_encryption_customer_key_md5: None,
            disable_credential_loader: false,
            enable_virtual_host_style: false,
        }
    }

    /// Sets the root under which all operations happen; an empty root unsets it.
    pub fn root(&mut self, root: &str) -> (r: &mut Self)
        ensures
            (*r)@ == (BuilderView {
                root: if root@.len() == 0 { None } else { Some(root@) },
                ..old(self)@
            }),
            *final(self) == *final(r),
    {
        self.root = if root.unicode_len() == 0 {
            None
        } else {
            some_text(root)
        };
        self
    }

    /// Sets the bucket.
    pub fn bucket(&mut self, bucket: &str) -> (r: &mut Self)
        ensures
            (*r)@ == (BuilderView { bucket: bucket@, ..old(self)@ }),
            *final(self) == *final(r),
    {
        self.bucket = String::from_str(bucket);
        self
    }

    /// Sets the endpoint, a full URI such as `https://s3.amazonaws.com`,
    /// without its trailing slashes; an empty value is ignored.
    pub fn endpoint(&mut self, endpoint: &str) -> (r: &mut Self)
        ensures
            (*r)@ == (BuilderView {
                endpoint: if endpoint@.len() == 0 {
                    old(self)@.endpoint
                } else {
                    Some(trim_end(endpoint@, '/'))
                },
                ..old(self)@
            }),
            *final(self) == *final(r),
    {
        if endpoint.unicode_len() != 0 {
            self.endpoint = Some(strip_end(endpoint, '/'));
        }
        self
    }

    /// Sets the signing region, which then skips detection; an empty value is ignored.
    pub fn region(&mut self, region: &str) -> (r: &mut Self)
        ensures
            (*r)@ == (BuilderView { region: set_unless_empty(old(self)@.region, region@), ..old(self)@ }),
            *final(self) == *final(r),
    {
        if region.unicode_len() != 0 {
            self.region = some_text(region);
        }
        self
    }

    /// Sets the access key id; an empty value is ignored.
    pub fn access_key_id(&mut self, v: &str) -> (r: &mut Self)
        ensures
            (*r)@ == (BuilderView { access_key_id: set_unless_empty(old(self)@.access_key_id, v@), ..old(self)@ }),
            *final(self) == *final(r),
    {
        if v.unicode_len() != 0 {
            self.access_key_id = some_text(v);
        }
        self
    }

    /// Sets the secret access key; an empty value is ignored.
    pub fn secret_access_key(&mut self, v: &str) -> (r: &mut Self)
        ensures
            (*r)@ == (BuilderView {
                secret_access_key: set_unless_empty(old(self)@.secret_access_key, v@),
                ..old(self)@
            }),
            *final(self) == *final(r),
    {
        if v.unicode_len() != 0 {
            self.secret_access_key = some_text(v);
        }
        self
    }

    /// Sets the server-side encryption mode (`AES256` or `aws:kms`); an
    /// empty value is ignored.
    pub fn server_side_encryption(&mut self, v: &str) -> (r: &mut Self)
        ensures
            (*r)@ == (BuilderView {
                server_side_encryption: set_unless_empty(old(self)@.server_side_encryption, v@),
                ..old(self)@
            }),
            *final(self) == *final(r),
    {
        if v.unicode_len() != 0 {
            self.server_side_encryption = some_text(v);
        }
        self
    }

    /// Sets the KMS key id used with `aws:kms` encryption; an empty value is ignored.
    pub fn server_side_encryption_aws_kms_key_id(&mut self, v: &str) -> (r: &mut Self)
        ensures
            (*r)@ == (BuilderView {
                server_side_encryption_aws_kms_key_id: set_unless_empty(
                    old(self)@.server_side_encryption_aws_kms_key_id,
                    v@,
                ),
                ..old(self)@
            }),
            *final(self) == *final(r),
    {
        if v.unicode_len() != 0 {
            self.server_side_encryption_aws_kms_key_id = some_text(v);
        }
        self
    }

    /// Sets the algorithm of a customer-provided key; an empty value is ignored.
    pub fn server_side_encryption_customer_algorithm(&mut self, v: &str) -> (r: &mut Self)
        ensures
            (*r)@ == (BuilderView {
                server_side_encryption_customer_algorithm: set_unless_empty(
                    old(self)@.server_side_encryption_customer_algorithm,
                    v@,
                ),
                ..old(self)@
            }),
            *final(self) == *final(r),
    {
        if v.unicode_len() != 0 {
            self.server_side_encryption_customer_algorithm = some_text(v);
        }
        self
    }

    /// Sets the base64 of a customer-provided key; an empty value is ignored.
    pub fn server_side_encryption_customer_key(&mut self, v: &str) -> (r: &mut Self)
        ensures
            (*r)@ == (BuilderView {
                server_side_encryption_customer_key: set_unless_empty(
                    old(self)@.server_side_encryption_customer_key,
                    v@,
                ),
                ..old(self)@
            }),
            *final(self) == *final(r),
    {
        if v.unicode_len() != 0 {
            self.server_side_encryption_customer_key = some_text(v);
        }
        self
    }

    /// Sets the base64 of the MD5 digest of a customer-provided key; an
    /// empty value is ignored.
    pub fn server_side_encryption_customer_key_md5(&mut self, v: &str) -> (r: &mut Self)
        ensures
            (*r)@ == (BuilderView {
                server_side_encryption_customer_key_md5: set_unless_empty(
                    old(self)@.server_side_encryption_customer_key_md5,
                    v@,
                ),
                ..old(self)@
            }),
            *final(self) == *final(r),
    {
        if v.unicode_len() != 0 {
            self.server_side_encryption_customer_key_md5 = some_text(v);
        }
        self
    }

    /// Encrypts with a KMS key that AWS manages (SSE-KMS).
    pub fn server_side_encryption_with_aws_managed_kms_key(&mut self) -> (r: &mut Self)
        ensures
            (*r)@ == (BuilderView { server_side_encryption: Some("aws:kms"@), ..old(self)@ }),
            *final(self) == *final(r),
    {
        self.server_side_encryption = some_text("aws:kms");
        self
    }

    /// Encrypts with the given customer-managed KMS key (SSE-KMS).
    pub fn server_side_encryption_with_customer_managed_kms_key(&mut self, aws_kms_key_id: &str) -> (r: &mut Self)
        ensures
            (*r)@ == (BuilderView {
                server_side_encryption: Some("aws:kms"@),
                server_side_encryption_aws_kms_key_id: Some(aws_kms_key_id@),
                ..old(self)@
            }),
            *final(self) == *final(r),
    {
        self.server_side_encryption = some_text("aws:kms");
        self.server_side_encryption_aws_kms_key_id = some_text(aws_kms_key_id);
        self
    }

    /// Encrypts with a key that S3 manages (SSE-S3).
    pub fn server_side_encryption_with_s3_key(&mut self) -> (r: &mut Self)
        ensures
            (*r)@ == (BuilderView { server_side_encryption: Some("AES256"@), ..old(self)@ }),
            *final(self) == *final(r),
    {
        self.server_side_encryption = some_text("AES256");
        self
    }

    /// Uses only the configured credentials, never ones found in the environment.
    pub fn disable_credential_loader(&mut self) -> (r: &mut Self)
        ensures
            (*r)@ == (BuilderView { disable_credential_loader: true, ..old(self)@ }),
            *final(self) == *final(r),
    {
        self.disable_credential_loader = true;
        self
    }

    /// Addresses the bucket as a subdomain of the endpoint's host instead of
    /// as the first segment of the path.
    pub fn enable_virtual_host_style(&mut self) -> (r: &mut Self)
        ensures
            (*r)@ == (BuilderView { enable_virtual_host_style: true, ..old(self)@ }),
            *final(self) == *final(r),
    {
        self.enable_virtual_host_style = true;
        self
    }
}

/// The standard base64 encoding, with padding, of `b`.
pub uninterp spec fn base64_of(b: Seq<u8>) -> Seq<char>;

/// The MD5 digest of `b`.
pub uninterp spec fn md5_of(b: Seq<u8>) -> Seq<u8>;

/// Relies on `base64::encode`: the standard, padded base64 text of the
/// bytes, four characters for each started group of three bytes.
#[verifier::external_body]
fn base64_encode(b: &[u8]) -> (r: String)
    ensures
        r@ == base64_of(b@),
        r@.len() == 4 * ((b@.len() + 2) / 3),
{
    base64::encode(b)
}

/// Relies on `md5::compute`: the 16-byte MD5 digest of the bytes.
#[verifier::external_body]
fn md5_digest(b: &[u8]) -> (r: Vec<u8>)
    ensures
        r@ == md5_of(b@),
        r@.len() == 16,
{
    md5::compute(b).0.to_vec()
}

impl Builder {
    /// Encrypts with a key that the customer provides (SSE-C): sets the
    /// algorithm, the key in base64 and the base64 of the key's MD5 digest.
    pub fn server_side_encryption_with_customer_key(&mut self, algorithm: &str, key: &[u8]) -> (r: &mut Self)
        ensures
            (*r)@ == (BuilderView {
                server_side_encryption_customer_algorithm: Some(algorithm@),
                server_side_encryption_customer_key: Some(base64_of(key@)),
                server_side_encryption_customer_key_md5: Some(base64_of(md5_of(key@))),
                ..old(self)@
            }),
            *final(self) == *final(r),
    {
        self.server_side_encryption_customer_algorithm = some_text(algorithm);
        self.server_side_encryption_customer_key = Some(base64_encode(key));
        let digest = md5_digest(key);
        self.server_side_encryption_customer_key_md5 = Some(base64_encode(digest.as_slice()));
        self
    }
}

/// The root option in normal form.
fn normalize_root(root: &Option<String>) -> (r: String)
    ensures
        r@ == normalized_root(root.deep_view()),
{
    proof {
        reveal_strlit("/");
    }
    match root {
        None => text_of("/"),
        Some(v) => {
            let v = v.as_str();
            let n = v.unicode_len();
            let mut out = text_of("/");
            let mut in_seg = false;
            let mut i: usize = 0;
            assert(v@.subrange(0, n as int) =~= v@);
            while i < n
                invariant
                    n == v@.len(),
                    i <= n,
                    out@ + root_tail(v@.subrange(i as int, n as int), in_seg) == "/"@ + root_tail(
                        v@,
                        false,
                    ),
                decreases n - i,
            {
                let ghost t = v@.subrange(i as int, n as int);
                assert(t.drop_first() =~= v@.subrange(i + 1, n as int));
                if v.get_char(i) == '/' {
                    if in_seg {
                        out.append("/");
                    }
                    in_seg = false;
                } else {
                    out.append(v.substring_char(i, i + 1));
                    assert(v@.subrange(i as int, i + 1) =~= seq![t[0]]);
                    in_seg = true;
                }
                proof {
                    assert(out@ + root_tail(v@.subrange(i + 1, n as int), in_seg) =~= "/"@
                        + root_tail(v@, false));
                }
                i = i + 1;
            }
            if in_seg {
                out.append("/");
            }
            assert(v@.subrange(n as int, n as int) =~= Seq::<char>::empty());
            out
        },
    }
}

/// What region detection does next: it is done without a request, or it
/// sends an unsigned `HEAD` to `url` and reads the answer with
/// [`region_from_response`].
#[derive(Debug)]
pub enum RegionStep {
    Known { endpoint: String, region: String },
    Probe { url: String, endpoint: String },
}

/// The endpoint that region detection starts from: the configured one, with
/// `https://` put before it when it names no scheme, or the default; with
/// `//<bucket>.` turned into `//`, so that a bucket subdomain is dropped.
pub open spec fn base_endpoint(b: BuilderView) -> Seq<char> {
    let e = match b.endpoint {
        Some(e) => if e.len() >= 4 && e.subrange(0, 4) == "http"@ {
            e
        } else {
            "https://"@ + e
        },
        None => default_endpoint(),
    };
    replace_all(e, "//"@ + b.bucket + "."@, "//"@)
}

/// The outcome of a region probe: 200 or 403 keep the endpoint and take
/// the region header, `us-east-1` without one; 301 needs the header and a
/// regional template of the endpoint; any other status fails.
pub open spec fn spec_region_answer(endpoint: Seq<char>, status: u16, region: Option<Seq<char>>) -> Result<
    (Seq<char>, Seq<char>),
    BuildFailure,
> {
    if status == 200 || status == 403 {
        Ok(
            (
                endpoint,
                match region {
                    Some(r) => r,
                    None => "us-east-1"@,
                },
            ),
        )
    } else if status == 301 {
        match region {
            None => Err(BuildFailure::RegionMissing),
            Some(r) => match regional_endpoint(endpoint, r) {
                Some(e) => Ok((e, r)),
                None => Err(BuildFailure::NoEndpointTemplate),
            },
        }
    } else {
        Err(BuildFailure::UnexpectedStatus(status))
    }
}

fn bucket_context(bucket: &str) -> (r: Vec<(String, String)>) {
    let mut c = Vec::new();
    c.push((text_of("bucket"), text_of(bucket)));
    c
}

/// The regional form of `endpoint` for `region`, when it has one.
fn regional(endpoint: &str, region: &str) -> (r: Option<String>)
    ensures
        r.deep_view() == regional_endpoint(endpoint@, region@),
{
    proof {
        reveal_strlit("https://s3.amazonaws.com");
        reveal_strlit("https://s3.");
        reveal_strlit(".amazonaws.com");
    }
    if same_text(endpoint, "https://s3.amazonaws.com") {
        let head = join("https://s3.", region);
        Some(join(head.as_str(), ".amazonaws.com"))
    } else {
        None
    }
}

/// Reads the answer to a region probe of `endpoint`: its status and its
/// `x-amz-bucket-region` header, if any.
pub fn region_from_response(bucket: &str, endpoint: &str, status: u16, region: Option<&str>) -> (r: Result<(String, String), BackendError>)
    ensures
        match spec_region_answer(endpoint@, status, match region {
            Some(x) => Some(x@),
            None => None,
        }) {
            Ok((e, g)) => r matches Ok(v) && v.0@ == e && v.1@ == g,
            Err(f) => r matches Err(x) && x.failure == f,
        },
{
    proof {
        reveal_strlit("us-east-1");
    }
    if status == 200 || status == 403 {
        let g = match region {
            Some(x) => text_of(x),
            None => text_of("us-east-1"),
        };
        Ok((text_of(endpoint), g))
    } else if status == 301 {
        match region {
            None => Err(BackendError { context: bucket_context(bucket), failure: BuildFailure::RegionMissing }),
            Some(x) => match regional(endpoint, x) {
                Some(e) => Ok((e, text_of(x))),
                None => Err(
                    BackendError { context: bucket_context(bucket), failure: BuildFailure::NoEndpointTemplate },
                ),
            },
        }
    } else {
        Err(BackendError { context: bucket_context(bucket), failure: BuildFailure::UnexpectedStatus(status) })
    }
}

impl Builder {
    /// The first step of region detection. With a configured region it is
    /// done at once: the regional form of the base endpoint if there is one,
    /// else the base endpoint. Otherwise it asks `<endpoint>/<bucket>`.
    pub fn detect_region(&self) -> (r: RegionStep)
        ensures
            match self@.region {
                Some(g) => r matches RegionStep::Known { endpoint, region } && region@ == g
                    && endpoint@ == match regional_endpoint(base_endpoint(self@), g) {
                    Some(e) => e,
                    None => base_endpoint(self@),
                },
                None => r matches RegionStep::Probe { url, endpoint } && endpoint@ == base_endpoint(
                    self@,
                ) && url@ == base_endpoint(self@) + "/"@ + self@.bucket,
            },
    {
        proof {
            reveal_strlit("https://s3.amazonaws.com");
            reveal_strlit("http");
            reveal_strlit("https://");
            reveal_strlit("//");
            reveal_strlit(".");
            reveal_strlit("/");
        }
        let e = match &self.endpoint {
            Some(e) => {
                if has_prefix(e.as_str(), "http") {
                    text_of(e.as_str())
                } else {
                    join("https://", e.as_str())
                }
            },
            None => text_of("https://s3.amazonaws.com"),
        };
        let head = join("//", self.bucket.as_str());
        let pattern = join(head.as_str(), ".");
        let endpoint = replace_text(e.as_str(), pattern.as_str(), "//");
        match &self.region {
            Some(g) => {
                let endpoint = match regional(endpoint.as_str(), g.as_str()) {
                    Some(x) => x,
                    None => endpoint,
                };
                RegionStep::Known { endpoint, region: text_of(g.as_str()) }
            },
            None => {
                let with_slash = join(endpoint.as_str(), "/");
                let url = join(with_slash.as_str(), self.bucket.as_str());
                RegionStep::Probe { url, endpoint }
            },
        }
    }
}

/// Whether an unset option, or one set to a valid header value.
pub open spec fn option_ok(v: Option<Seq<char>>) -> bool {
    match v {
        Some(x) => valid_header_value(x),
        None => true,
    }
}

/// The checks a configuration must pass: a bucket, and encryption options
/// that are valid header values, reported in this order.
pub open spec fn spec_check(b: BuilderView) -> Result<(), BuildFailure> {
    if b.bucket.len() == 0 {
        Err(BuildFailure::EmptyBucket)
    } else if !option_ok(b.server_side_encryption) {
        Err(BuildFailure::InvalidOption(SseOption::ServerSideEncryption))
    } else if !option_ok(b.server_side_encryption_aws_kms_key_id) {
        Err(BuildFailure::InvalidOption(SseOption::AwsKmsKeyId))
    } else if !option_ok(b.server_side_encryption_customer_algorithm) {
        Err(BuildFailure::InvalidOption(SseOption::CustomerAlgorithm))
    } else if !option_ok(b.server_side_encryption_customer_key) {
        Err(BuildFailure::InvalidOption(SseOption::CustomerKey))
    } else if !option_ok(b.server_side_encryption_customer_key_md5) {
        Err(BuildFailure::InvalidOption(SseOption::CustomerKeyMd5))
    } else {
        Ok(())
    }
}

/// The endpoint with the bucket in it: as a subdomain in virtual-host
/// style, else as the first path segment.
pub open spec fn bucket_endpoint(b: BuilderView, endpoint: Seq<char>) -> Seq<char> {
    if b.enable_virtual_host_style {
        replace_all(endpoint, "//"@, "//"@ + b.bucket + "."@)
    } else {
        endpoint + "/"@ + b.bucket
    }
}

fn valid_option(v: &Option<String>) -> (r: bool)
    ensures
        r == option_ok(v.deep_view()),
{
    match v {
        Some(x) => is_header_value(x.as_str()),
        None => true,
    }
}

fn copy_option(v: &Option<String>) -> (r: Option<String>)
    ensures
        r.deep_view() == v.deep_view(),
{
    match v {
        Some(x) => some_text(x.as_str()),
        None => None,
    }
}

impl Builder {
    /// Checks the configuration before any request is made.
    pub fn check(&self) -> (r: Result<(), BackendError>)
        ensures
            match spec_check(self@) {
                Ok(()) => r is Ok,
                Err(f) => r matches Err(e) && e.failure == f,
            },
    {
        let bucket = self.bucket.as_str();
        if bucket.unicode_len() == 0 {
            return Err(BackendError { context: bucket_context(bucket), failure: BuildFailure::EmptyBucket });
        }
        let fail = if !valid_option(&self.server_side_encryption) {
            Some(SseOption::ServerSideEncryption)
        } else if !valid_option(&self.server_side_encryption_aws_kms_key_id) {
            Some(SseOption::AwsKmsKeyId)
        } else if !valid_option(&self.server_side_encryption_customer_algorithm) {
            Some(SseOption::CustomerAlgorithm)
        } else if !valid_option(&self.server_side_encryption_customer_key) {
            Some(SseOption::CustomerKey)
        } else if !valid_option(&self.server_side_encryption_customer_key_md5) {
            Some(SseOption::CustomerKeyMd5)
        } else {
            None
        };
        match fail {
            Some(o) => Err(BackendError { context: bucket_context(bucket), failure: BuildFailure::InvalidOption(o) }),
            None => Ok(()),
        }
    }

    /// The backend for the endpoint and region that detection settled on,
    /// once the configuration passes its checks.
    pub fn finish_with_region(&self, endpoint: &str, region: &str) -> (r: Result<Backend, BackendError>)
        ensures
            spec_check(self@) matches Err(f) ==> (r matches Err(e) && e.failure == f),
            spec_check(self@) is Ok ==> (r matches Ok(b) && b.wf() && b.root@ == normalized_root(
                self@.root,
            ) && b.bucket@ == self@.bucket && b.region@ == region@ && b.endpoint@
                == bucket_endpoint(self@, endpoint@) && b.access_key_id.deep_view()
                == self@.access_key_id && b.secret_access_key.deep_view()
                == self@.secret_access_key && b.disable_credential_loader
                == self@.disable_credential_loader && b.server_side_encryption.deep_view()
                == self@.server_side_encryption && b.server_side_encryption_aws_kms_key_id.deep_view()
                == self@.server_side_encryption_aws_kms_key_id
                && b.server_side_encryption_customer_algorithm.deep_view()
                == self@.server_side_encryption_customer_algorithm
                && b.server_side_encryption_customer_key.deep_view()
                == self@.server_side_encryption_customer_key
                && b.server_side_encryption_customer_key_md5.deep_view()
                == self@.server_side_encryption_customer_key_md5),
    {
        if let Err(e) = self.check() {
            return Err(e);
        }
        proof {
            reveal_strlit("//");
            reveal_strlit(".");
            reveal_strlit("/");
        }
        let bucket = self.bucket.as_str();
        let endpoint = if self.enable_virtual_host_style {
            let head = join("//", bucket);
            let host = join(head.as_str(), ".");
            replace_text(endpoint, "//", host.as_str())
        } else {
            let with_slash = join(endpoint, "/");
            join(with_slash.as_str(), bucket)
        };
        let root = normalize_root(&self.root);
        proof {
            lemma_normalized_root_form(self@.root);
        }
        Ok(Backend {
            root,
            bucket: text_of(bucket),
            endpoint,
            region: text_of(region),
            access_key_id: copy_option(&self.access_key_id),
            secret_access_key: copy_option(&self.secret_access_key),
            disable_credential_loader: self.disable_credential_loader,
            server_side_encryption: copy_option(&self.server_side_encryption),
            server_side_encryption_aws_kms_key_id: copy_option(&self.server_side_encryption_aws_kms_key_id),
            server_side_encryption_customer_algorithm: copy_option(
                &self.server_side_encryption_customer_algorithm,
            ),
            server_side_encryption_customer_key: copy_option(&self.server_side_encryption_customer_key),
            server_side_encryption_customer_key_md5: copy_option(&self.server_side_encryption_customer_key_md5),
        })
    }
}

/// Whether `root` is `/`, or starts and ends with a slash and holds no
/// empty segment.
pub open spec fn root_form(root: Seq<char>) -> bool {
    &&& root.len() >= 1
    &&& root[0] == '/'
    &&& root.last() == '/'
    &&& forall|i: int| 0 <= i < root.len() - 1 ==> !(root[i] == '/' && #[trigger] root[i + 1] == '/')
}

proof fn lemma_root_tail_form(v: Seq<char>, in_seg: bool)
    ensures
        ({
            let t = root_tail(v, in_seg);
            &&& t.len() > 0 ==> t.last() == '/'
            &&& t.len() > 0 && !in_seg ==> t[0] != '/'
            &&& forall|i: int| 0 <= i < t.len() - 1 ==> !(t[i] == '/' && #[trigger] t[i + 1] == '/')
            &&& t.len() == 0 ==> !in_seg
        }),
    decreases v.len(),
{
    reveal_strlit("/");
    if v.len() > 0 {
        lemma_root_tail_form(v.drop_first(), false);
        lemma_root_tail_form(v.drop_first(), true);
        let t = root_tail(v, in_seg);
        if v[0] == '/' {
            if in_seg {
                let rest = root_tail(v.drop_first(), false);
                assert(t =~= seq!['/'] + rest);
                assert forall|i: int| 0 <= i < t.len() - 1 implies !(t[i] == '/' && #[trigger] t[i + 1] == '/') by {
                    if i > 0 {
                        assert(t[i] == rest[i - 1]);
                        assert(t[i + 1] == rest[i]);
                        assert(!(rest[i - 1] == '/' && rest[(i - 1) + 1] == '/'));
                    } else {
                        assert(t[1] == rest[0]);
                    }
                }
            }
        } else {
            let rest = root_tail(v.drop_first(), true);
            assert(t =~= seq![v[0]] + rest);
            assert forall|i: int| 0 <= i < t.len() - 1 implies !(t[i] == '/' && #[trigger] t[i + 1] == '/') by {
                if i > 0 {
                    assert(t[i] == rest[i - 1]);
                    assert(t[i + 1] == rest[i]);
                    assert(!(rest[i - 1] == '/' && rest[(i - 1) + 1] == '/'));
                } else {
                    assert(t[1] == rest[0]);
                }
            }
        }
    }
}

/// The normalized root always has the form that the paths rely on.
pub proof fn lemma_normalized_root_form(root: Option<Seq<char>>)
    ensures
        root_form(normalized_root(root)),
{
    reveal_strlit("/");
    match root {
        None => {},
        Some(v) => {
            lemma_root_tail_form(v, false);
            let t = root_tail(v, false);
            let r = normalized_root(root);
            assert(r =~= seq!['/'] + t);
            assert forall|i: int| 0 <= i < r.len() - 1 implies !(r[i] == '/' && #[trigger] r[i + 1] == '/') by {
                if i > 0 {
                    assert(r[i] == t[i - 1]);
                    assert(r[i + 1] == t[i]);
                    assert(!(t[i - 1] == '/' && t[(i - 1) + 1] == '/'));
                } else {
                    assert(r[1] == t[0]);
                }
            }
        },
    }
}

/// The S3 backend: where its objects live and what each request carries.
#[derive(Clone)]
pub struct Backend {
    pub bucket: String,
    /// The endpoint with the bucket in it.
    pub endpoint: String,
    pub region: String,
    /// `/` or `/<segments>/`, prefixed to every path.
    pub root: String,
    pub access_key_id: Option<String>,
    pub secret_access_key: Option<String>,
    pub disable_credential_loader: bool,
    pub server_side_encryption: Option<String>,
    pub server_side_encryption_aws_kms_key_id: Option<String>,
    pub server_side_encryption_customer_algorithm: Option<String>,
    pub server_side_encryption_customer_key: Option<String>,
    pub server_side_encryption_customer_key_md5: Option<String>,
}

impl Backend {
    pub open spec fn wf(&self) -> bool {
        root_form(self.root@)
    }

    /// A builder of S3 backends, with nothing configured.
    pub fn build() -> (r: Builder)
        ensures
            r@.root is None,
            r@.bucket.len() == 0,
            r@.endpoint is None,
            r@.region is None,
            r@.access_key_id is None,
            r@.secret_access_key is None,
            r@.server_side_encryption is None,
            r@.server_side_encryption_aws_kms_key_id is None,
            r@.server_side_encryption_customer_algorithm is None,
            r@.server_side_encryption_customer_key is None,
            r@.server_side_encryption_customer_key_md5 is None,
            !r@.disable_credential_loader,
            !r@.enable_virtual_host_style,
    {
        Builder::new()
    }

    /// The backend's identity: scheme `s3`, its root, and its bucket as name.
    pub fn metadata(&self) -> (r: AccessorMetadata)
        ensures
            r.scheme == Scheme::S3,
            r.root@ == self.root@,
            r.name@ == self.bucket@,
    {
        AccessorMetadata { scheme: Scheme::S3, root: text_of(self.root.as_str()), name: text_of(self.bucket.as_str()) }
    }
}

/// The key that the store holds for a user path: `root + path` without its
/// leading slashes; the path `/` names the root itself.
pub open spec fn abs_path(root: Seq<char>, path: Seq<char>) -> Seq<char> {
    if path == "/"@ {
        trim_start(root, '/')
    } else {
        trim_start(root + path, '/')
    }
}

/// Whether the store key `abs` lies under `root`.
pub open spec fn under_root(root: Seq<char>, abs: Seq<char>) -> bool {
    let full = "/"@ + abs;
    root.len() <= full.len() && full.subrange(0, root.len() as int) == root
}

/// The user path of the store key `abs`: `/` + `abs` without the root.
pub open spec fn rel_path(root: Seq<char>, abs: Seq<char>) -> Seq<char> {
    let full = "/"@ + abs;
    full.subrange(root.len() as int, full.len() as int)
}

/// The HTTP methods the backend uses.
#[derive(Clone, Copy, Debug, PartialEq, Eq, Structural)]
pub enum Method {
    Get,
    Put,
    Head,
    Delete,
}

/// A request to send (after signing): method, URL and headers in order.
#[derive(Clone, Debug)]
pub struct S3Request {
    pub method: Method,
    pub url: String,
    pub headers: Vec<(String, String)>,
}

/// Headers as pairs of name and value.
pub open spec fn headers_view(h: Seq<(String, String)>) -> Seq<(Seq<char>, Seq<char>)> {
    h.map_values(|p: (String, String)| (p.0@, p.1@))
}

impl S3Request {
    pub open spec fn spec_headers(&self) -> Seq<(Seq<char>, Seq<char>)> {
        headers_view(self.headers@)
    }
}

/// One header for an option that is set, none for one that is not.
pub open spec fn opt_header(name: Seq<char>, v: Option<Seq<char>>) -> Seq<(Seq<char>, Seq<char>)> {
    match v {
        Some(x) => seq![(name, x)],
        None => Seq::empty(),
    }
}

fn push_opt_header(out: &mut Vec<(String, String)>, name: &str, v: &Option<String>)
    ensures
        headers_view(final(out)@) == headers_view(old(out)@) + opt_header(name@, v.deep_view()),
{
    match v {
        Some(x) => {
            out.push((text_of(name), text_of(x.as_str())));
            assert(headers_view(out@) =~= headers_view(old(out)@) + opt_header(name@, v.deep_view()));
        },
        None => {
            assert(headers_view(out@) =~= headers_view(old(out)@) + opt_header(name@, v.deep_view()));
        },
    }
}

/// The URL of a store key: the endpoint, a slash, the key.
pub open spec fn object_url(endpoint: Seq<char>, key: Seq<char>) -> Seq<char> {
    endpoint + "/"@ + key
}

/// The query that lists one page under `prefix`, continuing at `token`
/// unless it is empty; both values are URL-encoded.
pub open spec fn list_url(endpoint: Seq<char>, prefix: Seq<char>, token: Seq<char>) -> Seq<char> {
    let base = endpoint + "?list-type=2&delimiter=/&prefix="@ + url_encode(prefix);
    if token.len() == 0 {
        base
    } else {
        base + "&continuation-token="@ + url_encode(token)
    }
}

/// Whether a status code is one of two accepted ones.
pub open spec fn accepted(status: u16, a: u16, b: u16) -> bool {
    status == a || status == b
}

impl Backend {
    /// The encryption headers a request carries: on writes the mode and
    /// KMS key id, on every request that sends or reads object data the
    /// customer-key triplet.
    pub open spec fn spec_sse_headers(&self, is_write: bool) -> Seq<(Seq<char>, Seq<char>)> {
        let write_part = if is_write {
            opt_header("x-amz-server-side-encryption"@, self.server_side_encryption.deep_view())
                + opt_header(
                "x-amz-server-side-encryption-aws-kms-key-id"@,
                self.server_side_encryption_aws_kms_key_id.deep_view(),
            )
        } else {
            Seq::empty()
        };
        write_part + opt_header(
            "x-amz-server-side-encryption-customer-algorithm"@,
            self.server_side_encryption_customer_algorithm.deep_view(),
        ) + opt_header(
            "x-amz-server-side-encryption-customer-key"@,
            self.server_side_encryption_customer_key.deep_view(),
        ) + opt_header(
            "x-amz-server-side-encryption-customer-key-md5"@,
            self.server_side_encryption_customer_key_md5.deep_view(),
        )
    }

    /// The store key of a user path.
    pub fn get_abs_path(&self, path: &str) -> (r: String)
        ensures
            r@ == abs_path(self.root@, path@),
    {
        proof {
            reveal_strlit("/");
        }
        if same_text(path, "/") {
            strip_start(self.root.as_str(), '/')
        } else {
            let full = join(self.root.as_str(), path);
            strip_start(full.as_str(), '/')
        }
    }

    /// The user path of a store key under the root.
    pub fn get_rel_path(&self, abs: &str) -> (r: String)
        requires
            under_root(self.root@, abs@),
        ensures
            r@ == rel_path(self.root@, abs@),
    {
        proof {
            reveal_strlit("/");
        }
        let full = join("/", abs);
        let n = full.as_str().unicode_len();
        let m = self.root.as_str().unicode_len();
        text_of(full.as_str().substring_char(m, n))
    }

    /// Appends the encryption headers to `headers`.
    pub fn insert_sse_headers(&self, headers: &mut Vec<(String, String)>, is_write: bool)
        ensures
            headers_view(final(headers)@) == headers_view(old(headers)@) + self.spec_sse_headers(is_write),
    {
        proof {
            reveal_strlit("x-amz-server-side-encryption");
            reveal_strlit("x-amz-server-side-encryption-aws-kms-key-id");
            reveal_strlit("x-amz-server-side-encryption-customer-algorithm");
            reveal_strlit("x-amz-server-side-encryption-customer-key");
            reveal_strlit("x-amz-server-side-encryption-customer-key-md5");
        }
        let ghost start = headers_view(headers@);
        if is_write {
            push_opt_header(headers, "x-amz-server-side-encryption", &self.server_side_encryption);
            push_opt_header(
                headers,
                "x-amz-server-side-encryption-aws-kms-key-id",
                &self.server_side_encryption_aws_kms_key_id,
            );
        }
        push_opt_header(
            headers,
            "x-amz-server-side-encryption-customer-algorithm",
            &self.server_side_encryption_customer_algorithm,
        );
        push_opt_header(
            headers,
            "x-amz-server-side-encryption-customer-key",
            &self.server_side_encryption_customer_key,
        );
        push_opt_header(
            headers,
            "x-amz-server-side-encryption-customer-key-md5",
            &self.server_side_encryption_customer_key_md5,
        );
        assert(headers_view(headers@) =~= start + self.spec_sse_headers(is_write));
    }

    fn object_url(&self, key: &str) -> (r: String)
        ensures
            r@ == object_url(self.endpoint@, key@),
    {
        proof {
            reveal_strlit("/");
        }
        let head = join(self.endpoint.as_str(), "/");
        join(head.as_str(), key)
    }

    /// `GET` of a store key, with a `Range` header when a window is given
    /// and the customer-key headers; a window whose last byte has no
    /// 64-bit position, or of size 0, cannot be requested.
    pub fn get_object(&self, path: &str, offset: Option<u64>, size: Option<u64>) -> (r: Result<S3Request, ObjectError>)
        ensures
            !(BytesRange { offset, size }).expressible() ==> (r matches Err(e) && e.spec_is(
                ErrorKind::Other,
                Operation::Read,
                path@,
                Cause::InvalidRange,
            )),
            (BytesRange { offset, size }).expressible() ==> (r matches Ok(q) && q.method == Method::Get
                && q.url@ == object_url(self.endpoint@, path@) && q.spec_headers() == (if offset is Some
                || size is Some {
                seq![("range"@, (BytesRange { offset, size }).spec_header())]
            } else {
                Seq::empty()
            }) + self.spec_sse_headers(false)),
    {
        proof {
            reveal_strlit("range");
        }
        let range = BytesRange::new(offset, size);
        let ok = match size {
            Some(s) => s > 0 && match offset {
                Some(o) => o <= u64::MAX - (s - 1),
                None => true,
            },
            None => true,
        };
        if !ok {
            return Err(ObjectError::new(ErrorKind::Other, Operation::Read, path, Cause::InvalidRange));
        }
        let mut headers: Vec<(String, String)> = Vec::new();
        if offset.is_some() || size.is_some() {
            headers.push((text_of("range"), range.to_header()));
        }
        let ghost first = headers_view(headers@);
        assert(first =~= (if offset is Some || size is Some {
            seq![("range"@, range.spec_header())]
        } else {
            Seq::empty()
        }));
        self.insert_sse_headers(&mut headers, false);
        Ok(S3Request { method: Method::Get, url: self.object_url(path), headers })
    }

    /// `PUT` of a store key with a declared content length and the write
    /// encryption headers.
    pub fn put_object(&self, path: &str, size: u64) -> (r: S3Request)
        ensures
            r.method == Method::Put,
            r.url@ == object_url(self.endpoint@, path@),
            r.spec_headers() == seq![("content-length"@, decimal(size as nat))]
                + self.spec_sse_headers(true),
    {
        proof {
            reveal_strlit("content-length");
        }
        let mut headers: Vec<(String, String)> = Vec::new();
        headers.push((text_of("content-length"), decimal_text(size)));
        assert(headers_view(headers@) =~= seq![("content-length"@, decimal(size as nat))]);
        self.insert_sse_headers(&mut headers, true);
        S3Request { method: Method::Put, url: self.object_url(path), headers }
    }

    /// `HEAD` of a store key with the customer-key headers.
    pub fn head_object(&self, path: &str) -> (r: S3Request)
        ensures
            r.method == Method::Head,
            r.url@ == object_url(self.endpoint@, path@),
            r.spec_headers() == self.spec_sse_headers(false),
    {
        let mut headers: Vec<(String, String)> = Vec::new();
        assert(headers_view(headers@) =~= Seq::<(Seq<char>, Seq<char>)>::empty());
        self.insert_sse_headers(&mut headers, false);
        assert(headers_view(headers@) =~= self.spec_sse_headers(false));
        S3Request { method: Method::Head, url: self.object_url(path), headers }
    }

    /// `DELETE` of a store key.
    pub fn delete_object(&self, path: &str) -> (r: S3Request)
        ensures
            r.method == Method::Delete,
            r.url@ == object_url(self.endpoint@, path@),
            r.headers@.len() == 0,
    {
        S3Request { method: Method::Delete, url: self.object_url(path), headers: Vec::new() }
    }

    /// `GET` of one listing page under `path`, one level deep.
    pub fn list_objects(&self, path: &str, continuation_token: &str) -> (r: S3Request)
        ensures
            r.method == Method::Get,
            r.url@ == list_url(self.endpoint@, path@, continuation_token@),
            r.headers@.len() == 0,
    {
        proof {
            reveal_strlit("?list-type=2&delimiter=/&prefix=");
            reveal_strlit("&continuation-token=");
        }
        let head = join(self.endpoint.as_str(), "?list-type=2&delimiter=/&prefix=");
        let prefix = url_encoded(path);
        let base = join(head.as_str(), prefix.as_str());
        let url = if continuation_token.unicode_len() == 0 {
            base
        } else {
            let with_key = join(base.as_str(), "&continuation-token=");
            let token = url_encoded(continuation_token);
            join(with_key.as_str(), token.as_str())
        };
        S3Request { method: Method::Get, url, headers: Vec::new() }
    }
}

fn check_status(status: u16, a: u16, b: u16, op: Operation, path: &str) -> (r: Result<(), ObjectError>)
    ensures
        accepted(status, a, b) ==> r is Ok,
        !accepted(status, a, b) ==> (r matches Err(e) && e.spec_is(
            spec_error_kind(status),
            op,
            path@,
            Cause::Status(status),
        )),
{
    if status == a || status == b {
        Ok(())
    } else {
        Err(ObjectError::new(parse_error_kind(status), op, path, Cause::Status(status)))
    }
}

/// What `stat` does: answer at once for the root, or send a request.
#[derive(Debug)]
pub enum StatStep {
    Done(ObjectMetadata),
    Request(S3Request),
}

/// A writer's view of an upload: it counts the bytes handed to the request
/// body and, on close, holds them and the response to the declared size.
#[derive(Debug)]
pub struct BodyWriter {
    pub path: String,
    pub size: u64,
    pub written: u64,
}

impl BodyWriter {
    /// Counts a chunk handed to the body; the count stops at `u64::MAX`.
    pub fn write(&mut self, len: usize)
        ensures
            final(self).path == old(self).path,
            final(self).size == old(self).size,
            final(self).written == if old(self).written + len > u64::MAX {
                u64::MAX as int
            } else {
                old(self).written + len
            },
    {
        let len = len as u64;
        if self.written > u64::MAX - len {
            self.written = u64::MAX;
        } else {
            self.written = self.written + len;
        }
    }

    /// The outcome of the upload once the body has ended and the service
    /// answered: a count other than the declared size fails first, then
    /// any status but 200 or 201.
    pub fn close(&self, status: u16) -> (r: Result<(), ObjectError>)
        ensures
            self.written != self.size ==> (r matches Err(e) && e.spec_is(
                ErrorKind::Other,
                Operation::Write,
                self.path@,
                Cause::ShortWrite,
            )),
            self.written == self.size && accepted(status, 200, 201) ==> r is Ok,
            self.written == self.size && !accepted(status, 200, 201) ==> (r matches Err(e)
                && e.spec_is(spec_error_kind(status), Operation::Write, self.path@, Cause::Status(status))),
    {
        if self.written != self.size {
            return Err(ObjectError::new(ErrorKind::Other, Operation::Write, self.path.as_str(), Cause::ShortWrite));
        }
        check_status(status, 200, 201, Operation::Write, self.path.as_str())
    }
}

impl Backend {
    /// The request that creates an empty object: a `PUT` of length 0.
    pub fn create(&self, args: &OpCreate) -> (r: S3Request)
        ensures
            r.method == Method::Put,
            r.url@ == object_url(self.endpoint@, abs_path(self.root@, args.path@)),
            r.spec_headers() == seq![("content-length"@, decimal(0))] + self.spec_sse_headers(true),
    {
        let p = self.get_abs_path(args.path.as_str());
        self.put_object(p.as_str(), 0)
    }

    /// The outcome of a create: 200 and 201 succeed.
    pub fn create_done(&self, args: &OpCreate, status: u16) -> (r: Result<(), ObjectError>)
        ensures
            accepted(status, 200, 201) ==> r is Ok,
            !accepted(status, 200, 201) ==> (r matches Err(e) && e.spec_is(
                spec_error_kind(status),
                Operation::Create,
                args.path@,
                Cause::Status(status),
            )),
    {
        check_status(status, 200, 201, Operation::Create, args.path.as_str())
    }

    /// The request that reads a window of an object.
    pub fn read(&self, args: &OpRead) -> (r: Result<S3Request, ObjectError>)
        ensures
            !(BytesRange { offset: args.offset, size: args.size }).expressible() ==> r is Err,
            (BytesRange { offset: args.offset, size: args.size }).expressible() ==> (r matches Ok(q)
                && q.method == Method::Get && q.url@ == object_url(
                self.endpoint@,
                abs_path(self.root@, args.path@),
            ) && q.spec_headers() == (if args.offset is Some || args.size is Some {
                seq![("range"@, (BytesRange { offset: args.offset, size: args.size }).spec_header())]
            } else {
                Seq::empty()
            }) + self.spec_sse_headers(false)),
    {
        let p = self.get_abs_path(args.path.as_str());
        self.get_object(p.as_str(), args.offset, args.size)
    }

    /// The outcome of a read: 200 and 206 hand the body on as the reader.
    pub fn read_done(&self, args: &OpRead, status: u16) -> (r: Result<(), ObjectError>)
        ensures
            accepted(status, 200, 206) ==> r is Ok,
            !accepted(status, 200, 206) ==> (r matches Err(e) && e.spec_is(
                spec_error_kind(status),
                Operation::Read,
                args.path@,
                Cause::Status(status),
            )),
    {
        check_status(status, 200, 206, Operation::Read, args.path.as_str())
    }

    /// The upload request of exactly `args.size` bytes and the writer that
    /// checks the body against it.
    pub fn write(&self, args: &OpWrite) -> (r: (S3Request, BodyWriter))
        ensures
            r.0.method == Method::Put,
            r.0.url@ == object_url(self.endpoint@, abs_path(self.root@, args.path@)),
            r.0.spec_headers() == seq![("content-length"@, decimal(args.size as nat))]
                + self.spec_sse_headers(true),
            r.1.path@ == args.path@,
            r.1.size == args.size,
            r.1.written == 0,
    {
        let p = self.get_abs_path(args.path.as_str());
        let req = self.put_object(p.as_str(), args.size);
        (req, BodyWriter { path: text_of(args.path.as_str()), size: args.size, written: 0 })
    }

    /// Whether a user path names the backend's root.
    pub open spec fn is_root(&self, path: Seq<char>) -> bool {
        "/"@ + abs_path(self.root@, path) == self.root@
    }

    /// `stat` of the root is a directory and needs no request; any other
    /// path is asked with a `HEAD`.
    pub fn stat(&self, args: &OpStat) -> (r: StatStep)
        ensures
            self.is_root(args.path@) ==> (r matches StatStep::Done(m) && m.is_bare(ObjectMode::DIR)),
            !self.is_root(args.path@) ==> (r matches StatStep::Request(q) && q.method == Method::Head
                && q.url@ == object_url(self.endpoint@, abs_path(self.root@, args.path@))
                && q.spec_headers() == self.spec_sse_headers(false)),
    {
        proof {
            reveal_strlit("/");
        }
        let p = self.get_abs_path(args.path.as_str());
        let full = join("/", p.as_str());
        if same_text(full.as_str(), self.root.as_str()) {
            return StatStep::Done(ObjectMetadata::new(ObjectMode::DIR));
        }
        StatStep::Request(self.head_object(p.as_str()))
    }

    /// The metadata that the answer to a `HEAD` gives. On 200: the length,
    /// the ETag and, without its quotes, the content MD5, the last
    /// modification, and the mode that the key's form tells; a length or a
    /// date that cannot be read fails. On 404 for a key that ends with a
    /// slash: a directory. Otherwise an error.
    pub fn stat_done(
        &self,
        args: &OpStat,
        status: u16,
        content_length: Option<&str>,
        etag: Option<&str>,
        last_modified: Option<&str>,
    ) -> (r: Result<ObjectMetadata, ObjectError>)
        ensures
            ({
                let abs = abs_path(self.root@, args.path@);
                let bad_length = content_length matches Some(c) && (!all_digits(c@) || digits_value(c@)
                    > u64::MAX);
                let bad_date = last_modified matches Some(t) && spec_parse_http_date(t@) is None;
                &&& status == 200 && (bad_length || bad_date) ==> (r matches Err(e) && e.spec_is(
                    ErrorKind::Other,
                    Operation::Stat,
                    args.path@,
                    Cause::InvalidHeader,
                ))
                &&& status == 200 && !bad_length && !bad_date ==> (r matches Ok(m) && m.mode
                    == mode_of_key(abs) && m.content_length == match content_length {
                    Some(c) => Some(digits_value(c@) as u64),
                    None => None,
                } && m.etag.deep_view() == match etag {
                    Some(t) => Some(t@),
                    None => None,
                } && m.content_md5.deep_view() == match etag {
                    Some(t) => Some(trim_end(trim_start(t@, '"'), '"')),
                    None => None,
                } && m.last_modified == match last_modified {
                    Some(t) => spec_parse_http_date(t@),
                    None => None,
                })
                &&& status == 404 && ends_with_slash(abs) ==> (r matches Ok(m) && m.is_bare(
                    ObjectMode::DIR,
                ))
                &&& status != 200 && !(status == 404 && ends_with_slash(abs)) ==> (r matches Err(e)
                    && e.spec_is(
                    spec_error_kind(status),
                    Operation::Stat,
                    args.path@,
                    Cause::Status(status),
                ))
            }),
    {
        let p = self.get_abs_path(args.path.as_str());
        let path = args.path.as_str();
        if status == 200 {
            let length = match content_length {
                Some(c) => match parse_decimal(c) {
                    Some(v) => Some(v),
                    None => {
                        return Err(ObjectError::new(ErrorKind::Other, Operation::Stat, path, Cause::InvalidHeader));
                    },
                },
                None => None,
            };
            let mode = if slash_at_end(p.as_str()) {
                ObjectMode::DIR
            } else {
                ObjectMode::FILE
            };
            let mut m = ObjectMetadata::new(mode);
            m.content_length = length;
            if let Some(t) = etag {
                m.etag = Some(text_of(t));
                let unquoted = strip_start(t, '"');
                m.content_md5 = Some(strip_end(unquoted.as_str(), '"'));
            }
            if let Some(t) = last_modified {
                match parse_http_date(t) {
                    Some(d) => m.last_modified = Some(d),
                    None => {
                        return Err(ObjectError::new(ErrorKind::Other, Operation::Stat, path, Cause::InvalidHeader));
                    },
                }
            }
            return Ok(m);
        }
        if status == 404 && slash_at_end(p.as_str()) {
            return Ok(ObjectMetadata::new(ObjectMode::DIR));
        }
        Err(ObjectError::new(parse_error_kind(status), Operation::Stat, path, Cause::Status(status)))
    }

    /// The request that deletes an object.
    pub fn delete(&self, args: &OpDelete) -> (r: S3Request)
        ensures
            r.method == Method::Delete,
            r.url@ == object_url(self.endpoint@, abs_path(self.root@, args.path@)),
            r.headers@.len() == 0,
    {
        let p = self.get_abs_path(args.path.as_str());
        self.delete_object(p.as_str())
    }

    /// The outcome of a listing page: 200 hands the body on to
    /// [`parse_list_page`].
    pub fn list_done(&self, pager: &ListPager, status: u16) -> (r: Result<(), ObjectError>)
        ensures
            status == 200 ==> r is Ok,
            status != 200 ==> (r matches Err(e) && e.spec_is(
                spec_error_kind(status),
                Operation::List,
                pager.prefix@,
                Cause::Status(status),
            )),
    {
        check_status(status, 200, 200, Operation::List, pager.prefix.as_str())
    }

    /// The outcome of a delete: 204 succeeds, whether or not the key existed.
    pub fn delete_done(&self, args: &OpDelete, status: u16) -> (r: Result<(), ObjectError>)
        ensures
            status == 204 ==> r is Ok,
            status != 204 ==> (r matches Err(e) && e.spec_is(
                spec_error_kind(status),
                Operation::Delete,
                args.path@,
                Cause::Status(status),
            )),
    {
        check_status(status, 204, 204, Operation::Delete, args.path.as_str())
    }
}

/// `stat` of `/` never needs a request: the path names the root.
pub proof fn lemma_root_stat_is_local(b: Backend)
    requires
        b.wf(),
    ensures
        b.is_root("/"@),
{
    reveal_strlit("/");
    let root = b.root@;
    let t = root.drop_first();
    assert(root =~= seq!['/'] + t);
    assert(trim_start(root, '/') == trim_start(t, '/'));
    if t.len() > 0 {
        if t[0] == '/' {
            assert(root[0] == '/' && root[0int + 1] == '/');
        }
    }
    assert(trim_start(t, '/') == t);
    assert("/"@ + t =~= root);
}

/// The entries that the store keys `keys` of one page give, in order, as
/// user path and `mode`; a key outside the root gives none.
pub open spec fn page_entries(root: Seq<char>, keys: Seq<Seq<char>>, mode: ObjectMode) -> Seq<
    (Seq<char>, ObjectMode),
>
    decreases keys.len(),
{
    if keys.len() == 0 {
        Seq::empty()
    } else {
        let k = keys.last();
        page_entries(root, keys.drop_last(), mode) + if under_root(root, k) {
            seq![(rel_path(root, k), mode)]
        } else {
            Seq::empty()
        }
    }
}

/// The paths and modes of entries.
pub open spec fn entries_view(v: Seq<DirEntry>) -> Seq<(Seq<char>, ObjectMode)> {
    v.map_values(|e: DirEntry| (e.path@, e.mode))
}

/// The strings' texts.
pub open spec fn texts(v: Seq<String>) -> Seq<Seq<char>> {
    v.map_values(|s: String| s@)
}

/// The state of a lazy listing: the directory prefix, the token that the
/// next page continues at, and whether the last page has been read.
#[derive(Debug)]
pub struct ListPager {
    pub prefix: String,
    pub token: String,
    pub done: bool,
}

/// The directory prefix that a listing sends: the store key, with a slash
/// added when it has none and is not empty.
pub open spec fn list_prefix_of(abs: Seq<char>) -> Seq<char> {
    if !ends_with_slash(abs) && abs.len() > 0 {
        abs + "/"@
    } else {
        abs
    }
}

fn is_under_root(root: &str, abs: &str) -> (r: bool)
    ensures
        r == under_root(root@, abs@),
{
    proof {
        reveal_strlit("/");
    }
    let full = join("/", abs);
    has_prefix(full.as_str(), root)
}

impl Backend {
    /// A listing of the immediate children of a directory, not started yet.
    pub fn list(&self, args: &OpList) -> (r: ListPager)
        ensures
            r.prefix@ == list_prefix_of(abs_path(self.root@, args.path@)),
            r.token@.len() == 0,
            !r.done,
    {
        proof {
            reveal_strlit("/");
        }
        let p = self.get_abs_path(args.path.as_str());
        let prefix = if !slash_at_end(p.as_str()) && p.as_str().unicode_len() != 0 {
            join(p.as_str(), "/")
        } else {
            p
        };
        ListPager { prefix, token: String::new(), done: false }
    }

    /// The request of the next page, or `None` once the listing is done.
    pub fn next_page(&self, pager: &ListPager) -> (r: Option<S3Request>)
        ensures
            pager.done ==> r is None,
            !pager.done ==> (r matches Some(q) && q.method == Method::Get && q.url@ == list_url(
                self.endpoint@,
                pager.prefix@,
                pager.token@,
            )),
    {
        if pager.done {
            None
        } else {
            Some(self.list_objects(pager.prefix.as_str(), pager.token.as_str()))
        }
    }

    fn push_page_entries(&self, out: &mut Vec<DirEntry>, keys: &Vec<String>, mode: ObjectMode)
        ensures
            entries_view(final(out)@) == entries_view(old(out)@) + page_entries(
                self.root@,
                texts(keys@),
                mode,
            ),
    {
        let mut i: usize = 0;
        assert(texts(keys@).subrange(0, 0) =~= Seq::<Seq<char>>::empty());
        assert(entries_view(out@) =~= entries_view(old(out)@) + page_entries(
            self.root@,
            texts(keys@).subrange(0, 0),
            mode,
        ));
        while i < keys.len()
            invariant
                i <= keys@.len(),
                entries_view(out@) == entries_view(old(out)@) + page_entries(
                    self.root@,
                    texts(keys@).subrange(0, i as int),
                    mode,
                ),
            decreases keys@.len() - i,
        {
            let k = keys[i].as_str();
            let ghost before = entries_view(out@);
            assert(texts(keys@).subrange(0, i + 1).drop_last() =~= texts(keys@).subrange(0, i as int));
            assert(texts(keys@).subrange(0, i + 1).last() == k@);
            if is_under_root(self.root.as_str(), k) {
                let rel = self.get_rel_path(k);
                out.push(DirEntry { mode, path: rel });
                assert(entries_view(out@) =~= before + seq![(rel_path(self.root@, k@), mode)]);
            }
            proof {
                assert(entries_view(out@) =~= entries_view(old(out)@) + page_entries(
                    self.root@,
                    texts(keys@).subrange(0, i + 1),
                    mode,
                ));
            }
            i = i + 1;
        }
        assert(texts(keys@).subrange(0, keys@.len() as int) =~= texts(keys@));
    }

    /// The entries of one answered page, object keys as files and common
    /// prefixes as directories, and the pager moved on: to the next token
    /// while the page is truncated and names one, else to done.
    pub fn page_done(
        &self,
        pager: &mut ListPager,
        is_truncated: bool,
        next_token: Option<&str>,
        keys: &Vec<String>,
        common_prefixes: &Vec<String>,
    ) -> (r: Vec<DirEntry>)
        ensures
            entries_view(r@) == page_entries(self.root@, texts(keys@), ObjectMode::FILE)
                + page_entries(self.root@, texts(common_prefixes@), ObjectMode::DIR),
            final(pager).prefix == old(pager).prefix,
            is_truncated && next_token is Some ==> !final(pager).done && final(pager).token@
                == next_token->0@,
            !(is_truncated && next_token is Some) ==> final(pager).done,
    {
        let mut out: Vec<DirEntry> = Vec::new();
        assert(entries_view(out@) =~= Seq::<(Seq<char>, ObjectMode)>::empty());
        self.push_page_entries(&mut out, keys, ObjectMode::FILE);
        self.push_page_entries(&mut out, common_prefixes, ObjectMode::DIR);
        assert(entries_view(out@) =~= page_entries(self.root@, texts(keys@), ObjectMode::FILE)
            + page_entries(self.root@, texts(common_prefixes@), ObjectMode::DIR));
        match next_token {
            Some(t) => {
                if is_truncated {
                    pager.token = text_of(t);
                    pager.done = false;
                } else {
                    pager.done = true;
                }
            },
            None => {
                pager.done = true;
            },
        }
        out
    }
}

/// How a field shows in a description: its text, or empty when unset.
pub open spec fn shown(v: Option<Seq<char>>) -> Seq<char> {
    match v {
        Some(x) => x,
        None => Seq::empty(),
    }
}

/// How a flag shows in a description.
pub open spec fn shown_flag(b: bool) -> Seq<char> {
    if b {
        "true"@
    } else {
        "false"@
    }
}

/// A secret field shows only that it is set.
pub open spec fn redacted(name: Seq<char>, v: Option<Seq<char>>) -> Seq<(Seq<char>, Seq<char>)> {
    match v {
        Some(_) => seq![(name, "<redacted>"@)],
        None => Seq::empty(),
    }
}

/// The description of a configuration: the plain fields with their values,
/// then each secret field that is set, with its value withheld.
pub open spec fn spec_description(b: BuilderView) -> Seq<(Seq<char>, Seq<char>)> {
    plain_fields(b) + redacted("access_key_id"@, b.access_key_id) + redacted(
        "secret_access_key"@,
        b.secret_access_key,
    ) + redacted("server_side_encryption"@, b.server_side_encryption) + redacted(
        "server_side_encryption_aws_kms_key_id"@,
        b.server_side_encryption_aws_kms_key_id,
    ) + redacted(
        "server_side_encryption_customer_algorithm"@,
        b.server_side_encryption_customer_algorithm,
    ) + redacted("server_side_encryption_customer_key"@, b.server_side_encryption_customer_key)
        + redacted("server_side_encryption_customer_key_md5"@, b.server_side_encryption_customer_key_md5)
}

fn shown_text(v: &Option<String>) -> (r: String)
    ensures
        r@ == shown(v.deep_view()),
{
    match v {
        Some(x) => text_of(x.as_str()),
        None => String::new(),
    }
}

fn flag_text(b: bool) -> (r: String)
    ensures
        r@ == shown_flag(b),
{
    proof {
        reveal_strlit("true");
        reveal_strlit("false");
    }
    if b {
        text_of("true")
    } else {
        text_of("false")
    }
}

fn push_redacted(out: &mut Vec<(String, String)>, name: &str, v: &Option<String>)
    ensures
        headers_view(final(out)@) == headers_view(old(out)@) + redacted(name@, v.deep_view()),
{
    proof {
        reveal_strlit("<redacted>");
    }
    if v.is_some() {
        out.push((text_of(name), text_of("<redacted>")));
    }
    assert(headers_view(out@) =~= headers_view(old(out)@) + redacted(name@, v.deep_view()));
}

/// The fields of a description that are shown in full.
pub open spec fn plain_fields(b: BuilderView) -> Seq<(Seq<char>, Seq<char>)> {
    seq![
        ("root"@, shown(b.root)),
        ("bucket"@, b.bucket),
        ("endpoint"@, shown(b.endpoint)),
        ("region"@, shown(b.region)),
        ("disable_credential_loader"@, shown_flag(b.disable_credential_loader)),
        ("enable_virtual_host_style"@, shown_flag(b.enable_virtual_host_style)),
    ]
}

impl Builder {
    fn plain_description(&self) -> (r: Vec<(String, String)>)
        ensures
            headers_view(r@) == plain_fields(self@),
    {
        proof {
            reveal_strlit("root");
            reveal_strlit("bucket");
            reveal_strlit("endpoint");
            reveal_strlit("region");
            reveal_strlit("disable_credential_loader");
            reveal_strlit("enable_virtual_host_style");
        }
        let mut out: Vec<(String, String)> = Vec::new();
        out.push((text_of("root"), shown_text(&self.root)));
        out.push((text_of("bucket"), text_of(self.bucket.as_str())));
        out.push((text_of("endpoint"), shown_text(&self.endpoint)));
        out.push((text_of("region"), shown_text(&self.region)));
        out.push((text_of("disable_credential_loader"), flag_text(self.disable_credential_loader)));
        out.push((text_of("enable_virtual_host_style"), flag_text(self.enable_virtual_host_style)));
        assert(headers_view(out@) =~= plain_fields(self@));
        out
    }

    /// The configuration as field names and values for logs, with the
    /// credentials and encryption values withheld.
    pub fn description(&self) -> (r: Vec<(String, String)>)
        ensures
            headers_view(r@) == spec_description(self@),
    {
        proof {
            reveal_strlit("access_key_id");
            reveal_strlit("secret_access_key");
            reveal_strlit("server_side_encryption");
            reveal_strlit("server_side_encryption_aws_kms_key_id");
            reveal_strlit("server_side_encryption_customer_algorithm");
            reveal_strlit("server_side_encryption_customer_key");
            reveal_strlit("server_side_encryption_customer_key_md5");
        }
        let mut out = self.plain_description();
        push_redacted(&mut out, "access_key_id", &self.access_key_id);
        push_redacted(&mut out, "secret_access_key", &self.secret_access_key);
        push_redacted(&mut out, "server_side_encryption", &self.server_side_encryption);
        push_redacted(&mut out, "server_side_encryption_aws_kms_key_id", &self.server_side_encryption_aws_kms_key_id);
        push_redacted(
            &mut out,
            "server_side_encryption_customer_algorithm",
            &self.server_side_encryption_customer_algorithm,
        );
        push_redacted(&mut out, "server_side_encryption_customer_key", &self.server_side_encryption_customer_key);
        push_redacted(
            &mut out,
            "server_side_encryption_customer_key_md5",
            &self.server_side_encryption_customer_key_md5,
        );
        out
    }
}

/// One page of a listing as the service sent it.
#[derive(Debug)]
pub struct ListPage {
    /// The keys of the objects directly under the prefix.
    pub keys: Vec<String>,
    /// The prefixes of the directories directly under the prefix.
    pub common_prefixes: Vec<String>,
    pub is_truncated: bool,
    pub next_token: Option<String>,
}

/// The texts of the `open`…`close` pairs of each block, block after block.
pub open spec fn nested_tag_values(blocks: Seq<Seq<char>>, open: Seq<char>, close: Seq<char>) -> Seq<
    Seq<char>,
>
    decreases blocks.len(),
{
    if blocks.len() == 0 {
        Seq::empty()
    } else {
        nested_tag_values(blocks.drop_last(), open, close) + tag_values(blocks.last(), open, close)
    }
}

/// The first value of a tag, if the document has one.
pub open spec fn first_value(s: Seq<char>, open: Seq<char>, close: Seq<char>) -> Option<Seq<char>> {
    let v = tag_values(s, open, close);
    if v.len() > 0 {
        Some(v[0])
    } else {
        None
    }
}

/// Each text with its XML entities decoded.
pub open spec fn unescape_each(v: Seq<Seq<char>>) -> Seq<Seq<char>> {
    v.map_values(|t: Seq<char>| xml_unescape(t))
}

fn unescape_texts(v: &Vec<String>) -> (r: Vec<String>)
    ensures
        texts(r@) == unescape_each(texts(v@)),
{
    let r = unescape_all(v);
    assert(texts(r@) =~= unescape_each(texts(v@)));
    r
}

/// Reads a `ListObjectsV2` answer, with entities decoded: the `Key` of each object, the `Prefix`
/// inside each `CommonPrefixes`, whether `IsTruncated` is `true`, and the
/// `NextContinuationToken`.
pub fn parse_list_page(body: &str) -> (r: ListPage)
    ensures
        texts(r.keys@) == unescape_each(tag_values(body@, "<Key>"@, "</Key>"@)),
        texts(r.common_prefixes@) == unescape_each(
            nested_tag_values(
                tag_values(body@, "<CommonPrefixes>"@, "</CommonPrefixes>"@),
                "<Prefix>"@,
                "</Prefix>"@,
            ),
        ),
        r.is_truncated == (first_value(body@, "<IsTruncated>"@, "</IsTruncated>"@) == Some("true"@)),
        r.next_token.deep_view() == match first_value(
            body@,
            "<NextContinuationToken>"@,
            "</NextContinuationToken>"@,
        ) {
            Some(t) => Some(xml_unescape(t)),
            None => None,
        },
{
    proof {
        reveal_strlit("<Key>");
        reveal_strlit("</Key>");
        reveal_strlit("<CommonPrefixes>");
        reveal_strlit("</CommonPrefixes>");
        reveal_strlit("<Prefix>");
        reveal_strlit("</Prefix>");
        reveal_strlit("<IsTruncated>");
        reveal_strlit("</IsTruncated>");
        reveal_strlit("<NextContinuationToken>");
        reveal_strlit("true");
    }
    let keys = tag_texts(body, "<Key>", "</Key>");
    let blocks = tag_texts(body, "<CommonPrefixes>", "</CommonPrefixes>");
    let mut common_prefixes: Vec<String> = Vec::new();
    let mut i: usize = 0;
    assert(texts(blocks@).subrange(0, 0) =~= Seq::<Seq<char>>::empty());
    assert(texts(common_prefixes@) =~= Seq::<Seq<char>>::empty());
    while i < blocks.len()
        invariant
            i <= blocks@.len(),
            texts(common_prefixes@) == nested_tag_values(
                texts(blocks@).subrange(0, i as int),
                "<Prefix>"@,
                "</Prefix>"@,
            ),
        decreases blocks@.len() - i,
    {
        proof {
            reveal_strlit("<Prefix>");
        }
        let found = tag_texts(blocks[i].as_str(), "<Prefix>", "</Prefix>");
        let mut j: usize = 0;
        let ghost start = texts(common_prefixes@);
        assert(texts(found@).subrange(0, 0) =~= Seq::<Seq<char>>::empty());
        assert(texts(common_prefixes@) =~= start + texts(found@).subrange(0, 0));
        while j < found.len()
            invariant
                j <= found@.len(),
                texts(common_prefixes@) == start + texts(found@).subrange(0, j as int),
            decreases found@.len() - j,
        {
            let ghost prev = texts(common_prefixes@);
            common_prefixes.push(text_of(found[j].as_str()));
            assert(texts(common_prefixes@) =~= prev.push(found@[j as int]@));
            assert(texts(found@)[j as int] == found@[j as int]@);
            assert(texts(found@).subrange(0, j + 1) =~= texts(found@).subrange(0, j as int).push(
                found@[j as int]@,
            ));
            assert(texts(common_prefixes@) =~= start + texts(found@).subrange(0, j + 1));
            j = j + 1;
        }
        proof {
            assert(texts(found@).subrange(0, found@.len() as int) =~= texts(found@));
            assert(texts(blocks@).subrange(0, i + 1).drop_last() =~= texts(blocks@).subrange(0, i as int));
            assert(texts(blocks@).subrange(0, i + 1).last() == blocks@[i as int]@);
        }
        i = i + 1;
    }
    assert(texts(blocks@).subrange(0, blocks@.len() as int) =~= texts(blocks@));
    let is_truncated = match first_tag_text(body, "<IsTruncated>", "</IsTruncated>") {
        Some(t) => same_text(t.as_str(), "true"),
        None => false,
    };
    let next_token = match first_tag_text(body, "<NextContinuationToken>", "</NextContinuationToken>") {
        Some(t) => Some(unescape(t.as_str())),
        None => None,
    };
    ListPage { keys: unescape_texts(&keys), common_prefixes: unescape_texts(&common_prefixes), is_truncated, next_token }
}

impl Builder {
    /// The configured bucket.
    pub fn bucket_name(&self) -> (r: &str)
        ensures
            r@ == self@.bucket,
    {
        self.bucket.as_str()
    }
}

proof fn lemma_trim_stops(t: Seq<char>)
    requires
        t.len() == 0 || t[0] != '/',
    ensures
        trim_start(t, '/') == t,
{
}

proof fn lemma_abs_is_tail(root: Seq<char>, p: Seq<char>)
    requires
        root_form(root),
        p.len() == 0 || p[0] != '/',
    ensures
        trim_start(root + p, '/') == (root + p).drop_first(),
{
    let full = root + p;
    let t = full.drop_first();
    assert(full[0] == '/');
    assert(trim_start(full, '/') == trim_start(t, '/'));
    if root.len() == 1 {
        assert(t =~= p);
    } else {
        assert(t[0] == root[1]);
        assert(!(root[0] == '/' && root[0int + 1] == '/'));
    }
    lemma_trim_stops(t);
}

/// Paths round-trip through store keys: for a normalized root and a user
/// path that is not `/` and does not start with a slash, the key lies
/// under the root and gives the path back.
#[verifier::spinoff_prover]
pub proof fn lemma_path_round_trip(root: Seq<char>, p: Seq<char>)
    requires
        root_form(root),
        p != "/"@,
        p.len() == 0 || p[0] != '/',
    ensures
        under_root(root, abs_path(root, p)),
        rel_path(root, abs_path(root, p)) == p,
{
    lemma_abs_is_tail(root, p);
    let full = root + p;
    let key = full.drop_first();
    assert(abs_path(root, p) == key);
    reveal_strlit("/");
    let back = "/"@ + key;
    assert(back =~= full);
    assert(back.subrange(0, root.len() as int) =~= root);
    assert(back.subrange(root.len() as int, back.len() as int) =~= p);
}

} // verus!
