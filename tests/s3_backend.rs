use opendal::date::{parse_http_date, HttpDate};
use opendal::error::{BuildFailure, Cause, ErrorKind, Operation, SseOption};
use opendal::error::parse_error_kind;
use opendal::metadata::{ObjectMode, Scheme};
use opendal::ops::{BytesRange, OpCreate, OpDelete, OpList, OpRead, OpStat, OpWrite};
use opendal::s3::{region_from_response, Backend, Builder, Method, RegionStep, StatStep};

fn detect(endpoint: Option<&str>, region: Option<&str>, answer: (u16, Option<&str>)) -> (String, String) {
    let mut b = Builder::default();
    if let Some(e) = endpoint {
        b.endpoint(e);
    }
    if let Some(r) = region {
        b.region(r);
    }
    b.bucket("test");
    match b.detect_region() {
        RegionStep::Known { endpoint, region } => (endpoint, region),
        RegionStep::Probe { url, endpoint } => {
            assert_eq!(url, format!("{endpoint}/test"));
            region_from_response("test", &endpoint, answer.0, answer.1).expect("detect region must success")
        }
    }
}

fn backend(root: &str, virtual_host: bool) -> Backend {
    let mut b = Builder::default();
    b.bucket("test").root(root);
    if virtual_host {
        b.enable_virtual_host_style();
    }
    b.finish_with_region("https://s3.us-east-2.amazonaws.com", "us-east-2").unwrap()
}

#[test]
fn test_detect_region() {
    let endpoint_cases = vec![
        Some("s3.amazonaws.com"),
        Some("https://s3.amazonaws.com"),
        Some("https://s3.us-east-2.amazonaws.com"),
        None,
    ];
    let region_cases = vec![Some("us-east-2"), None];
    for endpoint in &endpoint_cases {
        for region in &region_cases {
            // A stand-in for S3: the global endpoint redirects, the regional one answers.
            let answer = match endpoint {
                Some("https://s3.us-east-2.amazonaws.com") => (200, Some("us-east-2")),
                _ => (301, Some("us-east-2")),
            };
            let (endpoint, region) = detect(*endpoint, *region, answer);
            assert_eq!(endpoint, "https://s3.us-east-2.amazonaws.com");
            assert_eq!(region, "us-east-2");
        }
    }
}

#[test]
fn detect_region_without_endpoint_with_region() {
    let got = detect(None, Some("us-east-2"), (500, None));
    assert_eq!(got, ("https://s3.us-east-2.amazonaws.com".to_string(), "us-east-2".to_string()));
}

#[test]
fn detect_region_bare_host_with_region() {
    let got = detect(Some("s3.amazonaws.com"), Some("us-east-2"), (500, None));
    assert_eq!(got, ("https://s3.us-east-2.amazonaws.com".to_string(), "us-east-2".to_string()));
}

#[test]
fn detect_region_global_with_region() {
    let got = detect(Some("https://s3.amazonaws.com"), Some("us-east-2"), (500, None));
    assert_eq!(got, ("https://s3.us-east-2.amazonaws.com".to_string(), "us-east-2".to_string()));
}

#[test]
fn detect_region_regional_probe_ok() {
    let got = detect(Some("https://s3.us-east-2.amazonaws.com"), None, (200, Some("us-east-2")));
    assert_eq!(got, ("https://s3.us-east-2.amazonaws.com".to_string(), "us-east-2".to_string()));
}

#[test]
fn detect_region_defaults_and_failures() {
    let got = detect(Some("http://127.0.0.1:9000/"), None, (403, None));
    assert_eq!(got, ("http://127.0.0.1:9000".to_string(), "us-east-1".to_string()));
    let e = region_from_response("b", "https://s3.amazonaws.com", 301, None).unwrap_err();
    assert_eq!(e.failure, BuildFailure::RegionMissing);
    assert_eq!(e.kind(), ErrorKind::Other);
    let e = region_from_response("b", "http://minio:9000", 301, Some("eu")).unwrap_err();
    assert_eq!(e.failure, BuildFailure::NoEndpointTemplate);
    let e = region_from_response("b", "http://minio:9000", 500, None).unwrap_err();
    assert_eq!(e.failure, BuildFailure::UnexpectedStatus(500));
}

#[test]
fn detect_region_strips_bucket_subdomain() {
    let mut b = Builder::default();
    b.bucket("test").endpoint("https://test.s3.amazonaws.com");
    match b.detect_region() {
        RegionStep::Probe { url, endpoint } => {
            assert_eq!(endpoint, "https://s3.amazonaws.com");
            assert_eq!(url, "https://s3.amazonaws.com/test");
        }
        RegionStep::Known { .. } => panic!("no region was configured"),
    }
}

#[test]
fn root_is_normalized() {
    assert_eq!(backend("", false).root, "/");
    assert_eq!(backend("abc", false).root, "/abc/");
    assert_eq!(backend("//abc///def//", false).root, "/abc/def/");
    assert_eq!(backend("/", false).root, "/");
}

#[test]
fn endpoint_gets_bucket() {
    assert_eq!(backend("", false).endpoint, "https://s3.us-east-2.amazonaws.com/test");
    assert_eq!(backend("", true).endpoint, "https://test.s3.us-east-2.amazonaws.com");
    let m = backend("/x/", false).metadata();
    assert_eq!(m.scheme, Scheme::S3);
    assert_eq!(m.root, "/x/");
    assert_eq!(m.name, "test");
}

#[test]
fn build_checks_bucket_and_options() {
    let b = Builder::default();
    assert_eq!(b.check().unwrap_err().failure, BuildFailure::EmptyBucket);
    let mut b = Builder::default();
    b.bucket("x").server_side_encryption_aws_kms_key_id("bad\nvalue");
    match b.finish_with_region("https://h", "r") {
        Err(e) => assert_eq!(e.failure, BuildFailure::InvalidOption(SseOption::AwsKmsKeyId)),
        Ok(_) => panic!("an invalid header value must be refused"),
    }
    let mut b = Builder::default();
    b.bucket("x").server_side_encryption_with_s3_key();
    assert!(b.check().is_ok());
}

#[test]
fn paths_under_root() {
    let b = backend("/abc/", false);
    assert_eq!(b.get_abs_path("/"), "abc/");
    assert_eq!(b.get_abs_path("x/y"), "abc/x/y");
    assert_eq!(b.get_rel_path("abc/x/y"), "x/y");
    let r = backend("", false);
    assert_eq!(r.get_abs_path("/"), "");
    assert_eq!(r.get_abs_path("x"), "x");
    assert_eq!(r.get_rel_path("x"), "x");
}

#[test]
fn stat_of_root_sends_nothing() {
    for root in ["", "/abc/", "/a/b/"] {
        let b = backend(root, false);
        match b.stat(&OpStat::new("/")) {
            StatStep::Done(m) => assert_eq!(m.mode, ObjectMode::DIR),
            StatStep::Request(_) => panic!("root stat must not need a request"),
        }
    }
    match backend("/abc/", false).stat(&OpStat::new("file")) {
        StatStep::Request(q) => {
            assert_eq!(q.method, Method::Head);
            assert_eq!(q.url, "https://s3.us-east-2.amazonaws.com/test/abc/file");
        }
        StatStep::Done(_) => panic!("a file needs a request"),
    }
}

#[test]
fn stat_answers() {
    let b = backend("", false);
    let m = b
        .stat_done(&OpStat::new("f"), 200, Some("42"), Some("\"abc\""), Some("Wed, 21 Oct 2015 07:28:00 GMT"))
        .unwrap();
    assert_eq!(m.mode, ObjectMode::FILE);
    assert_eq!(m.content_length, Some(42));
    assert_eq!(m.etag.as_deref(), Some("\"abc\""));
    assert_eq!(m.content_md5.as_deref(), Some("abc"));
    assert_eq!(
        m.last_modified,
        Some(HttpDate { year: 2015, month: 10, day: 21, hour: 7, minute: 28, second: 0 })
    );
    let e = b.stat_done(&OpStat::new("f"), 200, None, None, Some("21 Oct 2015")).unwrap_err();
    assert_eq!(e.cause, Cause::InvalidHeader);
    let m = b.stat_done(&OpStat::new("d/"), 404, None, None, None).unwrap();
    assert_eq!(m.mode, ObjectMode::DIR);
    let e = b.stat_done(&OpStat::new("f"), 404, None, None, None).unwrap_err();
    assert_eq!(e.kind, ErrorKind::NotFound);
    let e = b.stat_done(&OpStat::new("f"), 200, Some("4x"), None, None).unwrap_err();
    assert_eq!(e.cause, Cause::InvalidHeader);
    let e = b.stat_done(&OpStat::new("f"), 200, Some("18446744073709551616"), None, None).unwrap_err();
    assert_eq!(e.cause, Cause::InvalidHeader);
    let m = b.stat_done(&OpStat::new("f"), 200, Some("18446744073709551615"), None, None).unwrap();
    assert_eq!(m.content_length, Some(u64::MAX));
}

#[test]
fn status_codes_map_to_kinds() {
    assert_eq!(parse_error_kind(404), ErrorKind::NotFound);
    assert_eq!(parse_error_kind(403), ErrorKind::PermissionDenied);
    for c in [500, 502, 503, 504] {
        assert_eq!(parse_error_kind(c), ErrorKind::Interrupted);
    }
    assert_eq!(parse_error_kind(400), ErrorKind::Other);
    assert_eq!(parse_error_kind(501), ErrorKind::Other);
}

#[test]
fn range_headers() {
    assert_eq!(BytesRange::new(Some(10), Some(5)).to_header(), "bytes=10-14");
    assert_eq!(BytesRange::new(None, Some(1)).to_header(), "bytes=0-0");
    assert_eq!(BytesRange::new(Some(7), None).to_header(), "bytes=7-");
}

fn header<'a>(h: &'a [(String, String)], name: &str) -> Option<&'a str> {
    h.iter().find(|(n, _)| n == name).map(|(_, v)| v.as_str())
}

#[test]
fn sse_headers_on_read_and_write() {
    let mut b = Builder::default();
    b.bucket("test").server_side_encryption_with_s3_key().server_side_encryption_with_customer_key("AES256", b"0123456789abcdef0123456789abcdef");
    let s3 = b.finish_with_region("https://s3.us-east-2.amazonaws.com", "us-east-2").unwrap();
    let read = s3.read(&OpRead::new("k", Some(1), Some(2))).unwrap();
    assert_eq!(read.method, Method::Get);
    assert_eq!(header(&read.headers, "range"), Some("bytes=1-2"));
    assert_eq!(header(&read.headers, "x-amz-server-side-encryption"), None);
    assert_eq!(header(&read.headers, "x-amz-server-side-encryption-customer-algorithm"), Some("AES256"));
    assert_eq!(
        header(&read.headers, "x-amz-server-side-encryption-customer-key"),
        Some("MDEyMzQ1Njc4OWFiY2RlZjAxMjM0NTY3ODlhYmNkZWY=")
    );
    let md5 = header(&read.headers, "x-amz-server-side-encryption-customer-key-md5").unwrap();
    assert_eq!(md5.len(), 24);
    assert_ne!(md5, "MDEyMzQ1Njc4OWFiY2RlZjAxMjM0NTY3ODlhYmNkZWY=");
    let (put, _) = s3.write(&OpWrite::new("k", 3));
    assert_eq!(put.method, Method::Put);
    assert_eq!(header(&put.headers, "content-length"), Some("3"));
    assert_eq!(header(&put.headers, "x-amz-server-side-encryption"), Some("AES256"));
    assert_eq!(header(&put.headers, "x-amz-server-side-encryption-customer-key-md5"), Some(md5));
}

#[test]
fn kms_headers_only_on_write() {
    let mut b = Builder::default();
    b.bucket("test").server_side_encryption_with_customer_managed_kms_key("key-1");
    let s3 = b.finish_with_region("https://h", "r").unwrap();
    let (put, _) = s3.write(&OpWrite::new("k", 0));
    assert_eq!(header(&put.headers, "x-amz-server-side-encryption"), Some("aws:kms"));
    assert_eq!(header(&put.headers, "x-amz-server-side-encryption-aws-kms-key-id"), Some("key-1"));
    match s3.stat(&OpStat::new("k")) {
        StatStep::Request(q) => assert!(q.headers.is_empty()),
        StatStep::Done(_) => panic!("a file needs a request"),
    }
}

#[test]
fn object_requests() {
    let s3 = backend("/r/", false);
    let c = s3.create(&OpCreate::new("a", ObjectMode::FILE));
    assert_eq!(c.url, "https://s3.us-east-2.amazonaws.com/test/r/a");
    assert_eq!(header(&c.headers, "content-length"), Some("0"));
    let d = s3.delete(&OpDelete::new("a"));
    assert_eq!(d.method, Method::Delete);
    assert!(s3.read(&OpRead::new("a", None, Some(0))).is_err());
    let plain = s3.read(&OpRead::new("a", None, None)).unwrap();
    assert!(plain.headers.is_empty());
}

#[test]
fn operation_outcomes() {
    let s3 = backend("", false);
    let c = OpCreate::new("a", ObjectMode::FILE);
    assert!(s3.create_done(&c, 201).is_ok());
    assert_eq!(s3.create_done(&c, 403).unwrap_err().kind, ErrorKind::PermissionDenied);
    let r = OpRead::new("a", None, None);
    assert!(s3.read_done(&r, 206).is_ok());
    assert_eq!(s3.read_done(&r, 404).unwrap_err().kind, ErrorKind::NotFound);
    let d = OpDelete::new("a");
    assert!(s3.delete_done(&d, 204).is_ok());
    let e = s3.delete_done(&d, 503).unwrap_err();
    assert_eq!(e.kind, ErrorKind::Interrupted);
    assert_eq!(e.op, Operation::Delete);
}

#[test]
fn body_writer_checks_size_then_status() {
    let s3 = backend("", false);
    let (_, mut w) = s3.write(&OpWrite::new("k", 5));
    w.write(3);
    assert_eq!(w.close(200).unwrap_err().cause, Cause::ShortWrite);
    w.write(2);
    assert!(w.close(200).is_ok());
    assert_eq!(w.close(500).unwrap_err().kind, ErrorKind::Interrupted);
    w.write(1);
    assert_eq!(w.close(200).unwrap_err().kind, ErrorKind::Other);
}

#[test]
fn listing_pages() {
    let s3 = backend("/r/", false);
    let mut pager = s3.list(&OpList::new("dir"));
    assert_eq!(pager.prefix, "r/dir/");
    let q = s3.next_page(&pager).unwrap();
    assert_eq!(q.url, "https://s3.us-east-2.amazonaws.com/test?list-type=2&delimiter=/&prefix=r%2Fdir%2F");
    let keys = vec!["r/dir/a".to_string(), "elsewhere".to_string()];
    let prefixes = vec!["r/dir/sub/".to_string()];
    let entries = s3.page_done(&mut pager, true, Some("a+b/c="), &keys, &prefixes);
    let got: Vec<(String, ObjectMode)> = entries.into_iter().map(|e| (e.path, e.mode)).collect();
    assert_eq!(got, vec![("dir/a".to_string(), ObjectMode::FILE), ("dir/sub/".to_string(), ObjectMode::DIR)]);
    let q = s3.next_page(&pager).unwrap();
    assert!(q.url.ends_with("&continuation-token=a%2Bb%2Fc%3D"));
    let entries = s3.page_done(&mut pager, false, None, &Vec::new(), &Vec::new());
    assert!(entries.is_empty());
    assert!(s3.next_page(&pager).is_none());
    let root = backend("", false).list(&OpList::new("/"));
    assert_eq!(root.prefix, "");
}

#[test]
fn list_page_parsing() {
    let body = "<?xml version=\"1.0\" encoding=\"UTF-8\"?>\
<ListBucketResult><Name>test</Name><Prefix>r/dir/</Prefix>\
<NextContinuationToken>1ueGcxLPRx1Tr</NextContinuationToken><KeyCount>3</KeyCount>\
<Delimiter>/</Delimiter><IsTruncated>true</IsTruncated>\
<Contents><Key>r/dir/a</Key><Size>3</Size></Contents>\
<Contents><Key>r/dir/b</Key><Size>0</Size></Contents>\
<CommonPrefixes><Prefix>r/dir/sub/</Prefix></CommonPrefixes>\
<CommonPrefixes><Prefix>r/dir/other/</Prefix></CommonPrefixes></ListBucketResult>";
    let page = opendal::s3::parse_list_page(body);
    assert_eq!(page.keys, vec!["r/dir/a".to_string(), "r/dir/b".to_string()]);
    assert_eq!(page.common_prefixes, vec!["r/dir/sub/".to_string(), "r/dir/other/".to_string()]);
    assert!(page.is_truncated);
    assert_eq!(page.next_token.as_deref(), Some("1ueGcxLPRx1Tr"));
    let last = opendal::s3::parse_list_page("<ListBucketResult><IsTruncated>false</IsTruncated></ListBucketResult>");
    assert!(last.keys.is_empty());
    assert!(last.common_prefixes.is_empty());
    assert!(!last.is_truncated);
    assert_eq!(last.next_token, None);
}

#[test]
fn description_withholds_secrets() {
    let mut b = Builder::default();
    b.bucket("test").access_key_id("AKID").secret_access_key("SECRET-REDACTED").enable_virtual_host_style();
    let d = b.description();
    assert!(d.contains(&("bucket".to_string(), "test".to_string())));
    assert!(d.contains(&("enable_virtual_host_style".to_string(), "true".to_string())));
    assert!(d.contains(&("access_key_id".to_string(), "<redacted>".to_string())));
    assert!(d.iter().all(|(_, v)| v != "AKID" && v != "SECRET-REDACTED"));
    assert!(!d.iter().any(|(k, _)| k == "server_side_encryption"));
}

#[test]
fn listing_prefix_is_url_encoded() {
    let s3 = backend("", false);
    let pager = s3.list(&OpList::new("a b/ü"));
    assert_eq!(pager.prefix, "a b/ü/");
    let q = s3.next_page(&pager).unwrap();
    assert_eq!(q.url, "https://s3.us-east-2.amazonaws.com/test?list-type=2&delimiter=/&prefix=a%20b%2F%C3%BC%2F");
    let plain = s3.list_objects("A-z_0.9~", "");
    assert!(plain.url.ends_with("&prefix=A-z_0.9~"));
}

#[test]
fn listing_status_outcomes() {
    let s3 = backend("", false);
    let pager = s3.list(&OpList::new("d/"));
    assert!(s3.list_done(&pager, 200).is_ok());
    let e = s3.list_done(&pager, 403).unwrap_err();
    assert_eq!(e.kind, ErrorKind::PermissionDenied);
    assert_eq!(e.op, Operation::List);
    assert_eq!(s3.list_done(&pager, 503).unwrap_err().kind, ErrorKind::Interrupted);
}

#[test]
fn list_page_decodes_entities() {
    let body = "<ListBucketResult><IsTruncated>true</IsTruncated>\
<NextContinuationToken>x&amp;y</NextContinuationToken>\
<Contents><Key>a&amp;b&lt;c&gt;&quot;d&apos;</Key></Contents>\
<CommonPrefixes><Prefix>p&amp;q/</Prefix></CommonPrefixes></ListBucketResult>";
    let page = opendal::s3::parse_list_page(body);
    assert_eq!(page.keys, vec!["a&b<c>\"d'".to_string()]);
    assert_eq!(page.common_prefixes, vec!["p&q/".to_string()]);
    assert_eq!(page.next_token.as_deref(), Some("x&y"));
}

#[test]
fn http_dates() {
    assert_eq!(
        parse_http_date("Sun, 06 Nov 1994 08:49:37 GMT"),
        Some(HttpDate { year: 1994, month: 11, day: 6, hour: 8, minute: 49, second: 37 })
    );
    assert_eq!(
        parse_http_date("Fri, 31 Dec 1999 23:59:60 GMT"),
        Some(HttpDate { year: 1999, month: 12, day: 31, hour: 23, minute: 59, second: 60 })
    );
    assert_eq!(parse_http_date("Sun, 06 Xyz 1994 08:49:37 GMT"), None);
    assert_eq!(parse_http_date("Sun, 32 Nov 1994 08:49:37 GMT"), None);
    assert_eq!(parse_http_date("Sun, 06 Nov 1994 24:00:00 GMT"), None);
    assert_eq!(parse_http_date("Sunday, 06-Nov-94 08:49:37 GMT"), None);
    assert_eq!(parse_http_date("Sun, 06 Nov 1994 08:49:37 UTC"), None);
}

#[test]
fn base64_key_lengths() {
    let mut b = Builder::default();
    b.bucket("t").server_side_encryption_with_customer_key("AES256", b"abcd");
    let s3 = b.finish_with_region("https://h", "r").unwrap();
    let (put, _) = s3.write(&OpWrite::new("k", 0));
    assert_eq!(header(&put.headers, "x-amz-server-side-encryption-customer-key"), Some("YWJjZA=="));
}
