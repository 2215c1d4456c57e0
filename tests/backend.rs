use obs_backend::config::{resolve_endpoint, Backend, Builder, ConfigError};
use obs_backend::date::HttpDate;
use obs_backend::list::{ListCursor, ListPage, ListStep};
use obs_backend::path::{build_abs_path, build_rel_path, normalize_root};
use obs_backend::request::{range_header, Method, StatStep};
use obs_backend::response::{
    is_success, protocol_error, stat_outcome, ErrorKind, ObjectMode, Operation, StatHeaders,
    StatOutcome,
};
use obs_backend::text::{parse_u64, push_percent_encoded, to_decimal};

fn backend(root: &str, bucket: &str, endpoint: &str) -> Backend {
    let mut b = Builder::default();
    b.root(root).bucket(bucket).endpoint(endpoint);
    b.build().unwrap()
}

#[test]
fn default_domain_uses_virtual_hosted_endpoint() {
    let be = backend("", "demo", "obs.cn-north-4.myhuaweicloud.com");
    assert_eq!(be.endpoint(), "https://demo.obs.cn-north-4.myhuaweicloud.com");
    assert_eq!(be.signer_bucket(), "demo");
    assert_eq!(be.bucket(), "demo");
    assert_eq!(be.root(), "/");
}

#[test]
fn custom_domain_is_kept_and_signs_with_host() {
    let be = backend("", "demo", "https://custom.example.com");
    assert_eq!(be.endpoint(), "https://custom.example.com");
    assert_eq!(be.signer_bucket(), "custom.example.com");
}

#[test]
fn default_domain_with_scheme_keeps_scheme() {
    let be = backend("/data", "demo", "http://obs.cn-north-4.myhuaweicloud.com/");
    assert_eq!(be.endpoint(), "http://demo.obs.cn-north-4.myhuaweicloud.com");
    assert_eq!(be.signer_bucket(), "demo");
    assert_eq!(be.root(), "/data/");
}

#[test]
fn resolve_endpoint_from_parts() {
    let r = resolve_endpoint("demo", &None, "obs.cn-north-4.myhuaweicloud.com");
    assert_eq!(r.endpoint, "https://demo.obs.cn-north-4.myhuaweicloud.com");
    assert_eq!(r.signer_bucket, "demo");
    assert!(r.default_domain);
    let r = resolve_endpoint("demo", &Some("https".to_string()), "custom.example.com");
    assert_eq!(r.endpoint, "https://custom.example.com");
    assert_eq!(r.signer_bucket, "custom.example.com");
    assert!(!r.default_domain);
}

#[test]
fn missing_bucket_is_rejected() {
    let mut b = Builder::default();
    b.endpoint("https://custom.example.com");
    let e = b.build().err().unwrap();
    assert_eq!(e, ConfigError::Bucket);
    assert_eq!(e.field(), "bucket");
}

#[test]
fn missing_or_invalid_endpoint_is_rejected() {
    let mut b = Builder::default();
    b.bucket("demo");
    assert_eq!(b.build().err().unwrap(), ConfigError::Endpoint);
    b.endpoint("https://exa mple.com");
    let e = b.build().err().unwrap();
    assert_eq!(e, ConfigError::Endpoint);
    assert_eq!(e.field(), "endpoint");
}

#[test]
fn signer_gets_keys_only_in_pairs() {
    let mut b = Builder::default();
    b.access_key_id("ak");
    assert_eq!(b.signer_keys(), None);
    b.secret_access_key("sk");
    assert_eq!(b.signer_keys(), Some(("ak", "sk")));
    b.bucket("demo").endpoint("https://custom.example.com");
    assert!(b.build().is_ok());
}

#[test]
fn configuration_pairs_build_a_backend() {
    let pairs = vec![
        ("bucket".to_string(), "demo".to_string()),
        ("endpoint".to_string(), "obs.cn-north-4.myhuaweicloud.com".to_string()),
        ("root".to_string(), "a//b".to_string()),
        ("region".to_string(), "ignored".to_string()),
        ("access_key_id".to_string(), "ak".to_string()),
    ];
    let be = Backend::from_iter(pairs).unwrap();
    assert_eq!(be.root(), "/a/b/");
    assert_eq!(be.endpoint(), "https://demo.obs.cn-north-4.myhuaweicloud.com");
    assert_eq!(be.access_key_id(), Some("ak".to_string()));
    assert_eq!(be.secret_access_key(), None);
    let m = be.metadata();
    assert_eq!(m.scheme, "obs");
    assert_eq!(m.name, "demo");
    assert!(m.read && m.write && m.list);
}

#[test]
fn roots_are_normalized() {
    assert_eq!(normalize_root(""), "/");
    assert_eq!(normalize_root("abc"), "/abc/");
    assert_eq!(normalize_root("/a//b/"), "/a/b/");
    assert_eq!(normalize_root("///"), "/");
}

#[test]
fn paths_are_rooted() {
    assert_eq!(build_abs_path("/", "a/b"), "a/b");
    assert_eq!(build_abs_path("/data/", "a"), "data/a");
    assert_eq!(build_abs_path("/data/", "/"), "data/");
    assert_eq!(build_rel_path("/data/", "data/a/b"), Some("a/b".to_string()));
    assert_eq!(build_rel_path("/data/", "other/a"), None);
}

#[test]
fn paths_are_percent_encoded() {
    let mut s = String::new();
    push_percent_encoded(&mut s, "a b/\u{fc}~x_y-z.txt");
    assert_eq!(s, "a%20b/%C3%BC~x_y-z.txt");
}

#[test]
fn numbers_format_and_parse() {
    assert_eq!(to_decimal(0), "0");
    assert_eq!(to_decimal(18446744073709551615), "18446744073709551615");
    assert_eq!(parse_u64("1024"), Some(1024));
    assert_eq!(parse_u64("+7"), Some(7));
    assert_eq!(parse_u64(""), None);
    assert_eq!(parse_u64("12a"), None);
    assert_eq!(parse_u64("18446744073709551616"), None);
}

#[test]
fn create_and_write_requests() {
    let be = backend("/data/", "demo", "https://custom.example.com");
    let r = be.create_request("a b.txt");
    assert_eq!(r.method, Method::Put);
    assert_eq!(r.url, "https://custom.example.com/data/a%20b.txt");
    assert_eq!(r.headers, vec![("content-length".to_string(), "0".to_string())]);
    let r = be.write_request("x", 1024);
    assert_eq!(r.headers, vec![("content-length".to_string(), "1024".to_string())]);
}

#[test]
fn read_requests_carry_the_range() {
    let be = backend("", "demo", "https://custom.example.com");
    let r = be.read_request("x", None, None);
    assert_eq!(r.method, Method::Get);
    assert!(r.headers.is_empty());
    let r = be.read_request("x", Some(10), Some(10));
    assert_eq!(r.headers, vec![("range".to_string(), "bytes=10-19".to_string())]);
    assert_eq!(range_header(Some(5), None), "bytes=5-");
    assert_eq!(range_header(None, Some(3)), "bytes=-3");
}

#[test]
fn stat_of_root_needs_no_request() {
    let be = backend("/data/", "demo", "https://custom.example.com");
    match be.begin_stat("/") {
        StatStep::Known(m) => assert_eq!(m.mode, ObjectMode::Dir),
        StatStep::Send(_) => panic!("root needs no request"),
    }
    match be.begin_stat("a") {
        StatStep::Send(r) => {
            assert_eq!(r.method, Method::Head);
            assert_eq!(r.url, "https://custom.example.com/data/a");
        }
        StatStep::Known(_) => panic!("a file needs a request"),
    }
}

fn no_headers() -> StatHeaders {
    StatHeaders { content_length: None, etag: None, last_modified: None }
}

#[test]
fn stat_of_missing_directory_is_a_directory() {
    match stat_outcome("dir/", 404, &no_headers()) {
        StatOutcome::Found(m) => assert_eq!(m.mode, ObjectMode::Dir),
        _ => panic!("a missing directory exists"),
    }
    assert!(matches!(stat_outcome("file", 404, &no_headers()), StatOutcome::ProviderError));
}

#[test]
fn stat_reads_headers() {
    let h = StatHeaders {
        content_length: Some("0".to_string()),
        etag: Some("\"abc\"".to_string()),
        last_modified: Some("Wed, 21 Oct 2015 07:28:00 GMT".to_string()),
    };
    match stat_outcome("f", 200, &h) {
        StatOutcome::Found(m) => {
            assert_eq!(m.mode, ObjectMode::File);
            assert_eq!(m.content_length, Some(0));
            assert_eq!(m.etag, Some("\"abc\"".to_string()));
            assert_eq!(m.content_md5, Some("abc".to_string()));
            assert_eq!(
                m.last_modified,
                Some(HttpDate {
                    year: 2015,
                    month: 10,
                    day: 21,
                    hour: 7,
                    minute: 28,
                    second: 0,
                    offset_seconds: 0,
                })
            );
        }
        _ => panic!("expected metadata"),
    }
    let bad = StatHeaders { content_length: Some("x".to_string()), etag: None, last_modified: None };
    match stat_outcome("f", 200, &bad) {
        StatOutcome::BadHeader(e) => assert_eq!(e.kind, ErrorKind::InvalidHeader),
        _ => panic!("expected a header error"),
    }
}

#[test]
fn stat_rejects_malformed_last_modified() {
    let h = StatHeaders {
        content_length: Some("3".to_string()),
        etag: None,
        last_modified: Some("not a date".to_string()),
    };
    match stat_outcome("f", 200, &h) {
        StatOutcome::BadHeader(e) => {
            assert_eq!(e.kind, ErrorKind::InvalidHeader);
            assert_eq!(e.op, Operation::Stat);
            assert_eq!(e.path, "f");
        }
        _ => panic!("expected a header error"),
    }
    let h = StatHeaders {
        content_length: None,
        etag: None,
        last_modified: Some("Tue, 01 Nov 2022 10:20:30 +0800".to_string()),
    };
    match stat_outcome("f", 200, &h) {
        StatOutcome::Found(m) => {
            let d = m.last_modified.unwrap();
            assert_eq!((d.year, d.month, d.day, d.hour), (2022, 11, 1, 10));
            assert_eq!(d.offset_seconds, 8 * 3600);
        }
        _ => panic!("expected metadata"),
    }
}

#[test]
fn delete_of_missing_object_succeeds() {
    let be = backend("", "demo", "https://custom.example.com");
    let r = be.delete_request("missing");
    assert_eq!(r.method, Method::Delete);
    assert!(is_success(Operation::Delete, 404));
    assert!(is_success(Operation::Delete, 404));
    assert!(is_success(Operation::Delete, 204));
    assert!(!is_success(Operation::Delete, 500));
}

#[test]
fn success_statuses() {
    assert!(is_success(Operation::Create, 201));
    assert!(is_success(Operation::Read, 206));
    assert!(!is_success(Operation::Read, 201));
    assert!(is_success(Operation::Stat, 200));
    assert!(!is_success(Operation::Write, 404));
}

#[test]
fn failure_statuses_are_normalized() {
    let e = protocol_error(Operation::Read, "a", 404, None);
    assert_eq!(e.kind, ErrorKind::NotFound);
    assert_eq!(e.message, "unexpected status 404");
    assert_eq!(e.path, "a");
    let e = protocol_error(Operation::Write, "a", 403, Some("denied".to_string()));
    assert_eq!(e.kind, ErrorKind::PermissionDenied);
    assert_eq!(e.message, "denied");
    assert_eq!(protocol_error(Operation::Stat, "a", 503, None).kind, ErrorKind::Interrupted);
    assert_eq!(protocol_error(Operation::Stat, "a", 400, None).kind, ErrorKind::Unexpected);
}

fn page(prefixes: &[&str], contents: &[&str], truncated: bool, marker: &str) -> ListPage {
    ListPage {
        common_prefixes: prefixes.iter().map(|s| s.to_string()).collect(),
        contents: contents.iter().map(|s| s.to_string()).collect(),
        is_truncated: truncated,
        next_marker: marker.to_string(),
    }
}

#[test]
fn listing_root_gives_directory_and_file() {
    let be = backend("", "demo", "https://custom.example.com");
    let mut c = ListCursor::new(be.root(), "");
    assert!(c.needs_page());
    assert_eq!(c.page_request(&be).url, "https://custom.example.com?delimiter=/");
    c.ingest(page(&["b/"], &["a"], false, "")).unwrap();
    let e = c.next_entry().unwrap();
    assert_eq!((e.mode, e.path.as_str()), (ObjectMode::Dir, "b/"));
    let e = c.next_entry().unwrap();
    assert_eq!((e.mode, e.path.as_str()), (ObjectMode::File, "a"));
    assert!(c.next_entry().is_none());
    assert!(c.is_exhausted());
}

#[test]
fn listing_follows_markers_across_pages() {
    let be = backend("/data/", "demo", "https://custom.example.com");
    let mut c = ListCursor::new(be.root(), "d/");
    assert_eq!(
        c.page_request(&be).url,
        "https://custom.example.com?delimiter=/&prefix=data/d/"
    );
    c.ingest(page(&[], &["data/d/1"], true, "data/d/1")).unwrap();
    assert_eq!(c.next_entry().unwrap().path, "d/1");
    assert!(c.needs_page());
    assert_eq!(
        c.page_request(&be).url,
        "https://custom.example.com?delimiter=/&prefix=data/d/&marker=data/d/1"
    );
    assert!(c.ingest(page(&[], &["elsewhere/2"], false, "")).is_err());
    c.ingest(page(&["data/d/e/"], &["data/d/2"], false, "")).unwrap();
    assert_eq!(c.next_entry().unwrap().path, "d/e/");
    assert_eq!(c.next_entry().unwrap().path, "d/2");
    assert!(c.is_exhausted());
}

#[test]
fn listing_empty_path_stays_under_root() {
    let be = backend("/data/", "demo", "https://custom.example.com");
    let c = ListCursor::new(be.root(), "");
    assert_eq!(
        c.page_request(&be).url,
        "https://custom.example.com?delimiter=/&prefix=data/"
    );
}

#[test]
fn pulling_skips_empty_truncated_pages() {
    let be = backend("", "demo", "https://custom.example.com");
    let mut c = ListCursor::new(be.root(), "");
    let mut seen = Vec::new();
    let mut pages = vec![
        page(&[], &[], true, "m1"),
        page(&["b/"], &[], true, "m2"),
        page(&[], &["a"], false, ""),
    ]
    .into_iter();
    loop {
        match c.pull(&be) {
            ListStep::Entry(e) => seen.push((e.mode, e.path)),
            ListStep::Fetch(_) => c.ingest(pages.next().unwrap()).unwrap(),
            ListStep::End => break,
        }
    }
    assert_eq!(
        seen,
        vec![(ObjectMode::Dir, "b/".to_string()), (ObjectMode::File, "a".to_string())]
    );
}
