//! Reading responses: which status codes succeed, the metadata of a `stat`,
//! and the errors that a failed operation reports.
use vstd::prelude::*;
use crate::config::opt_view;
use crate::path::{ends_with_slash, is_dir_path};
use crate::date::{parse_rfc2822, rfc2822_date, HttpDate};
use crate::text::{decimal, parse_u64, parse_u64_spec, push_decimal};

verus! {

/// The uniform operations.
#[derive(Clone, Copy, Debug, PartialEq, Eq, Structural)]
pub enum Operation {
    Create,
    Read,
    Write,
    Stat,
    Delete,
    List,
}

/// Whether `status` is a success of `op`. A delete of an object that is not
/// there succeeds: deleting is idempotent.
pub open spec fn success_status(op: Operation, status: u16) -> bool {
    match op {
        Operation::Create | Operation::Write => status == 200 || status == 201,
        Operation::Read => status == 200 || status == 206,
        Operation::Stat | Operation::List => status == 200,
        Operation::Delete => status == 204 || status == 202 || status == 404,
    }
}

/// Whether `status` is a success of `op`.
pub fn is_success(op: Operation, status: u16) -> (r: bool)
    ensures
        r == success_status(op, status),
{
    match op {
        Operation::Create | Operation::Write => status == 200 || status == 201,
        Operation::Read => status == 200 || status == 206,
        Operation::Stat | Operation::List => status == 200,
        Operation::Delete => status == 204 || status == 202 || status == 404,
    }
}

/// The kind of a failed operation.
#[derive(Clone, Copy, Debug, PartialEq, Eq, Structural)]
pub enum ErrorKind {
    /// The request could not be assembled.
    RequestBuild,
    /// The signer refused the request.
    Signing,
    /// The request could not be sent.
    Transport,
    /// The body of a successful response could not be read.
    ResponseConsume,
    /// A response header could not be read.
    InvalidHeader,
    /// A listing page holds a key outside the root.
    KeyOutsideRoot,
    /// The provider answered 404.
    NotFound,
    /// The provider answered 403.
    PermissionDenied,
    /// The provider answered 500, 502, 503 or 504: the request may be tried again.
    Interrupted,
    /// The provider answered with another status.
    Unexpected,
}

/// A failed operation, with the operation and the path it was for.
#[derive(Debug)]
pub struct ObsError {
    pub kind: ErrorKind,
    pub op: Operation,
    pub path: String,
    /// The status of the response, when there was one.
    pub status: Option<u16>,
    pub message: String,
}

/// The kind of error that a failure status denotes.
pub open spec fn status_kind(status: u16) -> ErrorKind {
    if status == 404 {
        ErrorKind::NotFound
    } else if status == 403 {
        ErrorKind::PermissionDenied
    } else if status == 500 || status == 502 || status == 503 || status == 504 {
        ErrorKind::Interrupted
    } else {
        ErrorKind::Unexpected
    }
}

/// The message of a failure status: the provider's own, else one made from
/// the status.
pub open spec fn status_message(status: u16, provider: Option<Seq<char>>) -> Seq<char> {
    match provider {
        Some(m) => m,
        None => "unexpected status "@ + decimal(status as nat),
    }
}

/// Turns a failure status of `op` on `path` into an error, with the message
/// of the provider's error body when it could be read.
pub fn protocol_error(op: Operation, path: &str, status: u16, provider_message: Option<String>) -> (r: ObsError)
    ensures
        r.kind == status_kind(status),
        r.op == op,
        r.path@ == path@,
        r.status == Some(status),
        r.message@ == status_message(status, opt_view(provider_message)),
{
    let kind = if status == 404 {
        ErrorKind::NotFound
    } else if status == 403 {
        ErrorKind::PermissionDenied
    } else if status == 500 || status == 502 || status == 503 || status == 504 {
        ErrorKind::Interrupted
    } else {
        ErrorKind::Unexpected
    };
    let message = match provider_message {
        Some(m) => m,
        None => {
            let mut m = String::from_str("unexpected status ");
            push_decimal(&mut m, status as u64);
            m
        },
    };
    ObsError { kind, op, path: String::from_str(path), status: Some(status), message }
}

/// Whether an entry is an object or a directory.
#[derive(Clone, Copy, Debug, PartialEq, Eq, Structural)]
pub enum ObjectMode {
    File,
    Dir,
}

/// The mode that a path names: a directory when it ends with `/`.
pub open spec fn mode_of(path: Seq<char>) -> ObjectMode {
    if is_dir_path(path) {
        ObjectMode::Dir
    } else {
        ObjectMode::File
    }
}

/// The metadata of an object.
#[derive(Debug)]
pub struct ObjectMetadata {
    pub mode: ObjectMode,
    pub content_length: Option<u64>,
    pub etag: Option<String>,
    /// The entity tag without its surrounding quotes.
    pub content_md5: Option<String>,
    pub last_modified: Option<HttpDate>,
}

/// The header values that `stat` reads, as the response gave them.
pub struct StatHeaders {
    pub content_length: Option<String>,
    pub etag: Option<String>,
    pub last_modified: Option<String>,
}

/// `s` without the quotes at its front.
pub open spec fn drop_leading_quotes(s: Seq<char>) -> Seq<char>
    decreases s.len(),
{
    if s.len() > 0 && s[0] == '"' {
        drop_leading_quotes(s.drop_first())
    } else {
        s
    }
}

/// `s` without the quotes at its end.
pub open spec fn drop_trailing_quotes(s: Seq<char>) -> Seq<char>
    decreases s.len(),
{
    if s.len() > 0 && s.last() == '"' {
        drop_trailing_quotes(s.drop_last())
    } else {
        s
    }
}

/// `s` without the quotes at either end.
pub open spec fn trim_quotes(s: Seq<char>) -> Seq<char> {
    drop_trailing_quotes(drop_leading_quotes(s))
}

/// Removes the quotes at both ends of `s`.
pub fn trim_quotes_of(s: &str) -> (r: String)
    ensures
        r@ == trim_quotes(s@),
{
    let n = s.unicode_len();
    let mut i: usize = 0;
    proof {
        assert(s@.subrange(0, n as int) =~= s@);
    }
    while i < n && s.get_char(i) == '"'
        invariant
            i <= n,
            n == s@.len(),
            drop_leading_quotes(s@.subrange(i as int, n as int)) == drop_leading_quotes(s@),
        decreases n - i,
    {
        proof {
            assert(s@.subrange(i as int, n as int).drop_first() =~= s@.subrange(i + 1, n as int));
        }
        i = i + 1;
    }
    let ghost lead = s@.subrange(i as int, n as int);
    let mut j: usize = n;
    proof {
        assert(lead.subrange(0, (j - i) as int) =~= lead);
    }
    while j > i && s.get_char(j - 1) == '"'
        invariant
            i <= j <= n,
            n == s@.len(),
            lead == s@.subrange(i as int, n as int),
            lead == drop_leading_quotes(s@),
            drop_trailing_quotes(lead.subrange(0, (j - i) as int)) == drop_trailing_quotes(lead),
        decreases j,
    {
        proof {
            assert(lead.subrange(0, (j - i) as int).drop_last() =~= lead.subrange(0, (j - 1 - i) as int));
        }
        j = j - 1;
    }
    proof {
        assert(s@.subrange(i as int, j as int) =~= lead.subrange(0, (j - i) as int));
    }
    String::from_str(s.substring_char(i, j))
}

/// What a `stat` gives for a response.
pub enum StatOutcome {
    /// The path exists, with this metadata.
    Found(ObjectMetadata),
    /// A header of a successful response could not be read.
    BadHeader(ObsError),
    /// The status is a failure: the error body is to be read and normalized.
    ProviderError,
}

/// The metadata that a `stat` of `path` reports for a directory with no
/// further information: the root, or a directory that has no object of its own.
pub open spec fn is_bare_dir(m: ObjectMetadata) -> bool {
    &&& m.mode == ObjectMode::Dir
    &&& m.content_length is None
    &&& m.etag is None
    &&& m.content_md5 is None
    &&& m.last_modified is None
}

/// The metadata of the root, which `stat` reports without a request.
pub fn root_metadata() -> (r: ObjectMetadata)
    ensures
        is_bare_dir(r),
{
    ObjectMetadata {
        mode: ObjectMode::Dir,
        content_length: None,
        etag: None,
        content_md5: None,
        last_modified: None,
    }
}

/// A header as read: absent, a valid value, or present but not valid.
#[derive(Clone, Copy, Debug, PartialEq, Eq)]
pub enum HeaderValue<T> {
    Absent,
    Valid(T),
    Invalid,
}

/// The value of a header that is present and valid.
pub open spec fn header_opt<T>(h: HeaderValue<T>) -> Option<T> {
    match h {
        HeaderValue::Valid(v) => Some(v),
        _ => None,
    }
}

/// A `content-length` header read as a number.
pub open spec fn parsed_length(h: Option<Seq<char>>) -> HeaderValue<u64> {
    match h {
        None => HeaderValue::Absent,
        Some(v) => match parse_u64_spec(v) {
            Some(n) => HeaderValue::Valid(n),
            None => HeaderValue::Invalid,
        },
    }
}

/// A `last-modified` header read as an RFC 2822 date.
pub open spec fn parsed_date(h: Option<Seq<char>>) -> HeaderValue<HttpDate> {
    match h {
        None => HeaderValue::Absent,
        Some(v) => match rfc2822_date(v) {
            Some(d) => HeaderValue::Valid(d),
            None => HeaderValue::Invalid,
        },
    }
}

/// The metadata of a successful `stat` of `path`, from its headers read.
pub open spec fn stat_found(
    path: Seq<char>,
    len: HeaderValue<u64>,
    etag: Option<Seq<char>>,
    modified: HeaderValue<HttpDate>,
    m: ObjectMetadata,
) -> bool {
    &&& m.mode == mode_of(path)
    &&& m.content_length == header_opt(len)
    &&& opt_view(m.etag) == etag
    &&& opt_view(m.content_md5) == match etag {
        Some(e) => Some(trim_quotes(e)),
        None => None,
    }
    &&& m.last_modified == header_opt(modified)
}

/// What a `stat` of `path` gives for a response with `status` and the headers
/// read: on 200 the metadata, or an error when a header is not valid; on 404
/// for a path that ends with `/`, an existing empty directory; otherwise a
/// provider error.
pub open spec fn stat_result(
    path: Seq<char>,
    status: u16,
    len: HeaderValue<u64>,
    etag: Option<Seq<char>>,
    modified: HeaderValue<HttpDate>,
    r: StatOutcome,
) -> bool {
    if status == 200 {
        if len is Invalid || modified is Invalid {
            r matches StatOutcome::BadHeader(e) && e.kind == ErrorKind::InvalidHeader && e.op
                == Operation::Stat && e.path@ == path && e.status == Some(200u16)
        } else {
            r matches StatOutcome::Found(m) && stat_found(path, len, etag, modified, m)
        }
    } else if status == 404 && is_dir_path(path) {
        r matches StatOutcome::Found(m) && is_bare_dir(m)
    } else {
        r is ProviderError
    }
}

fn clone_opt(o: &Option<String>) -> (r: Option<String>)
    ensures
        opt_view(r) == opt_view(*o),
{
    match o {
        Some(s) => Some(s.clone()),
        None => None,
    }
}

fn read_length(h: &Option<String>) -> (r: HeaderValue<u64>)
    ensures
        r == parsed_length(opt_view(*h)),
{
    match h {
        None => HeaderValue::Absent,
        Some(v) => match parse_u64(v.as_str()) {
            Some(n) => HeaderValue::Valid(n),
            None => HeaderValue::Invalid,
        },
    }
}

fn read_date(h: &Option<String>) -> (r: HeaderValue<HttpDate>)
    ensures
        r == parsed_date(opt_view(*h)),
{
    match h {
        None => HeaderValue::Absent,
        Some(v) => match parse_rfc2822(v.as_str()) {
            Some(d) => HeaderValue::Valid(d),
            None => HeaderValue::Invalid,
        },
    }
}

/// Interprets the response to a `stat` of `path`, given its status and its
/// headers as read.
pub fn stat_from_headers(
    path: &str,
    status: u16,
    len: HeaderValue<u64>,
    etag: &Option<String>,
    modified: HeaderValue<HttpDate>,
) -> (r: StatOutcome)
    ensures
        stat_result(path@, status, len, opt_view(*etag), modified, r),
{
    let is_dir = ends_with_slash(path);
    if status == 200 {
        let content_length = match len {
            HeaderValue::Absent => None,
            HeaderValue::Valid(n) => Some(n),
            HeaderValue::Invalid => {
                return StatOutcome::BadHeader(
                    ObsError {
                        kind: ErrorKind::InvalidHeader,
                        op: Operation::Stat,
                        path: String::from_str(path),
                        status: Some(200),
                        message: String::from_str("content-length is not a number"),
                    },
                );
            },
        };
        let last_modified = match modified {
            HeaderValue::Absent => None,
            HeaderValue::Valid(d) => Some(d),
            HeaderValue::Invalid => {
                return StatOutcome::BadHeader(
                    ObsError {
                        kind: ErrorKind::InvalidHeader,
                        op: Operation::Stat,
                        path: String::from_str(path),
                        status: Some(200),
                        message: String::from_str("last-modified is not a date"),
                    },
                );
            },
        };
        let content_md5 = match etag {
            Some(e) => Some(trim_quotes_of(e.as_str())),
            None => None,
        };
        let m = ObjectMetadata {
            mode: if is_dir {
                ObjectMode::Dir
            } else {
                ObjectMode::File
            },
            content_length,
            etag: clone_opt(etag),
            content_md5,
            last_modified,
        };
        StatOutcome::Found(m)
    } else if status == 404 && is_dir {
        StatOutcome::Found(root_metadata())
    } else {
        StatOutcome::ProviderError
    }
}

/// Interprets the response to a `stat` of `path`: reads the content length
/// as a number and the last modification as an RFC 2822 date, then as
/// `stat_from_headers` does.
pub fn stat_outcome(path: &str, status: u16, headers: &StatHeaders) -> (r: StatOutcome)
    ensures
        stat_result(
            path@,
            status,
            parsed_length(opt_view(headers.content_length)),
            opt_view(headers.etag),
            parsed_date(opt_view(headers.last_modified)),
            r,
        ),
{
    let len = read_length(&headers.content_length);
    let modified = read_date(&headers.last_modified);
    stat_from_headers(path, status, len, &headers.etag, modified)
}

} // verus!
