//! The requests of each operation, described as plain values: the caller
//! signs and sends them.
use vstd::prelude::*;
use crate::config::Backend;
use crate::path::{abs_path, build_abs_path, is_root_path, valid_path};
use crate::response::{is_bare_dir, root_metadata, ObjectMetadata};
use crate::text::{decimal, percent_encoded, push_decimal, push_percent_encoded, to_decimal};

verus! {

/// The HTTP method of a request.
#[derive(Clone, Copy, Debug, PartialEq, Eq, Structural)]
pub enum Method {
    Get,
    Put,
    Head,
    Delete,
}

/// A request, before signing.
#[derive(Debug)]
pub struct HttpRequest {
    pub method: Method,
    pub url: String,
    /// Header names and values, in order.
    pub headers: Vec<(String, String)>,
}

/// The view of a request.
pub struct RequestView {
    pub method: Method,
    pub url: Seq<char>,
    pub headers: Seq<(Seq<char>, Seq<char>)>,
}

impl View for HttpRequest {
    type V = RequestView;

    open spec fn view(&self) -> RequestView {
        RequestView {
            method: self.method,
            url: self.url@,
            headers: self.headers@.map_values(|h: (String, String)| (h.0@, h.1@)),
        }
    }
}

/// The URL of the object at `path`: the endpoint, `/`, and the percent-encoded
/// object key.
pub open spec fn object_url(endpoint: Seq<char>, root: Seq<char>, path: Seq<char>) -> Seq<char> {
    endpoint + "/"@ + percent_encoded(abs_path(root, path))
}

/// The URL of one page of a listing of `path`, starting after `marker`. The
/// prefix is the object key of the path under the root, left out only when
/// it is empty.
pub open spec fn list_url(endpoint: Seq<char>, root: Seq<char>, path: Seq<char>, marker: Seq<char>) -> Seq<char> {
    let base = endpoint + "?delimiter=/"@;
    let with_prefix = if abs_path(root, path).len() > 0 {
        base + "&prefix="@ + percent_encoded(abs_path(root, path))
    } else {
        base
    };
    if marker.len() > 0 {
        with_prefix + "&marker="@ + marker
    } else {
        with_prefix
    }
}

/// Whether a byte range can be written as a `Range` header: a size, when an
/// offset comes with it, is at least one byte and the range ends within `u64`.
pub open spec fn valid_range(offset: Option<u64>, size: Option<u64>) -> bool {
    match (offset, size) {
        (Some(o), Some(s)) => s >= 1 && o + s - 1 <= u64::MAX,
        _ => true,
    }
}

/// The value of the `Range` header for a byte range: from `offset` for
/// `size` bytes, to the end when no size is given, the last `size` bytes when
/// no offset is given.
pub open spec fn range_value(offset: Option<u64>, size: Option<u64>) -> Seq<char> {
    match (offset, size) {
        (Some(o), Some(s)) => "bytes="@ + decimal(o as nat) + "-"@ + decimal((o + s - 1) as nat),
        (Some(o), None) => "bytes="@ + decimal(o as nat) + "-"@,
        (None, Some(s)) => "bytes=-"@ + decimal(s as nat),
        (None, None) => "bytes=0-"@,
    }
}

/// Builds the value of the `Range` header for a byte range.
pub fn range_header(offset: Option<u64>, size: Option<u64>) -> (r: String)
    requires
        valid_range(offset, size),
    ensures
        r@ == range_value(offset, size),
{
    match (offset, size) {
        (Some(o), Some(s)) => {
            let mut r = String::from_str("bytes=");
            push_decimal(&mut r, o);
            r.append("-");
            push_decimal(&mut r, o + (s - 1));
            r
        },
        (Some(o), None) => {
            let mut r = String::from_str("bytes=");
            push_decimal(&mut r, o);
            r.append("-");
            r
        },
        (None, Some(s)) => {
            let mut r = String::from_str("bytes=-");
            push_decimal(&mut r, s);
            r
        },
        (None, None) => String::from_str("bytes=0-"),
    }
}

fn header(name: &str, value: String) -> (r: (String, String))
    ensures
        r.0@ == name@,
        r.1@ == value@,
{
    (String::from_str(name), value)
}

/// The first step of a `stat`.
pub enum StatStep {
    /// The metadata is known without a request.
    Known(ObjectMetadata),
    /// The request to send; its response goes to `stat_outcome`.
    Send(HttpRequest),
}

impl Backend {
    fn object_url(&self, path: &str) -> (r: String)
        requires
            self.wf(),
            valid_path(path@),
        ensures
            r@ == object_url(self@.endpoint, self@.root, path@),
    {
        let p = build_abs_path(self.root(), path);
        let mut url = String::from_str(self.endpoint());
        url.append("/");
        push_percent_encoded(&mut url, p.as_str());
        url
    }

    /// The request that creates an empty object at `path`.
    pub fn create_request(&self, path: &str) -> (r: HttpRequest)
        requires
            self.wf(),
            valid_path(path@),
        ensures
            r@.method == Method::Put,
            r@.url == object_url(self@.endpoint, self@.root, path@),
            r@.headers == seq![("content-length"@, "0"@)],
    {
        let r = self.write_request(path, 0);
        proof {
            reveal_strlit("0");
            assert(decimal(0) =~= "0"@);
        }
        r
    }

    /// The request that writes `size` bytes to `path`; the body is streamed
    /// by the caller.
    pub fn write_request(&self, path: &str, size: u64) -> (r: HttpRequest)
        requires
            self.wf(),
            valid_path(path@),
        ensures
            r@.method == Method::Put,
            r@.url == object_url(self@.endpoint, self@.root, path@),
            r@.headers == seq![("content-length"@, decimal(size as nat))],
    {
        let url = self.object_url(path);
        let mut headers: Vec<(String, String)> = Vec::new();
        headers.push(header("content-length", to_decimal(size)));
        let r = HttpRequest { method: Method::Put, url, headers };
        proof {
            assert(r@.headers =~= seq![("content-length"@, decimal(size as nat))]);
            if size == 0 {
                reveal_strlit("0");
                assert(decimal(0) =~= "0"@);
            }
        }
        r
    }

    /// The request that reads `path`, the whole object or the byte range that
    /// `offset` and `size` give.
    pub fn read_request(&self, path: &str, offset: Option<u64>, size: Option<u64>) -> (r: HttpRequest)
        requires
            self.wf(),
            valid_path(path@),
            valid_range(offset, size),
        ensures
            r@.method == Method::Get,
            r@.url == object_url(self@.endpoint, self@.root, path@),
            r@.headers == if offset is Some || size is Some {
                seq![("range"@, range_value(offset, size))]
            } else {
                seq![]
            },
    {
        let url = self.object_url(path);
        let mut headers: Vec<(String, String)> = Vec::new();
        if offset.is_some() || size.is_some() {
            headers.push(header("range", range_header(offset, size)));
        }
        let r = HttpRequest { method: Method::Get, url, headers };
        proof {
            if offset is Some || size is Some {
                assert(r@.headers =~= seq![("range"@, range_value(offset, size))]);
            } else {
                assert(r@.headers =~= seq![]);
            }
        }
        r
    }

    /// The first step of a `stat` of `path`: the root is a directory, known
    /// without a request; any other path needs the request given.
    pub fn begin_stat(&self, path: &str) -> (r: StatStep)
        requires
            self.wf(),
            valid_path(path@),
        ensures
            path@ == "/"@ ==> (r matches StatStep::Known(m) && is_bare_dir(m)),
            path@ != "/"@ ==> (r matches StatStep::Send(q) && q@.method == Method::Head && q@.url
                == object_url(self@.endpoint, self@.root, path@) && q@.headers.len() == 0),
    {
        proof {
            reveal_strlit("/");
            assert("/"@ =~= seq!['/']);
        }
        if is_root_path(path) {
            return StatStep::Known(root_metadata());
        }
        let headers: Vec<(String, String)> = Vec::new();
        StatStep::Send(HttpRequest { method: Method::Head, url: self.object_url(path), headers })
    }

    /// The request that deletes `path`.
    pub fn delete_request(&self, path: &str) -> (r: HttpRequest)
        requires
            self.wf(),
            valid_path(path@),
        ensures
            r@.method == Method::Delete,
            r@.url == object_url(self@.endpoint, self@.root, path@),
            r@.headers.len() == 0,
    {
        let headers: Vec<(String, String)> = Vec::new();
        HttpRequest { method: Method::Delete, url: self.object_url(path), headers }
    }

    /// The request for one page of the listing of `path`, continuing after
    /// `marker` (from the start when it is empty).
    pub fn list_request(&self, path: &str, marker: &str) -> (r: HttpRequest)
        requires
            self.wf(),
            valid_path(path@),
        ensures
            r@.method == Method::Get,
            r@.url == list_url(self@.endpoint, self@.root, path@, marker@),
            r@.headers.len() == 0,
    {
        let mut url = String::from_str(self.endpoint());
        url.append("?delimiter=/");
        let p = build_abs_path(self.root(), path);
        if p.as_str().unicode_len() > 0 {
            url.append("&prefix=");
            push_percent_encoded(&mut url, p.as_str());
        }
        if marker.unicode_len() > 0 {
            url.append("&marker=");
            url.append(marker);
        }
        let headers: Vec<(String, String)> = Vec::new();
        HttpRequest { method: Method::Get, url, headers }
    }
}

} // verus!
