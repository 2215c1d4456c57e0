//! Configuration: the builder of user settings, endpoint resolution, and the
//! resolved backend that every operation works from.
use vstd::prelude::*;
use crate::path::{same_text, ends_with, normalize_root, normalized_root, starts_with, valid_root};
use std::sync::Arc;

verus! {

/// The view of an optional string.
pub open spec fn opt_view(o: Option<String>) -> Option<Seq<char>> {
    match o {
        Some(s) => Some(s@),
        None => None,
    }
}

/// Whether http's `Uri` parser accepts `s`.
pub uninterp spec fn uri_accepts(s: Seq<char>) -> bool;

/// The scheme that http's `Uri` parser finds in `s`.
pub uninterp spec fn uri_scheme(s: Seq<char>) -> Option<Seq<char>>;

/// The host that http's `Uri` parser finds in `s`.
pub uninterp spec fn uri_host(s: Seq<char>) -> Option<Seq<char>>;

#[verifier::external_type_specification]
#[verifier::external_body]
pub struct ExObsSigner(reqsign::HuaweicloudObsSigner);

#[verifier::external_type_specification]
#[verifier::external_body]
pub struct ExAnyhowError(anyhow::Error);

/// Relies on reqsign's OBS signer builder (`Signer::builder`,
/// `Builder::access_key`, `Builder::secret_key`, `Builder::bucket`,
/// `Builder::build`): `build` fails only when no bucket was set, and one is
/// set here.
#[verifier::external_body]
fn obs_signer_with_keys(bucket: &str, access_key: &str, secret_key: &str) -> (r: Result<
    reqsign::HuaweicloudObsSigner,
    anyhow::Error,
>)
    ensures
        r is Ok,
{
    let mut b = reqsign::HuaweicloudObsSigner::builder();
    b.access_key(access_key).secret_key(secret_key).bucket(bucket);
    b.build()
}

/// Relies on reqsign's OBS signer builder (`Signer::builder`,
/// `Builder::bucket`, `Builder::build`): `build` fails only when no bucket was
/// set, and one is set here. With no keys given, the signer looks for none.
#[verifier::external_body]
fn obs_signer_without_keys(bucket: &str) -> (r: Result<reqsign::HuaweicloudObsSigner, anyhow::Error>)
    ensures
        r is Ok,
{
    let mut b = reqsign::HuaweicloudObsSigner::builder();
    b.bucket(bucket);
    b.build()
}

/// The parts of a parsed endpoint that the configuration reads.
pub struct UriParts {
    pub scheme: Option<String>,
    pub host: Option<String>,
}

/// Relies on http's `Uri` parser (`str::parse::<Uri>`) for whether `s` is a URI,
/// and on `Uri::scheme_str` and `Uri::host` for its scheme and host.
#[verifier::external_body]
fn parse_uri(s: &str) -> (r: Option<UriParts>)
    ensures
        (r is Some) == uri_accepts(s@),
        r matches Some(p) ==> opt_view(p.scheme) == uri_scheme(s@) && opt_view(p.host)
            == uri_host(s@),
{
    match s.parse::<http::Uri>() {
        Ok(u) => Some(
            UriParts {
                scheme: u.scheme_str().map(|x| x.to_string()),
                host: u.host().map(|x| x.to_string()),
            },
        ),
        Err(_) => None,
    }
}

/// `s` without its trailing slashes.
pub open spec fn trim_trailing_slashes(s: Seq<char>) -> Seq<char>
    decreases s.len(),
{
    if s.len() > 0 && s.last() == '/' {
        trim_trailing_slashes(s.drop_last())
    } else {
        s
    }
}

fn trim_end_slashes(s: &str) -> (r: String)
    ensures
        r@ == trim_trailing_slashes(s@),
{
    let mut n = s.unicode_len();
    proof {
        assert(s@.subrange(0, n as int) =~= s@);
    }
    while n > 0 && s.get_char(n - 1) == '/'
        invariant
            n <= s@.len(),
            trim_trailing_slashes(s@.subrange(0, n as int)) == trim_trailing_slashes(s@),
        decreases n,
    {
        proof {
            assert(s@.subrange(0, n as int).drop_last() =~= s@.subrange(0, n - 1));
        }
        n = n - 1;
    }
    String::from_str(s.substring_char(0, n))
}

/// The settings of a backend as given, before validation.
pub struct BuilderView {
    pub root: Option<Seq<char>>,
    pub endpoint: Option<Seq<char>>,
    pub access_key_id: Option<Seq<char>>,
    pub secret_access_key: Option<Seq<char>>,
    pub bucket: Option<Seq<char>>,
}

/// The settings of a backend, set one by one; an empty value leaves a
/// setting as it was.
#[derive(Clone)]
pub struct Builder {
    root: Option<String>,
    endpoint: Option<String>,
    access_key_id: Option<String>,
    secret_access_key: Option<String>,
    bucket: Option<String>,
}

impl View for Builder {
    type V = BuilderView;

    closed spec fn view(&self) -> BuilderView {
        BuilderView {
            root: opt_view(self.root),
            endpoint: opt_view(self.endpoint),
            access_key_id: opt_view(self.access_key_id),
            secret_access_key: opt_view(self.secret_access_key),
            bucket: opt_view(self.bucket),
        }
    }
}

/// The access key and the secret key that a signer is given: both, when
/// both are set; otherwise none.
pub open spec fn signer_keys_of(v: BuilderView) -> Option<(Seq<char>, Seq<char>)> {
    match (v.access_key_id, v.secret_access_key) {
        (Some(a), Some(s)) => Some((a, s)),
        _ => None,
    }
}

/// `value` when it is not empty, else `old`.
pub open spec fn set_if_given(old: Option<Seq<char>>, value: Seq<char>) -> Option<Seq<char>> {
    if value.len() > 0 {
        Some(value)
    } else {
        old
    }
}

impl Default for Builder {
    fn default() -> (r: Builder)
        ensures
            r@.root is None,
            r@.endpoint is None,
            r@.access_key_id is None,
            r@.secret_access_key is None,
            r@.bucket is None,
    {
        Builder {
            root: None,
            endpoint: None,
            access_key_id: None,
            secret_access_key: None,
            bucket: None,
        }
    }
}

impl Builder {
    /// Sets the root of the backend: every operation happens under it.
    pub fn root(&mut self, root: &str) -> (r: &mut Self)
        ensures
            (*r)@ == (BuilderView { root: set_if_given(old(self)@.root, root@), ..old(self)@ }),
            *final(self) == *final(r),
    {
        if !root.is_empty() {
            self.root = Some(String::from_str(root));
        }
        self
    }

    /// Sets the endpoint, either the provider's default domain for a region
    /// (`https://obs.cn-north-4.myhuaweicloud.com`, or without the scheme,
    /// which is then `https`) or a domain bound to the bucket. Trailing
    /// slashes are dropped.
    pub fn endpoint(&mut self, endpoint: &str) -> (r: &mut Self)
        ensures
            (*r)@ == (BuilderView {
                endpoint: if endpoint@.len() > 0 {
                    Some(trim_trailing_slashes(endpoint@))
                } else {
                    old(self)@.endpoint
                },
                ..old(self)@
            }),
            *final(self) == *final(r),
    {
        if !endpoint.is_empty() {
            self.endpoint = Some(trim_end_slashes(endpoint));
        }
        self
    }

    /// Sets the access key id of the credentials.
    pub fn access_key_id(&mut self, access_key_id: &str) -> (r: &mut Self)
        ensures
            (*r)@ == (BuilderView {
                access_key_id: set_if_given(old(self)@.access_key_id, access_key_id@),
                ..old(self)@
            }),
            *final(self) == *final(r),
    {
        if !access_key_id.is_empty() {
            self.access_key_id = Some(String::from_str(access_key_id));
        }
        self
    }

    /// Sets the secret access key of the credentials.
    pub fn secret_access_key(&mut self, secret_access_key: &str) -> (r: &mut Self)
        ensures
            (*r)@ == (BuilderView {
                secret_access_key: set_if_given(old(self)@.secret_access_key, secret_access_key@),
                ..old(self)@
            }),
            *final(self) == *final(r),
    {
        if !secret_access_key.is_empty() {
            self.secret_access_key = Some(String::from_str(secret_access_key));
        }
        self
    }

    /// Sets the bucket, which is required.
    pub fn bucket(&mut self, bucket: &str) -> (r: &mut Self)
        ensures
            (*r)@ == (BuilderView { bucket: set_if_given(old(self)@.bucket, bucket@), ..old(self)@ }),
            *final(self) == *final(r),
    {
        if !bucket.is_empty() {
            self.bucket = Some(String::from_str(bucket));
        }
        self
    }

    /// The keys that the signer is given: both, when both are set, else none.
    pub fn signer_keys(&self) -> (r: Option<(&str, &str)>)
        ensures
            match r {
                Some((a, s)) => signer_keys_of(self@) == Some((a@, s@)),
                None => signer_keys_of(self@) is None,
            },
    {
        match (&self.access_key_id, &self.secret_access_key) {
            (Some(a), Some(s)) => Some((a.as_str(), s.as_str())),
            _ => None,
        }
    }

    /// Validates the settings and resolves them into a backend. The root is
    /// taken out of the builder.
    pub fn build(&mut self) -> (r: Result<Backend, ConfigError>)
        ensures
            final(self)@ == (BuilderView { root: None, ..old(self)@ }),
            backend_result_view(r) == built(old(self)@),
            r matches Ok(b) ==> b.wf(),
    {
        let root_setting = self.root.take();
        let root = match root_setting {
            Some(s) => normalize_root(s.as_str()),
            None => normalize_root(""),
        };
        let bucket = match &self.bucket {
            Some(b) => b,
            None => {
                return Err(ConfigError::Bucket);
            },
        };
        let endpoint = match &self.endpoint {
            Some(e) => e,
            None => {
                return Err(ConfigError::Endpoint);
            },
        };
        let parts = match parse_uri(endpoint.as_str()) {
            Some(p) => p,
            None => {
                return Err(ConfigError::Endpoint);
            },
        };
        let host = match parts.host {
            Some(h) => h,
            None => String::new(),
        };
        let resolved = resolve_endpoint(bucket.as_str(), &parts.scheme, host.as_str());
        let signed = match self.signer_keys() {
            Some((a, s)) => obs_signer_with_keys(resolved.signer_bucket.as_str(), a, s),
            None => obs_signer_without_keys(resolved.signer_bucket.as_str()),
        };
        let signer = match signed {
            Ok(s) => s,
            Err(_) => {
                proof {
                    assert(false);
                }
                return Err(ConfigError::Endpoint);
            },
        };
        proof {
            reveal_strlit("");
            assert(""@ =~= Seq::<char>::empty());
        }
        Ok(
            Backend {
                root,
                endpoint: resolved.endpoint,
                bucket: bucket.clone(),
                signer_bucket: resolved.signer_bucket,
                access_key_id: self.access_key_id.clone(),
                secret_access_key: self.secret_access_key.clone(),
                signer: Arc::new(signer),
            },
        )
    }
}

/// Whether `host` is the provider's default domain of a region,
/// `obs.<region>.myhuaweicloud.com`.
pub open spec fn is_default_domain(host: Seq<char>) -> bool {
    &&& "obs."@.len() <= host.len()
    &&& host.subrange(0, "obs."@.len() as int) == "obs."@
    &&& ".myhuaweicloud.com"@.len() <= host.len()
    &&& host.subrange(host.len() - ".myhuaweicloud.com"@.len(), host.len() as int)
        == ".myhuaweicloud.com"@
}

/// The host that requests go to: the bucket in front of a default domain
/// (virtual-hosted addressing), else the custom domain as it is.
pub open spec fn addressed_host(bucket: Seq<char>, host: Seq<char>) -> Seq<char> {
    if is_default_domain(host) {
        bucket + "."@ + host
    } else {
        host
    }
}

/// The absolute endpoint, `scheme://host`, with `https` when no scheme is given.
pub open spec fn endpoint_of(bucket: Seq<char>, scheme: Option<Seq<char>>, host: Seq<char>) -> Seq<char> {
    let s = match scheme {
        Some(s) => s,
        None => "https"@,
    };
    s + "://"@ + addressed_host(bucket, host)
}

/// The bucket designation used in request signing: the bare bucket on a
/// default domain, else the custom domain.
pub open spec fn signing_bucket(bucket: Seq<char>, host: Seq<char>) -> Seq<char> {
    if is_default_domain(host) {
        bucket
    } else {
        host
    }
}

/// An endpoint resolved for a bucket.
pub struct ResolvedEndpoint {
    /// `scheme://host`.
    pub endpoint: String,
    /// The bucket designation for signing.
    pub signer_bucket: String,
    /// Whether the host is a default domain, rewritten with the bucket.
    pub default_domain: bool,
}

/// Resolves the scheme and host of an endpoint for `bucket`.
pub fn resolve_endpoint(bucket: &str, scheme: &Option<String>, host: &str) -> (r: ResolvedEndpoint)
    ensures
        r.endpoint@ == endpoint_of(bucket@, opt_view(*scheme), host@),
        r.signer_bucket@ == signing_bucket(bucket@, host@),
        r.default_domain == is_default_domain(host@),
{
    let default_domain = starts_with(host, "obs.") && ends_with(host, ".myhuaweicloud.com");
    let mut endpoint = match scheme {
        Some(s) => s.clone(),
        None => String::from_str("https"),
    };
    endpoint.append("://");
    let signer_bucket;
    if default_domain {
        endpoint.append(bucket);
        endpoint.append(".");
        signer_bucket = String::from_str(bucket);
    } else {
        signer_bucket = String::from_str(host);
    }
    endpoint.append(host);
    proof {
        if default_domain {
            assert(endpoint@ =~= endpoint_of(bucket@, opt_view(*scheme), host@));
        } else {
            assert(endpoint@ =~= endpoint_of(bucket@, opt_view(*scheme), host@));
        }
    }
    ResolvedEndpoint { endpoint, signer_bucket, default_domain }
}

/// Settings with nothing set.
pub open spec fn empty_settings() -> BuilderView {
    BuilderView {
        root: None,
        endpoint: None,
        access_key_id: None,
        secret_access_key: None,
        bucket: None,
    }
}

/// The settings after the configuration key `k` is given the value `val`;
/// an unknown key changes nothing.
pub open spec fn apply_setting(v: BuilderView, k: Seq<char>, val: Seq<char>) -> BuilderView {
    if k == "root"@ {
        BuilderView { root: set_if_given(v.root, val), ..v }
    } else if k == "bucket"@ {
        BuilderView { bucket: set_if_given(v.bucket, val), ..v }
    } else if k == "endpoint"@ {
        BuilderView {
            endpoint: if val.len() > 0 {
                Some(trim_trailing_slashes(val))
            } else {
                v.endpoint
            },
            ..v
        }
    } else if k == "access_key_id"@ {
        BuilderView { access_key_id: set_if_given(v.access_key_id, val), ..v }
    } else if k == "secret_access_key"@ {
        BuilderView { secret_access_key: set_if_given(v.secret_access_key, val), ..v }
    } else {
        v
    }
}

/// The settings after each pair is applied in order.
pub open spec fn apply_settings(v: BuilderView, pairs: Seq<(Seq<char>, Seq<char>)>) -> BuilderView
    decreases pairs.len(),
{
    if pairs.len() == 0 {
        v
    } else {
        let last = pairs.last();
        apply_setting(apply_settings(v, pairs.drop_last()), last.0, last.1)
    }
}

/// The view of configuration pairs.
pub open spec fn pairs_view(pairs: Seq<(String, String)>) -> Seq<(Seq<char>, Seq<char>)> {
    pairs.map_values(|p: (String, String)| (p.0@, p.1@))
}

/// A backend's resolved configuration.
pub struct BackendView {
    pub root: Seq<char>,
    pub endpoint: Seq<char>,
    pub bucket: Seq<char>,
    pub signer_bucket: Seq<char>,
    pub access_key_id: Option<Seq<char>>,
    pub secret_access_key: Option<Seq<char>>,
}

/// What building from the settings `v` gives.
pub open spec fn built(v: BuilderView) -> Result<BackendView, ConfigError> {
    let root = normalized_root(
        match v.root {
            Some(r) => r,
            None => Seq::empty(),
        },
    );
    match (v.bucket, v.endpoint) {
        (None, _) => Err(ConfigError::Bucket),
        (Some(_), None) => Err(ConfigError::Endpoint),
        (Some(bucket), Some(e)) => if !uri_accepts(e) {
            Err(ConfigError::Endpoint)
        } else {
            let host = match uri_host(e) {
                Some(h) => h,
                None => Seq::empty(),
            };
            Ok(
                BackendView {
                    root,
                    endpoint: endpoint_of(bucket, uri_scheme(e), host),
                    bucket,
                    signer_bucket: signing_bucket(bucket, host),
                    access_key_id: v.access_key_id,
                    secret_access_key: v.secret_access_key,
                },
            )
        },
    }
}

/// The view of the result of a build.
pub open spec fn backend_result_view(r: Result<Backend, ConfigError>) -> Result<BackendView, ConfigError> {
    match r {
        Ok(b) => Ok(b@),
        Err(e) => Err(e),
    }
}

/// A backend: the resolved configuration that every operation works from.
/// It holds no state that changes, so it can be shared freely.
#[derive(Clone, Debug)]
pub struct Backend {
    root: String,
    endpoint: String,
    bucket: String,
    signer_bucket: String,
    access_key_id: Option<String>,
    secret_access_key: Option<String>,
    /// Signs requests with `signer_bucket` as the bucket designation.
    signer: Arc<reqsign::HuaweicloudObsSigner>,
}

impl View for Backend {
    type V = BackendView;

    closed spec fn view(&self) -> BackendView {
        BackendView {
            root: self.root@,
            endpoint: self.endpoint@,
            bucket: self.bucket@,
            signer_bucket: self.signer_bucket@,
            access_key_id: opt_view(self.access_key_id),
            secret_access_key: opt_view(self.secret_access_key),
        }
    }
}

impl Backend {
    /// Builds a backend from configuration pairs: `root`, `bucket`,
    /// `endpoint`, `access_key_id` and `secret_access_key`; other keys are
    /// ignored.
    pub fn from_iter(pairs: Vec<(String, String)>) -> (r: Result<Backend, ConfigError>)
        ensures
            backend_result_view(r) == built(apply_settings(empty_settings(), pairs_view(pairs@))),
            r matches Ok(b) ==> b.wf(),
    {
        let mut builder = Builder::default();
        let ghost ps = pairs_view(pairs@);
        let mut i: usize = 0;
        proof {
            assert(builder@ == empty_settings());
        }
        while i < pairs.len()
            invariant
                i <= pairs@.len(),
                ps == pairs_view(pairs@),
                builder@ == apply_settings(empty_settings(), ps.subrange(0, i as int)),
            decreases pairs@.len() - i,
        {
            let k = pairs[i].0.as_str();
            let v = pairs[i].1.as_str();
            proof {
                reveal_strlit("root");
                reveal_strlit("bucket");
                reveal_strlit("endpoint");
                reveal_strlit("access_key_id");
                reveal_strlit("secret_access_key");
                assert(ps.subrange(0, i + 1).drop_last() =~= ps.subrange(0, i as int));
                assert(ps.subrange(0, i + 1).last() == (k@, v@));
            }
            if same_text(k, "root") {
                builder.root(v);
            } else if same_text(k, "bucket") {
                builder.bucket(v);
            } else if same_text(k, "endpoint") {
                builder.endpoint(v);
            } else if same_text(k, "access_key_id") {
                builder.access_key_id(v);
            } else if same_text(k, "secret_access_key") {
                builder.secret_access_key(v);
            }
            i = i + 1;
        }
        proof {
            assert(ps.subrange(0, pairs@.len() as int) =~= ps);
        }
        builder.build()
    }

    /// What the backend offers: its scheme, root and bucket, and which
    /// capabilities it has.
    pub fn metadata(&self) -> (r: AccessorMetadata)
        ensures
            r.scheme@ == "obs"@,
            r.root@ == self@.root,
            r.name@ == self@.bucket,
            r.read && r.write && r.list,
    {
        AccessorMetadata {
            scheme: String::from_str("obs"),
            root: self.root.clone(),
            name: self.bucket.clone(),
            read: true,
            write: true,
            list: true,
        }
    }

    /// Well-formed: the root begins and ends with `/`.
    pub open spec fn wf(&self) -> bool {
        valid_root(self@.root)
    }

    /// The normalized root.
    pub fn root(&self) -> (r: &str)
        ensures
            r@ == self@.root,
    {
        self.root.as_str()
    }

    /// The absolute endpoint, `scheme://host`.
    pub fn endpoint(&self) -> (r: &str)
        ensures
            r@ == self@.endpoint,
    {
        self.endpoint.as_str()
    }

    /// The bucket name.
    pub fn bucket(&self) -> (r: &str)
        ensures
            r@ == self@.bucket,
    {
        self.bucket.as_str()
    }

    /// The bucket designation for request signing.
    pub fn signer_bucket(&self) -> (r: &str)
        ensures
            r@ == self@.signer_bucket,
    {
        self.signer_bucket.as_str()
    }

    /// The signer of this backend's requests.
    pub fn signer(&self) -> &reqsign::HuaweicloudObsSigner {
        &self.signer
    }

    /// The access key id, if one was given.
    pub fn access_key_id(&self) -> (r: Option<String>)
        ensures
            opt_view(r) == self@.access_key_id,
    {
        match &self.access_key_id {
            Some(s) => Some(s.clone()),
            None => None,
        }
    }

    /// The secret access key, if one was given.
    pub fn secret_access_key(&self) -> (r: Option<String>)
        ensures
            opt_view(r) == self@.secret_access_key,
    {
        match &self.secret_access_key {
            Some(s) => Some(s.clone()),
            None => None,
        }
    }
}

/// What a backend offers.
pub struct AccessorMetadata {
    pub scheme: String,
    pub root: String,
    /// The bucket.
    pub name: String,
    pub read: bool,
    pub write: bool,
    pub list: bool,
}

/// The setting that made a configuration invalid.
#[derive(Clone, Copy, Debug, PartialEq, Eq, Structural)]
pub enum ConfigError {
    /// No bucket was given.
    Bucket,
    /// No endpoint was given, or it is not a URI.
    Endpoint,
}

impl ConfigError {
    /// The name of the setting at fault.
    pub fn field(&self) -> (r: &'static str)
        ensures
            self is Bucket ==> r@ == "bucket"@,
            self is Endpoint ==> r@ == "endpoint"@,
    {
        match self {
            ConfigError::Bucket => "bucket",
            ConfigError::Endpoint => "endpoint",
        }
    }
}

} // verus!
