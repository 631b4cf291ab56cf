use vstd::prelude::*;
use vstd::utf8::encode_utf8;

use crate::timing::{BenchmarkResult, RequestTiming};

verus! {

/// `b` with ASCII upper-case letters mapped to lower case.
pub open spec fn ascii_lower(b: u8) -> u8 {
    if 65 <= b <= 90 {
        (b + 32) as u8
    } else {
        b
    }
}

/// `s` starts with `scheme` (compared ignoring ASCII case) followed by `://`.
pub open spec fn has_scheme(s: Seq<u8>, scheme: Seq<u8>) -> bool {
    &&& s.len() >= scheme.len() + 3
    &&& forall|i: int| 0 <= i < scheme.len() ==> ascii_lower(#[trigger] s[i]) == scheme[i]
    &&& s[scheme.len() as int] == 58u8
    &&& s[scheme.len() as int + 1] == 47u8
    &&& s[scheme.len() as int + 2] == 47u8
}

pub open spec fn http_name() -> Seq<u8> {
    seq![104u8, 116u8, 116u8, 112u8]
}

pub open spec fn https_name() -> Seq<u8> {
    seq![104u8, 116u8, 116u8, 112u8, 115u8]
}

pub open spec fn socks4_name() -> Seq<u8> {
    seq![115u8, 111u8, 99u8, 107u8, 115u8, 52u8]
}

pub open spec fn socks5_name() -> Seq<u8> {
    seq![115u8, 111u8, 99u8, 107u8, 115u8, 53u8]
}

/// The proxy schemes that a benchmark accepts.
#[derive(Clone, Copy, Debug, PartialEq, Eq, Structural)]
pub enum ProxyScheme {
    Http,
    Https,
    Socks4,
    Socks5,
}

/// The scheme that the UTF-8 text `s` names, if it is a supported one.
pub open spec fn spec_proxy_scheme(s: Seq<u8>) -> Option<ProxyScheme> {
    if has_scheme(s, http_name()) {
        Some(ProxyScheme::Http)
    } else if has_scheme(s, https_name()) {
        Some(ProxyScheme::Https)
    } else if has_scheme(s, socks4_name()) {
        Some(ProxyScheme::Socks4)
    } else if has_scheme(s, socks5_name()) {
        Some(ProxyScheme::Socks5)
    } else {
        None
    }
}

/// A URL whose scheme is `https`.
pub open spec fn spec_is_secure(s: Seq<u8>) -> bool {
    has_scheme(s, https_name())
}

fn lower_byte(b: u8) -> (r: u8)
    ensures
        r == ascii_lower(b),
{
    if 65 <= b && b <= 90 {
        b + 32
    } else {
        b
    }
}

fn starts_with_scheme(s: &[u8], scheme: &[u8]) -> (r: bool)
    ensures
        r == has_scheme(s@, scheme@),
{
    let n = scheme.len();
    if s.len() < 3 || s.len() - 3 < n {
        return false;
    }
    let mut i: usize = 0;
    while i < n
        invariant
            n == scheme@.len(),
            n + 3 <= s@.len(),
            0 <= i <= n,
            forall|j: int| 0 <= j < i ==> ascii_lower(#[trigger] s@[j]) == scheme@[j],
        decreases n - i,
    {
        if lower_byte(s[i]) != scheme[i] {
            return false;
        }
        i += 1;
    }
    s[n] == 58u8 && s[n + 1] == 47u8 && s[n + 2] == 47u8
}

/// The supported proxy scheme that `proxy` starts with, if any.
pub fn proxy_scheme_of(proxy: &str) -> (r: Option<ProxyScheme>)
    ensures
        r == spec_proxy_scheme(encode_utf8(proxy@)),
{
    let s = proxy.as_bytes();
    let http: [u8; 4] = [104u8, 116u8, 116u8, 112u8];
    let https: [u8; 5] = [104u8, 116u8, 116u8, 112u8, 115u8];
    let socks4: [u8; 6] = [115u8, 111u8, 99u8, 107u8, 115u8, 52u8];
    let socks5: [u8; 6] = [115u8, 111u8, 99u8, 107u8, 115u8, 53u8];
    assert(http@ =~= http_name());
    assert(https@ =~= https_name());
    assert(socks4@ =~= socks4_name());
    assert(socks5@ =~= socks5_name());
    if starts_with_scheme(s, http.as_slice()) {
        Some(ProxyScheme::Http)
    } else if starts_with_scheme(s, https.as_slice()) {
        Some(ProxyScheme::Https)
    } else if starts_with_scheme(s, socks4.as_slice()) {
        Some(ProxyScheme::Socks4)
    } else if starts_with_scheme(s, socks5.as_slice()) {
        Some(ProxyScheme::Socks5)
    } else {
        None
    }
}

/// Whether `url` uses the secure `https` scheme.
pub fn is_secure_url(url: &str) -> (r: bool)
    ensures
        r == spec_is_secure(encode_utf8(url@)),
{
    let https: [u8; 5] = [104u8, 116u8, 116u8, 112u8, 115u8];
    assert(https@ =~= https_name());
    starts_with_scheme(url.as_bytes(), https.as_slice())
}

#[verifier::external_type_specification]
#[verifier::external_body]
pub struct ExClient(reqwest::Client);

#[verifier::external_type_specification]
#[verifier::external_body]
pub struct ExClientBuilder(reqwest::ClientBuilder);

#[verifier::external_type_specification]
#[verifier::external_body]
pub struct ExProxy(reqwest::Proxy);

#[verifier::external_type_specification]
#[verifier::external_body]
pub struct ExReqwestError(reqwest::Error);

/// Relies on reqwest's `Proxy::all`: builds a proxy for all traffic from its
/// address, or fails.  Nothing is promised of which: for a SOCKS address it
/// resolves the host.
#[verifier::external_body]
fn proxy_for_all(address: &str) -> (r: Result<reqwest::Proxy, reqwest::Error>) {
    reqwest::Proxy::all(address)
}

/// Relies on reqwest's `Client::builder`: a builder with default settings.
pub assume_specification[ reqwest::Client::builder ]() -> reqwest::ClientBuilder;

/// Relies on reqwest's `ClientBuilder::proxy`: routes traffic through `proxy`.
pub assume_specification[ reqwest::ClientBuilder::proxy ](
    builder: reqwest::ClientBuilder,
    proxy: reqwest::Proxy,
) -> reqwest::ClientBuilder;

/// Relies on reqwest's `ClientBuilder::timeout`: sets the per-request timeout.
pub assume_specification[ reqwest::ClientBuilder::timeout ](
    builder: reqwest::ClientBuilder,
    timeout: core::time::Duration,
) -> reqwest::ClientBuilder;

/// Relies on reqwest's `ClientBuilder::build`: the client, or an error when
/// the TLS backend or the resolver cannot be set up.
pub assume_specification[ reqwest::ClientBuilder::build ](
    builder: reqwest::ClientBuilder,
) -> reqwest::Result<reqwest::Client>;

/// Relies on `Duration::from_secs`: a duration of whole seconds; it never panics.
pub assume_specification[ core::time::Duration::from_secs ](secs: u64) -> core::time::Duration;

/// Why a benchmark could not be set up.
#[derive(Debug)]
pub enum ConfigError {
    /// The proxy address does not start with `http://`, `https://`,
    /// `socks4://` or `socks5://`.
    UnsupportedProxyScheme,
    /// The HTTP client refused the proxy address.
    InvalidProxy(reqwest::Error),
    /// The HTTP client could not be built with that proxy and timeout.
    ClientBuild(reqwest::Error),
}

/// Why one request attempt failed.
#[derive(Clone, Debug, PartialEq, Eq)]
pub enum ExecutionError {
    /// Timeout, refused connection, DNS, TLS or body-read failure.
    Network(String),
}

/// What is captured from a response before its body is drained.
#[derive(Clone, Debug)]
pub struct ResponseInfo {
    pub status: u16,
    pub headers: Vec<(String, Vec<u8>)>,
    pub content_length: Option<u64>,
    pub remote_addr: Option<String>,
    pub url: String,
    pub version: String,
    pub body_size: usize,
}

/// A request executor: one proxy-routed client for one target URL.
pub struct Benchmark {
    client: reqwest::Client,
    url: String,
    timeout: u64,
}

impl Benchmark {
    /// The target URL.
    pub closed spec fn target(&self) -> Seq<char> {
        self.url@
    }

    /// The per-request timeout, in seconds.
    pub closed spec fn timeout_secs(&self) -> u64 {
        self.timeout
    }

    /// Sets up a client that sends every request through `proxy`, giving up on
    /// a request after `timeout` seconds.  Sends nothing.
    pub fn new(proxy: String, url: String, timeout: u64) -> (r: Result<Benchmark, ConfigError>)
        ensures
            spec_proxy_scheme(encode_utf8(proxy@)).is_none() <==> r matches Err(
                ConfigError::UnsupportedProxyScheme,
            ),
            r matches Ok(b) ==> b.target() == url@ && b.timeout_secs() == timeout,
    {
        if proxy_scheme_of(proxy.as_str()).is_none() {
            return Err(ConfigError::UnsupportedProxyScheme);
        }
        let proxy = match proxy_for_all(proxy.as_str()) {
            Ok(p) => p,
            Err(e) => return Err(ConfigError::InvalidProxy(e)),
        };
        let built = reqwest::Client::builder().proxy(proxy).timeout(
            core::time::Duration::from_secs(timeout),
        ).build();
        match built {
            Ok(client) => Ok(Benchmark { client, url, timeout }),
            Err(e) => Err(ConfigError::ClientBuild(e)),
        }
    }

    /// The shared client, safe for concurrent use.
    pub fn client(&self) -> &reqwest::Client {
        &self.client
    }

    pub fn url(&self) -> (r: &String)
        ensures
            r@ == self.target(),
    {
        &self.url
    }

    pub fn timeout(&self) -> (r: u64)
        ensures
            r == self.timeout_secs(),
    {
        self.timeout
    }

    /// Builds the result of one completed attempt from what was captured of the
    /// response and the measured intervals, in nanoseconds: until the headers
    /// arrived, to drain the body, and the whole attempt.
    pub fn record(
        &self,
        info: ResponseInfo,
        dns_lookup: Option<u64>,
        measured_connect: u64,
        download: u64,
        total: u64,
    ) -> (r: BenchmarkResult)
        ensures
            r.status == info.status,
            r.headers == info.headers,
            r.content_length == info.content_length,
            r.remote_addr == info.remote_addr,
            r.url == info.url,
            r.version == info.version,
            r.body_size == info.body_size,
            r.timing == RequestTiming::spec_estimate(
                spec_is_secure(encode_utf8(self.target())),
                dns_lookup,
                measured_connect,
                download,
                total,
            ),
    {
        let secure = is_secure_url(self.url.as_str());
        BenchmarkResult {
            status: info.status,
            timing: RequestTiming::from_measurements(
                secure,
                dns_lookup,
                measured_connect,
                download,
                total,
            ),
            headers: info.headers,
            content_length: info.content_length,
            remote_addr: info.remote_addr,
            url: info.url,
            version: info.version,
            body_size: info.body_size,
        }
    }
}

} // verus!
