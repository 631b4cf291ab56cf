use vstd::prelude::*;

verus! {

/// Phase durations of one request attempt, each in nanoseconds.
///
/// `total` is always measured directly.  `time_to_first_byte` is estimated as a
/// tenth of `download`; for a secure target, `tcp_connect` and `tls_handshake`
/// are an equal split of the measured connect interval.
#[derive(Clone, Copy, Debug, PartialEq, Eq, Structural)]
pub struct RequestTiming {
    pub dns_lookup: Option<u64>,
    pub tcp_connect: u64,
    pub tls_handshake: Option<u64>,
    pub time_to_first_byte: u64,
    pub download: u64,
    pub total: u64,
}

impl RequestTiming {
    /// The phase durations estimated from the measured intervals.
    pub open spec fn spec_estimate(
        secure: bool,
        dns_lookup: Option<u64>,
        measured_connect: u64,
        download: u64,
        total: u64,
    ) -> RequestTiming {
        RequestTiming {
            dns_lookup,
            tcp_connect: if secure {
                (measured_connect / 2) as u64
            } else {
                measured_connect
            },
            tls_handshake: if secure {
                Some((measured_connect / 2) as u64)
            } else {
                None
            },
            time_to_first_byte: (download / 10) as u64,
            download,
            total,
        }
    }

    /// Derives the phase durations from the coarse intervals that can be
    /// measured: the time until response headers arrive (`measured_connect`),
    /// the time to drain the body (`download`) and the whole span (`total`).
    pub fn from_measurements(
        secure: bool,
        dns_lookup: Option<u64>,
        measured_connect: u64,
        download: u64,
        total: u64,
    ) -> (r: RequestTiming)
        ensures
            r.dns_lookup == dns_lookup,
            r.time_to_first_byte == download / 10,
            r.download == download,
            r.total == total,
            secure ==> r.tcp_connect == measured_connect / 2 && r.tls_handshake == Some(
                measured_connect / 2,
            ),
            !secure ==> r.tcp_connect == measured_connect && r.tls_handshake.is_none(),
            r == RequestTiming::spec_estimate(secure, dns_lookup, measured_connect, download, total),
    {
        let (tcp_connect, tls_handshake) = if secure {
            let half = measured_connect / 2;
            (half, Some(half))
        } else {
            (measured_connect, None)
        };
        RequestTiming {
            dns_lookup,
            tcp_connect,
            tls_handshake,
            time_to_first_byte: download / 10,
            download,
            total,
        }
    }
}

/// One completed request attempt.
#[derive(Clone, Debug)]
pub struct BenchmarkResult {
    pub status: u16,
    pub timing: RequestTiming,
    /// Response headers as name and raw value.
    pub headers: Vec<(String, Vec<u8>)>,
    /// The declared `Content-Length`, if any.
    pub content_length: Option<u64>,
    /// The remote peer address, as text.
    pub remote_addr: Option<String>,
    /// The final URL after redirects.
    pub url: String,
    /// The protocol version, as text.
    pub version: String,
    pub body_size: usize,
}

impl BenchmarkResult {
    /// A result that carries only the status, the timing and the body size.
    pub fn basic(status: u16, timing: RequestTiming, body_size: usize) -> (r: BenchmarkResult)
        ensures
            r.status == status,
            r.timing == timing,
            r.body_size == body_size,
            r.headers@.len() == 0,
            r.content_length.is_none(),
            r.remote_addr.is_none(),
            r.url@.len() == 0,
            r.version@.len() == 0,
    {
        BenchmarkResult {
            status,
            timing,
            headers: Vec::new(),
            content_length: None,
            remote_addr: None,
            url: String::new(),
            version: String::new(),
            body_size,
        }
    }
}

} // verus!
