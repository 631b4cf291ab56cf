use proxy_bench::{
    aggregate, is_secure_url, proxy_scheme_of, Action, Benchmark, BenchmarkResult, ConfigError,
    Dispatcher, ExecutionError, ProxyScheme, RequestTiming, ResponseInfo,
};

const MS: u64 = 1_000_000;

fn timing(total: u64, tcp_connect: u64, ttfb: u64, download: u64) -> RequestTiming {
    RequestTiming {
        dns_lookup: None,
        tcp_connect,
        tls_handshake: None,
        time_to_first_byte: ttfb,
        download,
        total,
    }
}

/// Runs a whole batch against a stub executor that finishes attempts in the
/// order they started; returns the dispatcher and the most attempts seen in
/// flight at once.
fn run_stub<F>(requested: u64, concurrency: u64, mut outcome: F) -> (Dispatcher, u64)
where
    F: FnMut(u64) -> Result<BenchmarkResult, ExecutionError>,
{
    let mut d = Dispatcher::new(requested, concurrency);
    let mut in_flight: std::collections::VecDeque<u64> = std::collections::VecDeque::new();
    let mut next_id: u64 = 0;
    let mut max_active: u64 = 0;
    loop {
        match d.next_action() {
            Action::Launch => {
                d.launch();
                in_flight.push_back(next_id);
                next_id += 1;
                max_active = max_active.max(in_flight.len() as u64);
                assert_eq!(d.active(), in_flight.len() as u64);
            }
            Action::Wait => {
                let id = in_flight.pop_front().expect("an attempt is in flight");
                d.finish(outcome(id));
            }
            Action::Done => break,
        }
    }
    assert!(in_flight.is_empty());
    (d, max_active)
}

fn ok_result() -> BenchmarkResult {
    BenchmarkResult::basic(200, timing(100 * MS, 20 * MS, 5 * MS, 50 * MS), 1000)
}

#[test]
fn secure_url_splits_connect_time_in_half() {
    let t = RequestTiming::from_measurements(true, None, 30 * MS, 0, 0);
    assert_eq!(t.tcp_connect, 15 * MS);
    assert_eq!(t.tls_handshake, Some(15 * MS));
    let odd = RequestTiming::from_measurements(true, None, 7, 0, 0);
    assert_eq!(odd.tcp_connect, 3);
    assert_eq!(odd.tls_handshake, Some(3));
}

#[test]
fn plain_url_keeps_whole_connect_time() {
    let t = RequestTiming::from_measurements(false, Some(4), 30 * MS, 10, 99);
    assert_eq!(t.tcp_connect, 30 * MS);
    assert_eq!(t.tls_handshake, None);
    assert_eq!(t.dns_lookup, Some(4));
    assert_eq!(t.total, 99);
}

#[test]
fn first_byte_is_a_tenth_of_download() {
    for download in [0u64, 9, 10, 123_456_789, u64::MAX] {
        let t = RequestTiming::from_measurements(false, None, 0, download, 0);
        assert_eq!(t.time_to_first_byte, download / 10);
        assert_eq!(t.download, download);
    }
    let t = RequestTiming::from_measurements(true, None, 0, 50 * MS, 0);
    assert_eq!(t.time_to_first_byte, 5 * MS);
}

#[test]
fn secure_scheme_is_recognised() {
    assert!(is_secure_url("https://wtfismyip.com/text"));
    assert!(is_secure_url("HTTPS://example.com"));
    assert!(!is_secure_url("http://example.com"));
    assert!(!is_secure_url("httpsx://example.com"));
    assert!(!is_secure_url("https:/example.com"));
    assert!(!is_secure_url(""));
}

#[test]
fn proxy_schemes_are_classified() {
    assert_eq!(proxy_scheme_of("http://proxy:8080"), Some(ProxyScheme::Http));
    assert_eq!(proxy_scheme_of("https://proxy:8080"), Some(ProxyScheme::Https));
    assert_eq!(proxy_scheme_of("socks4://proxy:1080"), Some(ProxyScheme::Socks4));
    assert_eq!(proxy_scheme_of("SOCKS5://proxy:1080"), Some(ProxyScheme::Socks5));
    assert_eq!(proxy_scheme_of("not-a-url"), None);
    assert_eq!(proxy_scheme_of("ftp://proxy:21"), None);
    assert_eq!(proxy_scheme_of("socks5h://proxy:1080"), None);
    assert_eq!(proxy_scheme_of("http:"), None);
}

#[test]
fn invalid_proxy_address_is_a_config_error() {
    let r = Benchmark::new("not-a-url".to_string(), "https://example.com".to_string(), 5);
    assert!(matches!(r, Err(ConfigError::UnsupportedProxyScheme)));
}

#[test]
fn proxy_scheme_the_client_refuses_is_a_config_error() {
    let r = Benchmark::new("socks4://127.0.0.1:1080".to_string(), "http://x".to_string(), 5);
    assert!(matches!(r, Err(ConfigError::InvalidProxy(_))));
}

#[test]
fn valid_proxy_builds_an_executor() {
    let b = Benchmark::new("http://127.0.0.1:8080".to_string(), "https://example.com/".to_string(), 7)
        .expect("client builds");
    assert_eq!(b.url(), "https://example.com/");
    assert_eq!(b.timeout(), 7);
}

#[test]
fn record_estimates_from_the_target_scheme() {
    let info = ResponseInfo {
        status: 204,
        headers: vec![("server".to_string(), b"stub".to_vec())],
        content_length: Some(0),
        remote_addr: Some("127.0.0.1:8080".to_string()),
        url: "https://example.com/".to_string(),
        version: "HTTP/1.1".to_string(),
        body_size: 0,
    };
    let secure = Benchmark::new("http://127.0.0.1:8080".to_string(), "https://example.com/".to_string(), 5)
        .expect("client builds");
    let r = secure.record(info.clone(), Some(1), 40, 100, 200);
    assert_eq!(r.status, 204);
    assert_eq!(r.timing.tcp_connect, 20);
    assert_eq!(r.timing.tls_handshake, Some(20));
    assert_eq!(r.timing.time_to_first_byte, 10);
    assert_eq!(r.timing.total, 200);
    assert_eq!(r.headers.len(), 1);
    assert_eq!(r.version, "HTTP/1.1");
    let plain = Benchmark::new("http://127.0.0.1:8080".to_string(), "http://example.com/".to_string(), 5)
        .expect("client builds");
    let r = plain.record(info, None, 40, 100, 200);
    assert_eq!(r.timing.tcp_connect, 40);
    assert_eq!(r.timing.tls_handshake, None);
}

#[test]
fn dispatcher_runs_exactly_the_requested_attempts() {
    for (requested, concurrency) in [(0u64, 1u64), (1, 1), (10, 2), (25, 4), (3, 100), (50, 1)] {
        let (d, max_active) = run_stub(requested, concurrency, |_| Ok(ok_result()));
        assert_eq!(d.launched(), requested);
        assert_eq!(d.results().len() as u64, requested);
        assert_eq!(d.failed(), 0);
        assert!(max_active <= concurrency);
        assert!(max_active <= requested.max(1));
    }
}

#[test]
fn dispatcher_drops_failures_and_counts_them() {
    let (d, max_active) = run_stub(9, 3, |id| {
        if id % 3 == 0 {
            Err(ExecutionError::Network("connection refused".to_string()))
        } else {
            Ok(ok_result())
        }
    });
    assert_eq!(max_active, 3);
    assert_eq!(d.failed(), 3);
    assert_eq!(d.results().len(), 6);
    assert_eq!(d.requested() - d.results().len() as u64, d.failed());
}

#[test]
fn dispatcher_with_nothing_to_do_is_done() {
    let d = Dispatcher::new(0, 5);
    assert_eq!(d.next_action(), Action::Done);
    assert!(d.into_results().is_empty());
}

#[test]
fn end_to_end_with_stub_executor() {
    let (d, max_active) = run_stub(10, 2, |_| Ok(ok_result()));
    assert!(max_active <= 2);
    let results = d.into_results();
    let stats = aggregate(&results, 10);
    assert_eq!(stats.requested, 10);
    assert_eq!(stats.completed, 10);
    assert_eq!(stats.successful, 10);
    assert_eq!(stats.avg_total, 100 * MS);
    assert_eq!(stats.avg_tcp_connect, 20 * MS);
    assert_eq!(stats.avg_time_to_first_byte, 5 * MS);
    assert_eq!(stats.avg_download, 50 * MS);
    assert_eq!(stats.total_bytes, 10_000);
    assert_eq!(stats.status_codes, vec![200]);
}

#[test]
fn aggregate_of_nothing_is_defined() {
    let stats = aggregate(&Vec::new(), 5);
    assert_eq!(stats.requested, 5);
    assert_eq!(stats.completed, 0);
    assert_eq!(stats.successful, 0);
    assert_eq!(stats.avg_total, 0);
    assert_eq!(stats.avg_tcp_connect, 0);
    assert_eq!(stats.avg_time_to_first_byte, 0);
    assert_eq!(stats.avg_download, 0);
    assert_eq!(stats.avg_dns_lookup, None);
    assert_eq!(stats.avg_tls_handshake, None);
    assert_eq!(stats.total_bytes, 0);
    assert!(stats.status_codes.is_empty());
}

#[test]
fn average_of_identical_results_is_exact() {
    let t = RequestTiming {
        dns_lookup: Some(333),
        tcp_connect: 7_777_777,
        tls_handshake: Some(7_777_777),
        time_to_first_byte: 1_234_567,
        download: 12_345_678,
        total: u64::MAX,
    };
    let results: Vec<BenchmarkResult> = (0..7).map(|_| BenchmarkResult::basic(200, t, 5)).collect();
    let stats = aggregate(&results, 7);
    assert_eq!(stats.avg_total, u64::MAX);
    assert_eq!(stats.avg_tcp_connect, 7_777_777);
    assert_eq!(stats.avg_time_to_first_byte, 1_234_567);
    assert_eq!(stats.avg_download, 12_345_678);
    assert_eq!(stats.avg_dns_lookup, Some(333));
    assert_eq!(stats.avg_tls_handshake, Some(7_777_777));
    assert_eq!(stats.total_bytes, 35);
}

#[test]
fn aggregate_of_mixed_results() {
    let mut a = BenchmarkResult::basic(500, timing(10, 1, 0, 4), 3);
    a.timing.tls_handshake = Some(6);
    let b = BenchmarkResult::basic(200, timing(20, 2, 1, 10), 100);
    let mut c = BenchmarkResult::basic(404, timing(31, 4, 2, 25), 0);
    c.timing.dns_lookup = Some(9);
    let d = BenchmarkResult::basic(200, timing(40, 8, 3, 30), usize::MAX);
    let stats = aggregate(&vec![a.clone(), b.clone(), c.clone(), d.clone()], 6);
    assert_eq!(stats.requested, 6);
    assert_eq!(stats.completed, 4);
    assert_eq!(stats.successful, 2);
    assert_eq!(stats.avg_total, 25);
    assert_eq!(stats.avg_tcp_connect, 3);
    assert_eq!(stats.avg_time_to_first_byte, 1);
    assert_eq!(stats.avg_download, 17);
    assert_eq!(stats.avg_dns_lookup, Some(9));
    assert_eq!(stats.avg_tls_handshake, Some(6));
    assert_eq!(stats.total_bytes, 103 + usize::MAX as u128);
    assert_eq!(stats.status_codes, vec![200, 404, 500]);
    let reordered = aggregate(&vec![d, c, b, a], 6);
    assert_eq!(reordered, stats);
}
