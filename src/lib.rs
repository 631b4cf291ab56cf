//! Proxy benchmarking: per-request timing estimation, a bounded-concurrency
//! dispatcher modelled as a state machine, and a pure result aggregator.

pub mod aggregate;
pub mod dispatch;
pub mod executor;
pub mod timing;

pub use aggregate::{aggregate, AggregateStats};
pub use dispatch::{Action, Dispatcher};
pub use executor::{
    is_secure_url, proxy_scheme_of, Benchmark, ConfigError, ExecutionError, ProxyScheme,
    ResponseInfo,
};
pub use timing::{BenchmarkResult, RequestTiming};
