//! Settings of a reverse proxy.

use vstd::prelude::*;
use crate::duplicate::Duplicate;
use crate::table::Table;

verus! {

/// A value that may hold placeholders.
#[derive(Debug, PartialEq, Eq)]
pub enum Expr {
    String(String),
}

/// The mathematical value of a [`Expr`].
#[verifier::ext_equal]
pub enum ExprV {
    String(Seq<char>),
}

impl DeepView for Expr {
    type V = ExprV;

    open spec fn deep_view(&self) -> ExprV {
        match self {
            Expr::String(a) => ExprV::String(a.deep_view()),
        }
    }
}

impl Duplicate for Expr {
    fn duplicate(&self) -> Self {
        match self {
            Expr::String(a) => Expr::String(a.duplicate()),
        }
    }
}

/// One upstream and its share of the load.
#[derive(Debug, PartialEq, Eq)]
pub struct ProxyUpstreamConfig {
    pub address: String,
    pub weight: u32,
    pub backup: bool,
}

/// The mathematical value of a [`ProxyUpstreamConfig`].
#[verifier::ext_equal]
pub struct ProxyUpstreamConfigV {
    pub address: Seq<char>,
    pub weight: u32,
    pub backup: bool,
}

impl DeepView for ProxyUpstreamConfig {
    type V = ProxyUpstreamConfigV;

    open spec fn deep_view(&self) -> ProxyUpstreamConfigV {
        ProxyUpstreamConfigV {
            address: self.address.deep_view(),
            weight: self.weight.deep_view(),
            backup: self.backup.deep_view(),
        }
    }
}

impl Duplicate for ProxyUpstreamConfig {
    fn duplicate(&self) -> Self {
        ProxyUpstreamConfig {
            address: self.address.duplicate(),
            weight: self.weight.duplicate(),
            backup: self.backup.duplicate(),
        }
    }
}

/// When buffered response bytes are flushed.
#[derive(Debug, Clone, Copy, PartialEq, Eq, Structural)]
pub enum FlushInterval {
    Immediate,
    Duration(u64),
}

impl DeepView for FlushInterval {
    type V = FlushInterval;

    open spec fn deep_view(&self) -> FlushInterval {
        *self
    }
}

impl Duplicate for FlushInterval {
    fn duplicate(&self) -> Self {
        *self
    }
}

/// TLS towards the upstream.
#[derive(Debug, PartialEq, Eq)]
pub struct UpstreamTlsConfig {
    pub enable: bool,
    pub server_name: Option<String>,
    pub trusted_ca_certs: Vec<String>,
    pub client_cert: Option<String>,
    pub client_key: Option<String>,
    pub insecure_skip_verify: bool,
}

/// The mathematical value of a [`UpstreamTlsConfig`].
#[verifier::ext_equal]
pub struct UpstreamTlsConfigV {
    pub enable: bool,
    pub server_name: Option<Seq<char>>,
    pub trusted_ca_certs: Seq<Seq<char>>,
    pub client_cert: Option<Seq<char>>,
    pub client_key: Option<Seq<char>>,
    pub insecure_skip_verify: bool,
}

impl DeepView for UpstreamTlsConfig {
    type V = UpstreamTlsConfigV;

    open spec fn deep_view(&self) -> UpstreamTlsConfigV {
        UpstreamTlsConfigV {
            enable: self.enable.deep_view(),
            server_name: self.server_name.deep_view(),
            trusted_ca_certs: self.trusted_ca_certs.deep_view(),
            client_cert: self.client_cert.deep_view(),
            client_key: self.client_key.deep_view(),
            insecure_skip_verify: self.insecure_skip_verify.deep_view(),
        }
    }
}

impl Duplicate for UpstreamTlsConfig {
    fn duplicate(&self) -> Self {
        UpstreamTlsConfig {
            enable: self.enable.duplicate(),
            server_name: self.server_name.duplicate(),
            trusted_ca_certs: self.trusted_ca_certs.duplicate(),
            client_cert: self.client_cert.duplicate(),
            client_key: self.client_key.duplicate(),
            insecure_skip_verify: self.insecure_skip_verify.duplicate(),
        }
    }
}

impl UpstreamTlsConfigV {
    /// Nothing configured.
    pub open spec fn unset() -> UpstreamTlsConfigV {
        UpstreamTlsConfigV {
            enable: false,
            server_name: None,
            trusted_ca_certs: Seq::<Seq<char>>::empty(),
            client_cert: None,
            client_key: None,
            insecure_skip_verify: false,
        }
    }
}

impl UpstreamTlsConfig {
    /// Nothing configured.
    pub fn unset() -> (r: UpstreamTlsConfig)
        ensures
            r.deep_view() == UpstreamTlsConfigV::unset(),
    {
        let r = UpstreamTlsConfig {
            enable: false,
            server_name: None,
            trusted_ca_certs: Vec::new(),
            client_cert: None,
            client_key: None,
            insecure_skip_verify: false,
        };
        assert(r.deep_view() =~= UpstreamTlsConfigV::unset());
        r
    }
}

/// The HTTP transport; durations are in milliseconds.
#[derive(Debug, PartialEq, Eq)]
pub struct TransportConfig {
    pub connect_timeout: Option<u64>,
    pub first_byte_timeout: Option<u64>,
    pub between_reads_timeout: Option<u64>,
    pub read_timeout: Option<u64>,
    pub write_timeout: Option<u64>,
    pub tls: UpstreamTlsConfig,
}

/// The mathematical value of a [`TransportConfig`].
#[verifier::ext_equal]
pub struct TransportConfigV {
    pub connect_timeout: Option<u64>,
    pub first_byte_timeout: Option<u64>,
    pub between_reads_timeout: Option<u64>,
    pub read_timeout: Option<u64>,
    pub write_timeout: Option<u64>,
    pub tls: UpstreamTlsConfigV,
}

impl DeepView for TransportConfig {
    type V = TransportConfigV;

    open spec fn deep_view(&self) -> TransportConfigV {
        TransportConfigV {
            connect_timeout: self.connect_timeout.deep_view(),
            first_byte_timeout: self.first_byte_timeout.deep_view(),
            between_reads_timeout: self.between_reads_timeout.deep_view(),
            read_timeout: self.read_timeout.deep_view(),
            write_timeout: self.write_timeout.deep_view(),
            tls: self.tls.deep_view(),
        }
    }
}

impl Duplicate for TransportConfig {
    fn duplicate(&self) -> Self {
        TransportConfig {
            connect_timeout: self.connect_timeout.duplicate(),
            first_byte_timeout: self.first_byte_timeout.duplicate(),
            between_reads_timeout: self.between_reads_timeout.duplicate(),
            read_timeout: self.read_timeout.duplicate(),
            write_timeout: self.write_timeout.duplicate(),
            tls: self.tls.duplicate(),
        }
    }
}

impl TransportConfigV {
    /// Nothing configured.
    pub open spec fn unset() -> TransportConfigV {
        TransportConfigV {
            connect_timeout: None,
            first_byte_timeout: None,
            between_reads_timeout: None,
            read_timeout: None,
            write_timeout: None,
            tls: UpstreamTlsConfigV::unset(),
        }
    }
}

impl TransportConfig {
    /// Nothing configured.
    pub fn unset() -> (r: TransportConfig)
        ensures
            r.deep_view() == TransportConfigV::unset(),
    {
        let r = TransportConfig {
            connect_timeout: None,
            first_byte_timeout: None,
            between_reads_timeout: None,
            read_timeout: None,
            write_timeout: None,
            tls: UpstreamTlsConfig::unset(),
        };
        assert(r.deep_view() =~= TransportConfigV::unset());
        r
    }
}

/// The FastCGI transport.
#[derive(Debug, PartialEq, Eq)]
pub struct FastCgiTransportConfig {
    pub root: Option<String>,
    pub split_path: Vec<String>,
    pub env: Table<String>,
    pub resolve_root_symlink: bool,
    pub dial_timeout_ms: Option<u64>,
    pub read_timeout_ms: Option<u64>,
    pub write_timeout_ms: Option<u64>,
    pub capture_stderr: bool,
}

/// The mathematical value of a [`FastCgiTransportConfig`].
#[verifier::ext_equal]
pub struct FastCgiTransportConfigV {
    pub root: Option<Seq<char>>,
    pub split_path: Seq<Seq<char>>,
    pub env: Map<Seq<char>, Seq<char>>,
    pub resolve_root_symlink: bool,
    pub dial_timeout_ms: Option<u64>,
    pub read_timeout_ms: Option<u64>,
    pub write_timeout_ms: Option<u64>,
    pub capture_stderr: bool,
}

impl DeepView for FastCgiTransportConfig {
    type V = FastCgiTransportConfigV;

    open spec fn deep_view(&self) -> FastCgiTransportConfigV {
        FastCgiTransportConfigV {
            root: self.root.deep_view(),
            split_path: self.split_path.deep_view(),
            env: self.env.deep_view(),
            resolve_root_symlink: self.resolve_root_symlink.deep_view(),
            dial_timeout_ms: self.dial_timeout_ms.deep_view(),
            read_timeout_ms: self.read_timeout_ms.deep_view(),
            write_timeout_ms: self.write_timeout_ms.deep_view(),
            capture_stderr: self.capture_stderr.deep_view(),
        }
    }
}

impl Duplicate for FastCgiTransportConfig {
    fn duplicate(&self) -> Self {
        FastCgiTransportConfig {
            root: self.root.duplicate(),
            split_path: self.split_path.duplicate(),
            env: self.env.duplicate(),
            resolve_root_symlink: self.resolve_root_symlink.duplicate(),
            dial_timeout_ms: self.dial_timeout_ms.duplicate(),
            read_timeout_ms: self.read_timeout_ms.duplicate(),
            write_timeout_ms: self.write_timeout_ms.duplicate(),
            capture_stderr: self.capture_stderr.duplicate(),
        }
    }
}

impl FastCgiTransportConfigV {
    /// Nothing configured.
    pub open spec fn unset() -> FastCgiTransportConfigV {
        FastCgiTransportConfigV {
            root: None,
            split_path: Seq::<Seq<char>>::empty(),
            env: Map::<Seq<char>, Seq<char>>::empty(),
            resolve_root_symlink: false,
            dial_timeout_ms: None,
            read_timeout_ms: None,
            write_timeout_ms: None,
            capture_stderr: false,
        }
    }
}

impl FastCgiTransportConfig {
    /// Nothing configured.
    pub fn unset() -> (r: FastCgiTransportConfig)
        ensures
            r.deep_view() == FastCgiTransportConfigV::unset(),
    {
        let r = FastCgiTransportConfig {
            root: None,
            split_path: Vec::new(),
            env: Table::new(),
            resolve_root_symlink: false,
            dial_timeout_ms: None,
            read_timeout_ms: None,
            write_timeout_ms: None,
            capture_stderr: false,
        };
        assert(r.deep_view() =~= FastCgiTransportConfigV::unset());
        r
    }
}

/// Response caching; no size leaves the default ceiling in place.
#[derive(Debug, Clone, Copy, PartialEq, Eq, Structural)]
pub struct CacheConfig {
    pub ttl_secs: u64,
    pub max_size_bytes: Option<usize>,
}

impl DeepView for CacheConfig {
    type V = CacheConfig;

    open spec fn deep_view(&self) -> CacheConfig {
        *self
    }
}

impl Duplicate for CacheConfig {
    fn duplicate(&self) -> Self {
        *self
    }
}

/// Redispatch policy; a field left `None` keeps the built-in default.
#[derive(Debug, PartialEq, Eq)]
pub struct RetryConfig {
    pub max_attempts: Option<usize>,
    pub total_timeout_ms: Option<u64>,
    pub backoff_ms: Option<u64>,
    pub status_codes: Vec<u16>,
    pub methods: Vec<String>,
    pub path_patterns: Vec<String>,
    /// Expressions kept as written.
    pub expressions: Vec<String>,
}

/// The mathematical value of a [`RetryConfig`].
#[verifier::ext_equal]
pub struct RetryConfigV {
    pub max_attempts: Option<usize>,
    pub total_timeout_ms: Option<u64>,
    pub backoff_ms: Option<u64>,
    pub status_codes: Seq<u16>,
    pub methods: Seq<Seq<char>>,
    pub path_patterns: Seq<Seq<char>>,
    pub expressions: Seq<Seq<char>>,
}

impl DeepView for RetryConfig {
    type V = RetryConfigV;

    open spec fn deep_view(&self) -> RetryConfigV {
        RetryConfigV {
            max_attempts: self.max_attempts.deep_view(),
            total_timeout_ms: self.total_timeout_ms.deep_view(),
            backoff_ms: self.backoff_ms.deep_view(),
            status_codes: self.status_codes.deep_view(),
            methods: self.methods.deep_view(),
            path_patterns: self.path_patterns.deep_view(),
            expressions: self.expressions.deep_view(),
        }
    }
}

impl Duplicate for RetryConfig {
    fn duplicate(&self) -> Self {
        RetryConfig {
            max_attempts: self.max_attempts.duplicate(),
            total_timeout_ms: self.total_timeout_ms.duplicate(),
            backoff_ms: self.backoff_ms.duplicate(),
            status_codes: self.status_codes.duplicate(),
            methods: self.methods.duplicate(),
            path_patterns: self.path_patterns.duplicate(),
            expressions: self.expressions.duplicate(),
        }
    }
}

impl RetryConfigV {
    /// Nothing configured.
    pub open spec fn unset() -> RetryConfigV {
        RetryConfigV {
            max_attempts: None,
            total_timeout_ms: None,
            backoff_ms: None,
            status_codes: Seq::<u16>::empty(),
            methods: Seq::<Seq<char>>::empty(),
            path_patterns: Seq::<Seq<char>>::empty(),
            expressions: Seq::<Seq<char>>::empty(),
        }
    }
}

impl RetryConfig {
    /// Nothing configured.
    pub fn unset() -> (r: RetryConfig)
        ensures
            r.deep_view() == RetryConfigV::unset(),
    {
        let r = RetryConfig {
            max_attempts: None,
            total_timeout_ms: None,
            backoff_ms: None,
            status_codes: Vec::new(),
            methods: Vec::new(),
            path_patterns: Vec::new(),
            expressions: Vec::new(),
        };
        assert(r.deep_view() =~= RetryConfigV::unset());
        r
    }
}

/// Admission limits; a field left `None` keeps the built-in default.
#[derive(Debug, Clone, Copy, PartialEq, Eq, Structural)]
pub struct OverloadConfig {
    pub max_in_flight: Option<usize>,
    pub max_pending: Option<usize>,
    pub pending_timeout_ms: Option<u64>,
    pub upstream_max_connections: Option<usize>,
}

impl DeepView for OverloadConfig {
    type V = OverloadConfig;

    open spec fn deep_view(&self) -> OverloadConfig {
        *self
    }
}

impl Duplicate for OverloadConfig {
    fn duplicate(&self) -> Self {
        *self
    }
}

impl OverloadConfig {
    /// Nothing configured.
    pub open spec fn none() -> OverloadConfig {
        OverloadConfig { max_in_flight: None, max_pending: None, pending_timeout_ms: None, upstream_max_connections: None }
    }

    /// Nothing configured.
    pub fn unset() -> (r: OverloadConfig)
        ensures
            r == OverloadConfig::none(),
    {
        OverloadConfig { max_in_flight: None, max_pending: None, pending_timeout_ms: None, upstream_max_connections: None }
    }
}

/// Per-upstream breaker; a field left `None` keeps the built-in default.
#[derive(Debug, PartialEq, Eq)]
pub struct CircuitBreakerConfig {
    pub consecutive_failures: Option<u32>,
    pub error_rate_percent: Option<u8>,
    pub minimum_requests: Option<usize>,
    pub window_requests: Option<usize>,
    pub open_duration_ms: Option<u64>,
    pub half_open_requests: Option<usize>,
    pub failure_statuses: Option<Vec<u16>>,
}

/// The mathematical value of a [`CircuitBreakerConfig`].
#[verifier::ext_equal]
pub struct CircuitBreakerConfigV {
    pub consecutive_failures: Option<u32>,
    pub error_rate_percent: Option<u8>,
    pub minimum_requests: Option<usize>,
    pub window_requests: Option<usize>,
    pub open_duration_ms: Option<u64>,
    pub half_open_requests: Option<usize>,
    pub failure_statuses: Option<Seq<u16>>,
}

impl DeepView for CircuitBreakerConfig {
    type V = CircuitBreakerConfigV;

    open spec fn deep_view(&self) -> CircuitBreakerConfigV {
        CircuitBreakerConfigV {
            consecutive_failures: self.consecutive_failures.deep_view(),
            error_rate_percent: self.error_rate_percent.deep_view(),
            minimum_requests: self.minimum_requests.deep_view(),
            window_requests: self.window_requests.deep_view(),
            open_duration_ms: self.open_duration_ms.deep_view(),
            half_open_requests: self.half_open_requests.deep_view(),
            failure_statuses: self.failure_statuses.deep_view(),
        }
    }
}

impl Duplicate for CircuitBreakerConfig {
    fn duplicate(&self) -> Self {
        CircuitBreakerConfig {
            consecutive_failures: self.consecutive_failures.duplicate(),
            error_rate_percent: self.error_rate_percent.duplicate(),
            minimum_requests: self.minimum_requests.duplicate(),
            window_requests: self.window_requests.duplicate(),
            open_duration_ms: self.open_duration_ms.duplicate(),
            half_open_requests: self.half_open_requests.duplicate(),
            failure_statuses: self.failure_statuses.duplicate(),
        }
    }
}

impl CircuitBreakerConfigV {
    /// Nothing configured.
    pub open spec fn unset() -> CircuitBreakerConfigV {
        CircuitBreakerConfigV {
            consecutive_failures: None,
            error_rate_percent: None,
            minimum_requests: None,
            window_requests: None,
            open_duration_ms: None,
            half_open_requests: None,
            failure_statuses: None,
        }
    }
}

impl CircuitBreakerConfig {
    /// Nothing configured.
    pub fn unset() -> (r: CircuitBreakerConfig)
        ensures
            r.deep_view() == CircuitBreakerConfigV::unset(),
    {
        let r = CircuitBreakerConfig {
            consecutive_failures: None,
            error_rate_percent: None,
            minimum_requests: None,
            window_requests: None,
            open_duration_ms: None,
            half_open_requests: None,
            failure_statuses: None,
        };
        assert(r.deep_view() =~= CircuitBreakerConfigV::unset());
        r
    }
}

/// Active health checking; a field left `None` keeps the built-in default.
#[derive(Debug, PartialEq, Eq)]
pub struct HealthCheckConfig {
    pub path: Option<String>,
    pub interval_secs: Option<u64>,
    pub timeout_secs: Option<u64>,
    pub method: Option<String>,
    pub host: Option<String>,
    pub headers: Table<String>,
    pub expected_statuses: Option<Vec<u16>>,
    pub expected_body: Option<String>,
    pub port: Option<u16>,
    pub consecutive_success: Option<u32>,
    pub consecutive_failure: Option<u32>,
    pub reuse_connection: bool,
    pub max_response_body_bytes: Option<usize>,
    pub slow_start_ms: Option<u64>,
}

/// The mathematical value of a [`HealthCheckConfig`].
#[verifier::ext_equal]
pub struct HealthCheckConfigV {
    pub path: Option<Seq<char>>,
    pub interval_secs: Option<u64>,
    pub timeout_secs: Option<u64>,
    pub method: Option<Seq<char>>,
    pub host: Option<Seq<char>>,
    pub headers: Map<Seq<char>, Seq<char>>,
    pub expected_statuses: Option<Seq<u16>>,
    pub expected_body: Option<Seq<char>>,
    pub port: Option<u16>,
    pub consecutive_success: Option<u32>,
    pub consecutive_failure: Option<u32>,
    pub reuse_connection: bool,
    pub max_response_body_bytes: Option<usize>,
    pub slow_start_ms: Option<u64>,
}

impl DeepView for HealthCheckConfig {
    type V = HealthCheckConfigV;

    open spec fn deep_view(&self) -> HealthCheckConfigV {
        HealthCheckConfigV {
            path: self.path.deep_view(),
            interval_secs: self.interval_secs.deep_view(),
            timeout_secs: self.timeout_secs.deep_view(),
            method: self.method.deep_view(),
            host: self.host.deep_view(),
            headers: self.headers.deep_view(),
            expected_statuses: self.expected_statuses.deep_view(),
            expected_body: self.expected_body.deep_view(),
            port: self.port.deep_view(),
            consecutive_success: self.consecutive_success.deep_view(),
            consecutive_failure: self.consecutive_failure.deep_view(),
            reuse_connection: self.reuse_connection.deep_view(),
            max_response_body_bytes: self.max_response_body_bytes.deep_view(),
            slow_start_ms: self.slow_start_ms.deep_view(),
        }
    }
}

impl Duplicate for HealthCheckConfig {
    fn duplicate(&self) -> Self {
        HealthCheckConfig {
            path: self.path.duplicate(),
            interval_secs: self.interval_secs.duplicate(),
            timeout_secs: self.timeout_secs.duplicate(),
            method: self.method.duplicate(),
            host: self.host.duplicate(),
            headers: self.headers.duplicate(),
            expected_statuses: self.expected_statuses.duplicate(),
            expected_body: self.expected_body.duplicate(),
            port: self.port.duplicate(),
            consecutive_success: self.consecutive_success.duplicate(),
            consecutive_failure: self.consecutive_failure.duplicate(),
            reuse_connection: self.reuse_connection.duplicate(),
            max_response_body_bytes: self.max_response_body_bytes.duplicate(),
            slow_start_ms: self.slow_start_ms.duplicate(),
        }
    }
}

impl HealthCheckConfigV {
    /// Nothing configured.
    pub open spec fn unset() -> HealthCheckConfigV {
        HealthCheckConfigV {
            path: None,
            interval_secs: None,
            timeout_secs: None,
            method: None,
            host: None,
            headers: Map::<Seq<char>, Seq<char>>::empty(),
            expected_statuses: None,
            expected_body: None,
            port: None,
            consecutive_success: None,
            consecutive_failure: None,
            reuse_connection: false,
            max_response_body_bytes: None,
            slow_start_ms: None,
        }
    }
}

impl HealthCheckConfig {
    /// Nothing configured.
    pub fn unset() -> (r: HealthCheckConfig)
        ensures
            r.deep_view() == HealthCheckConfigV::unset(),
    {
        let r = HealthCheckConfig {
            path: None,
            interval_secs: None,
            timeout_secs: None,
            method: None,
            host: None,
            headers: Table::new(),
            expected_statuses: None,
            expected_body: None,
            port: None,
            consecutive_success: None,
            consecutive_failure: None,
            reuse_connection: false,
            max_response_body_bytes: None,
            slow_start_ms: None,
        };
        assert(r.deep_view() =~= HealthCheckConfigV::unset());
        r
    }
}

/// Upstreams taken from address records.
#[derive(Debug, PartialEq, Eq)]
pub struct DynamicAddrUpstream {
    pub name: String,
    pub port: u16,
    pub refresh_secs: Option<u64>,
    pub resolvers: Vec<String>,
    pub dial_timeout_ms: Option<u64>,
    pub fallback_delay_ms: Option<i64>,
    pub versions: Option<String>,
}

/// The mathematical value of a [`DynamicAddrUpstream`].
#[verifier::ext_equal]
pub struct DynamicAddrUpstreamV {
    pub name: Seq<char>,
    pub port: u16,
    pub refresh_secs: Option<u64>,
    pub resolvers: Seq<Seq<char>>,
    pub dial_timeout_ms: Option<u64>,
    pub fallback_delay_ms: Option<i64>,
    pub versions: Option<Seq<char>>,
}

impl DeepView for DynamicAddrUpstream {
    type V = DynamicAddrUpstreamV;

    open spec fn deep_view(&self) -> DynamicAddrUpstreamV {
        DynamicAddrUpstreamV {
            name: self.name.deep_view(),
            port: self.port.deep_view(),
            refresh_secs: self.refresh_secs.deep_view(),
            resolvers: self.resolvers.deep_view(),
            dial_timeout_ms: self.dial_timeout_ms.deep_view(),
            fallback_delay_ms: self.fallback_delay_ms.deep_view(),
            versions: self.versions.deep_view(),
        }
    }
}

impl Duplicate for DynamicAddrUpstream {
    fn duplicate(&self) -> Self {
        DynamicAddrUpstream {
            name: self.name.duplicate(),
            port: self.port.duplicate(),
            refresh_secs: self.refresh_secs.duplicate(),
            resolvers: self.resolvers.duplicate(),
            dial_timeout_ms: self.dial_timeout_ms.duplicate(),
            fallback_delay_ms: self.fallback_delay_ms.duplicate(),
            versions: self.versions.duplicate(),
        }
    }
}

/// Upstreams taken from service records.
#[derive(Debug, PartialEq, Eq)]
pub struct DynamicSrvUpstream {
    pub name: String,
    pub service: Option<String>,
    pub proto: Option<String>,
    pub refresh_secs: Option<u64>,
    pub resolvers: Vec<String>,
    pub dial_timeout_ms: Option<u64>,
    pub fallback_delay_ms: Option<i64>,
    pub grace_period_ms: Option<u64>,
}

/// The mathematical value of a [`DynamicSrvUpstream`].
#[verifier::ext_equal]
pub struct DynamicSrvUpstreamV {
    pub name: Seq<char>,
    pub service: Option<Seq<char>>,
    pub proto: Option<Seq<char>>,
    pub refresh_secs: Option<u64>,
    pub resolvers: Seq<Seq<char>>,
    pub dial_timeout_ms: Option<u64>,
    pub fallback_delay_ms: Option<i64>,
    pub grace_period_ms: Option<u64>,
}

impl DeepView for DynamicSrvUpstream {
    type V = DynamicSrvUpstreamV;

    open spec fn deep_view(&self) -> DynamicSrvUpstreamV {
        DynamicSrvUpstreamV {
            name: self.name.deep_view(),
            service: self.service.deep_view(),
            proto: self.proto.deep_view(),
            refresh_secs: self.refresh_secs.deep_view(),
            resolvers: self.resolvers.deep_view(),
            dial_timeout_ms: self.dial_timeout_ms.deep_view(),
            fallback_delay_ms: self.fallback_delay_ms.deep_view(),
            grace_period_ms: self.grace_period_ms.deep_view(),
        }
    }
}

impl Duplicate for DynamicSrvUpstream {
    fn duplicate(&self) -> Self {
        DynamicSrvUpstream {
            name: self.name.duplicate(),
            service: self.service.duplicate(),
            proto: self.proto.duplicate(),
            refresh_secs: self.refresh_secs.duplicate(),
            resolvers: self.resolvers.duplicate(),
            dial_timeout_ms: self.dial_timeout_ms.duplicate(),
            fallback_delay_ms: self.fallback_delay_ms.duplicate(),
            grace_period_ms: self.grace_period_ms.duplicate(),
        }
    }
}

/// A DNS source of upstreams.
#[derive(Debug, PartialEq, Eq)]
pub enum DynamicUpstreamConfig {
    A(DynamicAddrUpstream),
    Srv(DynamicSrvUpstream),
}

/// The mathematical value of a [`DynamicUpstreamConfig`].
#[verifier::ext_equal]
pub enum DynamicUpstreamConfigV {
    A(DynamicAddrUpstreamV),
    Srv(DynamicSrvUpstreamV),
}

impl DeepView for DynamicUpstreamConfig {
    type V = DynamicUpstreamConfigV;

    open spec fn deep_view(&self) -> DynamicUpstreamConfigV {
        match self {
            DynamicUpstreamConfig::A(a) => DynamicUpstreamConfigV::A(a.deep_view()),
            DynamicUpstreamConfig::Srv(a) => DynamicUpstreamConfigV::Srv(a.deep_view()),
        }
    }
}

impl Duplicate for DynamicUpstreamConfig {
    fn duplicate(&self) -> Self {
        match self {
            DynamicUpstreamConfig::A(a) => DynamicUpstreamConfig::A(a.duplicate()),
            DynamicUpstreamConfig::Srv(a) => DynamicUpstreamConfig::Srv(a.duplicate()),
        }
    }
}

/// A condition on an upstream response.
#[derive(Debug, PartialEq, Eq)]
pub struct ResponseMatcher {
    /// Codes, or single digits that stand for a whole class.
    pub status_codes: Vec<u16>,
    pub headers: Table<Vec<String>>,
}

/// The mathematical value of a [`ResponseMatcher`].
#[verifier::ext_equal]
pub struct ResponseMatcherV {
    pub status_codes: Seq<u16>,
    pub headers: Map<Seq<char>, Seq<Seq<char>>>,
}

impl DeepView for ResponseMatcher {
    type V = ResponseMatcherV;

    open spec fn deep_view(&self) -> ResponseMatcherV {
        ResponseMatcherV {
            status_codes: self.status_codes.deep_view(),
            headers: self.headers.deep_view(),
        }
    }
}

impl Duplicate for ResponseMatcher {
    fn duplicate(&self) -> Self {
        ResponseMatcher {
            status_codes: self.status_codes.duplicate(),
            headers: self.headers.duplicate(),
        }
    }
}

impl ResponseMatcherV {
    /// Nothing configured.
    pub open spec fn unset() -> ResponseMatcherV {
        ResponseMatcherV {
            status_codes: Seq::<u16>::empty(),
            headers: Map::<Seq<char>, Seq<Seq<char>>>::empty(),
        }
    }
}

impl ResponseMatcher {
    /// Nothing configured.
    pub fn unset() -> (r: ResponseMatcher)
        ensures
            r.deep_view() == ResponseMatcherV::unset(),
    {
        let r = ResponseMatcher {
            status_codes: Vec::new(),
            headers: Table::new(),
        };
        assert(r.deep_view() =~= ResponseMatcherV::unset());
        r
    }
}

/// One step taken on an intercepted response.
#[derive(Debug, PartialEq, Eq)]
pub enum HandlerConfig {
    Respond { status: u16, body: Option<String>, headers: Table<String> },
    CopyResponse { status_code: Option<u16> },
    CopyResponseHeaders { included: Vec<String>, excluded: Vec<String> },
    Headers { set: Table<String>, add: Table<String>, remove: Vec<String> },
    Error { status: u16, message: Option<String> },
    Vars { values: Table<String> },
    Rewrite { replace: Option<String> },
    FileServer { root: String, index: Vec<String>, browse: bool, compress: bool, canonical_uris: bool },
}

/// The mathematical value of a [`HandlerConfig`].
#[verifier::ext_equal]
pub enum HandlerConfigV {
    Respond { status: u16, body: Option<Seq<char>>, headers: Map<Seq<char>, Seq<char>> },
    CopyResponse { status_code: Option<u16> },
    CopyResponseHeaders { included: Seq<Seq<char>>, excluded: Seq<Seq<char>> },
    Headers { set: Map<Seq<char>, Seq<char>>, add: Map<Seq<char>, Seq<char>>, remove: Seq<Seq<char>> },
    Error { status: u16, message: Option<Seq<char>> },
    Vars { values: Map<Seq<char>, Seq<char>> },
    Rewrite { replace: Option<Seq<char>> },
    FileServer { root: Seq<char>, index: Seq<Seq<char>>, browse: bool, compress: bool, canonical_uris: bool },
}

impl DeepView for HandlerConfig {
    type V = HandlerConfigV;

    open spec fn deep_view(&self) -> HandlerConfigV {
        match self {
            HandlerConfig::Respond { status, body, headers } => HandlerConfigV::Respond { status: status.deep_view(), body: body.deep_view(), headers: headers.deep_view() },
            HandlerConfig::CopyResponse { status_code } => HandlerConfigV::CopyResponse { status_code: status_code.deep_view() },
            HandlerConfig::CopyResponseHeaders { included, excluded } => HandlerConfigV::CopyResponseHeaders { included: included.deep_view(), excluded: excluded.deep_view() },
            HandlerConfig::Headers { set, add, remove } => HandlerConfigV::Headers { set: set.deep_view(), add: add.deep_view(), remove: remove.deep_view() },
            HandlerConfig::Error { status, message } => HandlerConfigV::Error { status: status.deep_view(), message: message.deep_view() },
            HandlerConfig::Vars { values } => HandlerConfigV::Vars { values: values.deep_view() },
            HandlerConfig::Rewrite { replace } => HandlerConfigV::Rewrite { replace: replace.deep_view() },
            HandlerConfig::FileServer { root, index, browse, compress, canonical_uris } => HandlerConfigV::FileServer { root: root.deep_view(), index: index.deep_view(), browse: browse.deep_view(), compress: compress.deep_view(), canonical_uris: canonical_uris.deep_view() },
        }
    }
}

impl Duplicate for HandlerConfig {
    fn duplicate(&self) -> Self {
        match self {
            HandlerConfig::Respond { status, body, headers } => HandlerConfig::Respond { status: status.duplicate(), body: body.duplicate(), headers: headers.duplicate() },
            HandlerConfig::CopyResponse { status_code } => HandlerConfig::CopyResponse { status_code: status_code.duplicate() },
            HandlerConfig::CopyResponseHeaders { included, excluded } => HandlerConfig::CopyResponseHeaders { included: included.duplicate(), excluded: excluded.duplicate() },
            HandlerConfig::Headers { set, add, remove } => HandlerConfig::Headers { set: set.duplicate(), add: add.duplicate(), remove: remove.duplicate() },
            HandlerConfig::Error { status, message } => HandlerConfig::Error { status: status.duplicate(), message: message.duplicate() },
            HandlerConfig::Vars { values } => HandlerConfig::Vars { values: values.duplicate() },
            HandlerConfig::Rewrite { replace } => HandlerConfig::Rewrite { replace: replace.duplicate() },
            HandlerConfig::FileServer { root, index, browse, compress, canonical_uris } => HandlerConfig::FileServer { root: root.duplicate(), index: index.duplicate(), browse: browse.duplicate(), compress: compress.duplicate(), canonical_uris: canonical_uris.duplicate() },
        }
    }
}

/// What to do with the responses a matcher selects.
#[derive(Debug, PartialEq, Eq)]
pub struct ResponseHandlerConfig {
    pub matcher: Option<ResponseMatcher>,
    pub status_code: Option<String>,
    pub handlers: Vec<HandlerConfig>,
}

/// The mathematical value of a [`ResponseHandlerConfig`].
#[verifier::ext_equal]
pub struct ResponseHandlerConfigV {
    pub matcher: Option<ResponseMatcherV>,
    pub status_code: Option<Seq<char>>,
    pub handlers: Seq<HandlerConfigV>,
}

impl DeepView for ResponseHandlerConfig {
    type V = ResponseHandlerConfigV;

    open spec fn deep_view(&self) -> ResponseHandlerConfigV {
        ResponseHandlerConfigV {
            matcher: self.matcher.deep_view(),
            status_code: self.status_code.deep_view(),
            handlers: self.handlers.deep_view(),
        }
    }
}

impl Duplicate for ResponseHandlerConfig {
    fn duplicate(&self) -> Self {
        ResponseHandlerConfig {
            matcher: self.matcher.duplicate(),
            status_code: self.status_code.duplicate(),
            handlers: self.handlers.duplicate(),
        }
    }
}

/// A reverse proxy.
#[derive(Debug, PartialEq, Eq)]
pub struct ProxyConfig {
    pub upstreams: Vec<String>,
    pub upstream_options: Vec<ProxyUpstreamConfig>,
    pub header_up: Table<Expr>,
    pub flush_interval: Option<FlushInterval>,
    pub transport: Option<TransportConfig>,
    pub cache: Option<CacheConfig>,
    pub retry: RetryConfig,
    pub overload: OverloadConfig,
    pub circuit_breaker: CircuitBreakerConfig,
    pub health_check: Option<HealthCheckConfig>,
    pub lb_policy: Option<String>,
    pub lb_hash_key: Option<String>,
    pub dynamic: Option<DynamicUpstreamConfig>,
    pub fastcgi: Option<FastCgiTransportConfig>,
    pub transport_options: Table<String>,
    pub handle_response: Vec<ResponseHandlerConfig>,
    pub rewrite_method: Option<String>,
    pub rewrite_uri: Option<String>,
    pub request_buffer_bytes: Option<i64>,
    pub response_buffer_bytes: Option<i64>,
}

/// The mathematical value of a [`ProxyConfig`].
#[verifier::ext_equal]
pub struct ProxyConfigV {
    pub upstreams: Seq<Seq<char>>,
    pub upstream_options: Seq<ProxyUpstreamConfigV>,
    pub header_up: Map<Seq<char>, ExprV>,
    pub flush_interval: Option<FlushInterval>,
    pub transport: Option<TransportConfigV>,
    pub cache: Option<CacheConfig>,
    pub retry: RetryConfigV,
    pub overload: OverloadConfig,
    pub circuit_breaker: CircuitBreakerConfigV,
    pub health_check: Option<HealthCheckConfigV>,
    pub lb_policy: Option<Seq<char>>,
    pub lb_hash_key: Option<Seq<char>>,
    pub dynamic: Option<DynamicUpstreamConfigV>,
    pub fastcgi: Option<FastCgiTransportConfigV>,
    pub transport_options: Map<Seq<char>, Seq<char>>,
    pub handle_response: Seq<ResponseHandlerConfigV>,
    pub rewrite_method: Option<Seq<char>>,
    pub rewrite_uri: Option<Seq<char>>,
    pub request_buffer_bytes: Option<i64>,
    pub response_buffer_bytes: Option<i64>,
}

impl DeepView for ProxyConfig {
    type V = ProxyConfigV;

    open spec fn deep_view(&self) -> ProxyConfigV {
        ProxyConfigV {
            upstreams: self.upstreams.deep_view(),
            upstream_options: self.upstream_options.deep_view(),
            header_up: self.header_up.deep_view(),
            flush_interval: self.flush_interval.deep_view(),
            transport: self.transport.deep_view(),
            cache: self.cache.deep_view(),
            retry: self.retry.deep_view(),
            overload: self.overload.deep_view(),
            circuit_breaker: self.circuit_breaker.deep_view(),
            health_check: self.health_check.deep_view(),
            lb_policy: self.lb_policy.deep_view(),
            lb_hash_key: self.lb_hash_key.deep_view(),
            dynamic: self.dynamic.deep_view(),
            fastcgi: self.fastcgi.deep_view(),
            transport_options: self.transport_options.deep_view(),
            handle_response: self.handle_response.deep_view(),
            rewrite_method: self.rewrite_method.deep_view(),
            rewrite_uri: self.rewrite_uri.deep_view(),
            request_buffer_bytes: self.request_buffer_bytes.deep_view(),
            response_buffer_bytes: self.response_buffer_bytes.deep_view(),
        }
    }
}

impl Duplicate for ProxyConfig {
    fn duplicate(&self) -> Self {
        ProxyConfig {
            upstreams: self.upstreams.duplicate(),
            upstream_options: self.upstream_options.duplicate(),
            header_up: self.header_up.duplicate(),
            flush_interval: self.flush_interval.duplicate(),
            transport: self.transport.duplicate(),
            cache: self.cache.duplicate(),
            retry: self.retry.duplicate(),
            overload: self.overload.duplicate(),
            circuit_breaker: self.circuit_breaker.duplicate(),
            health_check: self.health_check.duplicate(),
            lb_policy: self.lb_policy.duplicate(),
            lb_hash_key: self.lb_hash_key.duplicate(),
            dynamic: self.dynamic.duplicate(),
            fastcgi: self.fastcgi.duplicate(),
            transport_options: self.transport_options.duplicate(),
            handle_response: self.handle_response.duplicate(),
            rewrite_method: self.rewrite_method.duplicate(),
            rewrite_uri: self.rewrite_uri.duplicate(),
            request_buffer_bytes: self.request_buffer_bytes.duplicate(),
            response_buffer_bytes: self.response_buffer_bytes.duplicate(),
        }
    }
}

impl ProxyConfigV {
    /// Nothing configured.
    pub open spec fn unset() -> ProxyConfigV {
        ProxyConfigV {
            upstreams: Seq::<Seq<char>>::empty(),
            upstream_options: Seq::<ProxyUpstreamConfigV>::empty(),
            header_up: Map::<Seq<char>, ExprV>::empty(),
            flush_interval: None,
            transport: None,
            cache: None,
            retry: RetryConfigV::unset(),
            overload: OverloadConfig::none(),
            circuit_breaker: CircuitBreakerConfigV::unset(),
            health_check: None,
            lb_policy: None,
            lb_hash_key: None,
            dynamic: None,
            fastcgi: None,
            transport_options: Map::<Seq<char>, Seq<char>>::empty(),
            handle_response: Seq::<ResponseHandlerConfigV>::empty(),
            rewrite_method: None,
            rewrite_uri: None,
            request_buffer_bytes: None,
            response_buffer_bytes: None,
        }
    }
}

impl ProxyConfig {
    /// Nothing configured.
    pub fn unset() -> (r: ProxyConfig)
        ensures
            r.deep_view() == ProxyConfigV::unset(),
    {
        let r = ProxyConfig {
            upstreams: Vec::new(),
            upstream_options: Vec::new(),
            header_up: Table::new(),
            flush_interval: None,
            transport: None,
            cache: None,
            retry: RetryConfig::unset(),
            overload: OverloadConfig::unset(),
            circuit_breaker: CircuitBreakerConfig::unset(),
            health_check: None,
            lb_policy: None,
            lb_hash_key: None,
            dynamic: None,
            fastcgi: None,
            transport_options: Table::new(),
            handle_response: Vec::new(),
            rewrite_method: None,
            rewrite_uri: None,
            request_buffer_bytes: None,
            response_buffer_bytes: None,
        };
        assert(r.deep_view() =~= ProxyConfigV::unset());
        r
    }
}

} // verus!
