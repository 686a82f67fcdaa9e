//! The policies in a `reverse_proxy` block: caching, retries, admission, breakers and health.

use crate::adapter::args;
use crate::adapter::args::{
    expect_no_arguments, expect_one_argument, parse_codes, parse_positive_u32,
    parse_positive_usize, parse_required_duration, parse_whole_seconds, read_u16,
};
use crate::adapter::profile::Profile;
use crate::ast::proxy::{
    CacheConfig, CircuitBreakerConfig, CircuitBreakerConfigV, HealthCheckConfig,
    HealthCheckConfigV, OverloadConfig, RetryConfig, RetryConfigV, UpstreamTlsConfig,
    UpstreamTlsConfigV,
};
use crate::error;
use crate::error::{invalid, miscount, unknown, unknown_in, AdapterError, ErrorV};
use crate::fold;
use crate::fold::fold_directives;
use crate::syntax::{Block, Directive, DirectiveV};
use crate::text;
use crate::text::{same, to_upper, upper_each};
use vstd::prelude::*;

verus! {

/// The block of a directive that takes no arguments and must have one.
pub open spec fn required_block(name: Seq<char>, d: DirectiveV) -> Result<Seq<DirectiveV>, ErrorV> {
    if d.args.len() != 0 {
        Err(ErrorV::ArgumentCount(name, 0, d.args.len() as usize))
    } else {
        match d.block {
            Some(list) => Ok(list),
            None => Err(ErrorV::InvalidArgument(name, "block required"@)),
        }
    }
}

/// Reads the block of a directive that takes no arguments and must have one.
pub fn expect_block<'a>(name: &str, d: &'a Directive) -> (r: Result<&'a Block, AdapterError>)
    ensures
        error::outcome(r) == required_block(name@, d.deep_view()),
{
    if d.args.len() != 0 {
        return Err(miscount(name, 0, d.args.len()));
    }
    match &d.block {
        Some(block) => Ok(block),
        None => Err(invalid(name, "block required")),
    }
}

// ---------------------------------------------------------------------------
// Health checks
// ---------------------------------------------------------------------------
/// One line of a `health_check` block.
pub open spec fn health_option(h: HealthCheckConfigV, d: DirectiveV) -> Result<
    HealthCheckConfigV,
    ErrorV,
> {
    if d.name == "path"@ {
        error::with(args::sole(d), |v: Seq<char>| HealthCheckConfigV { path: Some(v), ..h })
    } else if d.name == "interval"@ {
        error::with(
            args::seconds(d, "interval must be a whole number of seconds"@),
            |v: u64| HealthCheckConfigV { interval_secs: Some(v), ..h },
        )
    } else if d.name == "timeout"@ {
        error::with(
            args::seconds(d, "timeout must be a whole number of seconds"@),
            |v: u64| HealthCheckConfigV { timeout_secs: Some(v), ..h },
        )
    } else if d.name == "method"@ {
        error::with(
            args::sole(d),
            |v: Seq<char>| HealthCheckConfigV { method: Some(text::upper(v)), ..h },
        )
    } else if d.name == "host"@ {
        error::with(args::sole(d), |v: Seq<char>| HealthCheckConfigV { host: Some(v), ..h })
    } else if d.name == "header"@ {
        if d.args.len() != 2 {
            Err(ErrorV::ArgumentCount(d.name, 2, d.args.len() as usize))
        } else {
            Ok(HealthCheckConfigV { headers: h.headers.insert(d.args[0], d.args[1]), ..h })
        }
    } else if d.name == "status"@ {
        if d.args.len() == 0 {
            Err(ErrorV::ArgumentCount(d.name, 1, 0))
        } else {
            error::with(
                args::codes(d.name, d.args),
                |v: Seq<u16>| HealthCheckConfigV { expected_statuses: Some(v), ..h },
            )
        }
    } else if d.name == "body"@ {
        error::with(
            args::sole(d),
            |v: Seq<char>| HealthCheckConfigV { expected_body: Some(v), ..h },
        )
    } else if d.name == "port"@ {
        match args::sole(d) {
            Err(e) => Err(e),
            Ok(raw) => error::with(
                args::port(d.name, raw),
                |v: u16| HealthCheckConfigV { port: Some(v), ..h },
            ),
        }
    } else if d.name == "consecutive_success"@ {
        error::with(
            args::positive_u32(d),
            |v: u32| HealthCheckConfigV { consecutive_success: Some(v), ..h },
        )
    } else if d.name == "consecutive_failure"@ {
        error::with(
            args::positive_u32(d),
            |v: u32| HealthCheckConfigV { consecutive_failure: Some(v), ..h },
        )
    } else if d.name == "reuse_connection"@ {
        error::with(args::bare(d), |v: ()| HealthCheckConfigV { reuse_connection: true, ..h })
    } else if d.name == "max_response_body_bytes"@ {
        error::with(
            args::positive_size(d),
            |v: usize| HealthCheckConfigV { max_response_body_bytes: Some(v), ..h },
        )
    } else if d.name == "slow_start"@ {
        error::with(args::span(d), |v: u64| HealthCheckConfigV { slow_start_ms: Some(v), ..h })
    } else {
        Err(ErrorV::UnknownDirective("health_check: "@ + d.name))
    }
}

/// What a `health_check` block configures.
pub open spec fn health_check(d: DirectiveV) -> Result<HealthCheckConfigV, ErrorV> {
    match required_block("health_check"@, d) {
        Err(e) => Err(e),
        Ok(list) => fold::fold(
            |h: HealthCheckConfigV, o: DirectiveV| health_option(h, o),
            HealthCheckConfigV::unset(),
            list,
        ),
    }
}

fn read_health_option(h: HealthCheckConfig, d: &Directive) -> (r: Result<
    HealthCheckConfig,
    AdapterError,
>)
    ensures
        error::outcome(r) == health_option(h.deep_view(), d.deep_view()),
{
    let mut h = h;
    let name = d.name.as_str();
    if same(name, "path") {
        h.path = Some(expect_one_argument(d)?.to_owned());
    } else if same(name, "interval") {
        h.interval_secs = Some(parse_whole_seconds(d, "interval must be a whole number of seconds")?);
    } else if same(name, "timeout") {
        h.timeout_secs = Some(parse_whole_seconds(d, "timeout must be a whole number of seconds")?);
    } else if same(name, "method") {
        h.method = Some(to_upper(expect_one_argument(d)?));
    } else if same(name, "host") {
        h.host = Some(expect_one_argument(d)?.to_owned());
    } else if same(name, "header") {
        if d.args.len() != 2 {
            return Err(miscount(name, 2, d.args.len()));
        }
        h.headers.insert(d.args[0].clone(), d.args[1].clone());
    } else if same(name, "status") {
        if d.args.len() == 0 {
            return Err(miscount(name, 1, 0));
        }
        h.expected_statuses = Some(parse_codes(name, &d.args)?);
    } else if same(name, "body") {
        h.expected_body = Some(expect_one_argument(d)?.to_owned());
    } else if same(name, "port") {
        let raw = expect_one_argument(d)?;
        h.port = Some(read_u16(name, raw)?);
    } else if same(name, "consecutive_success") {
        h.consecutive_success = Some(parse_positive_u32(d)?);
    } else if same(name, "consecutive_failure") {
        h.consecutive_failure = Some(parse_positive_u32(d)?);
    } else if same(name, "reuse_connection") {
        expect_no_arguments(d)?;
        h.reuse_connection = true;
    } else if same(name, "max_response_body_bytes") {
        h.max_response_body_bytes = Some(parse_positive_usize(d)?);
    } else if same(name, "slow_start") {
        h.slow_start_ms = Some(parse_required_duration(d)?);
    } else {
        return Err(unknown_in("health_check: ", name));
    }
    Ok(h)
}

/// Adapts one active health-check policy.
pub fn adapt_health_check(directive: &Directive) -> (r: Result<HealthCheckConfig, AdapterError>)
    ensures
        error::outcome(r) == health_check(directive.deep_view()),
{
    let block = expect_block("health_check", directive)?;
    fold_directives(
        read_health_option,
        HealthCheckConfig::unset(),
        &block.directives,
        Ghost(|h: HealthCheckConfigV, o: DirectiveV| health_option(h, o)),
    )
}

// ---------------------------------------------------------------------------
// Caching
// ---------------------------------------------------------------------------
/// The lines of a `cache` block read so far.
#[derive(Clone, Copy)]
pub struct CacheDraft {
    pub ttl_secs: Option<u64>,
    pub max_size_bytes: Option<usize>,
}

impl DeepView for CacheDraft {
    type V = CacheDraft;

    open spec fn deep_view(&self) -> CacheDraft {
        *self
    }
}

/// One line of a `cache` block.
pub open spec fn cache_option(profile: Profile, c: CacheDraft, d: DirectiveV) -> Result<
    CacheDraft,
    ErrorV,
> {
    if d.name == "ttl"@ {
        error::with(
            args::span(d),
            |ms: u64| CacheDraft { ttl_secs: Some((ms / 1000) as u64), ..c },
        )
    } else if profile == Profile::Extended && d.name == "max_size"@ {
        error::with(args::positive_size(d), |n: usize| CacheDraft { max_size_bytes: Some(n), ..c })
    } else {
        Err(ErrorV::UnknownDirective(d.name))
    }
}

/// What a `cache` block configures; how long content stays valid must be said.
pub open spec fn cache_policy(profile: Profile, d: DirectiveV) -> Result<CacheConfig, ErrorV> {
    match required_block("cache"@, d) {
        Err(e) => Err(e),
        Ok(list) => match fold::fold(
            |c: CacheDraft, o: DirectiveV| cache_option(profile, c, o),
            CacheDraft { ttl_secs: None, max_size_bytes: None },
            list,
        ) {
            Err(e) => Err(e),
            Ok(c) => match c.ttl_secs {
                Some(ttl_secs) => Ok(CacheConfig { ttl_secs, max_size_bytes: c.max_size_bytes }),
                None => Err(ErrorV::InvalidArgument("cache"@, "ttl is required"@)),
            },
        },
    }
}

fn read_cache_option(profile: Profile, c: CacheDraft, d: &Directive) -> (r: Result<
    CacheDraft,
    AdapterError,
>)
    ensures
        error::outcome(r) == cache_option(profile, c, d.deep_view()),
{
    let mut c = c;
    let name = d.name.as_str();
    if same(name, "ttl") {
        let ms: u64 = parse_required_duration(d)?;
        c.ttl_secs = Some(ms / 1000);
    } else if profile == Profile::Extended && same(name, "max_size") {
        c.max_size_bytes = Some(parse_positive_usize(d)?);
    } else {
        return Err(unknown(name));
    }
    Ok(c)
}

/// Adapts `cache { ttl <duration> }`.
///
/// How long someone else's content stays valid has no default: it is the operator's call.
pub fn adapt_cache_policy(profile: Profile, directive: &Directive) -> (r: Result<
    CacheConfig,
    AdapterError,
>)
    ensures
        error::outcome(r) == cache_policy(profile, directive.deep_view()),
{
    let block = expect_block("cache", directive)?;
    let read = |c: CacheDraft, d: &Directive| -> (r: Result<CacheDraft, AdapterError>)
        ensures
            error::outcome(r) == cache_option(profile, c, d.deep_view()),
        { read_cache_option(profile, c, d) };
    let c = fold_directives(
        read,
        CacheDraft { ttl_secs: None, max_size_bytes: None },
        &block.directives,
        Ghost(|c: CacheDraft, o: DirectiveV| cache_option(profile, c, o)),
    )?;
    match c.ttl_secs {
        Some(ttl_secs) => Ok(CacheConfig { ttl_secs, max_size_bytes: c.max_size_bytes }),
        None => Err(invalid("cache", "ttl is required")),
    }
}

// ---------------------------------------------------------------------------
// Retries
// ---------------------------------------------------------------------------
/// One line of a `retry` block.
pub open spec fn retry_option(c: RetryConfigV, d: DirectiveV) -> Result<RetryConfigV, ErrorV> {
    if d.name == "max_attempts"@ {
        error::with(args::positive_size(d), |n: usize| RetryConfigV { max_attempts: Some(n), ..c })
    } else if d.name == "total_timeout"@ {
        error::with(args::span(d), |ms: u64| RetryConfigV { total_timeout_ms: Some(ms), ..c })
    } else if d.name == "backoff"@ {
        if d.args.len() == 1 && d.args[0] == "off"@ {
            Ok(RetryConfigV { backoff_ms: Some(0), ..c })
        } else {
            error::with(args::span(d), |ms: u64| RetryConfigV { backoff_ms: Some(ms), ..c })
        }
    } else if d.name == "status_codes"@ {
        if d.args.len() == 0 {
            Err(ErrorV::ArgumentCount(d.name, 1, 0))
        } else {
            error::with(
                args::codes(d.name, d.args),
                |v: Seq<u16>| RetryConfigV { status_codes: v, ..c },
            )
        }
    } else if d.name == "methods"@ {
        if d.args.len() == 0 {
            Err(ErrorV::ArgumentCount(d.name, 1, 0))
        } else {
            Ok(RetryConfigV { methods: text::uppered(d.args), ..c })
        }
    } else {
        Err(ErrorV::UnknownDirective("retry: "@ + d.name))
    }
}

/// What a `retry` block configures.
pub open spec fn retry_policy(d: DirectiveV) -> Result<RetryConfigV, ErrorV> {
    match required_block("retry"@, d) {
        Err(e) => Err(e),
        Ok(list) => fold::fold(
            |c: RetryConfigV, o: DirectiveV| retry_option(c, o),
            RetryConfigV::unset(),
            list,
        ),
    }
}

fn read_retry_option(c: RetryConfig, d: &Directive) -> (r: Result<RetryConfig, AdapterError>)
    ensures
        error::outcome(r) == retry_option(c.deep_view(), d.deep_view()),
{
    let mut c = c;
    let name = d.name.as_str();
    if same(name, "max_attempts") {
        c.max_attempts = Some(parse_positive_usize(d)?);
    } else if same(name, "total_timeout") {
        c.total_timeout_ms = Some(parse_required_duration(d)?);
    } else if same(name, "backoff") {
        if d.args.len() == 1 && same(d.args[0].as_str(), "off") {
            c.backoff_ms = Some(0);
        } else {
            c.backoff_ms = Some(parse_required_duration(d)?);
        }
    } else if same(name, "status_codes") {
        if d.args.len() == 0 {
            return Err(miscount(name, 1, 0));
        }
        c.status_codes = parse_codes(name, &d.args)?;
    } else if same(name, "methods") {
        if d.args.len() == 0 {
            return Err(miscount(name, 1, 0));
        }
        c.methods = upper_each(&d.args);
    } else {
        return Err(unknown_in("retry: ", name));
    }
    Ok(c)
}

/// Adapts one redispatch policy.
pub fn adapt_retry_policy(directive: &Directive) -> (r: Result<RetryConfig, AdapterError>)
    ensures
        error::outcome(r) == retry_policy(directive.deep_view()),
{
    let block = expect_block("retry", directive)?;
    fold_directives(
        read_retry_option,
        RetryConfig::unset(),
        &block.directives,
        Ghost(|c: RetryConfigV, o: DirectiveV| retry_option(c, o)),
    )
}

// ---------------------------------------------------------------------------
// Admission
// ---------------------------------------------------------------------------
/// One line of an `overload` block.
pub open spec fn overload_option(c: OverloadConfig, d: DirectiveV) -> Result<
    OverloadConfig,
    ErrorV,
> {
    if d.name == "max_in_flight"@ {
        error::with(
            args::positive_size(d),
            |n: usize| OverloadConfig { max_in_flight: Some(n), ..c },
        )
    } else if d.name == "max_pending"@ {
        error::with(args::positive_size(d), |n: usize| OverloadConfig { max_pending: Some(n), ..c })
    } else if d.name == "pending_timeout"@ {
        error::with(args::span(d), |ms: u64| OverloadConfig { pending_timeout_ms: Some(ms), ..c })
    } else if d.name == "upstream_max_connections"@ {
        error::with(
            args::positive_size(d),
            |n: usize| OverloadConfig { upstream_max_connections: Some(n), ..c },
        )
    } else {
        Err(ErrorV::UnknownDirective("overload: "@ + d.name))
    }
}

/// What an `overload` block configures; at least one limit must be set.
pub open spec fn overload_policy(d: DirectiveV) -> Result<OverloadConfig, ErrorV> {
    match required_block("overload"@, d) {
        Err(e) => Err(e),
        Ok(list) => if list.len() == 0 {
            Err(ErrorV::InvalidArgument("overload"@, "at least one limit is required"@))
        } else {
            match fold::fold(
                |c: OverloadConfig, o: DirectiveV| overload_option(c, o),
                OverloadConfig::none(),
                list,
            ) {
                Err(e) => Err(e),
                Ok(c) => if c.max_in_flight is None && c.max_pending is None
                    && c.upstream_max_connections is None {
                    Err(
                        ErrorV::InvalidArgument(
                            "overload"@,
                            "at least one active limit is required"@,
                        ),
                    )
                } else {
                    Ok(c)
                },
            }
        },
    }
}

fn read_overload_option(c: OverloadConfig, d: &Directive) -> (r: Result<
    OverloadConfig,
    AdapterError,
>)
    ensures
        error::outcome(r) == overload_option(c, d.deep_view()),
{
    let mut c = c;
    let name = d.name.as_str();
    if same(name, "max_in_flight") {
        c.max_in_flight = Some(parse_positive_usize(d)?);
    } else if same(name, "max_pending") {
        c.max_pending = Some(parse_positive_usize(d)?);
    } else if same(name, "pending_timeout") {
        c.pending_timeout_ms = Some(parse_required_duration(d)?);
    } else if same(name, "upstream_max_connections") {
        c.upstream_max_connections = Some(parse_positive_usize(d)?);
    } else {
        return Err(unknown_in("overload: ", name));
    }
    Ok(c)
}

/// Adapts route and upstream admission limits.
pub fn adapt_overload_policy(directive: &Directive) -> (r: Result<OverloadConfig, AdapterError>)
    ensures
        error::outcome(r) == overload_policy(directive.deep_view()),
{
    let block = expect_block("overload", directive)?;
    if block.directives.len() == 0 {
        return Err(invalid("overload", "at least one limit is required"));
    }
    let c = fold_directives(
        read_overload_option,
        OverloadConfig::unset(),
        &block.directives,
        Ghost(|c: OverloadConfig, o: DirectiveV| overload_option(c, o)),
    )?;
    if c.max_in_flight.is_none() && c.max_pending.is_none() && c.upstream_max_connections.is_none()
    {
        return Err(invalid("overload", "at least one active limit is required"));
    }
    Ok(c)
}

// ---------------------------------------------------------------------------
// Circuit breakers
// ---------------------------------------------------------------------------
/// One line of a `circuit_breaker` block.
pub open spec fn breaker_option(c: CircuitBreakerConfigV, d: DirectiveV) -> Result<
    CircuitBreakerConfigV,
    ErrorV,
> {
    if d.name == "consecutive_failures"@ {
        error::with(
            args::positive_u32(d),
            |n: u32| CircuitBreakerConfigV { consecutive_failures: Some(n), ..c },
        )
    } else if d.name == "error_rate_percent"@ {
        match args::positive_size(d) {
            Err(e) => Err(e),
            Ok(n) => if n <= u8::MAX {
                Ok(CircuitBreakerConfigV { error_rate_percent: Some(n as u8), ..c })
            } else {
                Err(ErrorV::InvalidArgument(d.name, "value is too large"@))
            },
        }
    } else if d.name == "minimum_requests"@ {
        error::with(
            args::positive_size(d),
            |n: usize| CircuitBreakerConfigV { minimum_requests: Some(n), ..c },
        )
    } else if d.name == "window_requests"@ {
        error::with(
            args::positive_size(d),
            |n: usize| CircuitBreakerConfigV { window_requests: Some(n), ..c },
        )
    } else if d.name == "open_for"@ {
        error::with(
            args::span(d),
            |ms: u64| CircuitBreakerConfigV { open_duration_ms: Some(ms), ..c },
        )
    } else if d.name == "half_open_requests"@ {
        error::with(
            args::positive_size(d),
            |n: usize| CircuitBreakerConfigV { half_open_requests: Some(n), ..c },
        )
    } else if d.name == "failure_statuses"@ {
        if d.args.len() == 0 {
            Err(ErrorV::ArgumentCount(d.name, 1, 0))
        } else {
            error::with(
                args::codes(d.name, d.args),
                |v: Seq<u16>| CircuitBreakerConfigV { failure_statuses: Some(v), ..c },
            )
        }
    } else {
        Err(ErrorV::UnknownDirective("circuit_breaker: "@ + d.name))
    }
}

/// What a `circuit_breaker` block configures; something must be able to trip the breaker.
pub open spec fn breaker_policy(d: DirectiveV) -> Result<CircuitBreakerConfigV, ErrorV> {
    match required_block("circuit_breaker"@, d) {
        Err(e) => Err(e),
        Ok(list) => if list.len() == 0 {
            Err(ErrorV::InvalidArgument("circuit_breaker"@, "at least one threshold is required"@))
        } else {
            match fold::fold(
                |c: CircuitBreakerConfigV, o: DirectiveV| breaker_option(c, o),
                CircuitBreakerConfigV::unset(),
                list,
            ) {
                Err(e) => Err(e),
                Ok(c) => if c.consecutive_failures is None && c.error_rate_percent is None {
                    Err(
                        ErrorV::InvalidArgument(
                            "circuit_breaker"@,
                            "consecutive_failures or error_rate_percent is required"@,
                        ),
                    )
                } else {
                    Ok(c)
                },
            }
        },
    }
}

fn read_breaker_option(c: CircuitBreakerConfig, d: &Directive) -> (r: Result<
    CircuitBreakerConfig,
    AdapterError,
>)
    ensures
        error::outcome(r) == breaker_option(c.deep_view(), d.deep_view()),
{
    let mut c = c;
    let name = d.name.as_str();
    if same(name, "consecutive_failures") {
        c.consecutive_failures = Some(parse_positive_u32(d)?);
    } else if same(name, "error_rate_percent") {
        let n: usize = parse_positive_usize(d)?;
        if n > u8::MAX as usize {
            return Err(invalid(name, "value is too large"));
        }
        c.error_rate_percent = Some(n as u8);
    } else if same(name, "minimum_requests") {
        c.minimum_requests = Some(parse_positive_usize(d)?);
    } else if same(name, "window_requests") {
        c.window_requests = Some(parse_positive_usize(d)?);
    } else if same(name, "open_for") {
        c.open_duration_ms = Some(parse_required_duration(d)?);
    } else if same(name, "half_open_requests") {
        c.half_open_requests = Some(parse_positive_usize(d)?);
    } else if same(name, "failure_statuses") {
        if d.args.len() == 0 {
            return Err(miscount(name, 1, 0));
        }
        c.failure_statuses = Some(parse_codes(name, &d.args)?);
    } else {
        return Err(unknown_in("circuit_breaker: ", name));
    }
    Ok(c)
}

/// Adapts one per-upstream circuit breaker.
pub fn adapt_circuit_breaker_policy(directive: &Directive) -> (r: Result<
    CircuitBreakerConfig,
    AdapterError,
>)
    ensures
        error::outcome(r) == breaker_policy(directive.deep_view()),
{
    let block = expect_block("circuit_breaker", directive)?;
    if block.directives.len() == 0 {
        return Err(invalid("circuit_breaker", "at least one threshold is required"));
    }
    let c = fold_directives(
        read_breaker_option,
        CircuitBreakerConfig::unset(),
        &block.directives,
        Ghost(|c: CircuitBreakerConfigV, o: DirectiveV| breaker_option(c, o)),
    )?;
    if c.consecutive_failures.is_none() && c.error_rate_percent.is_none() {
        return Err(
            invalid(
                "circuit_breaker",
                "consecutive_failures or error_rate_percent is required",
            ),
        );
    }
    Ok(c)
}

// ---------------------------------------------------------------------------
// TLS towards the upstream
// ---------------------------------------------------------------------------
/// Settings that cancel each other are refused.
pub open spec fn upstream_tls(tls: UpstreamTlsConfigV) -> Result<(), ErrorV> {
    if tls.insecure_skip_verify && tls.trusted_ca_certs.len() > 0 {
        Err(
            ErrorV::InvalidArgument(
                "tls_insecure_skip_verify"@,
                "cannot be combined with tls_trusted_ca_certs: skipping verification would make the configured trust roots meaningless"@,
            ),
        )
    } else if tls.insecure_skip_verify && tls.server_name is Some {
        Err(
            ErrorV::InvalidArgument(
                "tls_insecure_skip_verify"@,
                "cannot be combined with tls_server_name: the name would be sent as SNI but never verified"@,
            ),
        )
    } else {
        Ok(())
    }
}

/// Refuses upstream TLS settings that contradict each other.
pub fn validate_upstream_tls(tls: &UpstreamTlsConfig) -> (r: Result<(), AdapterError>)
    ensures
        error::outcome(r) == upstream_tls(tls.deep_view()),
{
    if tls.insecure_skip_verify && tls.trusted_ca_certs.len() > 0 {
        return Err(
            invalid(
                "tls_insecure_skip_verify",
                "cannot be combined with tls_trusted_ca_certs: skipping verification would make the configured trust roots meaningless",
            ),
        );
    }
    if tls.insecure_skip_verify && tls.server_name.is_some() {
        return Err(
            invalid(
                "tls_insecure_skip_verify",
                "cannot be combined with tls_server_name: the name would be sent as SNI but never verified",
            ),
        );
    }
    Ok(())
}

} // verus!
